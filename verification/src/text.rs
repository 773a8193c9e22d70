//! Verified text utilities over `Seq<char>` views: trimming, prefix and
//! suffix stripping, splitting, quoting, and decimal rendering. These are
//! the normalization steps the extractors apply to raw page text.

use vstd::prelude::*;

verus! {

/// Appends one character. Relies on `String::push`, which the standard
/// library documents as appending the given char to the end of the string.
pub assume_specification[ String::push ](s: &mut String, c: char)
    ensures
        final(s)@ == old(s)@.push(c),
;

/// The Unicode `White_Space` code points, the set `char::is_whitespace`
/// and `str::trim` go by.
pub open spec fn is_space_char(c: char) -> bool {
    let u = c as u32;
    u == 0x20 || (0x09 <= u && u <= 0x0d) || u == 0x85 || u == 0xa0 || u == 0x1680 || (0x2000
        <= u && u <= 0x200a) || u == 0x2028 || u == 0x2029 || u == 0x202f || u == 0x205f || u
        == 0x3000
}

pub fn is_space(c: char) -> (r: bool)
    ensures
        r == is_space_char(c),
{
    let u = c as u32;
    u == 0x20 || (0x09 <= u && u <= 0x0d) || u == 0x85 || u == 0xa0 || u == 0x1680 || (0x2000 <= u
        && u <= 0x200a) || u == 0x2028 || u == 0x2029 || u == 0x202f || u == 0x205f || u == 0x3000
}

/// `t` occurs in `s` at position `i`.
pub open spec fn seq_at(s: Seq<char>, i: int, t: Seq<char>) -> bool {
    0 <= i && i + t.len() <= s.len() && s.subrange(i, i + t.len()) == t
}

pub open spec fn spec_starts_with(s: Seq<char>, p: Seq<char>) -> bool {
    p.len() <= s.len() && s.subrange(0, p.len() as int) == p
}

pub open spec fn spec_ends_with(s: Seq<char>, p: Seq<char>) -> bool {
    p.len() <= s.len() && s.subrange(s.len() - p.len(), s.len() as int) == p
}

/// Does `t` occur in `s` at character position `i`?
pub fn str_matches_at(s: &str, i: usize, t: &str) -> (r: bool)
    ensures
        r == seq_at(s@, i as int, t@),
{
    let n = s.unicode_len();
    let m = t.unicode_len();
    if i > n || m > n - i {
        return false;
    }
    let mut k: usize = 0;
    while k < m
        invariant
            i + m <= n,
            n == s@.len(),
            m == t@.len(),
            k <= m,
            forall|q: int| 0 <= q < k ==> s@[i + q] == t@[q],
        decreases m - k,
    {
        if s.get_char(i + k) != t.get_char(k) {
            proof {
                assert(s@.subrange(i as int, i + m)[k as int] == s@[i + k]);
            }
            return false;
        }
        k += 1;
    }
    proof {
        assert(s@.subrange(i as int, i + m) =~= t@);
    }
    true
}

pub fn str_starts_with(s: &str, p: &str) -> (r: bool)
    ensures
        r == spec_starts_with(s@, p@),
{
    let r = str_matches_at(s, 0, p);
    proof {
        if seq_at(s@, 0, p@) {
            assert(spec_starts_with(s@, p@));
        }
        if spec_starts_with(s@, p@) {
            assert(seq_at(s@, 0, p@));
        }
    }
    r
}

pub fn str_ends_with(s: &str, p: &str) -> (r: bool)
    ensures
        r == spec_ends_with(s@, p@),
{
    let n = s.unicode_len();
    let m = p.unicode_len();
    if m > n {
        return false;
    }
    let r = str_matches_at(s, n - m, p);
    proof {
        if seq_at(s@, n - m, p@) {
            assert(spec_ends_with(s@, p@));
        }
        if spec_ends_with(s@, p@) {
            assert(seq_at(s@, n - m, p@));
        }
    }
    r
}

/// Character-wise string equality, stated on the views.
pub fn str_eq(a: &str, b: &str) -> (r: bool)
    ensures
        r == (a@ == b@),
{
    let n = a.unicode_len();
    if n != b.unicode_len() {
        return false;
    }
    let r = str_matches_at(a, 0, b);
    proof {
        if seq_at(a@, 0, b@) {
            assert(a@ =~= b@);
        }
        if a@ == b@ {
            assert(a@.subrange(0, b@.len() as int) =~= b@);
            assert(seq_at(a@, 0, b@));
        }
    }
    r
}

/// `s` with leading white space removed.
pub open spec fn spec_trim_start(s: Seq<char>) -> Seq<char>
    decreases s.len(),
{
    if s.len() > 0 && is_space_char(s[0]) {
        spec_trim_start(s.drop_first())
    } else {
        s
    }
}

/// `s` with trailing white space removed.
pub open spec fn spec_trim_end(s: Seq<char>) -> Seq<char>
    decreases s.len(),
{
    if s.len() > 0 && is_space_char(s.last()) {
        spec_trim_end(s.drop_last())
    } else {
        s
    }
}

/// `s` with leading and trailing white space removed.
pub open spec fn spec_trim(s: Seq<char>) -> Seq<char> {
    spec_trim_end(spec_trim_start(s))
}

proof fn lemma_trim_start_at(s: Seq<char>, i: int)
    requires
        0 <= i <= s.len(),
        forall|k: int| 0 <= k < i ==> is_space_char(s[k]),
        i == s.len() || !is_space_char(s[i]),
    ensures
        spec_trim_start(s) == s.subrange(i, s.len() as int),
    decreases i,
{
    if i == 0 {
        assert(s.subrange(0, s.len() as int) =~= s);
    } else {
        let t = s.drop_first();
        assert forall|k: int| 0 <= k < i - 1 implies is_space_char(t[k]) by {
            assert(t[k] == s[k + 1]);
        }
        if i - 1 < t.len() {
            assert(t[i - 1] == s[i]);
        }
        lemma_trim_start_at(t, i - 1);
        assert(t.subrange(i - 1, t.len() as int) =~= s.subrange(i, s.len() as int));
    }
}

proof fn lemma_trim_end_at(s: Seq<char>, j: int)
    requires
        0 <= j <= s.len(),
        forall|k: int| j <= k < s.len() ==> is_space_char(s[k]),
        j == 0 || !is_space_char(s[j - 1]),
    ensures
        spec_trim_end(s) == s.subrange(0, j),
    decreases s.len(),
{
    if j == s.len() {
        assert(s.subrange(0, j) =~= s);
    } else {
        let t = s.drop_last();
        assert(is_space_char(s.last()));
        assert forall|k: int| j <= k < t.len() implies is_space_char(t[k]) by {
            assert(t[k] == s[k]);
        }
        if j > 0 {
            assert(t[j - 1] == s[j - 1]);
        }
        lemma_trim_end_at(t, j);
        assert(t.subrange(0, j) =~= s.subrange(0, j));
    }
}

/// `str::trim`, verified against `spec_trim`.
pub fn trim_str(s: &str) -> (r: String)
    ensures
        r@ == spec_trim(s@),
{
    let n = s.unicode_len();
    let mut i: usize = 0;
    while i < n && is_space(s.get_char(i))
        invariant
            i <= n,
            n == s@.len(),
            forall|k: int| 0 <= k < i ==> is_space_char(s@[k]),
        decreases n - i,
    {
        i += 1;
    }
    proof {
        lemma_trim_start_at(s@, i as int);
    }
    let mut j: usize = n;
    while j > i && is_space(s.get_char(j - 1))
        invariant
            i <= j <= n,
            n == s@.len(),
            forall|k: int| j <= k < n ==> is_space_char(s@[k]),
        decreases j,
    {
        j -= 1;
    }
    proof {
        let t = s@.subrange(i as int, n as int);
        assert forall|k: int| j - i <= k < t.len() implies is_space_char(t[k]) by {
            assert(t[k] == s@[k + i]);
        }
        if j > i {
            assert(t[j - i - 1] == s@[j - 1]);
        }
        lemma_trim_end_at(t, j - i);
        assert(t.subrange(0, j - i) =~= s@.subrange(i as int, j as int));
    }
    s.substring_char(i, j).to_owned()
}

/// Trimming only removes white space: a sequence holding any other
/// character keeps it, so the front-trimmed sequence is non-empty.
pub proof fn lemma_trim_start_keeps_content(s: Seq<char>)
    requires
        exists|k: int| 0 <= k < s.len() && !is_space_char(s[k]),
    ensures
        spec_trim_start(s).len() > 0,
        exists|k: int|
            0 <= k < spec_trim_start(s).len() && !is_space_char(spec_trim_start(s)[k]),
    decreases s.len(),
{
    if s.len() > 0 && is_space_char(s[0]) {
        let k0 = choose|k: int| 0 <= k < s.len() && !is_space_char(s[k]);
        assert(s.drop_first()[k0 - 1] == s[k0]);
        lemma_trim_start_keeps_content(s.drop_first());
    }
}

/// The same fact for the back: a sequence holding any non-white-space
/// character trims from the end to something non-empty.
pub proof fn lemma_trim_end_keeps_content(s: Seq<char>)
    requires
        exists|k: int| 0 <= k < s.len() && !is_space_char(s[k]),
    ensures
        spec_trim_end(s).len() > 0,
    decreases s.len(),
{
    if s.len() > 0 && is_space_char(s.last()) {
        let k0 = choose|k: int| 0 <= k < s.len() && !is_space_char(s[k]);
        assert(s.drop_last()[k0] == s[k0]);
        lemma_trim_end_keeps_content(s.drop_last());
    }
}

/// Trimming text that holds any non-white-space character yields a
/// non-empty result.
pub proof fn lemma_trim_keeps_content(s: Seq<char>)
    requires
        exists|k: int| 0 <= k < s.len() && !is_space_char(s[k]),
    ensures
        spec_trim(s).len() > 0,
{
    lemma_trim_start_keeps_content(s);
    lemma_trim_end_keeps_content(spec_trim_start(s));
}

proof fn lemma_trim_start_head(s: Seq<char>)
    ensures
        spec_trim_start(s).len() == 0 || !is_space_char(spec_trim_start(s)[0]),
    decreases s.len(),
{
    if s.len() > 0 && is_space_char(s[0]) {
        lemma_trim_start_head(s.drop_first());
    }
}

proof fn lemma_trim_end_last(s: Seq<char>)
    ensures
        spec_trim_end(s).len() == 0 || !is_space_char(spec_trim_end(s).last()),
    decreases s.len(),
{
    if s.len() > 0 && is_space_char(s.last()) {
        lemma_trim_end_last(s.drop_last());
    }
}

proof fn lemma_trim_end_is_prefix(s: Seq<char>)
    ensures
        spec_trim_end(s).len() <= s.len(),
        spec_trim_end(s) == s.take(spec_trim_end(s).len() as int),
    decreases s.len(),
{
    if s.len() > 0 && is_space_char(s.last()) {
        let t = s.drop_last();
        lemma_trim_end_is_prefix(t);
        assert(t.take(spec_trim_end(t).len() as int) =~= s.take(spec_trim_end(t).len() as int));
    } else {
        assert(s.take(s.len() as int) =~= s);
    }
}

/// Trimming is idempotent: trimmed text carries no white space at
/// either end, so a field that went through the trim once is a fixed
/// point of it.
pub proof fn lemma_trim_idempotent(s: Seq<char>)
    ensures
        spec_trim(spec_trim(s)) == spec_trim(s),
{
    let u = spec_trim_start(s);
    let v = spec_trim_end(u);
    lemma_trim_start_head(s);
    lemma_trim_end_is_prefix(u);
    lemma_trim_end_last(u);
    if v.len() > 0 {
        assert(v[0] == u.take(v.len() as int)[0]);
        assert(v[0] == u[0]);
    }
    assert(spec_trim_start(v) == v);
    assert(spec_trim_end(v) == v);
}

/// A sequence starts with itself, and a concatenation keeps every
/// prefix of its left part.
pub proof fn lemma_starts_with_self(x: Seq<char>)
    ensures
        spec_starts_with(x, x),
{
    assert(x.subrange(0, x.len() as int) =~= x);
}

pub proof fn lemma_concat_keeps_prefix(x: Seq<char>, y: Seq<char>, p: Seq<char>)
    requires
        spec_starts_with(x, p),
    ensures
        spec_starts_with(x + y, p),
{
    assert((x + y).subrange(0, p.len() as int) =~= x.subrange(0, p.len() as int));
}

/// `s` with every copy of the prefix `p` removed from the front, as
/// `str::trim_start_matches` does; the empty pattern removes nothing.
pub open spec fn spec_trim_start_matches(s: Seq<char>, p: Seq<char>) -> Seq<char>
    decreases s.len(),
{
    if p.len() > 0 && spec_starts_with(s, p) {
        spec_trim_start_matches(s.skip(p.len() as int), p)
    } else {
        s
    }
}

/// `s` with every copy of the suffix `p` removed from the back, as
/// `str::trim_end_matches` does; the empty pattern removes nothing.
pub open spec fn spec_trim_end_matches(s: Seq<char>, p: Seq<char>) -> Seq<char>
    decreases s.len(),
{
    if p.len() > 0 && spec_ends_with(s, p) {
        spec_trim_end_matches(s.take(s.len() - p.len()), p)
    } else {
        s
    }
}

pub fn trim_start_matches_str(s: &str, p: &str) -> (r: String)
    ensures
        r@ == spec_trim_start_matches(s@, p@),
{
    let n = s.unicode_len();
    let m = p.unicode_len();
    if m == 0 {
        return s.to_owned();
    }
    let mut i: usize = 0;
    proof {
        assert(s@.skip(0) =~= s@);
    }
    while str_matches_at(s, i, p)
        invariant
            i <= n,
            n == s@.len(),
            m == p@.len(),
            m > 0,
            spec_trim_start_matches(s@, p@) == spec_trim_start_matches(s@.skip(i as int), p@),
        decreases n - i,
    {
        proof {
            let t = s@.skip(i as int);
            assert(t.subrange(0, m as int) =~= s@.subrange(i as int, i + m));
            assert(spec_starts_with(t, p@));
            assert(t.skip(m as int) =~= s@.skip(i + m));
        }
        i += m;
    }
    proof {
        let t = s@.skip(i as int);
        if spec_starts_with(t, p@) {
            assert(s@.subrange(i as int, i + m) =~= t.subrange(0, m as int));
        }
        assert(spec_trim_start_matches(t, p@) == t);
        assert(t =~= s@.subrange(i as int, n as int));
    }
    s.substring_char(i, n).to_owned()
}

pub fn trim_end_matches_str(s: &str, p: &str) -> (r: String)
    ensures
        r@ == spec_trim_end_matches(s@, p@),
{
    let n = s.unicode_len();
    let m = p.unicode_len();
    if m == 0 {
        return s.to_owned();
    }
    let mut j: usize = n;
    proof {
        assert(s@.take(n as int) =~= s@);
    }
    while j >= m && str_matches_at(s, j - m, p)
        invariant
            j <= n,
            n == s@.len(),
            m == p@.len(),
            m > 0,
            spec_trim_end_matches(s@, p@) == spec_trim_end_matches(s@.take(j as int), p@),
        decreases j,
    {
        proof {
            let t = s@.take(j as int);
            assert(t.subrange(j - m, j as int) =~= s@.subrange(j - m, j as int));
            assert(spec_ends_with(t, p@));
            assert(t.take(j - m) =~= s@.take(j - m));
        }
        j -= m;
    }
    proof {
        let t = s@.take(j as int);
        if spec_ends_with(t, p@) {
            assert(j >= m);
            assert(s@.subrange(j - m, j as int) =~= t.subrange(j - m, j as int));
        }
        assert(spec_trim_end_matches(t, p@) == t);
        assert(t =~= s@.subrange(0, j as int));
    }
    s.substring_char(0, j).to_owned()
}

/// Replaces the span `start..end` of `s` with `repl`.
pub fn replace_span(s: &str, start: usize, end: usize, repl: &str) -> (r: String)
    requires
        start <= end,
        end <= s@.len(),
    ensures
        r@ == s@.subrange(0, start as int) + repl@ + s@.subrange(end as int, s@.len() as int),
{
    let n = s.unicode_len();
    let mut out = s.substring_char(0, start).to_owned();
    out.append(repl);
    out.append(s.substring_char(end, n));
    out
}

/// The pieces of `s` between occurrences of the separator `c`, as
/// `str::split` yields them: the empty string splits to one empty piece.
pub open spec fn spec_split(s: Seq<char>, c: char) -> Seq<Seq<char>>
    decreases s.len(),
{
    if s.len() == 0 {
        seq![Seq::<char>::empty()]
    } else if s[0] == c {
        seq![Seq::<char>::empty()] + spec_split(s.drop_first(), c)
    } else {
        let rest = spec_split(s.drop_first(), c);
        rest.update(0, seq![s[0]] + rest[0])
    }
}

pub proof fn lemma_split_nonempty(s: Seq<char>, c: char)
    ensures
        spec_split(s, c).len() >= 1,
    decreases s.len(),
{
    if s.len() > 0 {
        lemma_split_nonempty(s.drop_first(), c);
    }
}

proof fn lemma_split_no_sep(s: Seq<char>, c: char)
    requires
        forall|k: int| 0 <= k < s.len() ==> s[k] != c,
    ensures
        spec_split(s, c) == seq![s],
    decreases s.len(),
{
    if s.len() == 0 {
        assert(s =~= Seq::<char>::empty());
    } else {
        let t = s.drop_first();
        lemma_split_no_sep(t, c);
        lemma_split_nonempty(t, c);
        assert(seq![s[0]] + t =~= s);
        assert(spec_split(s, c) =~~= seq![s]);
    }
}

proof fn lemma_split_head(s: Seq<char>, c: char, j: int)
    requires
        0 <= j < s.len(),
        s[j] == c,
        forall|k: int| 0 <= k < j ==> s[k] != c,
    ensures
        spec_split(s, c) == seq![s.subrange(0, j)] + spec_split(s.subrange(j + 1, s.len() as int), c),
    decreases j,
{
    let t = s.drop_first();
    if j == 0 {
        assert(s.subrange(0, 0) =~= Seq::<char>::empty());
        assert(t =~= s.subrange(1, s.len() as int));
    } else {
        assert(t[j - 1] == c);
        assert forall|k: int| 0 <= k < j - 1 implies t[k] != c by {
            assert(t[k] == s[k + 1]);
        }
        lemma_split_head(t, c, j - 1);
        lemma_split_nonempty(t.subrange(j, t.len() as int), c);
        assert(seq![s[0]] + t.subrange(0, j - 1) =~= s.subrange(0, j));
        assert(t.subrange(j, t.len() as int) =~= s.subrange(j + 1, s.len() as int));
        assert(spec_split(s, c) =~~= seq![s.subrange(0, j)] + spec_split(
            s.subrange(j + 1, s.len() as int),
            c,
        ));
    }
}

/// `str::split` on a single separator character, collected into a vector.
pub fn split_str(s: &str, c: char) -> (r: Vec<String>)
    ensures
        r.deep_view() == spec_split(s@, c),
{
    let n = s.unicode_len();
    let mut parts: Vec<String> = Vec::new();
    let mut start: usize = 0;
    let mut i: usize = 0;
    proof {
        assert(s@.subrange(0, n as int) =~= s@);
    }
    while i < n
        invariant
            start <= i <= n,
            n == s@.len(),
            forall|k: int| start <= k < i ==> s@[k] != c,
            spec_split(s@, c) == parts.deep_view() + spec_split(
                s@.subrange(start as int, n as int),
                c,
            ),
        decreases n - i,
    {
        if s.get_char(i) == c {
            let piece = s.substring_char(start, i).to_owned();
            proof {
                let t = s@.subrange(start as int, n as int);
                assert forall|k: int| 0 <= k < i - start implies t[k] != c by {
                    assert(t[k] == s@[k + start]);
                }
                assert(t[i - start] == s@[i as int]);
                lemma_split_head(t, c, i - start);
                assert(t.subrange(0, i - start) =~= s@.subrange(start as int, i as int));
                assert(t.subrange(i - start + 1, t.len() as int) =~= s@.subrange(
                    i + 1,
                    n as int,
                ));
            }
            let ghost old_dv = parts.deep_view();
            parts.push(piece);
            proof {
                assert(parts.deep_view() =~= old_dv.push(piece@));
                assert(parts.deep_view() + spec_split(s@.subrange(i + 1, n as int), c) =~= old_dv
                    + (seq![s@.subrange(start as int, i as int)] + spec_split(
                    s@.subrange(i + 1, n as int),
                    c,
                )));
            }
            start = i + 1;
        }
        i += 1;
    }
    let piece = s.substring_char(start, n).to_owned();
    proof {
        let t = s@.subrange(start as int, n as int);
        assert forall|k: int| 0 <= k < t.len() implies t[k] != c by {
            assert(t[k] == s@[k + start]);
        }
        lemma_split_no_sep(t, c);
    }
    let ghost old_dv = parts.deep_view();
    parts.push(piece);
    proof {
        assert(parts.deep_view() =~= old_dv.push(piece@));
        assert(parts.deep_view() =~= old_dv + seq![s@.subrange(start as int, n as int)]);
    }
    parts
}

/// `p` wrapped in single quotes.
pub open spec fn spec_quote(p: Seq<char>) -> Seq<char> {
    seq!['\''] + p + seq!['\'']
}

/// The parts each wrapped in single quotes and joined with commas.
pub open spec fn spec_join_quoted(parts: Seq<Seq<char>>) -> Seq<char>
    decreases parts.len(),
{
    if parts.len() == 0 {
        Seq::<char>::empty()
    } else if parts.len() == 1 {
        spec_quote(parts[0])
    } else {
        spec_quote(parts[0]) + seq![','] + spec_join_quoted(parts.drop_first())
    }
}

proof fn lemma_join_quoted_push(parts: Seq<Seq<char>>, x: Seq<char>)
    ensures
        spec_join_quoted(parts.push(x)) == if parts.len() == 0 {
            spec_quote(x)
        } else {
            spec_join_quoted(parts) + seq![','] + spec_quote(x)
        },
    decreases parts.len(),
{
    let w = parts.push(x);
    if parts.len() == 0 {
        assert(w.len() == 1);
        assert(w[0] == x);
        assert(spec_join_quoted(w) == spec_quote(x));
    } else if parts.len() == 1 {
        assert(w.len() == 2);
        assert(w[0] == parts[0]);
        assert(w.drop_first() =~= seq![x]);
        assert(spec_join_quoted(w.drop_first()) == spec_quote(x));
        assert(spec_join_quoted(w) == spec_quote(parts[0]) + seq![','] + spec_quote(x));
        assert(spec_join_quoted(parts) == spec_quote(parts[0]));
    } else {
        assert(w[0] == parts[0]);
        assert(w.drop_first() =~= parts.drop_first().push(x));
        lemma_join_quoted_push(parts.drop_first(), x);
        assert(spec_quote(parts[0]) + seq![','] + (spec_join_quoted(parts.drop_first())
            + seq![','] + spec_quote(x)) =~= spec_quote(parts[0]) + seq![','] + spec_join_quoted(
            parts.drop_first(),
        ) + seq![','] + spec_quote(x));
    }
}

/// Joins the parts as a comma-separated row of single-quoted literals.
pub fn join_quoted(parts: &Vec<String>) -> (r: String)
    ensures
        r@ == spec_join_quoted(parts.deep_view()),
{
    let mut out = String::new();
    let mut k: usize = 0;
    proof {
        assert(parts.deep_view().take(0) =~= Seq::<Seq<char>>::empty());
    }
    while k < parts.len()
        invariant
            k <= parts@.len(),
            parts.deep_view().len() == parts@.len(),
            out@ == spec_join_quoted(parts.deep_view().take(k as int)),
        decreases parts@.len() - k,
    {
        let ghost pre = out@;
        if k > 0 {
            out.push(',');
        }
        out.push('\'');
        out.append(parts[k].as_str());
        out.push('\'');
        proof {
            let dv = parts.deep_view();
            assert(dv[k as int] == parts@[k as int]@);
            lemma_join_quoted_push(dv.take(k as int), dv[k as int]);
            assert(dv.take(k + 1) =~= dv.take(k as int).push(dv[k as int]));
            if k == 0 {
                assert(out@ =~= spec_quote(dv[0]));
            } else {
                assert(out@ =~= spec_join_quoted(dv.take(k as int)) + seq![','] + spec_quote(
                    dv[k as int],
                ));
            }
        }
        k += 1;
    }
    proof {
        assert(parts.deep_view().take(parts@.len() as int) =~= parts.deep_view());
    }
    out
}

pub open spec fn spec_digit_char(d: int) -> char {
    if d == 0 {
        '0'
    } else if d == 1 {
        '1'
    } else if d == 2 {
        '2'
    } else if d == 3 {
        '3'
    } else if d == 4 {
        '4'
    } else if d == 5 {
        '5'
    } else if d == 6 {
        '6'
    } else if d == 7 {
        '7'
    } else if d == 8 {
        '8'
    } else {
        '9'
    }
}

/// The decimal rendering of `n`, most significant digit first.
pub open spec fn spec_u64_string(n: nat) -> Seq<char>
    decreases n,
{
    if n < 10 {
        seq![spec_digit_char(n as int)]
    } else {
        spec_u64_string(n / 10).push(spec_digit_char((n % 10) as int))
    }
}

fn digit_char(d: u64) -> (c: char)
    requires
        d < 10,
    ensures
        c == spec_digit_char(d as int),
{
    if d == 0 {
        '0'
    } else if d == 1 {
        '1'
    } else if d == 2 {
        '2'
    } else if d == 3 {
        '3'
    } else if d == 4 {
        '4'
    } else if d == 5 {
        '5'
    } else if d == 6 {
        '6'
    } else if d == 7 {
        '7'
    } else if d == 8 {
        '8'
    } else {
        '9'
    }
}

/// Renders `n` in decimal, as `u64`'s `to_string` does.
pub fn u64_to_string(n: u64) -> (r: String)
    ensures
        r@ == spec_u64_string(n as nat),
    decreases n,
{
    if n < 10 {
        let mut out = String::new();
        out.push(digit_char(n));
        proof {
            assert(Seq::<char>::empty().push(spec_digit_char(n as int)) =~= seq![
                spec_digit_char(n as int),
            ]);
        }
        out
    } else {
        let mut out = u64_to_string(n / 10);
        out.push(digit_char(n % 10));
        out
    }
}

} // verus!
