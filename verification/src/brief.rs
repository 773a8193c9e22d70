//! The selector template and the brief extractor: a template names the
//! structural queries that locate a brief's fields on one page type,
//! and the extractor reads those fields out of a subtree and
//! normalizes them. Absent fields degrade to empty text or an empty
//! list, never to an error: partially rendered pages are expected.

use vstd::prelude::*;
use crate::dom::{sel_attr_or, sel_select_all, sel_select_first, sel_text};
use crate::text::{
    is_space_char, lemma_trim_idempotent, lemma_trim_keeps_content, spec_starts_with, spec_trim,
    spec_trim_end_matches, spec_trim_start_matches, str_starts_with, trim_end_matches_str,
    trim_start_matches_str, trim_str,
};
use crate::types::ComicBrief;

verus! {

/// A selector template: the structural queries for one page type. The
/// site decorates the same fields differently on a search-result row
/// and on a comic detail page, so the templates are plain data picked
/// at the call site.
pub struct BriefSelectors<'a> {
    pub cover: &'a str,
    pub name: &'a str,
    pub author: &'a str,
    pub pub_date: &'a str,
    pub intro: &'a str,
}

/// The template for a full comic detail page.
pub fn detail_selectors() -> BriefSelectors<'static> {
    BriefSelectors {
        cover: ".book-cover>.hcover>img",
        name: ".book-detail>.book-title>h1",
        author: ".book-detail>.detail-list>li:nth-child(2)>span:nth-child(2)>a",
        pub_date: ".book-detail>.detail-list>li:first-child>span:first-child>a",
        intro: "#intro-cut",
    }
}

/// The template for one row of a search-result page.
pub fn search_selectors() -> BriefSelectors<'static> {
    BriefSelectors {
        cover: ".book-cover>.bcover>img",
        name: ".book-detail dt>a",
        author: ".book-detail dd.tags:nth-of-type(3)>span>a",
        pub_date: ".book-detail dd.tags:nth-of-type(2)>span:first-child>a",
        intro: ".book-detail dd.intro>span",
    }
}

/// The raw field texts as read from the page, before normalization.
pub struct RawBrief {
    pub name: String,
    pub cover: String,
    pub author: Vec<String>,
    pub pub_date: String,
    pub intro: String,
}

/// A cover URL made absolute: a protocol-relative reference (starting
/// with `//`) gets the `https:` scheme, anything else is kept as is.
pub open spec fn spec_normalize_cover(raw: Seq<char>) -> Seq<char> {
    let t = spec_trim(raw);
    if spec_starts_with(t, "//"@) {
        "https:"@ + t
    } else {
        t
    }
}

pub fn normalize_cover_url(raw: &str) -> (r: String)
    ensures
        r@ == spec_normalize_cover(raw@),
{
    let t = trim_str(raw);
    if str_starts_with(t.as_str(), "//") {
        let mut out = String::new();
        out.append("https:");
        out.append(t.as_str());
        proof {
            assert(out@ =~= "https:"@ + t@);
        }
        out
    } else {
        t
    }
}

/// A normalized cover URL is never protocol-relative: either it just
/// received the `https:` scheme, or it did not start with `//` at all.
pub proof fn lemma_cover_not_protocol_relative(raw: Seq<char>)
    ensures
        !spec_starts_with(spec_normalize_cover(raw), "//"@),
{
    reveal_strlit("https:");
    reveal_strlit("//");
    let t = spec_trim(raw);
    if spec_starts_with(t, "//"@) {
        let r = "https:"@ + t;
        assert(r[0] == 'h');
        if spec_starts_with(r, "//"@) {
            assert(r.subrange(0, 2)[0] == r[0]);
        }
    }
}

/// The publication date with the site's trailing localized "year"
/// token removed.
pub open spec fn spec_normalize_pub_date(raw: Seq<char>) -> Seq<char> {
    spec_trim_end_matches(spec_trim(raw), "年"@)
}

pub fn normalize_pub_date(raw: &str) -> (r: String)
    ensures
        r@ == spec_normalize_pub_date(raw@),
{
    let t = trim_str(raw);
    trim_end_matches_str(t.as_str(), "年")
}

/// Trims every collected author name, keeping document order; zero
/// collected matches stay an empty list.
pub fn normalize_authors(raw: &Vec<String>) -> (r: Vec<String>)
    ensures
        r.deep_view().len() == raw.deep_view().len(),
        forall|k: int|
            0 <= k < raw.deep_view().len() ==> r.deep_view()[k] == spec_trim(
                raw.deep_view()[k],
            ),
{
    let mut out: Vec<String> = Vec::new();
    let mut k: usize = 0;
    while k < raw.len()
        invariant
            k <= raw@.len(),
            raw.deep_view().len() == raw@.len(),
            out.deep_view().len() == k,
            forall|q: int|
                0 <= q < k ==> out.deep_view()[q] == spec_trim(raw.deep_view()[q]),
        decreases raw@.len() - k,
    {
        let t = trim_str(raw[k].as_str());
        let ghost pre = out.deep_view();
        proof {
            assert(raw.deep_view()[k as int] == raw@[k as int]@);
        }
        out.push(t);
        proof {
            assert(out.deep_view() =~= pre.push(t@));
        }
        k += 1;
    }
    out
}

/// Normalizes raw field texts into a brief record: text fields are
/// trimmed, the cover is made absolute, the date loses its "year"
/// token, and the authors keep their order.
pub fn brief_from_raw(raw: RawBrief, id: String) -> (b: ComicBrief)
    ensures
        b.id@ == id@,
        b.name@ == spec_trim(raw.name@),
        b.cover@ == spec_normalize_cover(raw.cover@),
        b.author.deep_view().len() == raw.author.deep_view().len(),
        forall|k: int|
            0 <= k < raw.author.deep_view().len() ==> b.author.deep_view()[k] == spec_trim(
                raw.author.deep_view()[k],
            ),
        b.pub_date@ == spec_normalize_pub_date(raw.pub_date@),
        b.intro@ == spec_trim(raw.intro@),
{
    ComicBrief {
        id,
        name: trim_str(raw.name.as_str()),
        cover: normalize_cover_url(raw.cover.as_str()),
        author: normalize_authors(&raw.author),
        pub_date: normalize_pub_date(raw.pub_date.as_str()),
        intro: trim_str(raw.intro.as_str()),
    }
}

/// A raw name holding any non-white-space character normalizes to a
/// non-empty brief name.
pub proof fn lemma_brief_name_nonempty(raw_name: Seq<char>)
    requires
        exists|k: int| 0 <= k < raw_name.len() && !is_space_char(raw_name[k]),
    ensures
        spec_trim(raw_name).len() > 0,
{
    lemma_trim_keeps_content(raw_name);
}

/// Reads a template's raw field texts out of a subtree: first match
/// for the text fields and the cover's `src` attribute, every match
/// for the authors. A missing match reads as empty.
pub fn collect_brief_fields(
    node: &dom_query::Selection<'_>,
    selectors: &BriefSelectors<'_>,
) -> RawBrief {
    let name_sel = sel_select_first(node, selectors.name);
    let name = sel_text(&name_sel);
    let cover_sel = sel_select_first(node, selectors.cover);
    let cover = sel_attr_or(&cover_sel, "src", "");
    let author_sels = sel_select_all(node, selectors.author);
    let mut author: Vec<String> = Vec::new();
    let mut k: usize = 0;
    while k < author_sels.len()
        invariant
            k <= author_sels@.len(),
        decreases author_sels@.len() - k,
    {
        author.push(sel_text(&author_sels[k]));
        k += 1;
    }
    let date_sel = sel_select_first(node, selectors.pub_date);
    let pub_date = sel_text(&date_sel);
    let intro_sel = sel_select_first(node, selectors.intro);
    let intro = sel_text(&intro_sel);
    RawBrief { name, cover, author, pub_date, intro }
}

/// Applies a selector template to a subtree and produces the
/// normalized brief for the comic with the given id. Whatever the
/// page held, the brief comes out normalized: the cover is never
/// protocol-relative, and the trimmed text fields are fixed points of
/// the trim.
pub fn parse_brief(
    node: &dom_query::Selection<'_>,
    selectors: &BriefSelectors<'_>,
    id: String,
) -> (b: ComicBrief)
    ensures
        b.id@ == id@,
        !spec_starts_with(b.cover@, "//"@),
        b.name@ == spec_trim(b.name@),
        b.intro@ == spec_trim(b.intro@),
        forall|a: int|
            0 <= a < b.author.deep_view().len() ==> b.author.deep_view()[a] == spec_trim(
                b.author.deep_view()[a],
            ),
{
    let raw = collect_brief_fields(node, selectors);
    let ghost graw = raw;
    let b = brief_from_raw(raw, id);
    proof {
        lemma_cover_not_protocol_relative(graw.cover@);
        lemma_trim_idempotent(graw.name@);
        lemma_trim_idempotent(graw.intro@);
        assert forall|a: int| 0 <= a < b.author.deep_view().len() implies b.author.deep_view()[a]
            == spec_trim(b.author.deep_view()[a]) by {
            lemma_trim_idempotent(graw.author.deep_view()[a]);
        }
    }
    b
}

/// The extra normalization the search page needs: its intro field is
/// decorated with a leading label token and a trailing "details"
/// affordance token, which the detail page does not have.
pub fn normalize_search_intro(intro: &str) -> (r: String)
    ensures
        r@ == spec_trim_end_matches(spec_trim_start_matches(intro@, "简介："@), "[详情]"@),
{
    let t = trim_start_matches_str(intro, "简介：");
    trim_end_matches_str(t.as_str(), "[详情]")
}

} // verus!
