//! The script deobfuscation and evaluation engine. A chapter page's
//! manifest is emitted as the page's last inline script: a dynamic-eval
//! construct whose argument hides its token table as a compressed
//! literal. The stages run in order — locate, verify the signature,
//! extract the token literal, decompress it, splice the tokens back as
//! a plain array, evaluate the remaining expression in an isolated
//! sandbox, and decode the resulting manifest. Any failing stage
//! degrades to the fallback manifest: an empty image list with both
//! sibling ids `"0"`.

use vstd::prelude::*;
use crate::codec::{decode_payload, spec_decoded_payload};
use crate::jsonval::{json_as_string, json_as_string_array, json_as_u64, json_member, json_parse};
use crate::pattern::{cap_match_at, find_splice_match, is_splice_match, lemma_splice_match_unique};
use crate::text::{
    lemma_concat_keeps_prefix, lemma_starts_with_self, lemma_trim_idempotent, replace_span,
    spec_join_quoted, spec_split, spec_starts_with, spec_trim, spec_trim_end_matches,
    spec_trim_start_matches, spec_u64_string, split_str, join_quoted, trim_end_matches_str,
    trim_start_matches_str, trim_str, str_starts_with, u64_to_string,
};
use crate::types::ComicChapter;
use crate::dom::{doc_from_html, doc_select_all, doc_select_first, sel_text};

verus! {

/// The site's obfuscated dynamic-eval marker, as it appears at the
/// front of the data-bearing script.
pub open spec fn spec_eval_marker() -> Seq<char> {
    "window[\"\\x65\\x76\\x61\\x6c\"]"@
}

pub fn eval_marker() -> (r: &'static str)
    ensures
        r@ == spec_eval_marker(),
{
    "window[\"\\x65\\x76\\x61\\x6c\"]"
}

/// The obfuscated "split on pipe" invocation that follows the quoted
/// token literal inside the script.
pub open spec fn spec_splice_tail() -> Seq<char> {
    "'['\\x73\\x70\\x6c\\x69\\x63']('\\x7c')"@
}

pub fn splice_tail() -> (r: &'static str)
    ensures
        r@ == spec_splice_tail(),
{
    "'['\\x73\\x70\\x6c\\x69\\x63']('\\x7c')"
}

/// The decoded tokens rebuilt as a quoted, comma-joined literal array.
pub open spec fn spec_token_array(d: Seq<char>) -> Seq<char> {
    seq!['['] + spec_join_quoted(spec_split(d, '|')) + seq![']']
}

/// Rebuilds a decompressed pipe-separated token stream as the literal
/// array the spliced script evaluates.
pub fn build_token_array(decoded: &str) -> (r: String)
    ensures
        r@ == spec_token_array(decoded@),
{
    let parts = split_str(decoded, '|');
    let joined = join_quoted(&parts);
    let mut out = String::new();
    out.push('[');
    out.append(joined.as_str());
    out.push(']');
    proof {
        assert(out@ =~= spec_token_array(decoded@));
    }
    out
}

/// The script after the splice: the matched span `'<blob>'<tail>` is
/// replaced verbatim by the token array, and the leading eval marker is
/// stripped, leaving a plain expression.
pub open spec fn spec_spliced_script(s: Seq<char>, i: int, j: int, d: Seq<char>) -> Seq<char> {
    spec_trim_start_matches(
        s.subrange(0, i) + spec_token_array(d) + s.subrange(
            j + spec_splice_tail().len(),
            s.len() as int,
        ),
        spec_eval_marker(),
    )
}

/// Locates the compressed token literal, decompresses it, and splices
/// the decoded tokens back into the script as a literal array. `None`
/// where the pattern does not occur or the blob does not decode; the
/// match used is the unique leftmost-greedy one.
pub fn splice_script(script: &str) -> (r: Option<String>)
    ensures
        match r {
            Some(out) => exists|i: int, j: int|
                {
                    &&& #[trigger] is_splice_match(script@, spec_splice_tail(), i, j)
                    &&& spec_decoded_payload(script@.subrange(i + 1, j)) is Some
                    &&& out@ == spec_spliced_script(
                        script@,
                        i,
                        j,
                        spec_decoded_payload(script@.subrange(i + 1, j))->0,
                    )
                },
            None => forall|i: int, j: int|
                #[trigger] is_splice_match(script@, spec_splice_tail(), i, j)
                    ==> spec_decoded_payload(script@.subrange(i + 1, j)) is None,
        },
{
    let tail = splice_tail();
    match find_splice_match(script, tail) {
        None => {
            proof {
                assert forall|i: int, j: int|
                    is_splice_match(script@, spec_splice_tail(), i, j) implies false by {
                    assert(!cap_match_at(script@, spec_splice_tail(), i, j));
                }
            }
            None
        },
        Some((i, j)) => {
            let cap = script.substring_char(i + 1, j);
            match decode_payload(cap) {
                None => {
                    proof {
                        assert forall|i2: int, j2: int|
                            #[trigger] is_splice_match(script@, spec_splice_tail(), i2, j2)
                                implies spec_decoded_payload(
                            script@.subrange(i2 + 1, j2),
                        ) is None by {
                            lemma_splice_match_unique(
                                script@,
                                spec_splice_tail(),
                                i as int,
                                j as int,
                                i2,
                                j2,
                            );
                        }
                    }
                    None
                },
                Some(d) => {
                    let lit = build_token_array(d.as_str());
                    let n = script.unicode_len();
                    let tail_len = tail.unicode_len();
                    let spliced = replace_span(script, i, j + tail_len, lit.as_str());
                    let out = trim_start_matches_str(spliced.as_str(), eval_marker());
                    Some(out)
                },
            }
        },
    }
}

/// The decoded manifest fields: the image file names in reading order,
/// their base path, the sibling chapter ordinals, and the shared
/// signing parameters.
pub struct ChapterManifestData {
    pub files: Vec<String>,
    pub path: String,
    pub next_id: u64,
    pub prev_id: u64,
    pub expiry: u64,
    pub mac: String,
}

/// The evaluated expression's result with the call-like wrapper
/// removed: trimmed, then the leading `SMH.imgData(` and trailing
/// `).preInit();` tokens stripped.
pub open spec fn spec_manifest_body(s: Seq<char>) -> Seq<char> {
    spec_trim_end_matches(
        spec_trim_start_matches(spec_trim(s), "SMH.imgData("@),
        ").preInit();"@,
    )
}

pub fn strip_manifest_wrapper(s: &str) -> (r: String)
    ensures
        r@ == spec_manifest_body(s@),
{
    let t = trim_str(s);
    let u = trim_start_matches_str(t.as_str(), "SMH.imgData(");
    trim_end_matches_str(u.as_str(), ").preInit();")
}

/// Reads the manifest fields out of the evaluated JSON object: ordered
/// `files`, `path`, the `nextId`/`prevId` ordinals, and the signing
/// sub-object `sl` with expiry `e` and mac `m`. Any missing or
/// ill-typed field refuses the whole manifest.
pub fn parse_manifest_fields(text: &str) -> (r: Option<ChapterManifestData>) {
    let v = match json_parse(text) {
        Some(v) => v,
        None => {
            return None;
        },
    };
    let files = match json_member(&v, "files") {
        Some(f) => match json_as_string_array(f) {
            Some(x) => x,
            None => {
                return None;
            },
        },
        None => {
            return None;
        },
    };
    let path = match json_member(&v, "path") {
        Some(p) => match json_as_string(p) {
            Some(x) => x,
            None => {
                return None;
            },
        },
        None => {
            return None;
        },
    };
    let next_id = match json_member(&v, "nextId") {
        Some(p) => match json_as_u64(p) {
            Some(x) => x,
            None => {
                return None;
            },
        },
        None => {
            return None;
        },
    };
    let prev_id = match json_member(&v, "prevId") {
        Some(p) => match json_as_u64(p) {
            Some(x) => x,
            None => {
                return None;
            },
        },
        None => {
            return None;
        },
    };
    let sl = match json_member(&v, "sl") {
        Some(p) => p,
        None => {
            return None;
        },
    };
    let expiry = match json_member(sl, "e") {
        Some(p) => match json_as_u64(p) {
            Some(x) => x,
            None => {
                return None;
            },
        },
        None => {
            return None;
        },
    };
    let mac = match json_member(sl, "m") {
        Some(p) => match json_as_string(p) {
            Some(x) => x,
            None => {
                return None;
            },
        },
        None => {
            return None;
        },
    };
    Some(ChapterManifestData { files, path, next_id, prev_id, expiry, mac })
}

/// Relies on `rquickjs` (`Runtime::new`, `Runtime::set_interrupt_handler`,
/// `Context::full`, `Ctx::eval`): evaluates an expression in a fresh,
/// isolated engine with no host bindings, discarded right after the
/// call. A deadline-based interrupt handler bounds the execution time,
/// so a runaway script is cut off and returns `None` like any other
/// evaluation failure. Nothing is assumed of the result.
#[verifier::external_body]
pub(crate) fn eval_in_sandbox(script: &str) -> Option<String> {
    let rt = rquickjs::Runtime::new().ok()?;
    let deadline = std::time::Instant::now() + std::time::Duration::from_secs(2);
    rt.set_interrupt_handler(Some(Box::new(move || std::time::Instant::now() >= deadline)));
    let context = rquickjs::Context::full(&rt).ok()?;
    context.with(|ctx| ctx.eval::<String, &str>(script).ok())
}

/// The signed URL of one image: host, base path, file name, and the
/// chapter's shared expiry and mac query parameters.
pub open spec fn spec_image_url(path: Seq<char>, file: Seq<char>, expiry: u64, mac: Seq<char>) -> Seq<char> {
    "https://i.hamreus.com"@ + path + file + "?e="@ + spec_u64_string(expiry as nat) + "&m="@
        + mac
}

/// Every signed image URL begins with the image host.
pub proof fn lemma_image_url_host(path: Seq<char>, file: Seq<char>, expiry: u64, mac: Seq<char>)
    ensures
        spec_starts_with(spec_image_url(path, file, expiry, mac), "https://i.hamreus.com"@),
{
    let h = "https://i.hamreus.com"@;
    lemma_starts_with_self(h);
    lemma_concat_keeps_prefix(h, path, h);
    lemma_concat_keeps_prefix(h + path, file, h);
    lemma_concat_keeps_prefix(h + path + file, "?e="@, h);
    lemma_concat_keeps_prefix(h + path + file + "?e="@, spec_u64_string(expiry as nat), h);
    lemma_concat_keeps_prefix(
        h + path + file + "?e="@ + spec_u64_string(expiry as nat),
        "&m="@,
        h,
    );
    lemma_concat_keeps_prefix(
        h + path + file + "?e="@ + spec_u64_string(expiry as nat) + "&m="@,
        mac,
        h,
    );
}

/// Builds the signed image URLs in the manifest's file order; every
/// image of a chapter shares the same signature.
pub fn build_image_urls(files: &Vec<String>, path: &str, expiry: u64, mac: &str) -> (r: Vec<
    String,
>)
    ensures
        r.deep_view().len() == files.deep_view().len(),
        forall|k: int|
            0 <= k < files.deep_view().len() ==> r.deep_view()[k] == spec_image_url(
                path@,
                files.deep_view()[k],
                expiry,
                mac@,
            ),
{
    let mut out: Vec<String> = Vec::new();
    let mut k: usize = 0;
    while k < files.len()
        invariant
            k <= files@.len(),
            files.deep_view().len() == files@.len(),
            out.deep_view().len() == k,
            forall|q: int|
                0 <= q < k ==> out.deep_view()[q] == spec_image_url(
                    path@,
                    files.deep_view()[q],
                    expiry,
                    mac@,
                ),
        decreases files@.len() - k,
    {
        let mut url = String::new();
        url.append("https://i.hamreus.com");
        url.append(path);
        url.append(files[k].as_str());
        url.append("?e=");
        let es = u64_to_string(expiry);
        url.append(es.as_str());
        url.append("&m=");
        url.append(mac);
        proof {
            assert(files.deep_view()[k as int] == files@[k as int]@);
            assert(url@ =~= spec_image_url(path@, files.deep_view()[k as int], expiry, mac@));
        }
        let ghost pre = out.deep_view();
        out.push(url);
        proof {
            assert(out.deep_view() =~= pre.push(url@));
        }
        k += 1;
    }
    out
}

/// How a chapter record relates to the outcome of the script stages:
/// no decoded manifest gives the fallback — no images and both sibling
/// ids `"0"` — and a decoded one gives exactly its signed image URLs
/// in file order, with its sibling ordinals rendered in decimal.
pub open spec fn manifest_shape(data: Option<ChapterManifestData>, r: ComicChapter) -> bool {
    &&& (data is None ==> r.images@.len() == 0 && r.prev_id@ == spec_u64_string(0)
        && r.next_id@ == spec_u64_string(0))
    &&& (data matches Some(d) ==> {
        &&& r.images.deep_view().len() == d.files.deep_view().len()
        &&& (forall|k: int|
            0 <= k < d.files.deep_view().len() ==> r.images.deep_view()[k] == spec_image_url(
                d.path@,
                d.files.deep_view()[k],
                d.expiry,
                d.mac@,
            ))
        &&& r.prev_id@ == spec_u64_string(d.prev_id as nat)
        &&& r.next_id@ == spec_u64_string(d.next_id as nat)
    })
}

/// Folds decoded manifest data — or the absence of any — into the
/// chapter record. A missing manifest yields the fallback: no images
/// and both sibling ids `"0"`, while the metadata already extracted
/// from the page is kept.
pub fn assemble_chapter(
    data: Option<ChapterManifestData>,
    chapter_id: String,
    comic_id: String,
    name: String,
    comic_name: String,
) -> (r: ComicChapter)
    ensures
        r.id@ == chapter_id@,
        r.comic_id@ == comic_id@,
        r.name@ == name@,
        r.comic_name@ == comic_name@,
        manifest_shape(data, r),
        forall|k: int|
            0 <= k < r.images.deep_view().len() ==> spec_starts_with(
                r.images.deep_view()[k],
                "https://i.hamreus.com"@,
            ),
{
    let ghost gdata = data;
    let r = match data {
        None => ComicChapter {
            id: chapter_id,
            comic_id,
            name,
            comic_name,
            next_id: u64_to_string(0),
            prev_id: u64_to_string(0),
            images: Vec::new(),
        },
        Some(d) => {
            let images = build_image_urls(&d.files, d.path.as_str(), d.expiry, d.mac.as_str());
            ComicChapter {
                id: chapter_id,
                comic_id,
                name,
                comic_name,
                next_id: u64_to_string(d.next_id),
                prev_id: u64_to_string(d.prev_id),
                images,
            }
        },
    };
    proof {
        assert forall|k: int| 0 <= k < r.images.deep_view().len() implies spec_starts_with(
            r.images.deep_view()[k],
            "https://i.hamreus.com"@,
        ) by {
            match gdata {
                Some(d) => {
                    lemma_image_url_host(d.path@, d.files.deep_view()[k], d.expiry, d.mac@);
                },
                None => {},
            }
        }
    }
    r
}

/// The fallback sibling ordinal renders as the string `"0"`: a list
/// boundary and a failed decode encode the absent sibling the same
/// way, and only the image list tells them apart.
pub proof fn lemma_zero_ordinal_is_zero_string()
    ensures
        spec_u64_string(0) == "0"@,
{
    reveal_strlit("0");
    assert(spec_u64_string(0) =~= "0"@);
}

/// Runs the stages on one signed script text: splice, evaluate in the
/// sandbox, unwrap the call-like result, parse the manifest. `None`
/// wherever any stage fails; success is only possible where the
/// script carries the token pattern and its blob decodes.
pub fn decode_script_manifest(script: &str) -> (r: Option<ChapterManifestData>)
    ensures
        r is Some ==> exists|i: int, j: int|
            #[trigger] is_splice_match(script@, spec_splice_tail(), i, j)
                && spec_decoded_payload(script@.subrange(i + 1, j)) is Some,
{
    match splice_script(script) {
        None => None,
        Some(expr) => match eval_in_sandbox(expr.as_str()) {
            None => None,
            Some(result) => {
                let body = strip_manifest_wrapper(result.as_str());
                parse_manifest_fields(body.as_str())
            },
        },
    }
}

/// Extracts a chapter's record from its page markup: the chapter and
/// comic names from the heading, and the image manifest from the last
/// inline script, falling back to the empty manifest wherever the
/// script stages fail.
pub fn extract_chapter(body: &str, comic_id: String, chapter_id: String) -> (r: ComicChapter)
    ensures
        r.id@ == chapter_id@,
        r.comic_id@ == comic_id@,
        r.name@ == spec_trim(r.name@),
        r.comic_name@ == spec_trim(r.comic_name@),
        exists|d: Option<ChapterManifestData>| #[trigger] manifest_shape(d, r),
        forall|k: int|
            0 <= k < r.images.deep_view().len() ==> spec_starts_with(
                r.images.deep_view()[k],
                "https://i.hamreus.com"@,
            ),
        exists|p: nat| r.prev_id@ == spec_u64_string(p),
        exists|n: nat| r.next_id@ == spec_u64_string(n),
{
    let doc = doc_from_html(body);
    let name_sel = doc_select_first(&doc, ".title .fr + div h2");
    let name_raw = sel_text(&name_sel);
    let name = trim_str(name_raw.as_str());
    let cname_sel = doc_select_first(&doc, ".title .fr + div h1 a");
    let cname_raw = sel_text(&cname_sel);
    let comic_name = trim_str(cname_raw.as_str());

    let scripts = doc_select_all(&doc, "body script:last-of-type");
    let mut data: Option<ChapterManifestData> = None;
    let mut k: usize = 0;
    while k < scripts.len()
        invariant
            k <= scripts@.len(),
        decreases scripts@.len() - k,
    {
        let raw = sel_text(&scripts[k]);
        let t = trim_str(raw.as_str());
        if str_starts_with(t.as_str(), eval_marker()) {
            // the first script bearing the signature decides the outcome
            data = decode_script_manifest(t.as_str());
            break ;
        }
        k += 1;
    }
    let ghost found = data;
    proof {
        lemma_trim_idempotent(name_raw@);
        lemma_trim_idempotent(cname_raw@);
    }
    let r = assemble_chapter(data, chapter_id, comic_id, name, comic_name);
    proof {
        assert(manifest_shape(found, r));
        match found {
            None => {
                assert(r.prev_id@ == spec_u64_string(0));
                assert(r.next_id@ == spec_u64_string(0));
            },
            Some(d) => {
                assert(r.prev_id@ == spec_u64_string(d.prev_id as nat));
                assert(r.next_id@ == spec_u64_string(d.next_id as nat));
            },
        }
    }
    r
}

} // verus!
