//! The comic page extractor: the brief, the "start reading" entry
//! point, the obfuscation gate, and the chapter outline. The site
//! lists chapters newest first; the outline is emitted oldest first,
//! since consumers read in increasing order.

use vstd::prelude::*;
use crate::brief::{detail_selectors, normalize_search_intro, parse_brief, search_selectors};
use crate::codec::decode_hidden_markup;
use crate::dom::{
    doc_from_fragment, doc_from_html, doc_select_all, doc_select_first, sel_attr_or, sel_exists,
    sel_select_all, sel_select_first, sel_text,
};
use crate::engine::{extract_chapter, manifest_shape, ChapterManifestData};
use crate::text::{
    lemma_trim_idempotent, spec_ends_with, spec_starts_with, spec_trim, spec_trim_end_matches,
    spec_trim_start_matches, spec_u64_string, str_ends_with, str_starts_with,
    trim_end_matches_str, trim_start_matches_str, trim_str, u64_to_string,
};
use crate::types::{Comic, ComicBrief, ComicChapter, ComicChapterBrief, ComicChapterGroup};

verus! {

/// The fixed link prefix of a chapter inside its comic.
pub open spec fn spec_chapter_prefix(comic_id: Seq<char>) -> Seq<char> {
    "/comic/"@ + comic_id + "/"@
}

/// A chapter id derived from an anchor's link target: the trimmed
/// target with the `/comic/<comic id>/` prefix and the `.html` suffix
/// stripped; empty where the target does not fit that pattern, since
/// absent or malformed links occur on partially rendered pages.
pub open spec fn spec_chapter_id_from_href(href: Seq<char>, comic_id: Seq<char>) -> Seq<char> {
    let t = spec_trim(href);
    let pre = spec_chapter_prefix(comic_id);
    if spec_starts_with(t, pre) {
        let u = t.skip(pre.len() as int);
        if spec_ends_with(u, ".html"@) {
            u.take(u.len() - ".html"@.len())
        } else {
            Seq::<char>::empty()
        }
    } else {
        Seq::<char>::empty()
    }
}

pub fn chapter_id_from_href(href: &str, comic_id: &str) -> (r: String)
    ensures
        r@ == spec_chapter_id_from_href(href@, comic_id@),
{
    let t = trim_str(href);
    let mut pre = String::new();
    pre.append("/comic/");
    pre.append(comic_id);
    pre.append("/");
    proof {
        assert(pre@ =~= spec_chapter_prefix(comic_id@));
    }
    if str_starts_with(t.as_str(), pre.as_str()) {
        let tn = t.as_str().unicode_len();
        let pn = pre.as_str().unicode_len();
        let u = t.as_str().substring_char(pn, tn).to_owned();
        proof {
            assert(u@ =~= t@.skip(pn as int));
        }
        if str_ends_with(u.as_str(), ".html") {
            let un = u.as_str().unicode_len();
            let sn = ".html".unicode_len();
            let r = u.as_str().substring_char(0, un - sn).to_owned();
            proof {
                assert(r@ =~= u@.take(u@.len() - ".html"@.len()));
            }
            r
        } else {
            String::new()
        }
    } else {
        String::new()
    }
}

/// A comic id derived from a search row's cover link: the trimmed
/// target with the `/comic/` prefix and trailing slashes stripped.
pub open spec fn spec_comic_id_from_href(href: Seq<char>) -> Seq<char> {
    spec_trim_end_matches(spec_trim_start_matches(spec_trim(href), "/comic/"@), "/"@)
}

pub fn comic_id_from_href(href: &str) -> (r: String)
    ensures
        r@ == spec_comic_id_from_href(href@),
{
    let t = trim_str(href);
    let u = trim_start_matches_str(t.as_str(), "/comic/");
    trim_end_matches_str(u.as_str(), "/")
}

/// One chapter anchor as it sits in a list block: the link target and
/// the title attribute.
pub struct ChapterAnchor {
    pub href: String,
    pub title: String,
}

/// Turns one list block's anchors, given in the site's newest-first
/// order, into chapter stubs in reading order: the output is the
/// reversed list, each id derived from its anchor's link target.
pub fn chapters_from_anchors(anchors: &Vec<ChapterAnchor>, comic_id: &str) -> (r: Vec<
    ComicChapterBrief,
>)
    ensures
        r@.len() == anchors@.len(),
        forall|k: int|
            0 <= k < r@.len() ==> {
                &&& r@[k].id@ == spec_chapter_id_from_href(
                    anchors@[anchors@.len() - 1 - k].href@,
                    comic_id@,
                )
                &&& r@[k].name@ == anchors@[anchors@.len() - 1 - k].title@
                &&& r@[k].comic_id@ == comic_id@
            },
{
    let n = anchors.len();
    let mut out: Vec<ComicChapterBrief> = Vec::new();
    let mut k: usize = 0;
    while k < n
        invariant
            k <= n,
            n == anchors@.len(),
            out@.len() == k,
            forall|q: int|
                0 <= q < k ==> {
                    &&& out@[q].id@ == spec_chapter_id_from_href(
                        anchors@[n - 1 - q].href@,
                        comic_id@,
                    )
                    &&& out@[q].name@ == anchors@[n - 1 - q].title@
                    &&& out@[q].comic_id@ == comic_id@
                },
        decreases n - k,
    {
        let a = &anchors[n - 1 - k];
        let id = chapter_id_from_href(a.href.as_str(), comic_id);
        out.push(
            ComicChapterBrief {
                id,
                comic_id: comic_id.to_owned(),
                name: a.title.clone(),
            },
        );
        k += 1;
    }
    out
}

/// Reads the warning-gate payload, where the page carries one.
pub fn gate_payload(doc: &dom_query::Document) -> Option<String> {
    let hidden = doc_select_first(doc, "#erroraudit_show + input[type=\"hidden\"]");
    if sel_exists(&hidden) {
        Some(sel_attr_or(&hidden, "value", ""))
    } else {
        None
    }
}

/// Applies the obfuscation gate: where the page carries the hidden
/// marker and its payload decodes to non-empty markup, the document
/// parsed from that markup fully supersedes the fetched one; in every
/// other case the document passes through unchanged. Running this on a
/// substituted document is a no-op, since the replacement markup
/// carries no marker of its own.
pub fn reveal_suppressed_chapters(doc: dom_query::Document) -> dom_query::Document {
    let payload = gate_payload(&doc);
    match payload {
        Some(encoded) => match decode_hidden_markup(encoded.as_str()) {
            Some(markup) => doc_from_fragment(markup.as_str()),
            None => doc,
        },
        None => doc,
    }
}

/// Walks the heading and list structure of the (possibly substituted)
/// document: the n-th heading pairs with the n-th list block, each
/// block's anchors are read in site order and emitted reversed, and a
/// group's blocks are flattened in document order.
pub fn extract_chapter_groups(doc: &dom_query::Document, comic_id: &str) -> (r: Vec<
    ComicChapterGroup,
>)
    ensures
        forall|g: int|
            0 <= g < r@.len() ==> {
                &&& (#[trigger] r@[g]).name@ == spec_trim(r@[g].name@)
                &&& (forall|k: int|
                    0 <= k < r@[g].chapters@.len() ==> (#[trigger] r@[g].chapters@[k]).comic_id@
                        == comic_id@)
            },
{
    let headings = doc_select_all(doc, "h4:has(~ .chapter-list");
    let mut groups: Vec<ComicChapterGroup> = Vec::new();
    let mut gi: usize = 0;
    while gi < headings.len()
        invariant
            gi <= headings@.len(),
            forall|g: int|
                0 <= g < groups@.len() ==> {
                    &&& (#[trigger] groups@[g]).name@ == spec_trim(groups@[g].name@)
                    &&& (forall|k: int|
                        0 <= k < groups@[g].chapters@.len() ==> (#[trigger] groups@[g].chapters@[k]).comic_id@
                            == comic_id@)
                },
        decreases headings@.len() - gi,
    {
        let label = sel_select_first(&headings[gi], "span");
        let raw_label = sel_text(&label);
        let group_name = trim_str(raw_label.as_str());
        proof {
            lemma_trim_idempotent(raw_label@);
        }
        // positional pairing: heading gi pairs with list block gi (1-based
        // in the query)
        let mut list_query = String::new();
        list_query.append("h4:nth-of-type(");
        let ordinal = u64_to_string((gi as u64) + 1);
        list_query.append(ordinal.as_str());
        list_query.append(") ~ .chapter-list ul");
        let lists = doc_select_all(doc, list_query.as_str());
        let mut chapters: Vec<ComicChapterBrief> = Vec::new();
        let mut li: usize = 0;
        while li < lists.len()
            invariant
                li <= lists@.len(),
                forall|q: int|
                    0 <= q < chapters@.len() ==> (#[trigger] chapters@[q]).comic_id@ == comic_id@,
            decreases lists@.len() - li,
        {
            let a_nodes = sel_select_all(&lists[li], "li a");
            let mut anchors: Vec<ChapterAnchor> = Vec::new();
            let mut ai: usize = 0;
            while ai < a_nodes.len()
                invariant
                    ai <= a_nodes@.len(),
                decreases a_nodes@.len() - ai,
            {
                anchors.push(
                    ChapterAnchor {
                        href: sel_attr_or(&a_nodes[ai], "href", ""),
                        title: sel_attr_or(&a_nodes[ai], "title", ""),
                    },
                );
                ai += 1;
            }
            let mut block = chapters_from_anchors(&anchors, comic_id);
            chapters.append(&mut block);
            li += 1;
        }
        groups.push(ComicChapterGroup { name: group_name, chapters });
        gi += 1;
    }
    groups
}

/// One extraction entry point per page kind. Each method takes the
/// already fetched page markup: fetching is the transport's concern,
/// and a transport failure never reaches these functions.
pub trait Site {
    /// Extracts the briefs from a search-result page, one per result
    /// row. Every brief comes out normalized, whatever the page held:
    /// the cover is never protocol-relative, and the trimmed fields
    /// are fixed points of the trim.
    fn search_comic(&self, page: &str) -> (r: Vec<ComicBrief>)
        ensures
            forall|k: int|
                0 <= k < r@.len() ==> {
                    &&& !spec_starts_with((#[trigger] r@[k]).cover@, "//"@)
                    &&& r@[k].name@ == spec_trim(r@[k].name@)
                    &&& (forall|a: int|
                        0 <= a < r@[k].author.deep_view().len() ==> r@[k].author.deep_view()[a]
                            == spec_trim(r@[k].author.deep_view()[a]))
                },
    ;

    /// Extracts the comic record from a comic detail page: its id is
    /// the requested one, and so is the comic id of every chapter stub
    /// in every group; the brief fields come out normalized.
    fn get_comic(&self, id: String, page: &str) -> (r: Comic)
        ensures
            r.id@ == id@,
            !spec_starts_with(r.cover@, "//"@),
            r.name@ == spec_trim(r.name@),
            forall|g: int|
                0 <= g < r.chapter_groups@.len() ==> (forall|k: int|
                    0 <= k < (#[trigger] r.chapter_groups@[g]).chapters@.len() ==> (
                    #[trigger] r.chapter_groups@[g].chapters@[k]).comic_id@ == id@),
    ;

    /// Extracts a chapter's manifest record from a chapter detail
    /// page. The record keeps the requested ids and carries trimmed
    /// names; its images are exactly the signed URLs of some decoded
    /// manifest, each beginning with the image host, or the empty
    /// fallback; the sibling ids always render decimal ordinals, with
    /// `"0"` standing for an absent sibling.
    fn get_chapter(&self, comic_id: String, chapter_id: String, page: &str) -> (r: ComicChapter)
        ensures
            r.id@ == chapter_id@,
            r.comic_id@ == comic_id@,
            r.name@ == spec_trim(r.name@),
            r.comic_name@ == spec_trim(r.comic_name@),
            exists|d: Option<ChapterManifestData>| #[trigger] manifest_shape(d, r),
            forall|k: int|
                0 <= k < r.images.deep_view().len() ==> spec_starts_with(
                    r.images.deep_view()[k],
                    "https://i.hamreus.com"@,
                ),
            exists|p: nat| r.prev_id@ == spec_u64_string(p),
            exists|n: nat| r.next_id@ == spec_u64_string(n),
    ;
}

/// The one supported site.
pub struct Manhuagui;

impl Site for Manhuagui {
    /// Extracts the comic record from a comic detail page: the brief,
    /// the designated first chapter, and the chapter outline, read
    /// from the revealed document where the obfuscation gate was
    /// present.
    fn get_comic(&self, id: String, page: &str) -> (r: Comic) {
        let doc = doc_from_html(page);
        let body_sel = doc_select_first(&doc, "body");
        let selectors = detail_selectors();
        let brief = parse_brief(&body_sel, &selectors, id.clone());
        let btn = doc_select_first(&doc, ".book-btn a");
        let href = sel_attr_or(&btn, "href", "");
        let first_chapter_id = chapter_id_from_href(href.as_str(), id.as_str());
        let revealed = reveal_suppressed_chapters(doc);
        let chapter_groups = extract_chapter_groups(&revealed, id.as_str());
        Comic {
            id: brief.id,
            name: brief.name,
            cover: brief.cover,
            author: brief.author,
            intro: brief.intro,
            pub_date: brief.pub_date,
            chapter_groups,
            first_chapter_id,
        }
    }

    /// Extracts the briefs from a search-result page, one per result
    /// row, with the search page's extra intro normalization applied.
    fn search_comic(&self, page: &str) -> (r: Vec<ComicBrief>) {
        let doc = doc_from_html(page);
        let rows = doc_select_all(&doc, ".book-result>ul>li.cf");
        let selectors = search_selectors();
        let mut list: Vec<ComicBrief> = Vec::new();
        let mut k: usize = 0;
        while k < rows.len()
            invariant
                k <= rows@.len(),
                forall|q: int|
                    0 <= q < list@.len() ==> {
                        &&& !spec_starts_with((#[trigger] list@[q]).cover@, "//"@)
                        &&& list@[q].name@ == spec_trim(list@[q].name@)
                        &&& (forall|a: int|
                            0 <= a < list@[q].author.deep_view().len() ==> list@[
                                q
                            ].author.deep_view()[a] == spec_trim(list@[q].author.deep_view()[a]))
                    },
            decreases rows@.len() - k,
        {
            let cover_a = sel_select_first(&rows[k], "a.bcover");
            let href = sel_attr_or(&cover_a, "href", "");
            let id = comic_id_from_href(href.as_str());
            let mut brief = parse_brief(&rows[k], &selectors, id);
            brief.intro = normalize_search_intro(brief.intro.as_str());
            list.push(brief);
            k += 1;
        }
        list
    }

    /// Extracts a chapter's manifest record from a chapter detail
    /// page.
    fn get_chapter(&self, comic_id: String, chapter_id: String, page: &str) -> (r:
        ComicChapter) {
        extract_chapter(page, comic_id, chapter_id)
    }
}

} // verus!
