use comiya::brief::{
    detail_selectors, normalize_authors, normalize_cover_url, normalize_pub_date,
    normalize_search_intro, parse_brief,
};
use comiya::comic::{
    chapter_id_from_href, chapters_from_anchors, comic_id_from_href, extract_chapter_groups,
    reveal_suppressed_chapters, ChapterAnchor, Manhuagui, Site,
};
use comiya::types::ComicChapterGroup;

fn detail_page(author_items: &str, cover: &str) -> String {
    format!(
        "<html><body>\
         <div class=\"book-cover\"><p class=\"hcover\"><img src=\"{cover}\"></p></div>\
         <div class=\"book-detail\">\
           <div class=\"book-title\"><h1>  One Piece  </h1></div>\
           <ul class=\"detail-list\">\
             <li><span><a> 2005年 </a></span></li>\
             <li><span>label</span><span>{author_items}</span></li>\
           </ul>\
         </div>\
         <p id=\"intro-cut\">  An intro.  </p>\
         <div class=\"book-btn\"><a href=\"/comic/7580/1234.html\">start</a></div>\
         </body></html>"
    )
}

#[test]
fn brief_has_name_and_absolute_cover() {
    // a template applied to a page holding every target node yields a
    // non-empty name and a cover without the protocol-relative prefix
    let page = detail_page("<a> Oda </a><a>Inc</a>", "//cf.example.com/cover.jpg");
    let site = Manhuagui;
    let comic = site.get_comic("7580".to_string(), &page);
    assert_eq!(comic.name, "One Piece");
    assert_eq!(comic.cover, "https://cf.example.com/cover.jpg");
    assert!(!comic.cover.starts_with("//"));
    assert_eq!(comic.author, vec!["Oda".to_string(), "Inc".to_string()]);
    assert_eq!(comic.pub_date, "2005");
    assert_eq!(comic.intro, "An intro.");
    assert_eq!(comic.id, "7580");
    assert_eq!(comic.first_chapter_id, "1234");
}

#[test]
fn absolute_cover_kept_as_is() {
    let page = detail_page("<a>x</a>", "https://cf.example.com/cover.jpg");
    let site = Manhuagui;
    let comic = site.get_comic("7580".to_string(), &page);
    assert_eq!(comic.cover, "https://cf.example.com/cover.jpg");
}

#[test]
fn missing_author_nodes_give_empty_list() {
    // no author anchors anywhere: an empty ordered list, not a failure
    let page = detail_page("", "//c/x.jpg");
    let site = Manhuagui;
    let comic = site.get_comic("7580".to_string(), &page);
    assert_eq!(comic.author, Vec::<String>::new());
    assert_eq!(comic.name, "One Piece");
}

#[test]
fn parse_brief_on_missing_fields_degrades_to_empty() {
    let doc = dom_query::Document::from("<html><body><p>nothing here</p></body></html>");
    let body = doc.select_single("body");
    let selectors = detail_selectors();
    let brief = parse_brief(&body, &selectors, "9".to_string());
    assert_eq!(brief.id, "9");
    assert_eq!(brief.name, "");
    assert_eq!(brief.cover, "");
    assert_eq!(brief.author, Vec::<String>::new());
    assert_eq!(brief.pub_date, "");
    assert_eq!(brief.intro, "");
}

fn chapter_markup() -> &'static str {
    // anchors in the site's order: newest first
    "<h4><span> 单行本 </span></h4>\
     <div class=\"chapter-list\"><ul>\
       <li><a href=\"/comic/77/ch3.html\" title=\"c3\">3</a></li>\
       <li><a href=\"/comic/77/ch2.html\" title=\"c2\">2</a></li>\
       <li><a href=\"/comic/77/ch1.html\" title=\"c1\">1</a></li>\
     </ul></div>"
}

fn group_ids(groups: &[ComicChapterGroup]) -> Vec<Vec<String>> {
    groups
        .iter()
        .map(|g| g.chapters.iter().map(|c| c.id.clone()).collect())
        .collect()
}

#[test]
fn chapter_lists_are_reversed_into_reading_order() {
    // site order [ch3, ch2, ch1] comes out as [ch1, ch2, ch3]
    let page = format!("<html><body>{}</body></html>", chapter_markup());
    let site = Manhuagui;
    let comic = site.get_comic("77".to_string(), &page);
    assert_eq!(comic.chapter_groups.len(), 1);
    let group = &comic.chapter_groups[0];
    assert_eq!(group.name, "单行本");
    let ids: Vec<&str> = group.chapters.iter().map(|c| c.id.as_str()).collect();
    assert_eq!(ids, vec!["ch1", "ch2", "ch3"]);
    let names: Vec<&str> = group.chapters.iter().map(|c| c.name.as_str()).collect();
    assert_eq!(names, vec!["c1", "c2", "c3"]);
    assert!(group.chapters.iter().all(|c| c.comic_id == "77"));
}

#[test]
fn anchors_reverse_and_derive_ids() {
    let anchors = vec![
        ChapterAnchor { href: "/comic/5/30.html".to_string(), title: "t30".to_string() },
        ChapterAnchor { href: " /comic/5/20.html ".to_string(), title: "t20".to_string() },
        ChapterAnchor { href: "javascript:;".to_string(), title: "bad".to_string() },
    ];
    let chapters = chapters_from_anchors(&anchors, "5");
    let ids: Vec<&str> = chapters.iter().map(|c| c.id.as_str()).collect();
    // reversed, the malformed link failing soft to an empty id
    assert_eq!(ids, vec!["", "20", "30"]);
    let names: Vec<&str> = chapters.iter().map(|c| c.name.as_str()).collect();
    assert_eq!(names, vec!["bad", "t20", "t30"]);
}

#[test]
fn chapter_id_derivation_edges() {
    assert_eq!(chapter_id_from_href("/comic/7/88.html", "7"), "88");
    assert_eq!(chapter_id_from_href("  /comic/7/88.html  ", "7"), "88");
    assert_eq!(chapter_id_from_href("/comic/8/88.html", "7"), "");
    assert_eq!(chapter_id_from_href("/comic/7/88.htm", "7"), "");
    assert_eq!(chapter_id_from_href("", "7"), "");
}

#[test]
fn comic_id_derivation() {
    assert_eq!(comic_id_from_href("/comic/7580/"), "7580");
    assert_eq!(comic_id_from_href(" /comic/7580 "), "7580");
    assert_eq!(comic_id_from_href("other"), "other");
}

fn gated_page(markup: &str) -> String {
    let compressed = lz_str::compress_to_base64(markup);
    format!(
        "<html><body>\
         <div id=\"erroraudit_show\"></div><input type=\"hidden\" value=\"{compressed}\">\
         <h4><span>decoy</span></h4>\
         </body></html>"
    )
}

#[test]
fn obfuscation_gate_reveals_hidden_chapters() {
    // the decoded markup fully supersedes the fetched document
    let page = gated_page(chapter_markup());
    let site = Manhuagui;
    let comic = site.get_comic("77".to_string(), &page);
    assert_eq!(group_ids(&comic.chapter_groups), vec![vec![
        "ch1".to_string(),
        "ch2".to_string(),
        "ch3".to_string(),
    ]]);
    assert_eq!(comic.chapter_groups[0].name, "单行本");
}

#[test]
fn obfuscation_detector_is_idempotent() {
    // running the detector twice equals running it once: the
    // substituted document carries no marker, so the second pass is a
    // passthrough
    let page = gated_page(chapter_markup());
    let once = reveal_suppressed_chapters(dom_query::Document::from(page.as_str()));
    let groups_once = extract_chapter_groups(&once, "77");
    let twice = reveal_suppressed_chapters(once);
    let groups_twice = extract_chapter_groups(&twice, "77");
    assert_eq!(group_ids(&groups_once), group_ids(&groups_twice));
    assert_eq!(group_ids(&groups_twice), vec![vec![
        "ch1".to_string(),
        "ch2".to_string(),
        "ch3".to_string(),
    ]]);
}

#[test]
fn absent_gate_passes_document_through() {
    let page = format!("<html><body>{}</body></html>", chapter_markup());
    let doc = reveal_suppressed_chapters(dom_query::Document::from(page.as_str()));
    let groups = extract_chapter_groups(&doc, "77");
    assert_eq!(group_ids(&groups), vec![vec![
        "ch1".to_string(),
        "ch2".to_string(),
        "ch3".to_string(),
    ]]);
}

#[test]
fn undecodable_gate_payload_falls_through() {
    let page = "<html><body>\
                <div id=\"erroraudit_show\"></div><input type=\"hidden\" value=\"!!!\">\
                </body></html>";
    let site = Manhuagui;
    let comic = site.get_comic("77".to_string(), page);
    assert_eq!(comic.chapter_groups.len(), 0);
}

#[test]
fn search_rows_become_briefs() {
    let page = "<html><body><div class=\"book-result\"><ul>\
         <li class=\"cf\">\
           <div class=\"book-cover\"><a class=\"bcover\" href=\"/comic/7580/\">\
             <img src=\"//c.example.com/a.jpg\"></a></div>\
           <div class=\"book-detail\">\
             <dl><dt><a>  Naruto  </a></dt>\
             <dd class=\"tags\">first</dd>\
             <dd class=\"tags\"><span><a>2002年</a></span></dd>\
             <dd class=\"tags\"><span><a> Kishimoto </a></span></dd>\
             <dd class=\"intro\"><span>简介：A ninja story.[详情]</span></dd></dl>\
           </div>\
         </li>\
         </ul></div></body></html>";
    let site = Manhuagui;
    let list = site.search_comic(page);
    assert_eq!(list.len(), 1);
    let b = &list[0];
    assert_eq!(b.id, "7580");
    assert_eq!(b.name, "Naruto");
    assert_eq!(b.cover, "https://c.example.com/a.jpg");
    assert_eq!(b.author, vec!["Kishimoto".to_string()]);
    assert_eq!(b.pub_date, "2002");
    assert_eq!(b.intro, "A ninja story.");
}

#[test]
fn search_intro_normalization_strips_decorations() {
    assert_eq!(normalize_search_intro("简介：X[详情]"), "X");
    assert_eq!(normalize_search_intro("plain"), "plain");
    assert_eq!(normalize_search_intro("简介："), "");
}

#[test]
fn cover_normalization() {
    assert_eq!(normalize_cover_url(" //h/x.png "), "https://h/x.png");
    assert_eq!(normalize_cover_url("/h/x.png"), "/h/x.png");
    assert_eq!(normalize_cover_url(""), "");
}

#[test]
fn pub_date_normalization_strips_year_token() {
    assert_eq!(normalize_pub_date(" 2005年 "), "2005");
    assert_eq!(normalize_pub_date("2005年年"), "2005");
    assert_eq!(normalize_pub_date("2005"), "2005");
}

#[test]
fn author_normalization_trims_and_keeps_order() {
    let raw = vec![" a ".to_string(), "b".to_string()];
    assert_eq!(normalize_authors(&raw), vec!["a".to_string(), "b".to_string()]);
    assert_eq!(normalize_authors(&Vec::new()), Vec::<String>::new());
}
