use comiya::codec::decode_hidden_markup;
use comiya::comic::{Manhuagui, Site};
use comiya::engine::{
    build_image_urls, build_token_array, decode_script_manifest, splice_script,
    strip_manifest_wrapper,
};
use comiya::text::{replace_span, split_str, trim_str, u64_to_string};

const MARKER: &str = "window[\"\\x65\\x76\\x61\\x6c\"]";
const SPLIT_CALL: &str = "'['\\x73\\x70\\x6c\\x69\\x63']('\\x7c')";

/// A data-bearing script in the site's shape: the eval marker around an
/// expression whose token table sits compressed behind the obfuscated
/// split call, and which evaluates to the wrapped manifest.
fn manifest_script(tokens: &str, rest_json: &str) -> String {
    let blob = lz_str::compress_to_base64(tokens);
    [
        MARKER,
        "(function(b,a){return 'SMH.imgData({\"files\":'+JSON.stringify(a)+'",
        rest_json,
        "}).preInit();'}(0,'",
        &blob,
        SPLIT_CALL,
        "))",
    ]
    .concat()
}

fn chapter_page(script: &str) -> String {
    format!(
        "<html><body>\
         <div class=\"title\"><div class=\"fr\"></div>\
         <div><h1><a> MyComic </a></h1><h2> Ch 1 </h2></div></div>\
         <script>{script}</script>\
         </body></html>"
    )
}

#[test]
fn splice_round_trip_keeps_three_tokens_in_order() {
    // the spliced literal array evaluates back to a, b, c in order:
    // they come out as the manifest's three files
    let script = manifest_script(
        "a|b|c",
        ",\"path\":\"/p/\",\"nextId\":2,\"prevId\":1,\"sl\":{\"e\":9,\"m\":\"zz\"}",
    );
    let data = decode_script_manifest(&script).expect("stages should all succeed");
    assert_eq!(data.files, vec!["a".to_string(), "b".to_string(), "c".to_string()]);
    assert_eq!(data.path, "/p/");
    assert_eq!(data.next_id, 2);
    assert_eq!(data.prev_id, 1);
    assert_eq!(data.expiry, 9);
    assert_eq!(data.mac, "zz");
}

#[test]
fn token_array_literal_shape() {
    assert_eq!(build_token_array("a|b|c"), "['a','b','c']");
    assert_eq!(build_token_array(""), "['']");
    assert_eq!(build_token_array("x||y"), "['x','','y']");
}

#[test]
fn splice_replaces_span_and_strips_marker() {
    let blob = lz_str::compress_to_base64("a|b|c");
    let script = [MARKER, "('", &blob, SPLIT_CALL, ")"].concat();
    let spliced = splice_script(&script).expect("pattern should match");
    assert_eq!(spliced, "(['a','b','c'])");
}

#[test]
fn splice_without_pattern_is_refused() {
    let script = [MARKER, "(1+1)"].concat();
    assert!(splice_script(&script).is_none());
}

#[test]
fn signed_manifest_yields_signed_image_urls() {
    // files 001.jpg, 002.jpg under /x/ signed with e=111, m=abc
    let script = manifest_script(
        "001.jpg|002.jpg",
        ",\"path\":\"/x/\",\"nextId\":2,\"prevId\":1,\"sl\":{\"e\":111,\"m\":\"abc\"}",
    );
    let page = chapter_page(&script);
    let site = Manhuagui;
    let chapter = site.get_chapter("77".to_string(), "88".to_string(), &page);
    assert_eq!(chapter.images, vec![
        "https://i.hamreus.com/x/001.jpg?e=111&m=abc".to_string(),
        "https://i.hamreus.com/x/002.jpg?e=111&m=abc".to_string(),
    ]);
    assert_eq!(chapter.prev_id, "1");
    assert_eq!(chapter.next_id, "2");
    assert_eq!(chapter.name, "Ch 1");
    assert_eq!(chapter.comic_name, "MyComic");
    assert_eq!(chapter.id, "88");
    assert_eq!(chapter.comic_id, "77");
}

#[test]
fn image_urls_share_the_signature() {
    let files = vec!["001.jpg".to_string(), "002.jpg".to_string()];
    let urls = build_image_urls(&files, "/x/", 111, "abc");
    assert_eq!(urls, vec![
        "https://i.hamreus.com/x/001.jpg?e=111&m=abc".to_string(),
        "https://i.hamreus.com/x/002.jpg?e=111&m=abc".to_string(),
    ]);
}

#[test]
fn throwing_evaluation_degrades_to_empty_manifest() {
    // evaluation throws: images empty, both sibling ids "0", while the
    // names already extracted from the page are kept
    let blob = lz_str::compress_to_base64("a|b");
    let script = [MARKER, "('", &blob, SPLIT_CALL, ".noSuchMethod())"].concat();
    let page = chapter_page(&script);
    let site = Manhuagui;
    let chapter = site.get_chapter("77".to_string(), "88".to_string(), &page);
    assert_eq!(chapter.images, Vec::<String>::new());
    assert_eq!(chapter.prev_id, "0");
    assert_eq!(chapter.next_id, "0");
    assert_eq!(chapter.name, "Ch 1");
    assert_eq!(chapter.comic_name, "MyComic");
}

#[test]
fn runaway_evaluation_is_cut_off() {
    // a script that loops forever is interrupted by the sandbox's
    // execution ceiling and degrades like any other evaluation failure
    let blob = lz_str::compress_to_base64("a|b");
    let script = [MARKER, "(function(a){while(1){}}('", &blob, SPLIT_CALL, "))"].concat();
    let page = chapter_page(&script);
    let site = Manhuagui;
    let chapter = site.get_chapter("77".to_string(), "88".to_string(), &page);
    assert_eq!(chapter.images, Vec::<String>::new());
    assert_eq!(chapter.prev_id, "0");
    assert_eq!(chapter.next_id, "0");
    assert_eq!(chapter.name, "Ch 1");
}

#[test]
fn unsigned_script_degrades_to_empty_manifest() {
    let page = chapter_page("console.log(1)");
    let site = Manhuagui;
    let chapter = site.get_chapter("77".to_string(), "88".to_string(), &page);
    assert_eq!(chapter.images, Vec::<String>::new());
    assert_eq!(chapter.prev_id, "0");
    assert_eq!(chapter.next_id, "0");
}

#[test]
fn page_without_scripts_degrades_to_empty_manifest() {
    let page = "<html><body><p>error page</p></body></html>";
    let site = Manhuagui;
    let chapter = site.get_chapter("77".to_string(), "88".to_string(), page);
    assert_eq!(chapter.images, Vec::<String>::new());
    assert_eq!(chapter.prev_id, "0");
    assert_eq!(chapter.next_id, "0");
    assert_eq!(chapter.name, "");
    assert_eq!(chapter.comic_name, "");
}

#[test]
fn boundary_next_id_zero_is_not_a_failure() {
    // a chapter with no next sibling: nextId "0" beside a non-empty
    // image list, distinct from the fallback
    let script = manifest_script(
        "only.jpg",
        ",\"path\":\"/x/\",\"nextId\":0,\"prevId\":7,\"sl\":{\"e\":5,\"m\":\"mm\"}",
    );
    let page = chapter_page(&script);
    let site = Manhuagui;
    let chapter = site.get_chapter("77".to_string(), "88".to_string(), &page);
    assert_eq!(chapter.next_id, "0");
    assert_eq!(chapter.prev_id, "7");
    assert_eq!(chapter.images.len(), 1);
}

#[test]
fn manifest_wrapper_stripping() {
    assert_eq!(strip_manifest_wrapper(" SMH.imgData({}).preInit(); "), "{}");
    assert_eq!(strip_manifest_wrapper("{}"), "{}");
}

#[test]
fn malformed_manifest_json_is_refused() {
    let script = manifest_script("a", ",\"path\":\"/x/\"");
    assert!(decode_script_manifest(&script).is_none());
}

#[test]
fn hidden_markup_decodes_round_trip() {
    let compressed = lz_str::compress_to_base64("<p>hi</p>");
    assert_eq!(decode_hidden_markup(&compressed), Some("<p>hi</p>".to_string()));
}

#[test]
fn hidden_markup_refuses_garbage_and_empty() {
    assert_eq!(decode_hidden_markup("!!!"), None);
    let empty = lz_str::compress_to_base64("");
    assert_eq!(decode_hidden_markup(&empty), None);
}

#[test]
fn text_utilities() {
    assert_eq!(trim_str("  a b\u{3000} "), "a b");
    assert_eq!(trim_str(""), "");
    assert_eq!(u64_to_string(0), "0");
    assert_eq!(u64_to_string(120450), "120450");
    assert_eq!(split_str("", '|'), vec!["".to_string()]);
    assert_eq!(split_str("a||b", '|'), vec![
        "a".to_string(),
        "".to_string(),
        "b".to_string(),
    ]);
    assert_eq!(replace_span("abcdef", 2, 4, "XY"), "abXYef");
    assert_eq!(replace_span("abcdef", 2, 4, ""), "abef");
}
