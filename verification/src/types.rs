use vstd::prelude::*;

verus! {

/// Minimal comic metadata extracted from one page, without chapter contents.
#[derive(Debug, Clone)]
pub struct ComicBrief {
    /// The site's canonical comic identifier (a path segment).
    pub id: String,
    pub name: String,
    /// Absolute cover image URL; never protocol-relative.
    pub cover: String,
    /// Author names in document order.
    pub author: Vec<String>,
    pub intro: String,
    pub pub_date: String,
}

/// One chapter entry of a comic's outline: identifier and display name.
#[derive(Debug, Clone)]
pub struct ComicChapterBrief {
    pub id: String,
    pub comic_id: String,
    pub name: String,
}

/// A named release category with its chapters in reading order
/// (oldest first).
#[derive(Debug, Clone)]
pub struct ComicChapterGroup {
    pub name: String,
    pub chapters: Vec<ComicChapterBrief>,
}

/// Full comic record: brief metadata plus the chapter outline.
#[derive(Debug, Clone)]
pub struct Comic {
    pub id: String,
    pub name: String,
    pub cover: String,
    pub author: Vec<String>,
    pub intro: String,
    pub pub_date: String,
    pub chapter_groups: Vec<ComicChapterGroup>,
    pub first_chapter_id: String,
}

/// Per-chapter manifest: the signed image URLs in reading order and the
/// sibling chapter ids. `prev_id`/`next_id` are `"0"` when the sibling is
/// absent; that signals a list boundary, not an error.
#[derive(Debug, Clone)]
pub struct ComicChapter {
    pub id: String,
    pub comic_id: String,
    pub name: String,
    pub comic_name: String,
    pub next_id: String,
    pub prev_id: String,
    pub images: Vec<String>,
}

} // verus!
