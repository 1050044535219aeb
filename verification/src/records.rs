//! The records that the application stores: bookmarks, categories and the
//! info section that names the top level categories.

use vstd::prelude::*;

verus! {

/// A bookmark: an url with a description and tags.
#[derive(Debug, Clone)]
pub struct Bookmark {
    /// Where the bookmark points.
    pub url: String,
    /// Free text describing the bookmark.
    pub description: String,
    /// Tags attached to the bookmark.
    pub tags: Vec<String>,
}

/// A category: a named set of rules that bookmarks may match, with
/// subcategories referred to by id.
#[derive(Debug, Clone)]
pub struct Category {
    /// Identifier by which other categories and infos refer to it.
    pub id: String,
    /// Display name.
    pub name: String,
    /// Free text description.
    pub description: String,
    /// Identifiers that a bookmark must all contain.
    pub require: Vec<String>,
    /// Identifiers that must match a whole word.
    pub whole: Vec<String>,
    /// Identifiers of which a bookmark must contain one.
    pub included: Vec<String>,
    /// Ids of the subcategories.
    pub subcategories: Vec<String>,
}

/// The info section of a file: top level category ids and known tags.
#[derive(Debug, Clone)]
pub struct Info {
    /// Ids of the top level categories.
    pub categories: Vec<String>,
    /// Tags in use.
    pub tags: Vec<String>,
}

/// The views of a list of strings.
pub open spec fn strings_view(v: Seq<String>) -> Seq<Seq<char>> {
    v.map_values(|s: String| s@)
}

} // verus!

verus! {

/// The contents of a bookmark.
pub open spec fn bookmark_view(b: Bookmark) -> (Seq<char>, Seq<char>, Seq<Seq<char>>) {
    (b.url@, b.description@, strings_view(b.tags@))
}

/// A copy of a list of strings.
pub fn copy_strings(v: &Vec<String>) -> (r: Vec<String>)
    ensures
        r@ == v@,
{
    let r = v.clone();
    assert(r@ =~= v@);
    r
}

/// A copy of a bookmark.
pub fn copy_bookmark(b: &Bookmark) -> (r: Bookmark)
    ensures
        bookmark_view(r) == bookmark_view(*b),
        r.tags@ == b.tags@,
{
    Bookmark { url: b.url.clone(), description: b.description.clone(), tags: copy_strings(&b.tags) }
}

} // verus!
