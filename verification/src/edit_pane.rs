//! The editing panes: a copy of the bookmark or category being edited, the
//! changes a pane makes to it, and how new panes are split off.

use vstd::prelude::*;
use crate::records::Bookmark;

verus! {

/// The direction in which a pane is split.
#[derive(Clone, Copy, Debug, PartialEq, Eq, Structural)]
pub enum Axis {
    /// Split into a top and a bottom pane.
    Horizontal,
    /// Split into a left and a right pane.
    Vertical,
}

/// The direction in which a new pane is split off when there are
/// `pane_count` panes: alternately horizontally and vertically.
pub open spec fn pane_axis(pane_count: nat) -> Axis {
    if pane_count % 2 == 0 {
        Axis::Horizontal
    } else {
        Axis::Vertical
    }
}

/// How a new editing pane is split off, given how many panes there are:
/// alternately horizontally and vertically, starting horizontally.
pub fn split_axis(pane_count: usize) -> (a: Axis)
    ensures
        a == pane_axis(pane_count as nat),
{
    if pane_count % 2 == 0 {
        Axis::Horizontal
    } else {
        Axis::Vertical
    }
}

/// The bookmark being edited in a pane, with its position.
#[derive(Clone, Debug)]
pub struct BookmarkProxy {
    /// Its description.
    pub info: String,
    /// Its url.
    pub url: String,
    /// Its tags.
    pub tags: Vec<String>,
    /// Its position among the bookmarks.
    pub index: usize,
}

/// A change that a bookmark pane makes.
#[derive(Clone, Debug)]
pub enum BookmarkChange {
    /// A new description.
    Info(String),
    /// A new url.
    Url(String),
    /// New tags.
    Tags(Vec<String>),
}

/// The category being edited in a pane, with its position.
#[derive(Clone, Debug)]
pub struct CategoryProxy {
    /// Its id.
    pub id: String,
    /// Its name.
    pub name: String,
    /// Its description.
    pub info: String,
    /// Its identifiers.
    pub identifiers: Vec<String>,
    /// The ids of its subcategories.
    pub subcategories: Vec<String>,
    /// Its position among the categories.
    pub index: usize,
}

/// A change that a category pane makes.
#[derive(Clone, Debug)]
pub enum CategoryChange {
    /// A new id.
    Id(String),
    /// A new name.
    Name(String),
    /// A new description.
    Info(String),
    /// New identifiers.
    Identifiers(Vec<String>),
    /// New subcategory ids.
    Subcategories(Vec<String>),
}

/// The result of applying a change to an edited bookmark: the changed field
/// takes the new value, the others stay.
pub open spec fn bookmark_changed(p: BookmarkProxy, c: BookmarkChange) -> BookmarkProxy {
    match c {
        BookmarkChange::Info(v) => BookmarkProxy { info: v, ..p },
        BookmarkChange::Url(v) => BookmarkProxy { url: v, ..p },
        BookmarkChange::Tags(v) => BookmarkProxy { tags: v, ..p },
    }
}

/// The result of applying a change to an edited category.
pub open spec fn category_changed(p: CategoryProxy, c: CategoryChange) -> CategoryProxy {
    match c {
        CategoryChange::Id(v) => CategoryProxy { id: v, ..p },
        CategoryChange::Name(v) => CategoryProxy { name: v, ..p },
        CategoryChange::Info(v) => CategoryProxy { info: v, ..p },
        CategoryChange::Identifiers(v) => CategoryProxy { identifiers: v, ..p },
        CategoryChange::Subcategories(v) => CategoryProxy { subcategories: v, ..p },
    }
}

/// Is `p` the copy of bookmark `b` at position `index` that a pane edits?
pub open spec fn is_proxy_of(p: BookmarkProxy, b: Bookmark, index: usize) -> bool {
    &&& p.info@ == b.description@
    &&& p.url@ == b.url@
    &&& p.tags@ == b.tags@
    &&& p.index == index
}

/// Each change of an edited bookmark writes its own field and keeps the
/// others: a new description, url or tag list, and the same position.
pub proof fn lemma_bookmark_change_writes_its_field(p: BookmarkProxy, c: BookmarkChange)
    ensures
        bookmark_changed(p, c).index == p.index,
        c matches BookmarkChange::Info(v) ==> bookmark_changed(p, c).info == v
            && bookmark_changed(p, c).url == p.url && bookmark_changed(p, c).tags == p.tags,
        c matches BookmarkChange::Url(v) ==> bookmark_changed(p, c).url == v
            && bookmark_changed(p, c).info == p.info && bookmark_changed(p, c).tags == p.tags,
        c matches BookmarkChange::Tags(v) ==> bookmark_changed(p, c).tags == v
            && bookmark_changed(p, c).info == p.info && bookmark_changed(p, c).url == p.url,
{
}

/// Each change of an edited category writes its own field and keeps the
/// others: a new id, name, description, identifier list or subcategory
/// list, and the same position.
pub proof fn lemma_category_change_writes_its_field(p: CategoryProxy, c: CategoryChange)
    ensures
        category_changed(p, c).index == p.index,
        c matches CategoryChange::Id(v) ==> {
            &&& category_changed(p, c).id == v
            &&& category_changed(p, c).name == p.name
            &&& category_changed(p, c).info == p.info
            &&& category_changed(p, c).identifiers == p.identifiers
            &&& category_changed(p, c).subcategories == p.subcategories
        },
        c matches CategoryChange::Name(v) ==> {
            &&& category_changed(p, c).name == v
            &&& category_changed(p, c).id == p.id
            &&& category_changed(p, c).info == p.info
            &&& category_changed(p, c).identifiers == p.identifiers
            &&& category_changed(p, c).subcategories == p.subcategories
        },
        c matches CategoryChange::Info(v) ==> {
            &&& category_changed(p, c).info == v
            &&& category_changed(p, c).id == p.id
            &&& category_changed(p, c).name == p.name
            &&& category_changed(p, c).identifiers == p.identifiers
            &&& category_changed(p, c).subcategories == p.subcategories
        },
        c matches CategoryChange::Identifiers(v) ==> {
            &&& category_changed(p, c).identifiers == v
            &&& category_changed(p, c).id == p.id
            &&& category_changed(p, c).name == p.name
            &&& category_changed(p, c).info == p.info
            &&& category_changed(p, c).subcategories == p.subcategories
        },
        c matches CategoryChange::Subcategories(v) ==> {
            &&& category_changed(p, c).subcategories == v
            &&& category_changed(p, c).id == p.id
            &&& category_changed(p, c).name == p.name
            &&& category_changed(p, c).info == p.info
            &&& category_changed(p, c).identifiers == p.identifiers
        },
{
}

impl BookmarkProxy {
    /// The copy of bookmark `b` at position `index` that a pane edits.
    pub fn of(b: &Bookmark, index: usize) -> (p: Self)
        ensures
            is_proxy_of(p, *b, index),
    {
        let tags = crate::records::copy_strings(&b.tags);
        BookmarkProxy { info: b.description.clone(), url: b.url.clone(), tags, index }
    }

    /// Applies a change.
    pub fn apply_change(&mut self, change: BookmarkChange)
        ensures
            *final(self) == bookmark_changed(*old(self), change),
    {
        match change {
            BookmarkChange::Info(v) => self.info = v,
            BookmarkChange::Url(v) => self.url = v,
            BookmarkChange::Tags(v) => self.tags = v,
        }
    }
}

impl CategoryProxy {
    /// Applies a change.
    pub fn apply_change(&mut self, change: CategoryChange)
        ensures
            *final(self) == category_changed(*old(self), change),
    {
        match change {
            CategoryChange::Id(v) => self.id = v,
            CategoryChange::Name(v) => self.name = v,
            CategoryChange::Info(v) => self.info = v,
            CategoryChange::Identifiers(v) => self.identifiers = v,
            CategoryChange::Subcategories(v) => self.subcategories = v,
        }
    }
}

/// What an editing pane holds.
#[derive(Clone, Debug)]
pub enum EditPaneState {
    /// The settings.
    Settings,
    /// A bookmark being edited.
    Bookmark(BookmarkProxy),
    /// A category being edited.
    Category(CategoryProxy),
}

impl EditPaneState {
    /// Applies a bookmark change to the bookmark the pane edits.
    pub fn edit_bookmark(&mut self, change: BookmarkChange)
        requires
            *old(self) is Bookmark,
        ensures
            *final(self) == EditPaneState::Bookmark(bookmark_changed(old(self)->Bookmark_0, change)),
    {
        match self {
            EditPaneState::Bookmark(p) => p.apply_change(change),
            _ => {},
        }
    }

    /// Applies a category change to the category the pane edits.
    pub fn edit_category(&mut self, change: CategoryChange)
        requires
            *old(self) is Category,
        ensures
            *final(self) == EditPaneState::Category(category_changed(old(self)->Category_0, change)),
    {
        match self {
            EditPaneState::Category(p) => p.apply_change(change),
            _ => {},
        }
    }
}

} // verus!
