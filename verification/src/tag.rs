//! Tags and tag application records: a tag belongs to a repository, and
//! a marked tag is a tag as applied to one item by one user.

use vstd::prelude::*;

verus! {

/// A tag: name, owning repository, optional parent tag, and creator.
pub struct Tag {
    pub id: i64,
    pub name: String,
    pub repo_id: i64,
    pub parent: i64,
    pub creator: i64,
    pub is_delete: bool,
}

/// The raw storage row of a tag.
pub struct TagStorage {
    pub id: i64,
    pub name: String,
    pub repo_id: i64,
    pub parent: i64,
    pub creator: i64,
    pub is_delete: bool,
}

/// The raw storage row of a tag applied to an item.
#[derive(Clone, Copy, PartialEq, Eq, Structural, Debug)]
pub struct ItemTagRelation {
    pub id: i64,
    pub tag_id: i64,
    pub item_id: i64,
    pub creator: i64,
    pub is_delete: bool,
}

/// A tag as applied to one item: the tag plus who applied it and
/// whether the application was removed.
pub struct MarkedTag {
    pub tag: Tag,
    pub marker: i64,
    pub is_remove: bool,
}

impl MarkedTag {
    /// Combines a tag with the record of its application to an item.
    pub fn new(relation: ItemTagRelation, tag: Tag) -> (r: MarkedTag)
        ensures
            r.tag == tag,
            r.marker == relation.creator,
            r.is_remove == relation.is_delete,
    {
        MarkedTag { tag, marker: relation.creator, is_remove: relation.is_delete }
    }
}

} // verus!
