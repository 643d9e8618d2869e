//! The stored item's metadata record and its type-specific extension
//! payloads. The storage-row form keeps the raw column values; the domain
//! form carries the resolved content type and the decoded payload.

use crate::content_type::ContentType;
use vstd::prelude::*;

verus! {

/// Type-specific payload of an item: nothing, a picture (illustration
/// repositories) or a photo.
pub enum ItemExtend {
    Empty,
    Picture(PictureExtend),
    Photo(PhotoExtend),
}

/// A color value kept for future payload fields.
#[derive(Clone, Copy, PartialEq, Eq, Structural, Debug)]
pub struct RgbColor {
    pub r: u8,
    pub g: u8,
    pub b: u8,
    pub a: u8,
}

/// Pixel dimensions shared by the image payloads.
#[derive(Clone, Copy, PartialEq, Eq, Structural, Debug)]
pub struct ImageExtend {
    pub w: u32,
    pub h: u32,
}

/// Payload of an image in an illustration repository.
pub struct PictureExtend {
    pub image_extend: ImageExtend,
    pub author: Option<i64>,
    pub url: Option<String>,
}

/// Payload of an image in any other repository.
pub struct PhotoExtend {
    pub image_extend: ImageExtend,
}

/// A stored media object's metadata record.
pub struct Item {
    pub id: i64,
    pub name: String,
    pub ext: ContentType,
    pub size: usize,
    pub created_at: i64,
    pub is_deleted: bool,
    pub repo_id: i64,
    pub path: String,
    pub extend: ItemExtend,
}

/// The raw storage row of an item: content type by id, creation time as
/// a Unix timestamp, payload as serialized text.
pub struct ItemStorage {
    pub id: i64,
    pub name: String,
    pub ext: i64,
    pub size: usize,
    pub created_at: i64,
    pub is_deleted: bool,
    pub repo_id: i64,
    pub path: String,
    pub extend: String,
}

} // verus!
