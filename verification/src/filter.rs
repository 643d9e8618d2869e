//! Post-fetch item filters. Each filter examines one item's
//! type-specific payload and answers a boolean; an absent or
//! incompatible payload evaluates to false. Filters compose by logical
//! AND across the set. Aspect and resolution classes are computed from
//! width and height at evaluation time, not stored.

use crate::item::{ImageExtend, Item, ItemExtend};
use crate::text::{
    seq_contains_sub, seq_is_prefix, seq_is_suffix, str_contains, str_ends_with, str_eq,
    str_starts_with,
};
use vstd::prelude::*;

verus! {

/// Aspect and resolution classes an image can be tested against.
#[derive(Clone, Copy, PartialEq, Eq, Structural, Debug)]
pub enum Rectangle {
    Horizontal,
    Vertical,
    NearlySquare,
    Square,
    P1080,
    P1440,
    P2160,
}

/// How a url filter compares the stored url against its pattern.
#[derive(Clone, Copy, PartialEq, Eq, Structural, Debug)]
pub enum CompareType {
    Exactly,
    Prefix,
    Suffix,
    Includes,
    Excludes,
}

/// Shared evaluation context of the filters of one page.
pub struct ConditionContext {}

/// Bounds on an image's pixel dimensions; absent bounds always pass.
pub struct SizeFilter {
    pub min_w: Option<u32>,
    pub max_w: Option<u32>,
    pub min_h: Option<u32>,
    pub max_h: Option<u32>,
}

/// An aspect or resolution class test.
pub struct RectangleFilter {
    pub rectangle: Rectangle,
}

/// A comparison against a picture's source url.
pub struct UrlFilter {
    pub url: String,
    pub compare: CompareType,
}

/// One post-fetch filter of any kind.
pub enum ItemFilter {
    Size(SizeFilter),
    Rectangle(RectangleFilter),
    Url(UrlFilter),
}

/// The image dimensions an item's payload carries, if any.
pub open spec fn spec_dims(item: Item) -> Option<ImageExtend> {
    match item.extend {
        ItemExtend::Empty => Option::None,
        ItemExtend::Picture(e) => Option::Some(e.image_extend),
        ItemExtend::Photo(e) => Option::Some(e.image_extend),
    }
}

/// Whether dimensions lie within a size filter's bounds.
pub open spec fn spec_size_ok(f: SizeFilter, d: ImageExtend) -> bool {
    &&& match f.min_w {
        Option::Some(v) => d.w >= v,
        Option::None => true,
    }
    &&& match f.max_w {
        Option::Some(v) => d.w <= v,
        Option::None => true,
    }
    &&& match f.min_h {
        Option::Some(v) => d.h >= v,
        Option::None => true,
    }
    &&& match f.max_h {
        Option::Some(v) => d.h <= v,
        Option::None => true,
    }
}

/// Whether dimensions fall in an aspect or resolution class. Nearly
/// square means the smaller side exceeds nine tenths of the larger.
pub open spec fn spec_rect_ok(r: Rectangle, d: ImageExtend) -> bool {
    let w = d.w as int;
    let h = d.h as int;
    let small = if w < h {
        w
    } else {
        h
    };
    let big = if w < h {
        h
    } else {
        w
    };
    match r {
        Rectangle::Horizontal => w > h,
        Rectangle::Vertical => w < h,
        Rectangle::NearlySquare => 10 * small > 9 * big,
        Rectangle::Square => w == h,
        Rectangle::P1080 => (w >= 1920 && h >= 1080) || (w >= 1080 && h >= 1920),
        Rectangle::P1440 => (w >= 2560 && h >= 1440) || (w >= 1440 && h >= 2560),
        Rectangle::P2160 => (w >= 4096 && h >= 2160) || (w >= 2160 && h >= 4096),
    }
}

/// Whether an item's url payload matches a url filter. Only pictures
/// carry a url; anything else evaluates to false.
pub open spec fn spec_url_ok(f: UrlFilter, item: Item) -> bool {
    match item.extend {
        ItemExtend::Picture(e) => match e.url {
            Option::Some(u) => match f.compare {
                CompareType::Exactly => f.url@ == u@,
                CompareType::Prefix => seq_is_prefix(f.url@, u@),
                CompareType::Suffix => seq_is_suffix(f.url@, u@),
                CompareType::Includes => seq_contains_sub(f.url@, u@),
                CompareType::Excludes => !seq_contains_sub(f.url@, u@),
            },
            Option::None => false,
        },
        _ => false,
    }
}

/// What a size filter says of one item.
pub open spec fn spec_size_check(f: SizeFilter, item: Item) -> bool {
    match spec_dims(item) {
        Option::Some(d) => spec_size_ok(f, d),
        Option::None => false,
    }
}

/// What an aspect filter says of one item.
pub open spec fn spec_rect_check(f: RectangleFilter, item: Item) -> bool {
    match spec_dims(item) {
        Option::Some(d) => spec_rect_ok(f.rectangle, d),
        Option::None => false,
    }
}

/// What one filter says of one item.
pub open spec fn spec_filter_check(f: ItemFilter, item: Item) -> bool {
    match f {
        ItemFilter::Size(sf) => spec_size_check(sf, item),
        ItemFilter::Rectangle(rf) => spec_rect_check(rf, item),
        ItemFilter::Url(uf) => spec_url_ok(uf, item),
    }
}

/// The image dimensions an item's payload carries, if any.
fn dims_of(item: &Item) -> (r: Option<ImageExtend>)
    ensures
        r == spec_dims(*item),
{
    match &item.extend {
        ItemExtend::Empty => None,
        ItemExtend::Picture(e) => Some(e.image_extend),
        ItemExtend::Photo(e) => Some(e.image_extend),
    }
}

impl SizeFilter {
    /// Whether the item's image dimensions lie within the bounds; an
    /// item without an image payload fails.
    pub fn check(&self, item: &Item, _context: &ConditionContext) -> (r: bool)
        ensures
            r == spec_size_check(*self, *item),
    {
        match dims_of(item) {
            None => false,
            Some(d) => {
                let mut result = true;
                if let Some(v) = self.min_w {
                    result = result && d.w >= v;
                }
                if let Some(v) = self.max_w {
                    result = result && d.w <= v;
                }
                if let Some(v) = self.min_h {
                    result = result && d.h >= v;
                }
                if let Some(v) = self.max_h {
                    result = result && d.h <= v;
                }
                result
            },
        }
    }
}

impl RectangleFilter {
    /// Whether the item's image dimensions fall in the class; an item
    /// without an image payload fails.
    pub fn check(&self, item: &Item, _context: &ConditionContext) -> (r: bool)
        ensures
            r == spec_rect_check(*self, *item),
    {
        match dims_of(item) {
            None => false,
            Some(d) => {
                let w = d.w;
                let h = d.h;
                match self.rectangle {
                    Rectangle::Horizontal => w > h,
                    Rectangle::Vertical => w < h,
                    Rectangle::NearlySquare => {
                        let small: u64 = if w < h {
                            w as u64
                        } else {
                            h as u64
                        };
                        let big: u64 = if w < h {
                            h as u64
                        } else {
                            w as u64
                        };
                        10 * small > 9 * big
                    },
                    Rectangle::Square => w == h,
                    Rectangle::P1080 => (w >= 1920 && h >= 1080) || (w >= 1080 && h >= 1920),
                    Rectangle::P1440 => (w >= 2560 && h >= 1440) || (w >= 1440 && h >= 2560),
                    Rectangle::P2160 => (w >= 4096 && h >= 2160) || (w >= 2160 && h >= 4096),
                }
            },
        }
    }
}

impl UrlFilter {
    /// Whether the item's url matches; items without a picture url
    /// payload fail.
    pub fn check(&self, item: &Item, _context: &ConditionContext) -> (r: bool)
        ensures
            r == spec_url_ok(*self, *item),
    {
        let url_option: &Option<String> = match &item.extend {
            ItemExtend::Picture(e) => &e.url,
            _ => &None,
        };
        match url_option {
            None => false,
            Some(u) => match self.compare {
                CompareType::Exactly => str_eq(self.url.as_str(), u.as_str()),
                CompareType::Prefix => str_starts_with(u.as_str(), self.url.as_str()),
                CompareType::Suffix => str_ends_with(u.as_str(), self.url.as_str()),
                CompareType::Includes => str_contains(u.as_str(), self.url.as_str()),
                CompareType::Excludes => !str_contains(u.as_str(), self.url.as_str()),
            },
        }
    }
}

impl ItemFilter {
    /// What this filter says of one item.
    pub fn check(&self, item: &Item, context: &ConditionContext) -> (r: bool)
        ensures
            r == spec_filter_check(*self, *item),
    {
        match self {
            ItemFilter::Size(f) => f.check(item, context),
            ItemFilter::Rectangle(f) => f.check(item, context),
            ItemFilter::Url(f) => f.check(item, context),
        }
    }
}

} // verus!
