//! The registry of known file formats: lookup by id and by extension, and
//! magic-byte sniffing over raw content. The registry is a fixed ordered
//! table; every lookup is first-match-wins over that order, and entry 0 is
//! the Unknown sentinel that every miss falls back to.

use crate::result::{Error, Res};
use vstd::prelude::*;
use vstd::string::StringExecFns;

verus! {

/// Broad class of a stored file.
#[derive(Clone, Copy, PartialEq, Eq, Structural, Debug)]
pub enum FileType {
    Unknown,
    Plain,
    Image,
}

/// One registry entry: numeric id, file class, canonical extension, MIME
/// string and magic-byte prefix (possibly empty).
pub struct ContentType {
    pub id: i64,
    pub file: FileType,
    pub ext: String,
    pub mimetype: String,
    pub magic: Vec<u8>,
}

/// The mathematical value of a registry entry.
#[verifier::ext_equal]
pub ghost struct ContentTypeView {
    pub id: int,
    pub file: FileType,
    pub ext: Seq<char>,
    pub mimetype: Seq<char>,
    pub magic: Seq<u8>,
}

impl View for ContentType {
    type V = ContentTypeView;

    open spec fn view(&self) -> ContentTypeView {
        ContentTypeView {
            id: self.id as int,
            file: self.file,
            ext: self.ext@,
            mimetype: self.mimetype@,
            magic: self.magic@,
        }
    }
}

impl Clone for ContentType {
    fn clone(&self) -> (res: Self)
        ensures
            res@ == self@,
    {
        ContentType {
            id: self.id,
            file: self.file,
            ext: self.ext.clone(),
            mimetype: self.mimetype.clone(),
            magic: self.magic.clone(),
        }
    }
}

/// The fixed table of known formats, in match order.
pub open spec fn spec_registry() -> Seq<ContentTypeView> {
    seq![
        ContentTypeView {
            id: 0,
            file: FileType::Unknown,
            ext: ""@,
            mimetype: "application/octet-stream"@,
            magic: Seq::<u8>::empty(),
        },
        ContentTypeView {
            id: 1,
            file: FileType::Plain,
            ext: ".json"@,
            mimetype: "application/json"@,
            magic: Seq::<u8>::empty(),
        },
        ContentTypeView {
            id: 2,
            file: FileType::Image,
            ext: ".gif"@,
            mimetype: "image/gif"@,
            magic: seq![0x47u8, 0x49u8, 0x46u8, 0x38u8, 0x37u8, 0x61u8],
        },
        ContentTypeView {
            id: 3,
            file: FileType::Image,
            ext: ".gif"@,
            mimetype: "image/gif"@,
            magic: seq![0x47u8, 0x49u8, 0x46u8, 0x38u8, 0x39u8, 0x61u8],
        },
        ContentTypeView {
            id: 4,
            file: FileType::Image,
            ext: ".bmp"@,
            mimetype: "image/bmp"@,
            magic: seq![0x42u8, 0x4Du8],
        },
        ContentTypeView {
            id: 5,
            file: FileType::Image,
            ext: ".jpg"@,
            mimetype: "image/jpeg"@,
            magic: seq![0xFFu8, 0xD8u8, 0xFFu8],
        },
        ContentTypeView {
            id: 6,
            file: FileType::Image,
            ext: ".png"@,
            mimetype: "image/png"@,
            magic: seq![0x89u8, 0x50u8, 0x4Eu8, 0x47u8, 0x0Du8, 0x0Au8, 0x1Au8, 0x0Au8],
        },
        ContentTypeView {
            id: 7,
            file: FileType::Image,
            ext: ".heif"@,
            mimetype: "image/heif"@,
            magic: seq![0x66u8, 0x74u8, 0x79u8, 0x70u8],
        },
        ContentTypeView {
            id: 8,
            file: FileType::Image,
            ext: ".tif"@,
            mimetype: "image/tiff"@,
            magic: seq![0x49u8, 0x49u8, 0x2Au8, 0x00u8],
        },
        ContentTypeView {
            id: 9,
            file: FileType::Image,
            ext: ".tiff"@,
            mimetype: "image/tiff"@,
            magic: seq![0x4Du8, 0x4Du8, 0x00u8, 0x2Au8],
        },
    ]
}

/// Index of the first entry of `regs` that satisfies `p`, or -1.
pub open spec fn first_where(regs: Seq<ContentTypeView>, p: spec_fn(ContentTypeView) -> bool) -> int
    decreases regs.len(),
{
    if regs.len() == 0 {
        -1
    } else if p(regs[0]) {
        0
    } else {
        let r = first_where(regs.drop_first(), p);
        if r == -1 {
            -1
        } else {
            r + 1
        }
    }
}

/// What `first_where` finds: the first satisfying index, and nothing
/// satisfying before it; -1 exactly when nothing satisfies at all.
pub proof fn lemma_first_where(regs: Seq<ContentTypeView>, p: spec_fn(ContentTypeView) -> bool)
    ensures
        first_where(regs, p) >= -1,
        first_where(regs, p) == -1 ==> forall|i: int|
            0 <= i < regs.len() ==> !p(#[trigger] regs[i]),
        first_where(regs, p) >= 0 ==> {
            &&& 0 <= first_where(regs, p) < regs.len()
            &&& p(regs[first_where(regs, p)])
            &&& forall|i: int| 0 <= i < first_where(regs, p) ==> !p(#[trigger] regs[i])
        },
    decreases regs.len(),
{
    if regs.len() == 0 {
    } else if p(regs[0]) {
    } else {
        lemma_first_where(regs.drop_first(), p);
        let r = first_where(regs.drop_first(), p);
        assert(forall|i: int|
            1 <= i < regs.len() ==> #[trigger] regs[i] == regs.drop_first()[i - 1]);
        if r == -1 {
            assert(first_where(regs, p) == -1);
            assert forall|i: int| 0 <= i < regs.len() implies !p(#[trigger] regs[i]) by {
                if i >= 1 {
                    assert(!p(regs.drop_first()[i - 1]));
                }
            }
        } else {
            assert(first_where(regs, p) == r + 1);
            assert(regs[r + 1] == regs.drop_first()[r]);
            assert(p(regs.drop_first()[r]));
            assert(p(regs[r + 1]));
            assert forall|i: int| 0 <= i < r + 1 implies !p(#[trigger] regs[i]) by {
                if i >= 1 {
                    assert(!p(regs.drop_first()[i - 1]));
                }
            }
        }
    }
}

/// The entry that `guess` yields for an extension.
pub open spec fn spec_guess(ext: Seq<char>) -> ContentTypeView {
    let k = first_where(spec_registry(), |ct: ContentTypeView| ct.ext == ext);
    if k < 0 {
        spec_registry()[0]
    } else {
        spec_registry()[k]
    }
}

/// The entry that `from` yields for an id.
pub open spec fn spec_from(id: int) -> ContentTypeView {
    let k = first_where(spec_registry(), |ct: ContentTypeView| ct.id == id);
    if k < 0 {
        spec_registry()[0]
    } else {
        spec_registry()[k]
    }
}

/// Index of the registry entry that sniffing `data` finds, or -1.
pub open spec fn spec_sniff(data: Seq<u8>) -> int {
    first_where(spec_registry(), |ct: ContentTypeView| magic_claims(ct, data))
}

/// `p` is an initial run of `s`.
pub open spec fn is_byte_prefix(p: Seq<u8>, s: Seq<u8>) -> bool {
    p.len() <= s.len() && s.subrange(0, p.len() as int) == p
}

/// An entry claims `data` when it has a non-empty magic that prefixes it.
pub open spec fn magic_claims(ct: ContentTypeView, data: Seq<u8>) -> bool {
    ct.magic.len() > 0 && is_byte_prefix(ct.magic, data)
}

/// Builds the registry table, in match order.
pub fn registry() -> (r: Vec<ContentType>)
    ensures
        r@.len() == spec_registry().len(),
        forall|i: int| 0 <= i < r@.len() ==> #[trigger] r@[i]@ == spec_registry()[i],
{
    let mut v: Vec<ContentType> = Vec::new();
    v.push(ContentType {
        id: 0,
        file: FileType::Unknown,
        ext: String::from_str(""),
        mimetype: String::from_str("application/octet-stream"),
        magic: Vec::new(),
    });
    v.push(ContentType {
        id: 1,
        file: FileType::Plain,
        ext: String::from_str(".json"),
        mimetype: String::from_str("application/json"),
        magic: Vec::new(),
    });
    let mut m_gif87: Vec<u8> = Vec::new();
    m_gif87.push(0x47);
    m_gif87.push(0x49);
    m_gif87.push(0x46);
    m_gif87.push(0x38);
    m_gif87.push(0x37);
    m_gif87.push(0x61);
    v.push(ContentType {
        id: 2,
        file: FileType::Image,
        ext: String::from_str(".gif"),
        mimetype: String::from_str("image/gif"),
        magic: m_gif87,
    });
    let mut m_gif89: Vec<u8> = Vec::new();
    m_gif89.push(0x47);
    m_gif89.push(0x49);
    m_gif89.push(0x46);
    m_gif89.push(0x38);
    m_gif89.push(0x39);
    m_gif89.push(0x61);
    v.push(ContentType {
        id: 3,
        file: FileType::Image,
        ext: String::from_str(".gif"),
        mimetype: String::from_str("image/gif"),
        magic: m_gif89,
    });
    let mut m_bmp: Vec<u8> = Vec::new();
    m_bmp.push(0x42);
    m_bmp.push(0x4D);
    v.push(ContentType {
        id: 4,
        file: FileType::Image,
        ext: String::from_str(".bmp"),
        mimetype: String::from_str("image/bmp"),
        magic: m_bmp,
    });
    let mut m_jpeg: Vec<u8> = Vec::new();
    m_jpeg.push(0xFF);
    m_jpeg.push(0xD8);
    m_jpeg.push(0xFF);
    v.push(ContentType {
        id: 5,
        file: FileType::Image,
        ext: String::from_str(".jpg"),
        mimetype: String::from_str("image/jpeg"),
        magic: m_jpeg,
    });
    let mut m_png: Vec<u8> = Vec::new();
    m_png.push(0x89);
    m_png.push(0x50);
    m_png.push(0x4E);
    m_png.push(0x47);
    m_png.push(0x0D);
    m_png.push(0x0A);
    m_png.push(0x1A);
    m_png.push(0x0A);
    v.push(ContentType {
        id: 6,
        file: FileType::Image,
        ext: String::from_str(".png"),
        mimetype: String::from_str("image/png"),
        magic: m_png,
    });
    let mut m_heif: Vec<u8> = Vec::new();
    m_heif.push(0x66);
    m_heif.push(0x74);
    m_heif.push(0x79);
    m_heif.push(0x70);
    v.push(ContentType {
        id: 7,
        file: FileType::Image,
        ext: String::from_str(".heif"),
        mimetype: String::from_str("image/heif"),
        magic: m_heif,
    });
    let mut m_tif1: Vec<u8> = Vec::new();
    m_tif1.push(0x49);
    m_tif1.push(0x49);
    m_tif1.push(0x2A);
    m_tif1.push(0x00);
    v.push(ContentType {
        id: 8,
        file: FileType::Image,
        ext: String::from_str(".tif"),
        mimetype: String::from_str("image/tiff"),
        magic: m_tif1,
    });
    let mut m_tif2: Vec<u8> = Vec::new();
    m_tif2.push(0x4D);
    m_tif2.push(0x4D);
    m_tif2.push(0x00);
    m_tif2.push(0x2A);
    v.push(ContentType {
        id: 9,
        file: FileType::Image,
        ext: String::from_str(".tiff"),
        mimetype: String::from_str("image/tiff"),
        magic: m_tif2,
    });
    proof {
        assert(v@[0]@ =~= spec_registry()[0]);
        assert(v@[1]@ =~= spec_registry()[1]);
        assert(v@[2]@ =~= spec_registry()[2]);
        assert(v@[3]@ =~= spec_registry()[3]);
        assert(v@[4]@ =~= spec_registry()[4]);
        assert(v@[5]@ =~= spec_registry()[5]);
        assert(v@[6]@ =~= spec_registry()[6]);
        assert(v@[7]@ =~= spec_registry()[7]);
        assert(v@[8]@ =~= spec_registry()[8]);
        assert(v@[9]@ =~= spec_registry()[9]);
    }
    v
}

/// `p` prefixes `d`, byte for byte.
fn bytes_prefix(p: &Vec<u8>, d: &Vec<u8>) -> (r: bool)
    ensures
        r == is_byte_prefix(p@, d@),
{
    if p.len() > d.len() {
        return false;
    }
    let mut i: usize = 0;
    while i < p.len()
        invariant
            p@.len() <= d@.len(),
            0 <= i <= p@.len(),
            forall|j: int| 0 <= j < i ==> p@[j] == d@[j],
        decreases p@.len() - i,
    {
        if p[i] != d[i] {
            proof {
                let w = i as int;
                assert(d@.subrange(0, p@.len() as int)[w] == d@[w]);
            }
            return false;
        }
        i += 1;
    }
    proof {
        assert(d@.subrange(0, p@.len() as int) =~= p@);
    }
    true
}

/// Looks a format up by id; a miss falls back to the Unknown entry.
#[verifier::loop_isolation(false)]
pub fn from(id: i64) -> (r: ContentType)
    ensures
        r@ == spec_from(id as int),
{
    let ghost p = |ct: ContentTypeView| ct.id == id as int;
    proof {
        lemma_first_where(spec_registry(), p);
    }
    let mut regs = registry();
    let mut i: usize = 0;
    while i < regs.len()
        invariant
            regs@.len() == spec_registry().len(),
            forall|k: int| 0 <= k < regs@.len() ==> #[trigger] regs@[k]@ == spec_registry()[k],
            0 <= i <= regs@.len(),
            forall|j: int| 0 <= j < i ==> !p(#[trigger] spec_registry()[j]),
        decreases regs@.len() - i,
    {
        if regs[i].id == id {
            proof {
                let k = first_where(spec_registry(), p);
                assert(regs@[i as int]@ == spec_registry()[i as int]);
                assert(p(spec_registry()[i as int]));
                if k == -1 {
                    assert(false);
                }
                if k < i as int {
                    assert(p(spec_registry()[k]));
                    assert(false);
                }
                if k > i as int {
                    assert(!p(spec_registry()[i as int]));
                    assert(false);
                }
            }
            return regs.remove(i);
        }
        proof {
            assert(regs@[i as int]@ == spec_registry()[i as int]);
            assert(!p(spec_registry()[i as int]));
        }
        i += 1;
    }
    proof {
        let k = first_where(spec_registry(), p);
        if k >= 0 {
            assert(p(spec_registry()[k]));
            assert(false);
        }
    }
    let r = regs.remove(0);
    r
}

/// Looks a format up by exact extension match; a miss yields Unknown.
#[verifier::loop_isolation(false)]
pub fn guess(ext: &str) -> (r: ContentType)
    ensures
        r@ == spec_guess(ext@),
{
    let ghost p = |ct: ContentTypeView| ct.ext == ext@;
    proof {
        lemma_first_where(spec_registry(), p);
    }
    let mut regs = registry();
    let mut i: usize = 0;
    while i < regs.len()
        invariant
            regs@.len() == spec_registry().len(),
            forall|k: int| 0 <= k < regs@.len() ==> #[trigger] regs@[k]@ == spec_registry()[k],
            0 <= i <= regs@.len(),
            forall|j: int| 0 <= j < i ==> !p(#[trigger] spec_registry()[j]),
        decreases regs@.len() - i,
    {
        if crate::text::str_eq(regs[i].ext.as_str(), ext) {
            proof {
                let k = first_where(spec_registry(), p);
                assert(regs@[i as int]@ == spec_registry()[i as int]);
                assert(p(spec_registry()[i as int]));
                if k == -1 {
                    assert(false);
                }
                if k < i as int {
                    assert(p(spec_registry()[k]));
                    assert(false);
                }
                if k > i as int {
                    assert(!p(spec_registry()[i as int]));
                    assert(false);
                }
            }
            return regs.remove(i);
        }
        proof {
            assert(regs@[i as int]@ == spec_registry()[i as int]);
            assert(!p(spec_registry()[i as int]));
        }
        i += 1;
    }
    proof {
        let k = first_where(spec_registry(), p);
        if k >= 0 {
            assert(p(spec_registry()[k]));
            assert(false);
        }
    }
    let r = regs.remove(0);
    r
}

/// The Unknown sentinel entry.
pub fn unknown() -> (r: ContentType)
    ensures
        r@ == spec_registry()[0],
{
    let mut regs = registry();
    regs.remove(0)
}

/// The JPEG entry, the encoding that cached thumbnails use.
pub fn jpeg() -> (r: ContentType)
    ensures
        r@ == spec_registry()[5],
{
    let mut regs = registry();
    regs.remove(5)
}

/// Sniffs `data` against the registry's magic bytes: content shorter than
/// 8 bytes is rejected, else the first entry whose non-empty magic prefixes
/// the content wins, else the content is rejected as unknown.
#[verifier::loop_isolation(false)]
pub fn file_check(data: &Vec<u8>) -> (r: Res<ContentType>)
    ensures
        match r {
            Ok(ct) => data@.len() >= 8 && spec_sniff(data@) >= 0 && ct@ == spec_registry().index(
                spec_sniff(data@),
            ),
            Err(e) => e is UnknownFileContentType && (data@.len() < 8 || spec_sniff(data@) == -1),
        },
{
    let ghost p = |ct: ContentTypeView| magic_claims(ct, data@);
    proof {
        lemma_first_where(spec_registry(), p);
    }
    if data.len() < 8 {
        return Err(Error::UnknownFileContentType);
    }
    let mut regs = registry();
    let mut i: usize = 0;
    while i < regs.len()
        invariant
            data@.len() >= 8,
            regs@.len() == spec_registry().len(),
            forall|k: int| 0 <= k < regs@.len() ==> #[trigger] regs@[k]@ == spec_registry()[k],
            0 <= i <= regs@.len(),
            forall|j: int| 0 <= j < i ==> !p(#[trigger] spec_registry()[j]),
        decreases regs@.len() - i,
    {
        if regs[i].magic.len() > 0 && bytes_prefix(&regs[i].magic, data) {
            proof {
                let k = first_where(spec_registry(), p);
                assert(regs@[i as int]@ == spec_registry()[i as int]);
                assert(p(spec_registry()[i as int]));
                if k == -1 {
                    assert(false);
                }
                if k < i as int {
                    assert(p(spec_registry()[k]));
                    assert(false);
                }
                if k > i as int {
                    assert(!p(spec_registry()[i as int]));
                    assert(false);
                }
            }
            return Ok(regs.remove(i));
        }
        proof {
            assert(regs@[i as int]@ == spec_registry()[i as int]);
            assert(!p(spec_registry()[i as int]));
        }
        i += 1;
    }
    proof {
        let k = first_where(spec_registry(), p);
        if k >= 0 {
            assert(p(spec_registry()[k]));
            assert(false);
        }
    }
    Err(Error::UnknownFileContentType)
}

} // verus!
