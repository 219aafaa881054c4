//! Request tags: the records that follow a header, each a 16-bit type, 16-bit
//! flags and a 32-bit size, then the fields of its type.
use crate::bytes::{
    le_u16, le_u32, le_u64, lemma_u16_bytes_read, lemma_u32_bytes_read, lemma_u64_bytes_read,
    read_u16, read_u32, read_u64, u16_bytes, u32_bytes, u64_bytes,
};
use vstd::prelude::*;
use vstd::slice::slice_subrange;

verus! {

broadcast use crate::bytes::group_int_bytes_len;

/// The type codes of the request tags this library knows.
#[derive(Debug, Copy, Clone, PartialEq, Eq, Structural)]
pub enum TagType {
    End,
    InfoRequest,
    LoadAddr,
    EntryAddr,
    ConsoleFlags,
    Framebuffer,
    ModuleAlign,
    EfiBootServices,
    EntryAddrEfi32,
    EntryAddrEfi64,
    Relocatable,
    HybridRuntime,
}

/// A decoded request tag. Its flags are advisory and not kept.
#[derive(Debug, Clone, PartialEq, Eq)]
pub enum Tag {
    End,
    InfoRequest { mbi_tag_types: Vec<u32> },
    LoadAddr { header_addr: u32, load_addr: u32, load_end_addr: u32, bss_end_addr: u32 },
    EntryAddr(u32),
    EntryAddrEfi32(u32),
    EntryAddrEfi64(u32),
    ConsoleFlags(u32),
    Framebuffer { width: u32, height: u32, depth: u32 },
    ModuleAlign,
    EfiBootServices,
    Relocatable { min_addr: u32, max_addr: u32, align: u32, preference: u32 },
    HybridRuntime {
        flags: u64,
        gpa_map_req: u64,
        hrt_hihalf_offset: u64,
        nautilus_entry_gva: u64,
        comm_page_gpa: u64,
        int_vec: u64,
    },
}

/// A request tag as a value: `Tag` with its list as a sequence.
pub enum TagView {
    End,
    InfoRequest { mbi_tag_types: Seq<u32> },
    LoadAddr { header_addr: u32, load_addr: u32, load_end_addr: u32, bss_end_addr: u32 },
    EntryAddr(u32),
    EntryAddrEfi32(u32),
    EntryAddrEfi64(u32),
    ConsoleFlags(u32),
    Framebuffer { width: u32, height: u32, depth: u32 },
    ModuleAlign,
    EfiBootServices,
    Relocatable { min_addr: u32, max_addr: u32, align: u32, preference: u32 },
    HybridRuntime {
        flags: u64,
        gpa_map_req: u64,
        hrt_hihalf_offset: u64,
        nautilus_entry_gva: u64,
        comm_page_gpa: u64,
        int_vec: u64,
    },
}

/// A tag of a type this library does not know, with its payload as read.
#[derive(Debug, Clone, PartialEq, Eq)]
pub struct UnknownTag {
    pub tag_type: u16,
    pub flags: u16,
    pub size: u32,
    pub data: Vec<u8>,
}

/// Why a request tag could not be decoded.
#[derive(Debug, Clone, PartialEq, Eq)]
pub enum DecodeError {
    /// The bytes ended inside the tag.
    UnexpectedEof,
    /// The declared size is shorter than the fields of the type, or longer
    /// by more than seven bytes of padding.
    SizeMismatch { tag_type: u16, expected: u32, declared: u32 },
    /// The type code is not one of `TagType`.
    Unknown(UnknownTag),
}

/// `DecodeError` as a value, with the payload of an unknown tag as a sequence.
pub enum DecodeErrorView {
    UnexpectedEof,
    SizeMismatch { tag_type: u16, expected: u32, declared: u32 },
    Unknown { tag_type: u16, flags: u16, size: u32, data: Seq<u8> },
}

impl TagType {
    pub open spec fn spec_code(self) -> u16 {
        match self {
            TagType::End => 0,
            TagType::InfoRequest => 1,
            TagType::LoadAddr => 2,
            TagType::EntryAddr => 3,
            TagType::ConsoleFlags => 4,
            TagType::Framebuffer => 5,
            TagType::ModuleAlign => 6,
            TagType::EfiBootServices => 7,
            TagType::EntryAddrEfi32 => 8,
            TagType::EntryAddrEfi64 => 9,
            TagType::Relocatable => 10,
            TagType::HybridRuntime => 0xF00D,
        }
    }

    /// The type whose code is `code`, if there is one.
    pub open spec fn spec_from_code(code: u16) -> Option<TagType> {
        if code == 0 {
            Some(TagType::End)
        } else if code == 1 {
            Some(TagType::InfoRequest)
        } else if code == 2 {
            Some(TagType::LoadAddr)
        } else if code == 3 {
            Some(TagType::EntryAddr)
        } else if code == 4 {
            Some(TagType::ConsoleFlags)
        } else if code == 5 {
            Some(TagType::Framebuffer)
        } else if code == 6 {
            Some(TagType::ModuleAlign)
        } else if code == 7 {
            Some(TagType::EfiBootServices)
        } else if code == 8 {
            Some(TagType::EntryAddrEfi32)
        } else if code == 9 {
            Some(TagType::EntryAddrEfi64)
        } else if code == 10 {
            Some(TagType::Relocatable)
        } else if code == 0xF00D {
            Some(TagType::HybridRuntime)
        } else {
            None
        }
    }

    /// The size, frame included, of a tag of this type with no padding; for
    /// a list of requests, of the longest list that fits in `declared` bytes.
    pub open spec fn spec_fields_size(self, declared: u32) -> int {
        match self {
            TagType::End | TagType::ModuleAlign | TagType::EfiBootServices => 8,
            TagType::EntryAddr | TagType::EntryAddrEfi32 | TagType::EntryAddrEfi64
            | TagType::ConsoleFlags => 12,
            TagType::Framebuffer => 20,
            TagType::LoadAddr | TagType::Relocatable => 24,
            TagType::HybridRuntime => 56,
            TagType::InfoRequest => 8 + 4 * ((declared - 8) / 4),
        }
    }

    pub fn code(self) -> (r: u16)
        ensures
            r == self.spec_code(),
    {
        match self {
            TagType::End => 0,
            TagType::InfoRequest => 1,
            TagType::LoadAddr => 2,
            TagType::EntryAddr => 3,
            TagType::ConsoleFlags => 4,
            TagType::Framebuffer => 5,
            TagType::ModuleAlign => 6,
            TagType::EfiBootServices => 7,
            TagType::EntryAddrEfi32 => 8,
            TagType::EntryAddrEfi64 => 9,
            TagType::Relocatable => 10,
            TagType::HybridRuntime => 0xF00D,
        }
    }

    pub fn from_code(code: u16) -> (r: Option<TagType>)
        ensures
            r == Self::spec_from_code(code),
    {
        match code {
            0 => Some(TagType::End),
            1 => Some(TagType::InfoRequest),
            2 => Some(TagType::LoadAddr),
            3 => Some(TagType::EntryAddr),
            4 => Some(TagType::ConsoleFlags),
            5 => Some(TagType::Framebuffer),
            6 => Some(TagType::ModuleAlign),
            7 => Some(TagType::EfiBootServices),
            8 => Some(TagType::EntryAddrEfi32),
            9 => Some(TagType::EntryAddrEfi64),
            10 => Some(TagType::Relocatable),
            0xF00D => Some(TagType::HybridRuntime),
            _ => None,
        }
    }
}

impl View for Tag {
    type V = TagView;

    open spec fn view(&self) -> TagView {
        match self {
            Tag::End => TagView::End,
            Tag::InfoRequest { mbi_tag_types } => TagView::InfoRequest {
                mbi_tag_types: mbi_tag_types@,
            },
            Tag::LoadAddr { header_addr, load_addr, load_end_addr, bss_end_addr } => TagView::LoadAddr {
                header_addr: *header_addr,
                load_addr: *load_addr,
                load_end_addr: *load_end_addr,
                bss_end_addr: *bss_end_addr,
            },
            Tag::EntryAddr(a) => TagView::EntryAddr(*a),
            Tag::EntryAddrEfi32(a) => TagView::EntryAddrEfi32(*a),
            Tag::EntryAddrEfi64(a) => TagView::EntryAddrEfi64(*a),
            Tag::ConsoleFlags(f) => TagView::ConsoleFlags(*f),
            Tag::Framebuffer { width, height, depth } => TagView::Framebuffer {
                width: *width,
                height: *height,
                depth: *depth,
            },
            Tag::ModuleAlign => TagView::ModuleAlign,
            Tag::EfiBootServices => TagView::EfiBootServices,
            Tag::Relocatable { min_addr, max_addr, align, preference } => TagView::Relocatable {
                min_addr: *min_addr,
                max_addr: *max_addr,
                align: *align,
                preference: *preference,
            },
            Tag::HybridRuntime {
                flags,
                gpa_map_req,
                hrt_hihalf_offset,
                nautilus_entry_gva,
                comm_page_gpa,
                int_vec,
            } => TagView::HybridRuntime {
                flags: *flags,
                gpa_map_req: *gpa_map_req,
                hrt_hihalf_offset: *hrt_hihalf_offset,
                nautilus_entry_gva: *nautilus_entry_gva,
                comm_page_gpa: *comm_page_gpa,
                int_vec: *int_vec,
            },
        }
    }
}

impl View for DecodeError {
    type V = DecodeErrorView;

    open spec fn view(&self) -> DecodeErrorView {
        match self {
            DecodeError::UnexpectedEof => DecodeErrorView::UnexpectedEof,
            DecodeError::SizeMismatch { tag_type, expected, declared } => DecodeErrorView::SizeMismatch {
                tag_type: *tag_type,
                expected: *expected,
                declared: *declared,
            },
            DecodeError::Unknown(u) => DecodeErrorView::Unknown {
                tag_type: u.tag_type,
                flags: u.flags,
                size: u.size,
                data: u.data@,
            },
        }
    }
}

/// A decode result as a value.
pub open spec fn result_view(r: Result<Tag, DecodeError>) -> Result<TagView, DecodeErrorView> {
    match r {
        Ok(t) => Ok(t@),
        Err(e) => Err(e@),
    }
}

impl TagView {
    pub open spec fn spec_tag_type(self) -> TagType {
        match self {
            TagView::End => TagType::End,
            TagView::InfoRequest { .. } => TagType::InfoRequest,
            TagView::LoadAddr { .. } => TagType::LoadAddr,
            TagView::EntryAddr(..) => TagType::EntryAddr,
            TagView::EntryAddrEfi32(..) => TagType::EntryAddrEfi32,
            TagView::EntryAddrEfi64(..) => TagType::EntryAddrEfi64,
            TagView::ConsoleFlags(..) => TagType::ConsoleFlags,
            TagView::Framebuffer { .. } => TagType::Framebuffer,
            TagView::ModuleAlign => TagType::ModuleAlign,
            TagView::EfiBootServices => TagType::EfiBootServices,
            TagView::Relocatable { .. } => TagType::Relocatable,
            TagView::HybridRuntime { .. } => TagType::HybridRuntime,
        }
    }

    /// The size of the tag's frame and fields, without padding.
    pub open spec fn spec_size(self) -> nat {
        match self {
            TagView::InfoRequest { mbi_tag_types } => 8 + 4 * mbi_tag_types.len(),
            _ => self.spec_tag_type().spec_fields_size(8) as nat,
        }
    }
}

impl Tag {
    pub fn tag_type(&self) -> (r: TagType)
        ensures
            r == self@.spec_tag_type(),
    {
        match self {
            Tag::End => TagType::End,
            Tag::InfoRequest { .. } => TagType::InfoRequest,
            Tag::LoadAddr { .. } => TagType::LoadAddr,
            Tag::EntryAddr(..) => TagType::EntryAddr,
            Tag::EntryAddrEfi32(..) => TagType::EntryAddrEfi32,
            Tag::EntryAddrEfi64(..) => TagType::EntryAddrEfi64,
            Tag::ConsoleFlags(..) => TagType::ConsoleFlags,
            Tag::Framebuffer { .. } => TagType::Framebuffer,
            Tag::ModuleAlign => TagType::ModuleAlign,
            Tag::EfiBootServices => TagType::EfiBootServices,
            Tag::Relocatable { .. } => TagType::Relocatable,
            Tag::HybridRuntime { .. } => TagType::HybridRuntime,
        }
    }

    /// The size of the tag's frame and fields, without padding.
    pub fn size(&self) -> (r: u32)
        requires
            self@.spec_size() <= u32::MAX,
        ensures
            r == self@.spec_size(),
    {
        match self {
            Tag::End | Tag::ModuleAlign | Tag::EfiBootServices => 8,
            Tag::EntryAddr(..) | Tag::EntryAddrEfi32(..) | Tag::EntryAddrEfi64(..)
            | Tag::ConsoleFlags(..) => 12,
            Tag::Framebuffer { .. } => 20,
            Tag::LoadAddr { .. } | Tag::Relocatable { .. } => 24,
            Tag::HybridRuntime { .. } => 56,
            Tag::InfoRequest { mbi_tag_types } => 4 * mbi_tag_types.len() as u32 + 8,
        }
    }
}

/// The 32-bit field at offset `i` of `p`.
pub open spec fn u32_at(p: Seq<u8>, i: int) -> u32 {
    le_u32(p.subrange(i, i + 4)) as u32
}

/// The 64-bit field at offset `i` of `p`.
pub open spec fn u64_at(p: Seq<u8>, i: int) -> u64 {
    le_u64(p.subrange(i, i + 8)) as u64
}

/// The smallest multiple of eight that is not below `n`.
pub open spec fn align8(n: int) -> int {
    n + (8 - n % 8) % 8
}

/// The tag of type `ty` whose fields are read from the payload `p`, the
/// bytes that follow the frame, in the order they are declared.
pub open spec fn fields_of(ty: TagType, p: Seq<u8>) -> TagView {
    match ty {
        TagType::End => TagView::End,
        TagType::InfoRequest => TagView::InfoRequest {
            mbi_tag_types: Seq::new(p.len() / 4, |i: int| u32_at(p, 4 * i)),
        },
        TagType::LoadAddr => TagView::LoadAddr {
            header_addr: u32_at(p, 0),
            load_addr: u32_at(p, 4),
            load_end_addr: u32_at(p, 8),
            bss_end_addr: u32_at(p, 12),
        },
        TagType::EntryAddr => TagView::EntryAddr(u32_at(p, 0)),
        TagType::EntryAddrEfi32 => TagView::EntryAddrEfi32(u32_at(p, 0)),
        TagType::EntryAddrEfi64 => TagView::EntryAddrEfi64(u32_at(p, 0)),
        TagType::ConsoleFlags => TagView::ConsoleFlags(u32_at(p, 0)),
        TagType::Framebuffer => TagView::Framebuffer {
            width: u32_at(p, 0),
            height: u32_at(p, 4),
            depth: u32_at(p, 8),
        },
        TagType::ModuleAlign => TagView::ModuleAlign,
        TagType::EfiBootServices => TagView::EfiBootServices,
        TagType::Relocatable => TagView::Relocatable {
            min_addr: u32_at(p, 0),
            max_addr: u32_at(p, 4),
            align: u32_at(p, 8),
            preference: u32_at(p, 12),
        },
        TagType::HybridRuntime => TagView::HybridRuntime {
            flags: u64_at(p, 0),
            gpa_map_req: u64_at(p, 8),
            hrt_hihalf_offset: u64_at(p, 16),
            nautilus_entry_gva: u64_at(p, 24),
            comm_page_gpa: u64_at(p, 32),
            int_vec: u64_at(p, 40),
        },
    }
}

/// Decoding a tag of the known type `ty` whose frame starts at `pos` and
/// declares `size` bytes (at least eight): the declared size must cover the
/// fields and exceed them by at most seven bytes, and the bytes must be there.
pub open spec fn decode_known(ty: TagType, code: u16, size: u32, data: Seq<u8>, pos: int) -> Result<
    TagView,
    DecodeErrorView,
> {
    let need = ty.spec_fields_size(size);
    if size < need || size - need > 7 {
        Err(DecodeErrorView::SizeMismatch { tag_type: code, expected: need as u32, declared: size })
    } else if pos + size > data.len() {
        Err(DecodeErrorView::UnexpectedEof)
    } else {
        Ok(fields_of(ty, data.subrange(pos + 8, pos + size)))
    }
}

/// Decoding the tag whose frame starts at `pos` of `data`: the result, and
/// where the next tag starts. A decoded tag is followed by the next multiple
/// of eight after its declared size (or the end of the bytes, if that comes
/// first); an unknown tag by exactly its declared size; an error that reads
/// no payload leaves the position where it was.
pub open spec fn decode_at(data: Seq<u8>, pos: int) -> (Result<TagView, DecodeErrorView>, int) {
    if pos < 0 || pos + 8 > data.len() {
        (Err(DecodeErrorView::UnexpectedEof), pos)
    } else {
        let code = le_u16(data.subrange(pos, pos + 2)) as u16;
        let flags = le_u16(data.subrange(pos + 2, pos + 4)) as u16;
        let size = u32_at(data, pos + 4);
        if size < 8 {
            (Err(DecodeErrorView::SizeMismatch { tag_type: code, expected: 8, declared: size }), pos)
        } else {
            match TagType::spec_from_code(code) {
                None => if pos + size > data.len() {
                    (Err(DecodeErrorView::UnexpectedEof), pos)
                } else {
                    (
                        Err(
                            DecodeErrorView::Unknown {
                                tag_type: code,
                                flags,
                                size,
                                data: data.subrange(pos + 8, pos + size),
                            },
                        ),
                        pos + size,
                    )
                },
                Some(ty) => {
                    let r = decode_known(ty, code, size, data, pos);
                    if r is Ok {
                        let next = align8(pos + size);
                        (r, if next <= data.len() { next } else { data.len() as int })
                    } else {
                        (r, pos)
                    }
                },
            }
        }
    }
}

/// The smallest multiple of eight that is not below `n`, or `limit` where
/// that passes `limit`.
fn align_within(n: usize, limit: usize) -> (r: usize)
    requires
        n <= limit,
    ensures
        r == (if align8(n as int) <= limit {
            align8(n as int)
        } else {
            limit as int
        }),
{
    let pad = (8 - n % 8) % 8;
    if pad > limit - n {
        limit
    } else {
        n + pad
    }
}

/// Reads the 32-bit field at offset `i` of `p`.
fn field_u32(p: &[u8], i: usize) -> (r: u32)
    requires
        i + 4 <= p.len(),
    ensures
        r == u32_at(p@, i as int),
{
    read_u32(slice_subrange(p, i, i + 4))
}

/// Reads the 64-bit field at offset `i` of `p`.
fn field_u64(p: &[u8], i: usize) -> (r: u64)
    requires
        i + 8 <= p.len(),
    ensures
        r == u64_at(p@, i as int),
{
    let s = slice_subrange(p, i, i + 8);
    let r = read_u64(s);
    assert(s@.subrange(4, 8) =~= p@.subrange(i + 4, i + 8));
    r
}

impl TagType {
    /// Decodes the fields of a tag of this type from `data`, where its frame
    /// starts at `pos` and declares `size` bytes.
    pub(crate) fn read_fields(&self, code: u16, size: u32, data: &[u8], pos: usize) -> (r: Result<
        Tag,
        DecodeError,
    >)
        requires
            size >= 8,
            pos + 8 <= data@.len(),
        ensures
            result_view(r) == decode_known(*self, code, size, data@, pos as int),
    {
        let need: u32 = match self {
            TagType::End | TagType::ModuleAlign | TagType::EfiBootServices => 8,
            TagType::EntryAddr | TagType::EntryAddrEfi32 | TagType::EntryAddrEfi64
            | TagType::ConsoleFlags => 12,
            TagType::Framebuffer => 20,
            TagType::LoadAddr | TagType::Relocatable => 24,
            TagType::HybridRuntime => 56,
            TagType::InfoRequest => 8 + 4 * ((size - 8) / 4),
        };
        if size < need || size - need > 7 {
            return Err(DecodeError::SizeMismatch { tag_type: code, expected: need, declared: size });
        }
        if size as usize > data.len() - pos {
            return Err(DecodeError::UnexpectedEof);
        }
        let p = slice_subrange(data, pos + 8, pos + size as usize);
        let ghost pv = data@.subrange(pos + 8, pos + size);
        assert(p@ == pv);
        let tag = match self {
            TagType::End => Tag::End,
            TagType::InfoRequest => {
                let count = (size as usize - 8) / 4;
                let mut mbi_tag_types: Vec<u32> = Vec::new();
                let mut i: usize = 0;
                while i < count
                    invariant
                        count == pv.len() / 4,
                        p@ == pv,
                        p@.len() == p.len(),
                        i <= count,
                        mbi_tag_types@ =~= Seq::new(i as nat, |j: int| u32_at(pv, 4 * j)),
                    decreases count - i,
                {
                    assert(4 * i + 4 <= p@.len()) by (nonlinear_arith)
                        requires
                            i < count,
                            count == p@.len() / 4,
                    ;
                    mbi_tag_types.push(field_u32(p, 4 * i));
                    i = i + 1;
                }
                Tag::InfoRequest { mbi_tag_types }
            },
            TagType::LoadAddr => Tag::LoadAddr {
                header_addr: field_u32(p, 0),
                load_addr: field_u32(p, 4),
                load_end_addr: field_u32(p, 8),
                bss_end_addr: field_u32(p, 12),
            },
            TagType::EntryAddr => Tag::EntryAddr(field_u32(p, 0)),
            TagType::EntryAddrEfi32 => Tag::EntryAddrEfi32(field_u32(p, 0)),
            TagType::EntryAddrEfi64 => Tag::EntryAddrEfi64(field_u32(p, 0)),
            TagType::ConsoleFlags => Tag::ConsoleFlags(field_u32(p, 0)),
            TagType::Framebuffer => Tag::Framebuffer {
                width: field_u32(p, 0),
                height: field_u32(p, 4),
                depth: field_u32(p, 8),
            },
            TagType::ModuleAlign => Tag::ModuleAlign,
            TagType::EfiBootServices => Tag::EfiBootServices,
            TagType::Relocatable => Tag::Relocatable {
                min_addr: field_u32(p, 0),
                max_addr: field_u32(p, 4),
                align: field_u32(p, 8),
                preference: field_u32(p, 12),
            },
            TagType::HybridRuntime => Tag::HybridRuntime {
                flags: field_u64(p, 0),
                gpa_map_req: field_u64(p, 8),
                hrt_hihalf_offset: field_u64(p, 16),
                nautilus_entry_gva: field_u64(p, 24),
                comm_page_gpa: field_u64(p, 32),
                int_vec: field_u64(p, 40),
            },
        };
        Ok(tag)
    }
}

impl Tag {
    /// Decodes the tag whose frame starts at `pos` of `data`, and gives where
    /// the next tag starts.
    pub fn from_reader(data: &[u8], pos: usize) -> (r: (Result<Tag, DecodeError>, usize))
        ensures
            (result_view(r.0), r.1 as int) == decode_at(data@, pos as int),
    {
        let len = data.len();
        if pos > len || len - pos < 8 {
            return (Err(DecodeError::UnexpectedEof), pos);
        }
        let code = read_u16(slice_subrange(data, pos, pos + 2));
        let flags = read_u16(slice_subrange(data, pos + 2, pos + 4));
        let size = field_u32(data, pos + 4);
        if size < 8 {
            return (Err(DecodeError::SizeMismatch { tag_type: code, expected: 8, declared: size }), pos);
        }
        match TagType::from_code(code) {
            None => {
                if size as usize > len - pos {
                    return (Err(DecodeError::UnexpectedEof), pos);
                }
                let end = pos + size as usize;
                let payload = slice_subrange(data, pos + 8, end);
                let mut bytes: Vec<u8> = Vec::new();
                let mut i: usize = 0;
                while i < payload.len()
                    invariant
                        i <= payload@.len(),
                        bytes@ =~= payload@.subrange(0, i as int),
                    decreases payload@.len() - i,
                {
                    bytes.push(payload[i]);
                    i = i + 1;
                }
                assert(payload@.subrange(0, payload@.len() as int) =~= payload@);
                let unknown = UnknownTag { tag_type: code, flags, size, data: bytes };
                (Err(DecodeError::Unknown(unknown)), end)
            },
            Some(ty) => {
                let r = ty.read_fields(code, size, data, pos);
                match r {
                    Ok(_) => (r, align_within(pos + size as usize, len)),
                    Err(_) => (r, pos),
                }
            },
        }
    }
}

/// A list of 32-bit values, each stored little-endian, one after the other.
pub open spec fn u32s_bytes(s: Seq<u32>) -> Seq<u8>
    decreases s.len(),
{
    if s.len() == 0 {
        Seq::empty()
    } else {
        u32s_bytes(s.drop_last()) + u32_bytes(s.last())
    }
}

impl TagView {
    /// The bytes of the tag's fields, in the order they are declared.
    pub open spec fn spec_payload(self) -> Seq<u8> {
        match self {
            TagView::InfoRequest { mbi_tag_types } => u32s_bytes(mbi_tag_types),
            TagView::LoadAddr { header_addr, load_addr, load_end_addr, bss_end_addr } => u32_bytes(
                header_addr,
            ) + u32_bytes(load_addr) + u32_bytes(load_end_addr) + u32_bytes(bss_end_addr),
            TagView::EntryAddr(a) => u32_bytes(a),
            TagView::EntryAddrEfi32(a) => u32_bytes(a),
            TagView::EntryAddrEfi64(a) => u32_bytes(a),
            TagView::ConsoleFlags(f) => u32_bytes(f),
            TagView::Framebuffer { width, height, depth } => u32_bytes(width) + u32_bytes(height)
                + u32_bytes(depth),
            TagView::Relocatable { min_addr, max_addr, align, preference } => u32_bytes(min_addr)
                + u32_bytes(max_addr) + u32_bytes(align) + u32_bytes(preference),
            TagView::HybridRuntime {
                flags,
                gpa_map_req,
                hrt_hihalf_offset,
                nautilus_entry_gva,
                comm_page_gpa,
                int_vec,
            } => u64_bytes(flags) + u64_bytes(gpa_map_req) + u64_bytes(hrt_hihalf_offset) + u64_bytes(
                nautilus_entry_gva,
            ) + u64_bytes(comm_page_gpa) + u64_bytes(int_vec),
            _ => Seq::empty(),
        }
    }

    /// The tag as a kernel image stores it, with `flags` in its frame and no
    /// padding after it.
    pub open spec fn spec_encode(self, flags: u16) -> Seq<u8> {
        u16_bytes(self.spec_tag_type().spec_code()) + u16_bytes(flags) + u32_bytes(
            self.spec_size() as u32,
        ) + self.spec_payload()
    }
}

proof fn lemma_u32s_bytes(s: Seq<u32>)
    ensures
        u32s_bytes(s).len() == 4 * s.len(),
        forall|i: int| 0 <= i < s.len() ==> #[trigger] u32_at(u32s_bytes(s), 4 * i) == s[i],
    decreases s.len(),
{
    if s.len() > 0 {
        let a = u32s_bytes(s.drop_last());
        let b = u32_bytes(s.last());
        lemma_u32s_bytes(s.drop_last());
        lemma_u32_bytes_read(s.last());
        assert forall|i: int| 0 <= i < s.len() implies #[trigger] u32_at(u32s_bytes(s), 4 * i)
            == s[i] by {
            if i < s.len() - 1 {
                assert(u32s_bytes(s).subrange(4 * i, 4 * i + 4) =~= a.subrange(4 * i, 4 * i + 4));
                assert(u32_at(a, 4 * i) == s.drop_last()[i]);
            } else {
                assert(u32s_bytes(s).subrange(4 * i, 4 * i + 4) =~= b);
            }
        }
    }
}

proof fn lemma_four_u32s(a: u32, b: u32, c: u32, d: u32)
    ensures
        ({
            let p = u32_bytes(a) + u32_bytes(b) + u32_bytes(c) + u32_bytes(d);
            &&& p.len() == 16
            &&& u32_at(p, 0) == a
            &&& u32_at(p, 4) == b
            &&& u32_at(p, 8) == c
            &&& u32_at(p, 12) == d
        }),
{
    let p = u32_bytes(a) + u32_bytes(b) + u32_bytes(c) + u32_bytes(d);
    lemma_u32_bytes_read(a);
    lemma_u32_bytes_read(b);
    lemma_u32_bytes_read(c);
    lemma_u32_bytes_read(d);
    assert(p.subrange(0, 4) =~= u32_bytes(a));
    assert(p.subrange(4, 8) =~= u32_bytes(b));
    assert(p.subrange(8, 12) =~= u32_bytes(c));
    assert(p.subrange(12, 16) =~= u32_bytes(d));
}

proof fn lemma_three_u32s(a: u32, b: u32, c: u32)
    ensures
        ({
            let p = u32_bytes(a) + u32_bytes(b) + u32_bytes(c);
            &&& p.len() == 12
            &&& u32_at(p, 0) == a
            &&& u32_at(p, 4) == b
            &&& u32_at(p, 8) == c
        }),
{
    let p = u32_bytes(a) + u32_bytes(b) + u32_bytes(c);
    lemma_u32_bytes_read(a);
    lemma_u32_bytes_read(b);
    lemma_u32_bytes_read(c);
    assert(p.subrange(0, 4) =~= u32_bytes(a));
    assert(p.subrange(4, 8) =~= u32_bytes(b));
    assert(p.subrange(8, 12) =~= u32_bytes(c));
}

proof fn lemma_one_u32(a: u32)
    ensures
        u32_bytes(a).len() == 4,
        u32_at(u32_bytes(a), 0) == a,
{
    lemma_u32_bytes_read(a);
    assert(u32_bytes(a).subrange(0, 4) =~= u32_bytes(a));
}

proof fn lemma_six_u64s(a: u64, b: u64, c: u64, d: u64, e: u64, f: u64)
    ensures
        ({
            let p = u64_bytes(a) + u64_bytes(b) + u64_bytes(c) + u64_bytes(d) + u64_bytes(e)
                + u64_bytes(f);
            &&& p.len() == 48
            &&& u64_at(p, 0) == a
            &&& u64_at(p, 8) == b
            &&& u64_at(p, 16) == c
            &&& u64_at(p, 24) == d
            &&& u64_at(p, 32) == e
            &&& u64_at(p, 40) == f
        }),
{
    let p = u64_bytes(a) + u64_bytes(b) + u64_bytes(c) + u64_bytes(d) + u64_bytes(e) + u64_bytes(
        f,
    );
    lemma_u64_bytes_read(a);
    lemma_u64_bytes_read(b);
    lemma_u64_bytes_read(c);
    lemma_u64_bytes_read(d);
    lemma_u64_bytes_read(e);
    lemma_u64_bytes_read(f);
    assert(p.subrange(0, 8) =~= u64_bytes(a));
    assert(p.subrange(8, 16) =~= u64_bytes(b));
    assert(p.subrange(16, 24) =~= u64_bytes(c));
    assert(p.subrange(24, 32) =~= u64_bytes(d));
    assert(p.subrange(32, 40) =~= u64_bytes(e));
    assert(p.subrange(40, 48) =~= u64_bytes(f));
}

/// The payload of a tag reads back as that tag.
proof fn lemma_fields_of_payload(t: TagView)
    ensures
        t.spec_payload().len() + 8 == t.spec_size(),
        fields_of(t.spec_tag_type(), t.spec_payload()) == t,
{
    let p = t.spec_payload();
    match t {
        TagView::InfoRequest { mbi_tag_types } => {
            lemma_u32s_bytes(mbi_tag_types);
            let f = fields_of(TagType::InfoRequest, p);
            assert(f->mbi_tag_types =~= mbi_tag_types) by {
                assert forall|i: int| 0 <= i < mbi_tag_types.len() implies f->mbi_tag_types[i]
                    == mbi_tag_types[i] by {
                    assert(u32_at(u32s_bytes(mbi_tag_types), 4 * i) == mbi_tag_types[i]);
                }
            }
        },
        TagView::LoadAddr { header_addr, load_addr, load_end_addr, bss_end_addr } => {
            lemma_four_u32s(header_addr, load_addr, load_end_addr, bss_end_addr);
        },
        TagView::EntryAddr(a) => lemma_one_u32(a),
        TagView::EntryAddrEfi32(a) => lemma_one_u32(a),
        TagView::EntryAddrEfi64(a) => lemma_one_u32(a),
        TagView::ConsoleFlags(f) => lemma_one_u32(f),
        TagView::Framebuffer { width, height, depth } => {
            lemma_three_u32s(width, height, depth);
        },
        TagView::Relocatable { min_addr, max_addr, align, preference } => {
            lemma_four_u32s(min_addr, max_addr, align, preference);
        },
        TagView::HybridRuntime {
            flags,
            gpa_map_req,
            hrt_hihalf_offset,
            nautilus_entry_gva,
            comm_page_gpa,
            int_vec,
        } => {
            lemma_six_u64s(
                flags,
                gpa_map_req,
                hrt_hihalf_offset,
                nautilus_entry_gva,
                comm_page_gpa,
                int_vec,
            );
        },
        _ => {},
    }
}

/// Decoding undoes storing: a tag of any known type, stored with any flags
/// and followed by any bytes, decodes to itself, and the next tag is looked
/// for at the next multiple of eight after it (or at the end of the bytes).
pub proof fn lemma_decode_encoded(t: TagView, flags: u16, rest: Seq<u8>)
    requires
        t.spec_size() <= u32::MAX,
    ensures
        ({
            let bytes = t.spec_encode(flags) + rest;
            let next = align8(t.spec_size() as int);
            decode_at(bytes, 0) == (
                Ok::<TagView, DecodeErrorView>(t),
                if next <= bytes.len() { next } else { bytes.len() as int },
            )
        }),
{
    let ty = t.spec_tag_type();
    let code = ty.spec_code();
    let size = t.spec_size() as u32;
    let enc = t.spec_encode(flags);
    let bytes = enc + rest;
    lemma_fields_of_payload(t);
    lemma_u16_bytes_read(code);
    lemma_u16_bytes_read(flags);
    lemma_u32_bytes_read(size);
    assert(bytes.subrange(0, 2) =~= u16_bytes(code));
    assert(bytes.subrange(2, 4) =~= u16_bytes(flags));
    assert(bytes.subrange(4, 8) =~= u32_bytes(size));
    assert(bytes.subrange(8, size as int) =~= t.spec_payload());
    assert(TagType::spec_from_code(code) == Some(ty));
    assert(ty.spec_fields_size(size) == size);
}

/// The end tag is a bare 8-byte frame: stored with any flags and followed by
/// any bytes, it decodes to the end tag, and the next position is eight.
pub proof fn lemma_end_request_tag(flags: u16, rest: Seq<u8>)
    ensures
        TagView::End.spec_size() == 8,
        TagView::End.spec_encode(flags).len() == 8,
        decode_at(TagView::End.spec_encode(flags) + rest, 0) == (
            Ok::<TagView, DecodeErrorView>(TagView::End),
            8int,
        ),
{
    lemma_decode_encoded(TagView::End, flags, rest);
}

} // verus!
