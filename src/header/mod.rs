//! The request side: the header that a kernel image embeds, how to find it,
//! and the stream of request tags that follows it.
use crate::bytes::{le_u32, read_u32, u32_bytes, lemma_u32_bytes_read};
use vstd::prelude::*;
use vstd::slice::slice_subrange;
use self::tag::{decode_at, result_view, DecodeError, DecodeErrorView, TagView};
pub use self::tag::{Tag, TagType};

pub mod tag;

verus! {

broadcast use crate::bytes::group_int_bytes_len;

/// The value that opens every header.
pub const HEADER_MAGIC: u32 = 0xE85250D6;

/// A header is looked for only at offsets below this bound.
pub const SEARCH_END: u64 = 32768;

/// The stride of the search, and the alignment of request tags.
pub const ALIGNMENT: usize = 8;

/// The four 32-bit fields that open a header, each stored little-endian.
#[derive(Debug, Copy, Clone, PartialEq, Eq, Structural)]
pub struct Header {
    pub magic: u32,
    pub architecture: u32,
    pub header_length: u32,
    pub checksum: u32,
}

/// Why no header could be read.
#[derive(Debug, Copy, Clone, PartialEq, Eq, Structural)]
pub enum HeaderError {
    /// The image ended before the bytes to be read.
    UnexpectedEof,
    /// The bytes at the offset do not form a valid header.
    InvalidHeader,
}

/// The four fields summed with wraparound give zero.
pub open spec fn checksum_ok(magic: u32, architecture: u32, header_length: u32, checksum: u32) -> bool {
    (checksum + magic + architecture + header_length) % 0x1_0000_0000 == 0
}

/// The checksum that completes the other three fields.
pub open spec fn checksum_for(magic: u32, architecture: u32, header_length: u32) -> u32 {
    ((0x1_0000_0000 - (magic + architecture + header_length) % 0x1_0000_0000) % 0x1_0000_0000) as u32
}

impl Header {
    /// The magic is the protocol's and the checksum law holds.
    pub open spec fn spec_is_valid(&self) -> bool {
        &&& self.magic == HEADER_MAGIC
        &&& checksum_ok(self.magic, self.architecture, self.header_length, self.checksum)
    }

    /// The sixteen bytes of the header as it is stored.
    pub open spec fn spec_bytes(&self) -> Seq<u8> {
        u32_bytes(self.magic) + u32_bytes(self.architecture) + u32_bytes(self.header_length)
            + u32_bytes(self.checksum)
    }

    pub fn is_valid(&self) -> (r: bool)
        ensures
            r == self.spec_is_valid(),
    {
        if self.magic != HEADER_MAGIC {
            return false;
        }
        self.checksum.wrapping_add(self.magic).wrapping_add(self.architecture).wrapping_add(
            self.header_length,
        ) == 0
    }
}

/// The header whose fields are the first sixteen bytes of `s`.
pub open spec fn header_from(s: Seq<u8>) -> Header {
    Header {
        magic: le_u32(s) as u32,
        architecture: le_u32(s.subrange(4, 8)) as u32,
        header_length: le_u32(s.subrange(8, 12)) as u32,
        checksum: le_u32(s.subrange(12, 16)) as u32,
    }
}

/// A valid header starts at `offset` in `image`.
pub open spec fn valid_header_at(image: Seq<u8>, offset: int) -> bool {
    &&& 0 <= offset
    &&& offset + 16 <= image.len()
    &&& header_from(image.subrange(offset, offset + 16)).spec_is_valid()
}

/// The search from `offset` on: at each offset, a magic word is read; where
/// it matches, the rest of the header is read and checked. Running out of
/// bytes for a read is an error; passing the search bound is not.
pub open spec fn scan_from(image: Seq<u8>, offset: int) -> Result<Option<(u64, Header)>, HeaderError>
    decreases SEARCH_END + 8 - offset,
{
    if offset < 0 || offset >= SEARCH_END {
        Ok(None)
    } else if offset + 4 > image.len() {
        Err(HeaderError::UnexpectedEof)
    } else if le_u32(image.subrange(offset, offset + 4)) != HEADER_MAGIC {
        scan_from(image, offset + 8)
    } else if offset + 16 > image.len() {
        Err(HeaderError::UnexpectedEof)
    } else if header_from(image.subrange(offset, offset + 16)).spec_is_valid() {
        Ok(Some((offset as u64, header_from(image.subrange(offset, offset + 16)))))
    } else {
        scan_from(image, offset + 8)
    }
}

/// Reads the header that starts at `offset`.
fn read_header(image: &[u8], offset: usize) -> (h: Header)
    requires
        offset + 16 <= image.len(),
    ensures
        h == header_from(image@.subrange(offset as int, offset + 16)),
{
    let magic = read_u32(slice_subrange(image, offset, offset + 4));
    let architecture = read_u32(slice_subrange(image, offset + 4, offset + 8));
    let header_length = read_u32(slice_subrange(image, offset + 8, offset + 12));
    let checksum = read_u32(slice_subrange(image, offset + 12, offset + 16));
    Header { magic, architecture, header_length, checksum }
}

/// Finds the first offset `0, 8, 16, ...` below `SEARCH_END` where a valid
/// header starts. No header is `Ok(None)`; only an image that ends before a
/// read is an error.
pub fn find_header(image: &[u8]) -> (r: Result<Option<(u64, Header)>, HeaderError>)
    ensures
        r == scan_from(image@, 0),
{
    let mut offset: usize = 0;
    while offset < SEARCH_END as usize
        invariant
            offset <= SEARCH_END,
            offset % 8 == 0,
            scan_from(image@, 0) == scan_from(image@, offset as int),
        decreases SEARCH_END - offset,
    {
        if offset + 4 > image.len() {
            return Err(HeaderError::UnexpectedEof);
        }
        let magic = read_u32(slice_subrange(image, offset, offset + 4));
        if magic == HEADER_MAGIC {
            if offset + 16 > image.len() {
                return Err(HeaderError::UnexpectedEof);
            }
            let header = read_header(image, offset);
            if header.is_valid() {
                return Ok(Some((offset as u64, header)));
            }
        }
        offset = offset + ALIGNMENT;
    }
    Ok(None)
}

/// The bytes of the tags that follow the header at `offset` of `image`: the
/// header must be there and valid, with a length of at least its own sixteen
/// bytes, and the `header_length - 16` bytes that it declares after itself
/// must be there too.
pub open spec fn tags_after_header(image: Seq<u8>, offset: int) -> Result<Seq<u8>, HeaderError> {
    if offset < 0 || offset + 16 > image.len() {
        Err(HeaderError::UnexpectedEof)
    } else {
        let h = header_from(image.subrange(offset, offset + 16));
        if !h.spec_is_valid() || h.header_length < 16 {
            Err(HeaderError::InvalidHeader)
        } else if offset + h.header_length > image.len() {
            Err(HeaderError::UnexpectedEof)
        } else {
            Ok(image.subrange(offset + 16, offset + h.header_length))
        }
    }
}

/// Decodes request tags one after the other from the bytes that follow a
/// header. The first error, or the end tag, finishes the sequence.
#[derive(Debug, Clone)]
pub struct TagIter {
    done: bool,
    data: Vec<u8>,
    pos: usize,
}

impl TagIter {
    /// The bytes that the tags are decoded from.
    pub closed spec fn buffer(&self) -> Seq<u8> {
        self.data@
    }

    /// Where the next tag starts.
    pub closed spec fn cursor(&self) -> int {
        self.pos as int
    }

    /// No tag is left to decode.
    pub closed spec fn finished(&self) -> bool {
        self.done
    }

    pub fn new(data: Vec<u8>) -> (r: Self)
        ensures
            r.buffer() == data@,
            r.cursor() == 0,
            !r.finished(),
    {
        TagIter { done: false, data, pos: 0 }
    }

    /// Reads the header at `offset` of `image` and takes the bytes of the
    /// tags that it declares.
    pub fn from_image(image: &[u8], offset: usize) -> (r: Result<Self, HeaderError>)
        ensures
            match tags_after_header(image@, offset as int) {
                Ok(b) => r matches Ok(it) && it.buffer() == b && it.cursor() == 0 && !it.finished(),
                Err(e) => r == Err::<Self, HeaderError>(e),
            },
    {
        let len = image.len();
        if offset > len || len - offset < 16 {
            return Err(HeaderError::UnexpectedEof);
        }
        let header = read_header(image, offset);
        if !header.is_valid() || header.header_length < 16 {
            return Err(HeaderError::InvalidHeader);
        }
        if header.header_length as usize > len - offset {
            return Err(HeaderError::UnexpectedEof);
        }
        let tags = slice_subrange(image, offset + 16, offset + header.header_length as usize);
        let mut data: Vec<u8> = Vec::new();
        let mut i: usize = 0;
        while i < tags.len()
            invariant
                i <= tags@.len(),
                data@ =~= tags@.subrange(0, i as int),
            decreases tags@.len() - i,
        {
            data.push(tags[i]);
            i = i + 1;
        }
        assert(tags@.subrange(0, tags@.len() as int) =~= tags@);
        Ok(TagIter::new(data))
    }

    /// Where the next tag starts in the bytes.
    pub fn position(&self) -> (r: usize)
        ensures
            r == self.cursor(),
    {
        self.pos
    }

    /// Decodes the next tag; `None` once the sequence is finished. After a
    /// tag that is not the end tag, the position has moved on by at least
    /// eight bytes, so the sequence is finite.
    pub fn next(&mut self) -> (r: Option<Result<Tag, DecodeError>>)
        ensures
            final(self).buffer() == old(self).buffer(),
            old(self).finished() ==> r is None && final(self).cursor() == old(self).cursor()
                && final(self).finished(),
            !old(self).finished() ==> {
                let (step, next) = decode_at(old(self).buffer(), old(self).cursor());
                &&& r matches Some(t) && result_view(t) == step
                &&& final(self).cursor() == next
                &&& final(self).finished() == (step is Err || step == Ok::<TagView, DecodeErrorView>(TagView::End))
                &&& !final(self).finished() ==> final(self).cursor() >= old(self).cursor() + 8
            },
    {
        if self.done {
            return None;
        }
        let (tag, next) = Tag::from_reader(self.data.as_slice(), self.pos);
        self.pos = next;
        match &tag {
            Ok(Tag::End) | Err(_) => {
                self.done = true;
            },
            Ok(_) => {},
        }
        Some(tag)
    }
}

/// Every triple of magic, architecture and header length is completed to a
/// valid header by exactly one checksum: `checksum_for` of the three.
pub proof fn lemma_checksum_exists(architecture: u32, header_length: u32)
    ensures
        (Header {
            magic: HEADER_MAGIC,
            architecture,
            header_length,
            checksum: checksum_for(HEADER_MAGIC, architecture, header_length),
        }).spec_is_valid(),
        forall|c: u32|
            checksum_ok(HEADER_MAGIC, architecture, header_length, c) ==> c == checksum_for(
                HEADER_MAGIC,
                architecture,
                header_length,
            ),
{
}

/// The sixteen stored bytes of a header read back as that header.
pub proof fn lemma_header_bytes_read(h: Header)
    ensures
        h.spec_bytes().len() == 16,
        header_from(h.spec_bytes()) == h,
{
    let b = h.spec_bytes();
    lemma_u32_bytes_read(h.magic);
    lemma_u32_bytes_read(h.architecture);
    lemma_u32_bytes_read(h.header_length);
    lemma_u32_bytes_read(h.checksum);
    assert(b.subrange(4, 8) =~= u32_bytes(h.architecture));
    assert(b.subrange(8, 12) =~= u32_bytes(h.header_length));
    assert(b.subrange(12, 16) =~= u32_bytes(h.checksum));
}

proof fn lemma_scan_reaches(image: Seq<u8>, from: int, offset: int, h: Header)
    requires
        0 <= from <= offset,
        from % 8 == 0,
        offset % 8 == 0,
        offset < SEARCH_END,
        offset + 16 <= image.len(),
        header_from(image.subrange(offset, offset + 16)) == h,
        h.spec_is_valid(),
        forall|o: int| 0 <= o < offset && o % 8 == 0 ==> !valid_header_at(image, o),
    ensures
        scan_from(image, from) == Ok::<Option<(u64, Header)>, HeaderError>(Some((offset as u64, h))),
    decreases offset - from,
{
    if from < offset {
        assert(!valid_header_at(image, from));
        lemma_scan_reaches(image, from + 8, offset, h);
    }
}

/// A valid header stored at an aligned offset below the search bound, with
/// no valid header at an aligned offset before it, is the one the search
/// finds, at that offset and with those fields.
pub proof fn lemma_find_stored_header(image: Seq<u8>, offset: int, h: Header)
    requires
        h.spec_is_valid(),
        0 <= offset < SEARCH_END,
        offset % 8 == 0,
        offset + 16 <= image.len(),
        image.subrange(offset, offset + 16) == h.spec_bytes(),
        forall|o: int| 0 <= o < offset && o % 8 == 0 ==> !valid_header_at(image, o),
    ensures
        scan_from(image, 0) == Ok::<Option<(u64, Header)>, HeaderError>(Some((offset as u64, h))),
{
    lemma_header_bytes_read(h);
    lemma_scan_reaches(image, 0, offset, h);
}

proof fn lemma_scan_none(image: Seq<u8>, from: int)
    requires
        0 <= from,
        from % 8 == 0,
        image.len() >= SEARCH_END + 8,
        forall|o: int| 0 <= o < SEARCH_END && o % 8 == 0 ==> !valid_header_at(image, o),
    ensures
        scan_from(image, from) == Ok::<Option<(u64, Header)>, HeaderError>(None),
    decreases SEARCH_END + 8 - from,
{
    if from < SEARCH_END {
        assert(!valid_header_at(image, from));
        lemma_scan_none(image, from + 8);
    }
}

/// An image long enough for every read of the search, with no valid header
/// at any aligned offset below the bound, gives "not found" and no error.
pub proof fn lemma_no_header_found(image: Seq<u8>)
    requires
        image.len() >= SEARCH_END + 8,
        forall|o: int| 0 <= o < SEARCH_END && o % 8 == 0 ==> !valid_header_at(image, o),
    ensures
        scan_from(image, 0) == Ok::<Option<(u64, Header)>, HeaderError>(None),
{
    lemma_scan_none(image, 0);
}

} // verus!
