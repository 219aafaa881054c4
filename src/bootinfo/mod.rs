//! The response side: the boot-information table a loader writes for the
//! kernel. The table is an 8-byte header, its total size and a zero word, then
//! the tags one after the other; the last tag must be the end tag.
use crate::bytes::{le_u32, lemma_u32_bytes_read, push_u32, u32_bytes};
use vstd::prelude::*;

pub mod tag;

use self::tag::lemma_tag_bytes_len;
pub use self::tag::{MemMapEntry, RegionType, Tag, TagType};

verus! {

broadcast use crate::bytes::group_int_bytes_len;

/// Why a table could not be encoded. Nothing is written in either case.
#[derive(Debug, Copy, Clone, PartialEq, Eq, Structural)]
pub enum EncodeError {
    /// The tags are empty or the last one is not the end tag.
    MissingEnd,
    /// The table's size does not fit in its 32-bit size field.
    TooLarge,
    /// The table, placed at the offset, would pass the largest buffer length.
    OffsetTooLarge,
}

/// The sum of the tags' sizes.
pub open spec fn tags_size(tags: Seq<Tag>) -> nat
    decreases tags.len(),
{
    if tags.len() == 0 {
        0
    } else {
        tags_size(tags.drop_last()) + tags.last().spec_size()
    }
}

/// The size of the table: its 8-byte header and every tag.
pub open spec fn table_size(tags: Seq<Tag>) -> nat {
    8 + tags_size(tags)
}

/// The tags as stored, one after the other, with no padding between them.
pub open spec fn tags_bytes(tags: Seq<Tag>) -> Seq<u8>
    decreases tags.len(),
{
    if tags.len() == 0 {
        Seq::empty()
    } else {
        tags_bytes(tags.drop_last()) + tags.last().spec_bytes()
    }
}

/// The table as stored: total size, a zero word, then the tags.
pub open spec fn table_bytes(tags: Seq<Tag>) -> Seq<u8> {
    u32_bytes(table_size(tags) as u32) + u32_bytes(0) + tags_bytes(tags)
}

/// The last of the tags is the end tag.
pub open spec fn ends_with_end(tags: Seq<Tag>) -> bool {
    tags.len() > 0 && tags.last() is End
}

/// What encoding the tags gives: the table's bytes, or why there are none.
pub open spec fn encoding(tags: Seq<Tag>) -> Result<Seq<u8>, EncodeError> {
    if !ends_with_end(tags) {
        Err(EncodeError::MissingEnd)
    } else if table_size(tags) > u32::MAX {
        Err(EncodeError::TooLarge)
    } else {
        Ok(table_bytes(tags))
    }
}

/// `buf` with `bytes` written at `offset`: bytes before it are kept, a gap
/// between the end of `buf` and `offset` is filled with zeros, and bytes
/// after the written ones are kept.
pub open spec fn written_at(buf: Seq<u8>, offset: int, bytes: Seq<u8>) -> Seq<u8> {
    let len = if offset + bytes.len() > buf.len() {
        offset + bytes.len()
    } else {
        buf.len() as int
    };
    Seq::new(
        len as nat,
        |k: int|
            if offset <= k < offset + bytes.len() {
                bytes[k - offset]
            } else if k < buf.len() {
                buf[k]
            } else {
                0u8
            },
    )
}

proof fn lemma_tags_size_prefix(tags: Seq<Tag>, i: int)
    requires
        0 <= i < tags.len(),
    ensures
        tags_size(tags.subrange(0, i + 1)) == tags_size(tags.subrange(0, i)) + tags[i].spec_size(),
        tags_size(tags.subrange(0, i + 1)) <= tags_size(tags),
    decreases tags.len(),
{
    assert(tags.subrange(0, i + 1).drop_last() =~= tags.subrange(0, i));
    if i + 1 < tags.len() {
        lemma_tags_size_prefix(tags.drop_last(), i);
        assert(tags.drop_last().subrange(0, i + 1) =~= tags.subrange(0, i + 1));
    } else {
        assert(tags.subrange(0, i + 1) =~= tags);
    }
}

/// The size of the table, its header included.
pub fn bootinfo_size(tags: &[Tag]) -> (r: u32)
    requires
        table_size(tags@) <= u32::MAX,
    ensures
        r == table_size(tags@),
{
    let mut sum: u32 = 8;
    let mut i: usize = 0;
    while i < tags.len()
        invariant
            i <= tags@.len(),
            table_size(tags@) <= u32::MAX,
            sum == 8 + tags_size(tags@.subrange(0, i as int)),
        decreases tags@.len() - i,
    {
        proof {
            lemma_tags_size_prefix(tags@, i as int);
        }
        sum = sum + tags[i].get_size();
        i = i + 1;
    }
    assert(tags@.subrange(0, tags@.len() as int) =~= tags@);
    sum
}

/// The size of the table, or `None` where it does not fit in 32 bits.
fn checked_table_size(tags: &[Tag]) -> (r: Option<u32>)
    ensures
        r == (if table_size(tags@) <= u32::MAX {
            Some(table_size(tags@) as u32)
        } else {
            None
        }),
{
    let mut sum: u32 = 8;
    let mut i: usize = 0;
    while i < tags.len()
        invariant
            i <= tags@.len(),
            sum == 8 + tags_size(tags@.subrange(0, i as int)),
        decreases tags@.len() - i,
    {
        proof {
            lemma_tags_size_prefix(tags@, i as int);
        }
        match tags[i].checked_size() {
            None => return None,
            Some(n) => {
                if n > u32::MAX - sum {
                    return None;
                }
                sum = sum + n;
            },
        }
        i = i + 1;
    }
    assert(tags@.subrange(0, tags@.len() as int) =~= tags@);
    Some(sum)
}

/// Encodes the table: after checking that the last tag is the end tag and
/// that the size fits, the header, then each tag in order.
pub fn encode_bootinfo(tags: &[Tag]) -> (r: Result<Vec<u8>, EncodeError>)
    ensures
        match encoding(tags@) {
            Ok(b) => r matches Ok(v) && v@ == b,
            Err(e) => r == Err::<Vec<u8>, EncodeError>(e),
        },
{
    if tags.len() == 0 {
        return Err(EncodeError::MissingEnd);
    }
    match &tags[tags.len() - 1] {
        Tag::End => {},
        _ => return Err(EncodeError::MissingEnd),
    }
    let size = match checked_table_size(tags) {
        Some(n) => n,
        None => return Err(EncodeError::TooLarge),
    };
    let mut buf: Vec<u8> = Vec::new();
    push_u32(&mut buf, size);
    push_u32(&mut buf, 0);
    let ghost head = buf@;
    let mut i: usize = 0;
    while i < tags.len()
        invariant
            i <= tags@.len(),
            table_size(tags@) <= u32::MAX,
            buf@ == head + tags_bytes(tags@.subrange(0, i as int)),
        decreases tags@.len() - i,
    {
        proof {
            lemma_tags_size_prefix(tags@, i as int);
            let done = tags@.subrange(0, i + 1);
            assert(done.drop_last() =~= tags@.subrange(0, i as int));
        }
        tags[i].write_tag(&mut buf);
        i = i + 1;
        assert(buf@ =~= head + tags_bytes(tags@.subrange(0, i as int)));
    }
    assert(tags@.subrange(0, tags@.len() as int) =~= tags@);
    assert(buf@ =~= table_bytes(tags@));
    Ok(buf)
}

/// Writes the table into `buf` at `offset`, as a seekable sink would: the
/// buffer grows where the table passes its end, with zeros before `offset`.
/// On an error `buf` is left as it was.
pub fn write_bootinfo(tags: &[Tag], buf: &mut Vec<u8>, offset: usize) -> (r: Result<(), EncodeError>)
    ensures
        match encoding(tags@) {
            Ok(b) => if offset + b.len() > usize::MAX {
                r == Err::<(), EncodeError>(EncodeError::OffsetTooLarge) && final(buf)@ == old(buf)@
            } else {
                r is Ok && final(buf)@ == written_at(old(buf)@, offset as int, b)
            },
            Err(e) => r == Err::<(), EncodeError>(e) && final(buf)@ == old(buf)@,
        },
{
    let bytes = match encode_bootinfo(tags) {
        Ok(b) => b,
        Err(e) => return Err(e),
    };
    if offset > usize::MAX - bytes.len() {
        return Err(EncodeError::OffsetTooLarge);
    }
    let end = offset + bytes.len();
    while buf.len() < end
        invariant
            end == offset + bytes@.len(),
            old(buf)@.len() <= buf@.len(),
            buf@.len() <= end || buf@.len() == old(buf)@.len(),
            forall|k: int| 0 <= k < old(buf)@.len() ==> buf@[k] == old(buf)@[k],
            forall|k: int| old(buf)@.len() <= k < buf@.len() ==> buf@[k] == 0u8,
        decreases end - buf@.len(),
    {
        buf.push(0);
    }
    let mut j: usize = 0;
    while j < bytes.len()
        invariant
            end == offset + bytes@.len(),
            j <= bytes@.len(),
            buf@.len() == written_at(old(buf)@, offset as int, bytes@).len(),
            forall|k: int|
                0 <= k < buf@.len() && !(offset + j <= k < end) ==> buf@[k] == written_at(
                    old(buf)@,
                    offset as int,
                    bytes@,
                )[k],
        decreases bytes@.len() - j,
    {
        buf.set(offset + j, bytes[j]);
        j = j + 1;
    }
    assert(buf@ =~= written_at(old(buf)@, offset as int, bytes@));
    Ok(())
}

proof fn lemma_tags_bytes_len(tags: Seq<Tag>)
    ensures
        tags_bytes(tags).len() == tags_size(tags),
    decreases tags.len(),
{
    if tags.len() > 0 {
        lemma_tags_bytes_len(tags.drop_last());
        lemma_tag_bytes_len(&tags.last());
    }
}

/// A table whose size fits is exactly that many bytes long, opens with that
/// size, little-endian, and has zero in its second word.
pub proof fn lemma_table_layout(tags: Seq<Tag>)
    requires
        table_size(tags) <= u32::MAX,
    ensures
        table_bytes(tags).len() == table_size(tags),
        le_u32(table_bytes(tags)) == table_size(tags),
        table_bytes(tags).subrange(4, 8) == seq![0u8, 0u8, 0u8, 0u8],
{
    let b = table_bytes(tags);
    lemma_tags_bytes_len(tags);
    lemma_u32_bytes_read(table_size(tags) as u32);
    lemma_u32_bytes_read(0);
    assert(b.subrange(0, 4) =~= u32_bytes(table_size(tags) as u32));
    assert(b.subrange(4, 8) =~= u32_bytes(0));
    assert(le_u32(u32_bytes(0)) == 0);
    assert(u32_bytes(0) =~= seq![0u8, 0u8, 0u8, 0u8]) by {
        reveal(u32_bytes);
    }
}

/// The end tag is a bare 8-byte frame, type zero and size eight, and a
/// table is encoded only when it is the last tag.
pub proof fn lemma_end_boot_tag(tags: Seq<Tag>)
    ensures
        Tag::End.spec_size() == 8,
        Tag::End.spec_bytes() == u32_bytes(0) + u32_bytes(8),
        Tag::End.spec_bytes().len() == 8,
        encoding(tags) is Ok ==> tags.len() > 0 && tags.last() is End,
{
    assert(Tag::End.spec_bytes() =~= u32_bytes(0) + u32_bytes(8));
}

} // verus!
