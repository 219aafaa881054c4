use multiboot2_codec::header::tag::{DecodeError, Tag, TagType, UnknownTag};
use multiboot2_codec::header::{find_header, Header, HeaderError, TagIter, HEADER_MAGIC, SEARCH_END};

fn le32(v: u32) -> [u8; 4] {
    v.to_le_bytes()
}

fn checksum(architecture: u32, header_length: u32) -> u32 {
    0u32.wrapping_sub(HEADER_MAGIC).wrapping_sub(architecture).wrapping_sub(header_length)
}

fn header_bytes(architecture: u32, header_length: u32) -> Vec<u8> {
    let mut v = Vec::new();
    v.extend_from_slice(&le32(HEADER_MAGIC));
    v.extend_from_slice(&le32(architecture));
    v.extend_from_slice(&le32(header_length));
    v.extend_from_slice(&le32(checksum(architecture, header_length)));
    v
}

fn frame(code: u16, flags: u16, size: u32) -> Vec<u8> {
    let mut v = Vec::new();
    v.extend_from_slice(&code.to_le_bytes());
    v.extend_from_slice(&flags.to_le_bytes());
    v.extend_from_slice(&size.to_le_bytes());
    v
}

#[test]
fn header_with_computed_checksum_is_valid() {
    for (arch, len) in [(0u32, 16u32), (4, 24), (0xFFFF_FFFF, 0xFFFF_FFFF), (1, 0)] {
        let h = Header { magic: HEADER_MAGIC, architecture: arch, header_length: len, checksum: checksum(arch, len) };
        assert!(h.is_valid());
        let bad = Header { checksum: h.checksum.wrapping_add(1), ..h };
        assert!(!bad.is_valid());
    }
}

#[test]
fn header_with_wrong_magic_is_invalid() {
    let h = Header { magic: 0x1BADB002, architecture: 0, header_length: 16, checksum: 0u32.wrapping_sub(0x1BADB002 + 16) };
    assert!(!h.is_valid());
}

#[test]
fn exact_checksum_value() {
    let h = Header { magic: HEADER_MAGIC, architecture: 0, header_length: 16, checksum: 0x17ADAF1A };
    assert!(h.is_valid());
}

#[test]
fn stored_header_is_found_at_its_offset() {
    for offset in [0usize, 8, 0x1000, 32760] {
        let mut image = vec![0u8; 32768 + 16];
        image[offset..offset + 16].copy_from_slice(&header_bytes(0, 24));
        let found = find_header(&image).unwrap().unwrap();
        assert_eq!(found.0, offset as u64);
        assert_eq!(found.1, Header { magic: HEADER_MAGIC, architecture: 0, header_length: 24, checksum: checksum(0, 24) });
    }
}

#[test]
fn header_past_search_bound_is_not_found() {
    let mut image = vec![0u8; 32768 + 64];
    image[32768..32768 + 16].copy_from_slice(&header_bytes(0, 24));
    assert_eq!(find_header(&image), Ok(None));
}

#[test]
fn unaligned_header_is_not_found() {
    let mut image = vec![0u8; 32768 + 16];
    image[4..20].copy_from_slice(&header_bytes(0, 24));
    assert_eq!(find_header(&image), Ok(None));
}

#[test]
fn magic_with_bad_checksum_is_skipped() {
    let mut image = vec![0u8; 32768 + 16];
    let mut bad = header_bytes(0, 24);
    bad[12] ^= 1;
    image[0..16].copy_from_slice(&bad);
    image[64..80].copy_from_slice(&header_bytes(0, 32));
    let found = find_header(&image).unwrap().unwrap();
    assert_eq!(found.0, 64);
    assert_eq!(found.1.header_length, 32);
}

#[test]
fn no_magic_gives_not_found() {
    let image = vec![0xAAu8; SEARCH_END as usize + 8];
    assert_eq!(find_header(&image), Ok(None));
}

#[test]
fn short_image_without_header_is_an_error() {
    let image = vec![0u8; 100];
    assert_eq!(find_header(&image), Err(HeaderError::UnexpectedEof));
}

#[test]
fn magic_at_end_of_image_is_an_error() {
    let mut image = vec![0u8; 12];
    image[8..12].copy_from_slice(&le32(HEADER_MAGIC));
    assert_eq!(find_header(&image), Err(HeaderError::UnexpectedEof));
}

#[test]
fn load_addr_decodes_to_its_fields() {
    let mut data = frame(2, 0, 24);
    for v in [0x0010_0000u32, 0x0010_1000, 0x0020_0000, 0x0030_0000] {
        data.extend_from_slice(&le32(v));
    }
    let (r, next) = Tag::from_reader(&data, 0);
    let tag = r.unwrap();
    assert_eq!(
        tag,
        Tag::LoadAddr { header_addr: 0x0010_0000, load_addr: 0x0010_1000, load_end_addr: 0x0020_0000, bss_end_addr: 0x0030_0000 }
    );
    assert_eq!(tag.size(), 24);
    assert_eq!(tag.tag_type(), TagType::LoadAddr);
    assert_eq!(next, 24);
}

#[test]
fn end_tag_is_eight_bytes_and_finishes() {
    let mut data = frame(0, 0, 8);
    data.extend_from_slice(&frame(3, 0, 12));
    let mut it = TagIter::new(data);
    let tag = it.next().unwrap().unwrap();
    assert_eq!(tag, Tag::End);
    assert_eq!(tag.size(), 8);
    assert_eq!(it.position(), 8);
    assert!(it.next().is_none());
    assert!(it.next().is_none());
}

#[test]
fn unknown_tag_fails_after_its_size() {
    let mut data = frame(0xBEEF, 1, 12);
    data.extend_from_slice(&[1, 2, 3, 4]);
    data.extend_from_slice(&frame(0, 0, 8));
    let mut it = TagIter::new(data);
    let r = it.next().unwrap();
    assert_eq!(
        r,
        Err(DecodeError::Unknown(UnknownTag { tag_type: 0xBEEF, flags: 1, size: 12, data: vec![1, 2, 3, 4] }))
    );
    assert_eq!(it.position(), 12);
    assert!(it.next().is_none());
}

#[test]
fn unknown_tag_reports_its_type() {
    let mut data = frame(0xBEEF, 0, 12);
    data.extend_from_slice(&[0; 4]);
    let (r, next) = Tag::from_reader(&data, 0);
    match r {
        Err(DecodeError::Unknown(u)) => {
            assert_eq!(u.tag_type, 0xBEEF);
            assert_eq!(u.size, 12);
        }
        other => panic!("unexpected {:?}", other),
    }
    assert_eq!(next, 12);
}

#[test]
fn entry_addr_too_short_is_size_mismatch() {
    let data = frame(3, 0, 8);
    let (r, next) = Tag::from_reader(&data, 0);
    assert_eq!(r, Err(DecodeError::SizeMismatch { tag_type: 3, expected: 12, declared: 8 }));
    assert_eq!(next, 0);
}

#[test]
fn padding_over_seven_bytes_is_size_mismatch() {
    let mut data = frame(3, 0, 20);
    data.extend_from_slice(&[0; 12]);
    let (r, _) = Tag::from_reader(&data, 0);
    assert_eq!(r, Err(DecodeError::SizeMismatch { tag_type: 3, expected: 12, declared: 20 }));
}

#[test]
fn declared_size_below_frame_is_size_mismatch() {
    let data = frame(0xBEEF, 0, 4);
    let (r, _) = Tag::from_reader(&data, 0);
    assert_eq!(r, Err(DecodeError::SizeMismatch { tag_type: 0xBEEF, expected: 8, declared: 4 }));
}

#[test]
fn padding_within_tolerance_is_accepted() {
    let mut data = frame(3, 0, 16);
    data.extend_from_slice(&le32(0xDEAD_BEEF));
    data.extend_from_slice(&[0; 4]);
    data.extend_from_slice(&frame(0, 0, 8));
    let mut it = TagIter::new(data);
    assert_eq!(it.next().unwrap(), Ok(Tag::EntryAddr(0xDEAD_BEEF)));
    assert_eq!(it.position(), 16);
    assert_eq!(it.next().unwrap(), Ok(Tag::End));
}

#[test]
fn next_tag_starts_at_next_multiple_of_eight() {
    let mut data = frame(4, 0, 12);
    data.extend_from_slice(&le32(3));
    data.extend_from_slice(&[0xFF; 4]);
    data.extend_from_slice(&frame(5, 0, 20));
    data.extend_from_slice(&le32(1024));
    data.extend_from_slice(&le32(768));
    data.extend_from_slice(&le32(32));
    data.extend_from_slice(&[0xFF; 4]);
    data.extend_from_slice(&frame(0, 0, 8));
    let mut it = TagIter::new(data);
    assert_eq!(it.next().unwrap(), Ok(Tag::ConsoleFlags(3)));
    assert_eq!(it.position(), 16);
    assert_eq!(it.next().unwrap(), Ok(Tag::Framebuffer { width: 1024, height: 768, depth: 32 }));
    assert_eq!(it.position(), 40);
    assert_eq!(it.next().unwrap(), Ok(Tag::End));
    assert!(it.next().is_none());
}

#[test]
fn info_request_reads_its_list() {
    let mut data = frame(1, 0, 20);
    for v in [4u32, 6, 0xF00DF00D] {
        data.extend_from_slice(&le32(v));
    }
    data.extend_from_slice(&[0; 4]);
    let mut it = TagIter::new(data);
    let tag = it.next().unwrap().unwrap();
    assert_eq!(tag, Tag::InfoRequest { mbi_tag_types: vec![4, 6, 0xF00DF00D] });
    assert_eq!(tag.size(), 20);
    assert_eq!(it.position(), 24);
}

#[test]
fn hybrid_runtime_reads_six_words() {
    let mut data = frame(0xF00D, 0, 56);
    for v in [1u64, 0x0102_0304_0506_0708, 3, 0xFFFF_8000_0000_0000, 5, 0xF0] {
        data.extend_from_slice(&v.to_le_bytes());
    }
    let (r, next) = Tag::from_reader(&data, 0);
    let tag = r.unwrap();
    assert_eq!(
        tag,
        Tag::HybridRuntime {
            flags: 1,
            gpa_map_req: 0x0102_0304_0506_0708,
            hrt_hihalf_offset: 3,
            nautilus_entry_gva: 0xFFFF_8000_0000_0000,
            comm_page_gpa: 5,
            int_vec: 0xF0,
        }
    );
    assert_eq!(tag.size(), 56);
    assert_eq!(next, 56);
}

#[test]
fn marker_and_relocatable_tags_decode() {
    let mut data = frame(6, 0, 8);
    data.extend_from_slice(&frame(7, 0, 8));
    data.extend_from_slice(&frame(10, 0, 24));
    for v in [0x1000u32, 0x2000_0000, 0x1000, 1] {
        data.extend_from_slice(&le32(v));
    }
    data.extend_from_slice(&frame(8, 0, 12));
    data.extend_from_slice(&le32(0x7));
    data.extend_from_slice(&[0; 4]);
    data.extend_from_slice(&frame(9, 0, 12));
    data.extend_from_slice(&le32(0x9));
    data.extend_from_slice(&[0; 4]);
    let mut it = TagIter::new(data);
    assert_eq!(it.next().unwrap(), Ok(Tag::ModuleAlign));
    assert_eq!(it.next().unwrap(), Ok(Tag::EfiBootServices));
    assert_eq!(it.next().unwrap(), Ok(Tag::Relocatable { min_addr: 0x1000, max_addr: 0x2000_0000, align: 0x1000, preference: 1 }));
    assert_eq!(it.next().unwrap(), Ok(Tag::EntryAddrEfi32(7)));
    assert_eq!(it.next().unwrap(), Ok(Tag::EntryAddrEfi64(9)));
    assert_eq!(it.next().unwrap(), Err(DecodeError::UnexpectedEof));
    assert!(it.next().is_none());
}

#[test]
fn truncated_tag_is_unexpected_eof() {
    let mut data = frame(2, 0, 24);
    data.extend_from_slice(&[0; 8]);
    let (r, next) = Tag::from_reader(&data, 0);
    assert_eq!(r, Err(DecodeError::UnexpectedEof));
    assert_eq!(next, 0);
    let (r, _) = Tag::from_reader(&data[..5], 0);
    assert_eq!(r, Err(DecodeError::UnexpectedEof));
}

#[test]
fn tag_type_codes() {
    assert_eq!(TagType::from_code(0), Some(TagType::End));
    assert_eq!(TagType::from_code(10), Some(TagType::Relocatable));
    assert_eq!(TagType::from_code(0xF00D), Some(TagType::HybridRuntime));
    assert_eq!(TagType::from_code(11), None);
    assert_eq!(TagType::EntryAddrEfi64.code(), 9);
    assert_eq!(TagType::HybridRuntime.code(), 0xF00D);
}

#[test]
fn tags_are_read_after_the_header() {
    let mut image = vec![0u8; 0x1000];
    image.extend_from_slice(&header_bytes(0, 16 + 16 + 8));
    image.extend_from_slice(&frame(3, 0, 12));
    image.extend_from_slice(&le32(0x0010_000C));
    image.extend_from_slice(&[0; 4]);
    image.extend_from_slice(&frame(0, 0, 8));
    image.extend_from_slice(&[0xEE; 8]);
    let (offset, header) = find_header(&image).unwrap().unwrap();
    assert_eq!(offset, 0x1000);
    assert_eq!(header.header_length, 40);
    let mut it = TagIter::from_image(&image, offset as usize).unwrap();
    assert_eq!(it.next().unwrap(), Ok(Tag::EntryAddr(0x0010_000C)));
    assert_eq!(it.next().unwrap(), Ok(Tag::End));
    assert!(it.next().is_none());
}

#[test]
fn tags_after_invalid_header_are_refused() {
    let image = vec![0u8; 64];
    assert_eq!(TagIter::from_image(&image, 0).err(), Some(HeaderError::InvalidHeader));
    let short = header_bytes(0, 8);
    assert_eq!(TagIter::from_image(&short, 0).err(), Some(HeaderError::InvalidHeader));
    let long = header_bytes(0, 64);
    assert_eq!(TagIter::from_image(&long, 0).err(), Some(HeaderError::UnexpectedEof));
    assert_eq!(TagIter::from_image(&long, 8).err(), Some(HeaderError::UnexpectedEof));
}
