use multiboot2_codec::bootinfo::tag::{MemMapEntry, RegionType, Tag, TagType, MEM_MAP_ENTRY_SIZE};
use multiboot2_codec::bootinfo::{bootinfo_size, encode_bootinfo, write_bootinfo, EncodeError};

fn u32_at(b: &[u8], i: usize) -> u32 {
    u32::from_le_bytes([b[i], b[i + 1], b[i + 2], b[i + 3]])
}

fn u64_at(b: &[u8], i: usize) -> u64 {
    let mut a = [0u8; 8];
    a.copy_from_slice(&b[i..i + 8]);
    u64::from_le_bytes(a)
}

fn sample_tags() -> Vec<Tag> {
    vec![
        Tag::BasicMeminfo { mem_lower: 640, mem_upper: 3 * 1024 * 1024 * 1024 },
        Tag::MemMap { entries: vec![] },
        Tag::End,
    ]
}

#[test]
fn table_opens_with_its_size() {
    let tags = sample_tags();
    let size = bootinfo_size(&tags);
    assert_eq!(size, 8 + 16 + 16 + 8);
    let mut buf = Vec::new();
    write_bootinfo(&tags, &mut buf, 0).unwrap();
    assert_eq!(u32_at(&buf, 0), size);
    assert_eq!(&buf[4..8], &[0, 0, 0, 0]);
    assert_eq!(buf.len(), size as usize);
}

#[test]
fn sample_table_exact_bytes() {
    let bytes = encode_bootinfo(&sample_tags()).unwrap();
    let expected: Vec<u8> = vec![
        48, 0, 0, 0, 0, 0, 0, 0, //
        4, 0, 0, 0, 16, 0, 0, 0, 0x80, 2, 0, 0, 0, 0, 0, 0xC0, //
        6, 0, 0, 0, 16, 0, 0, 0, 24, 0, 0, 0, 0, 0, 0, 0, //
        0, 0, 0, 0, 8, 0, 0, 0,
    ];
    assert_eq!(bytes, expected);
}

#[test]
fn table_without_end_is_refused_untouched() {
    let tags = vec![Tag::BasicMeminfo { mem_lower: 1, mem_upper: 2 }];
    let mut buf = vec![7u8; 5];
    assert_eq!(write_bootinfo(&tags, &mut buf, 0), Err(EncodeError::MissingEnd));
    assert_eq!(buf, vec![7u8; 5]);
    assert_eq!(encode_bootinfo(&tags), Err(EncodeError::MissingEnd));
}

#[test]
fn empty_table_is_refused() {
    let mut buf = Vec::new();
    assert_eq!(write_bootinfo(&[], &mut buf, 3), Err(EncodeError::MissingEnd));
    assert!(buf.is_empty());
}

#[test]
fn end_not_last_is_refused() {
    let tags = vec![Tag::End, Tag::BasicMeminfo { mem_lower: 1, mem_upper: 2 }];
    assert_eq!(encode_bootinfo(&tags), Err(EncodeError::MissingEnd));
}

#[test]
fn end_alone_is_sixteen_bytes() {
    let bytes = encode_bootinfo(&[Tag::End]).unwrap();
    assert_eq!(bytes, vec![16, 0, 0, 0, 0, 0, 0, 0, 0, 0, 0, 0, 8, 0, 0, 0]);
    assert_eq!(Tag::End.get_size(), 8);
    let mut one = Vec::new();
    Tag::End.write_tag(&mut one);
    assert_eq!(one, vec![0, 0, 0, 0, 8, 0, 0, 0]);
}

#[test]
fn mem_map_of_two_entries_is_sixty_four_bytes() {
    let tag = Tag::MemMap {
        entries: vec![
            MemMapEntry { base_addr: 0, length: 0x9FC00, entry_type: RegionType::Available.code() },
            MemMapEntry { base_addr: 0x1_0000_0000, length: 0x0102_0304_0506_0708, entry_type: RegionType::Defective.code() },
        ],
    };
    assert_eq!(tag.get_size(), 64);
    assert_eq!(tag.get_type(), TagType::MemMap);
    let mut buf = Vec::new();
    tag.write_tag(&mut buf);
    assert_eq!(buf.len(), 64);
    assert_eq!(u32_at(&buf, 0), 6);
    assert_eq!(u32_at(&buf, 4), 64);
    assert_eq!(u32_at(&buf, 8), MEM_MAP_ENTRY_SIZE);
    assert_eq!(u32_at(&buf, 12), 0);
    assert_eq!(u64_at(&buf, 16), 0);
    assert_eq!(u64_at(&buf, 24), 0x9FC00);
    assert_eq!(u32_at(&buf, 32), 1);
    assert_eq!(u32_at(&buf, 36), 0);
    assert_eq!(u64_at(&buf, 40), 0x1_0000_0000);
    assert_eq!(&buf[48..56], &[8, 7, 6, 5, 4, 3, 2, 1]);
    assert_eq!(u32_at(&buf, 56), 5);
    assert_eq!(u32_at(&buf, 60), 0);
}

#[test]
fn mem_map_sizes_grow_by_entry() {
    for n in 0..5usize {
        let entries = vec![MemMapEntry { base_addr: 1, length: 2, entry_type: 3 }; n];
        let tag = Tag::MemMap { entries };
        assert_eq!(tag.get_size() as usize, 8 + 8 + 24 * n);
        let mut buf = Vec::new();
        tag.write_tag(&mut buf);
        assert_eq!(buf.len(), 16 + 24 * n);
    }
}

#[test]
fn hybrid_runtime_layout() {
    let tag = Tag::HybridRuntime {
        total_num_apics: 1,
        first_hrt_apic_id: 2,
        have_hrt_ioapic: true,
        first_hrt_ioapic_entry: 3,
        cpu_freq_khz: 1024,
        hrt_flags: 5,
        max_mem_mapped: 6,
        first_hrt_gpa: 7,
        boot_state_gpa: 8,
        gva_offset: 0xFFFF_8000_0000_0000,
        comm_page_gpa: 10,
        hrt_int_vector: 0xEF,
    };
    assert_eq!(tag.get_size(), 88);
    assert_eq!(tag.get_type(), TagType::HybridRuntime);
    let mut buf = vec![0xAA];
    tag.write_tag(&mut buf);
    let b = &buf[1..];
    assert_eq!(b.len(), 88);
    assert_eq!(u32_at(b, 0), 0xF00DF00D);
    assert_eq!(u32_at(b, 4), 88);
    assert_eq!(u32_at(b, 8), 1);
    assert_eq!(u32_at(b, 12), 2);
    assert_eq!(u32_at(b, 16), 1);
    assert_eq!(u32_at(b, 20), 3);
    assert_eq!(u64_at(b, 24), 1024);
    assert_eq!(u64_at(b, 32), 5);
    assert_eq!(u64_at(b, 64), 0xFFFF_8000_0000_0000);
    assert_eq!(u64_at(b, 72), 10);
    assert_eq!(b[80], 0xEF);
    assert_eq!(&b[81..88], &[0; 7]);
    assert_eq!(buf[0], 0xAA);
}

#[test]
fn table_written_at_offset_fills_gap_with_zeros() {
    let mut buf = vec![9u8; 4];
    write_bootinfo(&[Tag::End], &mut buf, 8).unwrap();
    assert_eq!(buf.len(), 24);
    assert_eq!(&buf[0..4], &[9, 9, 9, 9]);
    assert_eq!(&buf[4..8], &[0, 0, 0, 0]);
    assert_eq!(&buf[8..24], &[16, 0, 0, 0, 0, 0, 0, 0, 0, 0, 0, 0, 8, 0, 0, 0]);
}

#[test]
fn table_written_inside_buffer_keeps_the_rest() {
    let mut buf = vec![9u8; 40];
    write_bootinfo(&[Tag::End], &mut buf, 4).unwrap();
    assert_eq!(buf.len(), 40);
    assert_eq!(&buf[0..4], &[9, 9, 9, 9]);
    assert_eq!(&buf[4..20], &[16, 0, 0, 0, 0, 0, 0, 0, 0, 0, 0, 0, 8, 0, 0, 0]);
    assert_eq!(&buf[20..40], &[9u8; 20][..]);
}

#[test]
fn encoding_is_deterministic() {
    let a = encode_bootinfo(&sample_tags()).unwrap();
    let b = encode_bootinfo(&sample_tags()).unwrap();
    assert_eq!(a, b);
}

#[test]
fn boot_info_codes() {
    assert_eq!(TagType::End.code(), 0);
    assert_eq!(TagType::BasicMeminfo.code(), 4);
    assert_eq!(TagType::MemMap.code(), 6);
    assert_eq!(TagType::HybridRuntime.code(), 0xF00DF00D);
    assert_eq!(RegionType::Available.code(), 1);
    assert_eq!(RegionType::AcpiReclaimable.code(), 3);
    assert_eq!(RegionType::NonVolatile.code(), 4);
    assert_eq!(RegionType::Defective.code(), 5);
}
