//! Boot-information tags: the records a loader writes for the kernel, each a
//! 32-bit type and a 32-bit size, then the fields of its type.
use crate::bytes::{push_u32, push_u64, u32_bytes, u64_bytes};
use vstd::prelude::*;

verus! {

broadcast use crate::bytes::group_int_bytes_len;

/// The size of one memory-map entry as stored: two 64-bit fields, a 32-bit
/// region type and four reserved bytes.
pub const MEM_MAP_ENTRY_SIZE: u32 = 24;

/// One range of physical memory in a memory map.
#[derive(Debug, Copy, Clone, PartialEq, Eq, Structural)]
pub struct MemMapEntry {
    pub base_addr: u64,
    pub length: u64,
    /// The code of a `RegionType`.
    pub entry_type: u32,
}

/// The type codes of the boot-information tags.
#[derive(Debug, Copy, Clone, PartialEq, Eq, Structural)]
pub enum TagType {
    End,
    BasicMeminfo,
    MemMap,
    HybridRuntime,
}

/// What a range of a memory map is.
#[derive(Debug, Copy, Clone, PartialEq, Eq, Structural)]
pub enum RegionType {
    Available,
    AcpiReclaimable,
    NonVolatile,
    Defective,
}

/// A boot-information tag.
#[derive(Debug, Clone, PartialEq, Eq)]
pub enum Tag {
    BasicMeminfo { mem_lower: u32, mem_upper: u32 },
    MemMap { entries: Vec<MemMapEntry> },
    HybridRuntime {
        total_num_apics: u32,
        first_hrt_apic_id: u32,
        /// Stored as a 32-bit 0 or 1.
        have_hrt_ioapic: bool,
        first_hrt_ioapic_entry: u32,
        cpu_freq_khz: u64,
        hrt_flags: u64,
        max_mem_mapped: u64,
        first_hrt_gpa: u64,
        boot_state_gpa: u64,
        gva_offset: u64,
        comm_page_gpa: u64,
        /// Followed by seven reserved bytes.
        hrt_int_vector: u8,
    },
    End,
}

impl TagType {
    pub open spec fn spec_code(self) -> u32 {
        match self {
            TagType::End => 0,
            TagType::BasicMeminfo => 4,
            TagType::MemMap => 6,
            TagType::HybridRuntime => 0xF00DF00D,
        }
    }

    pub fn code(self) -> (r: u32)
        ensures
            r == self.spec_code(),
    {
        match self {
            TagType::End => 0,
            TagType::BasicMeminfo => 4,
            TagType::MemMap => 6,
            TagType::HybridRuntime => 0xF00DF00D,
        }
    }
}

impl RegionType {
    pub open spec fn spec_code(self) -> u32 {
        match self {
            RegionType::Available => 1,
            RegionType::AcpiReclaimable => 3,
            RegionType::NonVolatile => 4,
            RegionType::Defective => 5,
        }
    }

    pub fn code(self) -> (r: u32)
        ensures
            r == self.spec_code(),
    {
        match self {
            RegionType::Available => 1,
            RegionType::AcpiReclaimable => 3,
            RegionType::NonVolatile => 4,
            RegionType::Defective => 5,
        }
    }
}

impl MemMapEntry {
    /// The entry as stored: base, length, region type, four zero bytes.
    pub open spec fn spec_bytes(self) -> Seq<u8> {
        u64_bytes(self.base_addr) + u64_bytes(self.length) + u32_bytes(self.entry_type) + u32_bytes(
            0,
        )
    }
}

/// The entries of a memory map as stored, one after the other.
pub open spec fn entries_bytes(entries: Seq<MemMapEntry>) -> Seq<u8>
    decreases entries.len(),
{
    if entries.len() == 0 {
        Seq::empty()
    } else {
        entries_bytes(entries.drop_last()) + entries.last().spec_bytes()
    }
}

impl Tag {
    pub open spec fn spec_type(&self) -> TagType {
        match self {
            Tag::BasicMeminfo { .. } => TagType::BasicMeminfo,
            Tag::MemMap { .. } => TagType::MemMap,
            Tag::HybridRuntime { .. } => TagType::HybridRuntime,
            Tag::End => TagType::End,
        }
    }

    /// The stored size of the tag, its 8-byte frame included.
    pub open spec fn spec_size(&self) -> nat {
        match self {
            Tag::BasicMeminfo { .. } => 16,
            Tag::MemMap { entries } => (16 + MEM_MAP_ENTRY_SIZE * entries@.len()) as nat,
            Tag::HybridRuntime { .. } => 88,
            Tag::End => 8,
        }
    }

    /// The fields of the tag as stored, after its frame.
    pub open spec fn spec_payload(&self) -> Seq<u8> {
        match self {
            Tag::BasicMeminfo { mem_lower, mem_upper } => u32_bytes(*mem_lower) + u32_bytes(
                *mem_upper,
            ),
            Tag::MemMap { entries } => u32_bytes(MEM_MAP_ENTRY_SIZE) + u32_bytes(0) + entries_bytes(
                entries@,
            ),
            Tag::HybridRuntime {
                total_num_apics,
                first_hrt_apic_id,
                have_hrt_ioapic,
                first_hrt_ioapic_entry,
                cpu_freq_khz,
                hrt_flags,
                max_mem_mapped,
                first_hrt_gpa,
                boot_state_gpa,
                gva_offset,
                comm_page_gpa,
                hrt_int_vector,
            } => u32_bytes(*total_num_apics) + u32_bytes(*first_hrt_apic_id) + u32_bytes(
                if *have_hrt_ioapic {
                    1
                } else {
                    0
                },
            ) + u32_bytes(*first_hrt_ioapic_entry) + u64_bytes(*cpu_freq_khz) + u64_bytes(*hrt_flags)
                + u64_bytes(*max_mem_mapped) + u64_bytes(*first_hrt_gpa) + u64_bytes(*boot_state_gpa)
                + u64_bytes(*gva_offset) + u64_bytes(*comm_page_gpa) + seq![*hrt_int_vector]
                + Seq::new(7, |i: int| 0u8),
            Tag::End => Seq::empty(),
        }
    }

    /// The tag as stored: type, size, then its fields, all little-endian.
    pub open spec fn spec_bytes(&self) -> Seq<u8> {
        u32_bytes(self.spec_type().spec_code()) + u32_bytes(self.spec_size() as u32)
            + self.spec_payload()
    }

    pub fn get_type(&self) -> (r: TagType)
        ensures
            r == self.spec_type(),
    {
        match self {
            Tag::BasicMeminfo { .. } => TagType::BasicMeminfo,
            Tag::MemMap { .. } => TagType::MemMap,
            Tag::HybridRuntime { .. } => TagType::HybridRuntime,
            Tag::End => TagType::End,
        }
    }

    /// The stored size of the tag, its 8-byte frame included.
    pub fn get_size(&self) -> (r: u32)
        requires
            self.spec_size() <= u32::MAX,
        ensures
            r == self.spec_size(),
    {
        match self {
            Tag::BasicMeminfo { .. } => 16,
            Tag::MemMap { entries } => 16 + MEM_MAP_ENTRY_SIZE * entries.len() as u32,
            Tag::HybridRuntime { .. } => 88,
            Tag::End => 8,
        }
    }

    /// The stored size of the tag, or `None` where it does not fit in the
    /// 32-bit size field.
    pub(crate) fn checked_size(&self) -> (r: Option<u32>)
        ensures
            r == (if self.spec_size() <= u32::MAX {
                Some(self.spec_size() as u32)
            } else {
                None
            }),
    {
        match self {
            Tag::MemMap { entries } => {
                if entries.len() > ((u32::MAX - 16) / MEM_MAP_ENTRY_SIZE) as usize {
                    None
                } else {
                    Some(16 + MEM_MAP_ENTRY_SIZE * entries.len() as u32)
                }
            },
            _ => Some(self.get_size()),
        }
    }

    /// Appends the tag as stored to `buf`.
    pub fn write_tag(&self, buf: &mut Vec<u8>)
        requires
            self.spec_size() <= u32::MAX,
        ensures
            final(buf)@ == old(buf)@ + self.spec_bytes(),
    {
        push_u32(buf, self.get_type().code());
        push_u32(buf, self.get_size());
        match self {
            Tag::BasicMeminfo { mem_lower, mem_upper } => {
                push_u32(buf, *mem_lower);
                push_u32(buf, *mem_upper);
            },
            Tag::MemMap { entries } => write_mem_map(entries, buf),
            Tag::HybridRuntime { .. } => self.write_hybrid_runtime(buf),
            Tag::End => {},
        }
        assert(buf@ =~= old(buf)@ + self.spec_bytes());
    }
}

impl Tag {
    fn write_hybrid_runtime(&self, buf: &mut Vec<u8>)
        requires
            self is HybridRuntime,
        ensures
            final(buf)@ == old(buf)@ + self.spec_payload(),
    {
        if let Tag::HybridRuntime {
            total_num_apics,
            first_hrt_apic_id,
            have_hrt_ioapic,
            first_hrt_ioapic_entry,
            cpu_freq_khz,
            hrt_flags,
            max_mem_mapped,
            first_hrt_gpa,
            boot_state_gpa,
            gva_offset,
            comm_page_gpa,
            hrt_int_vector,
        } = self {
            push_u32(buf, *total_num_apics);
            push_u32(buf, *first_hrt_apic_id);
            push_u32(buf, if *have_hrt_ioapic { 1 } else { 0 });
            push_u32(buf, *first_hrt_ioapic_entry);
            push_u64(buf, *cpu_freq_khz);
            push_u64(buf, *hrt_flags);
            push_u64(buf, *max_mem_mapped);
            push_u64(buf, *first_hrt_gpa);
            push_u64(buf, *boot_state_gpa);
            push_u64(buf, *gva_offset);
            push_u64(buf, *comm_page_gpa);
            buf.push(*hrt_int_vector);
            push_zeros(buf, 7);
            assert(buf@ =~= old(buf)@ + self.spec_payload());
        }
    }
}

/// Appends `n` zero bytes to `buf`.
fn push_zeros(buf: &mut Vec<u8>, n: usize)
    ensures
        final(buf)@ == old(buf)@ + Seq::new(n as nat, |i: int| 0u8),
{
    let mut k: usize = 0;
    while k < n
        invariant
            k <= n,
            buf@ =~= old(buf)@ + Seq::new(k as nat, |i: int| 0u8),
        decreases n - k,
    {
        buf.push(0);
        k = k + 1;
    }
}

/// Appends the payload of a memory map with `entries` to `buf`.
fn write_mem_map(entries: &Vec<MemMapEntry>, buf: &mut Vec<u8>)
    ensures
        final(buf)@ == old(buf)@ + u32_bytes(MEM_MAP_ENTRY_SIZE) + u32_bytes(0) + entries_bytes(
            entries@,
        ),
{
    push_u32(buf, MEM_MAP_ENTRY_SIZE);
    push_u32(buf, 0);
    let ghost head = buf@;
    let mut i: usize = 0;
    while i < entries.len()
        invariant
            i <= entries@.len(),
            buf@ == head + entries_bytes(entries@.subrange(0, i as int)),
        decreases entries@.len() - i,
    {
        let e = entries[i];
        push_u64(buf, e.base_addr);
        push_u64(buf, e.length);
        push_u32(buf, e.entry_type);
        push_u32(buf, 0);
        proof {
            let done = entries@.subrange(0, i + 1);
            assert(done.drop_last() =~= entries@.subrange(0, i as int));
            assert(done.last() == e);
        }
        i = i + 1;
        assert(buf@ =~= head + entries_bytes(entries@.subrange(0, i as int)));
    }
    assert(entries@.subrange(0, entries@.len() as int) =~= entries@);
    assert(buf@ =~= old(buf)@ + u32_bytes(MEM_MAP_ENTRY_SIZE) + u32_bytes(0) + entries_bytes(
        entries@,
    ));
}

/// A tag's stored bytes are as many as its size says.
pub proof fn lemma_tag_bytes_len(t: &Tag)
    ensures
        t.spec_bytes().len() == t.spec_size(),
{
    if let Tag::MemMap { entries } = t {
        lemma_entries_bytes_len(entries@);
    }
}

/// Each memory-map entry takes `MEM_MAP_ENTRY_SIZE` bytes.
pub proof fn lemma_entries_bytes_len(entries: Seq<MemMapEntry>)
    ensures
        entries_bytes(entries).len() == MEM_MAP_ENTRY_SIZE * entries.len(),
    decreases entries.len(),
{
    if entries.len() > 0 {
        lemma_entries_bytes_len(entries.drop_last());
    }
}

} // verus!
