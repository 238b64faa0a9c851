//! Size of the shared memory region and the place of its sub-regions.

use vstd::prelude::*;

use crate::bytes::{law_u32_round_trip, le_u32, push_u32, u32_bytes};

verus! {

/// 16 MB.
pub const SHMEM_REGION_SIZE: usize = 16 * 1024 * 1024;

pub const SHMEM_PAGE_SIZE: usize = 4096;

pub const SHMEM_N_PAGES: usize = SHMEM_REGION_SIZE / SHMEM_PAGE_SIZE;

/// ASCII `BFSH`, read as a little-endian number.
pub const SHMEM_MAGIC: u32 = 0x48534642;

pub const SHMEM_VERSION: u32 = 5;

/// Cap on per-CPU sub-rings.
pub const SHMEM_NUM_CPUS_MAX: u32 = 16;

/// Offset of the per-CPU state array within the header page.
pub const SHMEM_PER_CPU_STATE_OFF: u32 = 128;

/// Distance between successive per-CPU state entries.
pub const SHMEM_PER_CPU_STATE_STRIDE: u32 = 128;

pub const SHMEM_DROP_CLASS_PRINCIPAL: u32 = 0;

pub const SHMEM_DROP_CLASS_AGG: u32 = 1;

pub const SHMEM_DROP_CLASS_STKSTR: u32 = 2;

pub const SHMEM_DROP_CLASS_DBLERR: u32 = 3;

pub const SHMEM_DROP_CLASS_MAX: u32 = 4;

pub const SHMEM_HDR_OFF: usize = 0;

pub const SHMEM_HDR_LEN: usize = 4096;

pub const SHMEM_RINGBUF_OFF: usize = SHMEM_HDR_LEN;

pub const SHMEM_RINGBUF_LEN: usize = 6 * 1024 * 1024;

pub const SHMEM_BTF_OFF: usize = SHMEM_RINGBUF_OFF + SHMEM_RINGBUF_LEN;

pub const SHMEM_BTF_CAP: usize = 6 * 1024 * 1024;

pub const SHMEM_KSYMS_OFF: usize = SHMEM_BTF_OFF + SHMEM_BTF_CAP;

pub const SHMEM_KSYMS_CAP: usize = 2 * 1024 * 1024;

pub const SHMEM_VMA_CACHE_OFF: usize = SHMEM_KSYMS_OFF + SHMEM_KSYMS_CAP;

pub const SHMEM_VMA_CACHE_LEN: usize = SHMEM_REGION_SIZE - SHMEM_VMA_CACHE_OFF;

/// The bytes at the start of the region by which the host knows it: the magic
/// number, then the version.
pub open spec fn stamp_bytes() -> Seq<u8> {
    u32_bytes(SHMEM_MAGIC) + u32_bytes(SHMEM_VERSION)
}

/// Encode the bytes at the start of the region.
pub fn shmem_stamp() -> (r: Vec<u8>)
    ensures
        r@ == stamp_bytes(),
        r@.len() == 8,
{
    let mut r: Vec<u8> = Vec::new();
    push_u32(&mut r, SHMEM_MAGIC);
    push_u32(&mut r, SHMEM_VERSION);
    assert(r@ =~= stamp_bytes());
    r
}

/// The stamp holds the magic number and the version, and lies before the
/// per-CPU state.
pub proof fn law_stamp_reads_back()
    ensures
        le_u32(stamp_bytes(), 0) == SHMEM_MAGIC,
        le_u32(stamp_bytes(), 4) == SHMEM_VERSION,
        stamp_bytes().len() <= SHMEM_PER_CPU_STATE_OFF,
{
    law_u32_round_trip(SHMEM_MAGIC);
    law_u32_round_trip(SHMEM_VERSION);
    let s = stamp_bytes();
    assert(s[4] == u32_bytes(SHMEM_VERSION)[0]);
    assert(s[5] == u32_bytes(SHMEM_VERSION)[1]);
    assert(s[6] == u32_bytes(SHMEM_VERSION)[2]);
    assert(s[7] == u32_bytes(SHMEM_VERSION)[3]);
}

/// Offset in the region of the counter of dropped records of `class` in the
/// state of CPU `cpu`.  A state begins with the producer and the consumer
/// position; the record counters of the classes follow, then the byte counters.
pub open spec fn drop_counter(cpu: u32, class: u32) -> int {
    SHMEM_PER_CPU_STATE_OFF + cpu * SHMEM_PER_CPU_STATE_STRIDE + 16 + 8 * class
}

/// Find the counter of dropped records of `class` in the state of CPU `cpu`.
pub fn drop_records_off(cpu: u32, class: u32) -> (r: usize)
    requires
        cpu < SHMEM_NUM_CPUS_MAX,
        class < SHMEM_DROP_CLASS_MAX,
    ensures
        r == drop_counter(cpu, class),
        r + 8 <= SHMEM_HDR_LEN,
{
    (SHMEM_PER_CPU_STATE_OFF + cpu * SHMEM_PER_CPU_STATE_STRIDE + 16 + 8 * class) as usize
}

/// The drop counters are aligned and do not overlap.
pub proof fn law_drop_counters_are_apart(cpu: u32, class: u32, cpu2: u32, class2: u32)
    requires
        cpu < SHMEM_NUM_CPUS_MAX,
        class < SHMEM_DROP_CLASS_MAX,
        cpu2 < SHMEM_NUM_CPUS_MAX,
        class2 < SHMEM_DROP_CLASS_MAX,
        cpu != cpu2 || class != class2,
    ensures
        drop_counter(cpu, class) % 8 == 0,
        drop_counter(cpu, class) + 8 <= drop_counter(cpu2, class2) || drop_counter(cpu2, class2) + 8
            <= drop_counter(cpu, class),
{
}

/// Where the sub-regions of the shared memory lie, and how much of each is
/// filled.  This is what the driver publishes in the region's header.
pub struct ShmemLayout {
    pub region_size: usize,
    pub ringbuf_off: usize,
    pub ringbuf_len: usize,
    pub btf_off: usize,
    pub btf_len: usize,
    pub ksyms_off: usize,
    pub ksyms_len: usize,
    pub vma_cache_off: usize,
    pub vma_cache_len: usize,
}

/// The layout to publish once `btf_len` bytes of type information and
/// `ksyms_len` bytes of symbols have been placed.  The ring length is rounded
/// down to a multiple of eight.
pub fn shmem_layout(btf_len: usize, ksyms_len: usize) -> (r: ShmemLayout)
    ensures
        r.region_size == SHMEM_REGION_SIZE,
        r.ringbuf_off == SHMEM_RINGBUF_OFF,
        r.ringbuf_len == SHMEM_RINGBUF_LEN - SHMEM_RINGBUF_LEN % 8,
        r.btf_off == SHMEM_BTF_OFF,
        r.btf_len == btf_len,
        r.ksyms_off == SHMEM_KSYMS_OFF,
        r.ksyms_len == ksyms_len,
        r.vma_cache_off == SHMEM_VMA_CACHE_OFF,
        r.vma_cache_len == SHMEM_VMA_CACHE_LEN,
{
    ShmemLayout {
        region_size: SHMEM_REGION_SIZE,
        ringbuf_off: SHMEM_RINGBUF_OFF,
        ringbuf_len: SHMEM_RINGBUF_LEN - SHMEM_RINGBUF_LEN % 8,
        btf_off: SHMEM_BTF_OFF,
        btf_len,
        ksyms_off: SHMEM_KSYMS_OFF,
        ksyms_len,
        vma_cache_off: SHMEM_VMA_CACHE_OFF,
        vma_cache_len: SHMEM_VMA_CACHE_LEN,
    }
}

/// The sub-regions follow one another without gap or overlap, each starts on a
/// page boundary, and together they fill the region.
pub proof fn law_sub_regions_tile_the_region()
    ensures
        SHMEM_HDR_OFF == 0,
        SHMEM_HDR_OFF + SHMEM_HDR_LEN == SHMEM_RINGBUF_OFF,
        SHMEM_RINGBUF_OFF + SHMEM_RINGBUF_LEN == SHMEM_BTF_OFF,
        SHMEM_BTF_OFF + SHMEM_BTF_CAP == SHMEM_KSYMS_OFF,
        SHMEM_KSYMS_OFF + SHMEM_KSYMS_CAP == SHMEM_VMA_CACHE_OFF,
        SHMEM_VMA_CACHE_OFF + SHMEM_VMA_CACHE_LEN == SHMEM_REGION_SIZE,
        SHMEM_N_PAGES * SHMEM_PAGE_SIZE == SHMEM_REGION_SIZE,
        SHMEM_RINGBUF_OFF % SHMEM_PAGE_SIZE == 0,
        SHMEM_BTF_OFF % SHMEM_PAGE_SIZE == 0,
        SHMEM_KSYMS_OFF % SHMEM_PAGE_SIZE == 0,
        SHMEM_VMA_CACHE_OFF % SHMEM_PAGE_SIZE == 0,
{
}

/// The per-CPU state entries fit in the header page behind the fixed header.
pub proof fn law_per_cpu_state_fits_the_header()
    ensures
        SHMEM_PER_CPU_STATE_OFF + SHMEM_NUM_CPUS_MAX * SHMEM_PER_CPU_STATE_STRIDE <= SHMEM_HDR_LEN,
        // producer, consumer, and two counters per drop class
        8 + 8 + 2 * 8 * SHMEM_DROP_CLASS_MAX <= SHMEM_PER_CPU_STATE_STRIDE,
{
}

/// The region has 16 megabytes: a page of header, six megabytes of ring, six of
/// type information, two of symbols, and the rest for cached mappings; the
/// states of 16 CPUs stand from byte 128 of the header on, 128 bytes each.
pub proof fn law_where_things_stand(cpu: u32, class: u32)
    ensures
        SHMEM_REGION_SIZE == 16777216,
        SHMEM_RINGBUF_OFF == 4096 && SHMEM_RINGBUF_LEN == 6291456,
        SHMEM_BTF_OFF == 6295552 && SHMEM_BTF_CAP == 6291456,
        SHMEM_KSYMS_OFF == 12587008 && SHMEM_KSYMS_CAP == 2097152,
        SHMEM_VMA_CACHE_OFF == 14684160 && SHMEM_VMA_CACHE_LEN == 2093056,
        drop_counter(cpu, class) == 144 + 128 * cpu + 8 * class,
        SHMEM_NUM_CPUS_MAX == 16,
{
}

} // verus!
