//! The notification that the shared memory region is live.

use vstd::prelude::*;

use crate::bytes::{
    law_reads_see_a_part, law_u32_round_trip, law_u64_round_trip, le_u32, le_u64, push_u32,
    push_u64, u32_bytes, u64_bytes,
};
use crate::device::QUEUE_BUF_SIZE;
use crate::shmem_layout::{SHMEM_MAGIC, SHMEM_REGION_SIZE, SHMEM_VERSION};

verus! {

/// Operation of the notification.
pub const OP_SHMEM_INIT: u32 = 8;

/// Bytes of the notification that stand before the page frame numbers.
pub const SHMEM_INIT_HDR_LEN: usize = 24;

/// The page frame numbers one after the other.
pub open spec fn pfn_bytes(pfns: Seq<u64>) -> Seq<u8>
    decreases pfns.len(),
{
    if pfns.len() == 0 {
        Seq::empty()
    } else {
        pfn_bytes(pfns.drop_last()) + u64_bytes(pfns.last())
    }
}

/// The notification for a region whose pages have the frame numbers `pfns`.
/// A region that the device offers has none, and says so.
pub open spec fn shmem_init(pfns: Seq<u64>, from_virtio: bool) -> Seq<u8> {
    u32_bytes(OP_SHMEM_INIT) + u32_bytes(SHMEM_REGION_SIZE as u32) + u32_bytes(pfns.len() as u32)
        + u32_bytes(SHMEM_MAGIC) + u32_bytes(SHMEM_VERSION) + u32_bytes(
        if from_virtio {
            1
        } else {
            0
        },
    ) + pfn_bytes(pfns)
}

proof fn lemma_pfn_bytes_len(pfns: Seq<u64>)
    ensures
        pfn_bytes(pfns).len() == 8 * pfns.len(),
    decreases pfns.len(),
{
    if pfns.len() > 0 {
        lemma_pfn_bytes_len(pfns.drop_last());
    }
}

/// Encode the notification.  It has to fit the event buffer.
pub fn shmem_init_message(pfns: &[u64], from_virtio: bool) -> (r: Vec<u8>)
    requires
        SHMEM_INIT_HDR_LEN + 8 * pfns@.len() <= QUEUE_BUF_SIZE,
    ensures
        r@ == shmem_init(pfns@, from_virtio),
        r@.len() == SHMEM_INIT_HDR_LEN + 8 * pfns@.len(),
{
    let mut r: Vec<u8> = Vec::new();
    push_u32(&mut r, OP_SHMEM_INIT);
    push_u32(&mut r, SHMEM_REGION_SIZE as u32);
    push_u32(&mut r, pfns.len() as u32);
    push_u32(&mut r, SHMEM_MAGIC);
    push_u32(&mut r, SHMEM_VERSION);
    push_u32(
        &mut r,
        if from_virtio {
            1
        } else {
            0
        },
    );
    let ghost head = r@;
    let mut i: usize = 0;
    assert(pfns@.take(0) =~= Seq::<u64>::empty());
    while i < pfns.len()
        invariant
            i <= pfns@.len(),
            r@ == head + pfn_bytes(pfns@.take(i as int)),
        decreases pfns@.len() - i,
    {
        push_u64(&mut r, pfns[i]);
        proof {
            assert(pfns@.take(i + 1).drop_last() =~= pfns@.take(i as int));
            assert(r@ =~= head + pfn_bytes(pfns@.take(i + 1)));
        }
        i += 1;
    }
    proof {
        assert(pfns@.take(i as int) =~= pfns@);
        lemma_pfn_bytes_len(pfns@);
    }
    r
}

/// The host finds the magic number, the version and the number of pages where
/// it looks for them, and as many frame numbers as that number says.
pub proof fn law_notification_reads_back(pfns: Seq<u64>, from_virtio: bool)
    requires
        pfns.len() <= u32::MAX,
    ensures
        ({
            let m = shmem_init(pfns, from_virtio);
            &&& le_u32(m, 0) == OP_SHMEM_INIT
            &&& le_u32(m, 4) == SHMEM_REGION_SIZE
            &&& le_u32(m, 8) == pfns.len()
            &&& le_u32(m, 12) == SHMEM_MAGIC
            &&& le_u32(m, 16) == SHMEM_VERSION
            &&& (le_u32(m, 20) == 1) == from_virtio
            &&& m.len() == SHMEM_INIT_HDR_LEN + 8 * le_u32(m, 8)
        }),
{
    let m = shmem_init(pfns, from_virtio);
    let size = u32_bytes(SHMEM_REGION_SIZE as u32);
    let n = u32_bytes(pfns.len() as u32);
    let f: u32 = if from_virtio {
        1
    } else {
        0
    };
    law_u32_round_trip(OP_SHMEM_INIT);
    law_u32_round_trip(SHMEM_REGION_SIZE as u32);
    law_u32_round_trip(pfns.len() as u32);
    law_u32_round_trip(SHMEM_MAGIC);
    law_u32_round_trip(SHMEM_VERSION);
    law_u32_round_trip(f);
    lemma_pfn_bytes_len(pfns);
    let op = u32_bytes(OP_SHMEM_INIT);
    let mg = u32_bytes(SHMEM_MAGIC);
    let v = u32_bytes(SHMEM_VERSION);
    let fl = u32_bytes(f);
    assert(m[0] == op[0] && m[1] == op[1] && m[2] == op[2] && m[3] == op[3]);
    assert(m[4] == size[0] && m[5] == size[1] && m[6] == size[2] && m[7] == size[3]);
    assert(m[8] == n[0] && m[9] == n[1] && m[10] == n[2] && m[11] == n[3]);
    assert(m[12] == mg[0] && m[13] == mg[1] && m[14] == mg[2] && m[15] == mg[3]);
    assert(m[16] == v[0] && m[17] == v[1] && m[18] == v[2] && m[19] == v[3]);
    assert(m[20] == fl[0] && m[21] == fl[1] && m[22] == fl[2] && m[23] == fl[3]);
}

/// The frame number of page `i` stands where the host looks for it, and the
/// fixed fields have the values that it expects.
pub proof fn law_frame_numbers_read_back(pfns: Seq<u64>, from_virtio: bool, i: int)
    requires
        0 <= i < pfns.len() <= u32::MAX,
    ensures
        le_u64(shmem_init(pfns, from_virtio), 24 + 8 * i) == pfns[i],
        le_u32(shmem_init(pfns, from_virtio), 0) == 8,
        le_u32(shmem_init(pfns, from_virtio), 4) == 16777216,
        le_u32(shmem_init(pfns, from_virtio), 8) == pfns.len(),
        le_u32(shmem_init(pfns, from_virtio), 12) == 0x48534642,
        le_u32(shmem_init(pfns, from_virtio), 16) == 5,
        le_u32(shmem_init(pfns, from_virtio), 20) == if from_virtio {
            1u32
        } else {
            0u32
        },
{
    let m = shmem_init(pfns, from_virtio);
    law_notification_reads_back(pfns, from_virtio);
    lemma_pfn_bytes_len(pfns);
    lemma_pfn_at(pfns, i);
    law_u64_round_trip(pfns[i]);
    assert(m.subrange(24 + 8 * i, 32 + 8 * i) =~= pfn_bytes(pfns).subrange(8 * i, 8 * i + 8));
    law_reads_see_a_part(m, 24 + 8 * i, 32 + 8 * i);
    let f = if from_virtio {
        1u32
    } else {
        0u32
    };
    law_u32_round_trip(f);
    assert(m.subrange(20, 24) =~= u32_bytes(f));
    law_reads_see_a_part(m, 20, 24);
}

proof fn lemma_pfn_at(pfns: Seq<u64>, i: int)
    requires
        0 <= i < pfns.len(),
    ensures
        pfn_bytes(pfns).subrange(8 * i, 8 * i + 8) == u64_bytes(pfns[i]),
    decreases pfns.len(),
{
    let front = pfns.drop_last();
    lemma_pfn_bytes_len(pfns);
    lemma_pfn_bytes_len(front);
    if i < pfns.len() - 1 {
        lemma_pfn_at(front, i);
        assert(pfn_bytes(pfns).subrange(8 * i, 8 * i + 8) =~= pfn_bytes(front).subrange(
            8 * i,
            8 * i + 8,
        ));
    } else {
        assert(pfn_bytes(pfns).subrange(8 * i, 8 * i + 8) =~= u64_bytes(pfns[i]));
    }
}

} // verus!
