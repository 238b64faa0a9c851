//! Kernel error numbers and error-carrying pointers.

use vstd::prelude::*;

verus! {

pub const ENOENT: i32 = 2;

pub const ENOMEM: i32 = 12;

pub const EBUSY: i32 = 16;

pub const EINVAL: i32 = 22;

pub const ENOSPC: i32 = 28;

/// Whether a pointer that the kernel returned carries an error number in place
/// of an address: error `e` is encoded as the pointer `2^64 - e`.
pub open spec fn is_err_ptr(ptr: u64) -> bool {
    ptr >= 0xFFFF_FFFF_FFFF_F000
}

/// Test for an error-carrying pointer.
pub fn ptr_is_err(ptr: u64) -> (r: bool)
    ensures
        r == is_err_ptr(ptr),
{
    ptr >= 0xFFFF_FFFF_FFFF_F000
}

/// The status that an error-carrying pointer stands for.
pub open spec fn err_of_ptr(ptr: u64) -> i32 {
    (ptr - 0x1_0000_0000_0000_0000) as i32
}

/// The status that a failed call reports: the error that the returned pointer
/// carries, or `fallback` when the pointer is null.
pub open spec fn err_ptr_status(ptr: u64, fallback: i32) -> i32 {
    if ptr == 0 {
        fallback
    } else {
        err_of_ptr(ptr)
    }
}

/// Compute the status of a failed call.
pub fn status_of_err_ptr(ptr: u64, fallback: i32) -> (r: i32)
    requires
        is_err_ptr(ptr) || ptr == 0,
    ensures
        r == err_ptr_status(ptr, fallback),
        ptr != 0 ==> -4096 <= r < 0,
{
    if ptr == 0 {
        fallback
    } else {
        -((u64::MAX - ptr) as i32) - 1
    }
}

/// Whether the pointer that creating an event returned carries an error number
/// between 1 and 4095.
pub open spec fn event_failed(ptr: u64) -> bool {
    ptr >= 0xFFFF_FFFF_FFFF_F001
}

/// Test for a failure to create an event.
pub fn event_ptr_failed(ptr: u64) -> (r: bool)
    ensures
        r == event_failed(ptr),
        r ==> is_err_ptr(ptr),
{
    ptr >= 0xFFFF_FFFF_FFFF_F001
}

/// Error `e` from 1 to 4095 is the pointer that stands `e` below the end of the
/// address space: it is told from an address, also as the result of creating an
/// event, and gives back the status `-e`.  Null gives the fallback.
pub proof fn law_errors_as_pointers(e: u64, ptr: u64, fallback: i32)
    requires
        1 <= e <= 4095,
        ptr == 0x1_0000_0000_0000_0000 - e,
    ensures
        is_err_ptr(ptr),
        event_failed(ptr),
        err_of_ptr(ptr) == -e,
        err_ptr_status(ptr, fallback) == -e,
        err_ptr_status(0, fallback) == fallback,
{
}

/// An address is no error: whatever lies 4097 or more below the end of the
/// address space is none, and as the result of creating an event whatever lies
/// 4096 or more below it.
pub proof fn law_addresses_are_no_errors(ptr: u64)
    ensures
        ptr <= 0x1_0000_0000_0000_0000 - 4097 ==> !is_err_ptr(ptr),
        ptr <= 0x1_0000_0000_0000_0000 - 4096 ==> !event_failed(ptr),
        ptr > 0x1_0000_0000_0000_0000 - 4097 ==> is_err_ptr(ptr),
{
}

} // verus!
