//! Decisions for the startup storage-clear routine.
//!
//! At power-up, holding a dedicated button for a full debounce window gates a
//! destructive erase of a fixed storage region at the tail of the flash. The
//! button sampling and the erase calls are hardware work and live with the
//! runtime; what is decided here is pure: whether a sample record confirms
//! the hold, and exactly which address ranges the erase must cover.

use vstd::prelude::*;

verus! {

/// Whether a run of button samples confirms the clear request: the first
/// `required` samples must all show the button held. Any earlier release
/// cancels the request — not an error, simply "skip clearing".
pub open spec fn hold_spec(samples: Seq<bool>, required: int) -> bool {
    samples.len() >= required && (forall|i: int| 0 <= i < required ==> samples[i])
}

/// Decide a hold from recorded button samples, oldest first (`true` means
/// the button was down at that sample).
pub fn hold_confirmed(samples: &Vec<bool>, required: usize) -> (b: bool)
    ensures
        b == hold_spec(samples@, required as int),
{
    if samples.len() < required {
        return false;
    }
    let mut i: usize = 0;
    while i < required
        invariant
            i <= required,
            required <= samples.len(),
            forall|j: int| 0 <= j < i ==> samples@[j],
        decreases required - i,
    {
        if !samples[i] {
            return false;
        }
        i = i + 1;
    }
    true
}

/// The address range of page `i` in a block of pages beginning at `start`.
pub open spec fn page_range(start: u32, page_size: u32, i: int) -> (int, int) {
    (start + i * page_size, start + (i + 1) * page_size)
}

/// The `pages` consecutive page ranges beginning at `start`, in erase order.
/// Each range is half-open: erase from `.0` up to but not including `.1`.
pub fn erase_ranges(start: u32, page_size: u32, pages: u32) -> (plan: Vec<(u32, u32)>)
    requires
        start + pages * page_size <= u32::MAX,
    ensures
        plan.len() == pages,
        forall|i: int|
            0 <= i < pages ==> (plan[i].0 == page_range(start, page_size, i).0 && plan[i].1
                == page_range(start, page_size, i).1),
{
    let mut plan: Vec<(u32, u32)> = Vec::new();
    let mut i: u32 = 0;
    let mut addr: u32 = start;
    while i < pages
        invariant
            i <= pages,
            plan.len() == i,
            addr == start + i * page_size,
            start + pages * page_size <= u32::MAX,
            forall|j: int|
                0 <= j < i ==> (plan[j].0 == page_range(start, page_size, j).0 && plan[j].1
                    == page_range(start, page_size, j).1),
        decreases pages - i,
    {
        proof {
            assert((i + 1) * page_size <= pages * page_size) by (nonlinear_arith)
                requires i < pages,
            ;
            assert(i * page_size + page_size == (i + 1) * page_size) by (nonlinear_arith);
        }
        let next = addr + page_size;
        plan.push((addr, next));
        addr = next;
        i = i + 1;
    }
    plan
}

/// Where the cleared region starts: the first of the last `pages` whole pages
/// that fit in a flash of `flash_size` bytes. The region never reaches below
/// the preceding pages, which hold the bootloader and application.
pub open spec fn tail_start(flash_size: u32, page_size: u32, pages: u32) -> int {
    (flash_size / page_size - pages) * page_size
}

/// The erase plan for the storage region: the last `pages` whole pages of the
/// flash, each as one half-open address range, lowest address first.
pub fn tail_erase_ranges(flash_size: u32, page_size: u32, pages: u32) -> (plan: Vec<(u32, u32)>)
    requires
        page_size > 0,
        pages <= flash_size / page_size,
    ensures
        plan.len() == pages,
        forall|i: int|
            0 <= i < pages ==> (plan[i].0 == tail_start(flash_size, page_size, pages) + i
                * page_size && plan[i].1 == plan[i].0 + page_size),
{
    let full_pages = flash_size / page_size;
    let start_page = full_pages - pages;
    proof {
        assert(start_page * page_size + pages * page_size == full_pages * page_size)
            by (nonlinear_arith)
            requires start_page + pages == full_pages,
        ;
        assert(full_pages * page_size <= flash_size) by (nonlinear_arith)
            requires page_size > 0, full_pages == flash_size / page_size,
        ;
    }
    let start = start_page * page_size;
    let plan = erase_ranges(start, page_size, pages);
    proof {
        assert forall|i: int| 0 <= i < pages implies (plan[i]).1 == (plan[i]).0 + page_size by {
            assert((i + 1) * page_size == i * page_size + page_size) by (nonlinear_arith);
        }
    }
    plan
}

} // verus!
