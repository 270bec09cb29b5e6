//! What the boot hand-off decides: where the heap starts.

use vstd::prelude::*;

verus! {

/// What a region of physical memory is used for.
#[derive(Clone, Copy, Debug, PartialEq, Eq)]
pub enum MemoryRegionKind {
    /// Free for the kernel.
    Usable,
    /// Taken by the bootloader.
    Bootloader,
    /// Tagged by the UEFI firmware with a type unknown to the bootloader.
    UnknownUefi(u32),
    /// Tagged by the BIOS firmware with a type unknown to the bootloader.
    UnknownBios(u32),
}

/// A region of physical memory, from `start` up to `end`.
#[derive(Clone, Copy, Debug, PartialEq, Eq)]
pub struct MemoryRegion {
    pub start: u64,
    pub end: u64,
    pub kind: MemoryRegionKind,
}

/// The first usable region of `regions`, if any is usable.
pub open spec fn spec_first_usable(regions: Seq<MemoryRegion>) -> Option<MemoryRegion>
    decreases regions.len(),
{
    if regions.len() == 0 {
        None
    } else if regions.first().kind is Usable {
        Some(regions.first())
    } else {
        spec_first_usable(regions.drop_first())
    }
}

/// The address at which the heap starts: the start of the first usable
/// region, seen through the mapping of physical memory at
/// `physical_offset`; `None` without a usable region or with an address
/// beyond `usize`.
pub open spec fn spec_heap_base(regions: Seq<MemoryRegion>, physical_offset: u64) -> Option<
    usize,
> {
    match spec_first_usable(regions) {
        Some(region) => if physical_offset + region.start <= usize::MAX {
            Some((physical_offset + region.start) as usize)
        } else {
            None
        },
        None => None,
    }
}

/// `spec_first_usable` finds a usable region before which none is usable,
/// and finds none only where none is usable.
pub proof fn lemma_first_usable(regions: Seq<MemoryRegion>)
    ensures
        match spec_first_usable(regions) {
            Some(region) => exists|i: int|
                {
                    &&& 0 <= i < regions.len()
                    &&& #[trigger] regions[i] == region
                    &&& region.kind is Usable
                    &&& forall|j: int| 0 <= j < i ==> !(#[trigger] regions[j].kind is Usable)
                },
            None => forall|j: int| 0 <= j < regions.len() ==> !(#[trigger] regions[j].kind is Usable),
        },
    decreases regions.len(),
{
    if regions.len() > 0 {
        if regions.first().kind is Usable {
            assert(regions[0] == regions.first());
        } else {
            let rest = regions.drop_first();
            lemma_first_usable(rest);
            match spec_first_usable(rest) {
                Some(region) => {
                    let i = choose|i: int|
                        {
                            &&& 0 <= i < rest.len()
                            &&& #[trigger] rest[i] == region
                            &&& region.kind is Usable
                            &&& forall|j: int| 0 <= j < i ==> !(#[trigger] rest[j].kind is Usable)
                        };
                    assert(regions[i + 1] == region);
                    assert forall|j: int| 0 <= j < i + 1 implies !(
                    #[trigger] regions[j].kind is Usable) by {
                        if j > 0 {
                            assert(rest[j - 1] == regions[j]);
                        }
                    }
                },
                None => {
                    assert forall|j: int| 0 <= j < regions.len() implies !(
                    #[trigger] regions[j].kind is Usable) by {
                        if j > 0 {
                            assert(rest[j - 1] == regions[j]);
                        }
                    }
                },
            }
        }
    }
}

/// Finds the first usable region.
pub fn first_usable(regions: &[MemoryRegion]) -> (found: Option<MemoryRegion>)
    ensures
        found == spec_first_usable(regions@),
{
    let len: usize = regions.len();
    let mut i: usize = 0;
    assert(regions@.skip(0) =~= regions@);
    while i < len
        invariant
            i <= len == regions@.len(),
            spec_first_usable(regions@) == spec_first_usable(regions@.skip(i as int)),
        decreases len - i,
    {
        let region: MemoryRegion = regions[i];
        assert(regions@.skip(i as int).first() == regions@[i as int]);
        assert(regions@.skip(i as int).drop_first() =~= regions@.skip(i + 1));
        match region.kind {
            MemoryRegionKind::Usable => {
                return Some(region);
            },
            _ => {},
        }
        i += 1;
    }
    None
}

/// Decides where the heap starts.
pub fn heap_base(regions: &[MemoryRegion], physical_offset: u64) -> (base: Option<usize>)
    ensures
        base == spec_heap_base(regions@, physical_offset),
{
    match first_usable(regions) {
        Some(region) => match physical_offset.checked_add(region.start) {
            Some(address) => if address <= usize::MAX as u64 {
                Some(address as usize)
            } else {
                None
            },
            None => None,
        },
        None => None,
    }
}

} // verus!
