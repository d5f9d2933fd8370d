//! From an address in the running image to a place in the file.
//!
//! A section holds an address when the address lies in the section's
//! raw-data extent as mapped at run time: from `VirtualAddress + ImageBase`
//! on, for `SizeOfRawData` bytes. The extent is taken from the raw size, not
//! from the virtual size, because what is looked for is a place in the file.
//! Sums are taken over the integers: an extent that would pass the end of
//! the 32-bit address space holds no address beyond it, and none wraps.

use vstd::prelude::*;
use crate::error::PeError;
use crate::pe::IMAGE_SECTION_HEADER;

verus! {

/// A place in the file: the section that holds it, by its index in the
/// section table, and the offset from the start of the file.
#[derive(Clone, Copy, Debug, PartialEq, Eq)]
pub struct Location {
    pub section: usize,
    pub offset: u64,
}

/// The address at which the section's raw data begins at run time.
pub open spec fn runtime_base(section: IMAGE_SECTION_HEADER, image_base: u32) -> int {
    section.VirtualAddress + image_base
}

/// Whether `address` lies in the section's raw data at run time.
pub open spec fn section_covers(
    section: IMAGE_SECTION_HEADER,
    image_base: u32,
    address: u32,
) -> bool {
    runtime_base(section, image_base) <= address < runtime_base(section, image_base)
        + section.SizeOfRawData
}

/// Where in the file the byte at `address` lies, for a section that holds
/// the address.
pub open spec fn file_offset(section: IMAGE_SECTION_HEADER, image_base: u32, address: u32) -> int {
    address - runtime_base(section, image_base) + section.PointerToRawData
}

/// The index of the first section from `from` on that holds `address`.
pub open spec fn owning_section_from(
    sections: Seq<IMAGE_SECTION_HEADER>,
    image_base: u32,
    address: u32,
    from: int,
) -> Option<int>
    decreases sections.len() - from,
{
    if from < 0 || from >= sections.len() {
        None
    } else if section_covers(sections[from], image_base, address) {
        Some(from)
    } else {
        owning_section_from(sections, image_base, address, from + 1)
    }
}

/// The index of the first section that holds `address`.
pub open spec fn owning_section(
    sections: Seq<IMAGE_SECTION_HEADER>,
    image_base: u32,
    address: u32,
) -> Option<int> {
    owning_section_from(sections, image_base, address, 0)
}

/// What `translate` answers.
pub open spec fn translate_spec(
    address: u32,
    image_base: u32,
    sections: Seq<IMAGE_SECTION_HEADER>,
) -> Result<Location, PeError> {
    match owning_section(sections, image_base, address) {
        Some(i) => Ok(
            (Location {
                section: i as usize,
                offset: file_offset(sections[i], image_base, address) as u64,
            }),
        ),
        None => Err(PeError::AddressOutOfBounds { address }),
    }
}

/// The first section from `from` on that holds the address does hold it,
/// and none between `from` and it does; where there is none, no section
/// from `from` on holds the address.
pub proof fn lemma_owning_section_from(
    sections: Seq<IMAGE_SECTION_HEADER>,
    image_base: u32,
    address: u32,
    from: int,
)
    requires
        0 <= from,
    ensures
        match owning_section_from(sections, image_base, address, from) {
            Some(i) => from <= i < sections.len() && section_covers(
                sections[i],
                image_base,
                address,
            ) && forall|j: int| from <= j < i ==> !section_covers(sections[j], image_base, address),
            None => forall|j: int|
                from <= j < sections.len() ==> !section_covers(sections[j], image_base, address),
        },
    decreases sections.len() - from,
{
    if from < sections.len() && !section_covers(sections[from], image_base, address) {
        lemma_owning_section_from(sections, image_base, address, from + 1);
    }
}

/// Finds the section that holds `address` and the place in the file where
/// the byte at that address lies. Where several sections hold the address,
/// the first in the table counts.
pub fn translate(address: u32, image_base: u32, sections: &[IMAGE_SECTION_HEADER]) -> (r: Result<
    Location,
    PeError,
>)
    ensures
        r == translate_spec(address, image_base, sections@),
        match r {
            Ok(place) => {
                &&& place.section < sections.len()
                &&& section_covers(sections[place.section as int], image_base, address)
                &&& forall|j: int|
                    0 <= j < place.section ==> !section_covers(sections[j], image_base, address)
                &&& place.offset == file_offset(
                    sections[place.section as int],
                    image_base,
                    address,
                )
                &&& sections[place.section as int].PointerToRawData <= place.offset
                    < sections[place.section as int].PointerToRawData
                    + sections[place.section as int].SizeOfRawData
            },
            Err(e) => {
                &&& e == PeError::AddressOutOfBounds { address }
                &&& forall|j: int|
                    0 <= j < sections.len() ==> !section_covers(sections[j], image_base, address)
            },
        },
{
    let mut i: usize = 0;
    while i < sections.len()
        invariant
            i <= sections.len(),
            owning_section(sections@, image_base, address) == owning_section_from(
                sections@,
                image_base,
                address,
                i as int,
            ),
        decreases sections.len() - i,
    {
        let base: u64 = sections[i].VirtualAddress as u64 + image_base as u64;
        let end: u64 = base + sections[i].SizeOfRawData as u64;
        if base <= address as u64 && (address as u64) < end {
            let offset: u64 = address as u64 - base + sections[i].PointerToRawData as u64;
            proof {
                lemma_owning_section_from(sections@, image_base, address, 0);
            }
            return Ok(Location { section: i, offset });
        }
        i = i + 1;
    }
    proof {
        lemma_owning_section_from(sections@, image_base, address, 0);
    }
    Err(PeError::AddressOutOfBounds { address })
}

/// An address that a section holds, and that no section before it in the
/// table holds, is translated to that section and to an offset inside the
/// section's raw data in the file.
pub proof fn lemma_translate_covered(
    address: u32,
    image_base: u32,
    sections: Seq<IMAGE_SECTION_HEADER>,
    i: int,
)
    requires
        0 <= i < sections.len(),
        sections.len() <= usize::MAX,
        section_covers(sections[i], image_base, address),
        forall|j: int| 0 <= j < i ==> !section_covers(sections[j], image_base, address),
    ensures
        translate_spec(address, image_base, sections) matches Ok(place) && place.section == i
            && sections[i].PointerToRawData <= place.offset < sections[i].PointerToRawData
            + sections[i].SizeOfRawData,
{
    lemma_owning_section_from(sections, image_base, address, 0);
}

/// An address that no section holds is not translated.
pub proof fn lemma_translate_uncovered(
    address: u32,
    image_base: u32,
    sections: Seq<IMAGE_SECTION_HEADER>,
)
    requires
        forall|j: int| 0 <= j < sections.len() ==> !section_covers(sections[j], image_base, address),
    ensures
        translate_spec(address, image_base, sections) == Err::<Location, PeError>(
            PeError::AddressOutOfBounds { address },
        ),
{
    lemma_owning_section_from(sections, image_base, address, 0);
}

} // verus!
