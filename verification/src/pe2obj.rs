//! Turning an image into something laid out like an object file: what
//! follows the NT signature, with the raw-data pointers of the sections
//! counted from there.

use vstd::prelude::*;
use crate::bytes::read_u32;
use crate::error::PeError;
use crate::pe::{has_flag, CUST_Image_Section_Flags, IMAGE_SECTION_HEADER, SectionFlagSet};
use crate::reader::{
    headers_error, headers_of, nt_offset, read_headers, validate, validate_spec,
};
use crate::writer::{write_headers, write_headers_spec};

verus! {

/// Whether the section holds uninitialised data and no initialised data, so
/// that nothing of it is in the file.
pub open spec fn only_uninitialized(section: IMAGE_SECTION_HEADER) -> bool {
    has_flag(
        section.Characteristics,
        CUST_Image_Section_Flags::IMAGE_SCN_CNT_UNINITIALIZED_DATA,
    ) && !has_flag(
        section.Characteristics,
        CUST_Image_Section_Flags::IMAGE_SCN_CNT_INITIALIZED_DATA,
    )
}

/// The section header with its raw data counted from `header_start`: a
/// section with nothing in the file points nowhere and has no raw size; any
/// other keeps its size and has its pointer, unless it is zero, moved back
/// by `header_start`, within 32 bits.
pub open spec fn rebased(section: IMAGE_SECTION_HEADER, header_start: u32) -> IMAGE_SECTION_HEADER {
    if only_uninitialized(section) {
        IMAGE_SECTION_HEADER { PointerToRawData: 0, SizeOfRawData: 0, ..section }
    } else if section.PointerToRawData == 0 {
        section
    } else {
        IMAGE_SECTION_HEADER {
            PointerToRawData: ((section.PointerToRawData - header_start) % 0x1_0000_0000) as u32,
            ..section
        }
    }
}

/// The section table with every header rebased.
pub open spec fn rebased_table(
    sections: Seq<IMAGE_SECTION_HEADER>,
    header_start: u32,
) -> Seq<IMAGE_SECTION_HEADER> {
    Seq::new(sections.len(), |i: int| rebased(sections[i], header_start))
}

/// Rebases every header of a section table.
pub fn rebase_sections(sections: &mut Vec<IMAGE_SECTION_HEADER>, header_start: u32)
    ensures
        final(sections)@ == rebased_table(old(sections)@, header_start),
{
    let mut i: usize = 0;
    while i < sections.len()
        invariant
            i <= sections.len(),
            sections.len() == old(sections).len(),
            forall|j: int| 0 <= j < i ==> sections@[j] == rebased(old(sections)@[j], header_start),
            forall|j: int| i <= j < sections.len() ==> sections@[j] == old(sections)@[j],
        decreases sections.len() - i,
    {
        let mut section = sections[i];
        let flags = SectionFlagSet::from_characteristics(section.Characteristics);
        if flags.contains_elem(CUST_Image_Section_Flags::IMAGE_SCN_CNT_UNINITIALIZED_DATA)
            && !flags.contains_elem(CUST_Image_Section_Flags::IMAGE_SCN_CNT_INITIALIZED_DATA) {
            section.PointerToRawData = 0;
            section.SizeOfRawData = 0;
        } else if section.PointerToRawData != 0 {
            let moved: u64 = (section.PointerToRawData as u64 + 0x1_0000_0000
                - header_start as u64) % 0x1_0000_0000;
            section.PointerToRawData = moved as u32;
        }
        sections.set(i, section);
        i = i + 1;
    }
    assert(sections@ =~= rebased_table(old(sections)@, header_start));
}

/// Where the output begins in the image: behind the NT signature.
pub open spec fn header_start(s: Seq<u8>) -> int {
    nt_offset(s) + 4
}

/// What `pe2obj` makes of the image `s`.
pub open spec fn pe2obj_spec(s: Seq<u8>) -> Result<Seq<u8>, PeError> {
    if validate_spec(s) is Err {
        Err(validate_spec(s)->Err_0)
    } else if headers_error(s) is Some {
        Err(headers_error(s)->Some_0)
    } else {
        match write_headers_spec(
            s,
            headers_of(s).0,
            rebased_table(headers_of(s).1, (header_start(s) % 0x1_0000_0000) as u32),
        ) {
            Ok(written) => Ok(written.skip(header_start(s))),
            Err(e) => Err(e),
        }
    }
}

/// Makes the object-like file of an image: the image from behind the NT
/// signature on, with the section table rebased to that start. The file
/// header, the optional header and the section table keep their places
/// relative to each other, and all that follows them is carried over as it
/// is. The image itself is not changed.
pub fn pe2obj(image: &[u8]) -> (r: Result<Vec<u8>, PeError>)
    ensures
        match pe2obj_spec(image@) {
            Ok(out) => r matches Ok(v) && v@ == out,
            Err(e) => r == Err::<Vec<u8>, PeError>(e),
        },
{
    validate(image)?;
    let (nt, mut sections) = read_headers(image)?;
    let start: u64 = read_u32(image, 60) as u64 + 4;
    rebase_sections(&mut sections, (start % 0x1_0000_0000) as u32);
    let mut work: Vec<u8> = Vec::new();
    let mut i: usize = 0;
    while i < image.len()
        invariant
            i <= image.len(),
            work@ == image@.subrange(0, i as int),
        decreases image.len() - i,
    {
        work.push(image[i]);
        assert(work@ =~= image@.subrange(0, i + 1));
        i = i + 1;
    }
    assert(work@ =~= image@);
    write_headers(&mut work, &nt, sections.as_slice())?;
    let mut out: Vec<u8> = Vec::new();
    let mut k: usize = start as usize;
    assert(work@.skip(start as int).subrange(0, 0) =~= out@);
    while k < work.len()
        invariant
            start <= k <= work.len(),
            out@ == work@.skip(start as int).subrange(0, k - start),
        decreases work.len() - k,
    {
        out.push(work[k]);
        assert(out@ =~= work@.skip(start as int).subrange(0, k + 1 - start));
        k = k + 1;
    }
    assert(out@ =~= work@.skip(start as int));
    Ok(out)
}

} // verus!
