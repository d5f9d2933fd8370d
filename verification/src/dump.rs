//! The table of sections that the `dump` command shows.

use vstd::prelude::*;
use crate::error::PeError;
use crate::pe::{
    has_flag, CUST_Image_Section_Flags, IMAGE_DATA_DIRECTORY, IMAGE_NT_HEADERS,
    IMAGE_SECTION_HEADER, SectionFlagSet,
};
use crate::reader::{headers_error, headers_of, read_headers, validate, validate_spec};
use crate::text::{is_name_text, section_name_text};

verus! {

/// The letter shown for a capability that a section lacks: `-`.
pub const LETTER_NONE: u8 = 0x2D;

/// One line of the table.
#[derive(Debug, PartialEq, Eq)]
pub struct SectionRow {
    /// The section's name as text.
    pub name: String,
    /// Where the raw data begins in the file.
    pub start: u32,
    /// Where the raw data ends in the file.
    pub end: u64,
    /// The length of the raw data.
    pub length: u32,
    /// The address of the section at run time.
    pub vaddr: u64,
    /// The size of the section in memory.
    pub vsize: u32,
    /// Six letters, `rwxciu`, each replaced by `-` where the section lacks
    /// the capability.
    pub flags: [u8; 6],
}

/// What `dump` reports of an image.
#[derive(Debug, PartialEq, Eq)]
pub struct DumpReport {
    /// One row for each section, in the order of the section table.
    pub rows: Vec<SectionRow>,
    /// The import directory, where the optional header counts it in.
    pub import_table: Option<IMAGE_DATA_DIRECTORY>,
}

/// The flag that the letter at place `k` of a row stands for, and the
/// letter.
pub open spec fn letter_flag(k: int) -> (CUST_Image_Section_Flags, u8) {
    if k == 0 {
        (CUST_Image_Section_Flags::IMAGE_SCN_MEM_READ, 0x72u8)
    } else if k == 1 {
        (CUST_Image_Section_Flags::IMAGE_SCN_MEM_WRITE, 0x77u8)
    } else if k == 2 {
        (CUST_Image_Section_Flags::IMAGE_SCN_MEM_EXECUTE, 0x78u8)
    } else if k == 3 {
        (CUST_Image_Section_Flags::IMAGE_SCN_CNT_CODE, 0x63u8)
    } else if k == 4 {
        (CUST_Image_Section_Flags::IMAGE_SCN_CNT_INITIALIZED_DATA, 0x69u8)
    } else {
        (CUST_Image_Section_Flags::IMAGE_SCN_CNT_UNINITIALIZED_DATA, 0x75u8)
    }
}

/// The letter at place `k` for a characteristics word.
pub open spec fn flag_letter(characteristics: u32, k: int) -> u8 {
    if has_flag(characteristics, letter_flag(k).0) {
        letter_flag(k).1
    } else {
        LETTER_NONE
    }
}

/// The row is the row of the section.
pub open spec fn is_row_of(row: SectionRow, section: IMAGE_SECTION_HEADER, image_base: u32) -> bool {
    &&& is_name_text(section.Name@, row.name@)
    &&& row.start == section.PointerToRawData
    &&& row.end == section.PointerToRawData + section.SizeOfRawData
    &&& row.length == section.SizeOfRawData
    &&& row.vaddr == section.VirtualAddress + image_base
    &&& row.vsize == section.PhysAddrORVirtSize
    &&& forall|k: int| 0 <= k < 6 ==> #[trigger] row.flags[k] == flag_letter(
        section.Characteristics,
        k,
    )
}

/// The report is the report of the headers.
pub open spec fn is_report_of(
    report: DumpReport,
    nt: IMAGE_NT_HEADERS,
    sections: Seq<IMAGE_SECTION_HEADER>,
) -> bool {
    &&& report.rows@.len() == sections.len()
    &&& forall|i: int|
        0 <= i < sections.len() ==> is_row_of(
            #[trigger] report.rows@[i],
            sections[i],
            nt.OptionalHeader.ImageBase,
        )
    &&& report.import_table == (if nt.OptionalHeader.NumberOfRvaAndSizes >= 2 {
        Some(nt.OptionalHeader.DataDirectory[1])
    } else {
        None
    })
}

/// The six letters of a characteristics word.
pub fn flag_letters(characteristics: u32) -> (r: [u8; 6])
    ensures
        forall|k: int| 0 <= k < 6 ==> #[trigger] r[k] == flag_letter(characteristics, k),
{
    let flags = SectionFlagSet::from_characteristics(characteristics);
    let mut r = [LETTER_NONE; 6];
    if flags.contains_elem(CUST_Image_Section_Flags::IMAGE_SCN_MEM_READ) {
        r[0] = 0x72;
    }
    if flags.contains_elem(CUST_Image_Section_Flags::IMAGE_SCN_MEM_WRITE) {
        r[1] = 0x77;
    }
    if flags.contains_elem(CUST_Image_Section_Flags::IMAGE_SCN_MEM_EXECUTE) {
        r[2] = 0x78;
    }
    if flags.contains_elem(CUST_Image_Section_Flags::IMAGE_SCN_CNT_CODE) {
        r[3] = 0x63;
    }
    if flags.contains_elem(CUST_Image_Section_Flags::IMAGE_SCN_CNT_INITIALIZED_DATA) {
        r[4] = 0x69;
    }
    if flags.contains_elem(CUST_Image_Section_Flags::IMAGE_SCN_CNT_UNINITIALIZED_DATA) {
        r[5] = 0x75;
    }
    r
}

/// The row of a section.
pub fn section_row(section: &IMAGE_SECTION_HEADER, image_base: u32) -> (r: SectionRow)
    ensures
        is_row_of(r, *section, image_base),
{
    SectionRow {
        name: section_name_text(section),
        start: section.PointerToRawData,
        end: section.PointerToRawData as u64 + section.SizeOfRawData as u64,
        length: section.SizeOfRawData,
        vaddr: section.VirtualAddress as u64 + image_base as u64,
        vsize: section.PhysAddrORVirtSize,
        flags: flag_letters(section.Characteristics),
    }
}

/// Reports the sections of an image and, where the optional header counts
/// at least two data directories, the import directory.
pub fn dump(image: &[u8]) -> (r: Result<DumpReport, PeError>)
    ensures
        validate_spec(image@) is Err ==> r == Err::<DumpReport, PeError>(
            validate_spec(image@)->Err_0,
        ),
        validate_spec(image@) is Ok && headers_error(image@) is Some ==> r == Err::<
            DumpReport,
            PeError,
        >(headers_error(image@)->Some_0),
        validate_spec(image@) is Ok && headers_error(image@) is None ==> (r matches Ok(report)
            && is_report_of(report, headers_of(image@).0, headers_of(image@).1)),
{
    validate(image)?;
    let (nt, sections) = read_headers(image)?;
    let mut rows: Vec<SectionRow> = Vec::new();
    let mut i: usize = 0;
    while i < sections.len()
        invariant
            i <= sections.len(),
            rows@.len() == i,
            forall|j: int|
                0 <= j < i ==> is_row_of(
                    #[trigger] rows@[j],
                    sections@[j],
                    nt.OptionalHeader.ImageBase,
                ),
        decreases sections.len() - i,
    {
        rows.push(section_row(&sections[i], nt.OptionalHeader.ImageBase));
        i = i + 1;
    }
    let import_table = if nt.OptionalHeader.NumberOfRvaAndSizes >= 2 {
        Some(nt.OptionalHeader.DataDirectory[1])
    } else {
        None
    };
    Ok(DumpReport { rows, import_table })
}

} // verus!
