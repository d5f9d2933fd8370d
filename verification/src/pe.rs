//! The on-disk records of a 32-bit PE image, as plain values.
//!
//! Field names and widths follow the PE headers. Nothing here is validated:
//! a record holds whatever the bytes it was decoded from said.

use vstd::prelude::*;

verus! {

/// "MZ", the first two bytes of every DOS executable.
pub const IMAGE_DOS_SIGNATURE: u16 = 0x5A4D;

/// "NE"
pub const IMAGE_OS2_SIGNATURE: u16 = 0x454E;

/// "LE"
pub const IMAGE_OS2_SIGNATURE_LE: u16 = 0x454C;

/// "LX"
pub const IMAGE_OS2_SIGNATURE_LX: u16 = 0x584C;

/// "LE"
pub const IMAGE_VXD_SIGNATURE: u16 = 0x454C;

/// "PE\0\0", the first four bytes of the NT headers.
pub const IMAGE_NT_SIGNATURE: u32 = 0x00004550;

/// Bytes in a section name.
pub const IMAGE_SIZEOF_SHORT_NAME: usize = 8;

/// Entries in the data directory table of the optional header.
pub const IMAGE_NUMBEROF_DIRECTORY_ENTRIES: usize = 16;

/// Bytes of a DOS header on disk.
pub const IMAGE_SIZEOF_DOS_HEADER: usize = 64;

/// Bytes of a file header on disk.
pub const IMAGE_SIZEOF_FILE_HEADER: usize = 20;

/// Bytes of a data directory entry on disk.
pub const IMAGE_SIZEOF_DATA_DIRECTORY: usize = 8;

/// Bytes of the optional header as this model lays it out. The size that an
/// image declares for its own optional header may differ.
pub const IMAGE_SIZEOF_OPTIONAL_HEADER: usize = 224;

/// Bytes of signature, file header and modelled optional header together.
pub const IMAGE_SIZEOF_NT_HEADERS: usize = 248;

/// Bytes of a section header on disk.
pub const IMAGE_SIZEOF_SECTION_HEADER: usize = 40;

/// A capability of a section. Each stands for one bit of the section's
/// characteristics word.
#[derive(Clone, Copy, Debug, PartialEq, Eq, Structural)]
pub enum CUST_Image_Section_Flags {
    IMAGE_SCN_CNT_CODE,
    IMAGE_SCN_CNT_INITIALIZED_DATA,
    IMAGE_SCN_CNT_UNINITIALIZED_DATA,
    IMAGE_SCN_MEM_EXECUTE,
    IMAGE_SCN_MEM_READ,
    IMAGE_SCN_MEM_WRITE,
}

impl CUST_Image_Section_Flags {
    /// The position of the flag's bit, counted from the least significant.
    pub open spec fn bit_index(self) -> nat {
        match self {
            CUST_Image_Section_Flags::IMAGE_SCN_CNT_CODE => 0x05,
            CUST_Image_Section_Flags::IMAGE_SCN_CNT_INITIALIZED_DATA => 0x06,
            CUST_Image_Section_Flags::IMAGE_SCN_CNT_UNINITIALIZED_DATA => 0x07,
            CUST_Image_Section_Flags::IMAGE_SCN_MEM_EXECUTE => 0x1D,
            CUST_Image_Section_Flags::IMAGE_SCN_MEM_READ => 0x1E,
            CUST_Image_Section_Flags::IMAGE_SCN_MEM_WRITE => 0x1F,
        }
    }

    /// The characteristics word in which only this flag's bit is set.
    pub open spec fn mask(self) -> u32 {
        match self {
            CUST_Image_Section_Flags::IMAGE_SCN_CNT_CODE => 0x00000020,
            CUST_Image_Section_Flags::IMAGE_SCN_CNT_INITIALIZED_DATA => 0x00000040,
            CUST_Image_Section_Flags::IMAGE_SCN_CNT_UNINITIALIZED_DATA => 0x00000080,
            CUST_Image_Section_Flags::IMAGE_SCN_MEM_EXECUTE => 0x20000000,
            CUST_Image_Section_Flags::IMAGE_SCN_MEM_READ => 0x40000000,
            CUST_Image_Section_Flags::IMAGE_SCN_MEM_WRITE => 0x80000000,
        }
    }

    /// The position of the flag's bit.
    pub fn to_uint(&self) -> (r: usize)
        ensures
            r == self.bit_index(),
    {
        match self {
            CUST_Image_Section_Flags::IMAGE_SCN_CNT_CODE => 0x05,
            CUST_Image_Section_Flags::IMAGE_SCN_CNT_INITIALIZED_DATA => 0x06,
            CUST_Image_Section_Flags::IMAGE_SCN_CNT_UNINITIALIZED_DATA => 0x07,
            CUST_Image_Section_Flags::IMAGE_SCN_MEM_EXECUTE => 0x1D,
            CUST_Image_Section_Flags::IMAGE_SCN_MEM_READ => 0x1E,
            CUST_Image_Section_Flags::IMAGE_SCN_MEM_WRITE => 0x1F,
        }
    }

    /// The flag whose bit is at position `u`, if there is one.
    pub fn from_uint(u: usize) -> (r: Option<CUST_Image_Section_Flags>)
        ensures
            match r {
                Some(flag) => flag.bit_index() == u,
                None => forall|flag: CUST_Image_Section_Flags| flag.bit_index() != u,
            },
    {
        if u == 0x05 {
            Some(CUST_Image_Section_Flags::IMAGE_SCN_CNT_CODE)
        } else if u == 0x06 {
            Some(CUST_Image_Section_Flags::IMAGE_SCN_CNT_INITIALIZED_DATA)
        } else if u == 0x07 {
            Some(CUST_Image_Section_Flags::IMAGE_SCN_CNT_UNINITIALIZED_DATA)
        } else if u == 0x1D {
            Some(CUST_Image_Section_Flags::IMAGE_SCN_MEM_EXECUTE)
        } else if u == 0x1E {
            Some(CUST_Image_Section_Flags::IMAGE_SCN_MEM_READ)
        } else if u == 0x1F {
            Some(CUST_Image_Section_Flags::IMAGE_SCN_MEM_WRITE)
        } else {
            None
        }
    }

    /// The characteristics word in which only this flag's bit is set.
    pub fn to_mask(&self) -> (r: u32)
        ensures
            r == self.mask(),
            r == 1u32 << (self.bit_index() as u32),
    {
        assert(0x00000020u32 == 1u32 << 0x05u32) by (bit_vector);
        assert(0x00000040u32 == 1u32 << 0x06u32) by (bit_vector);
        assert(0x00000080u32 == 1u32 << 0x07u32) by (bit_vector);
        assert(0x20000000u32 == 1u32 << 0x1Du32) by (bit_vector);
        assert(0x40000000u32 == 1u32 << 0x1Eu32) by (bit_vector);
        assert(0x80000000u32 == 1u32 << 0x1Fu32) by (bit_vector);
        match self {
            CUST_Image_Section_Flags::IMAGE_SCN_CNT_CODE => 0x00000020,
            CUST_Image_Section_Flags::IMAGE_SCN_CNT_INITIALIZED_DATA => 0x00000040,
            CUST_Image_Section_Flags::IMAGE_SCN_CNT_UNINITIALIZED_DATA => 0x00000080,
            CUST_Image_Section_Flags::IMAGE_SCN_MEM_EXECUTE => 0x20000000,
            CUST_Image_Section_Flags::IMAGE_SCN_MEM_READ => 0x40000000,
            CUST_Image_Section_Flags::IMAGE_SCN_MEM_WRITE => 0x80000000,
        }
    }
}

/// Whether the bit of `flag` is set in a characteristics word.
pub open spec fn has_flag(characteristics: u32, flag: CUST_Image_Section_Flags) -> bool {
    characteristics & flag.mask() != 0
}

/// The capabilities that a characteristics word grants: a set of flags.
#[derive(Clone, Copy, Debug, PartialEq, Eq)]
pub struct SectionFlagSet {
    bits: u32,
}

impl View for SectionFlagSet {
    type V = Set<CUST_Image_Section_Flags>;

    closed spec fn view(&self) -> Set<CUST_Image_Section_Flags> {
        Set::new(|flag: CUST_Image_Section_Flags| has_flag(self.bits, flag))
    }
}

impl SectionFlagSet {
    /// The set of the flags whose bits are set in `characteristics`. Bits
    /// that belong to no flag are ignored.
    pub fn from_characteristics(characteristics: u32) -> (r: SectionFlagSet)
        ensures
            forall|flag: CUST_Image_Section_Flags|
                r@.contains(flag) <==> has_flag(characteristics, flag),
    {
        SectionFlagSet { bits: characteristics }
    }

    /// Whether `flag` is in the set.
    pub fn contains_elem(&self, flag: CUST_Image_Section_Flags) -> (r: bool)
        ensures
            r == self@.contains(flag),
    {
        self.bits & flag.to_mask() != 0
    }
}

/// Names for the entries of the data directory table.
#[derive(Clone, Copy, Debug, PartialEq, Eq, Structural)]
pub enum CUST_Image_Directory_Entry_Type {
    IMAGE_DIRECTORY_ENTRY_EXPORT,
    IMAGE_DIRECTORY_ENTRY_IMPORT,
    IMAGE_DIRECTORY_ENTRY_RESOURCE,
    IMAGE_DIRECTORY_ENTRY_EXCEPTION,
    IMAGE_DIRECTORY_ENTRY_SECURITY,
    IMAGE_DIRECTORY_ENTRY_BASERELOC,
    IMAGE_DIRECTORY_ENTRY_DEBUG,
    IMAGE_DIRECTORY_ENTRY_ARCHITECTURE,
    IMAGE_DIRECTORY_ENTRY_GLOBALPTR,
    IMAGE_DIRECTORY_ENTRY_TLS,
    IMAGE_DIRECTORY_ENTRY_LOAD_CONFIG,
    IMAGE_DIRECTORY_ENTRY_BOUND_IMPORT,
    IMAGE_DIRECTORY_ENTRY_IAT,
    IMAGE_DIRECTORY_ENTRY_DELAY_IMPORT,
    IMAGE_DIRECTORY_ENTRY_COM_DESCRIPTOR,
}

impl CUST_Image_Directory_Entry_Type {
    /// The entry's place in the data directory table.
    pub open spec fn position(self) -> nat {
        match self {
            CUST_Image_Directory_Entry_Type::IMAGE_DIRECTORY_ENTRY_EXPORT => 0,
            CUST_Image_Directory_Entry_Type::IMAGE_DIRECTORY_ENTRY_IMPORT => 1,
            CUST_Image_Directory_Entry_Type::IMAGE_DIRECTORY_ENTRY_RESOURCE => 2,
            CUST_Image_Directory_Entry_Type::IMAGE_DIRECTORY_ENTRY_EXCEPTION => 3,
            CUST_Image_Directory_Entry_Type::IMAGE_DIRECTORY_ENTRY_SECURITY => 4,
            CUST_Image_Directory_Entry_Type::IMAGE_DIRECTORY_ENTRY_BASERELOC => 5,
            CUST_Image_Directory_Entry_Type::IMAGE_DIRECTORY_ENTRY_DEBUG => 6,
            CUST_Image_Directory_Entry_Type::IMAGE_DIRECTORY_ENTRY_ARCHITECTURE => 7,
            CUST_Image_Directory_Entry_Type::IMAGE_DIRECTORY_ENTRY_GLOBALPTR => 8,
            CUST_Image_Directory_Entry_Type::IMAGE_DIRECTORY_ENTRY_TLS => 9,
            CUST_Image_Directory_Entry_Type::IMAGE_DIRECTORY_ENTRY_LOAD_CONFIG => 10,
            CUST_Image_Directory_Entry_Type::IMAGE_DIRECTORY_ENTRY_BOUND_IMPORT => 11,
            CUST_Image_Directory_Entry_Type::IMAGE_DIRECTORY_ENTRY_IAT => 12,
            CUST_Image_Directory_Entry_Type::IMAGE_DIRECTORY_ENTRY_DELAY_IMPORT => 13,
            CUST_Image_Directory_Entry_Type::IMAGE_DIRECTORY_ENTRY_COM_DESCRIPTOR => 14,
        }
    }

    /// The entry's place in the data directory table.
    pub fn to_position(&self) -> (r: usize)
        ensures
            r == self.position(),
            r < IMAGE_NUMBEROF_DIRECTORY_ENTRIES,
    {
        match self {
            CUST_Image_Directory_Entry_Type::IMAGE_DIRECTORY_ENTRY_EXPORT => 0,
            CUST_Image_Directory_Entry_Type::IMAGE_DIRECTORY_ENTRY_IMPORT => 1,
            CUST_Image_Directory_Entry_Type::IMAGE_DIRECTORY_ENTRY_RESOURCE => 2,
            CUST_Image_Directory_Entry_Type::IMAGE_DIRECTORY_ENTRY_EXCEPTION => 3,
            CUST_Image_Directory_Entry_Type::IMAGE_DIRECTORY_ENTRY_SECURITY => 4,
            CUST_Image_Directory_Entry_Type::IMAGE_DIRECTORY_ENTRY_BASERELOC => 5,
            CUST_Image_Directory_Entry_Type::IMAGE_DIRECTORY_ENTRY_DEBUG => 6,
            CUST_Image_Directory_Entry_Type::IMAGE_DIRECTORY_ENTRY_ARCHITECTURE => 7,
            CUST_Image_Directory_Entry_Type::IMAGE_DIRECTORY_ENTRY_GLOBALPTR => 8,
            CUST_Image_Directory_Entry_Type::IMAGE_DIRECTORY_ENTRY_TLS => 9,
            CUST_Image_Directory_Entry_Type::IMAGE_DIRECTORY_ENTRY_LOAD_CONFIG => 10,
            CUST_Image_Directory_Entry_Type::IMAGE_DIRECTORY_ENTRY_BOUND_IMPORT => 11,
            CUST_Image_Directory_Entry_Type::IMAGE_DIRECTORY_ENTRY_IAT => 12,
            CUST_Image_Directory_Entry_Type::IMAGE_DIRECTORY_ENTRY_DELAY_IMPORT => 13,
            CUST_Image_Directory_Entry_Type::IMAGE_DIRECTORY_ENTRY_COM_DESCRIPTOR => 14,
        }
    }
}

/// The entry of the data directory table that `i` names.
pub fn index<'a>(
    i: CUST_Image_Directory_Entry_Type,
    arr: &'a [IMAGE_DATA_DIRECTORY; IMAGE_NUMBEROF_DIRECTORY_ENTRIES],
) -> (r: &'a IMAGE_DATA_DIRECTORY)
    ensures
        *r == arr[i.position() as int],
{
    &arr[i.to_position()]
}

/// Where the first section header lies, counted in bytes from the start of
/// the NT headers: behind the signature, the file header and as many bytes
/// of optional header as the file header declares.
#[allow(non_snake_case)]
pub fn IMAGE_FIRST_SECTION(h: &IMAGE_NT_HEADERS) -> (r: u32)
    ensures
        r == first_section_offset(*h),
{
    24 + h.FileHeader.SizeOfOptionalHeader as u32
}

/// Where the first section header lies, counted in bytes from the start of
/// the NT headers.
pub open spec fn first_section_offset(h: IMAGE_NT_HEADERS) -> int {
    4 + IMAGE_SIZEOF_FILE_HEADER + h.FileHeader.SizeOfOptionalHeader
}

/// The DOS stub header at the start of the file.
#[derive(Clone, Copy, Debug, PartialEq, Eq)]
pub struct IMAGE_DOS_HEADER {
    pub e_magic: u16,
    pub e_cblp: u16,
    pub e_cp: u16,
    pub e_crlc: u16,
    pub e_cparhdr: u16,
    pub e_minalloc: u16,
    pub e_maxalloc: u16,
    pub e_ss: u16,
    pub e_sp: u16,
    pub e_csum: u16,
    pub e_ip: u16,
    pub e_cs: u16,
    pub e_lfarlc: u16,
    pub e_ovno: u16,
    pub e_res: [u16; 4],
    pub e_oemid: u16,
    pub e_oeminfo: u16,
    pub e_res2: [u16; 10],
    /// File offset of the NT headers.
    pub e_lfanew: u32,
}

#[derive(Clone, Copy, Debug, PartialEq, Eq)]
pub struct IMAGE_FILE_HEADER {
    pub Machine: u16,
    pub NumberOfSections: u16,
    pub TimeDateStamp: u32,
    pub PointerToSymbolTable: u32,
    pub NumberOfSymbols: u32,
    /// The length in bytes that the optional header has in this file.
    pub SizeOfOptionalHeader: u16,
    pub Characteristics: u16,
}

#[derive(Clone, Copy, Debug, PartialEq, Eq)]
pub struct IMAGE_DATA_DIRECTORY {
    pub VirtualAddress: u32,
    pub Size: u32,
}

#[derive(Clone, Copy, Debug, PartialEq, Eq)]
pub struct IMAGE_OPTIONAL_HEADER {
    pub Magic: u16,
    pub MajorLinkerVersion: u8,
    pub MinorLinkerVersion: u8,
    pub SizeOfCode: u32,
    pub SizeOfInitializedData: u32,
    pub SizeOfUninitializedData: u32,
    pub AddressOfEntryPoint: u32,
    pub BaseOfCode: u32,
    pub BaseOfData: u32,
    pub ImageBase: u32,
    pub SectionAlignment: u32,
    pub FileAlignment: u32,
    pub MajorOperatingSystemVersion: u16,
    pub MinorOperatingSystemVersion: u16,
    pub MajorImageVersion: u16,
    pub MinorImageVersion: u16,
    pub MajorSubsystemVersion: u16,
    pub MinorSubsystemVersion: u16,
    pub Win32VersionValue: u32,
    pub SizeOfImage: u32,
    pub SizeOfHeaders: u32,
    pub CheckSum: u32,
    pub Subsystem: u16,
    pub DllCharacteristics: u16,
    pub SizeOfStackReserve: u32,
    pub SizeOfStackCommit: u32,
    pub SizeOfHeapReserve: u32,
    pub SizeOfHeapCommit: u32,
    pub LoaderFlags: u32,
    pub NumberOfRvaAndSizes: u32,
    pub DataDirectory: [IMAGE_DATA_DIRECTORY; IMAGE_NUMBEROF_DIRECTORY_ENTRIES],
}

#[derive(Clone, Copy, Debug, PartialEq, Eq)]
pub struct IMAGE_NT_HEADERS {
    pub Signature: u32,
    pub FileHeader: IMAGE_FILE_HEADER,
    pub OptionalHeader: IMAGE_OPTIONAL_HEADER,
}

#[derive(Clone, Copy, Debug, PartialEq, Eq)]
pub struct IMAGE_SECTION_HEADER {
    /// Eight raw bytes: shorter names are padded with zero bytes, and the
    /// bytes need not be text.
    pub Name: [u8; IMAGE_SIZEOF_SHORT_NAME],
    /// Used here as the section's size in memory.
    pub PhysAddrORVirtSize: u32,
    pub VirtualAddress: u32,
    pub SizeOfRawData: u32,
    pub PointerToRawData: u32,
    pub PointerToRelocations: u32,
    pub PointerToLinenumbers: u32,
    pub NumberOfRelocations: u16,
    pub NumberOfLinenumbers: u16,
    pub Characteristics: u32,
}

} // verus!
