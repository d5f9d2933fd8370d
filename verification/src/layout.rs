//! How each record lies on disk: field by field for reading, and as one run
//! of bytes for writing.
//!
//! For every record `stored_at(s, off)` says that the record is what the
//! bytes of `s` from `off` on decode to, and `bytes()` is the record's
//! encoding. A record stored somewhere encodes to exactly the bytes it is
//! stored in.

use vstd::prelude::*;
use vstd::array::spec_array_update;
use crate::bytes::{le_u16, le_u32, u16_bytes, u32_bytes, read_u16, read_u32, push_u16, push_u32};
use crate::bytes::{lemma_field_bytes_len, lemma_le_u16_encode, lemma_le_u32_encode};
use crate::bytes::{lemma_u16_bytes_decode, lemma_u32_bytes_decode};
use crate::pe::{
    IMAGE_DATA_DIRECTORY, IMAGE_DOS_HEADER, IMAGE_FILE_HEADER, IMAGE_NT_HEADERS,
    IMAGE_NUMBEROF_DIRECTORY_ENTRIES, IMAGE_OPTIONAL_HEADER, IMAGE_SECTION_HEADER,
    IMAGE_SIZEOF_SHORT_NAME,
};

verus! {

/// Appending in two steps is appending the two pieces joined.
pub proof fn lemma_append_twice(base: Seq<u8>, first: Seq<u8>, second: Seq<u8>)
    ensures
        (base + first) + second == base + (first + second),
{
    assert((base + first) + second =~= base + (first + second));
}

/// A prefix of a stored record, extended by a 16-bit field, is the longer
/// prefix.
pub proof fn lemma_extend_u16(s: Seq<u8>, off: int, p: int, prefix: Seq<u8>, v: u16)
    requires
        0 <= off,
        0 <= p,
        off + p + 2 <= s.len(),
        prefix == s.subrange(off, off + p),
        v == le_u16(s, off + p),
    ensures
        prefix + u16_bytes(v) == s.subrange(off, off + p + 2),
{
    lemma_le_u16_encode(s, off + p);
    assert(prefix + u16_bytes(v) =~= s.subrange(off, off + p + 2));
}

/// A prefix of a stored record, extended by a 32-bit field, is the longer
/// prefix.
pub proof fn lemma_extend_u32(s: Seq<u8>, off: int, p: int, prefix: Seq<u8>, v: u32)
    requires
        0 <= off,
        0 <= p,
        off + p + 4 <= s.len(),
        prefix == s.subrange(off, off + p),
        v == le_u32(s, off + p),
    ensures
        prefix + u32_bytes(v) == s.subrange(off, off + p + 4),
{
    lemma_le_u32_encode(s, off + p);
    assert(prefix + u32_bytes(v) =~= s.subrange(off, off + p + 4));
}

/// A prefix of a stored record, extended by the bytes that follow it, is the
/// longer prefix.
pub proof fn lemma_extend_bytes(s: Seq<u8>, off: int, p: int, prefix: Seq<u8>, next: Seq<u8>)
    requires
        0 <= off,
        0 <= p,
        off + p + next.len() <= s.len(),
        prefix == s.subrange(off, off + p),
        next == s.subrange(off + p, off + p + next.len()),
    ensures
        prefix + next == s.subrange(off, off + p + next.len()),
{
    assert(prefix + next =~= s.subrange(off, off + p + next.len()));
}

/// A prefix of a stored record, extended by a one-byte field, is the longer
/// prefix.
pub proof fn lemma_extend_u8(s: Seq<u8>, off: int, p: int, prefix: Seq<u8>, v: u8)
    requires
        0 <= off,
        0 <= p,
        off + p + 1 <= s.len(),
        prefix == s.subrange(off, off + p),
        v == s[off + p],
    ensures
        prefix + seq![v] == s.subrange(off, off + p + 1),
{
    assert(prefix + seq![v] =~= s.subrange(off, off + p + 1));
}

impl IMAGE_DATA_DIRECTORY {
    /// The eight bytes of the entry on disk.
    pub open spec fn bytes(self) -> Seq<u8> {
        u32_bytes(self.VirtualAddress) + u32_bytes(self.Size)
    }

    /// The encoding is 8 bytes long.
    pub proof fn lemma_bytes_len(self)
        ensures
            self.bytes().len() == 8,
    {
        lemma_field_bytes_len();
    }

    /// The entry is what the eight bytes of `s` from `off` on decode to.
    pub open spec fn stored_at(self, s: Seq<u8>, off: int) -> bool {
        &&& self.VirtualAddress == le_u32(s, off)
        &&& self.Size == le_u32(s, off + 4)
    }

    /// A stored entry encodes to the bytes it is stored in.
    pub proof fn lemma_bytes_of_stored(self, s: Seq<u8>, off: int)
        requires
            0 <= off,
            off + 8 <= s.len(),
            self.stored_at(s, off),
        ensures
            self.bytes() == s.subrange(off, off + 8),
    {
        lemma_le_u32_encode(s, off);
        lemma_extend_u32(s, off, 4, u32_bytes(self.VirtualAddress), self.Size);
    }

    /// Decodes the entry stored at `off`.
    pub fn decode(s: &[u8], off: usize) -> (r: IMAGE_DATA_DIRECTORY)
        requires
            off + 8 <= s.len(),
        ensures
            r.stored_at(s@, off as int),
    {
        IMAGE_DATA_DIRECTORY { VirtualAddress: read_u32(s, off), Size: read_u32(s, off + 4) }
    }

    /// Appends the entry's encoding.
    pub fn encode(&self, out: &mut Vec<u8>)
        ensures
            final(out)@ == old(out)@ + self.bytes(),
    {
        push_u32(out, self.VirtualAddress);
        push_u32(out, self.Size);
        assert(out@ =~= old(out)@ + self.bytes());
    }
}

/// The 128 bytes of a data directory table on disk: its sixteen entries one
/// after the other.
pub open spec fn directory_table_bytes(table: Seq<IMAGE_DATA_DIRECTORY>) -> Seq<u8> {
    Seq::new(128, |i: int| table[i / 8].bytes()[i % 8])
}

/// Every entry of `table` is what is stored at its place in the table that
/// begins at `off`.
pub open spec fn directory_table_stored_at(
    table: Seq<IMAGE_DATA_DIRECTORY>,
    s: Seq<u8>,
    off: int,
) -> bool {
    &&& table.len() == IMAGE_NUMBEROF_DIRECTORY_ENTRIES
    &&& forall|k: int|
        0 <= k < IMAGE_NUMBEROF_DIRECTORY_ENTRIES ==> (#[trigger] table[k]).stored_at(
            s,
            off + 8 * k,
        )
}

/// A stored table encodes to the bytes it is stored in.
pub proof fn lemma_directory_table_bytes_of_stored(
    table: Seq<IMAGE_DATA_DIRECTORY>,
    s: Seq<u8>,
    off: int,
)
    requires
        0 <= off,
        off + 128 <= s.len(),
        directory_table_stored_at(table, s, off),
    ensures
        directory_table_bytes(table) == s.subrange(off, off + 128),
{
    assert forall|i: int| 0 <= i < 128 implies directory_table_bytes(table)[i] == s[off + i] by {
        let k = i / 8;
        assert(table[k].stored_at(s, off + 8 * k));
        table[k].lemma_bytes_of_stored(s, off + 8 * k);
        assert(table[k].bytes()[i % 8] == s.subrange(off + 8 * k, off + 8 * k + 8)[i % 8]);
    }
    assert(directory_table_bytes(table) =~= s.subrange(off, off + 128));
}

impl IMAGE_FILE_HEADER {
    /// The twenty bytes of the header on disk.
    pub open spec fn bytes(self) -> Seq<u8> {
        u16_bytes(self.Machine) + u16_bytes(self.NumberOfSections) + u32_bytes(self.TimeDateStamp)
            + u32_bytes(self.PointerToSymbolTable) + u32_bytes(self.NumberOfSymbols) + u16_bytes(
            self.SizeOfOptionalHeader,
        ) + u16_bytes(self.Characteristics)
    }

    /// The encoding is 20 bytes long.
    pub proof fn lemma_bytes_len(self)
        ensures
            self.bytes().len() == 20,
    {
        lemma_field_bytes_len();
    }

    /// The header is what the twenty bytes of `s` from `off` on decode to.
    pub open spec fn stored_at(self, s: Seq<u8>, off: int) -> bool {
        &&& self.Machine == le_u16(s, off)
        &&& self.NumberOfSections == le_u16(s, off + 2)
        &&& self.TimeDateStamp == le_u32(s, off + 4)
        &&& self.PointerToSymbolTable == le_u32(s, off + 8)
        &&& self.NumberOfSymbols == le_u32(s, off + 12)
        &&& self.SizeOfOptionalHeader == le_u16(s, off + 16)
        &&& self.Characteristics == le_u16(s, off + 18)
    }

    /// A stored header encodes to the bytes it is stored in.
    pub proof fn lemma_bytes_of_stored(self, s: Seq<u8>, off: int)
        requires
            0 <= off,
            off + 20 <= s.len(),
            self.stored_at(s, off),
        ensures
            self.bytes() == s.subrange(off, off + 20),
    {
        lemma_le_u16_encode(s, off);
        let run1 = u16_bytes(self.Machine);
        lemma_extend_u16(s, off, 2, run1, self.NumberOfSections);
        let run2 = run1 + u16_bytes(self.NumberOfSections);
        lemma_extend_u32(s, off, 4, run2, self.TimeDateStamp);
        let run3 = run2 + u32_bytes(self.TimeDateStamp);
        lemma_extend_u32(s, off, 8, run3, self.PointerToSymbolTable);
        let run4 = run3 + u32_bytes(self.PointerToSymbolTable);
        lemma_extend_u32(s, off, 12, run4, self.NumberOfSymbols);
        let run5 = run4 + u32_bytes(self.NumberOfSymbols);
        lemma_extend_u16(s, off, 16, run5, self.SizeOfOptionalHeader);
        let run6 = run5 + u16_bytes(self.SizeOfOptionalHeader);
        lemma_extend_u16(s, off, 18, run6, self.Characteristics);
    }

    /// Decodes the header stored at `off`.
    pub fn decode(s: &[u8], off: usize) -> (r: IMAGE_FILE_HEADER)
        requires
            off + 20 <= s.len(),
        ensures
            r.stored_at(s@, off as int),
    {
        IMAGE_FILE_HEADER {
            Machine: read_u16(s, off),
            NumberOfSections: read_u16(s, off + 2),
            TimeDateStamp: read_u32(s, off + 4),
            PointerToSymbolTable: read_u32(s, off + 8),
            NumberOfSymbols: read_u32(s, off + 12),
            SizeOfOptionalHeader: read_u16(s, off + 16),
            Characteristics: read_u16(s, off + 18),
        }
    }

    /// Appends the header's encoding.
    pub fn encode(&self, out: &mut Vec<u8>)
        ensures
            final(out)@ == old(out)@ + self.bytes(),
    {
        push_u16(out, self.Machine);
        push_u16(out, self.NumberOfSections);
        push_u32(out, self.TimeDateStamp);
        push_u32(out, self.PointerToSymbolTable);
        push_u32(out, self.NumberOfSymbols);
        push_u16(out, self.SizeOfOptionalHeader);
        push_u16(out, self.Characteristics);
        assert(out@ =~= old(out)@ + self.bytes());
    }
}

impl IMAGE_SECTION_HEADER {
    /// The forty bytes of the header on disk.
    pub open spec fn bytes(self) -> Seq<u8> {
        self.Name@ + u32_bytes(self.PhysAddrORVirtSize) + u32_bytes(self.VirtualAddress)
            + u32_bytes(self.SizeOfRawData) + u32_bytes(self.PointerToRawData) + u32_bytes(
            self.PointerToRelocations,
        ) + u32_bytes(self.PointerToLinenumbers) + u16_bytes(self.NumberOfRelocations)
            + u16_bytes(self.NumberOfLinenumbers) + u32_bytes(self.Characteristics)
    }

    /// The encoding is 40 bytes long.
    pub proof fn lemma_bytes_len(self)
        ensures
            self.bytes().len() == 40,
    {
        lemma_field_bytes_len();
    }

    /// The header is what the forty bytes of `s` from `off` on decode to.
    pub open spec fn stored_at(self, s: Seq<u8>, off: int) -> bool {
        &&& self.Name@ == s.subrange(off, off + 8)
        &&& self.PhysAddrORVirtSize == le_u32(s, off + 8)
        &&& self.VirtualAddress == le_u32(s, off + 12)
        &&& self.SizeOfRawData == le_u32(s, off + 16)
        &&& self.PointerToRawData == le_u32(s, off + 20)
        &&& self.PointerToRelocations == le_u32(s, off + 24)
        &&& self.PointerToLinenumbers == le_u32(s, off + 28)
        &&& self.NumberOfRelocations == le_u16(s, off + 32)
        &&& self.NumberOfLinenumbers == le_u16(s, off + 34)
        &&& self.Characteristics == le_u32(s, off + 36)
    }

    /// A stored header encodes to the bytes it is stored in.
    pub proof fn lemma_bytes_of_stored(self, s: Seq<u8>, off: int)
        requires
            0 <= off,
            off + 40 <= s.len(),
            self.stored_at(s, off),
        ensures
            self.bytes() == s.subrange(off, off + 40),
    {
        let run1 = self.Name@;
        lemma_extend_u32(s, off, 8, run1, self.PhysAddrORVirtSize);
        let run2 = run1 + u32_bytes(self.PhysAddrORVirtSize);
        lemma_extend_u32(s, off, 12, run2, self.VirtualAddress);
        let run3 = run2 + u32_bytes(self.VirtualAddress);
        lemma_extend_u32(s, off, 16, run3, self.SizeOfRawData);
        let run4 = run3 + u32_bytes(self.SizeOfRawData);
        lemma_extend_u32(s, off, 20, run4, self.PointerToRawData);
        let run5 = run4 + u32_bytes(self.PointerToRawData);
        lemma_extend_u32(s, off, 24, run5, self.PointerToRelocations);
        let run6 = run5 + u32_bytes(self.PointerToRelocations);
        lemma_extend_u32(s, off, 28, run6, self.PointerToLinenumbers);
        let run7 = run6 + u32_bytes(self.PointerToLinenumbers);
        lemma_extend_u16(s, off, 32, run7, self.NumberOfRelocations);
        let run8 = run7 + u16_bytes(self.NumberOfRelocations);
        lemma_extend_u16(s, off, 34, run8, self.NumberOfLinenumbers);
        let run9 = run8 + u16_bytes(self.NumberOfLinenumbers);
        lemma_extend_u32(s, off, 36, run9, self.Characteristics);
    }

    /// Decodes the header stored at `off`.
    pub fn decode(s: &[u8], off: usize) -> (r: IMAGE_SECTION_HEADER)
        requires
            off + 40 <= s.len(),
        ensures
            r.stored_at(s@, off as int),
    {
        let mut name = [0u8; IMAGE_SIZEOF_SHORT_NAME];
        let mut k: usize = 0;
        while k < 8
            invariant
                k <= 8,
                off + 40 <= s.len(),
                forall|j: int| 0 <= j < k ==> name[j] == s[off + j],
            decreases 8 - k,
        {
            name[k] = s[off + k];
            k = k + 1;
        }
        assert(name@ =~= s@.subrange(off as int, off + 8));
        IMAGE_SECTION_HEADER {
            Name: name,
            PhysAddrORVirtSize: read_u32(s, off + 8),
            VirtualAddress: read_u32(s, off + 12),
            SizeOfRawData: read_u32(s, off + 16),
            PointerToRawData: read_u32(s, off + 20),
            PointerToRelocations: read_u32(s, off + 24),
            PointerToLinenumbers: read_u32(s, off + 28),
            NumberOfRelocations: read_u16(s, off + 32),
            NumberOfLinenumbers: read_u16(s, off + 34),
            Characteristics: read_u32(s, off + 36),
        }
    }

    /// Appends the header's encoding.
    pub fn encode(&self, out: &mut Vec<u8>)
        ensures
            final(out)@ == old(out)@ + self.bytes(),
    {
        let mut k: usize = 0;
        while k < 8
            invariant
                k <= 8,
                out@ == old(out)@ + self.Name@.subrange(0, k as int),
            decreases 8 - k,
        {
            out.push(self.Name[k]);
            k = k + 1;
            assert(out@ =~= old(out)@ + self.Name@.subrange(0, k as int));
        }
        assert(self.Name@.subrange(0, 8) =~= self.Name@);
        push_u32(out, self.PhysAddrORVirtSize);
        push_u32(out, self.VirtualAddress);
        push_u32(out, self.SizeOfRawData);
        push_u32(out, self.PointerToRawData);
        push_u32(out, self.PointerToRelocations);
        push_u32(out, self.PointerToLinenumbers);
        push_u16(out, self.NumberOfRelocations);
        push_u16(out, self.NumberOfLinenumbers);
        push_u32(out, self.Characteristics);
        assert(out@ =~= old(out)@ + self.bytes());
    }
}

impl IMAGE_OPTIONAL_HEADER {
    /// The 96 bytes of the fields in front of the data directory table.
    #[verifier::opaque]
    pub open spec fn scalar_bytes(self) -> Seq<u8> {
        u16_bytes(self.Magic)
            + seq![self.MajorLinkerVersion]
            + seq![self.MinorLinkerVersion]
            + u32_bytes(self.SizeOfCode)
            + u32_bytes(self.SizeOfInitializedData)
            + u32_bytes(self.SizeOfUninitializedData)
            + u32_bytes(self.AddressOfEntryPoint)
            + u32_bytes(self.BaseOfCode)
            + u32_bytes(self.BaseOfData)
            + u32_bytes(self.ImageBase)
            + u32_bytes(self.SectionAlignment)
            + u32_bytes(self.FileAlignment)
            + u16_bytes(self.MajorOperatingSystemVersion)
            + u16_bytes(self.MinorOperatingSystemVersion)
            + u16_bytes(self.MajorImageVersion)
            + u16_bytes(self.MinorImageVersion)
            + u16_bytes(self.MajorSubsystemVersion)
            + u16_bytes(self.MinorSubsystemVersion)
            + u32_bytes(self.Win32VersionValue)
            + u32_bytes(self.SizeOfImage)
            + u32_bytes(self.SizeOfHeaders)
            + u32_bytes(self.CheckSum)
            + u16_bytes(self.Subsystem)
            + u16_bytes(self.DllCharacteristics)
            + u32_bytes(self.SizeOfStackReserve)
            + u32_bytes(self.SizeOfStackCommit)
            + u32_bytes(self.SizeOfHeapReserve)
            + u32_bytes(self.SizeOfHeapCommit)
            + u32_bytes(self.LoaderFlags)
            + u32_bytes(self.NumberOfRvaAndSizes)
    }

    /// The 224 bytes of the header on disk.
    pub open spec fn bytes(self) -> Seq<u8> {
        self.scalar_bytes() + directory_table_bytes(self.DataDirectory@)
    }

    /// The encoding is 224 bytes long.
    pub proof fn lemma_bytes_len(self)
        ensures
            self.scalar_bytes().len() == 96,
            self.bytes().len() == 224,
    {
        lemma_field_bytes_len();
        reveal(IMAGE_OPTIONAL_HEADER::scalar_bytes);
    }

    /// The header is what the 224 bytes of `s` from `off` on decode to.
    #[verifier::opaque]
    pub open spec fn stored_at(self, s: Seq<u8>, off: int) -> bool {
        &&& self.Magic == le_u16(s, off)
        &&& self.MajorLinkerVersion == s[off + 2]
        &&& self.MinorLinkerVersion == s[off + 3]
        &&& self.SizeOfCode == le_u32(s, off + 4)
        &&& self.SizeOfInitializedData == le_u32(s, off + 8)
        &&& self.SizeOfUninitializedData == le_u32(s, off + 12)
        &&& self.AddressOfEntryPoint == le_u32(s, off + 16)
        &&& self.BaseOfCode == le_u32(s, off + 20)
        &&& self.BaseOfData == le_u32(s, off + 24)
        &&& self.ImageBase == le_u32(s, off + 28)
        &&& self.SectionAlignment == le_u32(s, off + 32)
        &&& self.FileAlignment == le_u32(s, off + 36)
        &&& self.MajorOperatingSystemVersion == le_u16(s, off + 40)
        &&& self.MinorOperatingSystemVersion == le_u16(s, off + 42)
        &&& self.MajorImageVersion == le_u16(s, off + 44)
        &&& self.MinorImageVersion == le_u16(s, off + 46)
        &&& self.MajorSubsystemVersion == le_u16(s, off + 48)
        &&& self.MinorSubsystemVersion == le_u16(s, off + 50)
        &&& self.Win32VersionValue == le_u32(s, off + 52)
        &&& self.SizeOfImage == le_u32(s, off + 56)
        &&& self.SizeOfHeaders == le_u32(s, off + 60)
        &&& self.CheckSum == le_u32(s, off + 64)
        &&& self.Subsystem == le_u16(s, off + 68)
        &&& self.DllCharacteristics == le_u16(s, off + 70)
        &&& self.SizeOfStackReserve == le_u32(s, off + 72)
        &&& self.SizeOfStackCommit == le_u32(s, off + 76)
        &&& self.SizeOfHeapReserve == le_u32(s, off + 80)
        &&& self.SizeOfHeapCommit == le_u32(s, off + 84)
        &&& self.LoaderFlags == le_u32(s, off + 88)
        &&& self.NumberOfRvaAndSizes == le_u32(s, off + 92)
        &&& directory_table_stored_at(self.DataDirectory@, s, off + 96)
    }

    /// The fields of a stored header in front of the data directory table
    /// encode to the bytes they are stored in.
    pub proof fn lemma_scalar_bytes_of_stored(self, s: Seq<u8>, off: int)
        requires
            0 <= off,
            off + 96 <= s.len(),
            self.stored_at(s, off),
        ensures
            self.scalar_bytes() == s.subrange(off, off + 96),
    {
        reveal(IMAGE_OPTIONAL_HEADER::scalar_bytes);
        reveal(IMAGE_OPTIONAL_HEADER::stored_at);
        lemma_le_u16_encode(s, off);
        let run1 = u16_bytes(self.Magic);
        lemma_extend_u8(s, off, 2, run1, self.MajorLinkerVersion);
        let run2 = run1 + seq![self.MajorLinkerVersion];
        lemma_extend_u8(s, off, 3, run2, self.MinorLinkerVersion);
        let run3 = run2 + seq![self.MinorLinkerVersion];
        lemma_extend_u32(s, off, 4, run3, self.SizeOfCode);
        let run4 = run3 + u32_bytes(self.SizeOfCode);
        lemma_extend_u32(s, off, 8, run4, self.SizeOfInitializedData);
        let run5 = run4 + u32_bytes(self.SizeOfInitializedData);
        lemma_extend_u32(s, off, 12, run5, self.SizeOfUninitializedData);
        let run6 = run5 + u32_bytes(self.SizeOfUninitializedData);
        lemma_extend_u32(s, off, 16, run6, self.AddressOfEntryPoint);
        let run7 = run6 + u32_bytes(self.AddressOfEntryPoint);
        lemma_extend_u32(s, off, 20, run7, self.BaseOfCode);
        let run8 = run7 + u32_bytes(self.BaseOfCode);
        lemma_extend_u32(s, off, 24, run8, self.BaseOfData);
        let run9 = run8 + u32_bytes(self.BaseOfData);
        lemma_extend_u32(s, off, 28, run9, self.ImageBase);
        let run10 = run9 + u32_bytes(self.ImageBase);
        lemma_extend_u32(s, off, 32, run10, self.SectionAlignment);
        let run11 = run10 + u32_bytes(self.SectionAlignment);
        lemma_extend_u32(s, off, 36, run11, self.FileAlignment);
        let run12 = run11 + u32_bytes(self.FileAlignment);
        lemma_extend_u16(s, off, 40, run12, self.MajorOperatingSystemVersion);
        let run13 = run12 + u16_bytes(self.MajorOperatingSystemVersion);
        lemma_extend_u16(s, off, 42, run13, self.MinorOperatingSystemVersion);
        let run14 = run13 + u16_bytes(self.MinorOperatingSystemVersion);
        lemma_extend_u16(s, off, 44, run14, self.MajorImageVersion);
        let run15 = run14 + u16_bytes(self.MajorImageVersion);
        lemma_extend_u16(s, off, 46, run15, self.MinorImageVersion);
        let run16 = run15 + u16_bytes(self.MinorImageVersion);
        lemma_extend_u16(s, off, 48, run16, self.MajorSubsystemVersion);
        let run17 = run16 + u16_bytes(self.MajorSubsystemVersion);
        lemma_extend_u16(s, off, 50, run17, self.MinorSubsystemVersion);
        let run18 = run17 + u16_bytes(self.MinorSubsystemVersion);
        lemma_extend_u32(s, off, 52, run18, self.Win32VersionValue);
        let run19 = run18 + u32_bytes(self.Win32VersionValue);
        lemma_extend_u32(s, off, 56, run19, self.SizeOfImage);
        let run20 = run19 + u32_bytes(self.SizeOfImage);
        lemma_extend_u32(s, off, 60, run20, self.SizeOfHeaders);
        let run21 = run20 + u32_bytes(self.SizeOfHeaders);
        lemma_extend_u32(s, off, 64, run21, self.CheckSum);
        let run22 = run21 + u32_bytes(self.CheckSum);
        lemma_extend_u16(s, off, 68, run22, self.Subsystem);
        let run23 = run22 + u16_bytes(self.Subsystem);
        lemma_extend_u16(s, off, 70, run23, self.DllCharacteristics);
        let run24 = run23 + u16_bytes(self.DllCharacteristics);
        lemma_extend_u32(s, off, 72, run24, self.SizeOfStackReserve);
        let run25 = run24 + u32_bytes(self.SizeOfStackReserve);
        lemma_extend_u32(s, off, 76, run25, self.SizeOfStackCommit);
        let run26 = run25 + u32_bytes(self.SizeOfStackCommit);
        lemma_extend_u32(s, off, 80, run26, self.SizeOfHeapReserve);
        let run27 = run26 + u32_bytes(self.SizeOfHeapReserve);
        lemma_extend_u32(s, off, 84, run27, self.SizeOfHeapCommit);
        let run28 = run27 + u32_bytes(self.SizeOfHeapCommit);
        lemma_extend_u32(s, off, 88, run28, self.LoaderFlags);
        let run29 = run28 + u32_bytes(self.LoaderFlags);
        lemma_extend_u32(s, off, 92, run29, self.NumberOfRvaAndSizes);
        let run30 = run29 + u32_bytes(self.NumberOfRvaAndSizes);
    }

    /// A stored header encodes to the bytes it is stored in.
    pub proof fn lemma_bytes_of_stored(self, s: Seq<u8>, off: int)
        requires
            0 <= off,
            off + 224 <= s.len(),
            self.stored_at(s, off),
        ensures
            self.bytes() == s.subrange(off, off + 224),
    {
        assert(directory_table_stored_at(self.DataDirectory@, s, off + 96)) by {
            reveal(IMAGE_OPTIONAL_HEADER::stored_at);
        }
        self.lemma_scalar_bytes_of_stored(s, off);
        lemma_directory_table_bytes_of_stored(self.DataDirectory@, s, off + 96);
        lemma_extend_bytes(
            s,
            off,
            96,
            self.scalar_bytes(),
            directory_table_bytes(self.DataDirectory@),
        );
    }

    /// Decodes the header stored at `off`.
    pub fn decode(s: &[u8], off: usize) -> (r: IMAGE_OPTIONAL_HEADER)
        requires
            off + 224 <= s.len(),
        ensures
            r.stored_at(s@, off as int),
    {
        let mut table = [IMAGE_DATA_DIRECTORY { VirtualAddress: 0, Size: 0 };
            IMAGE_NUMBEROF_DIRECTORY_ENTRIES];
        let mut k: usize = 0;
        while k < 16
            invariant
                k <= 16,
                off + 224 <= s.len(),
                forall|j: int| 0 <= j < k ==> (#[trigger] table[j]).stored_at(s@, off + 96 + 8 * j),
            decreases 16 - k,
        {
            table[k] = IMAGE_DATA_DIRECTORY::decode(s, off + 96 + 8 * k);
            k = k + 1;
        }
        proof {
            reveal(IMAGE_OPTIONAL_HEADER::stored_at);
        }
        IMAGE_OPTIONAL_HEADER {
            Magic: read_u16(s, off),
            MajorLinkerVersion: s[off + 2],
            MinorLinkerVersion: s[off + 3],
            SizeOfCode: read_u32(s, off + 4),
            SizeOfInitializedData: read_u32(s, off + 8),
            SizeOfUninitializedData: read_u32(s, off + 12),
            AddressOfEntryPoint: read_u32(s, off + 16),
            BaseOfCode: read_u32(s, off + 20),
            BaseOfData: read_u32(s, off + 24),
            ImageBase: read_u32(s, off + 28),
            SectionAlignment: read_u32(s, off + 32),
            FileAlignment: read_u32(s, off + 36),
            MajorOperatingSystemVersion: read_u16(s, off + 40),
            MinorOperatingSystemVersion: read_u16(s, off + 42),
            MajorImageVersion: read_u16(s, off + 44),
            MinorImageVersion: read_u16(s, off + 46),
            MajorSubsystemVersion: read_u16(s, off + 48),
            MinorSubsystemVersion: read_u16(s, off + 50),
            Win32VersionValue: read_u32(s, off + 52),
            SizeOfImage: read_u32(s, off + 56),
            SizeOfHeaders: read_u32(s, off + 60),
            CheckSum: read_u32(s, off + 64),
            Subsystem: read_u16(s, off + 68),
            DllCharacteristics: read_u16(s, off + 70),
            SizeOfStackReserve: read_u32(s, off + 72),
            SizeOfStackCommit: read_u32(s, off + 76),
            SizeOfHeapReserve: read_u32(s, off + 80),
            SizeOfHeapCommit: read_u32(s, off + 84),
            LoaderFlags: read_u32(s, off + 88),
            NumberOfRvaAndSizes: read_u32(s, off + 92),
            DataDirectory: table,
        }
    }

    /// Appends the encoding of the fields in front of the data directory
    /// table.
    fn encode_scalars(&self, out: &mut Vec<u8>)
        ensures
            final(out)@ == old(out)@ + self.scalar_bytes(),
    {
        let ghost base = out@;
        push_u16(out, self.Magic);
        let ghost mut p = u16_bytes(self.Magic);
        out.push(self.MajorLinkerVersion);
        proof {
            lemma_append_twice(base, p, seq![self.MajorLinkerVersion]);
            p = p + seq![self.MajorLinkerVersion];
        }
        out.push(self.MinorLinkerVersion);
        proof {
            lemma_append_twice(base, p, seq![self.MinorLinkerVersion]);
            p = p + seq![self.MinorLinkerVersion];
        }
        push_u32(out, self.SizeOfCode);
        proof {
            lemma_append_twice(base, p, u32_bytes(self.SizeOfCode));
            p = p + u32_bytes(self.SizeOfCode);
        }
        push_u32(out, self.SizeOfInitializedData);
        proof {
            lemma_append_twice(base, p, u32_bytes(self.SizeOfInitializedData));
            p = p + u32_bytes(self.SizeOfInitializedData);
        }
        push_u32(out, self.SizeOfUninitializedData);
        proof {
            lemma_append_twice(base, p, u32_bytes(self.SizeOfUninitializedData));
            p = p + u32_bytes(self.SizeOfUninitializedData);
        }
        push_u32(out, self.AddressOfEntryPoint);
        proof {
            lemma_append_twice(base, p, u32_bytes(self.AddressOfEntryPoint));
            p = p + u32_bytes(self.AddressOfEntryPoint);
        }
        push_u32(out, self.BaseOfCode);
        proof {
            lemma_append_twice(base, p, u32_bytes(self.BaseOfCode));
            p = p + u32_bytes(self.BaseOfCode);
        }
        push_u32(out, self.BaseOfData);
        proof {
            lemma_append_twice(base, p, u32_bytes(self.BaseOfData));
            p = p + u32_bytes(self.BaseOfData);
        }
        push_u32(out, self.ImageBase);
        proof {
            lemma_append_twice(base, p, u32_bytes(self.ImageBase));
            p = p + u32_bytes(self.ImageBase);
        }
        push_u32(out, self.SectionAlignment);
        proof {
            lemma_append_twice(base, p, u32_bytes(self.SectionAlignment));
            p = p + u32_bytes(self.SectionAlignment);
        }
        push_u32(out, self.FileAlignment);
        proof {
            lemma_append_twice(base, p, u32_bytes(self.FileAlignment));
            p = p + u32_bytes(self.FileAlignment);
        }
        push_u16(out, self.MajorOperatingSystemVersion);
        proof {
            lemma_append_twice(base, p, u16_bytes(self.MajorOperatingSystemVersion));
            p = p + u16_bytes(self.MajorOperatingSystemVersion);
        }
        push_u16(out, self.MinorOperatingSystemVersion);
        proof {
            lemma_append_twice(base, p, u16_bytes(self.MinorOperatingSystemVersion));
            p = p + u16_bytes(self.MinorOperatingSystemVersion);
        }
        push_u16(out, self.MajorImageVersion);
        proof {
            lemma_append_twice(base, p, u16_bytes(self.MajorImageVersion));
            p = p + u16_bytes(self.MajorImageVersion);
        }
        push_u16(out, self.MinorImageVersion);
        proof {
            lemma_append_twice(base, p, u16_bytes(self.MinorImageVersion));
            p = p + u16_bytes(self.MinorImageVersion);
        }
        push_u16(out, self.MajorSubsystemVersion);
        proof {
            lemma_append_twice(base, p, u16_bytes(self.MajorSubsystemVersion));
            p = p + u16_bytes(self.MajorSubsystemVersion);
        }
        push_u16(out, self.MinorSubsystemVersion);
        proof {
            lemma_append_twice(base, p, u16_bytes(self.MinorSubsystemVersion));
            p = p + u16_bytes(self.MinorSubsystemVersion);
        }
        push_u32(out, self.Win32VersionValue);
        proof {
            lemma_append_twice(base, p, u32_bytes(self.Win32VersionValue));
            p = p + u32_bytes(self.Win32VersionValue);
        }
        push_u32(out, self.SizeOfImage);
        proof {
            lemma_append_twice(base, p, u32_bytes(self.SizeOfImage));
            p = p + u32_bytes(self.SizeOfImage);
        }
        push_u32(out, self.SizeOfHeaders);
        proof {
            lemma_append_twice(base, p, u32_bytes(self.SizeOfHeaders));
            p = p + u32_bytes(self.SizeOfHeaders);
        }
        push_u32(out, self.CheckSum);
        proof {
            lemma_append_twice(base, p, u32_bytes(self.CheckSum));
            p = p + u32_bytes(self.CheckSum);
        }
        push_u16(out, self.Subsystem);
        proof {
            lemma_append_twice(base, p, u16_bytes(self.Subsystem));
            p = p + u16_bytes(self.Subsystem);
        }
        push_u16(out, self.DllCharacteristics);
        proof {
            lemma_append_twice(base, p, u16_bytes(self.DllCharacteristics));
            p = p + u16_bytes(self.DllCharacteristics);
        }
        push_u32(out, self.SizeOfStackReserve);
        proof {
            lemma_append_twice(base, p, u32_bytes(self.SizeOfStackReserve));
            p = p + u32_bytes(self.SizeOfStackReserve);
        }
        push_u32(out, self.SizeOfStackCommit);
        proof {
            lemma_append_twice(base, p, u32_bytes(self.SizeOfStackCommit));
            p = p + u32_bytes(self.SizeOfStackCommit);
        }
        push_u32(out, self.SizeOfHeapReserve);
        proof {
            lemma_append_twice(base, p, u32_bytes(self.SizeOfHeapReserve));
            p = p + u32_bytes(self.SizeOfHeapReserve);
        }
        push_u32(out, self.SizeOfHeapCommit);
        proof {
            lemma_append_twice(base, p, u32_bytes(self.SizeOfHeapCommit));
            p = p + u32_bytes(self.SizeOfHeapCommit);
        }
        push_u32(out, self.LoaderFlags);
        proof {
            lemma_append_twice(base, p, u32_bytes(self.LoaderFlags));
            p = p + u32_bytes(self.LoaderFlags);
        }
        push_u32(out, self.NumberOfRvaAndSizes);
        proof {
            lemma_append_twice(base, p, u32_bytes(self.NumberOfRvaAndSizes));
            p = p + u32_bytes(self.NumberOfRvaAndSizes);
        }
        assert(p == self.scalar_bytes()) by {
            reveal(IMAGE_OPTIONAL_HEADER::scalar_bytes);
        }
    }

    /// Appends the encoding of the data directory table.
    fn encode_table(&self, out: &mut Vec<u8>)
        ensures
            final(out)@ == old(out)@ + directory_table_bytes(self.DataDirectory@),
    {
        let ghost base = out@;
        let ghost table = directory_table_bytes(self.DataDirectory@);
        let mut k: usize = 0;
        assert(out@ =~= base + table.subrange(0, 0));
        while k < 16
            invariant
                k <= 16,
                table == directory_table_bytes(self.DataDirectory@),
                out@ == base + table.subrange(0, 8 * k),
            decreases 16 - k,
        {
            self.DataDirectory[k].encode(out);
            proof {
                let entry = self.DataDirectory[k as int].bytes();
                self.DataDirectory[k as int].lemma_bytes_len();
                assert forall|i: int| 0 <= i < 8 implies entry[i] == table[8 * k + i] by {
                    assert((8 * k + i) / 8 == k);
                    assert((8 * k + i) % 8 == i);
                }
                assert(table.subrange(0, 8 * k) + entry =~= table.subrange(0, 8 * (k + 1)));
                lemma_append_twice(base, table.subrange(0, 8 * k), entry);
            }
            k = k + 1;
        }
        assert(table.subrange(0, 128) =~= table);
    }

    /// Appends the header's encoding.
    pub fn encode(&self, out: &mut Vec<u8>)
        ensures
            final(out)@ == old(out)@ + self.bytes(),
    {
        self.encode_scalars(out);
        self.encode_table(out);
        proof {
            lemma_append_twice(
                old(out)@,
                self.scalar_bytes(),
                directory_table_bytes(self.DataDirectory@),
            );
        }
    }
}

impl IMAGE_NT_HEADERS {
    /// The 248 bytes of signature, file header and optional header on disk.
    pub open spec fn bytes(self) -> Seq<u8> {
        u32_bytes(self.Signature) + self.FileHeader.bytes() + self.OptionalHeader.bytes()
    }

    /// The encoding is 248 bytes long.
    pub proof fn lemma_bytes_len(self)
        ensures
            self.bytes().len() == 248,
    {
        lemma_field_bytes_len();
        self.FileHeader.lemma_bytes_len();
        self.OptionalHeader.lemma_bytes_len();
    }

    /// The headers are what the 248 bytes of `s` from `off` on decode to.
    pub open spec fn stored_at(self, s: Seq<u8>, off: int) -> bool {
        &&& self.Signature == le_u32(s, off)
        &&& self.FileHeader.stored_at(s, off + 4)
        &&& self.OptionalHeader.stored_at(s, off + 24)
    }

    /// Stored headers encode to the bytes they are stored in.
    pub proof fn lemma_bytes_of_stored(self, s: Seq<u8>, off: int)
        requires
            0 <= off,
            off + 248 <= s.len(),
            self.stored_at(s, off),
        ensures
            self.bytes().len() == 248,
            self.bytes() == s.subrange(off, off + 248),
    {
        lemma_le_u32_encode(s, off);
        self.FileHeader.lemma_bytes_of_stored(s, off + 4);
        self.OptionalHeader.lemma_bytes_of_stored(s, off + 24);
        let run1 = u32_bytes(self.Signature);
        lemma_extend_bytes(s, off, 4, run1, self.FileHeader.bytes());
        lemma_extend_bytes(s, off, 24, run1 + self.FileHeader.bytes(), self.OptionalHeader.bytes());
    }

    /// Decodes the headers stored at `off`.
    pub fn decode(s: &[u8], off: usize) -> (r: IMAGE_NT_HEADERS)
        requires
            off + 248 <= s.len(),
        ensures
            r.stored_at(s@, off as int),
    {
        IMAGE_NT_HEADERS {
            Signature: read_u32(s, off),
            FileHeader: IMAGE_FILE_HEADER::decode(s, off + 4),
            OptionalHeader: IMAGE_OPTIONAL_HEADER::decode(s, off + 24),
        }
    }

    /// Appends the headers' encoding.
    pub fn encode(&self, out: &mut Vec<u8>)
        ensures
            final(out)@ == old(out)@ + self.bytes(),
    {
        push_u32(out, self.Signature);
        self.FileHeader.encode(out);
        self.OptionalHeader.encode(out);
        assert(out@ =~= old(out)@ + self.bytes());
    }
}

/// Every number of `table` is what is stored little-endian at its place in
/// the run of 16-bit numbers that begins at `off`.
pub open spec fn u16_table_stored_at(table: Seq<u16>, s: Seq<u8>, off: int) -> bool {
    forall|k: int| 0 <= k < table.len() ==> #[trigger] table[k] == le_u16(s, off + 2 * k)
}

impl IMAGE_DOS_HEADER {
    /// The header is what the 64 bytes of `s` from `off` on decode to.
    pub open spec fn stored_at(self, s: Seq<u8>, off: int) -> bool {
        &&& self.e_magic == le_u16(s, off)
        &&& self.e_cblp == le_u16(s, off + 2)
        &&& self.e_cp == le_u16(s, off + 4)
        &&& self.e_crlc == le_u16(s, off + 6)
        &&& self.e_cparhdr == le_u16(s, off + 8)
        &&& self.e_minalloc == le_u16(s, off + 10)
        &&& self.e_maxalloc == le_u16(s, off + 12)
        &&& self.e_ss == le_u16(s, off + 14)
        &&& self.e_sp == le_u16(s, off + 16)
        &&& self.e_csum == le_u16(s, off + 18)
        &&& self.e_ip == le_u16(s, off + 20)
        &&& self.e_cs == le_u16(s, off + 22)
        &&& self.e_lfarlc == le_u16(s, off + 24)
        &&& self.e_ovno == le_u16(s, off + 26)
        &&& u16_table_stored_at(self.e_res@, s, off + 28)
        &&& self.e_oemid == le_u16(s, off + 36)
        &&& self.e_oeminfo == le_u16(s, off + 38)
        &&& u16_table_stored_at(self.e_res2@, s, off + 40)
        &&& self.e_lfanew == le_u32(s, off + 60)
    }

    /// Decodes the header stored at `off`.
    pub fn decode(s: &[u8], off: usize) -> (r: IMAGE_DOS_HEADER)
        requires
            off + 64 <= s.len(),
        ensures
            r.stored_at(s@, off as int),
    {
        let mut res = [0u16; 4];
        let mut k: usize = 0;
        while k < 4
            invariant
                k <= 4,
                off + 64 <= s.len(),
                forall|j: int| 0 <= j < k ==> #[trigger] res[j] == le_u16(s@, off + 28 + 2 * j),
            decreases 4 - k,
        {
            res[k] = read_u16(s, off + 28 + 2 * k);
            k = k + 1;
        }
        let mut res2 = [0u16; 10];
        let mut k: usize = 0;
        while k < 10
            invariant
                k <= 10,
                off + 64 <= s.len(),
                forall|j: int| 0 <= j < k ==> #[trigger] res2[j] == le_u16(s@, off + 40 + 2 * j),
            decreases 10 - k,
        {
            res2[k] = read_u16(s, off + 40 + 2 * k);
            k = k + 1;
        }
        IMAGE_DOS_HEADER {
            e_magic: read_u16(s, off),
            e_cblp: read_u16(s, off + 2),
            e_cp: read_u16(s, off + 4),
            e_crlc: read_u16(s, off + 6),
            e_cparhdr: read_u16(s, off + 8),
            e_minalloc: read_u16(s, off + 10),
            e_maxalloc: read_u16(s, off + 12),
            e_ss: read_u16(s, off + 14),
            e_sp: read_u16(s, off + 16),
            e_csum: read_u16(s, off + 18),
            e_ip: read_u16(s, off + 20),
            e_cs: read_u16(s, off + 22),
            e_lfarlc: read_u16(s, off + 24),
            e_ovno: read_u16(s, off + 26),
            e_res: res,
            e_oemid: read_u16(s, off + 36),
            e_oeminfo: read_u16(s, off + 38),
            e_res2: res2,
            e_lfanew: read_u32(s, off + 60),
        }
    }
}

/// What a run of stored bytes ends in is the 16-bit field stored behind
/// what it begins with.
pub proof fn lemma_split_u16(s: Seq<u8>, off: int, p: int, prefix: Seq<u8>, v: u16)
    requires
        0 <= off,
        0 <= p,
        off + p + 2 <= s.len(),
        prefix.len() == p,
        prefix + u16_bytes(v) == s.subrange(off, off + p + 2),
    ensures
        prefix == s.subrange(off, off + p),
        v == le_u16(s, off + p),
{
    lemma_u16_bytes_decode(v);
    let whole = s.subrange(off, off + p + 2);
    assert(prefix =~= whole.subrange(0, p));
    assert(prefix =~= s.subrange(off, off + p));
    assert(u16_bytes(v)[0] == whole[p]);
    assert(u16_bytes(v)[1] == whole[p + 1]);
}

/// What a run of stored bytes ends in is the 32-bit field stored behind
/// what it begins with.
pub proof fn lemma_split_u32(s: Seq<u8>, off: int, p: int, prefix: Seq<u8>, v: u32)
    requires
        0 <= off,
        0 <= p,
        off + p + 4 <= s.len(),
        prefix.len() == p,
        prefix + u32_bytes(v) == s.subrange(off, off + p + 4),
    ensures
        prefix == s.subrange(off, off + p),
        v == le_u32(s, off + p),
{
    lemma_u32_bytes_decode(v);
    let whole = s.subrange(off, off + p + 4);
    assert(prefix =~= whole.subrange(0, p));
    assert(prefix =~= s.subrange(off, off + p));
    assert(u32_bytes(v)[0] == whole[p]);
    assert(u32_bytes(v)[1] == whole[p + 1]);
    assert(u32_bytes(v)[2] == whole[p + 2]);
    assert(u32_bytes(v)[3] == whole[p + 3]);
}

/// What a run of stored bytes ends in is the one-byte field stored behind
/// what it begins with.
pub proof fn lemma_split_u8(s: Seq<u8>, off: int, p: int, prefix: Seq<u8>, v: u8)
    requires
        0 <= off,
        0 <= p,
        off + p + 1 <= s.len(),
        prefix.len() == p,
        prefix + seq![v] == s.subrange(off, off + p + 1),
    ensures
        prefix == s.subrange(off, off + p),
        v == s[off + p],
{
    let whole = s.subrange(off, off + p + 1);
    assert(prefix =~= whole.subrange(0, p));
    assert(prefix =~= s.subrange(off, off + p));
    assert(seq![v][0] == whole[p]);
}

/// A run of stored bytes made of two pieces stores the one behind the
/// other.
pub proof fn lemma_split_bytes(s: Seq<u8>, off: int, first: Seq<u8>, second: Seq<u8>)
    requires
        0 <= off,
        off + first.len() + second.len() <= s.len(),
        first + second == s.subrange(off, off + first.len() + second.len()),
    ensures
        first == s.subrange(off, off + first.len()),
        second == s.subrange(off + first.len(), off + first.len() + second.len()),
{
    let whole = s.subrange(off, off + first.len() + second.len());
    assert(first =~= whole.subrange(0, first.len() as int));
    assert(first =~= s.subrange(off, off + first.len()));
    assert(second =~= whole.subrange(first.len() as int, (first.len() + second.len()) as int));
    assert(second =~= s.subrange(off + first.len(), off + first.len() + second.len()));
}

impl IMAGE_DATA_DIRECTORY {
    /// An entry whose encoding is stored somewhere is stored there.
    pub proof fn lemma_stored_of_bytes(self, s: Seq<u8>, off: int)
        requires
            0 <= off,
            off + 8 <= s.len(),
            self.bytes() == s.subrange(off, off + 8),
        ensures
            self.stored_at(s, off),
    {
        lemma_field_bytes_len();
        let run1 = u32_bytes(self.VirtualAddress);
        lemma_split_u32(s, off, 4, run1, self.Size);
        assert(Seq::<u8>::empty() + run1 =~= run1);
        lemma_split_u32(s, off, 0, Seq::empty(), self.VirtualAddress);
    }
}

/// A table whose encoding is stored somewhere is stored there.
pub proof fn lemma_directory_table_stored_of_bytes(
    table: Seq<IMAGE_DATA_DIRECTORY>,
    s: Seq<u8>,
    off: int,
)
    requires
        0 <= off,
        off + 128 <= s.len(),
        table.len() == IMAGE_NUMBEROF_DIRECTORY_ENTRIES,
        directory_table_bytes(table) == s.subrange(off, off + 128),
    ensures
        directory_table_stored_at(table, s, off),
{
    assert forall|k: int| 0 <= k < 16 implies (#[trigger] table[k]).stored_at(s, off + 8 * k) by {
        table[k].lemma_bytes_len();
        assert forall|j: int| 0 <= j < 8 implies table[k].bytes()[j] == s[off + 8 * k + j] by {
            assert((8 * k + j) / 8 == k);
            assert((8 * k + j) % 8 == j);
            assert(directory_table_bytes(table)[8 * k + j] == table[k].bytes()[j]);
            assert(s.subrange(off, off + 128)[8 * k + j] == s[off + 8 * k + j]);
        }
        assert(table[k].bytes() =~= s.subrange(off + 8 * k, off + 8 * k + 8));
        table[k].lemma_stored_of_bytes(s, off + 8 * k);
    }
}

impl IMAGE_FILE_HEADER {
    /// A header whose encoding is stored somewhere is stored there.
    pub proof fn lemma_stored_of_bytes(self, s: Seq<u8>, off: int)
        requires
            0 <= off,
            off + 20 <= s.len(),
            self.bytes() == s.subrange(off, off + 20),
        ensures
            self.stored_at(s, off),
    {
        lemma_field_bytes_len();
        let run1 = u16_bytes(self.Machine);
        let run2 = run1 + u16_bytes(self.NumberOfSections);
        let run3 = run2 + u32_bytes(self.TimeDateStamp);
        let run4 = run3 + u32_bytes(self.PointerToSymbolTable);
        let run5 = run4 + u32_bytes(self.NumberOfSymbols);
        let run6 = run5 + u16_bytes(self.SizeOfOptionalHeader);
        let run7 = run6 + u16_bytes(self.Characteristics);
        lemma_split_u16(s, off, 18, run6, self.Characteristics);
        lemma_split_u16(s, off, 16, run5, self.SizeOfOptionalHeader);
        lemma_split_u32(s, off, 12, run4, self.NumberOfSymbols);
        lemma_split_u32(s, off, 8, run3, self.PointerToSymbolTable);
        lemma_split_u32(s, off, 4, run2, self.TimeDateStamp);
        lemma_split_u16(s, off, 2, run1, self.NumberOfSections);
        assert(Seq::<u8>::empty() + run1 =~= run1);
        lemma_split_u16(s, off, 0, Seq::empty(), self.Machine);
    }
}

impl IMAGE_SECTION_HEADER {
    /// A header whose encoding is stored somewhere is stored there.
    pub proof fn lemma_stored_of_bytes(self, s: Seq<u8>, off: int)
        requires
            0 <= off,
            off + 40 <= s.len(),
            self.bytes() == s.subrange(off, off + 40),
        ensures
            self.stored_at(s, off),
    {
        lemma_field_bytes_len();
        let run1 = self.Name@;
        let run2 = run1 + u32_bytes(self.PhysAddrORVirtSize);
        let run3 = run2 + u32_bytes(self.VirtualAddress);
        let run4 = run3 + u32_bytes(self.SizeOfRawData);
        let run5 = run4 + u32_bytes(self.PointerToRawData);
        let run6 = run5 + u32_bytes(self.PointerToRelocations);
        let run7 = run6 + u32_bytes(self.PointerToLinenumbers);
        let run8 = run7 + u16_bytes(self.NumberOfRelocations);
        let run9 = run8 + u16_bytes(self.NumberOfLinenumbers);
        let run10 = run9 + u32_bytes(self.Characteristics);
        lemma_split_u32(s, off, 36, run9, self.Characteristics);
        lemma_split_u16(s, off, 34, run8, self.NumberOfLinenumbers);
        lemma_split_u16(s, off, 32, run7, self.NumberOfRelocations);
        lemma_split_u32(s, off, 28, run6, self.PointerToLinenumbers);
        lemma_split_u32(s, off, 24, run5, self.PointerToRelocations);
        lemma_split_u32(s, off, 20, run4, self.PointerToRawData);
        lemma_split_u32(s, off, 16, run3, self.SizeOfRawData);
        lemma_split_u32(s, off, 12, run2, self.VirtualAddress);
        lemma_split_u32(s, off, 8, run1, self.PhysAddrORVirtSize);
    }
}

impl IMAGE_OPTIONAL_HEADER {
    /// A header whose encoding is stored somewhere is stored there.
    pub proof fn lemma_stored_of_bytes(self, s: Seq<u8>, off: int)
        requires
            0 <= off,
            off + 224 <= s.len(),
            self.bytes() == s.subrange(off, off + 224),
        ensures
            self.stored_at(s, off),
    {
        self.lemma_bytes_len();
        lemma_split_bytes(s, off, self.scalar_bytes(), directory_table_bytes(self.DataDirectory@));
        lemma_directory_table_stored_of_bytes(self.DataDirectory@, s, off + 96);
        self.lemma_scalars_stored_of_bytes(s, off);
        reveal(IMAGE_OPTIONAL_HEADER::stored_at);
    }

    /// The fields in front of the data directory table, when their encoding
    /// is stored somewhere, are stored there.
    proof fn lemma_scalars_stored_of_bytes(self, s: Seq<u8>, off: int)
        requires
            0 <= off,
            off + 96 <= s.len(),
            self.scalar_bytes() == s.subrange(off, off + 96),
        ensures
            self.Magic == le_u16(s, off),
            self.MajorLinkerVersion == s[off + 2],
            self.MinorLinkerVersion == s[off + 3],
            self.SizeOfCode == le_u32(s, off + 4),
            self.SizeOfInitializedData == le_u32(s, off + 8),
            self.SizeOfUninitializedData == le_u32(s, off + 12),
            self.AddressOfEntryPoint == le_u32(s, off + 16),
            self.BaseOfCode == le_u32(s, off + 20),
            self.BaseOfData == le_u32(s, off + 24),
            self.ImageBase == le_u32(s, off + 28),
            self.SectionAlignment == le_u32(s, off + 32),
            self.FileAlignment == le_u32(s, off + 36),
            self.MajorOperatingSystemVersion == le_u16(s, off + 40),
            self.MinorOperatingSystemVersion == le_u16(s, off + 42),
            self.MajorImageVersion == le_u16(s, off + 44),
            self.MinorImageVersion == le_u16(s, off + 46),
            self.MajorSubsystemVersion == le_u16(s, off + 48),
            self.MinorSubsystemVersion == le_u16(s, off + 50),
            self.Win32VersionValue == le_u32(s, off + 52),
            self.SizeOfImage == le_u32(s, off + 56),
            self.SizeOfHeaders == le_u32(s, off + 60),
            self.CheckSum == le_u32(s, off + 64),
            self.Subsystem == le_u16(s, off + 68),
            self.DllCharacteristics == le_u16(s, off + 70),
            self.SizeOfStackReserve == le_u32(s, off + 72),
            self.SizeOfStackCommit == le_u32(s, off + 76),
            self.SizeOfHeapReserve == le_u32(s, off + 80),
            self.SizeOfHeapCommit == le_u32(s, off + 84),
            self.LoaderFlags == le_u32(s, off + 88),
            self.NumberOfRvaAndSizes == le_u32(s, off + 92),
    {
        reveal(IMAGE_OPTIONAL_HEADER::scalar_bytes);
        lemma_field_bytes_len();
        let run1 = u16_bytes(self.Magic);
        let run2 = run1 + seq![self.MajorLinkerVersion];
        let run3 = run2 + seq![self.MinorLinkerVersion];
        let run4 = run3 + u32_bytes(self.SizeOfCode);
        let run5 = run4 + u32_bytes(self.SizeOfInitializedData);
        let run6 = run5 + u32_bytes(self.SizeOfUninitializedData);
        let run7 = run6 + u32_bytes(self.AddressOfEntryPoint);
        let run8 = run7 + u32_bytes(self.BaseOfCode);
        let run9 = run8 + u32_bytes(self.BaseOfData);
        let run10 = run9 + u32_bytes(self.ImageBase);
        let run11 = run10 + u32_bytes(self.SectionAlignment);
        let run12 = run11 + u32_bytes(self.FileAlignment);
        let run13 = run12 + u16_bytes(self.MajorOperatingSystemVersion);
        let run14 = run13 + u16_bytes(self.MinorOperatingSystemVersion);
        let run15 = run14 + u16_bytes(self.MajorImageVersion);
        let run16 = run15 + u16_bytes(self.MinorImageVersion);
        let run17 = run16 + u16_bytes(self.MajorSubsystemVersion);
        let run18 = run17 + u16_bytes(self.MinorSubsystemVersion);
        let run19 = run18 + u32_bytes(self.Win32VersionValue);
        let run20 = run19 + u32_bytes(self.SizeOfImage);
        let run21 = run20 + u32_bytes(self.SizeOfHeaders);
        let run22 = run21 + u32_bytes(self.CheckSum);
        let run23 = run22 + u16_bytes(self.Subsystem);
        let run24 = run23 + u16_bytes(self.DllCharacteristics);
        let run25 = run24 + u32_bytes(self.SizeOfStackReserve);
        let run26 = run25 + u32_bytes(self.SizeOfStackCommit);
        let run27 = run26 + u32_bytes(self.SizeOfHeapReserve);
        let run28 = run27 + u32_bytes(self.SizeOfHeapCommit);
        let run29 = run28 + u32_bytes(self.LoaderFlags);
        let run30 = run29 + u32_bytes(self.NumberOfRvaAndSizes);
        lemma_split_u32(s, off, 92, run29, self.NumberOfRvaAndSizes);
        lemma_split_u32(s, off, 88, run28, self.LoaderFlags);
        lemma_split_u32(s, off, 84, run27, self.SizeOfHeapCommit);
        lemma_split_u32(s, off, 80, run26, self.SizeOfHeapReserve);
        lemma_split_u32(s, off, 76, run25, self.SizeOfStackCommit);
        lemma_split_u32(s, off, 72, run24, self.SizeOfStackReserve);
        lemma_split_u16(s, off, 70, run23, self.DllCharacteristics);
        lemma_split_u16(s, off, 68, run22, self.Subsystem);
        lemma_split_u32(s, off, 64, run21, self.CheckSum);
        lemma_split_u32(s, off, 60, run20, self.SizeOfHeaders);
        lemma_split_u32(s, off, 56, run19, self.SizeOfImage);
        lemma_split_u32(s, off, 52, run18, self.Win32VersionValue);
        lemma_split_u16(s, off, 50, run17, self.MinorSubsystemVersion);
        lemma_split_u16(s, off, 48, run16, self.MajorSubsystemVersion);
        lemma_split_u16(s, off, 46, run15, self.MinorImageVersion);
        lemma_split_u16(s, off, 44, run14, self.MajorImageVersion);
        lemma_split_u16(s, off, 42, run13, self.MinorOperatingSystemVersion);
        lemma_split_u16(s, off, 40, run12, self.MajorOperatingSystemVersion);
        lemma_split_u32(s, off, 36, run11, self.FileAlignment);
        lemma_split_u32(s, off, 32, run10, self.SectionAlignment);
        lemma_split_u32(s, off, 28, run9, self.ImageBase);
        lemma_split_u32(s, off, 24, run8, self.BaseOfData);
        lemma_split_u32(s, off, 20, run7, self.BaseOfCode);
        lemma_split_u32(s, off, 16, run6, self.AddressOfEntryPoint);
        lemma_split_u32(s, off, 12, run5, self.SizeOfUninitializedData);
        lemma_split_u32(s, off, 8, run4, self.SizeOfInitializedData);
        lemma_split_u32(s, off, 4, run3, self.SizeOfCode);
        lemma_split_u8(s, off, 3, run2, self.MinorLinkerVersion);
        lemma_split_u8(s, off, 2, run1, self.MajorLinkerVersion);
        assert(Seq::<u8>::empty() + run1 =~= run1);
        lemma_split_u16(s, off, 0, Seq::empty(), self.Magic);
    }
}

impl IMAGE_NT_HEADERS {
    /// Headers whose encoding is stored somewhere are stored there.
    pub proof fn lemma_stored_of_bytes(self, s: Seq<u8>, off: int)
        requires
            0 <= off,
            off + 248 <= s.len(),
            self.bytes() == s.subrange(off, off + 248),
        ensures
            self.stored_at(s, off),
    {
        lemma_field_bytes_len();
        self.FileHeader.lemma_bytes_len();
        self.OptionalHeader.lemma_bytes_len();
        let run1 = u32_bytes(self.Signature);
        let run2 = run1 + self.FileHeader.bytes();
        lemma_split_bytes(s, off, run2, self.OptionalHeader.bytes());
        lemma_split_bytes(s, off, run1, self.FileHeader.bytes());
        assert(Seq::<u8>::empty() + run1 =~= run1);
        lemma_split_u32(s, off, 0, Seq::empty(), self.Signature);
        self.FileHeader.lemma_stored_of_bytes(s, off + 4);
        self.OptionalHeader.lemma_stored_of_bytes(s, off + 24);
    }
}

impl IMAGE_FILE_HEADER {
    /// A header stored in one run of bytes is stored in any other that holds
    /// the same twenty bytes at the place.
    pub proof fn lemma_stored_in_same_bytes(self, s: Seq<u8>, other: Seq<u8>, off: int)
        requires
            0 <= off,
            off + 20 <= s.len(),
            off + 20 <= other.len(),
            self.stored_at(s, off),
            forall|j: int| off <= j < off + 20 ==> other[j] == s[j],
        ensures
            self.stored_at(other, off),
    {
    }
}

impl IMAGE_DATA_DIRECTORY {
    /// An entry stored in one run of bytes is stored in any other that holds
    /// the same eight bytes at the place.
    pub proof fn lemma_stored_in_same_bytes(self, s: Seq<u8>, other: Seq<u8>, off: int)
        requires
            0 <= off,
            off + 8 <= s.len(),
            off + 8 <= other.len(),
            self.stored_at(s, off),
            forall|j: int| off <= j < off + 8 ==> other[j] == s[j],
        ensures
            self.stored_at(other, off),
    {
    }
}

impl IMAGE_SECTION_HEADER {
    /// A header stored in one run of bytes is stored in any other that holds
    /// the same forty bytes at the place.
    pub proof fn lemma_stored_in_same_bytes(self, s: Seq<u8>, other: Seq<u8>, off: int)
        requires
            0 <= off,
            off + 40 <= s.len(),
            off + 40 <= other.len(),
            self.stored_at(s, off),
            forall|j: int| off <= j < off + 40 ==> other[j] == s[j],
        ensures
            self.stored_at(other, off),
    {
        assert(other.subrange(off, off + 8) =~= s.subrange(off, off + 8));
    }
}

/// A little-endian number of two bytes fits 16 bits, and one of four bytes
/// fits 32.
pub proof fn lemma_le_fits(s: Seq<u8>)
    ensures
        forall|off: int| 0 <= off && off + 2 <= s.len() ==> #[trigger] le_u16(s, off) <= u16::MAX,
        forall|off: int| 0 <= off && off + 4 <= s.len() ==> #[trigger] le_u32(s, off) <= u32::MAX,
{
}

/// An array that holds the first `k` elements of `v`.
proof fn array_holding<T, const N: usize>(v: Seq<T>, k: nat) -> (a: [T; N])
    requires
        v.len() == N,
        k <= N,
    ensures
        forall|j: int| 0 <= j < k ==> a@[j] == v[j],
    decreases k,
{
    if k == 0 {
        choose|a: [T; N]| #[trigger] a@.len() == N
    } else {
        let before = array_holding::<T, N>(v, (k - 1) as nat);
        spec_array_update(before, k - 1, v[k - 1])
    }
}

impl IMAGE_DATA_DIRECTORY {
    /// The entry that is stored at `off`.
    pub open spec fn at(s: Seq<u8>, off: int) -> IMAGE_DATA_DIRECTORY {
        IMAGE_DATA_DIRECTORY {
            VirtualAddress: le_u32(s, off) as u32,
            Size: le_u32(s, off + 4) as u32,
        }
    }
}

impl IMAGE_FILE_HEADER {
    /// The header that is stored at `off`.
    pub open spec fn at(s: Seq<u8>, off: int) -> IMAGE_FILE_HEADER {
        IMAGE_FILE_HEADER {
            Machine: le_u16(s, off) as u16,
            NumberOfSections: le_u16(s, off + 2) as u16,
            TimeDateStamp: le_u32(s, off + 4) as u32,
            PointerToSymbolTable: le_u32(s, off + 8) as u32,
            NumberOfSymbols: le_u32(s, off + 12) as u32,
            SizeOfOptionalHeader: le_u16(s, off + 16) as u16,
            Characteristics: le_u16(s, off + 18) as u16,
        }
    }

    /// Wherever twenty bytes lie, a header is stored.
    pub proof fn lemma_at_is_stored(s: Seq<u8>, off: int)
        requires
            0 <= off,
            off + 20 <= s.len(),
        ensures
            IMAGE_FILE_HEADER::at(s, off).stored_at(s, off),
    {
        lemma_le_fits(s);
    }
}

impl IMAGE_OPTIONAL_HEADER {
    /// The header that is stored at `off`.
    pub open spec fn at(s: Seq<u8>, off: int) -> IMAGE_OPTIONAL_HEADER {
        choose|header: IMAGE_OPTIONAL_HEADER| #[trigger] header.stored_at(s, off)
    }

    /// Wherever 224 bytes lie, a header is stored.
    pub proof fn lemma_at_is_stored(s: Seq<u8>, off: int)
        requires
            0 <= off,
            off + 224 <= s.len(),
        ensures
            IMAGE_OPTIONAL_HEADER::at(s, off).stored_at(s, off),
    {
        let header = IMAGE_OPTIONAL_HEADER::stored_somewhere(s, off);
        assert(header.stored_at(s, off));
    }

    /// A header that is stored at `off`.
    proof fn stored_somewhere(s: Seq<u8>, off: int) -> (header: IMAGE_OPTIONAL_HEADER)
        requires
            0 <= off,
            off + 224 <= s.len(),
        ensures
            header.stored_at(s, off),
    {
        reveal(IMAGE_OPTIONAL_HEADER::stored_at);
        lemma_le_fits(s);
        let entries = Seq::new(16, |k: int| IMAGE_DATA_DIRECTORY::at(s, off + 96 + 8 * k));
        let table = array_holding::<IMAGE_DATA_DIRECTORY, 16>(entries, 16);
        let header = IMAGE_OPTIONAL_HEADER {
            Magic: le_u16(s, off) as u16,
            MajorLinkerVersion: s[off + 2],
            MinorLinkerVersion: s[off + 3],
            SizeOfCode: le_u32(s, off + 4) as u32,
            SizeOfInitializedData: le_u32(s, off + 8) as u32,
            SizeOfUninitializedData: le_u32(s, off + 12) as u32,
            AddressOfEntryPoint: le_u32(s, off + 16) as u32,
            BaseOfCode: le_u32(s, off + 20) as u32,
            BaseOfData: le_u32(s, off + 24) as u32,
            ImageBase: le_u32(s, off + 28) as u32,
            SectionAlignment: le_u32(s, off + 32) as u32,
            FileAlignment: le_u32(s, off + 36) as u32,
            MajorOperatingSystemVersion: le_u16(s, off + 40) as u16,
            MinorOperatingSystemVersion: le_u16(s, off + 42) as u16,
            MajorImageVersion: le_u16(s, off + 44) as u16,
            MinorImageVersion: le_u16(s, off + 46) as u16,
            MajorSubsystemVersion: le_u16(s, off + 48) as u16,
            MinorSubsystemVersion: le_u16(s, off + 50) as u16,
            Win32VersionValue: le_u32(s, off + 52) as u32,
            SizeOfImage: le_u32(s, off + 56) as u32,
            SizeOfHeaders: le_u32(s, off + 60) as u32,
            CheckSum: le_u32(s, off + 64) as u32,
            Subsystem: le_u16(s, off + 68) as u16,
            DllCharacteristics: le_u16(s, off + 70) as u16,
            SizeOfStackReserve: le_u32(s, off + 72) as u32,
            SizeOfStackCommit: le_u32(s, off + 76) as u32,
            SizeOfHeapReserve: le_u32(s, off + 80) as u32,
            SizeOfHeapCommit: le_u32(s, off + 84) as u32,
            LoaderFlags: le_u32(s, off + 88) as u32,
            NumberOfRvaAndSizes: le_u32(s, off + 92) as u32,
            DataDirectory: table,
        };
        assert forall|k: int| 0 <= k < 16 implies (#[trigger] table@[k]).stored_at(
            s,
            off + 96 + 8 * k,
        ) by {
            assert(table@[k] == entries[k]);
        }
        assert(directory_table_stored_at(header.DataDirectory@, s, off + 96));
        header
    }
}

impl IMAGE_NT_HEADERS {
    /// The headers that are stored at `off`.
    pub open spec fn at(s: Seq<u8>, off: int) -> IMAGE_NT_HEADERS {
        IMAGE_NT_HEADERS {
            Signature: le_u32(s, off) as u32,
            FileHeader: IMAGE_FILE_HEADER::at(s, off + 4),
            OptionalHeader: IMAGE_OPTIONAL_HEADER::at(s, off + 24),
        }
    }

    /// Wherever 248 bytes lie, headers are stored.
    pub proof fn lemma_at_is_stored(s: Seq<u8>, off: int)
        requires
            0 <= off,
            off + 248 <= s.len(),
        ensures
            IMAGE_NT_HEADERS::at(s, off).stored_at(s, off),
    {
        lemma_le_fits(s);
        IMAGE_FILE_HEADER::lemma_at_is_stored(s, off + 4);
        IMAGE_OPTIONAL_HEADER::lemma_at_is_stored(s, off + 24);
    }
}

impl IMAGE_SECTION_HEADER {
    /// The section header that is stored at `off`.
    pub open spec fn at(s: Seq<u8>, off: int) -> IMAGE_SECTION_HEADER {
        choose|header: IMAGE_SECTION_HEADER| #[trigger] header.stored_at(s, off)
    }

    /// Wherever forty bytes lie, a section header is stored.
    pub proof fn lemma_at_is_stored(s: Seq<u8>, off: int)
        requires
            0 <= off,
            off + 40 <= s.len(),
        ensures
            IMAGE_SECTION_HEADER::at(s, off).stored_at(s, off),
    {
        let header = IMAGE_SECTION_HEADER::stored_somewhere(s, off);
        assert(header.stored_at(s, off));
    }

    /// A section header that is stored at `off`.
    proof fn stored_somewhere(s: Seq<u8>, off: int) -> (header: IMAGE_SECTION_HEADER)
        requires
            0 <= off,
            off + 40 <= s.len(),
        ensures
            header.stored_at(s, off),
    {
        lemma_le_fits(s);
        let name = array_holding::<u8, 8>(s.subrange(off, off + 8), 8);
        assert(name@ =~= s.subrange(off, off + 8));
        IMAGE_SECTION_HEADER {
            Name: name,
            PhysAddrORVirtSize: le_u32(s, off + 8) as u32,
            VirtualAddress: le_u32(s, off + 12) as u32,
            SizeOfRawData: le_u32(s, off + 16) as u32,
            PointerToRawData: le_u32(s, off + 20) as u32,
            PointerToRelocations: le_u32(s, off + 24) as u32,
            PointerToLinenumbers: le_u32(s, off + 28) as u32,
            NumberOfRelocations: le_u16(s, off + 32) as u16,
            NumberOfLinenumbers: le_u16(s, off + 34) as u16,
            Characteristics: le_u32(s, off + 36) as u32,
        }
    }
}

} // verus!
