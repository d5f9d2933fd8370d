//! Setting an entry of the data directory table.

use vstd::prelude::*;
use vstd::array::spec_array_update;
use crate::error::{Failure, PeError};
use crate::pe::{
    IMAGE_DATA_DIRECTORY, IMAGE_NT_HEADERS, IMAGE_NUMBEROF_DIRECTORY_ENTRIES,
    IMAGE_OPTIONAL_HEADER,
};
use crate::bytes::{
    le_u32, lemma_field_bytes_len, lemma_u32_bytes_decode, overwrite, u32_bytes,
};
use crate::layout::directory_table_stored_at;
use crate::pe::IMAGE_SECTION_HEADER;
use crate::reader::{
    headers_error, headers_of, headers_stored, lemma_headers_exist, lemma_headers_of, nt_offset,
    read_headers,
    section_table_offset, validate, validate_spec,
};
use crate::writer::{
    lemma_section_table_bytes_of_stored, lemma_write_headers_gives, write_headers,
    write_headers_spec, written_header_len,
};

verus! {

/// Whether the headers have the entry: the optional header counts at least
/// that many entries, and the table has room for it.
pub open spec fn has_data_directory(nt: IMAGE_NT_HEADERS, index: usize) -> bool {
    index < nt.OptionalHeader.NumberOfRvaAndSizes && index < IMAGE_NUMBEROF_DIRECTORY_ENTRIES
}

/// The headers with the entry set and the checksum cleared.
pub open spec fn with_data_directory(
    nt: IMAGE_NT_HEADERS,
    index: usize,
    virtual_address: u32,
    size: u32,
) -> IMAGE_NT_HEADERS {
    IMAGE_NT_HEADERS {
        OptionalHeader: IMAGE_OPTIONAL_HEADER {
            CheckSum: 0,
            DataDirectory: spec_array_update(
                nt.OptionalHeader.DataDirectory,
                index as int,
                IMAGE_DATA_DIRECTORY { VirtualAddress: virtual_address, Size: size },
            ),
            ..nt.OptionalHeader
        },
        ..nt
    }
}

/// Sets both fields of the entry `index` of the data directory table and
/// clears the checksum, which no longer holds. Headers that lack the entry
/// are left as they are.
pub fn set_data_directory(
    nt: &mut IMAGE_NT_HEADERS,
    index: usize,
    virtual_address: u32,
    size: u32,
) -> (r: Result<(), PeError>)
    ensures
        has_data_directory(*old(nt), index) ==> {
            &&& r is Ok
            &&& *final(nt) == with_data_directory(*old(nt), index, virtual_address, size)
            &&& final(nt).OptionalHeader.DataDirectory[index as int].VirtualAddress
                == virtual_address
            &&& final(nt).OptionalHeader.DataDirectory[index as int].Size == size
            &&& final(nt).OptionalHeader.CheckSum == 0
            &&& forall|k: int|
                0 <= k < IMAGE_NUMBEROF_DIRECTORY_ENTRIES && k != index
                    ==> final(nt).OptionalHeader.DataDirectory[k] == old(
                    nt,
                ).OptionalHeader.DataDirectory[k]
        },
        !has_data_directory(*old(nt), index) ==> {
            &&& r == Err::<(), PeError>(PeError::MissingDataDirectory { index })
            &&& *final(nt) == *old(nt)
        },
{
    if index as u64 >= nt.OptionalHeader.NumberOfRvaAndSizes as u64 || index
        >= IMAGE_NUMBEROF_DIRECTORY_ENTRIES {
        return Err(PeError::MissingDataDirectory { index });
    }
    nt.OptionalHeader.DataDirectory[index] = IMAGE_DATA_DIRECTORY {
        VirtualAddress: virtual_address,
        Size: size,
    };
    nt.OptionalHeader.CheckSum = 0;
    Ok(())
}

/// The image that `setdd` leaves, or why it writes nothing.
pub open spec fn setdd_spec(s: Seq<u8>, index: usize, virtual_address: u32, size: u32) -> Result<
    Seq<u8>,
    Failure,
> {
    if validate_spec(s) is Err {
        Err(validate_spec(s)->Err_0@)
    } else if headers_error(s) is Some {
        Err(headers_error(s)->Some_0@)
    } else if !has_data_directory(headers_of(s).0, index) {
        Err(Failure::MissingDataDirectory { index })
    } else {
        match write_headers_spec(
            s,
            with_data_directory(headers_of(s).0, index, virtual_address, size),
            headers_of(s).1,
        ) {
            Ok(written) => Ok(written),
            Err(e) => Err(e@),
        }
    }
}

/// Sets the entry `index` of the data directory table of an image: checks
/// the image, reads its headers, sets the entry, clears the checksum and
/// writes the headers back. An image that fails a check is left as it was.
/// The headers are written back no further than the file header declares
/// the optional header to reach: what lies behind that end stays as it is
/// in the image.
pub fn setdd(image: &mut Vec<u8>, index: usize, virtual_address: u32, size: u32) -> (r: Result<
    (),
    PeError,
>)
    ensures
        match setdd_spec(old(image)@, index, virtual_address, size) {
            Ok(written) => r is Ok && final(image)@ == written,
            Err(e) => r matches Err(err) && err@ == e && final(image)@ == old(image)@,
        },
{
    validate(image.as_slice())?;
    let (mut nt, sections) = read_headers(image.as_slice())?;
    set_data_directory(&mut nt, index, virtual_address, size)?;
    write_headers(image, &nt, sections.as_slice())
}

/// Where the checksum lies in the image `s`.
pub open spec fn checksum_offset(s: Seq<u8>) -> int {
    nt_offset(s) + 24 + 64
}

/// Where the entry `index` of the data directory table lies in the image
/// `s`.
pub open spec fn entry_offset(s: Seq<u8>, index: usize) -> int {
    nt_offset(s) + 24 + 96 + 8 * index
}

/// The image `s` with the checksum cleared and the entry `index` set, and
/// every other byte as it was.
#[verifier::opaque]
pub open spec fn with_entry_set(s: Seq<u8>, index: usize, virtual_address: u32, size: u32) -> Seq<
    u8,
> {
    overwrite(
        overwrite(s, checksum_offset(s), u32_bytes(0)),
        entry_offset(s, index),
        u32_bytes(virtual_address) + u32_bytes(size),
    )
}

/// What the image with the entry set holds: zero for the checksum, the two
/// numbers in the entry, and the bytes of `s` everywhere else.
pub proof fn lemma_with_entry_set(s: Seq<u8>, index: usize, virtual_address: u32, size: u32)
    requires
        entry_offset(s, index) + 8 <= s.len(),
    ensures
        with_entry_set(s, index, virtual_address, size).len() == s.len(),
        le_u32(with_entry_set(s, index, virtual_address, size), checksum_offset(s)) == 0,
        le_u32(with_entry_set(s, index, virtual_address, size), entry_offset(s, index))
            == virtual_address,
        le_u32(with_entry_set(s, index, virtual_address, size), entry_offset(s, index) + 4)
            == size,
        forall|j: int|
            0 <= j < s.len() && !(checksum_offset(s) <= j < checksum_offset(s) + 4) && !(
            entry_offset(s, index) <= j < entry_offset(s, index) + 8) ==> #[trigger] with_entry_set(
                s,
                index,
                virtual_address,
                size,
            )[j] == s[j],
{
    reveal(with_entry_set);
    let after = with_entry_set(s, index, virtual_address, size);
    lemma_field_bytes_len();
    lemma_u32_bytes_decode(0);
    lemma_u32_bytes_decode(virtual_address);
    lemma_u32_bytes_decode(size);
    assert(le_u32(after, checksum_offset(s)) == le_u32(u32_bytes(0), 0));
    assert(le_u32(after, entry_offset(s, index)) == le_u32(u32_bytes(virtual_address), 0));
    assert(le_u32(after, entry_offset(s, index) + 4) == le_u32(u32_bytes(size), 0));
}

/// An optional header stored at `off` in `s`, with the checksum cleared and
/// an entry set, is stored at `off` in a run of bytes that holds zero for
/// the checksum, the two numbers in the entry, and the bytes of `s`
/// everywhere else in the header.
proof fn lemma_optional_header_with_entry(
    header: IMAGE_OPTIONAL_HEADER,
    changed: IMAGE_OPTIONAL_HEADER,
    s: Seq<u8>,
    after: Seq<u8>,
    off: int,
    index: usize,
    virtual_address: u32,
    size: u32,
)
    requires
        0 <= off,
        off + 224 <= s.len(),
        after.len() == s.len(),
        index < IMAGE_NUMBEROF_DIRECTORY_ENTRIES,
        header.stored_at(s, off),
        changed == (IMAGE_OPTIONAL_HEADER {
            CheckSum: 0,
            DataDirectory: spec_array_update(
                header.DataDirectory,
                index as int,
                IMAGE_DATA_DIRECTORY { VirtualAddress: virtual_address, Size: size },
            ),
            ..header
        }),
        le_u32(after, off + 64) == 0,
        le_u32(after, off + 96 + 8 * index) == virtual_address,
        le_u32(after, off + 96 + 8 * index + 4) == size,
        forall|j: int|
            off <= j < off + 224 && !(off + 64 <= j < off + 68) && !(off + 96 + 8 * index <= j
                < off + 96 + 8 * index + 8) ==> #[trigger] after[j] == s[j],
    ensures
        changed.stored_at(after, off),
{
    reveal(IMAGE_OPTIONAL_HEADER::stored_at);
    let old_table = header.DataDirectory@;
    let new_table = changed.DataDirectory@;
    assert(directory_table_stored_at(old_table, s, off + 96));
    assert forall|k: int| 0 <= k < 16 implies (#[trigger] new_table[k]).stored_at(
        after,
        off + 96 + 8 * k,
    ) by {
        if k != index {
            assert(old_table[k].stored_at(s, off + 96 + 8 * k));
            old_table[k].lemma_stored_in_same_bytes(s, after, off + 96 + 8 * k);
        }
    }
    assert(directory_table_stored_at(new_table, after, off + 96));
}

/// What `setdd` leaves of an image with the headers `nt` and `sections`.
proof fn lemma_setdd_with_headers(
    s: Seq<u8>,
    nt: IMAGE_NT_HEADERS,
    sections: Seq<IMAGE_SECTION_HEADER>,
    index: usize,
    virtual_address: u32,
    size: u32,
)
    requires
        validate_spec(s) is Ok,
        headers_error(s) is None,
        headers_stored(s, nt, sections),
        has_data_directory(nt, index),
        nt.FileHeader.SizeOfOptionalHeader >= 96 + 8 * index + 8,
    ensures
        setdd_spec(s, index, virtual_address, size) == Ok::<Seq<u8>, Failure>(
            with_entry_set(s, index, virtual_address, size),
        ),
{
    let off = nt_offset(s);
    let table = section_table_offset(s);
    let after = with_entry_set(s, index, virtual_address, size);
    let changed = with_data_directory(nt, index, virtual_address, size);
    lemma_headers_of(s, nt, sections);
    lemma_with_entry_set(s, index, virtual_address, size);
    assert(nt.FileHeader.stored_at(s, off + 4));
    nt.FileHeader.lemma_stored_in_same_bytes(s, after, off + 4);
    lemma_optional_header_with_entry(
        nt.OptionalHeader,
        changed.OptionalHeader,
        s,
        after,
        off + 24,
        index,
        virtual_address,
        size,
    );
    assert(changed.stored_at(after, off));
    changed.lemma_bytes_of_stored(after, off);
    assert forall|k: int| 0 <= k < sections.len() implies (#[trigger] sections[k]).stored_at(
        after,
        table + 40 * k,
    ) by {
        sections[k].lemma_stored_in_same_bytes(s, after, table + 40 * k);
    }
    lemma_section_table_bytes_of_stored(sections, after, table);
    let head = written_header_len(changed);
    assert(changed.bytes().subrange(0, head) =~= after.subrange(off, off + head));
    lemma_write_headers_gives(s, changed, sections, after);
}

/// On a sound image that has the entry, inside the optional header as the
/// file header declares it, `setdd` succeeds, and what it leaves is the
/// image with four zero bytes for the checksum, the two numbers in the
/// entry's eight bytes, and no other byte changed.
pub proof fn lemma_setdd_changes_entry_and_checksum(
    s: Seq<u8>,
    index: usize,
    virtual_address: u32,
    size: u32,
)
    requires
        validate_spec(s) is Ok,
        headers_error(s) is None,
        has_data_directory(headers_of(s).0, index),
        headers_of(s).0.FileHeader.SizeOfOptionalHeader >= 96 + 8 * index + 8,
    ensures
        setdd_spec(s, index, virtual_address, size) == Ok::<Seq<u8>, Failure>(
            with_entry_set(s, index, virtual_address, size),
        ),
        with_entry_set(s, index, virtual_address, size).len() == s.len(),
        le_u32(with_entry_set(s, index, virtual_address, size), checksum_offset(s)) == 0,
        le_u32(with_entry_set(s, index, virtual_address, size), entry_offset(s, index))
            == virtual_address,
        le_u32(with_entry_set(s, index, virtual_address, size), entry_offset(s, index) + 4)
            == size,
        forall|j: int|
            0 <= j < s.len() && !(checksum_offset(s) <= j < checksum_offset(s) + 4) && !(
            entry_offset(s, index) <= j < entry_offset(s, index) + 8) ==> #[trigger] with_entry_set(
                s,
                index,
                virtual_address,
                size,
            )[j] == s[j],
{
    lemma_headers_exist(s);
    let nt = headers_of(s).0;
    assert(nt.FileHeader.stored_at(s, nt_offset(s) + 4));
    lemma_setdd_with_headers(s, nt, headers_of(s).1, index, virtual_address, size);
    lemma_with_entry_set(s, index, virtual_address, size);
}

} // verus!
