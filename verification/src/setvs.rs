//! Setting the virtual size of a section.

use vstd::prelude::*;
use vstd::slice::slice_to_vec;
use crate::error::{Failure, PeError};
use crate::pe::{IMAGE_NT_HEADERS, IMAGE_OPTIONAL_HEADER, IMAGE_SECTION_HEADER};
use crate::bytes::{
    le_u32, lemma_field_bytes_len, lemma_u32_bytes_decode, overwrite, u32_bytes,
};
use crate::layout::directory_table_stored_at;
use crate::reader::{
    headers_error, headers_of, headers_stored, lemma_headers_exist, lemma_headers_of, nt_offset,
    read_headers,
    section_table_offset, validate, validate_spec,
};
use crate::section::lemma_section_named_from;
use crate::setdd::checksum_offset;
use crate::section::{find_section, section_named};
use crate::writer::{
    lemma_section_table_bytes_of_stored, lemma_write_headers_gives, write_headers,
    write_headers_spec, written_header_len,
};

verus! {

/// The place of the virtual size among the arguments of the command, which
/// the failure names when the size is refused.
pub const VIRTUAL_SIZE_ARGUMENT: usize = 2;

/// The size of the image after a section's virtual size went from `before`
/// to `after`: moved by the difference, within 32 bits.
pub open spec fn moved_size_of_image(size_of_image: u32, before: u32, after: u32) -> u32 {
    ((size_of_image + after - before) % 0x1_0000_0000) as u32
}

/// The headers with the size of the image moved and the checksum cleared.
pub open spec fn with_size_of_image(nt: IMAGE_NT_HEADERS, size_of_image: u32) -> IMAGE_NT_HEADERS {
    IMAGE_NT_HEADERS {
        OptionalHeader: IMAGE_OPTIONAL_HEADER {
            SizeOfImage: size_of_image,
            CheckSum: 0,
            ..nt.OptionalHeader
        },
        ..nt
    }
}

/// The section header with another virtual size.
pub open spec fn with_virtual_size(
    section: IMAGE_SECTION_HEADER,
    virtual_size: u32,
) -> IMAGE_SECTION_HEADER {
    IMAGE_SECTION_HEADER { PhysAddrORVirtSize: virtual_size, ..section }
}

/// Why the virtual size cannot be set, if it cannot: the size is zero; no
/// section has the name; or the size is below the section's raw size.
pub open spec fn virtual_size_refusal(
    sections: Seq<IMAGE_SECTION_HEADER>,
    name: Seq<u8>,
    virtual_size: u32,
) -> Option<Failure> {
    if virtual_size == 0 {
        Some(Failure::InvalidArgument { index: VIRTUAL_SIZE_ARGUMENT })
    } else if section_named(sections, name) is None {
        Some(Failure::SectionNotFound { name })
    } else if sections[section_named(sections, name)->Some_0].SizeOfRawData > virtual_size {
        Some(Failure::InvalidArgument { index: VIRTUAL_SIZE_ARGUMENT })
    } else {
        None
    }
}

/// The headers after the virtual size of the section `i` was set.
pub open spec fn headers_with_virtual_size(
    nt: IMAGE_NT_HEADERS,
    sections: Seq<IMAGE_SECTION_HEADER>,
    i: int,
    virtual_size: u32,
) -> (IMAGE_NT_HEADERS, Seq<IMAGE_SECTION_HEADER>) {
    (
        with_size_of_image(
            nt,
            moved_size_of_image(
                nt.OptionalHeader.SizeOfImage,
                sections[i].PhysAddrORVirtSize,
                virtual_size,
            ),
        ),
        sections.update(i, with_virtual_size(sections[i], virtual_size)),
    )
}

/// Sets the virtual size of the first section that has the name, moves the
/// size of the image by the difference and clears the checksum, which no
/// longer holds. A size of zero, or one below the section's raw size, is
/// refused and the headers are left as they are. Returns the section's
/// index.
pub fn set_virtual_size(
    nt: &mut IMAGE_NT_HEADERS,
    sections: &mut Vec<IMAGE_SECTION_HEADER>,
    name: &[u8],
    virtual_size: u32,
) -> (r: Result<usize, PeError>)
    ensures
        match virtual_size_refusal(old(sections)@, name@, virtual_size) {
            Some(e) => r matches Err(err) && err@ == e && *final(nt) == *old(nt) && final(sections)@ == old(sections)@,
            None => {
                &&& r matches Ok(i)
                &&& section_named(old(sections)@, name@) == Some(i as int)
                &&& (*final(nt), final(sections)@) == headers_with_virtual_size(
                    *old(nt),
                    old(sections)@,
                    i as int,
                    virtual_size,
                )
                &&& final(sections)@[i as int].PhysAddrORVirtSize == virtual_size
                &&& final(nt).OptionalHeader.CheckSum == 0
                &&& 0 <= old(nt).OptionalHeader.SizeOfImage + virtual_size - old(sections)@[i as int].PhysAddrORVirtSize <= u32::MAX ==> final(nt).OptionalHeader.SizeOfImage == old(nt).OptionalHeader.SizeOfImage + virtual_size
                    - old(sections)@[i as int].PhysAddrORVirtSize
            },
        },
{
    if virtual_size == 0 {
        return Err(PeError::InvalidArgument { index: VIRTUAL_SIZE_ARGUMENT });
    }
    let i = match find_section(sections.as_slice(), name) {
        Some(i) => i,
        None => {
            return Err(PeError::SectionNotFound { name: slice_to_vec(name) });
        },
    };
    let mut section = sections[i];
    if section.SizeOfRawData > virtual_size {
        return Err(PeError::InvalidArgument { index: VIRTUAL_SIZE_ARGUMENT });
    }
    let moved: u64 = (nt.OptionalHeader.SizeOfImage as u64 + virtual_size as u64 + 0x1_0000_0000
        - section.PhysAddrORVirtSize as u64) % 0x1_0000_0000;
    nt.OptionalHeader.SizeOfImage = moved as u32;
    nt.OptionalHeader.CheckSum = 0;
    section.PhysAddrORVirtSize = virtual_size;
    sections.set(i, section);
    Ok(i)
}

/// The image that `setvs` leaves, or why it writes nothing.
pub open spec fn setvs_spec(s: Seq<u8>, name: Seq<u8>, virtual_size: u32) -> Result<
    Seq<u8>,
    Failure,
> {
    if validate_spec(s) is Err {
        Err(validate_spec(s)->Err_0@)
    } else if headers_error(s) is Some {
        Err(headers_error(s)->Some_0@)
    } else if virtual_size_refusal(headers_of(s).1, name, virtual_size) is Some {
        Err(virtual_size_refusal(headers_of(s).1, name, virtual_size)->Some_0)
    } else {
        let after = headers_with_virtual_size(
            headers_of(s).0,
            headers_of(s).1,
            section_named(headers_of(s).1, name)->Some_0,
            virtual_size,
        );
        match write_headers_spec(s, after.0, after.1) {
            Ok(written) => Ok(written),
            Err(e) => Err(e@),
        }
    }
}

/// Sets the virtual size of a section of an image: checks the image, reads
/// its headers, sets the size, moves the size of the image, clears the
/// checksum and writes the headers back. An image that fails a check is
/// left as it was.
pub fn setvs(image: &mut Vec<u8>, name: &[u8], virtual_size: u32) -> (r: Result<(), PeError>)
    ensures
        match setvs_spec(old(image)@, name@, virtual_size) {
            Ok(written) => r is Ok && final(image)@ == written,
            Err(e) => r matches Err(err) && err@ == e && final(image)@ == old(image)@,
        },
{
    validate(image.as_slice())?;
    let (mut nt, mut sections) = read_headers(image.as_slice())?;
    set_virtual_size(&mut nt, &mut sections, name, virtual_size)?;
    write_headers(image, &nt, sections.as_slice())
}

/// Where the size of the image lies in the image `s`.
pub open spec fn size_of_image_offset(s: Seq<u8>) -> int {
    nt_offset(s) + 24 + 56
}

/// Where the virtual size of the section `i` lies in the image `s`.
pub open spec fn virtual_size_offset(s: Seq<u8>, i: int) -> int {
    section_table_offset(s) + 40 * i + 8
}

/// The image `s` with another size of the image and the checksum cleared,
/// and every other byte as it was.
#[verifier::opaque]
pub open spec fn with_size_of_image_set(s: Seq<u8>, size_of_image: u32) -> Seq<u8> {
    overwrite(
        overwrite(s, size_of_image_offset(s), u32_bytes(size_of_image)),
        checksum_offset(s),
        u32_bytes(0),
    )
}

/// The image `s` with another size of the image, the checksum cleared and
/// another virtual size for the section `i`, and every other byte as it
/// was.
#[verifier::opaque]
pub open spec fn with_virtual_size_set(
    s: Seq<u8>,
    i: int,
    size_of_image: u32,
    virtual_size: u32,
) -> Seq<u8> {
    overwrite(
        with_size_of_image_set(s, size_of_image),
        virtual_size_offset(s, i),
        u32_bytes(virtual_size),
    )
}

/// What the image with the size of the image set holds.
pub proof fn lemma_with_size_of_image_set(s: Seq<u8>, size_of_image: u32)
    requires
        checksum_offset(s) + 4 <= s.len(),
    ensures
        with_size_of_image_set(s, size_of_image).len() == s.len(),
        le_u32(with_size_of_image_set(s, size_of_image), size_of_image_offset(s))
            == size_of_image,
        le_u32(with_size_of_image_set(s, size_of_image), checksum_offset(s)) == 0,
        forall|j: int|
            0 <= j < s.len() && !(size_of_image_offset(s) <= j < size_of_image_offset(s) + 4)
                && !(checksum_offset(s) <= j < checksum_offset(s) + 4)
                ==> #[trigger] with_size_of_image_set(s, size_of_image)[j] == s[j],
{
    reveal(with_size_of_image_set);
    let after = with_size_of_image_set(s, size_of_image);
    lemma_field_bytes_len();
    lemma_u32_bytes_decode(0);
    lemma_u32_bytes_decode(size_of_image);
    assert(le_u32(after, size_of_image_offset(s)) == le_u32(u32_bytes(size_of_image), 0));
    assert(le_u32(after, checksum_offset(s)) == le_u32(u32_bytes(0), 0));
}

/// What the image with the virtual size set holds: the new size of the
/// image, zero for the checksum, the new virtual size of the section, and
/// the bytes of `s` everywhere else.
pub proof fn lemma_with_virtual_size_set(
    s: Seq<u8>,
    i: int,
    size_of_image: u32,
    virtual_size: u32,
)
    requires
        0 <= i,
        checksum_offset(s) + 4 <= virtual_size_offset(s, i),
        virtual_size_offset(s, i) + 4 <= s.len(),
    ensures
        with_virtual_size_set(s, i, size_of_image, virtual_size).len() == s.len(),
        le_u32(with_virtual_size_set(s, i, size_of_image, virtual_size), size_of_image_offset(s))
            == size_of_image,
        le_u32(with_virtual_size_set(s, i, size_of_image, virtual_size), checksum_offset(s))
            == 0,
        le_u32(
            with_virtual_size_set(s, i, size_of_image, virtual_size),
            virtual_size_offset(s, i),
        ) == virtual_size,
        forall|j: int|
            0 <= j < s.len() && !(size_of_image_offset(s) <= j < size_of_image_offset(s) + 4)
                && !(checksum_offset(s) <= j < checksum_offset(s) + 4) && !(virtual_size_offset(
                s,
                i,
            ) <= j < virtual_size_offset(s, i) + 4) ==> #[trigger] with_virtual_size_set(
                s,
                i,
                size_of_image,
                virtual_size,
            )[j] == s[j],
        forall|j: int|
            0 <= j < virtual_size_offset(s, i) ==> #[trigger] with_virtual_size_set(
                s,
                i,
                size_of_image,
                virtual_size,
            )[j] == with_size_of_image_set(s, size_of_image)[j],
{
    reveal(with_virtual_size_set);
    lemma_with_size_of_image_set(s, size_of_image);
    let mid = with_size_of_image_set(s, size_of_image);
    let after = with_virtual_size_set(s, i, size_of_image, virtual_size);
    lemma_field_bytes_len();
    lemma_u32_bytes_decode(virtual_size);
    assert(le_u32(after, virtual_size_offset(s, i)) == le_u32(u32_bytes(virtual_size), 0));
    assert(le_u32(after, size_of_image_offset(s)) == le_u32(mid, size_of_image_offset(s)));
    assert(le_u32(after, checksum_offset(s)) == le_u32(mid, checksum_offset(s)));
}

/// An optional header stored at `off` in `s`, with another size of the
/// image and the checksum cleared, is stored at `off` in a run of bytes
/// that holds the new size, zero for the checksum, and the bytes of `s`
/// everywhere else in the header.
proof fn lemma_optional_header_with_size_of_image(
    header: IMAGE_OPTIONAL_HEADER,
    changed: IMAGE_OPTIONAL_HEADER,
    s: Seq<u8>,
    after: Seq<u8>,
    off: int,
    size_of_image: u32,
)
    requires
        0 <= off,
        off + 224 <= s.len(),
        after.len() == s.len(),
        header.stored_at(s, off),
        changed == (IMAGE_OPTIONAL_HEADER {
            SizeOfImage: size_of_image,
            CheckSum: 0,
            ..header
        }),
        le_u32(after, off + 56) == size_of_image,
        le_u32(after, off + 64) == 0,
        forall|j: int|
            off <= j < off + 224 && !(off + 56 <= j < off + 60) && !(off + 64 <= j < off + 68)
                ==> #[trigger] after[j] == s[j],
    ensures
        changed.stored_at(after, off),
{
    reveal(IMAGE_OPTIONAL_HEADER::stored_at);
    let table = header.DataDirectory@;
    assert(directory_table_stored_at(table, s, off + 96));
    assert forall|k: int| 0 <= k < 16 implies (#[trigger] table[k]).stored_at(
        after,
        off + 96 + 8 * k,
    ) by {
        assert(table[k].stored_at(s, off + 96 + 8 * k));
        table[k].lemma_stored_in_same_bytes(s, after, off + 96 + 8 * k);
    }
    assert(directory_table_stored_at(changed.DataDirectory@, after, off + 96));
}

/// What `setvs` leaves of an image with the headers `nt` and `sections`.
proof fn lemma_setvs_with_headers(
    s: Seq<u8>,
    nt: IMAGE_NT_HEADERS,
    sections: Seq<IMAGE_SECTION_HEADER>,
    name: Seq<u8>,
    virtual_size: u32,
)
    requires
        validate_spec(s) is Ok,
        headers_error(s) is None,
        headers_stored(s, nt, sections),
        virtual_size_refusal(sections, name, virtual_size) is None,
        nt.FileHeader.SizeOfOptionalHeader >= 68,
    ensures
        section_named(sections, name) matches Some(i) && 0 <= i < sections.len() && setvs_spec(
            s,
            name,
            virtual_size,
        ) == Ok::<Seq<u8>, Failure>(
            with_virtual_size_set(
                s,
                i,
                moved_size_of_image(
                    nt.OptionalHeader.SizeOfImage,
                    sections[i].PhysAddrORVirtSize,
                    virtual_size,
                ),
                virtual_size,
            ),
        ),
{
    lemma_section_named_from(sections, name, 0);
    let i = section_named(sections, name)->Some_0;
    let off = nt_offset(s);
    let table = section_table_offset(s);
    let moved = moved_size_of_image(
        nt.OptionalHeader.SizeOfImage,
        sections[i].PhysAddrORVirtSize,
        virtual_size,
    );
    let changed = headers_with_virtual_size(nt, sections, i, virtual_size);
    let mid = with_size_of_image_set(s, moved);
    let after = with_virtual_size_set(s, i, moved, virtual_size);
    lemma_headers_of(s, nt, sections);
    assert(nt.FileHeader.stored_at(s, off + 4));
    lemma_with_size_of_image_set(s, moved);
    lemma_with_virtual_size_set(s, i, moved, virtual_size);
    nt.FileHeader.lemma_stored_in_same_bytes(s, mid, off + 4);
    lemma_optional_header_with_size_of_image(
        nt.OptionalHeader,
        changed.0.OptionalHeader,
        s,
        mid,
        off + 24,
        moved,
    );
    assert(changed.0.stored_at(mid, off));
    changed.0.lemma_bytes_of_stored(mid, off);
    let head = written_header_len(changed.0);
    assert(changed.0.bytes().subrange(0, head) =~= after.subrange(off, off + head));
    assert forall|k: int| 0 <= k < changed.1.len() implies (#[trigger] changed.1[k]).stored_at(
        after,
        table + 40 * k,
    ) by {
        assert(sections[k].stored_at(s, table + 40 * k));
        if k != i {
            sections[k].lemma_stored_in_same_bytes(s, after, table + 40 * k);
        } else {
            assert(after.subrange(table + 40 * k, table + 40 * k + 8) =~= s.subrange(
                table + 40 * k,
                table + 40 * k + 8,
            ));
        }
    }
    lemma_section_table_bytes_of_stored(changed.1, after, table);
    lemma_write_headers_gives(s, changed.0, changed.1, after);
}

/// The size of the image that `setvs` leaves in the image `s` when it sets
/// the virtual size of the section `i`.
pub open spec fn size_of_image_after(s: Seq<u8>, i: int, virtual_size: u32) -> u32 {
    moved_size_of_image(
        headers_of(s).0.OptionalHeader.SizeOfImage,
        headers_of(s).1[i].PhysAddrORVirtSize,
        virtual_size,
    )
}

/// On a sound image with a section of the name, whose optional header is
/// declared long enough to hold the size of the image and the checksum,
/// `setvs` with a virtual size that is not refused succeeds, and what it
/// leaves is the image with the size of the image moved by the difference,
/// four zero bytes for the checksum, the new virtual size in the section's
/// header, and no other byte changed.
pub proof fn lemma_setvs_changes_three_fields(s: Seq<u8>, name: Seq<u8>, virtual_size: u32)
    requires
        validate_spec(s) is Ok,
        headers_error(s) is None,
        virtual_size_refusal(headers_of(s).1, name, virtual_size) is None,
        headers_of(s).0.FileHeader.SizeOfOptionalHeader >= 68,
    ensures
        section_named(headers_of(s).1, name) matches Some(i) && {
            let after = with_virtual_size_set(
                s,
                i,
                size_of_image_after(s, i, virtual_size),
                virtual_size,
            );
            &&& 0 <= i < headers_of(s).1.len()
            &&& setvs_spec(s, name, virtual_size) == Ok::<Seq<u8>, Failure>(after)
            &&& after.len() == s.len()
            &&& le_u32(after, size_of_image_offset(s)) == size_of_image_after(s, i, virtual_size)
            &&& 0 <= headers_of(s).0.OptionalHeader.SizeOfImage + virtual_size - headers_of(
                s,
            ).1[i].PhysAddrORVirtSize <= u32::MAX ==> size_of_image_after(s, i, virtual_size)
                == headers_of(s).0.OptionalHeader.SizeOfImage + virtual_size - headers_of(
                s,
            ).1[i].PhysAddrORVirtSize
            &&& le_u32(after, checksum_offset(s)) == 0
            &&& le_u32(after, virtual_size_offset(s, i)) == virtual_size
            &&& forall|j: int|
                0 <= j < s.len() && !(size_of_image_offset(s) <= j < size_of_image_offset(s) + 4)
                    && !(checksum_offset(s) <= j < checksum_offset(s) + 4) && !(
                virtual_size_offset(s, i) <= j < virtual_size_offset(s, i) + 4)
                    ==> #[trigger] after[j] == s[j]
        },
{
    lemma_headers_exist(s);
    let nt = headers_of(s).0;
    let sections = headers_of(s).1;
    assert(nt.FileHeader.stored_at(s, nt_offset(s) + 4));
    lemma_setvs_with_headers(s, nt, sections, name, virtual_size);
    let i = section_named(sections, name)->Some_0;
    lemma_with_virtual_size_set(s, i, size_of_image_after(s, i, virtual_size), virtual_size);
}

} // verus!
