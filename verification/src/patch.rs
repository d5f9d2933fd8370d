//! Applying a stream of patch records to an image.
//!
//! A record is an address (32 bits, little-endian), a length (likewise) and
//! as many bytes of payload as the length says. The stream ends at a record
//! whose address is zero, or where the bytes end. A run first reads and
//! checks every record, in the order of the stream, against the section
//! table it is given; only when all are sound does it write. The payloads
//! are taken from the stream as it was handed in, which the writes cannot
//! reach. A write goes where its address translates to, as a write to a
//! file does: behind the end of the image it makes the image longer.

use vstd::prelude::*;
use vstd::slice::{slice_subrange, slice_to_vec};
use crate::bytes::{le_u32, lemma_written_inside, overwrite, read_u32, write_growing, written};
use crate::error::{Failure, PeError};
use crate::reader::{headers_error, headers_of, read_headers, validate, validate_spec};
use crate::section::{find_section, section_named};
use crate::pe::{IMAGE_NT_HEADERS, IMAGE_SECTION_HEADER};
use crate::translate::{runtime_base, translate, translate_spec, Location};

verus! {

/// One write of a patch run, as the contracts speak of it.
pub struct PatchWrite {
    /// The run-time address that the record names.
    pub address: u32,
    /// Where in the file the write begins.
    pub offset: int,
    /// The bytes written.
    pub data: Seq<u8>,
}

/// The report of one patch that was applied.
#[derive(Clone, Copy, Debug, PartialEq, Eq)]
pub struct AppliedPatch {
    /// The run-time address that the record named.
    pub address: u32,
    /// How many bytes were written.
    pub length: u32,
    /// Where in the file they were written.
    pub offset: u64,
}

/// Where in the file a patch of `patch_len` bytes for `address` goes, or why
/// it is refused: no section holds the address, or the patch would run past
/// the end of the raw data of the section that does. The image has no say:
/// a sound patch is written wherever in the file its place lies.
pub open spec fn patch_target(
    patch_len: int,
    address: u32,
    image_base: u32,
    sections: Seq<IMAGE_SECTION_HEADER>,
) -> Result<int, PeError> {
    match translate_spec(address, image_base, sections) {
        Err(e) => Err(e),
        Ok(place) => {
            let section = sections[place.section as int];
            let available = runtime_base(section, image_base) + section.SizeOfRawData - address;
            if patch_len > available {
                Err(
                    PeError::PatchExceedsSection {
                        section: place.section,
                        patch_len: patch_len as usize,
                        available: available as u32,
                    },
                )
            } else {
                Ok(place.offset as int)
            }
        },
    }
}

/// The writes that the records of `stream` from `pos` on ask for, in the
/// order of the stream, or the first fault met in that order: a record cut
/// short, or one whose patch is refused.
pub open spec fn patch_plan(
    stream: Seq<u8>,
    pos: int,
    image_base: u32,
    sections: Seq<IMAGE_SECTION_HEADER>,
) -> Result<Seq<PatchWrite>, PeError>
    decreases stream.len() - pos,
{
    if pos < 0 || pos >= stream.len() {
        Ok(Seq::empty())
    } else if pos + 4 > stream.len() {
        Err(PeError::MalformedPatchStream)
    } else if le_u32(stream, pos) == 0 {
        Ok(Seq::empty())
    } else if pos + 8 > stream.len() {
        Err(PeError::MalformedPatchStream)
    } else if pos + 8 + le_u32(stream, pos + 4) > stream.len() {
        Err(PeError::MalformedPatchStream)
    } else {
        let address = le_u32(stream, pos) as u32;
        let length = le_u32(stream, pos + 4) as int;
        match patch_target(length, address, image_base, sections) {
            Err(e) => Err(e),
            Ok(offset) => match patch_plan(
                stream,
                pos + 8 + length,
                image_base,
                sections,
            ) {
                Err(e) => Err(e),
                Ok(rest) => Ok(
                    seq![
                        (PatchWrite {
                            address,
                            offset,
                            data: stream.subrange(pos + 8, pos + 8 + length),
                        }),
                    ] + rest,
                ),
            },
        }
    }
}

/// The image after the writes were made, one after the other, each as a
/// file takes a write.
pub open spec fn apply_writes(image: Seq<u8>, writes: Seq<PatchWrite>) -> Seq<u8>
    decreases writes.len(),
{
    if writes.len() == 0 {
        image
    } else {
        written(
            apply_writes(image, writes.drop_last()),
            writes.last().offset,
            writes.last().data,
        )
    }
}

/// The report names each write, in order, with its address, length and
/// place.
pub open spec fn reports(log: Seq<AppliedPatch>, writes: Seq<PatchWrite>) -> bool {
    &&& log.len() == writes.len()
    &&& forall|i: int|
        0 <= i < log.len() ==> {
            &&& (#[trigger] log[i]).address == writes[i].address
            &&& log[i].length == writes[i].data.len()
            &&& log[i].offset == writes[i].offset
        }
}

/// The bytes of every write are those of `stream` from the place that
/// `starts` gives for it.
spec fn drawn_from(writes: Seq<PatchWrite>, starts: Seq<usize>, stream: Seq<u8>) -> bool {
    &&& starts.len() == writes.len()
    &&& forall|i: int|
        0 <= i < writes.len() ==> fits(#[trigger] writes[i], starts[i] as int, stream)
}

/// The bytes of the write are those of `stream` from `start` on, and the
/// write ends where a 64-bit offset still reaches.
spec fn fits(write: PatchWrite, start: int, stream: Seq<u8>) -> bool {
    &&& 0 <= write.offset
    &&& write.offset + write.data.len() <= 0x3_0000_0000
    &&& 0 <= start
    &&& start + write.data.len() <= stream.len()
    &&& write.data == stream.subrange(start, start + write.data.len())
}

/// A patch that begins in a section and is longer than what is left of the
/// section's raw data from its address on is refused.
pub proof fn lemma_patch_beyond_section_is_refused(
    patch_len: int,
    address: u32,
    image_base: u32,
    sections: Seq<IMAGE_SECTION_HEADER>,
    place: Location,
)
    requires
        translate_spec(address, image_base, sections) == Ok::<Location, PeError>(place),
        patch_len > runtime_base(sections[place.section as int], image_base)
            + sections[place.section as int].SizeOfRawData - address,
    ensures
        patch_target(patch_len, address, image_base, sections) matches Err(
            PeError::PatchExceedsSection { section, .. },
        ) && section == place.section,
{
}

/// A patch that begins in a section and ends inside that section's raw data
/// is accepted, and its place is the one the address translates to, inside
/// that raw data.
pub proof fn lemma_patch_inside_section_is_accepted(
    patch_len: int,
    address: u32,
    image_base: u32,
    sections: Seq<IMAGE_SECTION_HEADER>,
    place: Location,
)
    requires
        0 <= patch_len,
        translate_spec(address, image_base, sections) == Ok::<Location, PeError>(place),
        patch_len <= runtime_base(sections[place.section as int], image_base)
            + sections[place.section as int].SizeOfRawData - address,
    ensures
        patch_target(patch_len, address, image_base, sections) == Ok::<int, PeError>(
            place.offset as int,
        ),
{
}

/// Finds where a patch goes, or why it is refused.
fn locate(
    patch_len: usize,
    address: u32,
    image_base: u32,
    sections: &[IMAGE_SECTION_HEADER],
) -> (r: Result<u64, PeError>)
    ensures
        match patch_target(patch_len as int, address, image_base, sections@) {
            Ok(offset) => r == Ok::<u64, PeError>(offset as u64) && 0 <= offset && offset
                + patch_len <= 0x3_0000_0000,
            Err(e) => r == Err::<u64, PeError>(e),
        },
{
    let place = translate(address, image_base, sections)?;
    let section = &sections[place.section];
    let end: u64 = section.VirtualAddress as u64 + image_base as u64 + section.SizeOfRawData as u64;
    let available: u64 = end - address as u64;
    if patch_len as u64 > available {
        return Err(
            PeError::PatchExceedsSection {
                section: place.section,
                patch_len,
                available: available as u32,
            },
        );
    }
    Ok(place.offset)
}

/// Writes `data` into the image at the place in the file where the byte at
/// `address` lies, if the patch is sound: it begins in a section and ends
/// before the end of that section's raw data. The write is made as a file
/// takes it: where the place lies behind the end of the image, the image
/// grows to hold it, with zero bytes in between. An unsound patch is refused
/// and nothing is written.
pub fn patch(
    data: &[u8],
    address: u32,
    out: &mut Vec<u8>,
    nt_header: &IMAGE_NT_HEADERS,
    section_headers: &[IMAGE_SECTION_HEADER],
) -> (r: Result<(), PeError>)
    ensures
        match patch_target(
            data@.len() as int,
            address,
            nt_header.OptionalHeader.ImageBase,
            section_headers@,
        ) {
            Ok(offset) => r is Ok && final(out)@ == written(old(out)@, offset, data@),
            Err(e) => r == Err::<(), PeError>(e) && final(out)@ == old(out)@,
        },
{
    let offset = locate(
        data.len(),
        address,
        nt_header.OptionalHeader.ImageBase,
        section_headers,
    )?;
    write_growing(out, offset, data);
    Ok(())
}

/// Applies the patch records of `patches` to the image, all or none. Every
/// record is read and checked before the first byte is written; at the
/// first fault, in the order of the stream, the run ends with that fault
/// and the image is left as it was. The writes are made as a file takes
/// them: one that ends behind the end of the image makes the image longer.
/// The report lists the patches applied, in the order of the stream.
pub fn patch_all(
    patches: &[u8],
    out: &mut Vec<u8>,
    nt_header: &IMAGE_NT_HEADERS,
    section_headers: &[IMAGE_SECTION_HEADER],
) -> (r: Result<Vec<AppliedPatch>, PeError>)
    ensures
        match patch_plan(patches@,
            0,
            nt_header.OptionalHeader.ImageBase,
            section_headers@,
        ) {
            Ok(writes) => r matches Ok(log) && reports(log@, writes) && final(out)@
                == apply_writes(old(out)@, writes),
            Err(e) => r == Err::<Vec<AppliedPatch>, PeError>(e) && final(out)@ == old(out)@,
        },
{
    let image_base = nt_header.OptionalHeader.ImageBase;
    let n = patches.len();
    let ghost whole = patch_plan(patches@, 0, image_base, section_headers@);
    let ghost mut writes: Seq<PatchWrite> = Seq::empty();
    let mut log: Vec<AppliedPatch> = Vec::new();
    let mut starts: Vec<usize> = Vec::new();
    let mut pos: usize = 0;
    let mut more = true;
    proof {
        let rest = patch_plan(patches@, 0, image_base, section_headers@);
        if let Ok(tail) = rest {
            assert(writes + tail =~= tail);
        }
    }
    while more
        invariant
            n == patches.len(),
            pos <= n,
            out@ == old(out)@,
            image_base == nt_header.OptionalHeader.ImageBase,
            whole == patch_plan(patches@, 0, image_base, section_headers@),
            reports(log@, writes),
            starts.len() == log.len(),
            drawn_from(writes, starts@, patches@),
            more ==> whole == match patch_plan(patches@,
                pos as int,
                image_base,
                section_headers@,
            ) {
                Ok(tail) => Ok::<Seq<PatchWrite>, PeError>(writes + tail),
                Err(e) => Err(e),
            },
            !more ==> whole == Ok::<Seq<PatchWrite>, PeError>(writes),
        decreases n - pos + (if more { 1int } else { 0int }),
    {
        if pos >= n {
            proof {
                assert(writes + Seq::<PatchWrite>::empty() =~= writes);
            }
            more = false;
        } else if n - pos < 4 {
            return Err(PeError::MalformedPatchStream);
        } else {
            let address = read_u32(patches, pos);
            if address == 0 {
                proof {
                    assert(writes + Seq::<PatchWrite>::empty() =~= writes);
                }
                more = false;
            } else if n - pos < 8 {
                return Err(PeError::MalformedPatchStream);
            } else {
                let length = read_u32(patches, pos + 4);
                if ((n - pos - 8) as u64) < length as u64 {
                    return Err(PeError::MalformedPatchStream);
                }
                let offset = locate(length as usize, address, image_base, section_headers)?;
                let ghost write = PatchWrite {
                    address,
                    offset: offset as int,
                    data: patches@.subrange(pos + 8, pos + 8 + length),
                };
                proof {
                    let next = patch_plan(patches@,
                        pos + 8 + length,
                        image_base,
                        section_headers@,
                    );
                    if let Ok(tail) = next {
                        assert(writes + (seq![write] + tail) =~= writes.push(write) + tail);
                    }
                    assert(fits(write, pos + 8, patches@));
                    writes = writes.push(write);
                }
                log.push(AppliedPatch { address, length, offset });
                starts.push(pos + 8);
                pos = pos + 8 + length as usize;
            }
        }
    }
    let mut i: usize = 0;
    while i < log.len()
        invariant
            i <= log.len(),
            n == patches.len(),
            reports(log@, writes),
            starts.len() == log.len(),
            drawn_from(writes, starts@, patches@),
            out@ == apply_writes(old(out)@, writes.take(i as int)),
        decreases log.len() - i,
    {
        assert(fits(writes[i as int], starts[i as int] as int, patches@));
        let start = starts[i];
        let length = log[i].length as usize;
        let data = slice_subrange(patches, start, start + length);
        write_growing(out, log[i].offset, data);
        proof {
            assert(writes.take(i + 1).drop_last() =~= writes.take(i as int));
        }
        i = i + 1;
    }
    proof {
        assert(writes.take(i as int) =~= writes);
    }
    Ok(log)
}

/// The patch stream that an image carries in a section: the section's raw
/// data.
pub open spec fn section_stream(s: Seq<u8>, section: IMAGE_SECTION_HEADER) -> Seq<u8> {
    s.subrange(
        section.PointerToRawData as int,
        section.PointerToRawData + section.SizeOfRawData,
    )
}

/// The writes that `patch_image` makes, or why it makes none.
pub open spec fn patch_image_plan(s: Seq<u8>, name: Seq<u8>) -> Result<Seq<PatchWrite>, Failure> {
    if validate_spec(s) is Err {
        Err(validate_spec(s)->Err_0@)
    } else if headers_error(s) is Some {
        Err(headers_error(s)->Some_0@)
    } else if section_named(headers_of(s).1, name) is None {
        Err(Failure::SectionNotFound { name })
    } else {
        let section = headers_of(s).1[section_named(headers_of(s).1, name)->Some_0];
        if section.PointerToRawData + section.SizeOfRawData > s.len() {
            Err(Failure::TruncatedFile)
        } else {
            match patch_plan(section_stream(s, section),
                0,
                headers_of(s).0.OptionalHeader.ImageBase,
                headers_of(s).1,
            ) {
                Ok(writes) => Ok(writes),
                Err(e) => Err(e@),
            }
        }
    }
}

/// Applies to an image the patch stream that it carries in the raw data of
/// the first section with the given name: checks the image, reads its
/// headers, takes a copy of the stream and runs it as `patch_all` does, all
/// or none. The writes cannot harm the stream, which is read from the copy.
pub fn patch_image(image: &mut Vec<u8>, name: &[u8]) -> (r: Result<Vec<AppliedPatch>, PeError>)
    ensures
        match patch_image_plan(old(image)@, name@) {
            Ok(writes) => r matches Ok(log) && reports(log@, writes) && final(image)@
                == apply_writes(old(image)@, writes),
            Err(e) => r matches Err(err) && err@ == e && final(image)@ == old(image)@,
        },
{
    validate(image.as_slice())?;
    let (nt, sections) = read_headers(image.as_slice())?;
    let i = match find_section(sections.as_slice(), name) {
        Some(i) => i,
        None => {
            return Err(PeError::SectionNotFound { name: slice_to_vec(name) });
        },
    };
    let start: u64 = sections[i].PointerToRawData as u64;
    let end: u64 = start + sections[i].SizeOfRawData as u64;
    if end > image.len() as u64 {
        return Err(PeError::TruncatedFile);
    }
    let stream = slice_to_vec(slice_subrange(image.as_slice(), start as usize, end as usize));
    patch_all(stream.as_slice(), image, &nt, sections.as_slice())
}

/// A stream of one record and the closing zero address, for an address
/// where the patch is sound, writes the record's bytes at the place in the
/// file to which the address translates, and changes no other byte: where
/// the place lies inside the image, the image keeps its length and every
/// byte outside the place; where it passes the end, what is new besides the
/// record's bytes is zero.
pub proof fn lemma_single_patch(
    image: Seq<u8>,
    stream: Seq<u8>,
    address: u32,
    data: Seq<u8>,
    image_base: u32,
    sections: Seq<IMAGE_SECTION_HEADER>,
    offset: int,
)
    requires
        address != 0,
        data.len() <= u32::MAX,
        stream.len() >= 12 + data.len(),
        le_u32(stream, 0) == address,
        le_u32(stream, 4) == data.len(),
        stream.subrange(8, 8 + data.len() as int) == data,
        le_u32(stream, 8 + data.len() as int) == 0,
        patch_target(data.len() as int, address, image_base, sections) == Ok::<int, PeError>(
            offset,
        ),
    ensures
        patch_plan(stream, 0, image_base, sections) == Ok::<Seq<PatchWrite>, PeError>(
            seq![(PatchWrite { address, offset, data })],
        ),
        apply_writes(image, seq![(PatchWrite { address, offset, data })]) == written(
            image,
            offset,
            data,
        ),
        forall|i: int|
            offset <= i < offset + data.len() ==> written(image, offset, data)[i] == data[i
                - offset],
        forall|i: int|
            0 <= i < image.len() && !(offset <= i < offset + data.len()) ==> written(
                image,
                offset,
                data,
            )[i] == image[i],
        forall|i: int|
            data.len() > 0 && image.len() <= i < offset ==> written(image, offset, data)[i]
                == 0u8,
        offset + data.len() <= image.len() ==> written(image, offset, data) == overwrite(
            image,
            offset,
            data,
        ),
{
    if 0 <= offset && offset + data.len() <= image.len() {
        lemma_written_inside(image, offset, data);
    }
    let write = PatchWrite { address, offset, data };
    let next = patch_plan(stream, 8 + data.len() as int, image_base, sections);
    assert(next == Ok::<Seq<PatchWrite>, PeError>(Seq::empty()));
    assert(seq![write] + Seq::<PatchWrite>::empty() =~= seq![write]);
    assert(seq![write].drop_last() =~= Seq::<PatchWrite>::empty());
    assert(apply_writes(image, Seq::<PatchWrite>::empty()) == image);
}

} // verus!
