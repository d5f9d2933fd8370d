//! Writing headers back to where they were read from.

use vstd::prelude::*;
use crate::bytes::{le_u16, lemma_overwrite_with_same, overwrite, read_u32, write_at};
use crate::error::PeError;
use crate::pe::{
    IMAGE_NT_HEADERS, IMAGE_SECTION_HEADER, IMAGE_SIZEOF_DOS_HEADER, IMAGE_SIZEOF_OPTIONAL_HEADER,
    IMAGE_SIZEOF_SECTION_HEADER,
};
use crate::reader::{
    headers_error, headers_of, headers_stored, lemma_headers_exist, nt_offset, section_count,
    section_table_offset,
};

verus! {

/// The bytes of a section table on disk: its headers one after the other.
pub open spec fn section_table_bytes(sections: Seq<IMAGE_SECTION_HEADER>) -> Seq<u8> {
    Seq::new(
        (IMAGE_SIZEOF_SECTION_HEADER * sections.len()) as nat,
        |i: int| sections[i / 40].bytes()[i % 40],
    )
}

/// How many bytes of `nt` are written back: signature and file header, and
/// of the optional header as much as the file header declares, but no more
/// than this library models.
pub open spec fn written_header_len(nt: IMAGE_NT_HEADERS) -> int {
    if nt.FileHeader.SizeOfOptionalHeader < IMAGE_SIZEOF_OPTIONAL_HEADER {
        24 + nt.FileHeader.SizeOfOptionalHeader
    } else {
        24 + IMAGE_SIZEOF_OPTIONAL_HEADER
    }
}

/// Where `nt` puts the section table in the image `s`: behind the end that
/// it declares for the optional header.
pub open spec fn written_table_offset(s: Seq<u8>, nt: IMAGE_NT_HEADERS) -> int {
    nt_offset(s) + 24 + nt.FileHeader.SizeOfOptionalHeader
}

/// The image that `write_headers` leaves, or why it writes nothing.
pub open spec fn write_headers_spec(
    s: Seq<u8>,
    nt: IMAGE_NT_HEADERS,
    sections: Seq<IMAGE_SECTION_HEADER>,
) -> Result<Seq<u8>, PeError> {
    if s.len() < IMAGE_SIZEOF_DOS_HEADER {
        Err(PeError::TooSmall)
    } else if nt_offset(s) + written_header_len(nt) > s.len() {
        Err(PeError::TruncatedFile)
    } else if written_table_offset(s, nt) + IMAGE_SIZEOF_SECTION_HEADER * sections.len()
        > s.len() {
        Err(PeError::TruncatedFile)
    } else {
        Ok(
            overwrite(
                overwrite(s, nt_offset(s), nt.bytes().subrange(0, written_header_len(nt))),
                written_table_offset(s, nt),
                section_table_bytes(sections),
            ),
        )
    }
}

/// Encodes a section table.
pub fn encode_section_table(sections: &[IMAGE_SECTION_HEADER]) -> (r: Vec<u8>)
    ensures
        r@ == section_table_bytes(sections@),
{
    let ghost table = section_table_bytes(sections@);
    let mut out: Vec<u8> = Vec::new();
    let mut k: usize = 0;
    assert(out@ =~= table.subrange(0, 0));
    while k < sections.len()
        invariant
            k <= sections.len(),
            table == section_table_bytes(sections@),
            out@ == table.subrange(0, 40 * k),
        decreases sections.len() - k,
    {
        let ghost before = out@;
        sections[k].encode(&mut out);
        proof {
            let entry = sections@[k as int].bytes();
            sections@[k as int].lemma_bytes_len();
            assert forall|i: int| 0 <= i < 40 implies entry[i] == table[40 * k + i] by {
                assert((40 * k + i) / 40 == k);
                assert((40 * k + i) % 40 == i);
            }
            assert(table.subrange(0, 40 * k) + entry =~= table.subrange(0, 40 * (k + 1)));
        }
        k = k + 1;
    }
    assert(table.subrange(0, 40 * k) =~= table);
    out
}

/// Writes the NT headers and the section table into the image: the NT
/// headers where the DOS header points, cut off at the optional header's
/// declared end so that they never run into the section table, and the
/// section table behind that end. The checksum is written as it stands in
/// `nt_headers`. When the headers do not fit, nothing is written.
pub fn write_headers(
    image: &mut Vec<u8>,
    nt_headers: &IMAGE_NT_HEADERS,
    sections: &[IMAGE_SECTION_HEADER],
) -> (r: Result<(), PeError>)
    ensures
        match write_headers_spec(old(image)@, *nt_headers, sections@) {
            Ok(written) => r is Ok && final(image)@ == written,
            Err(e) => r == Err::<(), PeError>(e) && final(image)@ == old(image)@,
        },
{
    if image.len() < IMAGE_SIZEOF_DOS_HEADER {
        return Err(PeError::TooSmall);
    }
    let len: u64 = image.len() as u64;
    let off: u64 = read_u32(image.as_slice(), 60) as u64;
    let declared: u64 = nt_headers.FileHeader.SizeOfOptionalHeader as u64;
    let head: u64 = if declared < 224 {
        24 + declared
    } else {
        248
    };
    let table: u64 = off + 24 + declared;
    let count: u64 = sections.len() as u64;
    if off + head > len {
        return Err(PeError::TruncatedFile);
    }
    if count > len / 40 || table > len - 40 * count {
        return Err(PeError::TruncatedFile);
    }
    let mut header: Vec<u8> = Vec::new();
    nt_headers.encode(&mut header);
    proof {
        nt_headers.lemma_bytes_len();
        assert(header@ =~= nt_headers.bytes());
    }
    header.truncate(head as usize);
    write_at(image, off as usize, header.as_slice());
    let body = encode_section_table(sections);
    write_at(image, table as usize, body.as_slice());
    Ok(())
}

/// A stored section table encodes to the bytes it is stored in.
pub proof fn lemma_section_table_bytes_of_stored(
    sections: Seq<IMAGE_SECTION_HEADER>,
    s: Seq<u8>,
    off: int,
)
    requires
        0 <= off,
        off + 40 * sections.len() <= s.len(),
        forall|k: int| 0 <= k < sections.len() ==> (#[trigger] sections[k]).stored_at(s, off + 40 * k),
    ensures
        section_table_bytes(sections) == s.subrange(off, off + 40 * sections.len()),
{
    assert forall|i: int| 0 <= i < 40 * sections.len() implies section_table_bytes(sections)[i]
        == s[off + i] by {
        let k = i / 40;
        assert(sections[k].stored_at(s, off + 40 * k));
        sections[k].lemma_bytes_of_stored(s, off + 40 * k);
        assert(sections[k].bytes()[i % 40] == s.subrange(off + 40 * k, off + 40 * k + 40)[i % 40]);
    }
    assert(section_table_bytes(sections) =~= s.subrange(off, off + 40 * sections.len()));
}

/// Writing back the headers that were read from an image, unchanged, leaves
/// every byte of the image as it was.
pub proof fn lemma_read_then_write_is_identity(
    s: Seq<u8>,
    nt: IMAGE_NT_HEADERS,
    sections: Seq<IMAGE_SECTION_HEADER>,
)
    requires
        headers_error(s) is None,
        headers_stored(s, nt, sections),
    ensures
        sections.len() == nt.FileHeader.NumberOfSections,
        write_headers_spec(s, nt, sections) == Ok::<Seq<u8>, PeError>(s),
{
    let off = nt_offset(s);
    let head = written_header_len(nt);
    let table = section_table_offset(s);
    assert(nt.FileHeader.SizeOfOptionalHeader == le_u16(s, off + 20)) by {
        assert(nt.FileHeader.stored_at(s, off + 4));
    }
    assert(nt.FileHeader.NumberOfSections == le_u16(s, off + 6)) by {
        assert(nt.FileHeader.stored_at(s, off + 4));
    }
    assert(table == written_table_offset(s, nt));
    nt.lemma_bytes_of_stored(s, off);
    lemma_overwrite_with_same(s, off, nt.bytes(), head);
    lemma_section_table_bytes_of_stored(sections, s, table);
    lemma_overwrite_with_same(s, table, section_table_bytes(sections), 0);
}

/// A section table whose encoding is stored somewhere is stored there.
pub proof fn lemma_section_table_stored_of_bytes(
    sections: Seq<IMAGE_SECTION_HEADER>,
    s: Seq<u8>,
    off: int,
)
    requires
        0 <= off,
        off + 40 * sections.len() <= s.len(),
        section_table_bytes(sections) == s.subrange(off, off + 40 * sections.len()),
    ensures
        forall|k: int|
            0 <= k < sections.len() ==> (#[trigger] sections[k]).stored_at(s, off + 40 * k),
{
    assert forall|k: int| 0 <= k < sections.len() implies (#[trigger] sections[k]).stored_at(
        s,
        off + 40 * k,
    ) by {
        sections[k].lemma_bytes_len();
        assert forall|j: int| 0 <= j < 40 implies sections[k].bytes()[j] == s[off + 40 * k + j] by {
            assert((40 * k + j) / 40 == k);
            assert((40 * k + j) % 40 == j);
            assert(section_table_bytes(sections)[40 * k + j] == sections[k].bytes()[j]);
            assert(s.subrange(off, off + 40 * sections.len())[40 * k + j] == s[off + 40 * k + j]);
        }
        assert(sections[k].bytes() =~= s.subrange(off + 40 * k, off + 40 * k + 40));
        sections[k].lemma_stored_of_bytes(s, off + 40 * k);
    }
}

/// Headers that were written are the headers that are read back, where the
/// write is whole: the NT headers lie behind the DOS header, the optional
/// header is declared at no less than its full size, and the file header
/// counts the sections that were written.
pub proof fn lemma_write_then_read(
    s: Seq<u8>,
    nt: IMAGE_NT_HEADERS,
    sections: Seq<IMAGE_SECTION_HEADER>,
    written: Seq<u8>,
)
    requires
        write_headers_spec(s, nt, sections) == Ok::<Seq<u8>, PeError>(written),
        nt_offset(s) >= IMAGE_SIZEOF_DOS_HEADER,
        nt.FileHeader.SizeOfOptionalHeader >= IMAGE_SIZEOF_OPTIONAL_HEADER,
        nt.FileHeader.NumberOfSections == sections.len(),
    ensures
        headers_error(written) is None,
        headers_stored(written, nt, sections),
{
    let off = nt_offset(s);
    let table = written_table_offset(s, nt);
    nt.lemma_bytes_len();
    let head = nt.bytes().subrange(0, 248);
    assert(head =~= nt.bytes());
    let first = overwrite(s, off, head);
    assert(written == overwrite(first, table, section_table_bytes(sections)));
    assert(written.len() == s.len());
    assert(nt_offset(written) == off) by {
        assert(written[60] == s[60]);
        assert(written[61] == s[61]);
        assert(written[62] == s[62]);
        assert(written[63] == s[63]);
    }
    assert(written.subrange(off, off + 248) =~= nt.bytes());
    nt.lemma_stored_of_bytes(written, off);
    assert(nt.FileHeader.stored_at(written, off + 4));
    assert(section_table_offset(written) == table);
    assert(section_count(written) == sections.len());
    assert(written.subrange(table, table + 40 * sections.len()) =~= section_table_bytes(
        sections,
    ));
    lemma_section_table_stored_of_bytes(sections, written, table);
}

/// Writing headers into an image gives the image that holds their encoding
/// where the write goes and the bytes of the old image everywhere else.
pub proof fn lemma_write_headers_gives(
    s: Seq<u8>,
    nt: IMAGE_NT_HEADERS,
    sections: Seq<IMAGE_SECTION_HEADER>,
    after: Seq<u8>,
)
    requires
        s.len() >= IMAGE_SIZEOF_DOS_HEADER,
        after.len() == s.len(),
        nt_offset(s) + written_header_len(nt) <= s.len(),
        written_table_offset(s, nt) + 40 * sections.len() <= s.len(),
        nt.bytes().subrange(0, written_header_len(nt)) == after.subrange(
            nt_offset(s),
            nt_offset(s) + written_header_len(nt),
        ),
        section_table_bytes(sections) == after.subrange(
            written_table_offset(s, nt),
            written_table_offset(s, nt) + 40 * sections.len(),
        ),
        forall|j: int|
            0 <= j < s.len() && !(nt_offset(s) <= j < nt_offset(s) + written_header_len(nt)) && !(
            written_table_offset(s, nt) <= j < written_table_offset(s, nt) + 40 * sections.len())
                ==> after[j] == s[j],
    ensures
        write_headers_spec(s, nt, sections) == Ok::<Seq<u8>, PeError>(after),
{
    let off = nt_offset(s);
    let head = written_header_len(nt);
    let table = written_table_offset(s, nt);
    let n = 40 * sections.len();
    let piece = nt.bytes().subrange(0, head);
    let body = section_table_bytes(sections);
    let w = overwrite(overwrite(s, off, piece), table, body);
    assert forall|j: int| 0 <= j < s.len() implies w[j] == after[j] by {
        if table <= j < table + n {
            assert(body[j - table] == after.subrange(table, table + n)[j - table]);
        } else if off <= j < off + head {
            assert(piece[j - off] == after.subrange(off, off + head)[j - off]);
        }
    }
    assert(w =~= after);
}

/// Writing the headers of an image back into it leaves every byte of the
/// image as it was, and the section table of an image has as many headers
/// as the file header counts.
pub proof fn lemma_round_trip(s: Seq<u8>)
    requires
        headers_error(s) is None,
    ensures
        headers_of(s).1.len() == headers_of(s).0.FileHeader.NumberOfSections,
        write_headers_spec(s, headers_of(s).0, headers_of(s).1) == Ok::<Seq<u8>, PeError>(s),
{
    lemma_headers_exist(s);
    lemma_read_then_write_is_identity(s, headers_of(s).0, headers_of(s).1);
}

} // verus!
