//! Finding and reading the headers of an image.

use vstd::prelude::*;
use crate::bytes::{le_u16, le_u32, read_u32};
use crate::error::PeError;
use crate::pe::{
    IMAGE_DOS_HEADER, IMAGE_DOS_SIGNATURE, IMAGE_NT_HEADERS, IMAGE_OPTIONAL_HEADER, IMAGE_NT_SIGNATURE, IMAGE_SECTION_HEADER,
    IMAGE_SIZEOF_DOS_HEADER, IMAGE_SIZEOF_NT_HEADERS, IMAGE_SIZEOF_SECTION_HEADER,
};

verus! {

/// Where the DOS header says the NT headers begin: its field `e_lfanew`,
/// read as 32 bits.
pub open spec fn nt_offset(s: Seq<u8>) -> int {
    le_u32(s, 60) as int
}

/// Where the section table of `s` begins, going by the size that its file
/// header declares for the optional header.
pub open spec fn section_table_offset(s: Seq<u8>) -> int {
    nt_offset(s) + 24 + le_u16(s, nt_offset(s) + 20)
}

/// How many sections the file header of `s` declares.
pub open spec fn section_count(s: Seq<u8>) -> int {
    le_u16(s, nt_offset(s) + 6) as int
}

/// What `validate` answers for the bytes `s`.
pub open spec fn validate_spec(s: Seq<u8>) -> Result<(), PeError> {
    if s.len() < IMAGE_SIZEOF_DOS_HEADER {
        Err(PeError::TooSmall)
    } else if le_u16(s, 0) != IMAGE_DOS_SIGNATURE {
        Err(PeError::InvalidFormat)
    } else if nt_offset(s) + 4 > s.len() {
        Err(PeError::TruncatedFile)
    } else if le_u32(s, nt_offset(s)) != IMAGE_NT_SIGNATURE {
        Err(PeError::InvalidFormat)
    } else {
        Ok(())
    }
}

/// Why the headers of `s` cannot be read, if they cannot.
pub open spec fn headers_error(s: Seq<u8>) -> Option<PeError> {
    if s.len() < IMAGE_SIZEOF_DOS_HEADER {
        Some(PeError::TooSmall)
    } else if nt_offset(s) + IMAGE_SIZEOF_NT_HEADERS > s.len() {
        Some(PeError::TruncatedFile)
    } else if section_table_offset(s) + IMAGE_SIZEOF_SECTION_HEADER * section_count(s) > s.len() {
        Some(PeError::TruncatedFile)
    } else {
        None
    }
}

/// `nt` and `sections` are the headers of `s`: the NT headers stored where
/// the DOS header points, and as many section headers as the file header
/// counts, stored one after the other behind the optional header's declared
/// end.
pub open spec fn headers_stored(
    s: Seq<u8>,
    nt: IMAGE_NT_HEADERS,
    sections: Seq<IMAGE_SECTION_HEADER>,
) -> bool {
    &&& nt.stored_at(s, nt_offset(s))
    &&& sections.len() == nt.FileHeader.NumberOfSections
    &&& forall|k: int|
        0 <= k < sections.len() ==> (#[trigger] sections[k]).stored_at(
            s,
            section_table_offset(s) + IMAGE_SIZEOF_SECTION_HEADER * k,
        )
}

/// The headers of `s`: the one pair of NT headers and section table that is
/// stored in it.
pub open spec fn headers_of(s: Seq<u8>) -> (IMAGE_NT_HEADERS, Seq<IMAGE_SECTION_HEADER>) {
    choose|h: (IMAGE_NT_HEADERS, Seq<IMAGE_SECTION_HEADER>)| headers_stored(s, h.0, h.1)
}

/// Checks the two signatures of a PE image: "MZ" at the start of the file,
/// and "PE\0\0" where the DOS header says the NT headers begin.
pub fn validate(image: &[u8]) -> (r: Result<(), PeError>)
    ensures
        r == validate_spec(image@),
{
    if image.len() < IMAGE_SIZEOF_DOS_HEADER {
        return Err(PeError::TooSmall);
    }
    let dos = IMAGE_DOS_HEADER::decode(image, 0);
    if dos.e_magic != IMAGE_DOS_SIGNATURE {
        return Err(PeError::InvalidFormat);
    }
    let lfanew: u64 = dos.e_lfanew as u64;
    if lfanew + 4 > image.len() as u64 {
        return Err(PeError::TruncatedFile);
    }
    if read_u32(image, lfanew as usize) != IMAGE_NT_SIGNATURE {
        return Err(PeError::InvalidFormat);
    }
    Ok(())
}

/// Reads the NT headers and the section table. The optional header is read
/// in the size this library models; the section table is sought behind the
/// size that the file header declares, be it smaller or larger.
pub fn read_headers(image: &[u8]) -> (r: Result<
    (IMAGE_NT_HEADERS, Vec<IMAGE_SECTION_HEADER>),
    PeError,
>)
    ensures
        match r {
            Ok((nt, sections)) => headers_error(image@) is None && headers_stored(
                image@,
                nt,
                sections@,
            ) && headers_of(image@) == (nt, sections@),
            Err(e) => headers_error(image@) == Some(e),
        },
{
    if image.len() < IMAGE_SIZEOF_DOS_HEADER {
        return Err(PeError::TooSmall);
    }
    let len: u64 = image.len() as u64;
    let lfanew: u64 = read_u32(image, 60) as u64;
    if lfanew + IMAGE_SIZEOF_NT_HEADERS as u64 > len {
        return Err(PeError::TruncatedFile);
    }
    let nt = IMAGE_NT_HEADERS::decode(image, lfanew as usize);
    let count: u64 = nt.FileHeader.NumberOfSections as u64;
    let table: u64 = lfanew + 24 + nt.FileHeader.SizeOfOptionalHeader as u64;
    if table + IMAGE_SIZEOF_SECTION_HEADER as u64 * count > len {
        return Err(PeError::TruncatedFile);
    }
    let mut sections: Vec<IMAGE_SECTION_HEADER> = Vec::new();
    let mut k: u64 = 0;
    while k < count
        invariant
            k <= count,
            count <= u16::MAX,
            len == image.len(),
            table == section_table_offset(image@),
            table + 40 * count <= len,
            sections.len() == k,
            forall|j: int|
                0 <= j < k ==> (#[trigger] sections[j]).stored_at(image@, table + 40 * j),
        decreases count - k,
    {
        let section = IMAGE_SECTION_HEADER::decode(image, (table + 40 * k) as usize);
        sections.push(section);
        k = k + 1;
    }
    proof {
        lemma_headers_of(image@, nt, sections@);
    }
    Ok((nt, sections))
}

/// An image has no two different sets of headers.
pub proof fn lemma_headers_unique(
    s: Seq<u8>,
    nt1: IMAGE_NT_HEADERS,
    sections1: Seq<IMAGE_SECTION_HEADER>,
    nt2: IMAGE_NT_HEADERS,
    sections2: Seq<IMAGE_SECTION_HEADER>,
)
    requires
        headers_stored(s, nt1, sections1),
        headers_stored(s, nt2, sections2),
    ensures
        nt1 == nt2,
        sections1 == sections2,
{
    reveal(IMAGE_OPTIONAL_HEADER::stored_at);
    let t1 = nt1.OptionalHeader.DataDirectory;
    let t2 = nt2.OptionalHeader.DataDirectory;
    assert forall|k: int| 0 <= k < 16 implies t1[k] == t2[k] by {
        assert(t1@[k].stored_at(s, nt_offset(s) + 24 + 96 + 8 * k));
        assert(t2@[k].stored_at(s, nt_offset(s) + 24 + 96 + 8 * k));
    }
    assert(t1 =~= t2);
    assert forall|k: int| 0 <= k < sections1.len() implies sections1[k] == sections2[k] by {
        let a = sections1[k];
        let b = sections2[k];
        assert(a.stored_at(s, section_table_offset(s) + 40 * k));
        assert(b.stored_at(s, section_table_offset(s) + 40 * k));
        assert(a.Name =~= b.Name);
    }
    assert(sections1 =~= sections2);
}

/// The headers stored in an image are the headers of the image.
pub proof fn lemma_headers_of(
    s: Seq<u8>,
    nt: IMAGE_NT_HEADERS,
    sections: Seq<IMAGE_SECTION_HEADER>,
)
    requires
        headers_stored(s, nt, sections),
    ensures
        headers_of(s) == (nt, sections),
{
    let h = headers_of(s);
    assert(headers_stored(s, (nt, sections).0, (nt, sections).1));
    lemma_headers_unique(s, nt, sections, h.0, h.1);
}

/// An image whose headers can be read has headers, and they are the
/// headers of the image.
pub proof fn lemma_headers_exist(s: Seq<u8>)
    requires
        headers_error(s) is None,
    ensures
        headers_stored(s, headers_of(s).0, headers_of(s).1),
{
    let off = nt_offset(s);
    let table = section_table_offset(s);
    let nt = IMAGE_NT_HEADERS::at(s, off);
    IMAGE_NT_HEADERS::lemma_at_is_stored(s, off);
    assert(nt.FileHeader.stored_at(s, off + 4));
    let sections = Seq::new(
        section_count(s) as nat,
        |k: int| IMAGE_SECTION_HEADER::at(s, table + 40 * k),
    );
    assert forall|k: int| 0 <= k < sections.len() implies (#[trigger] sections[k]).stored_at(
        s,
        table + 40 * k,
    ) by {
        IMAGE_SECTION_HEADER::lemma_at_is_stored(s, table + 40 * k);
    }
    assert(headers_stored(s, (nt, sections).0, (nt, sections).1));
}

} // verus!
