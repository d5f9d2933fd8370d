//! What the linker script of an image says.

use vstd::prelude::*;
use crate::error::PeError;
use crate::pe::{IMAGE_NT_HEADERS, IMAGE_SECTION_HEADER};
use crate::reader::{headers_error, headers_of, read_headers, validate, validate_spec};
use crate::text::{is_name_text, section_name_text};

verus! {

/// One section of the script: a name and the address to link it at.
#[derive(Debug, PartialEq, Eq)]
pub struct LinkerSection {
    pub name: String,
    pub address: u64,
}

/// The content of a linker script: the entry point and the sections.
#[derive(Debug, PartialEq, Eq)]
pub struct LinkerScript {
    pub entry: u64,
    pub sections: Vec<LinkerSection>,
}

/// The script is the script of the headers: the entry point is the image
/// base plus the entry point's address, and every section is linked at the
/// image base plus its virtual address.
pub open spec fn is_script_of(
    script: LinkerScript,
    nt: IMAGE_NT_HEADERS,
    sections: Seq<IMAGE_SECTION_HEADER>,
) -> bool {
    &&& script.entry == nt.OptionalHeader.ImageBase + nt.OptionalHeader.AddressOfEntryPoint
    &&& script.sections@.len() == sections.len()
    &&& forall|i: int|
        0 <= i < sections.len() ==> {
            &&& is_name_text(sections[i].Name@, (#[trigger] script.sections@[i]).name@)
            &&& script.sections@[i].address == sections[i].VirtualAddress
                + nt.OptionalHeader.ImageBase
        }
}

/// Works out the linker script of an image.
pub fn genlds(image: &[u8]) -> (r: Result<LinkerScript, PeError>)
    ensures
        validate_spec(image@) is Err ==> r == Err::<LinkerScript, PeError>(
            validate_spec(image@)->Err_0,
        ),
        validate_spec(image@) is Ok && headers_error(image@) is Some ==> r == Err::<
            LinkerScript,
            PeError,
        >(headers_error(image@)->Some_0),
        validate_spec(image@) is Ok && headers_error(image@) is None ==> (r matches Ok(script)
            && is_script_of(script, headers_of(image@).0, headers_of(image@).1)),
{
    validate(image)?;
    let (nt, sections) = read_headers(image)?;
    let base: u64 = nt.OptionalHeader.ImageBase as u64;
    let mut out: Vec<LinkerSection> = Vec::new();
    let mut i: usize = 0;
    while i < sections.len()
        invariant
            i <= sections.len(),
            base == nt.OptionalHeader.ImageBase,
            out@.len() == i,
            forall|j: int|
                0 <= j < i ==> {
                    &&& is_name_text(sections@[j].Name@, (#[trigger] out@[j]).name@)
                    &&& out@[j].address == sections@[j].VirtualAddress + base
                },
        decreases sections.len() - i,
    {
        out.push(
            LinkerSection {
                name: section_name_text(&sections[i]),
                address: sections[i].VirtualAddress as u64 + base,
            },
        );
        i = i + 1;
    }
    Ok(LinkerScript { entry: base + nt.OptionalHeader.AddressOfEntryPoint as u64, sections: out })
}

} // verus!
