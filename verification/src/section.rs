//! Finding a section by its name.
//!
//! A section header holds eight bytes of name. A name of fewer bytes is
//! stored with zero bytes behind it, so a section has the name that is
//! looked for when its eight bytes are that name followed by zero bytes
//! only. A name of more than eight bytes is the name of no section.

use vstd::prelude::*;
use crate::pe::IMAGE_SECTION_HEADER;

verus! {

/// Whether the eight stored bytes are `name`, padded with zero bytes.
pub open spec fn name_matches(stored: Seq<u8>, name: Seq<u8>) -> bool {
    &&& name.len() <= 8
    &&& forall|i: int|
        0 <= i < 8 ==> #[trigger] stored[i] == (if i < name.len() {
            name[i]
        } else {
            0u8
        })
}

/// The index of the first section from `from` on that has the name.
pub open spec fn section_named_from(
    sections: Seq<IMAGE_SECTION_HEADER>,
    name: Seq<u8>,
    from: int,
) -> Option<int>
    decreases sections.len() - from,
{
    if from < 0 || from >= sections.len() {
        None
    } else if name_matches(sections[from].Name@, name) {
        Some(from)
    } else {
        section_named_from(sections, name, from + 1)
    }
}

/// The index of the first section that has the name.
pub open spec fn section_named(sections: Seq<IMAGE_SECTION_HEADER>, name: Seq<u8>) -> Option<int> {
    section_named_from(sections, name, 0)
}

/// The first section from `from` on that has the name does have it, and
/// none between `from` and it does; where there is none, no section from
/// `from` on has the name.
pub proof fn lemma_section_named_from(sections: Seq<IMAGE_SECTION_HEADER>, name: Seq<u8>, from: int)
    requires
        0 <= from,
    ensures
        match section_named_from(sections, name, from) {
            Some(i) => from <= i < sections.len() && name_matches(sections[i].Name@, name)
                && forall|j: int| from <= j < i ==> !name_matches(sections[j].Name@, name),
            None => forall|j: int|
                from <= j < sections.len() ==> !name_matches(sections[j].Name@, name),
        },
    decreases sections.len() - from,
{
    if from < sections.len() && !name_matches(sections[from].Name@, name) {
        lemma_section_named_from(sections, name, from + 1);
    }
}

/// Whether the section has the name.
pub fn has_name(section: &IMAGE_SECTION_HEADER, name: &[u8]) -> (r: bool)
    ensures
        r == name_matches(section.Name@, name@),
{
    if name.len() > 8 {
        return false;
    }
    let mut i: usize = 0;
    while i < 8
        invariant
            i <= 8,
            name.len() <= 8,
            forall|j: int|
                0 <= j < i ==> #[trigger] section.Name@[j] == (if j < name.len() {
                    name[j]
                } else {
                    0u8
                }),
        decreases 8 - i,
    {
        let expected: u8 = if i < name.len() {
            name[i]
        } else {
            0
        };
        if section.Name[i] != expected {
            return false;
        }
        i = i + 1;
    }
    true
}

/// Finds the first section that has the name.
pub fn find_section(sections: &[IMAGE_SECTION_HEADER], name: &[u8]) -> (r: Option<usize>)
    ensures
        match r {
            Some(i) => {
                &&& section_named(sections@, name@) == Some(i as int)
                &&& i < sections.len()
                &&& name_matches(sections[i as int].Name@, name@)
                &&& forall|j: int| 0 <= j < i ==> !name_matches(sections[j].Name@, name@)
            },
            None => {
                &&& section_named(sections@, name@) is None
                &&& forall|j: int|
                    0 <= j < sections.len() ==> !name_matches(sections[j].Name@, name@)
            },
        },
{
    let mut i: usize = 0;
    while i < sections.len()
        invariant
            i <= sections.len(),
            section_named(sections@, name@) == section_named_from(sections@, name@, i as int),
        decreases sections.len() - i,
    {
        if has_name(&sections[i], name) {
            proof {
                lemma_section_named_from(sections@, name@, 0);
            }
            return Some(i);
        }
        i = i + 1;
    }
    proof {
        lemma_section_named_from(sections@, name@, 0);
    }
    None
}

} // verus!
