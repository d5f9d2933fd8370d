use petool::dump::{dump, flag_letters, section_row};
use petool::error::PeError;
use petool::genlds::genlds;
use petool::pe::IMAGE_DATA_DIRECTORY;
use petool::pe2obj::{pe2obj, rebase_sections};
use petool::reader::read_headers;
use petool::setdd::{set_data_directory, setdd};
use petool::setvs::{set_virtual_size, setvs};
use petool::text::section_name_text;

fn cm_put16(image: &mut Vec<u8>, at: usize, v: u16) {
    image[at] = (v & 0xff) as u8;
    image[at + 1] = (v >> 8) as u8;
}

fn cm_put32(image: &mut Vec<u8>, at: usize, v: u32) {
    image[at] = (v & 0xff) as u8;
    image[at + 1] = ((v >> 8) & 0xff) as u8;
    image[at + 2] = ((v >> 16) & 0xff) as u8;
    image[at + 3] = (v >> 24) as u8;
}

fn cm_section(
    image: &mut Vec<u8>,
    at: usize,
    name: &[u8],
    vsize: u32,
    va: u32,
    raw_size: u32,
    raw_ptr: u32,
    characteristics: u32,
) {
    for (i, b) in name.iter().enumerate() {
        image[at + i] = *b;
    }
    cm_put32(image, at + 8, vsize);
    cm_put32(image, at + 12, va);
    cm_put32(image, at + 16, raw_size);
    cm_put32(image, at + 20, raw_ptr);
    cm_put32(image, at + 36, characteristics);
}

/// An image of 0x710 bytes: NT headers at 0x40, an optional header of
/// `declared` bytes, and four sections: `.text` (raw 0x200..0x400),
/// `.data` (raw 0x400..0x600), `.patch` (raw 0x600..0x700) and `.bss`
/// (uninitialised, raw 0x700..0x710).
fn cm_image_with(declared: u16) -> Vec<u8> {
    let mut image: Vec<u8> = Vec::new();
    for i in 0..0x710usize {
        image.push((i % 251) as u8);
    }
    for i in 0..0x200usize {
        image[i] = 0;
    }
    cm_put16(&mut image, 0, 0x5A4D);
    cm_put32(&mut image, 60, 0x40);
    let nt = 0x40usize;
    cm_put32(&mut image, nt, 0x0000_4550);
    cm_put16(&mut image, nt + 4, 0x014C);
    cm_put16(&mut image, nt + 6, 4);
    cm_put32(&mut image, nt + 8, 0x5F00_0001);
    cm_put16(&mut image, nt + 20, declared);
    cm_put16(&mut image, nt + 22, 0x0102);
    let opt = nt + 24;
    cm_put16(&mut image, opt, 0x010B);
    image[opt + 2] = 6;
    image[opt + 3] = 1;
    cm_put32(&mut image, opt + 16, 0x1000);
    cm_put32(&mut image, opt + 28, 0x0040_0000);
    cm_put32(&mut image, opt + 32, 0x1000);
    cm_put32(&mut image, opt + 36, 0x200);
    cm_put32(&mut image, opt + 56, 0x6000);
    cm_put32(&mut image, opt + 60, 0x200);
    cm_put32(&mut image, opt + 64, 0x1234_5678);
    let table = opt + declared as usize;
    if declared >= 224 {
        cm_put32(&mut image, opt + 92, 16);
        cm_put32(&mut image, opt + 96 + 8, 0x3000);
        cm_put32(&mut image, opt + 96 + 12, 0x50);
    }
    cm_section(&mut image, table, b".text", 0x180, 0x1000, 0x200, 0x200, 0x6000_0020);
    cm_section(&mut image, table + 40, b".data", 0x300, 0x2000, 0x200, 0x400, 0xC000_0040);
    cm_section(&mut image, table + 80, b".patch", 0x100, 0x3000, 0x100, 0x600, 0x4000_0040);
    cm_section(&mut image, table + 120, b".bss", 0x1000, 0x4000, 0x10, 0x700, 0xC000_0080);
    image
}

fn cm_image() -> Vec<u8> {
    cm_image_with(224)
}


#[test]
fn setvs_refuses_a_size_below_the_raw_size() {
    let image = cm_image();
    let (mut nt, mut sections) = read_headers(&image).unwrap();
    assert_eq!(sections[0].SizeOfRawData, 0x200);
    let before = (nt, sections.clone());
    assert_eq!(
        set_virtual_size(&mut nt, &mut sections, b".text", 0x100),
        Err(PeError::InvalidArgument { index: 2 })
    );
    assert_eq!((nt, sections.clone()), before);
    assert_eq!(
        set_virtual_size(&mut nt, &mut sections, b".text", 0x1FF),
        Err(PeError::InvalidArgument { index: 2 })
    );
    assert_eq!((nt, sections), before);
}

#[test]
fn setvs_refuses_a_size_of_zero() {
    let image = cm_image();
    let (mut nt, mut sections) = read_headers(&image).unwrap();
    let before = (nt, sections.clone());
    assert_eq!(
        set_virtual_size(&mut nt, &mut sections, b".text", 0),
        Err(PeError::InvalidArgument { index: 2 })
    );
    assert_eq!(
        set_virtual_size(&mut nt, &mut sections, b".nope", 0),
        Err(PeError::InvalidArgument { index: 2 })
    );
    assert_eq!((nt, sections), before);
}

#[test]
fn setvs_moves_the_size_of_the_image_by_the_difference() {
    let image = cm_image();
    let (mut nt, mut sections) = read_headers(&image).unwrap();
    let old_size = sections[0].PhysAddrORVirtSize;
    assert_eq!(old_size, 0x180);
    assert_eq!(set_virtual_size(&mut nt, &mut sections, b".text", 0x1000), Ok(0));
    assert_eq!(sections[0].PhysAddrORVirtSize, 0x1000);
    assert_eq!(nt.OptionalHeader.SizeOfImage, 0x6000 + 0x1000 - 0x180);
    assert_eq!(nt.OptionalHeader.CheckSum, 0);
    assert_eq!(sections[1].PhysAddrORVirtSize, 0x300);
    assert_eq!(set_virtual_size(&mut nt, &mut sections, b".text", 0x200), Ok(0));
    assert_eq!(nt.OptionalHeader.SizeOfImage, 0x6000 + 0x200 - 0x180);
    assert_eq!(set_virtual_size(&mut nt, &mut sections, b".bss", 0x10), Ok(3));
    assert_eq!(nt.OptionalHeader.SizeOfImage, 0x6000 + 0x200 - 0x180 + 0x10 - 0x1000);
}

#[test]
fn setvs_wraps_the_size_of_the_image_within_32_bits() {
    let image = cm_image();
    let (mut nt, mut sections) = read_headers(&image).unwrap();
    nt.OptionalHeader.SizeOfImage = 0xFFFF_FF00;
    assert_eq!(set_virtual_size(&mut nt, &mut sections, b".text", 0x1000), Ok(0));
    assert_eq!(nt.OptionalHeader.SizeOfImage, 0xFFFF_FF00u32.wrapping_add(0x1000 - 0x180));
    nt.OptionalHeader.SizeOfImage = 0x10;
    assert_eq!(set_virtual_size(&mut nt, &mut sections, b".text", 0x200), Ok(0));
    assert_eq!(nt.OptionalHeader.SizeOfImage, 0x10u32.wrapping_sub(0x1000 - 0x200));
}

#[test]
fn setvs_refuses_a_name_that_no_section_has() {
    let image = cm_image();
    let (mut nt, mut sections) = read_headers(&image).unwrap();
    let before = (nt, sections.clone());
    assert_eq!(
        set_virtual_size(&mut nt, &mut sections, b".rsrc", 0x1000),
        Err(PeError::SectionNotFound { name: b".rsrc".to_vec() })
    );
    assert_eq!((nt, sections), before);
}

#[test]
fn setvs_writes_the_headers_back() {
    let image = cm_image();
    let mut changed = image.clone();
    assert_eq!(setvs(&mut changed, b".data", 0x1000), Ok(()));
    let mut expected = image.clone();
    cm_put32(&mut expected, 0x58 + 56, 0x6000 + 0x1000 - 0x300);
    cm_put32(&mut expected, 0x58 + 64, 0);
    cm_put32(&mut expected, 0x138 + 40 + 8, 0x1000);
    assert_eq!(changed, expected);
}

#[test]
fn setvs_leaves_a_refused_image_alone() {
    let image = cm_image();
    let mut same = image.clone();
    assert_eq!(setvs(&mut same, b".text", 0x100), Err(PeError::InvalidArgument { index: 2 }));
    assert_eq!(setvs(&mut same, b".text", 0), Err(PeError::InvalidArgument { index: 2 }));
    assert_eq!(
        setvs(&mut same, b"text", 0x1000),
        Err(PeError::SectionNotFound { name: b"text".to_vec() })
    );
    assert_eq!(same, image);
    let mut bad = image.clone();
    bad[0x40] = 0;
    let before = bad.clone();
    assert_eq!(setvs(&mut bad, b".text", 0x1000), Err(PeError::InvalidFormat));
    assert_eq!(bad, before);
    let mut cut = image[..0x138 + 100].to_vec();
    let before = cut.clone();
    assert_eq!(setvs(&mut cut, b".text", 0x1000), Err(PeError::TruncatedFile));
    assert_eq!(cut, before);
}

#[test]
fn setdd_sets_both_fields_and_clears_the_checksum() {
    let image = cm_image();
    let (mut nt, _) = read_headers(&image).unwrap();
    let before = nt;
    assert_eq!(set_data_directory(&mut nt, 5, 0xAAAA_0000, 0x1234), Ok(()));
    assert_eq!(
        nt.OptionalHeader.DataDirectory[5],
        IMAGE_DATA_DIRECTORY { VirtualAddress: 0xAAAA_0000, Size: 0x1234 }
    );
    assert_eq!(nt.OptionalHeader.CheckSum, 0);
    for k in 0..16 {
        if k != 5 {
            assert_eq!(nt.OptionalHeader.DataDirectory[k], before.OptionalHeader.DataDirectory[k]);
        }
    }
    let mut restored = nt;
    restored.OptionalHeader.DataDirectory[5] = before.OptionalHeader.DataDirectory[5];
    restored.OptionalHeader.CheckSum = before.OptionalHeader.CheckSum;
    assert_eq!(restored, before);
    assert_eq!(set_data_directory(&mut nt, 15, 1, 2), Ok(()));
    assert_eq!(nt.OptionalHeader.DataDirectory[15], IMAGE_DATA_DIRECTORY { VirtualAddress: 1, Size: 2 });
    assert_eq!(set_data_directory(&mut nt, 0, 3, 4), Ok(()));
    assert_eq!(nt.OptionalHeader.DataDirectory[0], IMAGE_DATA_DIRECTORY { VirtualAddress: 3, Size: 4 });
}

#[test]
fn setdd_refuses_an_entry_that_the_image_lacks() {
    let image = cm_image();
    let (mut nt, _) = read_headers(&image).unwrap();
    nt.OptionalHeader.NumberOfRvaAndSizes = 4;
    let before = nt;
    assert_eq!(
        set_data_directory(&mut nt, 4, 1, 2),
        Err(PeError::MissingDataDirectory { index: 4 })
    );
    assert_eq!(
        set_data_directory(&mut nt, 1000, 1, 2),
        Err(PeError::MissingDataDirectory { index: 1000 })
    );
    assert_eq!(nt, before);
    assert_eq!(set_data_directory(&mut nt, 3, 1, 2), Ok(()));
    nt.OptionalHeader.NumberOfRvaAndSizes = 0;
    assert_eq!(
        set_data_directory(&mut nt, 0, 1, 2),
        Err(PeError::MissingDataDirectory { index: 0 })
    );
}

#[test]
fn setdd_refuses_an_entry_beyond_the_table() {
    let image = cm_image();
    let (mut nt, _) = read_headers(&image).unwrap();
    nt.OptionalHeader.NumberOfRvaAndSizes = 32;
    let before = nt;
    assert_eq!(
        set_data_directory(&mut nt, 16, 1, 2),
        Err(PeError::MissingDataDirectory { index: 16 })
    );
    assert_eq!(nt, before);
    assert_eq!(set_data_directory(&mut nt, 15, 1, 2), Ok(()));
}

#[test]
fn setdd_writes_the_headers_back() {
    let image = cm_image();
    let mut changed = image.clone();
    assert_eq!(setdd(&mut changed, 2, 0x0000_5000, 0x321), Ok(()));
    let mut expected = image.clone();
    cm_put32(&mut expected, 0x58 + 64, 0);
    cm_put32(&mut expected, 0x58 + 96 + 16, 0x5000);
    cm_put32(&mut expected, 0x58 + 96 + 20, 0x321);
    assert_eq!(changed, expected);
    let mut same = image.clone();
    assert_eq!(setdd(&mut same, 16, 1, 2), Err(PeError::MissingDataDirectory { index: 16 }));
    assert_eq!(same, image);
    let mut small = image[..30].to_vec();
    assert_eq!(setdd(&mut small, 1, 1, 2), Err(PeError::TooSmall));
    let mut bad = image.clone();
    bad[0] = b'X';
    assert_eq!(setdd(&mut bad, 1, 1, 2), Err(PeError::InvalidFormat));
}

#[test]
fn pe2obj_rebases_the_sections() {
    let image = cm_image();
    let (_, mut sections) = read_headers(&image).unwrap();
    let before = sections.clone();
    rebase_sections(&mut sections, 0x44);
    assert_eq!(sections[0].PointerToRawData, 0x200 - 0x44);
    assert_eq!(sections[0].SizeOfRawData, 0x200);
    assert_eq!(sections[1].PointerToRawData, 0x400 - 0x44);
    assert_eq!(sections[2].PointerToRawData, 0x600 - 0x44);
    assert_eq!(sections[3].PointerToRawData, 0);
    assert_eq!(sections[3].SizeOfRawData, 0);
    for i in 0..4 {
        let mut restored = sections[i];
        restored.PointerToRawData = before[i].PointerToRawData;
        restored.SizeOfRawData = before[i].SizeOfRawData;
        assert_eq!(restored, before[i]);
    }
}

#[test]
fn pe2obj_keeps_a_zero_pointer_and_wraps_a_small_one() {
    let image = cm_image();
    let (_, mut sections) = read_headers(&image).unwrap();
    sections[0].PointerToRawData = 0;
    sections[1].PointerToRawData = 0x10;
    sections[2].Characteristics = 0xC0;
    rebase_sections(&mut sections, 0x44);
    assert_eq!(sections[0].PointerToRawData, 0);
    assert_eq!(sections[0].SizeOfRawData, 0x200);
    assert_eq!(sections[1].PointerToRawData, 0x10u32.wrapping_sub(0x44));
    assert_eq!(sections[2].PointerToRawData, 0x600 - 0x44);
    assert_eq!(sections[2].SizeOfRawData, 0x100);
}

#[test]
fn pe2obj_makes_the_object_file() {
    let image = cm_image();
    let out = pe2obj(&image).unwrap();
    assert_eq!(out.len(), image.len() - 0x44);
    let mut expected = image[0x44..].to_vec();
    let table = 0x138 - 0x44;
    cm_put32(&mut expected, table + 20, 0x200 - 0x44);
    cm_put32(&mut expected, table + 40 + 20, 0x400 - 0x44);
    cm_put32(&mut expected, table + 80 + 20, 0x600 - 0x44);
    cm_put32(&mut expected, table + 120 + 20, 0);
    cm_put32(&mut expected, table + 120 + 16, 0);
    assert_eq!(out, expected);
    assert_eq!(&out[0x200 - 0x44..0x400 - 0x44], &image[0x200..0x400]);
    assert_eq!(pe2obj(&image[..50]), Err(PeError::TooSmall));
    let mut bad = image.clone();
    bad[0x41] = 0;
    assert_eq!(pe2obj(&bad), Err(PeError::InvalidFormat));
    assert_eq!(pe2obj(&image[..0x138 + 10]), Err(PeError::TruncatedFile));
}

#[test]
fn pe2obj_carries_a_larger_optional_header_over() {
    let image = cm_image_with(240);
    let out = pe2obj(&image).unwrap();
    assert_eq!(out.len(), image.len() - 0x44);
    assert_eq!(&out[20 + 224..20 + 240], &image[0x58 + 224..0x58 + 240]);
    let (_, sections) = read_headers(&image).unwrap();
    assert_eq!(sections[0].PointerToRawData, 0x200);
    let table = 20 + 240;
    assert_eq!(&out[table..table + 8], b".text\0\0\0");
    assert_eq!(out[table + 20], ((0x200 - 0x44) & 0xff) as u8);
}

#[test]
fn flag_letters_show_the_capabilities() {
    assert_eq!(&flag_letters(0x6000_0020), b"r-xc--");
    assert_eq!(&flag_letters(0xC000_0040), b"rw--i-");
    assert_eq!(&flag_letters(0xC000_0080), b"rw---u");
    assert_eq!(&flag_letters(0), b"------");
    assert_eq!(&flag_letters(0xFFFF_FFFF), b"rwxciu");
    assert_eq!(&flag_letters(0x1FFF_FF1F), b"------");
}

#[test]
fn dump_reports_every_section() {
    let image = cm_image();
    let report = dump(&image).unwrap();
    assert_eq!(report.rows.len(), 4);
    let text = &report.rows[0];
    assert_eq!(text.name, ".text\0\0\0");
    assert_eq!(text.start, 0x200);
    assert_eq!(text.end, 0x400);
    assert_eq!(text.length, 0x200);
    assert_eq!(text.vaddr, 0x0040_1000);
    assert_eq!(text.vsize, 0x180);
    assert_eq!(&text.flags, b"r-xc--");
    assert_eq!(report.rows[3].name, ".bss\0\0\0\0");
    assert_eq!(&report.rows[3].flags, b"rw---u");
    assert_eq!(report.rows[3].end, 0x710);
    assert_eq!(
        report.import_table,
        Some(IMAGE_DATA_DIRECTORY { VirtualAddress: 0x3000, Size: 0x50 })
    );
}

#[test]
fn dump_shows_the_import_table_only_where_it_is_counted() {
    let mut image = cm_image();
    cm_put32(&mut image, 0x58 + 92, 1);
    assert_eq!(dump(&image).unwrap().import_table, None);
    cm_put32(&mut image, 0x58 + 92, 2);
    assert!(dump(&image).unwrap().import_table.is_some());
    assert_eq!(dump(&image[..60]), Err(PeError::TooSmall));
    image[0] = 0;
    assert_eq!(dump(&image), Err(PeError::InvalidFormat));
}

#[test]
fn rows_do_not_wrap() {
    let image = cm_image();
    let (_, mut sections) = read_headers(&image).unwrap();
    sections[0].PointerToRawData = 0xFFFF_FFFF;
    sections[0].SizeOfRawData = 2;
    sections[0].VirtualAddress = 0xFFFF_0000;
    let row = section_row(&sections[0], 0x0040_0000);
    assert_eq!(row.end, 0x1_0000_0001);
    assert_eq!(row.vaddr, 0x1_003F_0000);
}

#[test]
fn a_name_that_is_no_text_is_marked() {
    let image = cm_image();
    let (_, mut sections) = read_headers(&image).unwrap();
    assert_eq!(section_name_text(&sections[2]), ".patch\0\0");
    sections[2].Name = [0xFF, b'a', b'b', 0, 0, 0, 0, 0];
    assert_eq!(section_name_text(&sections[2]), "BADNAME!");
    sections[2].Name = [0xC3, 0xA9, b'b', 0, 0, 0, 0, 0];
    assert_eq!(section_name_text(&sections[2]), "\u{e9}b\0\0\0\0\0");
    sections[2].Name = *b"12345678";
    assert_eq!(section_name_text(&sections[2]), "12345678");
}

#[test]
fn genlds_gives_entry_and_addresses() {
    let image = cm_image();
    let script = genlds(&image).unwrap();
    assert_eq!(script.entry, 0x0040_1000);
    assert_eq!(script.sections.len(), 4);
    assert_eq!(script.sections[0].name, ".text\0\0\0");
    assert_eq!(script.sections[0].address, 0x0040_1000);
    assert_eq!(script.sections[1].address, 0x0040_2000);
    assert_eq!(script.sections[3].address, 0x0040_4000);
    assert_eq!(genlds(&image[..63]), Err(PeError::TooSmall));
    let mut bad = image.clone();
    bad[0x43] = 1;
    assert_eq!(genlds(&bad), Err(PeError::InvalidFormat));
    let mut wide = image.clone();
    cm_put32(&mut wide, 0x58 + 28, 0xFFFF_F000);
    assert_eq!(genlds(&wide).unwrap().entry, 0x1_0000_0000);
}

#[test]
fn setdd_writes_no_further_than_the_declared_optional_header() {
    let mut image = cm_image_with(96);
    cm_put32(&mut image, 0x58 + 92, 16);
    let mut changed = image.clone();
    assert_eq!(setdd(&mut changed, 0, 0x1111_1111, 0x2222_2222), Ok(()));
    let mut expected = image.clone();
    cm_put32(&mut expected, 0x58 + 64, 0);
    assert_eq!(changed, expected);
    let mut whole = cm_image_with(104);
    cm_put32(&mut whole, 0x58 + 92, 16);
    let before = whole.clone();
    assert_eq!(setdd(&mut whole, 0, 0x1111_1111, 0x2222_2222), Ok(()));
    let mut expected = before.clone();
    cm_put32(&mut expected, 0x58 + 64, 0);
    cm_put32(&mut expected, 0x58 + 96, 0x1111_1111);
    cm_put32(&mut expected, 0x58 + 100, 0x2222_2222);
    assert_eq!(whole, expected);
}

#[test]
fn setvs_changes_three_fields_of_the_image_and_nothing_else() {
    for declared in [224u16, 240, 96, 68] {
        let image = cm_image_with(declared);
        let table = 0x58 + declared as usize;
        let mut changed = image.clone();
        assert_eq!(setvs(&mut changed, b".patch", 0x1000), Ok(()));
        let mut expected = image.clone();
        cm_put32(&mut expected, 0x58 + 56, 0x6000 + 0x1000 - 0x100);
        cm_put32(&mut expected, 0x58 + 64, 0);
        cm_put32(&mut expected, table + 80 + 8, 0x1000);
        assert_eq!(changed, expected);
    }
}
