use petool::bytes::{push_u16, push_u32, read_u16, read_u32, write_at, write_growing};
use petool::error::PeError;
use petool::pe::{
    index, CUST_Image_Directory_Entry_Type, CUST_Image_Section_Flags, SectionFlagSet,
    IMAGE_DATA_DIRECTORY, IMAGE_DOS_HEADER, IMAGE_FILE_HEADER, IMAGE_FIRST_SECTION,
    IMAGE_NT_HEADERS, IMAGE_OPTIONAL_HEADER, IMAGE_SECTION_HEADER,
};
use petool::reader::{read_headers, validate};
use petool::writer::{encode_section_table, write_headers};

fn hd_put16(image: &mut Vec<u8>, at: usize, v: u16) {
    image[at] = (v & 0xff) as u8;
    image[at + 1] = (v >> 8) as u8;
}

fn hd_put32(image: &mut Vec<u8>, at: usize, v: u32) {
    image[at] = (v & 0xff) as u8;
    image[at + 1] = ((v >> 8) & 0xff) as u8;
    image[at + 2] = ((v >> 16) & 0xff) as u8;
    image[at + 3] = (v >> 24) as u8;
}

fn hd_section(
    image: &mut Vec<u8>,
    at: usize,
    name: &[u8],
    vsize: u32,
    va: u32,
    raw_size: u32,
    raw_ptr: u32,
    characteristics: u32,
) {
    for (i, b) in name.iter().enumerate() {
        image[at + i] = *b;
    }
    hd_put32(image, at + 8, vsize);
    hd_put32(image, at + 12, va);
    hd_put32(image, at + 16, raw_size);
    hd_put32(image, at + 20, raw_ptr);
    hd_put32(image, at + 36, characteristics);
}

/// An image of 0x710 bytes: NT headers at 0x40, an optional header of
/// `declared` bytes, and four sections: `.text` (raw 0x200..0x400),
/// `.data` (raw 0x400..0x600), `.patch` (raw 0x600..0x700) and `.bss`
/// (uninitialised, raw 0x700..0x710).
fn hd_image_with(declared: u16) -> Vec<u8> {
    let mut image: Vec<u8> = Vec::new();
    for i in 0..0x710usize {
        image.push((i % 251) as u8);
    }
    for i in 0..0x200usize {
        image[i] = 0;
    }
    hd_put16(&mut image, 0, 0x5A4D);
    hd_put32(&mut image, 60, 0x40);
    let nt = 0x40usize;
    hd_put32(&mut image, nt, 0x0000_4550);
    hd_put16(&mut image, nt + 4, 0x014C);
    hd_put16(&mut image, nt + 6, 4);
    hd_put32(&mut image, nt + 8, 0x5F00_0001);
    hd_put16(&mut image, nt + 20, declared);
    hd_put16(&mut image, nt + 22, 0x0102);
    let opt = nt + 24;
    hd_put16(&mut image, opt, 0x010B);
    image[opt + 2] = 6;
    image[opt + 3] = 1;
    hd_put32(&mut image, opt + 16, 0x1000);
    hd_put32(&mut image, opt + 28, 0x0040_0000);
    hd_put32(&mut image, opt + 32, 0x1000);
    hd_put32(&mut image, opt + 36, 0x200);
    hd_put32(&mut image, opt + 56, 0x6000);
    hd_put32(&mut image, opt + 60, 0x200);
    hd_put32(&mut image, opt + 64, 0x1234_5678);
    let table = opt + declared as usize;
    if declared >= 224 {
        hd_put32(&mut image, opt + 92, 16);
        hd_put32(&mut image, opt + 96 + 8, 0x3000);
        hd_put32(&mut image, opt + 96 + 12, 0x50);
    }
    hd_section(&mut image, table, b".text", 0x180, 0x1000, 0x200, 0x200, 0x6000_0020);
    hd_section(&mut image, table + 40, b".data", 0x300, 0x2000, 0x200, 0x400, 0xC000_0040);
    hd_section(&mut image, table + 80, b".patch", 0x100, 0x3000, 0x100, 0x600, 0x4000_0040);
    hd_section(&mut image, table + 120, b".bss", 0x1000, 0x4000, 0x10, 0x700, 0xC000_0080);
    image
}

fn hd_image() -> Vec<u8> {
    hd_image_with(224)
}

#[test]
fn little_endian_numbers_are_read() {
    let bytes = vec![0x78u8, 0x56, 0x34, 0x12, 0xFF];
    assert_eq!(read_u16(&bytes, 0), 0x5678);
    assert_eq!(read_u16(&bytes, 3), 0xFF12);
    assert_eq!(read_u32(&bytes, 0), 0x1234_5678);
    assert_eq!(read_u32(&bytes, 1), 0xFF12_3456);
}

#[test]
fn little_endian_numbers_are_appended() {
    let mut out = vec![9u8];
    push_u16(&mut out, 0xABCD);
    push_u32(&mut out, 0x0102_0304);
    assert_eq!(out, vec![9u8, 0xCD, 0xAB, 0x04, 0x03, 0x02, 0x01]);
}

#[test]
fn write_at_replaces_only_the_range() {
    let mut image = vec![1u8, 2, 3, 4, 5, 6];
    write_at(&mut image, 2, &[9, 8, 7]);
    assert_eq!(image, vec![1u8, 2, 9, 8, 7, 6]);
    write_at(&mut image, 6, &[]);
    assert_eq!(image, vec![1u8, 2, 9, 8, 7, 6]);
}

#[test]
fn write_growing_writes_as_a_file_does() {
    let mut image = vec![1u8, 2, 3, 4];
    write_growing(&mut image, 1, &[9, 8]);
    assert_eq!(image, vec![1u8, 9, 8, 4]);
    write_growing(&mut image, 3, &[7, 6]);
    assert_eq!(image, vec![1u8, 9, 8, 7, 6]);
    write_growing(&mut image, 5, &[5]);
    assert_eq!(image, vec![1u8, 9, 8, 7, 6, 5]);
    write_growing(&mut image, 8, &[4, 3]);
    assert_eq!(image, vec![1u8, 9, 8, 7, 6, 5, 0, 0, 4, 3]);
    write_growing(&mut image, 20, &[]);
    assert_eq!(image.len(), 10);
    let mut empty: Vec<u8> = Vec::new();
    write_growing(&mut empty, 2, &[1]);
    assert_eq!(empty, vec![0u8, 0, 1]);
}

#[test]
fn section_flags_have_their_bits() {
    assert_eq!(CUST_Image_Section_Flags::IMAGE_SCN_CNT_CODE.to_uint(), 5);
    assert_eq!(CUST_Image_Section_Flags::IMAGE_SCN_CNT_INITIALIZED_DATA.to_uint(), 6);
    assert_eq!(CUST_Image_Section_Flags::IMAGE_SCN_CNT_UNINITIALIZED_DATA.to_uint(), 7);
    assert_eq!(CUST_Image_Section_Flags::IMAGE_SCN_MEM_EXECUTE.to_uint(), 29);
    assert_eq!(CUST_Image_Section_Flags::IMAGE_SCN_MEM_READ.to_uint(), 30);
    assert_eq!(CUST_Image_Section_Flags::IMAGE_SCN_MEM_WRITE.to_uint(), 31);
    assert_eq!(CUST_Image_Section_Flags::IMAGE_SCN_MEM_WRITE.to_mask(), 0x8000_0000);
    assert_eq!(CUST_Image_Section_Flags::IMAGE_SCN_CNT_CODE.to_mask(), 0x20);
    for u in 0..40usize {
        match CUST_Image_Section_Flags::from_uint(u) {
            Some(flag) => assert_eq!(flag.to_uint(), u),
            None => assert!(![5usize, 6, 7, 29, 30, 31].contains(&u)),
        }
    }
    assert_eq!(
        CUST_Image_Section_Flags::from_uint(30),
        Some(CUST_Image_Section_Flags::IMAGE_SCN_MEM_READ)
    );
}

#[test]
fn flag_set_holds_the_flags_of_the_word() {
    let set = SectionFlagSet::from_characteristics(0x6000_0020);
    assert!(set.contains_elem(CUST_Image_Section_Flags::IMAGE_SCN_CNT_CODE));
    assert!(set.contains_elem(CUST_Image_Section_Flags::IMAGE_SCN_MEM_EXECUTE));
    assert!(set.contains_elem(CUST_Image_Section_Flags::IMAGE_SCN_MEM_READ));
    assert!(!set.contains_elem(CUST_Image_Section_Flags::IMAGE_SCN_MEM_WRITE));
    assert!(!set.contains_elem(CUST_Image_Section_Flags::IMAGE_SCN_CNT_INITIALIZED_DATA));
    assert!(!set.contains_elem(CUST_Image_Section_Flags::IMAGE_SCN_CNT_UNINITIALIZED_DATA));
    let none = SectionFlagSet::from_characteristics(0x1FFF_FF1F);
    assert!(!none.contains_elem(CUST_Image_Section_Flags::IMAGE_SCN_CNT_CODE));
    assert!(!none.contains_elem(CUST_Image_Section_Flags::IMAGE_SCN_MEM_READ));
}

#[test]
fn directory_entries_are_found_by_name() {
    let image = hd_image();
    let (nt, _) = read_headers(&image).unwrap();
    let import = index(
        CUST_Image_Directory_Entry_Type::IMAGE_DIRECTORY_ENTRY_IMPORT,
        &nt.OptionalHeader.DataDirectory,
    );
    assert_eq!(*import, IMAGE_DATA_DIRECTORY { VirtualAddress: 0x3000, Size: 0x50 });
    assert_eq!(CUST_Image_Directory_Entry_Type::IMAGE_DIRECTORY_ENTRY_EXPORT.to_position(), 0);
    assert_eq!(
        CUST_Image_Directory_Entry_Type::IMAGE_DIRECTORY_ENTRY_COM_DESCRIPTOR.to_position(),
        14
    );
}

#[test]
fn first_section_lies_behind_the_declared_optional_header() {
    let image = hd_image_with(240);
    let (nt, _) = read_headers(&image).unwrap();
    assert_eq!(IMAGE_FIRST_SECTION(&nt), 24 + 240);
    let image = hd_image();
    let (nt, _) = read_headers(&image).unwrap();
    assert_eq!(IMAGE_FIRST_SECTION(&nt), 248);
}

#[test]
fn dos_header_is_decoded() {
    let image = hd_image();
    let dos = IMAGE_DOS_HEADER::decode(&image, 0);
    assert_eq!(dos.e_magic, 0x5A4D);
    assert_eq!(dos.e_lfanew, 0x40);
    assert_eq!(dos.e_res, [0u16; 4]);
    assert_eq!(dos.e_res2, [0u16; 10]);
}

#[test]
fn validate_accepts_a_sound_image() {
    assert_eq!(validate(&hd_image()), Ok(()));
}

#[test]
fn validate_refuses_a_short_file() {
    let image = hd_image();
    assert_eq!(validate(&image[..63]), Err(PeError::TooSmall));
    assert_eq!(validate(&[]), Err(PeError::TooSmall));
}

#[test]
fn validate_refuses_a_bad_dos_signature() {
    let mut image = hd_image();
    image[1] = 0x5B;
    assert_eq!(validate(&image), Err(PeError::InvalidFormat));
}

#[test]
fn validate_refuses_a_bad_nt_signature() {
    let mut image = hd_image();
    image[0x42] = 1;
    assert_eq!(validate(&image), Err(PeError::InvalidFormat));
}

#[test]
fn validate_refuses_a_signature_behind_the_end() {
    let mut image = hd_image();
    hd_put32(&mut image, 60, 0x70D);
    assert_eq!(validate(&image), Err(PeError::TruncatedFile));
    hd_put32(&mut image, 60, 0xFFFF_FFFF);
    assert_eq!(validate(&image), Err(PeError::TruncatedFile));
}

#[test]
fn validate_accepts_a_file_of_the_least_size() {
    let mut image = vec![0u8; 64];
    hd_put16(&mut image, 0, 0x5A4D);
    hd_put32(&mut image, 60, 4);
    hd_put32(&mut image, 4, 0x4550);
    assert_eq!(validate(&image), Ok(()));
}

#[test]
fn read_headers_returns_the_fields() {
    let image = hd_image();
    let (nt, sections) = read_headers(&image).unwrap();
    assert_eq!(nt.Signature, 0x4550);
    assert_eq!(
        nt.FileHeader,
        IMAGE_FILE_HEADER {
            Machine: 0x014C,
            NumberOfSections: 4,
            TimeDateStamp: 0x5F00_0001,
            PointerToSymbolTable: 0,
            NumberOfSymbols: 0,
            SizeOfOptionalHeader: 224,
            Characteristics: 0x0102,
        }
    );
    assert_eq!(nt.OptionalHeader.Magic, 0x010B);
    assert_eq!(nt.OptionalHeader.MajorLinkerVersion, 6);
    assert_eq!(nt.OptionalHeader.MinorLinkerVersion, 1);
    assert_eq!(nt.OptionalHeader.AddressOfEntryPoint, 0x1000);
    assert_eq!(nt.OptionalHeader.ImageBase, 0x0040_0000);
    assert_eq!(nt.OptionalHeader.SizeOfImage, 0x6000);
    assert_eq!(nt.OptionalHeader.CheckSum, 0x1234_5678);
    assert_eq!(nt.OptionalHeader.NumberOfRvaAndSizes, 16);
    assert_eq!(nt.OptionalHeader.DataDirectory[1].VirtualAddress, 0x3000);
    assert_eq!(nt.OptionalHeader.DataDirectory[1].Size, 0x50);
    assert_eq!(nt.OptionalHeader.DataDirectory[0], IMAGE_DATA_DIRECTORY { VirtualAddress: 0, Size: 0 });
    assert_eq!(sections.len(), 4);
    assert_eq!(
        sections[1],
        IMAGE_SECTION_HEADER {
            Name: *b".data\0\0\0",
            PhysAddrORVirtSize: 0x300,
            VirtualAddress: 0x2000,
            SizeOfRawData: 0x200,
            PointerToRawData: 0x400,
            PointerToRelocations: 0,
            PointerToLinenumbers: 0,
            NumberOfRelocations: 0,
            NumberOfLinenumbers: 0,
            Characteristics: 0xC000_0040,
        }
    );
    assert_eq!(sections[0].Name, *b".text\0\0\0");
    assert_eq!(sections[3].Name, *b".bss\0\0\0\0");
}

#[test]
fn read_headers_returns_as_many_sections_as_declared() {
    for count in 0..5u16 {
        let mut image = hd_image();
        hd_put16(&mut image, 0x46, count);
        let (nt, sections) = read_headers(&image).unwrap();
        assert_eq!(nt.FileHeader.NumberOfSections, count);
        assert_eq!(sections.len(), count as usize);
    }
}

#[test]
fn read_headers_seeks_the_table_by_the_declared_size() {
    let larger = hd_image_with(240);
    let (nt, sections) = read_headers(&larger).unwrap();
    assert_eq!(nt.FileHeader.SizeOfOptionalHeader, 240);
    assert_eq!(sections[0].Name, *b".text\0\0\0");
    assert_eq!(sections[2].PointerToRawData, 0x600);
    let smaller = hd_image_with(96);
    let (nt, sections) = read_headers(&smaller).unwrap();
    assert_eq!(nt.FileHeader.SizeOfOptionalHeader, 96);
    assert_eq!(sections.len(), 4);
    assert_eq!(sections[0].Name, *b".text\0\0\0");
    assert_eq!(sections[3].VirtualAddress, 0x4000);
}

#[test]
fn read_headers_refuses_a_short_file() {
    let image = hd_image();
    assert_eq!(read_headers(&image[..10]), Err(PeError::TooSmall));
}

#[test]
fn read_headers_refuses_cut_headers() {
    let image = hd_image();
    assert_eq!(read_headers(&image[..0x40 + 247]), Err(PeError::TruncatedFile));
    assert_eq!(read_headers(&image[..0x138 + 159]), Err(PeError::TruncatedFile));
    assert!(read_headers(&image[..0x138 + 160]).is_ok());
}

#[test]
fn writing_back_what_was_read_changes_nothing() {
    for declared in [224u16, 240, 96, 0, 10] {
        let image = hd_image_with(declared);
        let (nt, sections) = read_headers(&image).unwrap();
        assert_eq!(sections.len(), nt.FileHeader.NumberOfSections as usize);
        let mut copy = image.clone();
        assert_eq!(write_headers(&mut copy, &nt, &sections), Ok(()));
        assert_eq!(copy, image);
    }
}

#[test]
fn write_headers_writes_the_changed_fields() {
    let image = hd_image();
    let (mut nt, mut sections) = read_headers(&image).unwrap();
    nt.OptionalHeader.CheckSum = 0;
    nt.OptionalHeader.SizeOfImage = 0x0102_0304;
    sections[2].PhysAddrORVirtSize = 0xAABB_CCDD;
    let mut written = image.clone();
    assert_eq!(write_headers(&mut written, &nt, &sections), Ok(()));
    let mut expected = image.clone();
    hd_put32(&mut expected, 0x58 + 64, 0);
    hd_put32(&mut expected, 0x58 + 56, 0x0102_0304);
    hd_put32(&mut expected, 0x138 + 80 + 8, 0xAABB_CCDD);
    assert_eq!(written, expected);
    let (nt2, sections2) = read_headers(&written).unwrap();
    assert_eq!(nt2, nt);
    assert_eq!(sections2, sections);
}

#[test]
fn write_headers_stops_at_the_declared_size() {
    let image = hd_image_with(60);
    let (mut nt, sections) = read_headers(&image).unwrap();
    nt.OptionalHeader.SizeOfImage = 0x0102_0304;
    nt.OptionalHeader.CheckSum = 0;
    nt.OptionalHeader.LoaderFlags = 0x7777_7777;
    let mut written = image.clone();
    assert_eq!(write_headers(&mut written, &nt, &sections), Ok(()));
    let mut expected = image.clone();
    hd_put32(&mut expected, 0x58 + 56, 0x0102_0304);
    assert_eq!(written, expected);
}

#[test]
fn write_headers_refuses_what_does_not_fit() {
    let image = hd_image();
    let (nt, sections) = read_headers(&image).unwrap();
    let mut short = image[..0x138 + 100].to_vec();
    let before = short.clone();
    assert_eq!(write_headers(&mut short, &nt, &sections), Err(PeError::TruncatedFile));
    assert_eq!(short, before);
    let mut tiny = image[..20].to_vec();
    assert_eq!(write_headers(&mut tiny, &nt, &sections), Err(PeError::TooSmall));
    let mut cut = image[..0x40 + 200].to_vec();
    let before = cut.clone();
    assert_eq!(write_headers(&mut cut, &nt, &[]), Err(PeError::TruncatedFile));
    assert_eq!(cut, before);
}

#[test]
fn records_encode_to_their_disk_layout() {
    let image = hd_image();
    let (nt, sections) = read_headers(&image).unwrap();
    let mut out = Vec::new();
    nt.encode(&mut out);
    assert_eq!(out.len(), 248);
    assert_eq!(&out[..], &image[0x40..0x40 + 248]);
    let table = encode_section_table(&sections);
    assert_eq!(&table[..], &image[0x138..0x138 + 160]);
    let mut one = Vec::new();
    sections[0].encode(&mut one);
    assert_eq!(&one[..], &image[0x138..0x138 + 40]);
    let mut file = Vec::new();
    nt.FileHeader.encode(&mut file);
    assert_eq!(&file[..], &image[0x44..0x44 + 20]);
    let mut optional = Vec::new();
    nt.OptionalHeader.encode(&mut optional);
    assert_eq!(&optional[..], &image[0x58..0x58 + 224]);
    let mut entry = Vec::new();
    nt.OptionalHeader.DataDirectory[1].encode(&mut entry);
    assert_eq!(entry, vec![0u8, 0x30, 0, 0, 0x50, 0, 0, 0]);
    assert_eq!(IMAGE_NT_HEADERS::decode(&image, 0x40), nt);
    assert_eq!(IMAGE_OPTIONAL_HEADER::decode(&image, 0x58), nt.OptionalHeader);
    assert_eq!(IMAGE_SECTION_HEADER::decode(&image, 0x138 + 40), sections[1]);
}
