use pe_header::bytes::ByteReader;
use pe_header::error::PeError;
use pe_header::headers::{
    read_data_directory, read_dos_head, read_file_header, read_nt_head, read_optional_header,
    read_section_header, read_u16_run,
};
use pe_header::image::read_pe_image;

fn put_u16(b: &mut Vec<u8>, v: u16) {
    b.extend_from_slice(&v.to_le_bytes());
}

fn put_u32(b: &mut Vec<u8>, v: u32) {
    b.extend_from_slice(&v.to_le_bytes());
}

fn dos_head(lfanew: i32) -> Vec<u8> {
    let mut b = Vec::new();
    put_u16(&mut b, 0x5A4D);
    for i in 1..30u16 {
        put_u16(&mut b, i);
    }
    b.extend_from_slice(&lfanew.to_le_bytes());
    assert_eq!(b.len(), 64);
    b
}

fn file_header(sections: u16) -> Vec<u8> {
    let mut b = Vec::new();
    put_u16(&mut b, 0x014C);
    put_u16(&mut b, sections);
    put_u32(&mut b, 0x5F00_0001);
    put_u32(&mut b, 0x1234);
    put_u32(&mut b, 7);
    put_u16(&mut b, 224);
    put_u16(&mut b, 0x0102);
    b
}

fn section(name: &[u8; 8], va: u32, raw_ptr: u32, raw_size: u32) -> Vec<u8> {
    let mut b = name.to_vec();
    put_u32(&mut b, 0x100);
    put_u32(&mut b, va);
    put_u32(&mut b, raw_size);
    put_u32(&mut b, raw_ptr);
    put_u32(&mut b, 0);
    put_u32(&mut b, 0);
    put_u16(&mut b, 3);
    put_u16(&mut b, 4);
    put_u32(&mut b, 0x6000_0020);
    b
}

fn image(sections: &[Vec<u8>], declared: u16) -> Vec<u8> {
    let mut b = dos_head(64);
    b.extend_from_slice(&[0x50, 0x45, 0, 0]);
    b.extend(file_header(declared));
    b.extend(vec![0u8; 224]);
    for s in sections {
        b.extend_from_slice(s);
    }
    b
}

#[test]
fn minimal_image_with_text_section() {
    let data = image(&[section(b".text\0\0\0", 0x1000, 0x400, 0x200)], 1);
    let img = read_pe_image(data).unwrap();
    assert_eq!(img.dos_head.e_magic, 0x5A4D);
    assert_eq!(img.dos_head.e_lfanew, 64);
    assert_eq!(img.nt_head.signature, 0x4550);
    assert_eq!(img.nt_head.file_header.number_of_sections, 1);
    assert_eq!(img.nt_head.optional_header.address_of_entry_point, 0);
    assert_eq!(img.sections.len(), 1);
    assert_eq!(img.sections[0].name_text(), ".text");
    assert_eq!(img.sections[0].virt_addr, 0x1000);
    assert_eq!(img.sections[0].ptr_to_raw_data, 0x400);
    assert_eq!(img.sections[0].size_of_raw_data, 0x200);
}

#[test]
fn fields_come_back_as_written() {
    let data = image(
        &[section(b".text\0\0\0", 0x1000, 0x400, 0x200), section(b".data\0\0\0", 0x2000, 0x600, 0x80)],
        2,
    );
    let img = read_pe_image(data).unwrap();
    let d = &img.dos_head;
    assert_eq!(d.e_cblp, 1);
    assert_eq!(d.e_ovno, 13);
    assert_eq!(d.e_res, [14, 15, 16, 17]);
    assert_eq!(d.e_oemid, 18);
    assert_eq!(d.e_oeminfo, 19);
    assert_eq!(d.e_res2, [20, 21, 22, 23, 24, 25, 26, 27, 28, 29]);
    let f = &img.nt_head.file_header;
    assert_eq!(f.machine, 0x014C);
    assert_eq!(f.time_date_stamp, 0x5F00_0001);
    assert_eq!(f.pointer_to_symbol_table, 0x1234);
    assert_eq!(f.number_of_symbols, 7);
    assert_eq!(f.size_of_optional_header, 224);
    assert_eq!(f.characteristics, 0x0102);
    let s = &img.sections[1];
    assert_eq!(s.name, *b".data\0\0\0");
    assert_eq!(s.phys_addr_or_virt_size, 0x100);
    assert_eq!(s.virt_addr, 0x2000);
    assert_eq!(s.size_of_raw_data, 0x80);
    assert_eq!(s.ptr_to_raw_data, 0x600);
    assert_eq!(s.number_of_relocations, 3);
    assert_eq!(s.number_of_line_numbers, 4);
    assert_eq!(s.characteristics, 0x6000_0020);
}

#[test]
fn short_input_is_truncated() {
    assert_eq!(read_pe_image(vec![0u8; 63]).unwrap_err(), PeError::Truncated);
    assert_eq!(read_pe_image(Vec::new()).unwrap_err(), PeError::Truncated);
    let mut r = ByteReader::new(vec![0u8; 63]);
    assert_eq!(read_dos_head(&mut r).unwrap_err(), PeError::Truncated);
}

#[test]
fn negative_offset_fails_seek() {
    let mut data = image(&[], 0);
    data[60..64].copy_from_slice(&(-4i32).to_le_bytes());
    assert_eq!(read_pe_image(data).unwrap_err(), PeError::SeekOutOfRange);
}

#[test]
fn offset_at_or_past_end_fails_seek() {
    let mut data = dos_head(64);
    assert_eq!(read_pe_image(data.clone()).unwrap_err(), PeError::SeekOutOfRange);
    data[60..64].copy_from_slice(&1000i32.to_le_bytes());
    assert_eq!(read_pe_image(data).unwrap_err(), PeError::SeekOutOfRange);
}

#[test]
fn truncated_nt_head() {
    let mut data = image(&[], 0);
    data.truncate(64 + 247);
    assert_eq!(read_pe_image(data).unwrap_err(), PeError::Truncated);
}

#[test]
fn wrong_signature_is_rejected() {
    for sig in [[0x50u8, 0x45, 0, 1], [0, 0, 0, 0], [0x45, 0x50, 0, 0]] {
        let mut data = image(&[], 5);
        data[64..68].copy_from_slice(&sig);
        assert_eq!(read_pe_image(data).unwrap_err(), PeError::BadSignature);
    }
}

#[test]
fn exact_room_for_declared_sections() {
    let secs: Vec<Vec<u8>> = (0..3u32).map(|i| section(b"abcdefgh", 0x1000 * (i + 1), 0, 0)).collect();
    let data = image(&secs, 3);
    assert_eq!(data.len(), 64 + 248 + 40 * 3);
    let img = read_pe_image(data).unwrap();
    assert_eq!(img.sections.len(), 3);
    for (i, s) in img.sections.iter().enumerate() {
        assert_eq!(s.virt_addr, 0x1000 * (i as u32 + 1));
    }
}

#[test]
fn no_sections() {
    let img = read_pe_image(image(&[], 0)).unwrap();
    assert!(img.sections.is_empty());
}

#[test]
fn missing_section_is_truncated() {
    let secs = vec![section(b".text\0\0\0", 0, 0, 0), section(b".rdata\0\0", 0, 0, 0)];
    let data = image(&secs, 3);
    assert_eq!(read_pe_image(data).unwrap_err(), PeError::Truncated);
    let mut data = image(&secs, 2);
    data.pop();
    assert_eq!(read_pe_image(data).unwrap_err(), PeError::Truncated);
}

#[test]
fn section_names_as_text() {
    let mut r = ByteReader::new(section(&[0; 8], 0, 0, 0));
    assert_eq!(read_section_header(&mut r).unwrap().name_text(), "");
    let mut r = ByteReader::new(section(&[b'a', 0xFF, b'b', 0, b'c', 0, 0, 0], 0, 0, 0));
    let h = read_section_header(&mut r).unwrap();
    assert_eq!(h.name_len(), 3);
    assert_eq!(h.name_text(), "a\u{FFFD}b");
    let mut r = ByteReader::new(section(b"longname", 0, 0, 0));
    let h = read_section_header(&mut r).unwrap();
    assert_eq!(h.name_len(), 8);
    assert_eq!(h.name_text(), "longname");
}

#[test]
fn field_reader_values() {
    let mut r = ByteReader::new(vec![0x34, 0x12, 0xFF, 0xFF, 0xFF, 0xFF, 0x78, 0x56, 0x34, 0x12, 0x9A]);
    assert_eq!(r.read_u16(), Ok(0x1234));
    assert_eq!(r.read_i32(), Ok(-1));
    assert_eq!(r.read_u32(), Ok(0x1234_5678));
    assert_eq!(r.pos(), 10);
    assert_eq!(r.read_u16(), Err(PeError::Truncated));
    let mut r = ByteReader::new(vec![0x9A]);
    assert_eq!(r.read_u8(), Ok(0x9A));
    assert_eq!(r.read_u8(), Err(PeError::Truncated));
    assert_eq!(r.len(), 1);
}

#[test]
fn seek_bounds() {
    let mut r = ByteReader::new(vec![1, 2, 3]);
    assert_eq!(r.seek_to(2), Ok(()));
    assert_eq!(r.pos(), 2);
    assert_eq!(r.seek_to(3), Err(PeError::SeekOutOfRange));
    assert_eq!(r.seek_to(-1), Err(PeError::SeekOutOfRange));
    assert_eq!(r.read_u8(), Ok(3));
}

#[test]
fn directory_table_and_optional_header() {
    let mut b = Vec::new();
    put_u16(&mut b, 0x10B);
    b.extend_from_slice(&[14, 2]);
    for i in 0..9u32 {
        put_u32(&mut b, 0x1000 + i);
    }
    for i in 0..6u16 {
        put_u16(&mut b, 6 + i);
    }
    for i in 0..4u32 {
        put_u32(&mut b, 0x2000 + i);
    }
    put_u16(&mut b, 2);
    put_u16(&mut b, 0x8140);
    for i in 0..6u32 {
        put_u32(&mut b, 0x3000 + i);
    }
    assert_eq!(b.len(), 96);
    for i in 0..16u32 {
        put_u32(&mut b, 0x100 * i);
        put_u32(&mut b, i);
    }
    let mut r = ByteReader::new(b.clone());
    let h = read_optional_header(&mut r).unwrap();
    assert_eq!(r.pos(), 224);
    assert_eq!(h.magic, 0x10B);
    assert_eq!(h.major_linker_version, 14);
    assert_eq!(h.minor_linker_version, 2);
    assert_eq!(h.size_of_code, 0x1000);
    assert_eq!(h.address_of_entry_point, 0x1003);
    assert_eq!(h.image_base, 0x1006);
    assert_eq!(h.file_alignment, 0x1008);
    assert_eq!(h.major_operating_system_version, 6);
    assert_eq!(h.minor_subsystem_version, 11);
    assert_eq!(h.win32_version_value, 0x2000);
    assert_eq!(h.checksum, 0x2003);
    assert_eq!(h.subsystem, 2);
    assert_eq!(h.dll_characteristics, 0x8140);
    assert_eq!(h.size_of_stack_reserve, 0x3000);
    assert_eq!(h.number_of_rva_and_sizes, 0x3005);
    for i in 0..16usize {
        assert_eq!(h.data_directory[i].virtual_address, 0x100 * i as u32);
        assert_eq!(h.data_directory[i].size, i as u32);
    }
    let mut r = ByteReader::new(b[96..].to_vec());
    let d = read_data_directory(&mut r).unwrap();
    assert_eq!((d.virtual_address, d.size), (0, 0));
    let d = read_data_directory(&mut r).unwrap();
    assert_eq!((d.virtual_address, d.size), (0x100, 1));
    b.pop();
    assert_eq!(read_optional_header(&mut ByteReader::new(b)).unwrap_err(), PeError::Truncated);
}

#[test]
fn nt_head_and_file_header_alone() {
    let mut b = vec![0x50, 0x45, 0, 0];
    b.extend(file_header(9));
    b.extend(vec![0u8; 224]);
    let mut r = ByteReader::new(b.clone());
    let h = read_nt_head(&mut r).unwrap();
    assert_eq!(h.file_header.number_of_sections, 9);
    assert_eq!(r.pos(), 248);
    let mut r = ByteReader::new(b[4..].to_vec());
    assert_eq!(read_file_header(&mut r).unwrap().number_of_symbols, 7);
    let mut r = ByteReader::new(b[..19].to_vec());
    assert_eq!(read_file_header(&mut r).unwrap_err(), PeError::Truncated);
    let mut r = ByteReader::new(vec![1, 0, 2, 0, 3]);
    assert_eq!(read_u16_run::<2>(&mut r), Ok([1, 2]));
    assert_eq!(read_u16_run::<2>(&mut r), Err(PeError::Truncated));
}

#[test]
fn section_header_reencodes_to_same_bytes() {
    let bytes = section(b".reloc\0\0", 0xDEAD_BEEF, 0x0102_0304, 0xFFFF_FFFF);
    let h = read_section_header(&mut ByteReader::new(bytes.clone())).unwrap();
    let mut again = h.name.to_vec();
    for v in [
        h.phys_addr_or_virt_size,
        h.virt_addr,
        h.size_of_raw_data,
        h.ptr_to_raw_data,
        h.ptr_to_relocations,
        h.ptr_to_line_numbers,
    ] {
        put_u32(&mut again, v);
    }
    put_u16(&mut again, h.number_of_relocations);
    put_u16(&mut again, h.number_of_line_numbers);
    put_u32(&mut again, h.characteristics);
    assert_eq!(again, bytes);
}

#[test]
fn dos_head_reencodes_to_same_bytes() {
    let bytes = dos_head(-2);
    let h = read_dos_head(&mut ByteReader::new(bytes.clone())).unwrap();
    let mut again = Vec::new();
    for v in [
        h.e_magic, h.e_cblp, h.e_cp, h.e_crlc, h.e_cparhdr, h.e_minalloc, h.e_maxalloc, h.e_ss,
        h.e_sp, h.e_csum, h.e_ip, h.e_cs, h.e_lfarlc, h.e_ovno,
    ] {
        put_u16(&mut again, v);
    }
    h.e_res.iter().for_each(|v| put_u16(&mut again, *v));
    put_u16(&mut again, h.e_oemid);
    put_u16(&mut again, h.e_oeminfo);
    h.e_res2.iter().for_each(|v| put_u16(&mut again, *v));
    again.extend_from_slice(&h.e_lfanew.to_le_bytes());
    assert_eq!(h.e_lfanew, -2);
    assert_eq!(again, bytes);
}
