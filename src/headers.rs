use vstd::prelude::*;

use crate::bytes::{le_i32, le_u16, le_u32, ByteReader};
use crate::error::PeError;

verus! {

/// One entry of the optional header's directory table.
#[derive(Debug, Clone, Copy, PartialEq, Eq, Structural)]
pub struct DataDirectory {
    pub virtual_address: u32,
    pub size: u32,
}

/// `d` is the data directory entry stored at `p`.
pub open spec fn data_directory_at(d: DataDirectory, s: Seq<u8>, p: int) -> bool {
    &&& d.virtual_address as int == le_u32(s, p)
    &&& d.size as int == le_u32(s, p + 4)
}

/// Decodes a data directory entry at the read position.
pub fn read_data_directory(read: &mut ByteReader) -> (r: Result<DataDirectory, PeError>)
    ensures
        final(read).bytes() == old(read).bytes(),
        match r {
            Ok(d) => old(read).position() + 8 <= old(read).bytes().len() && data_directory_at(
                d,
                old(read).bytes(),
                old(read).position(),
            ) && final(read).position() == old(read).position() + 8,
            Err(e) => old(read).position() + 8 > old(read).bytes().len() && e
                == PeError::Truncated,
        },
{
    Ok(DataDirectory { virtual_address: read.read_u32()?, size: read.read_u32()? })
}

/// The COFF file header.
#[derive(Debug, Clone, Copy, PartialEq, Eq, Structural)]
pub struct FileHeader {
    pub machine: u16,
    pub number_of_sections: u16,
    pub time_date_stamp: u32,
    pub pointer_to_symbol_table: u32,
    pub number_of_symbols: u32,
    pub size_of_optional_header: u16,
    pub characteristics: u16,
}

/// `h` is the COFF file header stored at `p`.
pub open spec fn file_header_at(h: FileHeader, s: Seq<u8>, p: int) -> bool {
    &&& h.machine as int == le_u16(s, p)
    &&& h.number_of_sections as int == le_u16(s, p + 2)
    &&& h.time_date_stamp as int == le_u32(s, p + 4)
    &&& h.pointer_to_symbol_table as int == le_u32(s, p + 8)
    &&& h.number_of_symbols as int == le_u32(s, p + 12)
    &&& h.size_of_optional_header as int == le_u16(s, p + 16)
    &&& h.characteristics as int == le_u16(s, p + 18)
}

/// Decodes a COFF file header at the read position.
pub fn read_file_header(read: &mut ByteReader) -> (r: Result<FileHeader, PeError>)
    ensures
        final(read).bytes() == old(read).bytes(),
        match r {
            Ok(h) => old(read).position() + 20 <= old(read).bytes().len() && file_header_at(
                h,
                old(read).bytes(),
                old(read).position(),
            ) && final(read).position() == old(read).position() + 20,
            Err(e) => old(read).position() + 20 > old(read).bytes().len() && e
                == PeError::Truncated,
        },
{
    Ok(
        FileHeader {
            machine: read.read_u16()?,
            number_of_sections: read.read_u16()?,
            time_date_stamp: read.read_u32()?,
            pointer_to_symbol_table: read.read_u32()?,
            number_of_symbols: read.read_u32()?,
            size_of_optional_header: read.read_u16()?,
            characteristics: read.read_u16()?,
        },
    )
}

/// The header of one section of the image.
#[derive(Debug, Clone, Copy)]
pub struct SectionHeader {
    /// Eight raw bytes, not necessarily text nor NUL-terminated.
    pub name: [u8; 8],
    pub phys_addr_or_virt_size: u32,
    pub virt_addr: u32,
    pub size_of_raw_data: u32,
    pub ptr_to_raw_data: u32,
    pub ptr_to_relocations: u32,
    pub ptr_to_line_numbers: u32,
    pub number_of_relocations: u16,
    pub number_of_line_numbers: u16,
    pub characteristics: u32,
}

/// `h` is the section header stored at `p`.
pub open spec fn section_header_at(h: SectionHeader, s: Seq<u8>, p: int) -> bool {
    &&& forall|i: int| 0 <= i < 8 ==> #[trigger] h.name[i] == s[p + i]
    &&& h.phys_addr_or_virt_size as int == le_u32(s, p + 8)
    &&& h.virt_addr as int == le_u32(s, p + 12)
    &&& h.size_of_raw_data as int == le_u32(s, p + 16)
    &&& h.ptr_to_raw_data as int == le_u32(s, p + 20)
    &&& h.ptr_to_relocations as int == le_u32(s, p + 24)
    &&& h.ptr_to_line_numbers as int == le_u32(s, p + 28)
    &&& h.number_of_relocations as int == le_u16(s, p + 32)
    &&& h.number_of_line_numbers as int == le_u16(s, p + 34)
    &&& h.characteristics as int == le_u32(s, p + 36)
}

/// Decodes a section header at the read position.
pub fn read_section_header(read: &mut ByteReader) -> (r: Result<SectionHeader, PeError>)
    ensures
        final(read).bytes() == old(read).bytes(),
        match r {
            Ok(h) => old(read).position() + 40 <= old(read).bytes().len() && section_header_at(
                h,
                old(read).bytes(),
                old(read).position(),
            ) && final(read).position() == old(read).position() + 40,
            Err(e) => old(read).position() + 40 > old(read).bytes().len() && e
                == PeError::Truncated,
        },
{
    let ghost s = read.bytes();
    let ghost p = read.position();
    let mut name = [0u8; 8];
    let mut i: usize = 0;
    while i < 8
        invariant
            i <= 8,
            s == old(read).bytes(),
            p == old(read).position(),
            read.bytes() == s,
            read.position() == p + i,
            forall|j: int| 0 <= j < i ==> #[trigger] name[j] == s[p + j],
        decreases 8 - i,
    {
        match read.read_u8() {
            Ok(b) => name[i] = b,
            Err(e) => return Err(e),
        }
        i = i + 1;
    }
    Ok(
        SectionHeader {
            name,
            phys_addr_or_virt_size: read.read_u32()?,
            virt_addr: read.read_u32()?,
            size_of_raw_data: read.read_u32()?,
            ptr_to_raw_data: read.read_u32()?,
            ptr_to_relocations: read.read_u32()?,
            ptr_to_line_numbers: read.read_u32()?,
            number_of_relocations: read.read_u16()?,
            number_of_line_numbers: read.read_u16()?,
            characteristics: read.read_u32()?,
        },
    )
}

/// `t` is the table of sixteen data directory entries stored at `p`.
pub open spec fn data_directories_at(t: [DataDirectory; 16], s: Seq<u8>, p: int) -> bool {
    forall|i: int| 0 <= i < 16 ==> data_directory_at(#[trigger] t[i], s, p + 8 * i)
}

/// Decodes the sixteen data directory entries at the read position.
pub fn read_data_directories(read: &mut ByteReader) -> (r: Result<[DataDirectory; 16], PeError>)
    ensures
        final(read).bytes() == old(read).bytes(),
        match r {
            Ok(t) => old(read).position() + 128 <= old(read).bytes().len() && data_directories_at(
                t,
                old(read).bytes(),
                old(read).position(),
            ) && final(read).position() == old(read).position() + 128,
            Err(e) => old(read).position() + 128 > old(read).bytes().len() && e
                == PeError::Truncated,
        },
{
    let ghost s = read.bytes();
    let ghost p = read.position();
    let mut data_directory = [DataDirectory { virtual_address: 0, size: 0 }; 16];
    let mut i: usize = 0;
    while i < 16
        invariant
            i <= 16,
            s == old(read).bytes(),
            p == old(read).position(),
            read.bytes() == s,
            read.position() == p + 8 * i,
            i > 0 ==> p + 8 * i <= s.len(),
            forall|j: int|
                0 <= j < i ==> data_directory_at(#[trigger] data_directory[j], s, p + 8 * j),
        decreases 16 - i,
    {
        match read_data_directory(read) {
            Ok(d) => data_directory[i] = d,
            Err(e) => return Err(e),
        }
        i = i + 1;
    }
    Ok(data_directory)
}

/// The PE32 optional header: loader settings and the directory table.
#[derive(Debug, Clone, Copy)]
pub struct OptionalHeader {
    pub magic: u16,
    pub major_linker_version: u8,
    pub minor_linker_version: u8,
    pub size_of_code: u32,
    pub size_of_initialized_data: u32,
    pub size_of_uninitialized_data: u32,
    pub address_of_entry_point: u32,
    pub base_of_code: u32,
    pub base_of_data: u32,
    pub image_base: u32,
    pub section_alignment: u32,
    pub file_alignment: u32,
    pub major_operating_system_version: u16,
    pub minor_operating_system_version: u16,
    pub major_image_version: u16,
    pub minor_image_version: u16,
    pub major_subsystem_version: u16,
    pub minor_subsystem_version: u16,
    pub win32_version_value: u32,
    pub size_of_image: u32,
    pub size_of_headers: u32,
    pub checksum: u32,
    pub subsystem: u16,
    pub dll_characteristics: u16,
    pub size_of_stack_reserve: u32,
    pub size_of_stack_commit: u32,
    pub size_of_heap_reserve: u32,
    pub size_of_heap_commit: u32,
    pub loader_flags: u32,
    pub number_of_rva_and_sizes: u32,
    /// Always sixteen entries, whatever `number_of_rva_and_sizes` says.
    pub data_directory: [DataDirectory; 16],
}

/// `h` is the PE32 optional header stored at `p`.
pub open spec fn optional_header_at(h: OptionalHeader, s: Seq<u8>, p: int) -> bool {
    &&& h.magic as int == le_u16(s, p)
    &&& h.major_linker_version == s[p + 2]
    &&& h.minor_linker_version == s[p + 3]
    &&& h.size_of_code as int == le_u32(s, p + 4)
    &&& h.size_of_initialized_data as int == le_u32(s, p + 8)
    &&& h.size_of_uninitialized_data as int == le_u32(s, p + 12)
    &&& h.address_of_entry_point as int == le_u32(s, p + 16)
    &&& h.base_of_code as int == le_u32(s, p + 20)
    &&& h.base_of_data as int == le_u32(s, p + 24)
    &&& h.image_base as int == le_u32(s, p + 28)
    &&& h.section_alignment as int == le_u32(s, p + 32)
    &&& h.file_alignment as int == le_u32(s, p + 36)
    &&& h.major_operating_system_version as int == le_u16(s, p + 40)
    &&& h.minor_operating_system_version as int == le_u16(s, p + 42)
    &&& h.major_image_version as int == le_u16(s, p + 44)
    &&& h.minor_image_version as int == le_u16(s, p + 46)
    &&& h.major_subsystem_version as int == le_u16(s, p + 48)
    &&& h.minor_subsystem_version as int == le_u16(s, p + 50)
    &&& h.win32_version_value as int == le_u32(s, p + 52)
    &&& h.size_of_image as int == le_u32(s, p + 56)
    &&& h.size_of_headers as int == le_u32(s, p + 60)
    &&& h.checksum as int == le_u32(s, p + 64)
    &&& h.subsystem as int == le_u16(s, p + 68)
    &&& h.dll_characteristics as int == le_u16(s, p + 70)
    &&& h.size_of_stack_reserve as int == le_u32(s, p + 72)
    &&& h.size_of_stack_commit as int == le_u32(s, p + 76)
    &&& h.size_of_heap_reserve as int == le_u32(s, p + 80)
    &&& h.size_of_heap_commit as int == le_u32(s, p + 84)
    &&& h.loader_flags as int == le_u32(s, p + 88)
    &&& h.number_of_rva_and_sizes as int == le_u32(s, p + 92)
    &&& data_directories_at(h.data_directory, s, p + 96)
}

/// Decodes a PE32 optional header at the read position.
pub fn read_optional_header(read: &mut ByteReader) -> (r: Result<OptionalHeader, PeError>)
    ensures
        final(read).bytes() == old(read).bytes(),
        match r {
            Ok(h) => old(read).position() + 224 <= old(read).bytes().len() && optional_header_at(
                h,
                old(read).bytes(),
                old(read).position(),
            ) && final(read).position() == old(read).position() + 224,
            Err(e) => old(read).position() + 224 > old(read).bytes().len() && e
                == PeError::Truncated,
        },
{
    let ghost s = read.bytes();
    let ghost p = read.position();
    let magic = read.read_u16()?;
    let major_linker_version = read.read_u8()?;
    let minor_linker_version = read.read_u8()?;
    let size_of_code = read.read_u32()?;
    let size_of_initialized_data = read.read_u32()?;
    let size_of_uninitialized_data = read.read_u32()?;
    let address_of_entry_point = read.read_u32()?;
    let base_of_code = read.read_u32()?;
    let base_of_data = read.read_u32()?;
    let image_base = read.read_u32()?;
    let section_alignment = read.read_u32()?;
    let file_alignment = read.read_u32()?;
    let major_operating_system_version = read.read_u16()?;
    let minor_operating_system_version = read.read_u16()?;
    let major_image_version = read.read_u16()?;
    let minor_image_version = read.read_u16()?;
    let major_subsystem_version = read.read_u16()?;
    let minor_subsystem_version = read.read_u16()?;
    let win32_version_value = read.read_u32()?;
    let size_of_image = read.read_u32()?;
    let size_of_headers = read.read_u32()?;
    let checksum = read.read_u32()?;
    let subsystem = read.read_u16()?;
    let dll_characteristics = read.read_u16()?;
    let size_of_stack_reserve = read.read_u32()?;
    let size_of_stack_commit = read.read_u32()?;
    let size_of_heap_reserve = read.read_u32()?;
    let size_of_heap_commit = read.read_u32()?;
    let loader_flags = read.read_u32()?;
    let number_of_rva_and_sizes = read.read_u32()?;
    let data_directory = read_data_directories(read)?;
    Ok(
        OptionalHeader {
            magic,
            major_linker_version,
            minor_linker_version,
            size_of_code,
            size_of_initialized_data,
            size_of_uninitialized_data,
            address_of_entry_point,
            base_of_code,
            base_of_data,
            image_base,
            section_alignment,
            file_alignment,
            major_operating_system_version,
            minor_operating_system_version,
            major_image_version,
            minor_image_version,
            major_subsystem_version,
            minor_subsystem_version,
            win32_version_value,
            size_of_image,
            size_of_headers,
            checksum,
            subsystem,
            dll_characteristics,
            size_of_stack_reserve,
            size_of_stack_commit,
            size_of_heap_reserve,
            size_of_heap_commit,
            loader_flags,
            number_of_rva_and_sizes,
            data_directory,
        },
    )
}

/// The legacy MS-DOS header at the start of the image.
#[derive(Debug, Clone, Copy)]
pub struct DosHead {
    pub e_magic: u16,
    pub e_cblp: u16,
    pub e_cp: u16,
    pub e_crlc: u16,
    pub e_cparhdr: u16,
    pub e_minalloc: u16,
    pub e_maxalloc: u16,
    pub e_ss: u16,
    pub e_sp: u16,
    pub e_csum: u16,
    pub e_ip: u16,
    pub e_cs: u16,
    pub e_lfarlc: u16,
    pub e_ovno: u16,
    pub e_res: [u16; 4],
    pub e_oemid: u16,
    pub e_oeminfo: u16,
    pub e_res2: [u16; 10],
    /// The offset of the NT head from the start of the input.
    pub e_lfanew: i32,
}

/// `t` is the run of little-endian 16-bit values stored at `p`.
pub open spec fn u16_run_at<const N: usize>(t: [u16; N], s: Seq<u8>, p: int) -> bool {
    forall|i: int| 0 <= i < N ==> #[trigger] t[i] as int == le_u16(s, p + 2 * i)
}

/// Decodes a non-empty run of `N` little-endian 16-bit values at the read position.
pub fn read_u16_run<const N: usize>(read: &mut ByteReader) -> (r: Result<[u16; N], PeError>)
    requires
        N > 0,
    ensures
        final(read).bytes() == old(read).bytes(),
        match r {
            Ok(t) => old(read).position() + 2 * N <= old(read).bytes().len() && u16_run_at(
                t,
                old(read).bytes(),
                old(read).position(),
            ) && final(read).position() == old(read).position() + 2 * N,
            Err(e) => old(read).position() + 2 * N > old(read).bytes().len() && e
                == PeError::Truncated,
        },
{
    let ghost s = read.bytes();
    let ghost p = read.position();
    let mut run = [0u16; N];
    let mut i: usize = 0;
    while i < N
        invariant
            i <= N,
            s == old(read).bytes(),
            p == old(read).position(),
            read.bytes() == s,
            read.position() == p + 2 * i,
            p + 2 * i <= s.len() || i == 0,
            forall|j: int| 0 <= j < i ==> #[trigger] run[j] as int == le_u16(s, p + 2 * j),
        decreases N - i,
    {
        match read.read_u16() {
            Ok(v) => run[i] = v,
            Err(e) => return Err(e),
        }
        i = i + 1;
    }
    Ok(run)
}

/// `h` is the DOS header stored at `p`.
pub open spec fn dos_head_at(h: DosHead, s: Seq<u8>, p: int) -> bool {
    &&& h.e_magic as int == le_u16(s, p)
    &&& h.e_cblp as int == le_u16(s, p + 2)
    &&& h.e_cp as int == le_u16(s, p + 4)
    &&& h.e_crlc as int == le_u16(s, p + 6)
    &&& h.e_cparhdr as int == le_u16(s, p + 8)
    &&& h.e_minalloc as int == le_u16(s, p + 10)
    &&& h.e_maxalloc as int == le_u16(s, p + 12)
    &&& h.e_ss as int == le_u16(s, p + 14)
    &&& h.e_sp as int == le_u16(s, p + 16)
    &&& h.e_csum as int == le_u16(s, p + 18)
    &&& h.e_ip as int == le_u16(s, p + 20)
    &&& h.e_cs as int == le_u16(s, p + 22)
    &&& h.e_lfarlc as int == le_u16(s, p + 24)
    &&& h.e_ovno as int == le_u16(s, p + 26)
    &&& u16_run_at(h.e_res, s, p + 28)
    &&& h.e_oemid as int == le_u16(s, p + 36)
    &&& h.e_oeminfo as int == le_u16(s, p + 38)
    &&& u16_run_at(h.e_res2, s, p + 40)
    &&& h.e_lfanew as int == le_i32(s, p + 60)
}

/// Decodes a DOS header at the read position.
pub fn read_dos_head(read: &mut ByteReader) -> (r: Result<DosHead, PeError>)
    ensures
        final(read).bytes() == old(read).bytes(),
        match r {
            Ok(h) => old(read).position() + 64 <= old(read).bytes().len() && dos_head_at(
                h,
                old(read).bytes(),
                old(read).position(),
            ) && final(read).position() == old(read).position() + 64,
            Err(e) => old(read).position() + 64 > old(read).bytes().len() && e
                == PeError::Truncated,
        },
{
    let e_magic = read.read_u16()?;
    let e_cblp = read.read_u16()?;
    let e_cp = read.read_u16()?;
    let e_crlc = read.read_u16()?;
    let e_cparhdr = read.read_u16()?;
    let e_minalloc = read.read_u16()?;
    let e_maxalloc = read.read_u16()?;
    let e_ss = read.read_u16()?;
    let e_sp = read.read_u16()?;
    let e_csum = read.read_u16()?;
    let e_ip = read.read_u16()?;
    let e_cs = read.read_u16()?;
    let e_lfarlc = read.read_u16()?;
    let e_ovno = read.read_u16()?;
    let e_res = read_u16_run::<4>(read)?;
    let e_oemid = read.read_u16()?;
    let e_oeminfo = read.read_u16()?;
    let e_res2 = read_u16_run::<10>(read)?;
    let e_lfanew = read.read_i32()?;
    Ok(
        DosHead {
            e_magic,
            e_cblp,
            e_cp,
            e_crlc,
            e_cparhdr,
            e_minalloc,
            e_maxalloc,
            e_ss,
            e_sp,
            e_csum,
            e_ip,
            e_cs,
            e_lfarlc,
            e_ovno,
            e_res,
            e_oemid,
            e_oeminfo,
            e_res2,
            e_lfanew,
        },
    )
}

/// The NT head: the PE signature, the COFF file header and the optional
/// header, in that order.
#[derive(Debug, Clone, Copy)]
pub struct NtHead {
    pub signature: u32,
    pub file_header: FileHeader,
    pub optional_header: OptionalHeader,
}

/// The signature `PE\0\0` that opens a valid NT head.
pub const PE_SIGNATURE: u32 = 0x4550;

/// `h` is the NT head stored at `p`.
pub open spec fn nt_head_at(h: NtHead, s: Seq<u8>, p: int) -> bool {
    &&& h.signature as int == le_u32(s, p)
    &&& file_header_at(h.file_header, s, p + 4)
    &&& optional_header_at(h.optional_header, s, p + 24)
}

/// Decodes an NT head at the read position. The signature is not checked
/// here, so that a malformed head can still be inspected.
pub fn read_nt_head(read: &mut ByteReader) -> (r: Result<NtHead, PeError>)
    ensures
        final(read).bytes() == old(read).bytes(),
        match r {
            Ok(h) => old(read).position() + 248 <= old(read).bytes().len() && nt_head_at(
                h,
                old(read).bytes(),
                old(read).position(),
            ) && final(read).position() == old(read).position() + 248,
            Err(e) => old(read).position() + 248 > old(read).bytes().len() && e
                == PeError::Truncated,
        },
{
    Ok(
        NtHead {
            signature: read.read_u32()?,
            file_header: read_file_header(read)?,
            optional_header: read_optional_header(read)?,
        },
    )
}

} // verus!
