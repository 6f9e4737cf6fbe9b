use vstd::prelude::*;

use crate::bytes::{le_i32, le_u16, le_u32};
use crate::headers::{
    data_directories_at, data_directory_at, dos_head_at, file_header_at, nt_head_at,
    optional_header_at, section_header_at, DataDirectory, DosHead, FileHeader, NtHead,
    OptionalHeader, SectionHeader,
};
use crate::image::{image_of, nt_offset, section_offset, walk_failure, PeImage};

verus! {

/// One byte holding `v`.
pub open spec fn u8_bytes(v: int) -> Seq<u8> {
    seq![v as u8]
}

/// The two bytes that store `v` little-endian.
pub open spec fn u16_bytes(v: int) -> Seq<u8> {
    seq![(v % 256) as u8, (v / 256) as u8]
}

/// The four bytes that store `v` little-endian.
pub open spec fn u32_bytes(v: int) -> Seq<u8> {
    u16_bytes(v % 65536) + u16_bytes(v / 65536)
}

/// The four bytes that store `v` little-endian in two's complement.
pub open spec fn i32_bytes(v: int) -> Seq<u8> {
    u32_bytes(if v < 0 { v + 0x1_0000_0000 } else { v })
}

proof fn lemma_split(s: Seq<u8>, a: int, b: int, c: int)
    requires
        0 <= a <= b <= c <= s.len(),
    ensures
        s.subrange(a, c) == s.subrange(a, b) + s.subrange(b, c),
{
    assert(s.subrange(a, c) =~= s.subrange(a, b) + s.subrange(b, c));
}

proof fn lemma_u8_bytes(s: Seq<u8>, p: int)
    requires
        0 <= p,
        p + 1 <= s.len(),
    ensures
        u8_bytes(s[p] as int) == s.subrange(p, p + 1),
{
    assert(u8_bytes(s[p] as int) =~= s.subrange(p, p + 1));
}

proof fn lemma_u16_bytes(s: Seq<u8>, p: int)
    requires
        0 <= p,
        p + 2 <= s.len(),
    ensures
        u16_bytes(le_u16(s, p)) == s.subrange(p, p + 2),
{
    let (b0, b1) = (s[p] as int, s[p + 1] as int);
    assert((b0 + 256 * b1) % 256 == b0 && (b0 + 256 * b1) / 256 == b1) by (nonlinear_arith)
        requires
            0 <= b0 < 256,
            0 <= b1 < 256,
    ;
    assert(u16_bytes(le_u16(s, p)) =~= s.subrange(p, p + 2));
}

proof fn lemma_u32_bytes(s: Seq<u8>, p: int)
    requires
        0 <= p,
        p + 4 <= s.len(),
    ensures
        u32_bytes(le_u32(s, p)) == s.subrange(p, p + 4),
{
    let (lo, hi) = (le_u16(s, p), le_u16(s, p + 2));
    assert((lo + 65536 * hi) % 65536 == lo && (lo + 65536 * hi) / 65536 == hi) by (nonlinear_arith)
        requires
            0 <= lo < 65536,
            0 <= hi < 65536,
    ;
    lemma_u16_bytes(s, p);
    lemma_u16_bytes(s, p + 2);
    lemma_split(s, p, p + 2, p + 4);
}

proof fn lemma_i32_bytes(s: Seq<u8>, p: int)
    requires
        0 <= p,
        p + 4 <= s.len(),
    ensures
        i32_bytes(le_i32(s, p)) == s.subrange(p, p + 4),
{
    lemma_u32_bytes(s, p);
}

/// The bytes that encode a data directory entry `h`, field by field in layout order.
pub open spec fn data_directory_bytes(h: DataDirectory) -> Seq<u8> {
    u32_bytes(h.virtual_address as int)
        + u32_bytes(h.size as int)
}

/// Encoding a data directory entry decoded at `p` gives back the very bytes it was
/// decoded from.
pub proof fn lemma_data_directory_round_trip(h: DataDirectory, s: Seq<u8>, p: int)
    requires
        0 <= p,
        p + 8 <= s.len(),
        data_directory_at(h, s, p),
    ensures
        data_directory_bytes(h) == s.subrange(p, p + 8),
{
    lemma_u32_bytes(s, p);
    lemma_u32_bytes(s, p + 4);
    lemma_split(s, p, p + 4, p + 8);
}

/// The bytes that encode the table of sixteen data directory entries `h`, field by field in layout order.
#[verifier::opaque]
pub open spec fn data_directories_bytes(h: [DataDirectory; 16]) -> Seq<u8> {
    data_directory_bytes(h[0])
        + data_directory_bytes(h[1])
        + data_directory_bytes(h[2])
        + data_directory_bytes(h[3])
        + data_directory_bytes(h[4])
        + data_directory_bytes(h[5])
        + data_directory_bytes(h[6])
        + data_directory_bytes(h[7])
        + data_directory_bytes(h[8])
        + data_directory_bytes(h[9])
        + data_directory_bytes(h[10])
        + data_directory_bytes(h[11])
        + data_directory_bytes(h[12])
        + data_directory_bytes(h[13])
        + data_directory_bytes(h[14])
        + data_directory_bytes(h[15])
}

/// Encoding the table of sixteen data directory entries decoded at `p` gives back the very bytes it was
/// decoded from.
pub proof fn lemma_data_directories_round_trip(h: [DataDirectory; 16], s: Seq<u8>, p: int)
    requires
        0 <= p,
        p + 128 <= s.len(),
        data_directories_at(h, s, p),
    ensures
        data_directories_bytes(h) == s.subrange(p, p + 128),
{
    reveal(data_directories_bytes);
    lemma_data_directory_round_trip(h[0], s, p);
    lemma_data_directory_round_trip(h[1], s, p + 8);
    lemma_data_directory_round_trip(h[2], s, p + 16);
    lemma_data_directory_round_trip(h[3], s, p + 24);
    lemma_data_directory_round_trip(h[4], s, p + 32);
    lemma_data_directory_round_trip(h[5], s, p + 40);
    lemma_data_directory_round_trip(h[6], s, p + 48);
    lemma_data_directory_round_trip(h[7], s, p + 56);
    lemma_data_directory_round_trip(h[8], s, p + 64);
    lemma_data_directory_round_trip(h[9], s, p + 72);
    lemma_data_directory_round_trip(h[10], s, p + 80);
    lemma_data_directory_round_trip(h[11], s, p + 88);
    lemma_data_directory_round_trip(h[12], s, p + 96);
    lemma_data_directory_round_trip(h[13], s, p + 104);
    lemma_data_directory_round_trip(h[14], s, p + 112);
    lemma_data_directory_round_trip(h[15], s, p + 120);
    lemma_split(s, p, p + 120, p + 128);
    lemma_split(s, p, p + 112, p + 120);
    lemma_split(s, p, p + 104, p + 112);
    lemma_split(s, p, p + 96, p + 104);
    lemma_split(s, p, p + 88, p + 96);
    lemma_split(s, p, p + 80, p + 88);
    lemma_split(s, p, p + 72, p + 80);
    lemma_split(s, p, p + 64, p + 72);
    lemma_split(s, p, p + 56, p + 64);
    lemma_split(s, p, p + 48, p + 56);
    lemma_split(s, p, p + 40, p + 48);
    lemma_split(s, p, p + 32, p + 40);
    lemma_split(s, p, p + 24, p + 32);
    lemma_split(s, p, p + 16, p + 24);
    lemma_split(s, p, p + 8, p + 16);
}

/// The bytes that encode a COFF file header `h`, field by field in layout order.
pub open spec fn file_header_bytes(h: FileHeader) -> Seq<u8> {
    u16_bytes(h.machine as int)
        + u16_bytes(h.number_of_sections as int)
        + u32_bytes(h.time_date_stamp as int)
        + u32_bytes(h.pointer_to_symbol_table as int)
        + u32_bytes(h.number_of_symbols as int)
        + u16_bytes(h.size_of_optional_header as int)
        + u16_bytes(h.characteristics as int)
}

/// Encoding a COFF file header decoded at `p` gives back the very bytes it was
/// decoded from.
pub proof fn lemma_file_header_round_trip(h: FileHeader, s: Seq<u8>, p: int)
    requires
        0 <= p,
        p + 20 <= s.len(),
        file_header_at(h, s, p),
    ensures
        file_header_bytes(h) == s.subrange(p, p + 20),
{
    lemma_u16_bytes(s, p);
    lemma_u16_bytes(s, p + 2);
    lemma_u32_bytes(s, p + 4);
    lemma_u32_bytes(s, p + 8);
    lemma_u32_bytes(s, p + 12);
    lemma_u16_bytes(s, p + 16);
    lemma_u16_bytes(s, p + 18);
    lemma_split(s, p, p + 18, p + 20);
    lemma_split(s, p, p + 16, p + 18);
    lemma_split(s, p, p + 12, p + 16);
    lemma_split(s, p, p + 8, p + 12);
    lemma_split(s, p, p + 4, p + 8);
    lemma_split(s, p, p + 2, p + 4);
}

/// The bytes that encode a section header `h`, field by field in layout order.
pub open spec fn section_header_bytes(h: SectionHeader) -> Seq<u8> {
    u8_bytes(h.name[0] as int)
        + u8_bytes(h.name[1] as int)
        + u8_bytes(h.name[2] as int)
        + u8_bytes(h.name[3] as int)
        + u8_bytes(h.name[4] as int)
        + u8_bytes(h.name[5] as int)
        + u8_bytes(h.name[6] as int)
        + u8_bytes(h.name[7] as int)
        + u32_bytes(h.phys_addr_or_virt_size as int)
        + u32_bytes(h.virt_addr as int)
        + u32_bytes(h.size_of_raw_data as int)
        + u32_bytes(h.ptr_to_raw_data as int)
        + u32_bytes(h.ptr_to_relocations as int)
        + u32_bytes(h.ptr_to_line_numbers as int)
        + u16_bytes(h.number_of_relocations as int)
        + u16_bytes(h.number_of_line_numbers as int)
        + u32_bytes(h.characteristics as int)
}

/// Encoding a section header decoded at `p` gives back the very bytes it was
/// decoded from.
pub proof fn lemma_section_header_round_trip(h: SectionHeader, s: Seq<u8>, p: int)
    requires
        0 <= p,
        p + 40 <= s.len(),
        section_header_at(h, s, p),
    ensures
        section_header_bytes(h) == s.subrange(p, p + 40),
{
    lemma_u8_bytes(s, p);
    lemma_u8_bytes(s, p + 1);
    lemma_u8_bytes(s, p + 2);
    lemma_u8_bytes(s, p + 3);
    lemma_u8_bytes(s, p + 4);
    lemma_u8_bytes(s, p + 5);
    lemma_u8_bytes(s, p + 6);
    lemma_u8_bytes(s, p + 7);
    lemma_u32_bytes(s, p + 8);
    lemma_u32_bytes(s, p + 12);
    lemma_u32_bytes(s, p + 16);
    lemma_u32_bytes(s, p + 20);
    lemma_u32_bytes(s, p + 24);
    lemma_u32_bytes(s, p + 28);
    lemma_u16_bytes(s, p + 32);
    lemma_u16_bytes(s, p + 34);
    lemma_u32_bytes(s, p + 36);
    lemma_split(s, p, p + 36, p + 40);
    lemma_split(s, p, p + 34, p + 36);
    lemma_split(s, p, p + 32, p + 34);
    lemma_split(s, p, p + 28, p + 32);
    lemma_split(s, p, p + 24, p + 28);
    lemma_split(s, p, p + 20, p + 24);
    lemma_split(s, p, p + 16, p + 20);
    lemma_split(s, p, p + 12, p + 16);
    lemma_split(s, p, p + 8, p + 12);
    lemma_split(s, p, p + 7, p + 8);
    lemma_split(s, p, p + 6, p + 7);
    lemma_split(s, p, p + 5, p + 6);
    lemma_split(s, p, p + 4, p + 5);
    lemma_split(s, p, p + 3, p + 4);
    lemma_split(s, p, p + 2, p + 3);
    lemma_split(s, p, p + 1, p + 2);
}

/// The bytes that encode the linker, code and image layout fields of a PE32 optional header `h`.
#[verifier::opaque]
pub open spec fn optional_image_bytes(h: OptionalHeader) -> Seq<u8> {
    u16_bytes(h.magic as int)
        + u8_bytes(h.major_linker_version as int)
        + u8_bytes(h.minor_linker_version as int)
        + u32_bytes(h.size_of_code as int)
        + u32_bytes(h.size_of_initialized_data as int)
        + u32_bytes(h.size_of_uninitialized_data as int)
        + u32_bytes(h.address_of_entry_point as int)
        + u32_bytes(h.base_of_code as int)
        + u32_bytes(h.base_of_data as int)
        + u32_bytes(h.image_base as int)
        + u32_bytes(h.section_alignment as int)
        + u32_bytes(h.file_alignment as int)
}

/// The bytes that encode the version, size, checksum and subsystem fields of a PE32 optional header `h`.
#[verifier::opaque]
pub open spec fn optional_system_bytes(h: OptionalHeader) -> Seq<u8> {
    u16_bytes(h.major_operating_system_version as int)
        + u16_bytes(h.minor_operating_system_version as int)
        + u16_bytes(h.major_image_version as int)
        + u16_bytes(h.minor_image_version as int)
        + u16_bytes(h.major_subsystem_version as int)
        + u16_bytes(h.minor_subsystem_version as int)
        + u32_bytes(h.win32_version_value as int)
        + u32_bytes(h.size_of_image as int)
        + u32_bytes(h.size_of_headers as int)
        + u32_bytes(h.checksum as int)
        + u16_bytes(h.subsystem as int)
        + u16_bytes(h.dll_characteristics as int)
}

/// The bytes that encode the stack, heap, loader and directory count fields of a PE32 optional header `h`.
#[verifier::opaque]
pub open spec fn optional_memory_bytes(h: OptionalHeader) -> Seq<u8> {
    u32_bytes(h.size_of_stack_reserve as int)
        + u32_bytes(h.size_of_stack_commit as int)
        + u32_bytes(h.size_of_heap_reserve as int)
        + u32_bytes(h.size_of_heap_commit as int)
        + u32_bytes(h.loader_flags as int)
        + u32_bytes(h.number_of_rva_and_sizes as int)
}

/// The bytes that encode the scalar fields of a PE32 optional header `h`, in
/// layout order.
pub open spec fn optional_fields_bytes(h: OptionalHeader) -> Seq<u8> {
    optional_image_bytes(h) + optional_system_bytes(h) + optional_memory_bytes(h)
}

/// The bytes that encode a PE32 optional header `h`: its scalar fields, then
/// the directory table.
pub open spec fn optional_header_bytes(h: OptionalHeader) -> Seq<u8> {
    optional_fields_bytes(h) + data_directories_bytes(h.data_directory)
}

/// Encoding a PE32 optional header decoded at `p` gives back the very bytes it was
/// decoded from.
pub proof fn lemma_optional_header_round_trip(h: OptionalHeader, s: Seq<u8>, p: int)
    requires
        0 <= p,
        p + 224 <= s.len(),
        optional_header_at(h, s, p),
    ensures
        optional_header_bytes(h) == s.subrange(p, p + 224),
{
    reveal(optional_image_bytes);
    reveal(optional_system_bytes);
    reveal(optional_memory_bytes);
    lemma_u16_bytes(s, p);
    lemma_u8_bytes(s, p + 2);
    lemma_u8_bytes(s, p + 3);
    lemma_u32_bytes(s, p + 4);
    lemma_u32_bytes(s, p + 8);
    lemma_u32_bytes(s, p + 12);
    lemma_u32_bytes(s, p + 16);
    lemma_u32_bytes(s, p + 20);
    lemma_u32_bytes(s, p + 24);
    lemma_u32_bytes(s, p + 28);
    lemma_u32_bytes(s, p + 32);
    lemma_u32_bytes(s, p + 36);
    lemma_u16_bytes(s, p + 40);
    lemma_u16_bytes(s, p + 42);
    lemma_u16_bytes(s, p + 44);
    lemma_u16_bytes(s, p + 46);
    lemma_u16_bytes(s, p + 48);
    lemma_u16_bytes(s, p + 50);
    lemma_u32_bytes(s, p + 52);
    lemma_u32_bytes(s, p + 56);
    lemma_u32_bytes(s, p + 60);
    lemma_u32_bytes(s, p + 64);
    lemma_u16_bytes(s, p + 68);
    lemma_u16_bytes(s, p + 70);
    lemma_u32_bytes(s, p + 72);
    lemma_u32_bytes(s, p + 76);
    lemma_u32_bytes(s, p + 80);
    lemma_u32_bytes(s, p + 84);
    lemma_u32_bytes(s, p + 88);
    lemma_u32_bytes(s, p + 92);
    lemma_data_directories_round_trip(h.data_directory, s, p + 96);
    lemma_split(s, p + 0, p + 36, p + 40);
    lemma_split(s, p + 0, p + 32, p + 36);
    lemma_split(s, p + 0, p + 28, p + 32);
    lemma_split(s, p + 0, p + 24, p + 28);
    lemma_split(s, p + 0, p + 20, p + 24);
    lemma_split(s, p + 0, p + 16, p + 20);
    lemma_split(s, p + 0, p + 12, p + 16);
    lemma_split(s, p + 0, p + 8, p + 12);
    lemma_split(s, p + 0, p + 4, p + 8);
    lemma_split(s, p + 0, p + 3, p + 4);
    lemma_split(s, p + 0, p + 2, p + 3);
    lemma_split(s, p + 40, p + 70, p + 72);
    lemma_split(s, p + 40, p + 68, p + 70);
    lemma_split(s, p + 40, p + 64, p + 68);
    lemma_split(s, p + 40, p + 60, p + 64);
    lemma_split(s, p + 40, p + 56, p + 60);
    lemma_split(s, p + 40, p + 52, p + 56);
    lemma_split(s, p + 40, p + 50, p + 52);
    lemma_split(s, p + 40, p + 48, p + 50);
    lemma_split(s, p + 40, p + 46, p + 48);
    lemma_split(s, p + 40, p + 44, p + 46);
    lemma_split(s, p + 40, p + 42, p + 44);
    lemma_split(s, p + 72, p + 92, p + 96);
    lemma_split(s, p + 72, p + 88, p + 92);
    lemma_split(s, p + 72, p + 84, p + 88);
    lemma_split(s, p + 72, p + 80, p + 84);
    lemma_split(s, p + 72, p + 76, p + 80);
    lemma_split(s, p, p + 72, p + 96);
    lemma_split(s, p, p + 40, p + 72);
    lemma_split(s, p, p + 96, p + 224);
}

/// The bytes that encode a DOS header `h`, field by field in layout order.
pub open spec fn dos_head_bytes(h: DosHead) -> Seq<u8> {
    u16_bytes(h.e_magic as int)
        + u16_bytes(h.e_cblp as int)
        + u16_bytes(h.e_cp as int)
        + u16_bytes(h.e_crlc as int)
        + u16_bytes(h.e_cparhdr as int)
        + u16_bytes(h.e_minalloc as int)
        + u16_bytes(h.e_maxalloc as int)
        + u16_bytes(h.e_ss as int)
        + u16_bytes(h.e_sp as int)
        + u16_bytes(h.e_csum as int)
        + u16_bytes(h.e_ip as int)
        + u16_bytes(h.e_cs as int)
        + u16_bytes(h.e_lfarlc as int)
        + u16_bytes(h.e_ovno as int)
        + u16_bytes(h.e_res[0] as int)
        + u16_bytes(h.e_res[1] as int)
        + u16_bytes(h.e_res[2] as int)
        + u16_bytes(h.e_res[3] as int)
        + u16_bytes(h.e_oemid as int)
        + u16_bytes(h.e_oeminfo as int)
        + u16_bytes(h.e_res2[0] as int)
        + u16_bytes(h.e_res2[1] as int)
        + u16_bytes(h.e_res2[2] as int)
        + u16_bytes(h.e_res2[3] as int)
        + u16_bytes(h.e_res2[4] as int)
        + u16_bytes(h.e_res2[5] as int)
        + u16_bytes(h.e_res2[6] as int)
        + u16_bytes(h.e_res2[7] as int)
        + u16_bytes(h.e_res2[8] as int)
        + u16_bytes(h.e_res2[9] as int)
        + i32_bytes(h.e_lfanew as int)
}

/// Encoding a DOS header decoded at `p` gives back the very bytes it was
/// decoded from.
pub proof fn lemma_dos_head_round_trip(h: DosHead, s: Seq<u8>, p: int)
    requires
        0 <= p,
        p + 64 <= s.len(),
        dos_head_at(h, s, p),
    ensures
        dos_head_bytes(h) == s.subrange(p, p + 64),
{
    lemma_u16_bytes(s, p);
    lemma_u16_bytes(s, p + 2);
    lemma_u16_bytes(s, p + 4);
    lemma_u16_bytes(s, p + 6);
    lemma_u16_bytes(s, p + 8);
    lemma_u16_bytes(s, p + 10);
    lemma_u16_bytes(s, p + 12);
    lemma_u16_bytes(s, p + 14);
    lemma_u16_bytes(s, p + 16);
    lemma_u16_bytes(s, p + 18);
    lemma_u16_bytes(s, p + 20);
    lemma_u16_bytes(s, p + 22);
    lemma_u16_bytes(s, p + 24);
    lemma_u16_bytes(s, p + 26);
    lemma_u16_bytes(s, p + 28);
    lemma_u16_bytes(s, p + 30);
    lemma_u16_bytes(s, p + 32);
    lemma_u16_bytes(s, p + 34);
    lemma_u16_bytes(s, p + 36);
    lemma_u16_bytes(s, p + 38);
    lemma_u16_bytes(s, p + 40);
    lemma_u16_bytes(s, p + 42);
    lemma_u16_bytes(s, p + 44);
    lemma_u16_bytes(s, p + 46);
    lemma_u16_bytes(s, p + 48);
    lemma_u16_bytes(s, p + 50);
    lemma_u16_bytes(s, p + 52);
    lemma_u16_bytes(s, p + 54);
    lemma_u16_bytes(s, p + 56);
    lemma_u16_bytes(s, p + 58);
    lemma_i32_bytes(s, p + 60);
    lemma_split(s, p, p + 60, p + 64);
    lemma_split(s, p, p + 58, p + 60);
    lemma_split(s, p, p + 56, p + 58);
    lemma_split(s, p, p + 54, p + 56);
    lemma_split(s, p, p + 52, p + 54);
    lemma_split(s, p, p + 50, p + 52);
    lemma_split(s, p, p + 48, p + 50);
    lemma_split(s, p, p + 46, p + 48);
    lemma_split(s, p, p + 44, p + 46);
    lemma_split(s, p, p + 42, p + 44);
    lemma_split(s, p, p + 40, p + 42);
    lemma_split(s, p, p + 38, p + 40);
    lemma_split(s, p, p + 36, p + 38);
    lemma_split(s, p, p + 34, p + 36);
    lemma_split(s, p, p + 32, p + 34);
    lemma_split(s, p, p + 30, p + 32);
    lemma_split(s, p, p + 28, p + 30);
    lemma_split(s, p, p + 26, p + 28);
    lemma_split(s, p, p + 24, p + 26);
    lemma_split(s, p, p + 22, p + 24);
    lemma_split(s, p, p + 20, p + 22);
    lemma_split(s, p, p + 18, p + 20);
    lemma_split(s, p, p + 16, p + 18);
    lemma_split(s, p, p + 14, p + 16);
    lemma_split(s, p, p + 12, p + 14);
    lemma_split(s, p, p + 10, p + 12);
    lemma_split(s, p, p + 8, p + 10);
    lemma_split(s, p, p + 6, p + 8);
    lemma_split(s, p, p + 4, p + 6);
    lemma_split(s, p, p + 2, p + 4);
}

/// The bytes that encode an NT head `h`, field by field in layout order.
pub open spec fn nt_head_bytes(h: NtHead) -> Seq<u8> {
    u32_bytes(h.signature as int)
        + file_header_bytes(h.file_header)
        + optional_header_bytes(h.optional_header)
}

/// Encoding an NT head decoded at `p` gives back the very bytes it was
/// decoded from.
pub proof fn lemma_nt_head_round_trip(h: NtHead, s: Seq<u8>, p: int)
    requires
        0 <= p,
        p + 248 <= s.len(),
        nt_head_at(h, s, p),
    ensures
        nt_head_bytes(h) == s.subrange(p, p + 248),
{
    lemma_u32_bytes(s, p);
    lemma_file_header_round_trip(h.file_header, s, p + 4);
    lemma_optional_header_round_trip(h.optional_header, s, p + 24);
    lemma_split(s, p, p + 24, p + 248);
    lemma_split(s, p, p + 4, p + 24);
}

proof fn lemma_u16_decodes(v: int)
    requires
        0 <= v < 0x1_0000,
    ensures
        u16_bytes(v).len() == 2,
        le_u16(u16_bytes(v), 0) == v,
{
}

proof fn lemma_u32_decodes(v: int)
    requires
        0 <= v < 0x1_0000_0000,
    ensures
        u32_bytes(v).len() == 4,
        le_u32(u32_bytes(v), 0) == v,
{
    let t = u32_bytes(v);
    assert(t.subrange(0, 2) =~= u16_bytes(v % 65536));
    assert(t.subrange(2, 4) =~= u16_bytes(v / 65536));
    assert(le_u16(t, 0) == le_u16(u16_bytes(v % 65536), 0));
    assert(le_u16(t, 2) == le_u16(u16_bytes(v / 65536), 0));
}

/// Decoding the encoding of a COFF file header gives back every field.
pub proof fn lemma_file_header_decodes(h: FileHeader)
    ensures
        file_header_bytes(h).len() == 20,
        file_header_at(h, file_header_bytes(h), 0),
{
    lemma_u16_decodes(h.machine as int);
    lemma_u16_decodes(h.number_of_sections as int);
    lemma_u32_decodes(h.time_date_stamp as int);
    lemma_u32_decodes(h.pointer_to_symbol_table as int);
    lemma_u32_decodes(h.number_of_symbols as int);
    lemma_u16_decodes(h.size_of_optional_header as int);
    lemma_u16_decodes(h.characteristics as int);
}

proof fn lemma_i32_decodes(v: int)
    requires
        -0x8000_0000 <= v < 0x8000_0000,
    ensures
        i32_bytes(v).len() == 4,
        le_i32(i32_bytes(v), 0) == v,
{
    lemma_u32_decodes(if v < 0 { v + 0x1_0000_0000 } else { v });
}

/// Decoding the encoding of a data directory entry gives back every field.
pub proof fn lemma_data_directory_decodes(h: DataDirectory)
    ensures
        data_directory_at(h, data_directory_bytes(h), 0),
{
    lemma_u32_decodes(h.virtual_address as int);
    lemma_u32_decodes(h.size as int);
}

/// Decoding the encoding of a section header gives back every field.
pub proof fn lemma_section_header_decodes(h: SectionHeader)
    ensures
        section_header_at(h, section_header_bytes(h), 0),
{
    lemma_u32_decodes(h.phys_addr_or_virt_size as int);
    lemma_u32_decodes(h.virt_addr as int);
    lemma_u32_decodes(h.size_of_raw_data as int);
    lemma_u32_decodes(h.ptr_to_raw_data as int);
    lemma_u32_decodes(h.ptr_to_relocations as int);
    lemma_u32_decodes(h.ptr_to_line_numbers as int);
    lemma_u16_decodes(h.number_of_relocations as int);
    lemma_u16_decodes(h.number_of_line_numbers as int);
    lemma_u32_decodes(h.characteristics as int);
}

/// Decoding the encoding of a DOS header gives back every field.
#[verifier::rlimit(100)]
#[verifier::spinoff_prover]
pub proof fn lemma_dos_head_decodes(h: DosHead)
    ensures
        dos_head_at(h, dos_head_bytes(h), 0),
{
    lemma_u16_decodes(h.e_magic as int);
    lemma_u16_decodes(h.e_cblp as int);
    lemma_u16_decodes(h.e_cp as int);
    lemma_u16_decodes(h.e_crlc as int);
    lemma_u16_decodes(h.e_cparhdr as int);
    lemma_u16_decodes(h.e_minalloc as int);
    lemma_u16_decodes(h.e_maxalloc as int);
    lemma_u16_decodes(h.e_ss as int);
    lemma_u16_decodes(h.e_sp as int);
    lemma_u16_decodes(h.e_csum as int);
    lemma_u16_decodes(h.e_ip as int);
    lemma_u16_decodes(h.e_cs as int);
    lemma_u16_decodes(h.e_lfarlc as int);
    lemma_u16_decodes(h.e_ovno as int);
    lemma_u16_decodes(h.e_res[0] as int);
    lemma_u16_decodes(h.e_res[1] as int);
    lemma_u16_decodes(h.e_res[2] as int);
    lemma_u16_decodes(h.e_res[3] as int);
    lemma_u16_decodes(h.e_oemid as int);
    lemma_u16_decodes(h.e_oeminfo as int);
    lemma_u16_decodes(h.e_res2[0] as int);
    lemma_u16_decodes(h.e_res2[1] as int);
    lemma_u16_decodes(h.e_res2[2] as int);
    lemma_u16_decodes(h.e_res2[3] as int);
    lemma_u16_decodes(h.e_res2[4] as int);
    lemma_u16_decodes(h.e_res2[5] as int);
    lemma_u16_decodes(h.e_res2[6] as int);
    lemma_u16_decodes(h.e_res2[7] as int);
    lemma_u16_decodes(h.e_res2[8] as int);
    lemma_u16_decodes(h.e_res2[9] as int);
    lemma_i32_decodes(h.e_lfanew as int);
}

proof fn lemma_bytes_agree(s: Seq<u8>, p: int, t: Seq<u8>, q: int, n: int)
    requires
        0 <= p,
        0 <= q,
        0 <= n,
        p + n <= s.len(),
        q + n <= t.len(),
        s.subrange(p, p + n) == t.subrange(q, q + n),
    ensures
        forall|k: int| q <= k < q + n ==> #[trigger] t[k] == s[k - q + p],
{
    assert forall|k: int| q <= k < q + n implies #[trigger] t[k] == s[k - q + p] by {
        assert(s.subrange(p, p + n)[k - q] == s[k - q + p]);
        assert(t.subrange(q, q + n)[k - q] == t[k]);
    }
}

proof fn lemma_data_directory_moves(h: DataDirectory, s: Seq<u8>, p: int, t: Seq<u8>, q: int)
    requires
        0 <= p,
        0 <= q,
        p + 8 <= s.len(),
        q + 8 <= t.len(),
        s.subrange(p, p + 8) == t.subrange(q, q + 8),
        data_directory_at(h, s, p),
    ensures
        data_directory_at(h, t, q),
{
    lemma_bytes_agree(s, p, t, q, 8);
    assert(t[q + 0] == s[p + 0] && t[q + 1] == s[p + 1] && t[q + 2] == s[p + 2] && t[q + 3] == s[p + 3]);
    assert(t[q + 4] == s[p + 4] && t[q + 5] == s[p + 5] && t[q + 6] == s[p + 6] && t[q + 7] == s[p + 7]);
}

/// Decoding the encoding of the directory table gives back every entry.
#[verifier::rlimit(100)]
#[verifier::spinoff_prover]
pub proof fn lemma_data_directories_decodes(h: [DataDirectory; 16])
    ensures
        data_directories_bytes(h).len() == 128,
        data_directories_at(h, data_directories_bytes(h), 0),
{
    reveal(data_directories_bytes);
    let t = data_directories_bytes(h);
    assert(t.len() == 128);
    assert forall|i: int| 0 <= i < 16 implies data_directory_at(#[trigger] h[i], t, 8 * i) by {
        lemma_data_directory_decodes(h[i]);
        assert(t.subrange(8 * i, 8 * i + 8) =~= data_directory_bytes(h[i]).subrange(0, 8));
        lemma_data_directory_moves(h[i], data_directory_bytes(h[i]), 0, t, 8 * i);
    }
}

#[verifier::rlimit(100)]
#[verifier::spinoff_prover]
proof fn lemma_optional_image_decodes(h: OptionalHeader, t: Seq<u8>)
    requires
        t == optional_image_bytes(h),
    ensures
        t.len() == 40,
        h.magic as int == le_u16(t, 0),
        h.major_linker_version == t[2],
        h.minor_linker_version == t[3],
        h.size_of_code as int == le_u32(t, 4),
        h.size_of_initialized_data as int == le_u32(t, 8),
        h.size_of_uninitialized_data as int == le_u32(t, 12),
        h.address_of_entry_point as int == le_u32(t, 16),
        h.base_of_code as int == le_u32(t, 20),
        h.base_of_data as int == le_u32(t, 24),
        h.image_base as int == le_u32(t, 28),
        h.section_alignment as int == le_u32(t, 32),
        h.file_alignment as int == le_u32(t, 36),
{
    reveal(optional_image_bytes);
    lemma_u16_decodes(h.magic as int);
    lemma_u32_decodes(h.size_of_code as int);
    lemma_u32_decodes(h.size_of_initialized_data as int);
    lemma_u32_decodes(h.size_of_uninitialized_data as int);
    lemma_u32_decodes(h.address_of_entry_point as int);
    lemma_u32_decodes(h.base_of_code as int);
    lemma_u32_decodes(h.base_of_data as int);
    lemma_u32_decodes(h.image_base as int);
    lemma_u32_decodes(h.section_alignment as int);
    lemma_u32_decodes(h.file_alignment as int);
}

#[verifier::rlimit(100)]
#[verifier::spinoff_prover]
proof fn lemma_optional_system_decodes(h: OptionalHeader, t: Seq<u8>)
    requires
        t == optional_system_bytes(h),
    ensures
        t.len() == 32,
        h.major_operating_system_version as int == le_u16(t, 0),
        h.minor_operating_system_version as int == le_u16(t, 2),
        h.major_image_version as int == le_u16(t, 4),
        h.minor_image_version as int == le_u16(t, 6),
        h.major_subsystem_version as int == le_u16(t, 8),
        h.minor_subsystem_version as int == le_u16(t, 10),
        h.win32_version_value as int == le_u32(t, 12),
        h.size_of_image as int == le_u32(t, 16),
        h.size_of_headers as int == le_u32(t, 20),
        h.checksum as int == le_u32(t, 24),
        h.subsystem as int == le_u16(t, 28),
        h.dll_characteristics as int == le_u16(t, 30),
{
    reveal(optional_system_bytes);
    lemma_u16_decodes(h.major_operating_system_version as int);
    lemma_u16_decodes(h.minor_operating_system_version as int);
    lemma_u16_decodes(h.major_image_version as int);
    lemma_u16_decodes(h.minor_image_version as int);
    lemma_u16_decodes(h.major_subsystem_version as int);
    lemma_u16_decodes(h.minor_subsystem_version as int);
    lemma_u32_decodes(h.win32_version_value as int);
    lemma_u32_decodes(h.size_of_image as int);
    lemma_u32_decodes(h.size_of_headers as int);
    lemma_u32_decodes(h.checksum as int);
    lemma_u16_decodes(h.subsystem as int);
    lemma_u16_decodes(h.dll_characteristics as int);
}

#[verifier::rlimit(100)]
#[verifier::spinoff_prover]
proof fn lemma_optional_memory_decodes(h: OptionalHeader, t: Seq<u8>)
    requires
        t == optional_memory_bytes(h),
    ensures
        t.len() == 24,
        h.size_of_stack_reserve as int == le_u32(t, 0),
        h.size_of_stack_commit as int == le_u32(t, 4),
        h.size_of_heap_reserve as int == le_u32(t, 8),
        h.size_of_heap_commit as int == le_u32(t, 12),
        h.loader_flags as int == le_u32(t, 16),
        h.number_of_rva_and_sizes as int == le_u32(t, 20),
{
    reveal(optional_memory_bytes);
    lemma_u32_decodes(h.size_of_stack_reserve as int);
    lemma_u32_decodes(h.size_of_stack_commit as int);
    lemma_u32_decodes(h.size_of_heap_reserve as int);
    lemma_u32_decodes(h.size_of_heap_commit as int);
    lemma_u32_decodes(h.loader_flags as int);
    lemma_u32_decodes(h.number_of_rva_and_sizes as int);
}

/// Decoding the encoding of a PE32 optional header gives back every field.
#[verifier::rlimit(100)]
#[verifier::spinoff_prover]
pub proof fn lemma_optional_header_decodes(h: OptionalHeader)
    ensures
        optional_header_bytes(h).len() == 224,
        optional_header_at(h, optional_header_bytes(h), 0),
{
    let t = optional_header_bytes(h);
    let (a, b, c) = (optional_image_bytes(h), optional_system_bytes(h), optional_memory_bytes(h));
    let d = data_directories_bytes(h.data_directory);
    lemma_optional_image_decodes(h, a);
    lemma_optional_system_decodes(h, b);
    lemma_optional_memory_decodes(h, c);
    assert(a.subrange(0, 40) =~= t.subrange(0, 40));
    assert(b.subrange(0, 32) =~= t.subrange(40, 72));
    assert(c.subrange(0, 24) =~= t.subrange(72, 96));
    lemma_bytes_agree(a, 0, t, 0, 40);
    lemma_bytes_agree(b, 0, t, 40, 32);
    lemma_bytes_agree(c, 0, t, 72, 24);
    lemma_data_directories_decodes(h.data_directory);
    assert(t.subrange(96, 224) =~= d);
    assert forall|i: int| 0 <= i < 16 implies data_directory_at(
        #[trigger] h.data_directory[i],
        t,
        96 + 8 * i,
    ) by {
        assert(d.subrange(8 * i, 8 * i + 8) =~= t.subrange(96 + 8 * i, 96 + 8 * i + 8));
        lemma_data_directory_moves(h.data_directory[i], d, 8 * i, t, 96 + 8 * i);
    }
}

proof fn lemma_file_header_moves(h: FileHeader, s: Seq<u8>, p: int, t: Seq<u8>, q: int)
    requires
        0 <= p,
        0 <= q,
        p + 20 <= s.len(),
        q + 20 <= t.len(),
        s.subrange(p, p + 20) == t.subrange(q, q + 20),
        file_header_at(h, s, p),
    ensures
        file_header_at(h, t, q),
{
    lemma_bytes_agree(s, p, t, q, 20);
}

#[verifier::rlimit(100)]
#[verifier::spinoff_prover]
proof fn lemma_optional_header_moves(h: OptionalHeader, s: Seq<u8>, p: int, t: Seq<u8>, q: int)
    requires
        0 <= p,
        0 <= q,
        p + 224 <= s.len(),
        q + 224 <= t.len(),
        s.subrange(p, p + 224) == t.subrange(q, q + 224),
        optional_header_at(h, s, p),
    ensures
        optional_header_at(h, t, q),
{
    lemma_bytes_agree(s, p, t, q, 224);
    assert forall|i: int| 0 <= i < 16 implies data_directory_at(
        #[trigger] h.data_directory[i],
        t,
        q + 96 + 8 * i,
    ) by {
        assert(data_directory_at(h.data_directory[i], s, p + 96 + 8 * i));
        assert(s.subrange(p + 96 + 8 * i, p + 96 + 8 * i + 8) =~= t.subrange(
            q + 96 + 8 * i,
            q + 96 + 8 * i + 8,
        ));
        lemma_data_directory_moves(h.data_directory[i], s, p + 96 + 8 * i, t, q + 96 + 8 * i);
    }
}

/// Decoding the encoding of an NT head gives back the signature and both
/// headers, field by field.
pub proof fn lemma_nt_head_decodes(h: NtHead)
    ensures
        nt_head_at(h, nt_head_bytes(h), 0),
{
    let t = nt_head_bytes(h);
    let f = file_header_bytes(h.file_header);
    let o = optional_header_bytes(h.optional_header);
    lemma_u32_decodes(h.signature as int);
    lemma_file_header_decodes(h.file_header);
    lemma_optional_header_decodes(h.optional_header);
    assert(f.subrange(0, 20) =~= t.subrange(4, 24));
    assert(o.subrange(0, 224) =~= t.subrange(24, 248));
    lemma_file_header_moves(h.file_header, f, 0, t, 4);
    lemma_optional_header_moves(h.optional_header, o, 0, t, 24);
}

/// Re-encoding the headers of a walked image gives back, byte for byte, the
/// input regions they were read from: the DOS header at offset 0, the NT
/// head at its offset, and each section header in its place.
pub proof fn lemma_image_round_trip(img: PeImage, s: Seq<u8>)
    requires
        walk_failure(s) is None,
        image_of(img, s),
    ensures
        dos_head_bytes(img.dos_head) == s.subrange(0, 64),
        nt_head_bytes(img.nt_head) == s.subrange(nt_offset(s), nt_offset(s) + 248),
        forall|i: int|
            0 <= i < img.sections@.len() ==> #[trigger] section_header_bytes(img.sections@[i])
                == s.subrange(section_offset(s, i), section_offset(s, i) + 40),
{
    lemma_dos_head_round_trip(img.dos_head, s, 0);
    lemma_nt_head_round_trip(img.nt_head, s, nt_offset(s));
    assert forall|i: int| 0 <= i < img.sections@.len() implies #[trigger] section_header_bytes(
        img.sections@[i],
    ) == s.subrange(section_offset(s, i), section_offset(s, i) + 40) by {
        assert(40 * (i + 1) <= 40 * img.sections@.len()) by (nonlinear_arith)
            requires
                i < img.sections@.len(),
        ;
        lemma_section_header_round_trip(img.sections@[i], s, section_offset(s, i));
    }
}

} // verus!
