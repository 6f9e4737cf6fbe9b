use vstd::prelude::*;

use crate::bytes::{le_i32, le_u16, le_u32, ByteReader};
use crate::error::PeError;
use crate::headers::{
    dos_head_at, nt_head_at, read_dos_head, read_nt_head, read_section_header,
    section_header_at, DosHead, NtHead, SectionHeader, PE_SIGNATURE,
};

verus! {

/// Every header of a PE image that the walk decodes.
#[derive(Debug)]
pub struct PeImage {
    pub dos_head: DosHead,
    pub nt_head: NtHead,
    /// The section headers, in file order.
    pub sections: Vec<SectionHeader>,
}

/// Where the NT head starts, by the DOS header of `s`.
pub open spec fn nt_offset(s: Seq<u8>) -> int {
    le_i32(s, 60)
}

/// The number of sections that the COFF file header of `s` declares.
pub open spec fn section_count(s: Seq<u8>) -> int {
    le_u16(s, nt_offset(s) + 6)
}

/// Where section header `i` of `s` starts: right after the NT head.
pub open spec fn section_offset(s: Seq<u8>, i: int) -> int {
    nt_offset(s) + 248 + 40 * i
}

/// The error that stops the walk over `s`, if any, checked in the order in
/// which the walk meets them.
pub open spec fn walk_failure(s: Seq<u8>) -> Option<PeError> {
    if s.len() < 64 {
        Some(PeError::Truncated)
    } else if nt_offset(s) < 0 || nt_offset(s) >= s.len() {
        Some(PeError::SeekOutOfRange)
    } else if nt_offset(s) + 248 > s.len() {
        Some(PeError::Truncated)
    } else if le_u32(s, nt_offset(s)) != 0x4550 {
        Some(PeError::BadSignature)
    } else if section_offset(s, section_count(s)) > s.len() {
        Some(PeError::Truncated)
    } else {
        None
    }
}

/// `img` holds exactly the headers stored in `s`.
pub open spec fn image_of(img: PeImage, s: Seq<u8>) -> bool {
    &&& dos_head_at(img.dos_head, s, 0)
    &&& nt_head_at(img.nt_head, s, nt_offset(s))
    &&& img.sections@.len() == section_count(s)
    &&& forall|i: int|
        0 <= i < img.sections@.len() ==> section_header_at(
            #[trigger] img.sections@[i],
            s,
            section_offset(s, i),
        )
}

/// Walks a PE image: the DOS header at offset 0, the NT head at the offset
/// it names, the signature check, then the declared number of section
/// headers right after the optional header. Any failure ends the walk.
pub fn read_pe_image(data: Vec<u8>) -> (r: Result<PeImage, PeError>)
    ensures
        match r {
            Ok(img) => walk_failure(data@) is None && image_of(img, data@),
            Err(e) => walk_failure(data@) == Some(e),
        },
{
    let ghost s = data@;
    let mut read = ByteReader::new(data);
    let dos_head = read_dos_head(&mut read)?;
    read.seek_to(dos_head.e_lfanew)?;
    let nt_head = read_nt_head(&mut read)?;
    if nt_head.signature != PE_SIGNATURE {
        return Err(PeError::BadSignature);
    }
    let count = nt_head.file_header.number_of_sections;
    let mut sections: Vec<SectionHeader> = Vec::new();
    let mut i: u16 = 0;
    while i < count
        invariant
            s == data@,
            s.len() >= 64,
            0 <= nt_offset(s),
            nt_offset(s) + 248 <= s.len(),
            le_u32(s, nt_offset(s)) == 0x4550,
            count as int == section_count(s),
            read.bytes() == s,
            read.position() == section_offset(s, i as int),
            section_offset(s, i as int) <= s.len(),
            i <= count,
            sections@.len() == i,
            forall|j: int|
                0 <= j < i ==> section_header_at(
                    #[trigger] sections@[j],
                    s,
                    section_offset(s, j),
                ),
        decreases count - i,
    {
        match read_section_header(&mut read) {
            Ok(h) => sections.push(h),
            Err(e) => {
                assert(40 * (i + 1) <= 40 * count) by (nonlinear_arith)
                    requires
                        i < count,
                ;
                return Err(e);
            },
        }
        i = i + 1;
    }
    Ok(PeImage { dos_head, nt_head, sections })
}

/// An input shorter than a DOS header stops the walk as truncated.
pub proof fn lemma_short_input_is_truncated(s: Seq<u8>)
    requires
        s.len() < 64,
    ensures
        walk_failure(s) == Some(PeError::Truncated),
{
}

/// A DOS header whose NT offset is negative, or not inside the input, stops
/// the walk at the seek, whatever follows it; the NT head is never read.
pub proof fn lemma_bad_offset_fails_seek(s: Seq<u8>)
    requires
        s.len() >= 64,
        nt_offset(s) < 0 || nt_offset(s) >= s.len(),
    ensures
        walk_failure(s) == Some(PeError::SeekOutOfRange),
        forall|t: Seq<u8>|
            t.len() == s.len() && t.take(64) == s.take(64) ==> walk_failure(t) == Some(
                PeError::SeekOutOfRange,
            ),
{
    assert forall|t: Seq<u8>| t.len() == s.len() && t.take(64) == s.take(64) implies nt_offset(t)
        == nt_offset(s) by {
        assert(t[60] == t.take(64)[60] && t[61] == t.take(64)[61]);
        assert(t[62] == t.take(64)[62] && t[63] == t.take(64)[63]);
        assert(s[60] == s.take(64)[60] && s[61] == s.take(64)[61]);
        assert(s[62] == s.take(64)[62] && s[63] == s.take(64)[63]);
    }
}

/// The four bytes `50 45 00 00` are the only ones that read as the PE
/// signature.
pub proof fn lemma_signature_bytes(s: Seq<u8>, p: int)
    requires
        0 <= p,
        p + 4 <= s.len(),
    ensures
        (le_u32(s, p) == 0x4550) <==> (s[p] == 0x50 && s[p + 1] == 0x45 && s[p + 2] == 0 && s[p
            + 3] == 0),
{
    let (b0, b1, b2, b3) = (s[p] as int, s[p + 1] as int, s[p + 2] as int, s[p + 3] as int);
    assert((b0 + 256 * b1 + 65536 * (b2 + 256 * b3) == 0x4550) <==> (b0 == 0x50 && b1 == 0x45
        && b2 == 0 && b3 == 0)) by (nonlinear_arith)
        requires
            0 <= b0 < 256,
            0 <= b1 < 256,
            0 <= b2 < 256,
            0 <= b3 < 256,
    ;
}

/// An NT head that is present in full but does not start with `50 45 00 00`
/// stops the walk with a bad signature, before any section header.
pub proof fn lemma_wrong_signature_rejected(s: Seq<u8>)
    requires
        s.len() >= 64,
        0 <= nt_offset(s),
        nt_offset(s) + 248 <= s.len(),
        !(s[nt_offset(s)] == 0x50 && s[nt_offset(s) + 1] == 0x45 && s[nt_offset(s) + 2] == 0
            && s[nt_offset(s) + 3] == 0),
    ensures
        walk_failure(s) == Some(PeError::BadSignature),
{
    lemma_signature_bytes(s, nt_offset(s));
}

/// With a well-formed head, an input that ends exactly after the declared
/// section headers is walked in full, giving one header per section, each
/// read from its own place in file order; one that ends anywhere before
/// that stops the walk as truncated rather than with fewer sections.
pub proof fn lemma_section_count_drives_walk(s: Seq<u8>, img: PeImage)
    requires
        s.len() >= 64,
        0 <= nt_offset(s),
        nt_offset(s) + 248 <= s.len(),
        le_u32(s, nt_offset(s)) == 0x4550,
    ensures
        s.len() == section_offset(s, section_count(s)) ==> walk_failure(s) is None,
        s.len() < section_offset(s, section_count(s)) ==> walk_failure(s) == Some(
            PeError::Truncated,
        ),
        image_of(img, s) ==> img.sections@.len() == section_count(s) && forall|i: int|
            0 <= i < section_count(s) ==> section_header_at(
                #[trigger] img.sections@[i],
                s,
                section_offset(s, i),
            ),
{
}

} // verus!
