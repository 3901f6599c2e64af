//! Parsing and validation of a PE image held in a byte buffer.
//!
//! The parser checks the invariants an injector must establish before any
//! remote write: the DOS and NT signatures, that every header lies inside the
//! buffer, that each section's raw data lies inside the buffer, and that each
//! section's placement lies inside the declared image size, above the header
//! prefix, and after the section before it.

use crate::bytes::le16;
use crate::bytes::le32;
use crate::bytes::le64;
use crate::bytes::read_u16;
use crate::bytes::read_u32;
use crate::bytes::read_u64;
use crate::errors::InjectError;
use vstd::prelude::*;

verus! {

/// Bytes of the source buffer copied to the mapped base as the header prefix.
pub const HEADER_PREFIX: u64 = 0x1000;

/// Index of the import directory in the optional header's directory table.
pub const DIR_IMPORT: usize = 1;

/// Index of the base-relocation directory.
pub const DIR_BASERELOC: usize = 5;

/// Index of the TLS directory.
pub const DIR_TLS: usize = 9;

/// Offset of the NT header inside the buffer, read from the DOS header.
pub open spec fn nt_off(s: Seq<u8>) -> int {
    le32(s, 0x3c)
}

/// Offset of the optional header.
pub open spec fn opt_off(s: Seq<u8>) -> int {
    nt_off(s) + 24
}

/// Number of entries in the section table.
pub open spec fn num_sections(s: Seq<u8>) -> int {
    le16(s, nt_off(s) + 6)
}

/// Offset of the section table: it follows the optional header.
pub open spec fn sect_table_off(s: Seq<u8>) -> int {
    opt_off(s) + le16(s, nt_off(s) + 20)
}

/// Offset of section header `i`.
pub open spec fn sect_off(s: Seq<u8>, i: int) -> int {
    sect_table_off(s) + 40 * i
}

pub open spec fn sec_vsize(s: Seq<u8>, i: int) -> int {
    le32(s, sect_off(s, i) + 8)
}

pub open spec fn sec_va(s: Seq<u8>, i: int) -> int {
    le32(s, sect_off(s, i) + 12)
}

pub open spec fn sec_raw(s: Seq<u8>, i: int) -> int {
    le32(s, sect_off(s, i) + 16)
}

pub open spec fn sec_ptr(s: Seq<u8>, i: int) -> int {
    le32(s, sect_off(s, i) + 20)
}

/// The image's declared size once mapped.
pub open spec fn img_size(s: Seq<u8>) -> int {
    le32(s, opt_off(s) + 56)
}

/// The image's preferred base address.
pub open spec fn img_base(s: Seq<u8>) -> int {
    le64(s, opt_off(s) + 24)
}

/// Entry-point offset from the mapped base.
pub open spec fn entry_rva(s: Seq<u8>) -> int {
    le32(s, opt_off(s) + 16)
}

/// Offset from the mapped base of data directory `j`.
pub open spec fn dir_va(s: Seq<u8>, j: int) -> int {
    le32(s, opt_off(s) + 112 + 8 * j)
}

/// Size of data directory `j`.
pub open spec fn dir_size(s: Seq<u8>, j: int) -> int {
    le32(s, opt_off(s) + 112 + 8 * j + 4)
}

/// The headers validate: signatures, a 64-bit optional header, every header
/// within the header prefix, and an image size that covers the prefix.
pub open spec fn header_ok(s: Seq<u8>) -> bool {
    &&& s.len() >= HEADER_PREFIX
    &&& le16(s, 0) == 0x5a4d
    &&& nt_off(s) + 0x108 <= HEADER_PREFIX
    &&& le32(s, nt_off(s)) == 0x4550
    &&& le16(s, opt_off(s)) == 0x20b
    &&& le16(s, nt_off(s) + 20) >= 240
    &&& sect_table_off(s) + 40 * num_sections(s) <= HEADER_PREFIX
    &&& img_size(s) >= HEADER_PREFIX
}

/// Section `i` validates: raw data inside the buffer, placement inside the
/// declared image size, and placement above the header prefix.
pub open spec fn section_ok(s: Seq<u8>, i: int) -> bool {
    &&& sec_ptr(s, i) + sec_raw(s, i) <= s.len()
    &&& sec_va(s, i) + sec_raw(s, i) <= img_size(s)
    &&& sec_va(s, i) + sec_vsize(s, i) <= img_size(s)
    &&& sec_va(s, i) >= HEADER_PREFIX
}

/// Section `i + 1` starts at or after the end of section `i`'s raw data.
pub open spec fn sections_ordered_at(s: Seq<u8>, i: int) -> bool {
    sec_va(s, i) + sec_raw(s, i) <= sec_va(s, i + 1)
}

/// The buffer is a PE image this injector accepts.
pub open spec fn valid_pe(s: Seq<u8>) -> bool {
    &&& header_ok(s)
    &&& forall|i: int| 0 <= i < num_sections(s) ==> #[trigger] section_ok(s, i)
    &&& forall|i: int| 0 <= i < num_sections(s) - 1 ==> #[trigger] sections_ordered_at(s, i)
}

/// One entry of the optional header's directory table.
#[derive(Clone, Copy, Debug, PartialEq, Eq, Structural)]
pub struct DataDirectory {
    pub virtual_address: u32,
    pub size: u32,
}

/// One entry of the section table.
#[derive(Clone, Debug, PartialEq, Eq)]
pub struct SectionHeader {
    pub name: Vec<u8>,
    pub virtual_size: u32,
    pub virtual_address: u32,
    pub size_of_raw_data: u32,
    pub pointer_to_raw_data: u32,
}

/// The header fields the mapping engine works from.
#[derive(Clone, Debug, PartialEq, Eq)]
pub struct PeInfo {
    pub e_lfanew: u32,
    pub number_of_sections: u16,
    pub size_of_optional_header: u16,
    pub address_of_entry_point: u32,
    pub image_base: u64,
    pub size_of_image: u32,
    pub directories: Vec<DataDirectory>,
    pub sections: Vec<SectionHeader>,
}

/// `h` holds exactly the fields of section header `i` of `s`.
pub open spec fn sec_matches(s: Seq<u8>, i: int, h: SectionHeader) -> bool {
    &&& h.name@ == s.subrange(sect_off(s, i), sect_off(s, i) + 8)
    &&& h.virtual_size == sec_vsize(s, i)
    &&& h.virtual_address == sec_va(s, i)
    &&& h.size_of_raw_data == sec_raw(s, i)
    &&& h.pointer_to_raw_data == sec_ptr(s, i)
}

/// `pe` holds exactly the header fields of `s`.
pub open spec fn pe_matches(s: Seq<u8>, pe: PeInfo) -> bool {
    &&& pe.e_lfanew == nt_off(s)
    &&& pe.number_of_sections == num_sections(s)
    &&& pe.size_of_optional_header == le16(s, nt_off(s) + 20)
    &&& pe.address_of_entry_point == entry_rva(s)
    &&& pe.image_base == img_base(s)
    &&& pe.size_of_image == img_size(s)
    &&& pe.directories@.len() == 16
    &&& forall|j: int|
        0 <= j < 16 ==> (#[trigger] pe.directories@[j]).virtual_address == dir_va(s, j)
            && pe.directories@[j].size == dir_size(s, j)
    &&& pe.sections@.len() == num_sections(s)
    &&& forall|i: int|
        0 <= i < num_sections(s) ==> sec_matches(s, i, #[trigger] pe.sections@[i])
}

/// Raw data of two distinct valid sections cannot overlap in the image:
/// every earlier section ends at or before a later one starts.
pub proof fn lemma_sections_disjoint(s: Seq<u8>, i: int, j: int)
    requires
        valid_pe(s),
        0 <= i < j < num_sections(s),
    ensures
        sec_va(s, i) + sec_raw(s, i) <= sec_va(s, j),
    decreases j - i,
{
    if j == i + 1 {
        assert(sections_ordered_at(s, i));
    } else {
        lemma_sections_disjoint(s, i, j - 1);
        assert(sections_ordered_at(s, j - 1));
        assert(section_ok(s, j - 1));
    }
}

/// Parses and validates the buffer, returning its header fields.
///
/// Succeeds exactly on the buffers that `valid_pe` accepts; every rejected
/// buffer yields `InvalidPE` before any other work happens.
pub fn parse_pe(v: &Vec<u8>) -> (r: Result<PeInfo, InjectError>)
    ensures
        r is Ok <==> valid_pe(v@),
        r matches Ok(pe) ==> pe_matches(v@, pe),
        r matches Err(e) ==> e == InjectError::InvalidPE,
{
    if v.len() < 0x1000 {
        return Err(InjectError::InvalidPE);
    }
    if read_u16(v, 0) != 0x5a4d {
        return Err(InjectError::InvalidPE);
    }
    let e_lfanew = read_u32(v, 0x3c);
    if e_lfanew as u64 + 0x108 > HEADER_PREFIX {
        return Err(InjectError::InvalidPE);
    }
    let nt = e_lfanew as usize;
    if read_u32(v, nt) != 0x4550 {
        return Err(InjectError::InvalidPE);
    }
    let opt = nt + 24;
    if read_u16(v, opt) != 0x20b {
        return Err(InjectError::InvalidPE);
    }
    let size_opt = read_u16(v, nt + 20);
    if size_opt < 240 {
        return Err(InjectError::InvalidPE);
    }
    let number_of_sections = read_u16(v, nt + 6);
    let sect_table = opt + size_opt as usize;
    if sect_table as u64 + 40 * number_of_sections as u64 > HEADER_PREFIX {
        return Err(InjectError::InvalidPE);
    }
    let size_of_image = read_u32(v, opt + 56);
    if (size_of_image as u64) < HEADER_PREFIX {
        return Err(InjectError::InvalidPE);
    }
    let address_of_entry_point = read_u32(v, opt + 16);
    let image_base = read_u64(v, opt + 24);

    let mut directories: Vec<DataDirectory> = Vec::new();
    let mut j: usize = 0;
    while j < 16
        invariant
            j <= 16,
            directories@.len() == j,
            v.len() >= HEADER_PREFIX,
            nt == nt_off(v@),
            opt == opt_off(v@),
            nt_off(v@) + 0x108 <= HEADER_PREFIX,
            forall|k: int|
                0 <= k < j ==> (#[trigger] directories@[k]).virtual_address == dir_va(v@, k)
                    && directories@[k].size == dir_size(v@, k),
        decreases 16 - j,
    {
        let va = read_u32(v, opt + 112 + 8 * j);
        let size = read_u32(v, opt + 112 + 8 * j + 4);
        directories.push(DataDirectory { virtual_address: va, size });
        j = j + 1;
    }

    let mut sections: Vec<SectionHeader> = Vec::new();
    let mut prev_end: u64 = 0;
    let mut i: usize = 0;
    while i < number_of_sections as usize
        invariant
            i <= number_of_sections as usize,
            sections@.len() == i,
            v.len() >= HEADER_PREFIX,
            nt == nt_off(v@),
            opt == opt_off(v@),
            nt_off(v@) + 0x108 <= HEADER_PREFIX,
            number_of_sections == num_sections(v@),
            sect_table == sect_table_off(v@),
            sect_table_off(v@) + 40 * num_sections(v@) <= HEADER_PREFIX,
            size_of_image == img_size(v@),
            forall|k: int| 0 <= k < i ==> #[trigger] section_ok(v@, k),
            forall|k: int| 0 <= k < i - 1 ==> #[trigger] sections_ordered_at(v@, k),
            forall|k: int| 0 <= k < i ==> sec_matches(v@, k, #[trigger] sections@[k]),
            i > 0 ==> prev_end == sec_va(v@, i - 1) + sec_raw(v@, i - 1),
            i == 0 ==> prev_end == 0,
        decreases number_of_sections as usize - i,
    {
        let o = sect_table + 40 * i;
        let virtual_size = read_u32(v, o + 8);
        let virtual_address = read_u32(v, o + 12);
        let size_of_raw_data = read_u32(v, o + 16);
        let pointer_to_raw_data = read_u32(v, o + 20);
        if pointer_to_raw_data as u64 + size_of_raw_data as u64 > v.len() as u64 {
            proof {
                assert(!section_ok(v@, i as int));
            }
            return Err(InjectError::InvalidPE);
        }
        if virtual_address as u64 + size_of_raw_data as u64 > size_of_image as u64 {
            proof {
                assert(!section_ok(v@, i as int));
            }
            return Err(InjectError::InvalidPE);
        }
        if virtual_address as u64 + virtual_size as u64 > size_of_image as u64 {
            proof {
                assert(!section_ok(v@, i as int));
            }
            return Err(InjectError::InvalidPE);
        }
        if (virtual_address as u64) < HEADER_PREFIX {
            proof {
                assert(!section_ok(v@, i as int));
            }
            return Err(InjectError::InvalidPE);
        }
        if prev_end > virtual_address as u64 {
            proof {
                assert(!sections_ordered_at(v@, i - 1));
            }
            return Err(InjectError::InvalidPE);
        }
        let mut name: Vec<u8> = Vec::new();
        let mut b: usize = 0;
        while b < 8
            invariant
                b <= 8,
                name@.len() == b,
                o + 8 <= v.len(),
                forall|k: int| 0 <= k < b ==> name@[k] == v@[o + k],
            decreases 8 - b,
        {
            name.push(v[o + b]);
            b = b + 1;
        }
        proof {
            assert(name@ =~= v@.subrange(sect_off(v@, i as int), sect_off(v@, i as int) + 8));
        }
        prev_end = virtual_address as u64 + size_of_raw_data as u64;
        sections.push(
            SectionHeader {
                name,
                virtual_size,
                virtual_address,
                size_of_raw_data,
                pointer_to_raw_data,
            },
        );
        i = i + 1;
    }

    Ok(
        PeInfo {
            e_lfanew,
            number_of_sections,
            size_of_optional_header: size_opt,
            address_of_entry_point,
            image_base,
            size_of_image,
            directories,
            sections,
        },
    )
}

} // verus!
