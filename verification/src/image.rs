//! Building the mapped image: the byte region the injector writes to the
//! target at the allocated base.
//!
//! The mapped image is `SizeOfImage` bytes: the header prefix of the source
//! buffer at offset zero, every section's raw data at its virtual address,
//! and zero everywhere else. Writing it at the base in one piece places each
//! section exactly where a loader would.

use crate::pe::HEADER_PREFIX;
use crate::pe::PeInfo;
use crate::pe::dir_size;
use crate::pe::dir_va;
use crate::pe::entry_rva;
use crate::pe::img_base;
use crate::pe::img_size;
use crate::pe::lemma_sections_disjoint;
use crate::pe::nt_off;
use crate::pe::num_sections;
use crate::pe::pe_matches;
use crate::pe::sec_matches;
use crate::pe::sec_ptr;
use crate::pe::sec_raw;
use crate::pe::sec_va;
use crate::pe::sect_off;
use crate::pe::section_ok;
use crate::pe::valid_pe;
use vstd::prelude::*;

verus! {

/// Section `i`'s raw bytes sit at its virtual address of the mapped image.
pub open spec fn section_placed(src: Seq<u8>, img: Seq<u8>, i: int) -> bool {
    img.subrange(sec_va(src, i), sec_va(src, i) + sec_raw(src, i)) == src.subrange(
        sec_ptr(src, i),
        sec_ptr(src, i) + sec_raw(src, i),
    )
}

/// Copies `n` bytes of `src` at `src_off` over `dst` at `dst_off`,
/// leaving every byte outside the destination range unchanged.
pub fn copy_into(dst: &mut Vec<u8>, dst_off: usize, src: &Vec<u8>, src_off: usize, n: usize)
    requires
        dst_off + n <= old(dst).len(),
        src_off + n <= src.len(),
    ensures
        final(dst)@.len() == old(dst)@.len(),
        final(dst)@.subrange(dst_off as int, dst_off + n) == src@.subrange(
            src_off as int,
            src_off + n,
        ),
        forall|k: int|
            0 <= k < old(dst)@.len() && !(dst_off <= k < dst_off + n) ==> final(dst)@[k] == old(
                dst,
            )@[k],
{
    let mut idx: usize = 0;
    while idx < n
        invariant
            idx <= n,
            dst_off + n <= dst.len(),
            src_off + n <= src.len(),
            dst@.len() == old(dst)@.len(),
            forall|k: int| 0 <= k < idx ==> #[trigger] dst@[dst_off + k] == src@[src_off + k],
            forall|k: int|
                0 <= k < dst@.len() && !(dst_off <= k < dst_off + idx) ==> dst@[k] == old(
                    dst,
                )@[k],
        decreases n - idx,
    {
        dst.set(dst_off + idx, src[src_off + idx]);
        idx = idx + 1;
    }
    proof {
        let a = dst@.subrange(dst_off as int, dst_off + n);
        let b = src@.subrange(src_off as int, src_off + n);
        assert forall|t: int| 0 <= t < n implies a[t] == b[t] by {
            assert(dst@[dst_off + t] == src@[src_off + t]);
        }
        assert(a =~= b);
    }
}

/// Builds the mapped image from the validated source buffer.
///
/// The result is `SizeOfImage` bytes, begins with the source's header
/// prefix, and carries every section's raw data at its virtual address.
pub fn build_image(src: &Vec<u8>, pe: &PeInfo) -> (img: Vec<u8>)
    requires
        valid_pe(src@),
        pe_matches(src@, *pe),
    ensures
        img@.len() == pe.size_of_image,
        img@.subrange(0, HEADER_PREFIX as int) == src@.subrange(0, HEADER_PREFIX as int),
        forall|i: int| 0 <= i < num_sections(src@) ==> #[trigger] section_placed(src@, img@, i),
{
    let size = pe.size_of_image as usize;
    let mut img: Vec<u8> = vec![0u8; size];
    copy_into(&mut img, 0, src, 0, 0x1000);
    proof {
        assert(img@.subrange(0, HEADER_PREFIX as int) == src@.subrange(0, HEADER_PREFIX as int));
    }
    let n = pe.sections.len();
    let mut i: usize = 0;
    while i < n
        invariant
            i <= n,
            n == num_sections(src@),
            valid_pe(src@),
            pe_matches(src@, *pe),
            n == pe.sections@.len(),
            img.len() == pe.size_of_image,
            img@.subrange(0, HEADER_PREFIX as int) == src@.subrange(0, HEADER_PREFIX as int),
            forall|k: int| 0 <= k < i ==> #[trigger] section_placed(src@, img@, k),
        decreases n - i,
    {
        let va = pe.sections[i].virtual_address;
        let raw = pe.sections[i].size_of_raw_data;
        let ptr = pe.sections[i].pointer_to_raw_data;
        proof {
            assert(sec_matches(src@, i as int, pe.sections@[i as int]));
            assert(section_ok(src@, i as int));
        }
        let ghost prev = img@;
        copy_into(&mut img, va as usize, src, ptr as usize, raw as usize);
        proof {
            assert forall|k: int| 0 <= k < i + 1 implies #[trigger] section_placed(
                src@,
                img@,
                k,
            ) by {
                if k < i {
                    lemma_sections_disjoint(src@, k, i as int);
                    assert(section_ok(src@, k));
                    assert forall|t: int|
                        sec_va(src@, k) <= t < sec_va(src@, k) + sec_raw(
                            src@,
                            k,
                        ) implies img@[t] == prev[t] by {}
                    assert(img@.subrange(sec_va(src@, k), sec_va(src@, k) + sec_raw(src@, k))
                        =~= prev.subrange(sec_va(src@, k), sec_va(src@, k) + sec_raw(src@, k)));
                    assert(section_placed(src@, prev, k));
                } else {
                    assert(img@.subrange(sec_va(src@, k), sec_va(src@, k) + sec_raw(src@, k))
                        == src@.subrange(sec_ptr(src@, k), sec_ptr(src@, k) + sec_raw(src@, k)));
                }
            }
            assert(img@.subrange(0, HEADER_PREFIX as int) =~= src@.subrange(
                0,
                HEADER_PREFIX as int,
            ));
        }
        i = i + 1;
    }
    img
}

/// Re-parsing the mapped image gives back the source's headers.
///
/// Any buffer that begins with the source's header prefix — the mapped image
/// does — yields the same NT header offset, section count, section table,
/// entry point, image base, image size, and every directory entry.
pub proof fn lemma_reparse_same_headers(src: Seq<u8>, img: Seq<u8>)
    requires
        valid_pe(src),
        img.len() >= HEADER_PREFIX,
        img.subrange(0, HEADER_PREFIX as int) == src.subrange(0, HEADER_PREFIX as int),
    ensures
        nt_off(img) == nt_off(src),
        num_sections(img) == num_sections(src),
        entry_rva(img) == entry_rva(src),
        img_size(img) == img_size(src),
        img_base(img) == img_base(src),
        forall|j: int|
            0 <= j < 16 ==> #[trigger] dir_va(img, j) == dir_va(src, j) && dir_size(img, j)
                == dir_size(src, j),
        forall|i: int|
            0 <= i < num_sections(src) ==> #[trigger] sec_va(img, i) == sec_va(src, i) && sec_raw(
                img,
                i,
            ) == sec_raw(src, i) && sec_ptr(img, i) == sec_ptr(src, i),
{
    assert forall|k: int| 0 <= k < HEADER_PREFIX implies img[k] == src[k] by {
        let a = img.subrange(0, HEADER_PREFIX as int);
        let b = src.subrange(0, HEADER_PREFIX as int);
        assert(a[k] == b[k]);
        assert(a[k] == img[k]);
        assert(b[k] == src[k]);
    }
    assert forall|i: int| 0 <= i < num_sections(src) implies #[trigger] sec_va(img, i) == sec_va(
        src,
        i,
    ) && sec_raw(img, i) == sec_raw(src, i) && sec_ptr(img, i) == sec_ptr(src, i) by {
        assert(sect_off(src, i) + 40 <= HEADER_PREFIX);
    }
}

} // verus!
