//! Base relocations: parsing the relocation directory and applying fix-ups.
//!
//! When the image is mapped at a base other than its preferred one, every
//! absolute address recorded in the relocation directory must be shifted by
//! the difference. A block names a page; each 16-bit entry carries a type in
//! its high four bits and a page offset in its low twelve. A 64-bit fix-up
//! adds the delta, wrapping, to the pointer-sized word at the entry's slot.

use crate::bytes::le16;
use crate::bytes::le32;
use crate::bytes::le64;
use crate::bytes::lemma_le64_over_disjoint_store;
use crate::bytes::lemma_store_le64_frame;
use crate::bytes::lemma_store_le64_read;
use crate::bytes::read_u16;
use crate::bytes::read_u32;
use crate::bytes::read_u64;
use crate::bytes::store_le64;
use crate::bytes::write_u64;
use crate::errors::InjectError;
use vstd::prelude::*;

verus! {

/// One parsed relocation block: the page it covers and its entries.
#[derive(Clone, Debug, PartialEq, Eq)]
pub struct RelocBlock {
    pub page_rva: u32,
    pub entries: Vec<u16>,
}

/// The ghost shape of a block: page offset and entry words.
pub open spec fn blocks_view(blocks: Seq<RelocBlock>) -> Seq<(int, Seq<u16>)> {
    Seq::new(blocks.len(), |i: int| (blocks[i].page_rva as int, blocks[i].entries@))
}

/// Whether entry `e` asks for a 64-bit fix-up.
pub open spec fn is_dir64(e: u16) -> bool {
    e / 0x1000 == 10
}

/// The slot entry `e` patches in the page at `page`.
pub open spec fn slot_of(page: int, e: u16) -> int {
    page + e % 0x1000
}

/// 64-bit wrapping sum.
pub open spec fn wrap_add64(a: int, delta: u64) -> int {
    (a + delta) % 0x10000000000000000
}

/// The image after entry `e` of the page at `page` is applied.
pub open spec fn apply_entry(img: Seq<u8>, page: int, e: u16, delta: u64) -> Seq<u8> {
    if is_dir64(e) {
        store_le64(img, slot_of(page, e), wrap_add64(le64(img, slot_of(page, e)), delta) as u64)
    } else {
        img
    }
}

/// The image after the entries are applied in order.
pub open spec fn apply_entries(img: Seq<u8>, page: int, es: Seq<u16>, delta: u64) -> Seq<u8>
    decreases es.len(),
{
    if es.len() == 0 {
        img
    } else {
        apply_entry(apply_entries(img, page, es.drop_last(), delta), page, es.last(), delta)
    }
}

/// The image after the blocks are applied in order.
pub open spec fn apply_blocks(img: Seq<u8>, bs: Seq<(int, Seq<u16>)>, delta: u64) -> Seq<u8>
    decreases bs.len(),
{
    if bs.len() == 0 {
        img
    } else {
        apply_entries(apply_blocks(img, bs.drop_last(), delta), bs.last().0, bs.last().1, delta)
    }
}

/// A 64-bit entry's slot lies inside an image of length `len`.
pub open spec fn entry_fits(len: int, page: int, e: u16) -> bool {
    is_dir64(e) ==> slot_of(page, e) + 8 <= len
}

/// Every entry of the page at `page` patches inside the image.
pub open spec fn entries_in_bounds(len: int, page: int, es: Seq<u16>) -> bool {
    &&& 0 <= page
    &&& forall|k: int| 0 <= k < es.len() ==> entry_fits(len, page, #[trigger] es[k])
}

/// Every entry of every block patches inside the image.
pub open spec fn blocks_in_bounds(len: int, bs: Seq<(int, Seq<u16>)>) -> bool {
    forall|i: int| 0 <= i < bs.len() ==> entries_in_bounds(len, (#[trigger] bs[i]).0, bs[i].1)
}

/// The two entries' slots do not share a byte.
pub open spec fn slots_disjoint(p1: int, e1: u16, p2: int, e2: u16) -> bool {
    slot_of(p1, e1) + 8 <= slot_of(p2, e2) || slot_of(p2, e2) + 8 <= slot_of(p1, e1)
}

/// No 64-bit slot of the entries touches `[pos, pos + 8)`.
pub open spec fn entries_avoid(page: int, es: Seq<u16>, pos: int) -> bool {
    forall|k: int|
        0 <= k < es.len() && is_dir64(#[trigger] es[k]) ==> slot_of(page, es[k]) + 8 <= pos || pos
            + 8 <= slot_of(page, es[k])
}

/// No 64-bit slot of any block touches `[pos, pos + 8)`.
pub open spec fn blocks_avoid(bs: Seq<(int, Seq<u16>)>, pos: int) -> bool {
    forall|i: int| 0 <= i < bs.len() ==> entries_avoid((#[trigger] bs[i]).0, bs[i].1, pos)
}

/// Distinct 64-bit entries of one page have disjoint slots.
pub open spec fn entries_mutually_disjoint(page: int, es: Seq<u16>) -> bool {
    forall|a: int, b: int|
        #![trigger es[a], es[b]]
        0 <= a < b < es.len() && is_dir64(es[a]) && is_dir64(es[b]) ==> slots_disjoint(
            page,
            es[a],
            page,
            es[b],
        )
}

/// Distinct 64-bit entries, whether of one block or of two, have disjoint
/// slots.
pub open spec fn blocks_mutually_disjoint(bs: Seq<(int, Seq<u16>)>) -> bool {
    &&& forall|i: int|
        0 <= i < bs.len() ==> entries_mutually_disjoint((#[trigger] bs[i]).0, bs[i].1)
    &&& forall|i: int, j: int, k1: int, k2: int|
        #![trigger bs[i].1[k1], bs[j].1[k2]]
        0 <= i < j < bs.len() && 0 <= k1 < bs[i].1.len() && 0 <= k2 < bs[j].1.len() && is_dir64(
            bs[i].1[k1],
        ) && is_dir64(bs[j].1[k2]) ==> slots_disjoint(bs[i].0, bs[i].1[k1], bs[j].0, bs[j].1[k2])
}

/// Applying entries never changes the image's length.
pub proof fn lemma_apply_entries_len(img: Seq<u8>, page: int, es: Seq<u16>, delta: u64)
    requires
        entries_in_bounds(img.len() as int, page, es),
    ensures
        apply_entries(img, page, es, delta).len() == img.len(),
    decreases es.len(),
{
    if es.len() > 0 {
        assert(entries_in_bounds(img.len() as int, page, es.drop_last())) by {
            assert(forall|k: int|
                0 <= k < es.drop_last().len() ==> #[trigger] es.drop_last()[k] == es[k]);
        }
        lemma_apply_entries_len(img, page, es.drop_last(), delta);
        assert(entry_fits(img.len() as int, page, es.last()));
    }
}

/// Applying blocks never changes the image's length.
pub proof fn lemma_apply_blocks_len(img: Seq<u8>, bs: Seq<(int, Seq<u16>)>, delta: u64)
    requires
        blocks_in_bounds(img.len() as int, bs),
    ensures
        apply_blocks(img, bs, delta).len() == img.len(),
    decreases bs.len(),
{
    if bs.len() > 0 {
        assert(blocks_in_bounds(img.len() as int, bs.drop_last())) by {
            assert(forall|i: int|
                0 <= i < bs.drop_last().len() ==> #[trigger] bs.drop_last()[i] == bs[i]);
        }
        lemma_apply_blocks_len(img, bs.drop_last(), delta);
        lemma_apply_entries_len(apply_blocks(img, bs.drop_last(), delta), bs.last().0, bs.last().1, delta);
    }
}

/// A 64-bit word at a slot no entry touches reads the same after the
/// entries are applied.
pub proof fn lemma_entries_frame(img: Seq<u8>, page: int, es: Seq<u16>, delta: u64, pos: int)
    requires
        entries_in_bounds(img.len() as int, page, es),
        0 <= pos,
        pos + 8 <= img.len(),
        entries_avoid(page, es, pos),
    ensures
        le64(apply_entries(img, page, es, delta), pos) == le64(img, pos),
    decreases es.len(),
{
    if es.len() > 0 {
        assert(entries_in_bounds(img.len() as int, page, es.drop_last())
            && entries_avoid(page, es.drop_last(), pos)) by {
            assert(forall|k: int|
                0 <= k < es.drop_last().len() ==> #[trigger] es.drop_last()[k] == es[k]);
        }
        lemma_entries_frame(img, page, es.drop_last(), delta, pos);
        lemma_apply_entries_len(img, page, es.drop_last(), delta);
        let mid = apply_entries(img, page, es.drop_last(), delta);
        let e = es.last();
        if is_dir64(e) {
            assert(entry_fits(img.len() as int, page, e));
            lemma_le64_over_disjoint_store(
                mid,
                slot_of(page, e),
                wrap_add64(le64(mid, slot_of(page, e)), delta) as u64,
                pos,
            );
        }
    }
}

/// A 64-bit word at a slot no block touches reads the same after the
/// blocks are applied.
pub proof fn lemma_blocks_frame(img: Seq<u8>, bs: Seq<(int, Seq<u16>)>, delta: u64, pos: int)
    requires
        blocks_in_bounds(img.len() as int, bs),
        0 <= pos,
        pos + 8 <= img.len(),
        blocks_avoid(bs, pos),
    ensures
        le64(apply_blocks(img, bs, delta), pos) == le64(img, pos),
    decreases bs.len(),
{
    if bs.len() > 0 {
        assert(blocks_in_bounds(img.len() as int, bs.drop_last()) && blocks_avoid(
            bs.drop_last(),
            pos,
        )) by {
            assert(forall|i: int|
                0 <= i < bs.drop_last().len() ==> #[trigger] bs.drop_last()[i] == bs[i]);
        }
        lemma_blocks_frame(img, bs.drop_last(), delta, pos);
        lemma_apply_blocks_len(img, bs.drop_last(), delta);
        lemma_entries_frame(
            apply_blocks(img, bs.drop_last(), delta),
            bs.last().0,
            bs.last().1,
            delta,
            pos,
        );
    }
}

/// After one page's entries are applied, every 64-bit entry's slot holds its
/// old value plus the delta — incremented exactly once.
pub proof fn lemma_entries_effect(img: Seq<u8>, page: int, es: Seq<u16>, delta: u64, j: int)
    requires
        entries_in_bounds(img.len() as int, page, es),
        entries_mutually_disjoint(page, es),
        0 <= j < es.len(),
        is_dir64(es[j]),
    ensures
        le64(apply_entries(img, page, es, delta), slot_of(page, es[j])) == wrap_add64(
            le64(img, slot_of(page, es[j])),
            delta,
        ),
    decreases es.len(),
{
    assert(entry_fits(img.len() as int, page, es[j]));
    let pos = slot_of(page, es[j]);
    assert(entries_in_bounds(img.len() as int, page, es.drop_last()) && entries_mutually_disjoint(
        page,
        es.drop_last(),
    )) by {
        assert(forall|k: int|
            0 <= k < es.drop_last().len() ==> #[trigger] es.drop_last()[k] == es[k]);
    }
    lemma_apply_entries_len(img, page, es.drop_last(), delta);
    let mid = apply_entries(img, page, es.drop_last(), delta);
    if j == es.len() - 1 {
        assert(entries_avoid(page, es.drop_last(), pos)) by {
            assert(forall|k: int|
                0 <= k < es.drop_last().len() ==> #[trigger] es.drop_last()[k] == es[k]);
        }
        lemma_entries_frame(img, page, es.drop_last(), delta, pos);
        lemma_store_le64_read(mid, pos, wrap_add64(le64(mid, pos), delta) as u64);
    } else {
        lemma_entries_effect(img, page, es.drop_last(), delta, j);
        let e = es.last();
        if is_dir64(e) {
            assert(slots_disjoint(page, es[j], page, e));
            assert(entry_fits(img.len() as int, page, e));
            lemma_le64_over_disjoint_store(
                mid,
                slot_of(page, e),
                wrap_add64(le64(mid, slot_of(page, e)), delta) as u64,
                pos,
            );
        }
    }
}

/// After all blocks are applied, every 64-bit entry's slot holds its old
/// value plus the delta — incremented exactly once, whatever the other
/// blocks did elsewhere.
pub proof fn lemma_blocks_effect(
    img: Seq<u8>,
    bs: Seq<(int, Seq<u16>)>,
    delta: u64,
    bi: int,
    j: int,
)
    requires
        blocks_in_bounds(img.len() as int, bs),
        blocks_mutually_disjoint(bs),
        0 <= bi < bs.len(),
        0 <= j < bs[bi].1.len(),
        is_dir64(bs[bi].1[j]),
    ensures
        le64(apply_blocks(img, bs, delta), slot_of(bs[bi].0, bs[bi].1[j])) == wrap_add64(
            le64(img, slot_of(bs[bi].0, bs[bi].1[j])),
            delta,
        ),
    decreases bs.len(),
{
    let pos = slot_of(bs[bi].0, bs[bi].1[j]);
    assert(entries_in_bounds(img.len() as int, bs[bi].0, bs[bi].1));
    assert(entry_fits(img.len() as int, bs[bi].0, bs[bi].1[j]));
    assert(blocks_in_bounds(img.len() as int, bs.drop_last()) && blocks_mutually_disjoint(
        bs.drop_last(),
    )) by {
        assert(forall|i: int|
            0 <= i < bs.drop_last().len() ==> #[trigger] bs.drop_last()[i] == bs[i]);
    }
    lemma_apply_blocks_len(img, bs.drop_last(), delta);
    let mid = apply_blocks(img, bs.drop_last(), delta);
    if bi == bs.len() - 1 {
        assert(blocks_avoid(bs.drop_last(), pos)) by {
            assert(forall|i: int|
                0 <= i < bs.drop_last().len() ==> #[trigger] bs.drop_last()[i] == bs[i]);
            assert forall|i: int| 0 <= i < bs.drop_last().len() implies entries_avoid(
                (#[trigger] bs.drop_last()[i]).0,
                bs.drop_last()[i].1,
                pos,
            ) by {
                assert forall|k: int|
                    0 <= k < bs[i].1.len() && is_dir64(#[trigger] bs[i].1[k]) implies slot_of(
                    bs[i].0,
                    bs[i].1[k],
                ) + 8 <= pos || pos + 8 <= slot_of(bs[i].0, bs[i].1[k]) by {
                    assert(slots_disjoint(bs[i].0, bs[i].1[k], bs[bi].0, bs[bi].1[j]));
                }
            }
        }
        lemma_blocks_frame(img, bs.drop_last(), delta, pos);
        lemma_entries_effect(mid, bs[bi].0, bs[bi].1, delta, j);
    } else {
        lemma_blocks_effect(img, bs.drop_last(), delta, bi, j);
        assert(entries_avoid(bs.last().0, bs.last().1, pos)) by {
            let li = bs.len() - 1;
            assert forall|k: int|
                0 <= k < bs[li].1.len() && is_dir64(#[trigger] bs[li].1[k]) implies slot_of(
                bs[li].0,
                bs[li].1[k],
            ) + 8 <= pos || pos + 8 <= slot_of(bs[li].0, bs[li].1[k]) by {
                assert(slots_disjoint(bs[bi].0, bs[bi].1[j], bs[li].0, bs[li].1[k]));
            }
        }
        lemma_entries_frame(mid, bs.last().0, bs.last().1, delta, pos);
    }
}

/// Applying two entries with disjoint slots commutes.
pub proof fn lemma_apply_entry_commute(img: Seq<u8>, page: int, e1: u16, e2: u16, delta: u64)
    requires
        0 <= page,
        entry_fits(img.len() as int, page, e1),
        entry_fits(img.len() as int, page, e2),
        is_dir64(e1) && is_dir64(e2) ==> slots_disjoint(page, e1, page, e2),
    ensures
        apply_entry(apply_entry(img, page, e1, delta), page, e2, delta) == apply_entry(
            apply_entry(img, page, e2, delta),
            page,
            e1,
            delta,
        ),
{
    if is_dir64(e1) && is_dir64(e2) {
        let s1 = slot_of(page, e1);
        let s2 = slot_of(page, e2);
        let v1 = wrap_add64(le64(img, s1), delta) as u64;
        let v2 = wrap_add64(le64(img, s2), delta) as u64;
        lemma_le64_over_disjoint_store(img, s1, v1, s2);
        lemma_le64_over_disjoint_store(img, s2, v2, s1);
        let lhs = store_le64(store_le64(img, s1, v1), s2, v2);
        let rhs = store_le64(store_le64(img, s2, v2), s1, v1);
        lemma_store_le64_frame(img, s1, v1);
        lemma_store_le64_frame(img, s2, v2);
        lemma_store_le64_frame(store_le64(img, s1, v1), s2, v2);
        lemma_store_le64_frame(store_le64(img, s2, v2), s1, v1);
        assert forall|k: int| 0 <= k < img.len() implies lhs[k] == rhs[k] by {}
        assert(lhs =~= rhs);
    }
}

/// Bounds and mutual disjointness survive removing one entry.
pub proof fn lemma_entries_props_remove(len: int, page: int, es: Seq<u16>, i: int)
    requires
        entries_in_bounds(len, page, es),
        entries_mutually_disjoint(page, es),
        0 <= i < es.len(),
    ensures
        entries_in_bounds(len, page, es.remove(i)),
        entries_mutually_disjoint(page, es.remove(i)),
{
    let r = es.remove(i);
    assert forall|k: int| 0 <= k < r.len() implies entry_fits(len, page, #[trigger] r[k]) by {
        if k < i {
            assert(r[k] == es[k]);
        } else {
            assert(r[k] == es[k + 1]);
        }
    }
    assert forall|a: int, b: int|
        #![trigger r[a], r[b]]
        0 <= a < b < r.len() && is_dir64(r[a]) && is_dir64(r[b]) implies slots_disjoint(
        page,
        r[a],
        page,
        r[b],
    ) by {
        let a1: int = if a < i {
            a
        } else {
            a + 1
        };
        let b1: int = if b < i {
            b
        } else {
            b + 1
        };
        assert(r[a] == es[a1] && r[b] == es[b1]);
        assert(slots_disjoint(page, es[a1], page, es[b1]));
    }
}

/// Any one entry of a block may be applied last: the result is the same as
/// applying the block in file order.
pub proof fn lemma_apply_entries_extract(img: Seq<u8>, page: int, es: Seq<u16>, delta: u64, i: int)
    requires
        entries_in_bounds(img.len() as int, page, es),
        entries_mutually_disjoint(page, es),
        0 <= i < es.len(),
    ensures
        apply_entries(img, page, es, delta) == apply_entry(
            apply_entries(img, page, es.remove(i), delta),
            page,
            es[i],
            delta,
        ),
    decreases es.len(),
{
    if i == es.len() - 1 {
        assert(es.remove(i) =~= es.drop_last());
    } else {
        let d = es.drop_last();
        assert(entries_in_bounds(img.len() as int, page, d) && entries_mutually_disjoint(page, d))
            by {
            assert(forall|k: int| 0 <= k < d.len() ==> #[trigger] d[k] == es[k]);
        }
        lemma_apply_entries_extract(img, page, d, delta, i);
        lemma_entries_props_remove(img.len() as int, page, d, i);
        lemma_apply_entries_len(img, page, d.remove(i), delta);
        let m = apply_entries(img, page, d.remove(i), delta);
        let e_last = es.last();
        assert(entry_fits(m.len() as int, page, d[i]) && entry_fits(m.len() as int, page, e_last));
        if is_dir64(d[i]) && is_dir64(e_last) {
            assert(slots_disjoint(page, es[i], page, es[es.len() - 1]));
        }
        lemma_apply_entry_commute(m, page, d[i], e_last, delta);
        assert(es.remove(i).drop_last() =~= d.remove(i));
        assert(es.remove(i).last() == e_last);
        assert(es.remove(i).len() > 0);
    }
}

/// Applying a block's entries in any order gives the applied image of file
/// order: with disjoint slots, the fix-ups of one block commute.
pub proof fn lemma_apply_entries_any_order(
    img: Seq<u8>,
    page: int,
    es1: Seq<u16>,
    es2: Seq<u16>,
    delta: u64,
)
    requires
        entries_in_bounds(img.len() as int, page, es1),
        entries_mutually_disjoint(page, es1),
        es1.to_multiset() == es2.to_multiset(),
    ensures
        apply_entries(img, page, es1, delta) == apply_entries(img, page, es2, delta),
    decreases es1.len(),
{
    broadcast use vstd::seq_lib::group_to_multiset_ensures;

    if es2.len() == 0 {
        assert(es1.len() == es1.to_multiset().len());
        assert(es1 =~= es2);
    } else {
        let e = es2.last();
        assert(es2.contains(e));
        assert(es2.to_multiset().count(e) > 0);
        assert(es1.contains(e));
        let i = choose|i: int| 0 <= i < es1.len() && es1[i] == e;
        lemma_apply_entries_extract(img, page, es1, delta, i);
        lemma_entries_props_remove(img.len() as int, page, es1, i);
        let d2 = es2.drop_last();
        assert(es2 =~= d2.push(e));
        assert(es2.to_multiset() =~= d2.to_multiset().insert(e));
        assert(es1.remove(i).to_multiset() =~= es1.to_multiset().remove(e));
        assert(es1.remove(i).to_multiset() =~= d2.to_multiset()) by {
            assert(d2.to_multiset().insert(e).remove(e) =~= d2.to_multiset());
        }
        lemma_apply_entries_any_order(img, page, es1.remove(i), d2, delta);
    }
}

/// The parsed shape of the relocation directory starting at `pos`: blocks in
/// file order until one names page zero. `None` when a block overruns the
/// image, a block's length field is short, a 64-bit entry patches outside
/// the image, or no terminating block exists.
pub open spec fn spec_parse_blocks(s: Seq<u8>, pos: int) -> Option<Seq<(int, Seq<u16>)>>
    decreases s.len() - pos,
{
    if pos < 0 || pos + 8 > s.len() {
        None
    } else if le32(s, pos) == 0 {
        Some(Seq::empty())
    } else {
        let page = le32(s, pos);
        let size = le32(s, pos + 4);
        if size < 8 || pos + size > s.len() {
            None
        } else {
            let entries = Seq::new(((size - 8) / 2) as nat, |k: int| le16(s, pos + 8 + 2 * k) as u16);
            if !entries_in_bounds(s.len() as int, page, entries) {
                None
            } else {
                match spec_parse_blocks(s, pos + size) {
                    Option::None => None,
                    Option::Some(rest) => Some(seq![(page, entries)] + rest),
                }
            }
        }
    }
}

/// Walks the relocation directory of the mapped image at `reloc_va`.
///
/// Succeeds exactly when the directory is well formed, handing back the
/// blocks in file order with every entry cached, so that later fix-ups never
/// re-read a table they are rewriting.
#[verifier::loop_isolation(false)]
pub fn parse_relocations(img: &Vec<u8>, reloc_va: u32) -> (r: Result<Vec<RelocBlock>, InjectError>)
    ensures
        r is Ok <==> spec_parse_blocks(img@, reloc_va as int) is Some,
        r matches Ok(blocks) ==> Some(blocks_view(blocks@)) == spec_parse_blocks(
            img@,
            reloc_va as int,
        ),
        r matches Err(e) ==> e == InjectError::InvalidPE,
{
    let ghost start = reloc_va as int;
    let mut blocks: Vec<RelocBlock> = Vec::new();
    if reloc_va as u64 + 8 > img.len() as u64 {
        return Err(InjectError::InvalidPE);
    }
    let mut pos: usize = reloc_va as usize;
    let mut done = false;
    while !done
        invariant
            pos <= img.len(),
            (spec_parse_blocks(img@, start) is Some <==> spec_parse_blocks(img@, pos as int)
                is Some),
            spec_parse_blocks(img@, start) is Some ==> spec_parse_blocks(img@, start)
                == Some(
                blocks_view(blocks@) + spec_parse_blocks(img@, pos as int).unwrap(),
            ),
            done ==> spec_parse_blocks(img@, start) is Some && Some(blocks_view(blocks@))
                == spec_parse_blocks(img@, start),
        decreases img@.len() - pos + (if done {
            0int
        } else {
            1int
        }),
    {
        if img.len() < 8 || pos > img.len() - 8 {
            return Err(InjectError::InvalidPE);
        }
        let page = read_u32(img, pos);
        if page == 0 {
            proof {
                assert(spec_parse_blocks(img@, pos as int) == Some(Seq::<(int, Seq<u16>)>::empty()));
                assert(blocks_view(blocks@) + Seq::<(int, Seq<u16>)>::empty() =~= blocks_view(
                    blocks@,
                ));
            }
            done = true;
        } else {
            let size = read_u32(img, pos + 4);
        if size < 8 {
            return Err(InjectError::InvalidPE);
        }
        if size as usize > img.len() - pos {
            return Err(InjectError::InvalidPE);
        }
        let n_entries = ((size - 8) / 2) as usize;
        let ghost spec_entries = Seq::new(
            n_entries as nat,
            |k: int| le16(img@, pos + 8 + 2 * k) as u16,
        );
        let mut entries: Vec<u16> = Vec::new();
        let mut k: usize = 0;
        while k < n_entries
            invariant
                k <= n_entries,
                entries@.len() == k,
                pos + size <= img.len(),
                n_entries == (size - 8) / 2,
                size >= 8,
                forall|t: int| 0 <= t < k ==> #[trigger] entries@[t] == le16(img@, pos + 8 + 2 * t),
                forall|t: int|
                    0 <= t < k ==> entry_fits(img@.len() as int, page as int, #[trigger] entries@[t]),
            decreases n_entries - k,
        {
            let e = read_u16(img, pos + 8 + 2 * k);
            if e / 0x1000 == 10 {
                if page as u64 + (e % 0x1000) as u64 + 8 > img.len() as u64 {
                    proof {
                        assert(spec_entries[k as int] == e);
                        assert(!entry_fits(img@.len() as int, page as int, spec_entries[k as int]));
                        assert(!entries_in_bounds(img@.len() as int, page as int, spec_entries));
                        assert(spec_parse_blocks(img@, pos as int) is None);
                    }
                    return Err(InjectError::InvalidPE);
                }
            }
            entries.push(e);
            k = k + 1;
        }
        proof {
            assert(entries@ =~= spec_entries);
            assert(entries_in_bounds(img@.len() as int, page as int, spec_entries)) by {
                assert(forall|t: int|
                    0 <= t < spec_entries.len() ==> entry_fits(
                        img@.len() as int,
                        page as int,
                        #[trigger] spec_entries[t],
                    ));
            }
        }
        let ghost old_blocks = blocks@;
        blocks.push(RelocBlock { page_rva: page, entries });
        proof {
            assert(spec_parse_blocks(img@, pos as int) is Some ==> spec_parse_blocks(
                img@,
                pos as int,
            ) == Some(
                seq![(page as int, spec_entries)] + spec_parse_blocks(
                    img@,
                    pos + size as int,
                ).unwrap(),
            ));
            assert(blocks_view(blocks@) =~= blocks_view(old_blocks) + seq![
                (page as int, spec_entries),
            ]);
            if spec_parse_blocks(img@, start) is Some {
                assert((blocks_view(old_blocks) + seq![(page as int, spec_entries)])
                    + spec_parse_blocks(img@, pos + size as int).unwrap() =~= blocks_view(
                    old_blocks,
                ) + (seq![(page as int, spec_entries)] + spec_parse_blocks(
                    img@,
                    pos + size as int,
                ).unwrap()));
            }
        }
        pos = pos + size as usize;
        }
    }
    Ok(blocks)
}

/// Applies every parsed relocation block to the image, adding the delta,
/// wrapping, to the 64-bit word at each fix-up entry's slot.
#[verifier::loop_isolation(false)]
pub fn apply_relocations(img: &mut Vec<u8>, blocks: &Vec<RelocBlock>, delta: u64)
    requires
        blocks_in_bounds(old(img).len() as int, blocks_view(blocks@)),
    ensures
        final(img)@ == apply_blocks(old(img)@, blocks_view(blocks@), delta),
        final(img)@.len() == old(img)@.len(),
{
    let ghost bv = blocks_view(blocks@);
    let nb = blocks.len();
    let mut bi: usize = 0;
    proof {
        assert(bv.take(0) =~= Seq::<(int, Seq<u16>)>::empty());
    }
    while bi < nb
        invariant
            bi <= nb,
            nb == blocks@.len(),
            bv == blocks_view(blocks@),
            blocks_in_bounds(old(img)@.len() as int, bv),
            img@ == apply_blocks(old(img)@, bv.take(bi as int), delta),
            img@.len() == old(img)@.len(),
        decreases nb - bi,
    {
        let page = blocks[bi].page_rva;
        let ne = blocks[bi].entries.len();
        let ghost es = blocks@[bi as int].entries@;
        proof {
            assert(bv[bi as int] == (page as int, es));
            assert(entries_in_bounds(old(img)@.len() as int, page as int, es));
            assert(es.take(0) =~= Seq::<u16>::empty());
        }
        let ghost base = img@;
        let mut j: usize = 0;
        while j < ne
            invariant
                j <= ne,
                ne == es.len(),
                bi < nb,
                nb == blocks@.len(),
                page == blocks@[bi as int].page_rva,
                es == blocks@[bi as int].entries@,
                entries_in_bounds(base.len() as int, page as int, es),
                img@ == apply_entries(base, page as int, es.take(j as int), delta),
                img@.len() == base.len(),
            decreases ne - j,
        {
            let e = blocks[bi].entries[j];
            let ghost before = img@;
            if e / 0x1000 == 10 {
                proof {
                    assert(es[j as int] == e);
                    assert(is_dir64(e));
                    assert(entry_fits(base.len() as int, page as int, e));
                }
                let slot = page as usize + (e % 0x1000) as usize;
                let oldv = read_u64(img, slot);
                let newv = oldv.wrapping_add(delta);
                proof {
                    lemma_wrap64(oldv, delta);
                }
                write_u64(img, slot, newv);
                proof {
                    assert(img@ == apply_entry(before, page as int, e, delta));
                }
            } else {
                proof {
                    assert(es[j as int] == e);
                    assert(!is_dir64(e));
                    assert(img@ == apply_entry(before, page as int, e, delta));
                }
            }
            proof {
                assert(es.take(j + 1).drop_last() =~= es.take(j as int));
                assert(es.take(j + 1).last() == es[j as int]);
            }
            j = j + 1;
        }
        proof {
            assert(es.take(ne as int) =~= es);
            assert(bv.take(bi + 1).drop_last() =~= bv.take(bi as int));
            assert(bv.take(bi + 1).last() == bv[bi as int]);
        }
        bi = bi + 1;
    }
    proof {
        assert(bv.take(nb as int) =~= bv);
    }
}

/// Whatever the relocation walk accepts patches inside the image: the walk
/// refuses any 64-bit entry whose slot overruns it.
pub proof fn lemma_parsed_blocks_in_bounds(s: Seq<u8>, pos: int)
    requires
        spec_parse_blocks(s, pos) is Some,
    ensures
        blocks_in_bounds(s.len() as int, spec_parse_blocks(s, pos).unwrap()),
    decreases s.len() - pos,
{
    let bs = spec_parse_blocks(s, pos).unwrap();
    if le32(s, pos) == 0 {
        assert(bs.len() == 0);
    } else {
        let size = le32(s, pos + 4);
        let rest = spec_parse_blocks(s, pos + size).unwrap();
        lemma_parsed_blocks_in_bounds(s, pos + size);
        assert forall|i: int| 0 <= i < bs.len() implies entries_in_bounds(
            s.len() as int,
            (#[trigger] bs[i]).0,
            bs[i].1,
        ) by {
            if i > 0 {
                assert(bs[i] == rest[i - 1]);
            }
        }
    }
}

/// Fixes the mapped image up for a base shifted by `delta`: walks the
/// relocation directory at `reloc_va` and applies every block, leaving the
/// image untouched when the directory is malformed.
pub fn relocate_image(img: &mut Vec<u8>, reloc_va: u32, delta: u64) -> (r: Result<
    (),
    InjectError,
>)
    ensures
        r is Ok <==> spec_parse_blocks(old(img)@, reloc_va as int) is Some,
        r is Ok ==> final(img)@ == apply_blocks(
            old(img)@,
            spec_parse_blocks(old(img)@, reloc_va as int).unwrap(),
            delta,
        ),
        r is Err ==> final(img)@ == old(img)@,
        r matches Err(e) ==> e == InjectError::InvalidPE,
{
    let blocks = match parse_relocations(img, reloc_va) {
        Ok(b) => b,
        Err(e) => {
            return Err(e);
        },
    };
    proof {
        lemma_parsed_blocks_in_bounds(img@, reloc_va as int);
    }
    apply_relocations(img, &blocks, delta);
    Ok(())
}

/// The wrapping 64-bit sum is the mathematical sum reduced modulo two to
/// the sixty-fourth.
pub proof fn lemma_wrap64(a: u64, d: u64)
    ensures
        a + d <= u64::MAX ==> wrap_add64(a as int, d) == a + d,
        a + d > u64::MAX ==> wrap_add64(a as int, d) == a + d - 0x10000000000000000,
{
    if a + d <= u64::MAX {
        vstd::arithmetic::div_mod::lemma_small_mod((a + d) as nat, 0x10000000000000000);
    } else {
        vstd::arithmetic::div_mod::lemma_mod_multiples_vanish(
            1,
            a + d - 0x10000000000000000,
            0x10000000000000000,
        );
        vstd::arithmetic::div_mod::lemma_small_mod(
            (a + d - 0x10000000000000000) as nat,
            0x10000000000000000,
        );
    }
}

} // verus!
