//! The import directory: descriptors, thunk arrays, and IAT slots.
//!
//! Resolution itself — loading the named module and looking the symbol up —
//! happens inside the target through the two loader-support functions. What
//! is verified here is everything around those calls: which descriptors the
//! directory holds, which requests each thunk array makes, and that every
//! returned address lands in exactly its own `FirstThunk` slot. Thunk words
//! are cached before any slot is overwritten, so a thunk array that aliases
//! the slot array cannot corrupt the walk.

use crate::bytes::le32;
use crate::bytes::le64;
use crate::bytes::lemma_le64_over_disjoint_store;
use crate::bytes::lemma_store_le64_frame;
use crate::bytes::lemma_store_le64_read;
use crate::bytes::read_u32;
use crate::bytes::read_u64;
use crate::bytes::write_u64;
use crate::errors::InjectError;
use vstd::prelude::*;

verus! {

/// The flag bit marking an import by ordinal rather than by name.
pub open spec fn thunk_is_ordinal(t: u64) -> bool {
    t >= 0x8000000000000000
}

/// One import descriptor: where the module name lives and where the two
/// thunk arrays start.
#[derive(Clone, Copy, Debug, PartialEq, Eq, Structural)]
pub struct ImportDescriptor {
    pub name_rva: u32,
    pub original_first_thunk: u32,
    pub first_thunk: u32,
}

/// The ghost shape of a descriptor: name, lookup-array, and slot-array
/// offsets.
pub open spec fn descs_view(ds: Seq<ImportDescriptor>) -> Seq<(int, int, int)> {
    Seq::new(
        ds.len(),
        |i: int| (ds[i].name_rva as int, ds[i].original_first_thunk as int, ds[i].first_thunk as int),
    )
}

/// The NUL-terminated byte string at `pos`, without its terminator; `None`
/// when it runs off the buffer.
pub open spec fn cstring_at(s: Seq<u8>, pos: int) -> Option<Seq<u8>>
    decreases s.len() - pos,
{
    if pos < 0 || pos >= s.len() {
        None
    } else if s[pos] == 0 {
        Some(Seq::empty())
    } else {
        match cstring_at(s, pos + 1) {
            Option::None => None,
            Option::Some(t) => Some(seq![s[pos]] + t),
        }
    }
}

/// The zero-terminated array of 64-bit words at `pos`, without its
/// terminator; `None` when it runs off the buffer.
pub open spec fn spec_parse_u64_list(s: Seq<u8>, pos: int) -> Option<Seq<u64>>
    decreases s.len() - pos,
{
    if pos < 0 || pos + 8 > s.len() {
        None
    } else if le64(s, pos) == 0 {
        Some(Seq::empty())
    } else {
        match spec_parse_u64_list(s, pos + 8) {
            Option::None => None,
            Option::Some(t) => Some(seq![le64(s, pos) as u64] + t),
        }
    }
}

/// The import descriptors at `pos`, in file order, until one with a zero
/// module name; `None` when the table runs off the buffer unterminated.
pub open spec fn spec_parse_imports(s: Seq<u8>, pos: int) -> Option<Seq<(int, int, int)>>
    decreases s.len() - pos,
{
    if pos < 0 || pos + 20 > s.len() {
        None
    } else if le32(s, pos + 12) == 0 {
        Some(Seq::empty())
    } else {
        match spec_parse_imports(s, pos + 20) {
            Option::None => None,
            Option::Some(rest) => Some(
                seq![(le32(s, pos + 12), le32(s, pos), le32(s, pos + 16))] + rest,
            ),
        }
    }
}

/// An import request read from one thunk word: a bare ordinal, or the
/// offset of a hint-and-name record whose name is looked up.
#[derive(Clone, Copy, Debug, PartialEq, Eq, Structural)]
pub enum ThunkKind {
    Ordinal { number: u16 },
    ByName { rva: u64 },
}

/// Splits a thunk word: the high flag bit marks an import by ordinal held
/// in the low sixteen bits; otherwise the word is the offset of the name
/// record.
pub fn interpret_thunk(t: u64) -> (r: ThunkKind)
    ensures
        thunk_is_ordinal(t) ==> r == (ThunkKind::Ordinal { number: (t % 0x10000) as u16 }),
        !thunk_is_ordinal(t) ==> r == (ThunkKind::ByName { rva: t }),
{
    if t >= 0x8000000000000000 {
        ThunkKind::Ordinal { number: (t % 0x10000) as u16 }
    } else {
        ThunkKind::ByName { rva: t }
    }
}

/// Reads the NUL-terminated byte string at `pos` — a module or symbol name.
#[verifier::loop_isolation(false)]
pub fn read_cstring(img: &Vec<u8>, pos: u64) -> (r: Result<Vec<u8>, InjectError>)
    ensures
        r is Ok <==> cstring_at(img@, pos as int) is Some,
        r matches Ok(name) ==> Some(name@) == cstring_at(img@, pos as int),
        r matches Err(e) ==> e == InjectError::InvalidPE,
{
    let ghost start = pos as int;
    if pos >= img.len() as u64 {
        return Err(InjectError::InvalidPE);
    }
    let mut name: Vec<u8> = Vec::new();
    let mut at: usize = pos as usize;
    let mut done = false;
    while !done
        invariant
            at <= img.len(),
            (cstring_at(img@, start) is Some <==> cstring_at(img@, at as int) is Some),
            cstring_at(img@, start) is Some ==> cstring_at(img@, start) == Some(
                name@ + cstring_at(img@, at as int).unwrap(),
            ),
            done ==> cstring_at(img@, start) is Some && Some(name@) == cstring_at(img@, start),
        decreases img@.len() - at + (if done {
            0int
        } else {
            1int
        }),
    {
        if at >= img.len() {
            return Err(InjectError::InvalidPE);
        }
        let b = img[at];
        if b == 0 {
            proof {
                assert(name@ + Seq::<u8>::empty() =~= name@);
            }
            done = true;
        } else {
            let ghost old_name = name@;
            name.push(b);
            proof {
                if cstring_at(img@, start) is Some {
                    assert((old_name + seq![b]) + cstring_at(img@, at + 1).unwrap() =~= old_name + (
                    seq![b] + cstring_at(img@, at + 1).unwrap()));
                }
            }
            at = at + 1;
        }
    }
    Ok(name)
}

/// Reads the zero-terminated 64-bit word array at `pos` — a thunk array or
/// a TLS callback array — caching every word before any slot is rewritten.
#[verifier::loop_isolation(false)]
pub fn read_u64_list(img: &Vec<u8>, pos: u64) -> (r: Result<Vec<u64>, InjectError>)
    ensures
        r is Ok <==> spec_parse_u64_list(img@, pos as int) is Some,
        r matches Ok(words) ==> Some(words@) == spec_parse_u64_list(img@, pos as int),
        r matches Err(e) ==> e == InjectError::InvalidPE,
{
    let ghost start = pos as int;
    if img.len() < 8 || pos > (img.len() - 8) as u64 {
        return Err(InjectError::InvalidPE);
    }
    let mut words: Vec<u64> = Vec::new();
    let mut at: usize = pos as usize;
    let mut done = false;
    while !done
        invariant
            at <= img.len(),
            (spec_parse_u64_list(img@, start) is Some <==> spec_parse_u64_list(img@, at as int)
                is Some),
            spec_parse_u64_list(img@, start) is Some ==> spec_parse_u64_list(img@, start) == Some(
                words@ + spec_parse_u64_list(img@, at as int).unwrap(),
            ),
            done ==> spec_parse_u64_list(img@, start) is Some && Some(words@)
                == spec_parse_u64_list(img@, start),
        decreases img@.len() - at + (if done {
            0int
        } else {
            1int
        }),
    {
        if img.len() < 8 || at > img.len() - 8 {
            return Err(InjectError::InvalidPE);
        }
        let w = read_u64(img, at);
        if w == 0 {
            proof {
                assert(words@ + Seq::<u64>::empty() =~= words@);
            }
            done = true;
        } else {
            let ghost old_words = words@;
            words.push(w);
            proof {
                if spec_parse_u64_list(img@, start) is Some {
                    assert((old_words + seq![w]) + spec_parse_u64_list(img@, at + 8).unwrap()
                        =~= old_words + (seq![w] + spec_parse_u64_list(img@, at + 8).unwrap()));
                }
            }
            at = at + 8;
        }
    }
    Ok(words)
}

/// Walks the import directory of the mapped image at `import_va`.
///
/// Succeeds exactly when a zero-named terminating descriptor is found
/// inside the image, handing back every descriptor before it in order.
#[verifier::loop_isolation(false)]
pub fn parse_imports(img: &Vec<u8>, import_va: u32) -> (r: Result<
    Vec<ImportDescriptor>,
    InjectError,
>)
    ensures
        r is Ok <==> spec_parse_imports(img@, import_va as int) is Some,
        r matches Ok(ds) ==> Some(descs_view(ds@)) == spec_parse_imports(img@, import_va as int),
        r matches Err(e) ==> e == InjectError::InvalidPE,
{
    let ghost start = import_va as int;
    let mut ds: Vec<ImportDescriptor> = Vec::new();
    let mut at: usize = import_va as usize;
    let mut done = false;
    while !done
        invariant
            at <= img.len() || at == import_va as usize,
            (spec_parse_imports(img@, start) is Some <==> spec_parse_imports(img@, at as int)
                is Some),
            spec_parse_imports(img@, start) is Some ==> spec_parse_imports(img@, start) == Some(
                descs_view(ds@) + spec_parse_imports(img@, at as int).unwrap(),
            ),
            done ==> spec_parse_imports(img@, start) is Some && Some(descs_view(ds@))
                == spec_parse_imports(img@, start),
        decreases img@.len() - at + (if done {
            0int
        } else {
            1int
        }),
    {
        if img.len() < 20 || at > img.len() - 20 {
            return Err(InjectError::InvalidPE);
        }
        let name_rva = read_u32(img, at + 12);
        if name_rva == 0 {
            proof {
                assert(descs_view(ds@) + Seq::<(int, int, int)>::empty() =~= descs_view(ds@));
            }
            done = true;
        } else {
            let original_first_thunk = read_u32(img, at);
            let first_thunk = read_u32(img, at + 16);
            let ghost old_ds = ds@;
            ds.push(ImportDescriptor { name_rva, original_first_thunk, first_thunk });
            proof {
                assert(descs_view(ds@) =~= descs_view(old_ds) + seq![
                    (name_rva as int, original_first_thunk as int, first_thunk as int),
                ]);
                if spec_parse_imports(img@, start) is Some {
                    assert((descs_view(old_ds) + seq![
                        (name_rva as int, original_first_thunk as int, first_thunk as int),
                    ]) + spec_parse_imports(img@, at + 20).unwrap() =~= descs_view(old_ds) + (seq![
                        (name_rva as int, original_first_thunk as int, first_thunk as int),
                    ] + spec_parse_imports(img@, at + 20).unwrap()));
                }
            }
            at = at + 20;
        }
    }
    Ok(ds)
}

/// The thunk array to read requests from: the lookup array when the
/// descriptor has one, else the slot array itself — whose words must then
/// be cached before any slot is rewritten.
pub fn lookup_array(d: &ImportDescriptor) -> (r: u32)
    ensures
        r == if d.original_first_thunk != 0 {
            d.original_first_thunk
        } else {
            d.first_thunk
        },
{
    if d.original_first_thunk != 0 {
        d.original_first_thunk
    } else {
        d.first_thunk
    }
}

/// Writes each resolved address into its own slot of the `FirstThunk`
/// array, touching nothing else: slot `k` receives exactly `addrs[k]`.
#[verifier::loop_isolation(false)]
pub fn apply_import_resolutions(img: &mut Vec<u8>, first_thunk: u32, addrs: &Vec<u64>)
    requires
        first_thunk as int + 8 * addrs@.len() <= old(img).len(),
    ensures
        final(img)@.len() == old(img)@.len(),
        forall|k: int|
            0 <= k < addrs@.len() ==> le64(final(img)@, first_thunk + 8 * k) == addrs@[k],
        forall|p: int|
            0 <= p < old(img)@.len() && !(first_thunk <= p < first_thunk + 8 * addrs@.len())
                ==> final(img)@[p] == old(img)@[p],
{
    let n = addrs.len();
    let mut j: usize = 0;
    while j < n
        invariant
            j <= n,
            img@.len() == old(img)@.len(),
            forall|k: int| 0 <= k < j ==> le64(img@, first_thunk + 8 * k) == addrs@[k],
            forall|p: int|
                0 <= p < old(img)@.len() && !(first_thunk <= p < first_thunk + 8 * j) ==> img@[p]
                    == old(img)@[p],
        decreases n - j,
    {
        let slot = first_thunk as usize + 8 * j;
        let a = addrs[j];
        let ghost before = img@;
        write_u64(img, slot, a);
        proof {
            lemma_store_le64_read(before, slot as int, a);
            lemma_store_le64_frame(before, slot as int, a);
            assert forall|k: int| 0 <= k < j + 1 implies le64(img@, first_thunk + 8 * k)
                == addrs@[k] by {
                if k < j {
                    lemma_le64_over_disjoint_store(before, slot as int, a, first_thunk + 8 * k);
                }
            }
        }
        j = j + 1;
    }
}

} // verus!
