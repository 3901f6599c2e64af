//! The TLS directory: the callbacks the loader must invoke on attach.
//!
//! The directory stores the callback array's absolute address as linked,
//! based on the preferred image base. The array itself holds one pointer per
//! callback and ends at the first null pointer: the terminator is the
//! dereferenced word, so every step reads a word before testing it.

use crate::bytes::le64;
use crate::bytes::read_u64;
use crate::errors::InjectError;
use crate::imports::read_u64_list;
use crate::imports::spec_parse_u64_list;
use vstd::prelude::*;

verus! {

/// The callback addresses of the TLS directory at `tls_va`, in array order,
/// as linked against the preferred base. `None` when the directory or the
/// array runs off the image, or the array's address lies below the base.
pub open spec fn spec_tls_callbacks(s: Seq<u8>, tls_va: int, base: int) -> Option<Seq<u64>> {
    if tls_va < 0 || tls_va + 32 > s.len() {
        None
    } else {
        let cb = le64(s, tls_va + 24);
        if cb == 0 {
            Some(Seq::empty())
        } else if cb < base {
            None
        } else {
            spec_parse_u64_list(s, cb - base)
        }
    }
}

/// Reads the TLS callback array of the mapped image.
///
/// A zero array address means no callbacks. Otherwise the address is
/// converted to an image offset against the preferred base and the array is
/// read up to, and without, its null terminator.
pub fn tls_callbacks(img: &Vec<u8>, tls_va: u32, image_base: u64) -> (r: Result<
    Vec<u64>,
    InjectError,
>)
    ensures
        r is Ok <==> spec_tls_callbacks(img@, tls_va as int, image_base as int) is Some,
        r matches Ok(cbs) ==> Some(cbs@) == spec_tls_callbacks(
            img@,
            tls_va as int,
            image_base as int,
        ),
        r matches Err(e) ==> e == InjectError::InvalidPE,
{
    if img.len() < 32 || tls_va as usize > img.len() - 32 {
        return Err(InjectError::InvalidPE);
    }
    let cb = read_u64(img, tls_va as usize + 24);
    if cb == 0 {
        let empty: Vec<u64> = Vec::new();
        proof {
            assert(empty@ =~= Seq::<u64>::empty());
        }
        return Ok(empty);
    }
    if cb < image_base {
        return Err(InjectError::InvalidPE);
    }
    read_u64_list(img, cb - image_base)
}

} // verus!
