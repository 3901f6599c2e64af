//! Printable forms of the fixed-width names a PE image carries.
//!
//! A section's name is eight raw bytes; a process list entry's executable
//! name is a NUL-terminated buffer of 260 signed bytes. Both become
//! `String`s here, with the byte-to-character mapping stated.

use vstd::prelude::*;
use vstd::string::StringExecFns;
use vstd::utf8::valid_utf8;

verus! {

/// Relies on String::push: appends exactly the one character.
#[verifier::external_body]
fn push_char(s: &mut String, c: char)
    ensures
        final(s)@ == old(s)@.push(c),
{
    s.push(c);
}

/// Relies on String::from_utf8: succeeds exactly on valid UTF-8, and
/// all-ASCII bytes decode to one identical character per byte.
#[verifier::external_body]
fn string_from_bytes(v: Vec<u8>) -> (r: Option<String>)
    ensures
        r is Some <==> valid_utf8(v@),
        (forall|i: int| 0 <= i < v@.len() ==> v@[i] < 0x80) ==> (r matches Some(s) && s@.len()
            == v@.len() && forall|i: int| 0 <= i < v@.len() ==> s@[i] == v@[i] as char),
{
    match String::from_utf8(v) {
        Ok(s) => Some(s),
        Err(_) => None,
    }
}

/// A section-table name: eight bytes, padded with NULs.
pub struct SectionName {
    pub bytes: [u8; 8],
}

impl SectionName {
    /// Wraps the raw name field of a section header.
    pub fn from(name_array: [u8; 8]) -> (r: SectionName)
        ensures
            r.bytes == name_array,
    {
        SectionName { bytes: name_array }
    }

    /// The name with each byte shown as the character of its code point,
    /// NUL padding included.
    pub fn display_string(&self) -> (r: String)
        ensures
            r@.len() == 8,
            forall|i: int| 0 <= i < 8 ==> r@[i] == self.bytes@[i] as char,
    {
        let mut s = String::new();
        let mut i: usize = 0;
        while i < 8
            invariant
                i <= 8,
                s@.len() == i,
                forall|k: int| 0 <= k < i ==> s@[k] == self.bytes@[k] as char,
            decreases 8 - i,
        {
            let b = self.bytes[i];
            push_char(&mut s, b as char);
            i = i + 1;
        }
        s
    }
}

/// The bytes of `s` from `k` up to, and without, the first NUL.
pub open spec fn prefix_from(s: Seq<i8>, k: int) -> Seq<u8>
    decreases s.len() - k,
{
    if k < 0 || k >= s.len() || s[k] == 0 {
        Seq::empty()
    } else {
        seq![s[k] as u8] + prefix_from(s, k + 1)
    }
}

/// The executable name held in a process entry's fixed buffer: the bytes
/// before the first NUL, decoded as UTF-8, or a fixed note when they are
/// not valid UTF-8.
#[verifier::loop_isolation(false)]
pub fn sz_exe_to_string(arr: [i8; 260]) -> (r: String)
    ensures
        (forall|i: int| 0 <= i < prefix_from(arr@, 0).len() ==> prefix_from(arr@, 0)[i] < 0x80)
            ==> (r@.len() == prefix_from(arr@, 0).len() && forall|i: int|
            0 <= i < prefix_from(arr@, 0).len() ==> r@[i] == prefix_from(arr@, 0)[i] as char),
        !valid_utf8(prefix_from(arr@, 0)) ==> r@ == "Error Getting Process Name"@,
{
    let mut bytes: Vec<u8> = Vec::new();
    let mut i: usize = 0;
    let mut done = false;
    while i < 260 && !done
        invariant
            i <= 260,
            prefix_from(arr@, 0) == bytes@ + prefix_from(arr@, i as int),
            done ==> prefix_from(arr@, i as int) == Seq::<u8>::empty(),
        decreases 260 - i + (if done {
            0int
        } else {
            1int
        }),
    {
        let b = arr[i];
        if b == 0 {
            done = true;
        } else {
            let ghost old_bytes = bytes@;
            bytes.push(b as u8);
            proof {
                assert((old_bytes + seq![b as u8]) + prefix_from(arr@, i + 1) =~= old_bytes + (seq![
                    arr@[i as int] as u8,
                ] + prefix_from(arr@, i + 1)));
            }
            i = i + 1;
        }
    }
    proof {
        assert(bytes@ + prefix_from(arr@, i as int) =~= bytes@);
        assert(bytes@ == prefix_from(arr@, 0));
    }
    match string_from_bytes(bytes) {
        Some(s) => s,
        None => String::from_str("Error Getting Process Name"),
    }
}

} // verus!
