//! Placing a call: which entry of the dialing directory is meant, which
//! address is dialed, how the time of a call is shown, and which characters
//! can go on the line.

use vstd::prelude::*;
use vstd::string::*;

verus! {

/// The port that is dialed where an address names none, with the colon
/// that parts it from the host.
pub open spec fn default_port() -> Seq<char> {
    ":23"@
}

/// The address that is dialed for `address`: the address itself where it
/// names a port, which is where it holds a colon, and else the address with
/// the default port.
pub open spec fn dialed(address: Seq<char>) -> Seq<char> {
    if address.contains(':') {
        address
    } else {
        address + default_port()
    }
}

/// Whether `address` holds a colon.
pub fn names_port(address: &str) -> (r: bool)
    ensures
        r == address@.contains(':'),
{
    let n = address.unicode_len();
    let mut i: usize = 0;
    while i < n
        invariant
            i <= n,
            n == address@.len(),
            forall|j: int| 0 <= j < i ==> address@[j] != ':',
        decreases n - i,
    {
        if address.get_char(i) == ':' {
            return true;
        }
        i = i + 1;
    }
    false
}

/// The address that is dialed for `address`.
pub fn with_default_port(address: &str) -> (r: String)
    ensures
        r@ == dialed(address@),
{
    let mut adr = String::from_str(address);
    if !names_port(address) {
        adr.append(":23");
    }
    adr
}

/// The entry that a call by identifier means: without an identifier the
/// first entry, which is the quick-connect entry; with one, the first entry
/// that has it, and none if no entry has it.
pub open spec fn entry_called(ids: Seq<usize>, id: Option<usize>) -> Option<int> {
    match id {
        None => Some(0),
        Some(wanted) => ids.index_of_first(wanted),
    }
}

/// Finds the entry that a call by identifier means among the identifiers
/// of the entries.
pub fn find_entry(ids: &[usize], id: Option<usize>) -> (r: Option<usize>)
    ensures
        match r {
            Some(i) => entry_called(ids@, id) == Some(i as int),
            None => entry_called(ids@, id) is None,
        },
        r matches Some(i) ==> id matches Some(wanted) ==> i < ids@.len() && ids@[i as int]
            == wanted && forall|j: int| 0 <= j < i ==> ids@[j] != wanted,
{
    match id {
        None => Some(0),
        Some(wanted) => {
            let mut i: usize = 0;
            while i < ids.len()
                invariant
                    i <= ids.len(),
                    id == Some(wanted),
                    forall|j: int| 0 <= j < i ==> ids@[j] != wanted,
                decreases ids.len() - i,
            {
                if ids[i] == wanted {
                    proof {
                        assert(ids@.contains(wanted));
                        ids@.index_of_first_ensures(wanted);
                    }
                    return Some(i);
                }
                i = i + 1;
            }
            proof {
                ids@.index_of_first_ensures(wanted);
                if ids@.contains(wanted) {
                    let k = choose|k: int| 0 <= k < ids@.len() && ids@[k] == wanted;
                    assert(ids@[k] != wanted);
                }
            }
            None
        },
    }
}

/// The byte that stands for a character on the line and on the screen, for
/// the characters that have one: those up to code 255.
pub open spec fn byte_of(ch: char) -> Option<u8> {
    if ch as u32 <= 255 {
        Some(ch as u8)
    } else {
        None
    }
}

/// Finds the byte that stands for a character.
pub fn to_byte(ch: char) -> (r: Option<u8>)
    ensures
        r == byte_of(ch),
{
    if ch as u32 <= 255 {
        Some(ch as u8)
    } else {
        None
    }
}

/// A length of time in hours, minutes below sixty, and seconds below sixty.
pub open spec fn clock_of(seconds: u64) -> (u64, u64, u64) {
    ((seconds / 3600) as u64, (seconds / 60 % 60) as u64, (seconds % 60) as u64)
}

/// Splits a number of seconds into hours, minutes and seconds.
pub fn clock(seconds: u64) -> (r: (u64, u64, u64))
    ensures
        r == clock_of(seconds),
        r.0 * 3600 + r.1 * 60 + r.2 == seconds,
        r.1 < 60,
        r.2 < 60,
{
    let minutes = seconds / 60;
    let hours = minutes / 60;
    (hours, minutes % 60, seconds % 60)
}

} // verus!
