//! The batch header: the block that announces a file by name and size.
//!
//! Its payload holds the file name, a zero byte, the size in decimal digits,
//! a zero byte, and zero bytes up to the payload length. A payload that
//! begins with a zero byte names no file and ends the batch.

use super::frame::append;
use vstd::prelude::*;

verus! {

/// The payload length of a header block.
pub const HEADER_LENGTH: usize = 128;

/// Whether `b` is an ASCII decimal digit.
pub open spec fn is_digit(b: u8) -> bool {
    0x30 <= b && b <= 0x39
}

/// Whether `s` consists of decimal digits.
pub open spec fn all_digits(s: Seq<u8>) -> bool {
    forall|i: int| 0 <= i < s.len() ==> is_digit(#[trigger] s[i])
}

/// The decimal digits of `n`, most significant first, without leading zeros.
pub open spec fn decimal_digits(n: nat) -> Seq<u8>
    decreases n,
{
    if n < 10 {
        seq![(0x30 + n) as u8]
    } else {
        decimal_digits(n / 10).push((0x30 + n % 10) as u8)
    }
}

/// The number that a run of decimal digits denotes.
pub open spec fn decimal_value(s: Seq<u8>) -> nat
    decreases s.len(),
{
    if s.len() == 0 {
        0
    } else {
        10 * decimal_value(s.drop_last()) + (s.last() - 0x30) as nat
    }
}

/// What a run of digits reads as: the number it denotes if it is not empty,
/// holds digits only and the number fits, and nothing otherwise.
pub open spec fn parsed_digits(s: Seq<u8>) -> Option<usize> {
    if s.len() > 0 && all_digits(s) && decimal_value(s) <= usize::MAX {
        Some(decimal_value(s) as usize)
    } else {
        None
    }
}

/// The plus sign that may stand before the digits of a size field.
pub const PLUS: u8 = 0x2B;

/// What a size field reads as: what its digits read as, where one plus sign
/// may stand before the digits.
pub open spec fn parsed_decimal(s: Seq<u8>) -> Option<usize> {
    if s.len() > 0 && s[0] == PLUS {
        parsed_digits(s.skip(1))
    } else {
        parsed_digits(s)
    }
}

/// The digits of a number denote that number.
pub proof fn lemma_decimal_round_trip(n: nat)
    ensures
        decimal_digits(n).len() > 0,
        all_digits(decimal_digits(n)),
        decimal_value(decimal_digits(n)) == n,
    decreases n,
{
    if n < 10 {
        let s = decimal_digits(n);
        assert(s.drop_last() =~= Seq::<u8>::empty());
        assert(decimal_value(s.drop_last()) == 0);
    } else {
        lemma_decimal_round_trip(n / 10);
        let s = decimal_digits(n);
        assert(s.drop_last() =~= decimal_digits(n / 10));
    }
}

/// A number below `10^k` has at most `k` digits; in particular a 64-bit
/// number has at most twenty.
pub proof fn lemma_decimal_length(n: nat)
    requires
        n <= u64::MAX,
    ensures
        decimal_digits(n).len() <= 20,
{
    reveal_with_fuel(decimal_digits, 21);
}

/// A longer run of digits denotes no smaller number than its beginning.
proof fn lemma_decimal_prefix(s: Seq<u8>, i: int)
    requires
        all_digits(s),
        0 <= i <= s.len(),
    ensures
        decimal_value(s.take(i)) <= decimal_value(s),
    decreases s.len() - i,
{
    if i < s.len() {
        lemma_decimal_prefix(s, i + 1);
        assert(s.take(i + 1).drop_last() =~= s.take(i));
        assert(is_digit(s[i]));
    } else {
        assert(s.take(i) =~= s);
    }
}

/// Reads a size field.
pub fn parse_decimal(bytes: &[u8]) -> (r: Option<usize>)
    ensures
        r == parsed_decimal(bytes@),
{
    if bytes.len() > 0 && bytes[0] == PLUS {
        proof {
            assert(bytes@.subrange(1, bytes@.len() as int) =~= bytes@.skip(1));
        }
        parse_digits(vstd::slice::slice_subrange(bytes, 1, bytes.len()))
    } else {
        parse_digits(bytes)
    }
}

/// Reads a run of digits.
pub fn parse_digits(bytes: &[u8]) -> (r: Option<usize>)
    ensures
        r == parsed_digits(bytes@),
{
    if bytes.len() == 0 {
        return None;
    }
    let mut acc: usize = 0;
    let mut i: usize = 0;
    while i < bytes.len()
        invariant
            i <= bytes.len(),
            all_digits(bytes@.take(i as int)),
            acc == decimal_value(bytes@.take(i as int)),
        decreases bytes.len() - i,
    {
        let b = bytes[i];
        if b < 0x30 || b > 0x39 {
            proof {
                assert(!is_digit(bytes@[i as int]));
            }
            return None;
        }
        let d: usize = (b - 0x30) as usize;
        proof {
            assert(bytes@.take(i + 1).drop_last() =~= bytes@.take(i as int));
            assert forall|j: int| 0 <= j < i + 1 implies is_digit(
                #[trigger] bytes@.take(i + 1)[j],
            ) by {
                if j < i {
                    assert(bytes@.take(i as int)[j] == bytes@[j]);
                }
            }
        }
        if acc > (usize::MAX - d) / 10 {
            proof {
                assert(decimal_value(bytes@.take(i + 1)) > usize::MAX);
                if all_digits(bytes@) {
                    lemma_decimal_prefix(bytes@, i + 1);
                }
            }
            return None;
        }
        acc = acc * 10 + d;
        i = i + 1;
    }
    proof {
        assert(bytes@.take(i as int) =~= bytes@);
    }
    Some(acc)
}

/// Appends the decimal digits of `n` to `out`.
pub fn push_decimal(out: &mut Vec<u8>, n: usize)
    ensures
        final(out)@ == old(out)@ + decimal_digits(n as nat),
    decreases n,
{
    if n >= 10 {
        push_decimal(out, n / 10);
    }
    out.push(0x30 + (n % 10) as u8);
    proof {
        assert(out@ =~= old(out)@ + decimal_digits(n as nat));
    }
}

/// `n` zero bytes.
pub open spec fn zeros(n: nat) -> Seq<u8> {
    Seq::new(n, |i: int| 0u8)
}

/// The index of the first zero byte of `s`, or the length of `s` if it has
/// none.
pub open spec fn nul_index(s: Seq<u8>) -> int
    decreases s.len(),
{
    if s.len() == 0 || s[0] == 0 {
        0
    } else {
        1 + nul_index(s.skip(1))
    }
}

/// The zero-terminated text at the start of `s`: the bytes before the first
/// zero byte, or nothing if `s` has no zero byte.
pub open spec fn c_string(s: Seq<u8>) -> Seq<u8> {
    if nul_index(s) < s.len() {
        s.take(nul_index(s))
    } else {
        seq![]
    }
}

/// The file name in a header payload, as bytes.
pub open spec fn header_name(payload: Seq<u8>) -> Seq<u8> {
    c_string(payload)
}

/// The size in a header payload: what the zero-terminated text after the
/// name's terminator reads as, and zero if it does not read as a number.
pub open spec fn header_size(payload: Seq<u8>) -> usize {
    let after = header_name(payload).len() as int + 1;
    if after <= payload.len() {
        match parsed_decimal(c_string(payload.skip(after))) {
            Some(n) => n,
            None => 0,
        }
    } else {
        0
    }
}

/// Whether a name and a size fit into a header payload: the name is not
/// empty, holds no zero byte, and leaves room for the digits of the size and
/// the two terminators.
pub open spec fn header_fits(name: Seq<u8>, size: usize) -> bool {
    &&& name.len() > 0
    &&& forall|i: int| 0 <= i < name.len() ==> #[trigger] name[i] != 0
    &&& name.len() + decimal_digits(size as nat).len() + 2 <= HEADER_LENGTH
}

/// The header payload for a file.
pub open spec fn header_payload(name: Seq<u8>, size: usize) -> Seq<u8> {
    let text = name + seq![0u8] + decimal_digits(size as nat) + seq![0u8];
    text + zeros((HEADER_LENGTH - text.len()) as nat)
}

/// The header payload that ends a batch.
pub open spec fn end_of_batch() -> Seq<u8> {
    zeros(HEADER_LENGTH as nat)
}

pub proof fn lemma_nul_index_bounds(s: Seq<u8>)
    ensures
        0 <= nul_index(s) <= s.len(),
        nul_index(s) < s.len() ==> s[nul_index(s)] == 0,
        forall|i: int| 0 <= i < nul_index(s) ==> #[trigger] s[i] != 0,
    decreases s.len(),
{
    if s.len() == 0 || s[0] == 0 {
    } else {
        lemma_nul_index_bounds(s.skip(1));
        assert forall|i: int| 0 <= i < nul_index(s) implies #[trigger] s[i] != 0 by {
            if i > 0 {
                assert(s.skip(1)[i - 1] == s[i]);
            }
        }
    }
}

/// The first zero byte is where the first zero byte is.
pub proof fn lemma_nul_index_is(s: Seq<u8>, k: int)
    requires
        0 <= k < s.len(),
        s[k] == 0,
        forall|i: int| 0 <= i < k ==> #[trigger] s[i] != 0,
    ensures
        nul_index(s) == k,
{
    lemma_nul_index_bounds(s);
    let n = nul_index(s);
    if n < k {
        assert(s[n] != 0);
    } else if n > k {
        assert(s[k] != 0);
    }
}

/// A header that is built from a name and a size reads as that name and
/// that size.
pub proof fn lemma_header_round_trip(name: Seq<u8>, size: usize)
    requires
        header_fits(name, size),
    ensures
        header_payload(name, size).len() == HEADER_LENGTH,
        header_payload(name, size)[0] != 0,
        header_name(header_payload(name, size)) == name,
        header_size(header_payload(name, size)) == size,
{
    let digits = decimal_digits(size as nat);
    lemma_decimal_round_trip(size as nat);
    let text = name + seq![0u8] + digits + seq![0u8];
    let p = header_payload(name, size);
    assert(p[0] == name[0]);
    assert forall|i: int| 0 <= i < name.len() implies #[trigger] p[i] != 0 by {
        assert(p[i] == name[i]);
    }
    assert(p[name.len() as int] == 0);
    lemma_nul_index_is(p, name.len() as int);
    assert(p.take(name.len() as int) =~= name);
    let rest = p.skip(name.len() as int + 1);
    assert forall|i: int| 0 <= i < digits.len() implies #[trigger] rest[i] != 0 by {
        assert(rest[i] == digits[i]);
        assert(is_digit(digits[i]));
    }
    assert(rest[digits.len() as int] == 0);
    lemma_nul_index_is(rest, digits.len() as int);
    assert(rest.take(digits.len() as int) =~= digits);
}

/// The header that ends a batch begins with a zero byte.
pub proof fn lemma_end_of_batch()
    ensures
        end_of_batch().len() == HEADER_LENGTH,
        end_of_batch()[0] == 0,
{
}

/// Finds the first zero byte of `s`.
pub fn find_nul(s: &[u8]) -> (r: usize)
    ensures
        r == nul_index(s@),
        r <= s@.len(),
{
    let mut i: usize = 0;
    proof {
        assert(s@.skip(0) =~= s@);
    }
    while i < s.len() && s[i] != 0
        invariant
            i <= s.len(),
            nul_index(s@) == i + nul_index(s@.skip(i as int)),
        decreases s.len() - i,
    {
        proof {
            assert(s@.skip(i as int)[0] == s@[i as int]);
            assert(s@.skip(i as int).skip(1) =~= s@.skip(i + 1));
        }
        i = i + 1;
    }
    proof {
        if i < s.len() {
            assert(s@.skip(i as int)[0] == s@[i as int]);
        }
        lemma_nul_index_bounds(s@);
    }
    i
}

/// The zero-terminated text at the start of `s`.
pub fn read_c_string(s: &[u8]) -> (r: &[u8])
    ensures
        r@ == c_string(s@),
{
    let n = find_nul(s);
    if n < s.len() {
        proof {
            assert(s@.subrange(0, n as int) =~= s@.take(n as int));
        }
        vstd::slice::slice_subrange(s, 0, n)
    } else {
        proof {
            assert(s@.subrange(0, 0) =~= Seq::<u8>::empty());
        }
        vstd::slice::slice_subrange(s, 0, 0)
    }
}

/// Reads name and size out of a header payload.
pub fn parse_header(payload: &[u8]) -> (r: (Vec<u8>, usize))
    ensures
        r.0@ == header_name(payload@),
        r.1 == header_size(payload@),
{
    let name = read_c_string(payload);
    let mut name_bytes: Vec<u8> = Vec::new();
    append(&mut name_bytes, name);
    let size = if name.len() < payload.len() {
        let after = name.len() + 1;
        let rest = vstd::slice::slice_subrange(payload, after, payload.len());
        proof {
            assert(payload@.subrange(after as int, payload@.len() as int) =~= payload@.skip(
                after as int,
            ));
        }
        match parse_decimal(read_c_string(rest)) {
            Some(n) => n,
            None => 0,
        }
    } else {
        0
    };
    (name_bytes, size)
}

/// Builds the header payload for a file, if name and size fit into one.
pub fn build_header(name: &[u8], size: usize) -> (r: Option<Vec<u8>>)
    ensures
        r is Some <==> header_fits(name@, size),
        r matches Some(p) ==> p@ == header_payload(name@, size),
{
    if name.len() == 0 || name.len() > HEADER_LENGTH {
        proof {
            lemma_decimal_round_trip(size as nat);
        }
        return None;
    }
    let mut i: usize = 0;
    while i < name.len()
        invariant
            i <= name.len(),
            forall|j: int| 0 <= j < i ==> #[trigger] name@[j] != 0,
        decreases name.len() - i,
    {
        if name[i] == 0 {
            return None;
        }
        i = i + 1;
    }
    let mut out: Vec<u8> = Vec::new();
    append(&mut out, name);
    out.push(0);
    push_decimal(&mut out, size);
    out.push(0);
    proof {
        lemma_decimal_length(size as nat);
        assert(out@ =~= name@ + seq![0u8] + decimal_digits(size as nat) + seq![0u8]);
    }
    if out.len() > HEADER_LENGTH {
        return None;
    }
    let ghost text = out@;
    while out.len() < HEADER_LENGTH
        invariant
            text.len() <= out@.len() <= HEADER_LENGTH,
            out@ == text + zeros((out@.len() - text.len()) as nat),
        decreases HEADER_LENGTH - out.len(),
    {
        let ghost before = out@;
        out.push(0);
        proof {
            assert(out@ =~= text + zeros((out@.len() - text.len()) as nat));
        }
    }
    Some(out)
}

/// Builds the header payload that ends a batch.
pub fn build_end_of_batch() -> (r: Vec<u8>)
    ensures
        r@ == end_of_batch(),
{
    let mut out: Vec<u8> = Vec::new();
    while out.len() < HEADER_LENGTH
        invariant
            out@.len() <= HEADER_LENGTH,
            out@ == zeros(out@.len()),
        decreases HEADER_LENGTH - out.len(),
    {
        out.push(0);
        proof {
            assert(out@ =~= zeros(out@.len()));
        }
    }
    out
}

} // verus!
