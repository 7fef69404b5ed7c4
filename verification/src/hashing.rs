//! Non-cryptographic hashing and numeral rendering.
//!
//! The license checksum and the hardware fingerprint both rest on the
//! 64-bit FNV-1a hash, computed here over characters and proved against
//! its recursive specification, together with fixed-width hexadecimal
//! and decimal renderings of machine integers.

use vstd::prelude::*;

verus! {

/// FNV-1a 64-bit offset basis.
pub const FNV_OFFSET: u64 = 0xcbf29ce484222325;

/// FNV-1a 64-bit prime.
pub const FNV_PRIME: u64 = 0x100000001b3;

/// One FNV-1a round: fold a character into the running hash.
pub open spec fn fnv1a_step(h: u64, c: char) -> u64 {
    (h ^ (c as u64)).wrapping_mul(FNV_PRIME)
}

/// FNV-1a over a character sequence, starting from the state `h`.
pub open spec fn fnv1a_from(h: u64, s: Seq<char>) -> u64
    decreases s.len(),
{
    if s.len() == 0 {
        h
    } else {
        fnv1a_step(fnv1a_from(h, s.drop_last()), s.last())
    }
}

/// FNV-1a over a character sequence from the offset basis.
pub open spec fn fnv1a(s: Seq<char>) -> u64 {
    fnv1a_from(FNV_OFFSET, s)
}

/// FNV-1a over several strings in order, as one continued digest.
pub open spec fn fnv1a_all(signals: Seq<Seq<char>>) -> u64
    decreases signals.len(),
{
    if signals.len() == 0 {
        FNV_OFFSET
    } else {
        fnv1a_from(fnv1a_all(signals.drop_last()), signals.last())
    }
}

/// The digit character for a value below 16, upper or lower case.
pub open spec fn digit_char(d: u64, upper: bool) -> char
    recommends
        d < 16,
{
    if d < 10 {
        ((48 + d) as u8) as char
    } else if upper {
        ((55 + d) as u8) as char
    } else {
        ((87 + d) as u8) as char
    }
}

/// `n` rendered in hexadecimal, exactly `width` digits, most significant
/// first, padded with leading zeros and truncated to the low nibbles.
pub open spec fn hex_str(n: u64, width: nat, upper: bool) -> Seq<char>
    decreases width,
{
    if width == 0 {
        Seq::empty()
    } else {
        hex_str((n / 16) as u64, (width - 1) as nat, upper).push(digit_char(n % 16, upper))
    }
}

/// `n` rendered in decimal, most significant digit first, no leading zeros.
pub open spec fn dec_str(n: u64) -> Seq<char>
    decreases n,
{
    if n < 10 {
        seq![digit_char(n, true)]
    } else {
        dec_str((n / 10) as u64).push(digit_char(n % 10, true))
    }
}

/// `String::push` appends one character; the standard library documents
/// exactly this and vstd gives it no specification of its own.
pub assume_specification[ String::push ](s: &mut String, c: char)
    ensures
        final(s)@ == old(s)@.push(c),
;

/// The digit character for a value below 16.
pub fn digit_char_exec(d: u64, upper: bool) -> (c: char)
    requires
        d < 16,
    ensures
        c == digit_char(d, upper),
{
    let b: u8 = if d < 10 {
        48 + d as u8
    } else if upper {
        55 + d as u8
    } else {
        87 + d as u8
    };
    b as char
}

/// Render `n` in hexadecimal with exactly `width` digits.
pub fn hex_render(n: u64, width: usize, upper: bool) -> (r: String)
    ensures
        r@ == hex_str(n, width as nat, upper),
    decreases width,
{
    if width == 0 {
        String::new()
    } else {
        let mut r = hex_render(n / 16, width - 1, upper);
        r.push(digit_char_exec(n % 16, upper));
        r
    }
}

/// Render `n` in decimal.
pub fn dec_render(n: u64) -> (r: String)
    ensures
        r@ == dec_str(n),
    decreases n,
{
    if n < 10 {
        let mut r = String::new();
        r.push(digit_char_exec(n, true));
        proof {
            assert(r@ =~= dec_str(n));
        }
        r
    } else {
        let mut r = dec_render(n / 10);
        r.push(digit_char_exec(n % 10, true));
        r
    }
}

/// Folding one more character into an FNV-1a prefix digest is one round.
proof fn lemma_fnv1a_from_take(h: u64, s: Seq<char>, i: int)
    requires
        0 <= i < s.len(),
    ensures
        fnv1a_from(h, s.take(i + 1)) == fnv1a_step(fnv1a_from(h, s.take(i)), s[i]),
{
    assert(s.take(i + 1).drop_last() =~= s.take(i));
    assert(s.take(i + 1).last() == s[i]);
}

/// A fixed-width hexadecimal rendering has exactly `width` characters.
pub proof fn lemma_hex_str_len(n: u64, width: nat, upper: bool)
    ensures
        hex_str(n, width, upper).len() == width,
    decreases width,
{
    if width > 0 {
        lemma_hex_str_len((n / 16) as u64, (width - 1) as nat, upper);
    }
}

/// Continue an FNV-1a digest over the first `upto` characters of `s`.
pub fn fnv1a_str_take(h0: u64, s: &str, upto: usize) -> (h: u64)
    requires
        upto <= s@.len(),
    ensures
        h == fnv1a_from(h0, s@.take(upto as int)),
{
    let mut h = h0;
    let mut i: usize = 0;
    while i < upto
        invariant
            upto <= s@.len(),
            0 <= i <= upto,
            h == fnv1a_from(h0, s@.take(i as int)),
        decreases upto - i,
    {
        let c = s.get_char(i);
        proof {
            lemma_fnv1a_from_take(h0, s@, i as int);
        }
        h = (h ^ (c as u64)).wrapping_mul(FNV_PRIME);
        i = i + 1;
    }
    h
}

/// Continue an FNV-1a digest over all the characters of `s`, from state `h0`.
pub fn fnv1a_str_from(h0: u64, s: &str) -> (h: u64)
    ensures
        h == fnv1a_from(h0, s@),
{
    let n = s.unicode_len();
    let h = fnv1a_str_take(h0, s, n);
    proof {
        assert(s@.take(n as int) =~= s@);
    }
    h
}

/// FNV-1a digest of the characters of `s`.
pub fn fnv1a_str(s: &str) -> (h: u64)
    ensures
        h == fnv1a(s@),
{
    fnv1a_str_from(FNV_OFFSET, s)
}

} // verus!
