//! Byte strings: literals, comparison, and numbers written in decimal and
//! hexadecimal.
use vstd::prelude::*;
use vstd::string::StringSliceAdditionalSpecFns;

verus! {

/// The bytes of a string literal.
pub open spec fn lit(s: &str) -> Seq<u8> {
    s.spec_bytes()
}

/// The decimal digits of `n`, most significant first, without leading zeros.
pub open spec fn dec_digits(n: nat) -> Seq<u8>
    decreases n,
{
    if n < 10 {
        seq![(48 + n) as u8]
    } else {
        dec_digits(n / 10).push((48 + n % 10) as u8)
    }
}

/// The decimal form of an integer, with a minus sign where it is negative.
pub open spec fn dec_int(x: int) -> Seq<u8> {
    if x < 0 {
        seq![45u8] + dec_digits((-x) as nat)
    } else {
        dec_digits(x as nat)
    }
}

/// The upper-case hexadecimal digit for a value below 16.
pub open spec fn hex_digit(d: int) -> u8 {
    if d < 10 {
        (48 + d) as u8
    } else {
        (55 + d) as u8
    }
}

/// The two upper-case hexadecimal digits of a byte.
pub open spec fn hex_byte(b: u8) -> Seq<u8> {
    seq![hex_digit(b as int / 16), hex_digit(b as int % 16)]
}

/// The four bytes of `n`, least significant first.
pub open spec fn le_bytes(n: u32) -> Seq<u8> {
    seq![
        (n as int % 256) as u8,
        (n as int / 256 % 256) as u8,
        (n as int / 65536 % 256) as u8,
        (n as int / 16777216 % 256) as u8,
    ]
}

/// A decimal number has at least one digit, and only digits.
pub proof fn lemma_dec_digits_are_digits(n: nat)
    ensures
        dec_digits(n).len() >= 1,
        forall|i: int| 0 <= i < dec_digits(n).len() ==> 48 <= #[trigger] dec_digits(n)[i] <= 57,
    decreases n,
{
    if n >= 10 {
        lemma_dec_digits_are_digits(n / 10);
    }
}

/// A fresh copy of a byte string.
pub fn copy_bytes(a: &[u8]) -> (r: Vec<u8>)
    ensures
        r@ == a@,
{
    let mut r: Vec<u8> = Vec::new();
    r.extend_from_slice(a);
    assert(r@ =~= a@);
    r
}

/// The bytes of a literal as an owned byte string.
pub fn lit_vec(s: &str) -> (r: Vec<u8>)
    ensures
        r@ == lit(s),
{
    copy_bytes(s.as_bytes())
}

/// Appends the bytes of a literal.
pub fn push_lit(buf: &mut Vec<u8>, s: &str)
    ensures
        final(buf)@ == old(buf)@ + lit(s),
{
    buf.extend_from_slice(s.as_bytes());
}

/// Appends a byte string.
pub fn push_bytes(buf: &mut Vec<u8>, a: &[u8])
    ensures
        final(buf)@ == old(buf)@ + a@,
{
    buf.extend_from_slice(a);
}

/// Whether two byte strings hold the same bytes.
pub fn bytes_eq(a: &[u8], b: &[u8]) -> (r: bool)
    ensures
        r == (a@ == b@),
{
    if a.len() != b.len() {
        return false;
    }
    let mut i: usize = 0;
    while i < a.len()
        invariant
            a.len() == b.len(),
            0 <= i <= a.len(),
            forall|j: int| 0 <= j < i ==> a@[j] == b@[j],
        decreases a.len() - i,
    {
        if a[i] != b[i] {
            return false;
        }
        i += 1;
    }
    assert(a@ =~= b@);
    true
}

/// Whether a byte string spells the literal `s`.
pub fn eq_lit(a: &[u8], s: &str) -> (r: bool)
    ensures
        r == (a@ == lit(s)),
{
    bytes_eq(a, s.as_bytes())
}

/// Appends the decimal digits of `n`.
pub fn push_dec(buf: &mut Vec<u8>, n: u128)
    ensures
        final(buf)@ == old(buf)@ + dec_digits(n as nat),
    decreases n,
{
    if n >= 10 {
        push_dec(buf, n / 10);
    }
    let d: u8 = (n % 10) as u8;
    buf.push(48 + d);
    assert(buf@ =~= old(buf)@ + dec_digits(n as nat));
}

/// Appends the decimal form of a signed integer.
pub fn push_dec_int(buf: &mut Vec<u8>, x: i64)
    ensures
        final(buf)@ == old(buf)@ + dec_int(x as int),
{
    if x < 0 {
        buf.push(45);
        let m: u64 = if x == i64::MIN {
            0x8000_0000_0000_0000u64
        } else {
            (-x) as u64
        };
        push_dec(buf, m as u128);
        assert(buf@ =~= old(buf)@ + dec_int(x as int));
    } else {
        push_dec(buf, x as u128);
    }
}

/// The decimal digits of `n` as an owned byte string.
pub fn dec_vec(n: u64) -> (r: Vec<u8>)
    ensures
        r@ == dec_digits(n as nat),
{
    let mut r: Vec<u8> = Vec::new();
    push_dec(&mut r, n as u128);
    assert(r@ =~= dec_digits(n as nat));
    r
}

/// The decimal form of `x` as an owned byte string.
pub fn dec_int_vec(x: i64) -> (r: Vec<u8>)
    ensures
        r@ == dec_int(x as int),
{
    let mut r: Vec<u8> = Vec::new();
    push_dec_int(&mut r, x);
    assert(r@ =~= dec_int(x as int));
    r
}

/// The two upper-case hexadecimal digits of a byte as an owned byte string.
pub fn hex_vec(b: u8) -> (r: Vec<u8>)
    ensures
        r@ == hex_byte(b),
{
    let hi: u8 = b / 16;
    let lo: u8 = b % 16;
    let mut r: Vec<u8> = Vec::new();
    r.push(if hi < 10 {
        48 + hi
    } else {
        55 + hi
    });
    r.push(if lo < 10 {
        48 + lo
    } else {
        55 + lo
    });
    assert(r@ =~= hex_byte(b));
    r
}

/// The four bytes of `n`, least significant first, as an owned byte string.
pub fn le_vec(n: u32) -> (r: Vec<u8>)
    ensures
        r@ == le_bytes(n),
{
    let mut r: Vec<u8> = Vec::new();
    r.push((n % 256) as u8);
    r.push((n / 256 % 256) as u8);
    r.push((n / 65536 % 256) as u8);
    r.push((n / 16777216 % 256) as u8);
    assert(r@ =~= le_bytes(n));
    r
}

/// A byte as it stands between the double quotes of a diagnostic: the
/// quote, the backslash, the tabulator, the line feed, the carriage return
/// and the zero byte behind a backslash, any other control character by its
/// number in lower-case hexadecimal digits, and every other byte as it is.
pub open spec fn quoted_byte(b: u8) -> Seq<u8> {
    if b == 34 {
        seq![92u8, 34u8]
    } else if b == 92 {
        seq![92u8, 92u8]
    } else if b == 9 {
        seq![92u8, 116u8]
    } else if b == 10 {
        seq![92u8, 110u8]
    } else if b == 13 {
        seq![92u8, 114u8]
    } else if b == 0 {
        seq![92u8, 48u8]
    } else if b < 16 {
        seq![92u8, 117u8, 123u8, low_hex_digit(b as int), 125u8]
    } else if b < 32 || b == 127 {
        seq![92u8, 117u8, 123u8, low_hex_digit(b as int / 16), low_hex_digit(b as int % 16), 125u8]
    } else {
        seq![b]
    }
}

/// The lower-case hexadecimal digit for a value below 16.
pub open spec fn low_hex_digit(d: int) -> u8 {
    if d < 10 {
        (48 + d) as u8
    } else {
        (87 + d) as u8
    }
}

/// The bytes of a text as they stand between double quotes.
pub open spec fn quoted_bytes(s: Seq<u8>) -> Seq<u8>
    decreases s.len(),
{
    if s.len() == 0 {
        Seq::empty()
    } else {
        quoted_bytes(s.drop_last()) + quoted_byte(s.last())
    }
}

/// A text in double quotes.
pub open spec fn quoted(s: Seq<u8>) -> Seq<u8> {
    seq![34u8] + quoted_bytes(s) + seq![34u8]
}

fn low_hex(d: u8) -> (r: u8)
    requires
        d < 16,
    ensures
        r == low_hex_digit(d as int),
{
    if d < 10 {
        48 + d
    } else {
        87 + d
    }
}

fn push_quoted_byte(buf: &mut Vec<u8>, b: u8)
    ensures
        final(buf)@ == old(buf)@ + quoted_byte(b),
{
    if b == 34 || b == 92 {
        buf.push(92);
        buf.push(b);
    } else if b == 9 {
        buf.push(92);
        buf.push(116);
    } else if b == 10 {
        buf.push(92);
        buf.push(110);
    } else if b == 13 {
        buf.push(92);
        buf.push(114);
    } else if b == 0 {
        buf.push(92);
        buf.push(48);
    } else if b < 32 || b == 127 {
        buf.push(92);
        buf.push(117);
        buf.push(123);
        if b >= 16 {
            buf.push(low_hex(b / 16));
        }
        buf.push(low_hex(b % 16));
        buf.push(125);
    } else {
        buf.push(b);
    }
    assert(buf@ =~= old(buf)@ + quoted_byte(b));
}

/// Appends `s` in double quotes.
pub fn push_quoted(buf: &mut Vec<u8>, s: &[u8])
    ensures
        final(buf)@ == old(buf)@ + quoted(s@),
{
    buf.push(34);
    let mut i: usize = 0;
    while i < s.len()
        invariant
            0 <= i <= s.len(),
            buf@ == old(buf)@ + seq![34u8] + quoted_bytes(s@.subrange(0, i as int)),
        decreases s.len() - i,
    {
        push_quoted_byte(buf, s[i]);
        proof {
            let t = s@.subrange(0, i + 1);
            assert(t.drop_last() =~= s@.subrange(0, i as int));
            assert(t.last() == s@[i as int]);
            assert(buf@ =~= old(buf)@ + seq![34u8] + quoted_bytes(t));
        }
        i += 1;
    }
    assert(s@.subrange(0, s.len() as int) =~= s@);
    buf.push(34);
    assert(buf@ =~= old(buf)@ + quoted(s@));
}

} // verus!
