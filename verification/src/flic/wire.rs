use vstd::prelude::*;
use vstd::string::StrSliceExecFns;

verus! {

/// The unsigned value of the four little-endian bytes of `s` from `at` on.
pub open spec fn le32_at(s: Seq<u8>, at: int) -> u32 {
    (s[at] + 256 * s[at + 1] + 65536 * s[at + 2] + 16777216 * s[at + 3]) as u32
}

/// Reads the little-endian `u32` at `bytes[at..at + 4]`.
pub fn read_le32(bytes: &Vec<u8>, at: usize) -> (v: u32)
    requires
        at + 4 <= bytes.len(),
    ensures
        v == le32_at(bytes@, at as int),
{
    let b0 = bytes[at] as u32;
    let b1 = bytes[at + 1] as u32;
    let b2 = bytes[at + 2] as u32;
    let b3 = bytes[at + 3] as u32;
    assert(b0 < 256 && b1 < 256 && b2 < 256 && b3 < 256);
    b0 + 256 * b1 + 65536 * b2 + 16777216 * b3
}

} // verus!

verus! {

/// The two little-endian bytes of `x`.
pub open spec fn le16_bytes(x: u16) -> Seq<u8> {
    seq![(x % 256) as u8, (x / 256) as u8]
}

/// The four little-endian bytes of `x`.
pub open spec fn le32_bytes(x: u32) -> Seq<u8> {
    seq![(x % 256) as u8, ((x / 256) % 256) as u8, ((x / 65536) % 256) as u8, (x / 16777216) as u8]
}

/// Appends the two little-endian bytes of `x`.
pub fn push_le16(v: &mut Vec<u8>, x: u16)
    ensures
        final(v)@ == old(v)@ + le16_bytes(x),
{
    v.push((x % 256) as u8);
    v.push((x / 256) as u8);
    assert(v@ =~= old(v)@ + le16_bytes(x));
}

/// Appends the four little-endian bytes of `x`.
pub fn push_le32(v: &mut Vec<u8>, x: u32)
    ensures
        final(v)@ == old(v)@ + le32_bytes(x),
{
    v.push((x % 256) as u8);
    v.push(((x / 256) % 256) as u8);
    v.push(((x / 65536) % 256) as u8);
    v.push((x / 16777216) as u8);
    assert(v@ =~= old(v)@ + le32_bytes(x));
}

/// The unsigned value of the two little-endian bytes of `s` from `at` on.
pub open spec fn le16_at(s: Seq<u8>, at: int) -> u16 {
    (s[at] + 256 * s[at + 1]) as u16
}

/// Four little-endian bytes read back give the number they were written from.
pub proof fn lemma_le32_read_back(s: Seq<u8>, at: int, x: u32)
    requires
        0 <= at,
        at + 4 <= s.len(),
        s.subrange(at, at + 4) == le32_bytes(x),
    ensures
        le32_at(s, at) == x,
{
    assert(s[at] == le32_bytes(x)[0]);
    assert(s[at + 1] == le32_bytes(x)[1]);
    assert(s[at + 2] == le32_bytes(x)[2]);
    assert(s[at + 3] == le32_bytes(x)[3]);
    assert((x % 256) as u8 + 256 * ((x / 256) % 256) as u8 + 65536 * ((x / 65536) % 256) as u8
        + 16777216 * (x / 16777216) as u8 == x) by (bit_vector);
}

/// Two little-endian bytes read back give the number they were written from.
pub proof fn lemma_le16_read_back(s: Seq<u8>, at: int, x: u16)
    requires
        0 <= at,
        at + 2 <= s.len(),
        s.subrange(at, at + 2) == le16_bytes(x),
    ensures
        le16_at(s, at) == x,
{
    assert(s[at] == le16_bytes(x)[0]);
    assert(s[at + 1] == le16_bytes(x)[1]);
    assert((x % 256) as u8 + 256 * (x / 256) as u8 == x) by (bit_vector);
}

/// The value of a hexadecimal digit, upper or lower case.
pub open spec fn hex_digit_value(c: char) -> Option<u8> {
    let v = c as u32;
    if 48 <= v && v <= 57 {
        Some((v - 48) as u8)
    } else if 97 <= v && v <= 102 {
        Some((v - 87) as u8)
    } else if 65 <= v && v <= 70 {
        Some((v - 55) as u8)
    } else {
        None
    }
}

/// The digit value of `s[i]`: 0 when `i` is past the end of `s` or `s[i]` is
/// not a hexadecimal digit.
pub open spec fn digit_or_zero(s: Seq<char>, i: int) -> u8 {
    if 0 <= i < s.len() {
        match hex_digit_value(s[i]) {
            Some(d) => d,
            None => 0,
        }
    } else {
        0
    }
}

/// The byte written by the `k`-th pair of digits of a button address
/// `xx:xx:xx:xx:xx:xx`, read from the characters at `3 * k` and `3 * k + 1`.
pub open spec fn bd_addr_group(s: Seq<char>, k: int) -> u8 {
    (digit_or_zero(s, 3 * k) * 16 + digit_or_zero(s, 3 * k + 1)) as u8
}

/// The six bytes that the daemon expects for a button address: the written
/// bytes in reverse order. A text that is not written `xx:xx:xx:xx:xx:xx` in
/// hexadecimal is read all the same, a missing or non-digit character counting
/// as the digit 0.
pub open spec fn spec_bd_addr_bytes(s: Seq<char>) -> Seq<u8> {
    Seq::new(6, |j: int| bd_addr_group(s, 5 - j))
}

/// The six bytes of an address written `xx:xx:xx:xx:xx:xx` in hexadecimal are
/// its written pairs in reverse order: the `k`-th written pair `hl` gives byte
/// `5 - k`, of value `16 * h + l`.
pub proof fn lemma_bd_addr_reversed(s: Seq<char>, k: int)
    requires
        0 <= k < 6,
        3 * k + 1 < s.len(),
        hex_digit_value(s[3 * k]) is Some,
        hex_digit_value(s[3 * k + 1]) is Some,
    ensures
        spec_bd_addr_bytes(s).len() == 6,
        spec_bd_addr_bytes(s)[5 - k] == hex_digit_value(s[3 * k])->0 * 16 + hex_digit_value(
            s[3 * k + 1],
        )->0,
{
    let h = hex_digit_value(s[3 * k])->0;
    let l = hex_digit_value(s[3 * k + 1])->0;
    assert(h < 16 && l < 16);
    assert(spec_bd_addr_bytes(s)[5 - k] == bd_addr_group(s, 5 - (5 - k)));
}

/// The value of a hexadecimal digit, or `None`.
pub fn hex_digit(c: char) -> (r: Option<u8>)
    ensures
        r == hex_digit_value(c),
{
    let v = c as u32;
    if 48 <= v && v <= 57 {
        Some((v - 48) as u8)
    } else if 97 <= v && v <= 102 {
        Some((v - 87) as u8)
    } else if 65 <= v && v <= 70 {
        Some((v - 55) as u8)
    } else {
        None
    }
}

/// The digit value of the `i`-th character of `addr`, 0 when there is none or
/// it is not a hexadecimal digit.
fn digit_at(addr: &str, n: usize, i: usize) -> (d: u8)
    requires
        n == addr@.len(),
    ensures
        d == digit_or_zero(addr@, i as int),
        d < 16,
{
    if i < n {
        match hex_digit(addr.get_char(i)) {
            Some(d) => d,
            None => 0,
        }
    } else {
        0
    }
}

/// The six wire bytes of the button address `addr` (see `spec_bd_addr_bytes`).
pub fn bd_addr_bytes(addr: &str) -> (v: Vec<u8>)
    ensures
        v@ == spec_bd_addr_bytes(addr@),
{
    let n = addr.unicode_len();
    let mut out: Vec<u8> = Vec::new();
    let mut j: usize = 0;
    while j < 6
        invariant
            n == addr@.len(),
            j <= 6,
            out@ =~= Seq::new(j as nat, |jj: int| bd_addr_group(addr@, 5 - jj)),
        decreases 6 - j,
    {
        let k = 5 - j;
        let hi = digit_at(addr, n, 3 * k);
        let lo = digit_at(addr, n, 3 * k + 1);
        out.push(hi * 16 + lo);
        j = j + 1;
    }
    out
}

} // verus!
