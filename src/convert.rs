//! Hexadecimal fields of the mount protocols and their numeric values.
use vstd::prelude::*;
use vstd::string::StringSliceAdditionalSpecFns;

verus! {

broadcast use vstd::string::group_string_axioms;

/// Value of one hexadecimal digit, in either case.
pub open spec fn hex_char_value(c: char) -> Option<nat> {
    if '0' <= c <= '9' {
        Some((c as u32 - 48) as nat)
    } else if 'A' <= c <= 'F' {
        Some((c as u32 - 55) as nat)
    } else if 'a' <= c <= 'f' {
        Some((c as u32 - 87) as nat)
    } else {
        None
    }
}

pub open spec fn all_hex_chars(s: Seq<char>) -> bool {
    forall|i: int| 0 <= i < s.len() ==> (#[trigger] hex_char_value(s[i])) is Some
}

/// The number written by the hexadecimal digits `s`, most significant first.
pub open spec fn hex_number(s: Seq<char>) -> nat
    decreases s.len(),
{
    if s.len() == 0 {
        0
    } else {
        16 * hex_number(s.drop_last()) + hex_char_value(s.last())->0
    }
}

/// The digits of a base-16 text: a single leading `+` is allowed.
pub open spec fn hex_digits_of(s: Seq<char>) -> Seq<char> {
    if s.len() > 0 && s[0] == '+' {
        s.drop_first()
    } else {
        s
    }
}

/// Strict base-16 reading of `s` as an unsigned number below `limit`: an optional `+`,
/// then one digit or more, and nothing else.
pub open spec fn parse_hex(s: Seq<char>, limit: nat) -> Option<nat> {
    let d = hex_digits_of(s);
    if d.len() > 0 && all_hex_chars(d) && hex_number(d) < limit {
        Some(hex_number(d))
    } else {
        None
    }
}

pub proof fn lemma_hex_number_prefix_grows(d: Seq<char>, j: int, k: int)
    requires
        0 <= j <= k <= d.len(),
    ensures
        hex_number(d.subrange(0, j)) <= hex_number(d.subrange(0, k)),
    decreases k - j,
{
    if j < k {
        lemma_hex_number_prefix_grows(d, j, k - 1);
        assert(d.subrange(0, k).drop_last() =~= d.subrange(0, k - 1));
    }
}

/// Reads the digits of an ASCII text as a number below `limit`.
pub(crate) fn parse_hex_below(s: &str, limit: u64) -> (r: Option<u64>)
    requires
        0 < limit <= 0x1_0000_0000,
    ensures
        match parse_hex(s@, limit as nat) {
            Some(v) => r == Some(v as u64),
            None => r is None,
        },
{
    if !s.is_ascii() {
        proof {
            let i = choose|i: int| 0 <= i < s@.len() && !('\0' <= #[trigger] s@[i] <= '\u{7f}');
            let d = hex_digits_of(s@);
            if d.len() > 0 && all_hex_chars(d) {
                if d.len() < s@.len() {
                    assert(s@[i] == d[i - 1] || i == 0);
                    if i > 0 {
                        assert(hex_char_value(d[i - 1]) is Some);
                    }
                } else {
                    assert(hex_char_value(d[i]) is Some);
                }
            }
        }
        return None;
    }
    let b = s.as_bytes();
    proof {
        vstd::string::is_ascii_spec_bytes(s);
    }
    let n = b.len();
    let mut start: usize = 0;
    if n > 0 && b[0] == 43u8 {
        start = 1;
    }
    let ghost d = hex_digits_of(s@);
    assert(d =~= s@.subrange(start as int, n as int));
    if start >= n {
        return None;
    }
    let mut acc: u64 = 0;
    let mut i: usize = start;
    while i < n
        invariant
            start <= i <= n,
            n == s@.len(),
            b@ == s.spec_bytes(),
            s.spec_bytes() =~= Seq::new(s@.len(), |k: int| s@[k] as u8),
            s.is_ascii(),
            d =~= s@.subrange(start as int, n as int),
            d == hex_digits_of(s@),
            0 < limit <= 0x1_0000_0000,
            acc < limit,
            acc == hex_number(d.subrange(0, i - start)),
            all_hex_chars(d.subrange(0, i - start)),
        decreases n - i,
    {
        let c = b[i];
        let ghost ch = s@[i as int];
        assert(ch == d[i - start]);
        assert(c == ch as u8);
        let v: u64;
        if 48 <= c && c <= 57 {
            v = (c - 48) as u64;
        } else if 65 <= c && c <= 70 {
            v = (c - 55) as u64;
        } else if 97 <= c && c <= 102 {
            v = (c - 87) as u64;
        } else {
            assert(hex_char_value(d[i - start]) is None);
            assert(!all_hex_chars(d));
            return None;
        }
        assert(hex_char_value(ch) == Some(v as nat));
        let ghost prev = d.subrange(0, i - start);
        let ghost next = d.subrange(0, i + 1 - start);
        assert(next.drop_last() =~= prev);
        assert(next.last() == ch);
        let next: u64 = acc * 16 + v;
        if next >= limit {
            proof {
                lemma_hex_number_prefix_grows(d, i + 1 - start, d.len() as int);
                assert(d.subrange(0, d.len() as int) =~= d);
            }
            return None;
        }
        acc = next;
        i = i + 1;
    }
    assert(d.subrange(0, n - start) =~= d);
    Some(acc)
}

pub proof fn lemma_hex_number_bound(d: Seq<char>)
    requires
        all_hex_chars(d),
    ensures
        hex_number(d) < pow16(d.len()),
    decreases d.len(),
{
    if d.len() > 0 {
        assert(hex_char_value(d[d.len() - 1]) is Some);
        assert(all_hex_chars(d.drop_last()));
        lemma_hex_number_bound(d.drop_last());
    }
}

pub open spec fn pow16(n: nat) -> nat
    decreases n,
{
    if n == 0 {
        1
    } else {
        16 * pow16((n - 1) as nat)
    }
}

/// The 32-bit word `x` with its four bytes in reverse order.
pub open spec fn byte_swap32(x: u32) -> u32 {
    ((x & 0xff) << 24u32) | (((x >> 8u32) & 0xff) << 16u32) | (((x >> 16u32) & 0xff) << 8u32) | (
    x >> 24u32)
}

/// Byte `k` of `x`, counting from the least significant.
pub open spec fn byte_of(x: u32, k: u32) -> u32 {
    (x >> (8 * k)) & 0xff
}

/// Swapping the bytes of a word puts byte `k` where byte `3 - k` was.
pub proof fn lemma_byte_swap_reverses(x: u32)
    ensures
        byte_of(byte_swap32(x), 0) == byte_of(x, 3),
        byte_of(byte_swap32(x), 1) == byte_of(x, 2),
        byte_of(byte_swap32(x), 2) == byte_of(x, 1),
        byte_of(byte_swap32(x), 3) == byte_of(x, 0),
        byte_swap32(byte_swap32(x)) == x,
{
    assert(((((x & 0xff) << 24u32) | (((x >> 8u32) & 0xff) << 16u32) | (((x >> 16u32) & 0xff)
        << 8u32) | (x >> 24u32)) >> 0u32) & 0xff == (x >> 24u32) & 0xff) by (bit_vector);
    assert(((((x & 0xff) << 24u32) | (((x >> 8u32) & 0xff) << 16u32) | (((x >> 16u32) & 0xff)
        << 8u32) | (x >> 24u32)) >> 8u32) & 0xff == (x >> 16u32) & 0xff) by (bit_vector);
    assert(((((x & 0xff) << 24u32) | (((x >> 8u32) & 0xff) << 16u32) | (((x >> 16u32) & 0xff)
        << 8u32) | (x >> 24u32)) >> 16u32) & 0xff == (x >> 8u32) & 0xff) by (bit_vector);
    assert(((((x & 0xff) << 24u32) | (((x >> 8u32) & 0xff) << 16u32) | (((x >> 16u32) & 0xff)
        << 8u32) | (x >> 24u32)) >> 24u32) & 0xff == (x >> 0u32) & 0xff) by (bit_vector);
    let y = byte_swap32(x);
    assert(y == ((x & 0xff) << 24u32) | (((x >> 8u32) & 0xff) << 16u32) | (((x >> 16u32) & 0xff)
        << 8u32) | (x >> 24u32));
    assert(((y & 0xff) << 24u32) | (((y >> 8u32) & 0xff) << 16u32) | (((y >> 16u32) & 0xff)
        << 8u32) | (y >> 24u32) == x) by (bit_vector)
        requires
            y == ((x & 0xff) << 24u32) | (((x >> 8u32) & 0xff) << 16u32) | (((x >> 16u32) & 0xff)
                << 8u32) | (x >> 24u32),
    ;
}

/// Reverses the order of the four bytes of `x`.
pub fn swap_bytes32(x: u32) -> (r: u32)
    ensures
        r == byte_swap32(x),
{
    ((x & 0xff) << 24u32) | (((x >> 8u32) & 0xff) << 16u32) | (((x >> 16u32) & 0xff) << 8u32) | (x
        >> 24u32)
}

pub open spec fn hex_u16(s: Seq<char>) -> Option<u16> {
    match parse_hex(s, 0x1_0000) {
        Some(v) => Some(v as u16),
        None => None,
    }
}

pub open spec fn hex_u32(s: Seq<char>) -> Option<u32> {
    match parse_hex(s, 0x1_0000_0000) {
        Some(v) => Some(v as u32),
        None => None,
    }
}

/// A 32-bit hexadecimal field sent low byte first, read back in order.
pub open spec fn swapped_hex_u32(s: Seq<char>) -> Option<u32> {
    match hex_u32(s) {
        Some(v) => Some(byte_swap32(v)),
        None => None,
    }
}

/// Strict base-16 reading of `input` as a 16-bit number.
pub fn str_to_u16(input: String) -> (r: Option<u16>)
    ensures
        r == hex_u16(input@),
{
    match parse_hex_below(input.as_str(), 0x1_0000) {
        Some(v) => Some(v as u16),
        None => None,
    }
}

/// Strict base-16 reading of `input` as a 32-bit number.
pub fn str_to_u32(input: String) -> (r: Option<u32>)
    ensures
        r == hex_u32(input@),
{
    match parse_hex_below(input.as_str(), 0x1_0000_0000) {
        Some(v) => Some(v as u32),
        None => None,
    }
}

/// Reads a hexadecimal field that the mount sends low byte first, such as `"c3b2a1"`,
/// and returns its value with the bytes put back in order.
pub fn str_24bits_to_u32(input: String) -> (r: Option<u32>)
    ensures
        r == swapped_hex_u32(input@),
{
    match str_to_u32(input) {
        Some(v) => Some(swap_bytes32(v)),
        None => None,
    }
}

/// Every six-digit hexadecimal text is read, and the field that comes back is its value with
/// the bytes reversed: the lowest byte is then zero.
pub proof fn lemma_reverse_24bit_field(s: Seq<char>)
    requires
        s.len() == 6,
        all_hex_chars(s),
    ensures
        hex_number(s) < 0x100_0000,
        parse_hex(s, 0x1_0000_0000) == Some(hex_number(s)),
        swapped_hex_u32(s) == Some(byte_swap32(hex_number(s) as u32)),
        byte_of(byte_swap32(hex_number(s) as u32), 0) == 0,
        byte_of(byte_swap32(hex_number(s) as u32), 1) == byte_of(hex_number(s) as u32, 2),
        byte_of(byte_swap32(hex_number(s) as u32), 2) == byte_of(hex_number(s) as u32, 1),
        byte_of(byte_swap32(hex_number(s) as u32), 3) == byte_of(hex_number(s) as u32, 0),
{
    lemma_hex_number_bound(s);
    reveal_with_fuel(pow16, 7);
    assert(pow16(6) == 0x100_0000);
    assert(hex_char_value(s[0]) is Some);
    assert(hex_digits_of(s) == s);
    let x = hex_number(s) as u32;
    lemma_byte_swap_reverses(x);
    assert((x >> 24u32) & 0xff == 0) by (bit_vector)
        requires
            x < 0x100_0000,
    ;
}

} // verus!
