//! Pieces of the ctLab serial protocol shared by all modules: the packed
//! status byte, the optional XOR checksum (`$XX` behind a command) and the
//! number formats of the command line, all over the bytes of a line.

use vstd::prelude::*;

verus! {

/// The status byte reported to the host: bits 3..0 carry the error or fault
/// code, bit 4 the EEPROM write enable, bit 5 overload, bit 6 user service
/// request, bit 7 busy.
pub open spec fn status_byte(nibble: u8, ee_unlocked: bool, overload: bool, user_srq: bool, busy: bool) -> int {
    (nibble % 16) + (if ee_unlocked { 16int } else { 0 }) + (if overload { 32int } else { 0 }) + (if user_srq {
        64int
    } else {
        0
    }) + (if busy { 128int } else { 0 })
}

/// Packs the status byte (see [`status_byte`]).
pub fn pack_status(nibble: u8, ee_unlocked: bool, overload: bool, user_srq: bool, busy: bool) -> (r: u8)
    ensures
        r == status_byte(nibble, ee_unlocked, overload, user_srq, busy),
{
    let e: u8 = if ee_unlocked { 1 } else { 0 };
    let o: u8 = if overload { 1 } else { 0 };
    let u: u8 = if user_srq { 1 } else { 0 };
    let b: u8 = if busy { 1 } else { 0 };
    let r = (nibble & 0x0f) | (e << 4u8) | (o << 5u8) | (u << 6u8) | (b << 7u8);
    assert(r == (nibble % 16) + 16 * e + 32 * o + 64 * u + 128 * b) by (bit_vector)
        requires
            e <= 1,
            o <= 1,
            u <= 1,
            b <= 1,
            r == (nibble & 0x0f) | (e << 4u8) | (o << 5u8) | (u << 6u8) | (b << 7u8),
    ;
    r
}

/// XOR of the first `n` bytes.
pub open spec fn xor_prefix(bytes: Seq<u8>, n: nat) -> u8
    decreases n,
{
    if n == 0 {
        0
    } else {
        xor_prefix(bytes, (n - 1) as nat) ^ bytes[n - 1]
    }
}

/// XOR of all bytes before position `end`: the checksum of a command.
pub fn xor_checksum(bytes: &[u8], end: usize) -> (r: u8)
    requires
        end <= bytes@.len(),
    ensures
        r == xor_prefix(bytes@, end as nat),
{
    let mut acc: u8 = 0;
    let mut i: usize = 0;
    while i < end
        invariant
            i <= end <= bytes@.len(),
            acc == xor_prefix(bytes@, i as nat),
        decreases end - i,
    {
        acc = acc ^ bytes[i];
        i = i + 1;
    }
    acc
}

/// Position of the first occurrence of `b`, if any.
pub open spec fn first_index(bytes: Seq<u8>, b: u8) -> Option<int> {
    if exists|i: int| 0 <= i < bytes.len() && bytes[i] == b {
        Some(choose|i: int| 0 <= i < bytes.len() && bytes[i] == b && forall|j: int| 0 <= j < i ==> bytes[j] != b)
    } else {
        None
    }
}

/// Finds the first occurrence of `b`.
pub fn find_byte(bytes: &[u8], b: u8) -> (r: Option<usize>)
    ensures
        match r {
            Some(i) => i < bytes@.len() && bytes@[i as int] == b && forall|j: int| 0 <= j < i ==> bytes@[j] != b,
            None => forall|j: int| 0 <= j < bytes@.len() ==> bytes@[j] != b,
        },
        r matches Some(i) ==> first_index(bytes@, b) == Some(i as int),
        r is None ==> first_index(bytes@, b) is None,
{
    let mut i: usize = 0;
    while i < bytes.len()
        invariant
            i <= bytes@.len(),
            forall|j: int| 0 <= j < i ==> bytes@[j] != b,
        decreases bytes.len() - i,
    {
        if bytes[i] == b {
            proof {
                let w = choose|k: int| 0 <= k < bytes@.len() && bytes@[k] == b && forall|j: int| 0 <= j < k ==> bytes@[j] != b;
                assert(0 <= i < bytes@.len() && bytes@[i as int] == b && forall|j: int| 0 <= j < i ==> bytes@[j] != b);
                if w < i {
                    assert(bytes@[w] != b);
                } else if w > i {
                    assert(bytes@[i as int] != b);
                }
            }
            return Some(i);
        }
        i = i + 1;
    }
    None
}

/// Whether `b` occurs.
pub fn contains_byte(bytes: &[u8], b: u8) -> (r: bool)
    ensures
        r == (exists|i: int| 0 <= i < bytes@.len() && bytes@[i] == b),
{
    match find_byte(bytes, b) {
        Some(i) => true,
        None => false,
    }
}

/// Value of an ASCII digit in base 16 (either case), if it is one.
pub open spec fn hex_value(c: u8) -> Option<u8> {
    if 48 <= c <= 57 {
        Some((c - 48) as u8)
    } else if 65 <= c <= 70 {
        Some((c - 55) as u8)
    } else if 97 <= c <= 102 {
        Some((c - 87) as u8)
    } else {
        None
    }
}

/// Value of an ASCII digit in base 10, if it is one.
pub open spec fn dec_value(c: u8) -> Option<u8> {
    if 48 <= c <= 57 {
        Some((c - 48) as u8)
    } else {
        None
    }
}

/// Value of a digit string, most significant first, in base `radix`, with
/// `digit` giving each digit's value; `None` if a character is no digit.
pub open spec fn digits_value(s: Seq<u8>, radix: int, hex: bool) -> Option<int>
    decreases s.len(),
{
    if s.len() == 0 {
        Some(0)
    } else {
        let d = if hex { hex_value(s.last()) } else { dec_value(s.last()) };
        match (digits_value(s.drop_last(), radix, hex), d) {
            (Some(v), Some(x)) => Some(v * radix + x),
            _ => None,
        }
    }
}

/// `u8::from_str_radix` on ASCII text: an optional `+`, then at least one
/// digit; `None` on any other character or when the value exceeds 255.
pub open spec fn parse_unsigned(s: Seq<u8>, radix: int, hex: bool) -> Option<u8> {
    let body = if s.len() > 1 && s[0] == 43 { s.drop_first() } else { s };
    if body.len() == 0 {
        None
    } else {
        match digits_value(body, radix, hex) {
            Some(v) => if v <= 255 { Some(v as u8) } else { None },
            None => None,
        }
    }
}

proof fn lemma_digits_value_nonneg(s: Seq<u8>, radix: int, hex: bool)
    requires
        radix >= 1,
    ensures
        digits_value(s, radix, hex) matches Some(v) ==> v >= 0,
    decreases s.len(),
{
    if s.len() > 0 {
        lemma_digits_value_nonneg(s.drop_last(), radix, hex);
    }
}

proof fn lemma_digits_value_prefix(s: Seq<u8>, n: int, radix: int, hex: bool)
    requires
        0 <= n <= s.len(),
        radix >= 2,
        digits_value(s.subrange(0, n), radix, hex) matches Some(v) && v > 255,
    ensures
        digits_value(s, radix, hex) is None || digits_value(s, radix, hex)->0 > 255,
    decreases s.len() - n,
{
    if n < s.len() {
        let t = s.subrange(0, n + 1);
        assert(t.drop_last() =~= s.subrange(0, n));
        let v = digits_value(s.subrange(0, n), radix, hex)->0;
        match digits_value(t, radix, hex) {
            None => {
                lemma_none_extends(s, n + 1, radix, hex);
            },
            Some(w) => {
                let x = (if hex { hex_value(t.last()) } else { dec_value(t.last()) })->0 as int;
                assert(w == v * radix + x);
                assert(v * radix + x > 255) by (nonlinear_arith)
                    requires v > 255, radix >= 2, x >= 0;
                lemma_digits_value_prefix(s, n + 1, radix, hex);
            },
        }
    } else {
        assert(s.subrange(0, n) =~= s);
    }
}

/// Parses an unsigned byte from ASCII text as `u8::from_str_radix` does.
pub fn parse_u8_radix(s: &[u8], hex: bool) -> (r: Option<u8>)
    ensures
        r == parse_unsigned(s@, if hex { 16 } else { 10 }, hex),
{
    let radix: u32 = if hex { 16 } else { 10 };
    let ghost rad: int = if hex { 16 } else { 10 };
    let start: usize = if s.len() > 1 && s[0] == 43 { 1 } else { 0 };
    let ghost body = if s@.len() > 1 && s@[0] == 43 { s@.drop_first() } else { s@ };
    assert(body =~= s@.subrange(start as int, s@.len() as int));
    if start >= s.len() {
        return None;
    }
    let mut acc: u32 = 0;
    let mut i: usize = start;
    assert(body.subrange(0, 0) =~= Seq::<u8>::empty());
    while i < s.len()
        invariant
            start <= i <= s@.len(),
            body =~= s@.subrange(start as int, s@.len() as int),
            body == (if s@.len() > 1 && s@[0] == 43 { s@.drop_first() } else { s@ }),
            body.len() > 0,
            rad == radix as int,
            rad == (if hex { 16int } else { 10int }),
            acc <= 255,
            digits_value(body.subrange(0, i - start), rad, hex) == Some(acc as int),
        decreases s.len() - i,
    {
        let c = s[i];
        let d: Option<u8> = if 48 <= c && c <= 57 {
            Some(c - 48)
        } else if hex && 65 <= c && c <= 70 {
            Some(c - 55)
        } else if hex && 97 <= c && c <= 102 {
            Some(c - 87)
        } else {
            None
        };
        let ghost t = body.subrange(0, i - start + 1);
        assert(t.drop_last() =~= body.subrange(0, i - start));
        assert(t.last() == c);
        match d {
            None => {
                assert(digits_value(t, rad, hex) is None);
                proof {
                    lemma_none_extends(body, i - start + 1, rad, hex);
                    assert(parse_unsigned(s@, rad, hex) is None);
                }
                return None;
            },
            Some(x) => {
                let next: u32 = acc * radix + x as u32;
                if next > 255 {
                    proof {
                        assert(next as int == acc * rad + x) by (nonlinear_arith)
                            requires next == acc * radix + x as u32, rad == radix as int, acc <= 255, radix <= 16;
                        lemma_digits_value_prefix(body, i - start + 1, rad, hex);
                        assert(parse_unsigned(s@, rad, hex) is None);
                    }
                    return None;
                }
                acc = next;
            },
        }
        i = i + 1;
    }
    assert(body.subrange(0, body.len() as int) =~= body);
    Some(acc as u8)
}

proof fn lemma_none_extends(s: Seq<u8>, n: int, radix: int, hex: bool)
    requires
        0 <= n <= s.len(),
        digits_value(s.subrange(0, n), radix, hex) is None,
    ensures
        digits_value(s, radix, hex) is None,
    decreases s.len() - n,
{
    if n < s.len() {
        let t = s.subrange(0, n + 1);
        assert(t.drop_last() =~= s.subrange(0, n));
        lemma_none_extends(s, n + 1, radix, hex);
    } else {
        assert(s.subrange(0, n) =~= s);
    }
}

/// `i32::from_str` on ASCII text: an optional sign, then at least one
/// decimal digit; `None` on any other character or when the value leaves
/// the range of `i32`.
pub open spec fn parse_signed(s: Seq<u8>) -> Option<i32> {
    let negative = s.len() > 1 && s[0] == 45;
    let body = if s.len() > 1 && (s[0] == 43 || s[0] == 45) { s.drop_first() } else { s };
    if body.len() == 0 {
        None
    } else {
        match digits_value(body, 10, false) {
            Some(v) => {
                let x = if negative { -v } else { v };
                if i32::MIN <= x <= i32::MAX { Some(x as i32) } else { None }
            },
            None => None,
        }
    }
}

proof fn lemma_digits_grow(s: Seq<u8>, n: int)
    requires
        0 <= n <= s.len(),
        digits_value(s.subrange(0, n), 10, false) matches Some(v) && v > 0x8000_0000,
    ensures
        digits_value(s, 10, false) is None || digits_value(s, 10, false)->0 > 0x8000_0000,
    decreases s.len() - n,
{
    if n < s.len() {
        let t = s.subrange(0, n + 1);
        assert(t.drop_last() =~= s.subrange(0, n));
        let v = digits_value(s.subrange(0, n), 10, false)->0;
        match digits_value(t, 10, false) {
            None => {
                lemma_none_extends(s, n + 1, 10, false);
            },
            Some(w) => {
                let x = dec_value(t.last())->0 as int;
                assert(w == v * 10 + x);
                lemma_digits_grow(s, n + 1);
            },
        }
    } else {
        assert(s.subrange(0, n) =~= s);
    }
}

/// Parses a signed 32-bit number from ASCII text as `str::parse::<i32>` does.
pub fn parse_i32_bytes(s: &[u8]) -> (r: Option<i32>)
    ensures
        r == parse_signed(s@),
{
    let negative = s.len() > 1 && s[0] == 45;
    let start: usize = if s.len() > 1 && (s[0] == 43 || s[0] == 45) { 1 } else { 0 };
    let ghost body = if s@.len() > 1 && (s@[0] == 43 || s@[0] == 45) { s@.drop_first() } else { s@ };
    assert(body =~= s@.subrange(start as int, s@.len() as int));
    if start >= s.len() {
        return None;
    }
    let mut acc: u64 = 0;
    let mut i: usize = start;
    assert(body.subrange(0, 0) =~= Seq::<u8>::empty());
    while i < s.len()
        invariant
            start <= i <= s@.len(),
            body =~= s@.subrange(start as int, s@.len() as int),
            body == (if s@.len() > 1 && (s@[0] == 43 || s@[0] == 45) { s@.drop_first() } else { s@ }),
            negative == (s@.len() > 1 && s@[0] == 45),
            body.len() > 0,
            acc <= 0x8000_0000,
            digits_value(body.subrange(0, i - start), 10, false) == Some(acc as int),
        decreases s.len() - i,
    {
        let c = s[i];
        let ghost t = body.subrange(0, i - start + 1);
        assert(t.drop_last() =~= body.subrange(0, i - start));
        assert(t.last() == c);
        if c < 48 || c > 57 {
            proof {
                lemma_none_extends(body, i - start + 1, 10, false);
            }
            return None;
        }
        let next: u64 = acc * 10 + (c - 48) as u64;
        if next > 0x8000_0000 {
            proof {
                lemma_digits_grow(body, i - start + 1);
            }
            return None;
        }
        acc = next;
        i = i + 1;
    }
    assert(body.subrange(0, body.len() as int) =~= body);
    if negative {
        Some((0 - acc as i64) as i32)
    } else if acc <= 0x7fff_ffff {
        Some(acc as i32)
    } else {
        None
    }
}

} // verus!
