//! Unsigned integer parsing, as `from_str_radix` and `str::parse` do it, and
//! decimal / hexadecimal rendering.
use vstd::prelude::*;

verus! {

/// `char::to_digit(radix)` for radix up to 36.
pub open spec fn digit_value(c: char, radix: nat) -> Option<nat> {
    let u = c as u32;
    let v: int = if 0x30 <= u <= 0x39 {
        u - 0x30
    } else if 0x61 <= u <= 0x7A {
        u - 0x61 + 10
    } else if 0x41 <= u <= 0x5A {
        u - 0x41 + 10
    } else {
        99
    };
    if v < radix {
        Some(v as nat)
    } else {
        None
    }
}

pub open spec fn all_digits(s: Seq<char>, radix: nat) -> bool {
    forall|i: int| 0 <= i < s.len() ==> digit_value(#[trigger] s[i], radix) is Some
}

/// Value of a string of digits, most significant first.
pub open spec fn digits_value(s: Seq<char>, radix: nat) -> nat
    decreases s.len(),
{
    if s.len() == 0 {
        0
    } else {
        digits_value(s.drop_last(), radix) * radix + digit_value(s.last(), radix).unwrap()
    }
}

/// The digits of an unsigned number: the text without one leading `'+'`.
pub open spec fn unsigned_digits(s: Seq<char>) -> Seq<char> {
    if s.len() > 0 && s[0] == '+' {
        s.drop_first()
    } else {
        s
    }
}

/// What `from_str_radix` gives for an unsigned type whose largest value is
/// `max`: an optional leading `'+'`, then at least one digit, and a value
/// that fits.
pub open spec fn parse_unsigned(s: Seq<char>, radix: nat, max: nat) -> Option<nat> {
    let d = unsigned_digits(s);
    if d.len() == 0 || !all_digits(d, radix) || digits_value(d, radix) > max {
        None
    } else {
        Some(digits_value(d, radix))
    }
}

/// Decimal digit character.
pub open spec fn dec_char(d: nat) -> char {
    ((d % 10) + 0x30) as char
}

/// Lower-case hexadecimal digit character.
pub open spec fn hex_char(d: nat) -> char {
    let d = d % 16;
    if d < 10 {
        (d + 0x30) as char
    } else {
        (d - 10 + 0x61) as char
    }
}

/// Decimal rendering without leading zeros, as `Display` prints integers.
pub open spec fn decimal(n: nat) -> Seq<char>
    decreases n,
{
    if n < 10 {
        seq![dec_char(n)]
    } else {
        decimal(n / 10).push(dec_char(n % 10))
    }
}

/// Two lower-case hexadecimal digits, as `{:02x}` prints a byte.
pub open spec fn hex2(b: u8) -> Seq<char> {
    seq![hex_char(b as nat / 16), hex_char(b as nat % 16)]
}

proof fn lemma_digits_value_prefix(s: Seq<char>, radix: nat, i: int)
    requires
        0 <= i < s.len(),
        all_digits(s, radix),
    ensures
        digits_value(s.take(i + 1), radix) == digits_value(s.take(i), radix) * radix
            + digit_value(s[i], radix).unwrap(),
{
    assert(s.take(i + 1).drop_last() =~= s.take(i));
}

proof fn lemma_digits_value_grows(s: Seq<char>, radix: nat, i: int, j: int)
    requires
        0 <= i <= j <= s.len(),
        all_digits(s, radix),
        radix >= 1,
    ensures
        digits_value(s.take(i), radix) <= digits_value(s.take(j), radix),
    decreases j - i,
{
    if i < j {
        lemma_digits_value_grows(s, radix, i, j - 1);
        lemma_digits_value_prefix(s, radix, j - 1);
        let a = digits_value(s.take(j - 1), radix);
        assert(a <= a * radix) by (nonlinear_arith)
            requires
                radix >= 1,
        ;
    }
}

/// `from_str_radix` for an unsigned type with largest value `max`.
pub fn parse_radix(s: &[char], radix: u32, max: u64) -> (r: Option<u64>)
    requires
        2 <= radix <= 36,
    ensures
        match r {
            Some(v) => parse_unsigned(s@, radix as nat, max as nat) == Some(v as nat),
            None => parse_unsigned(s@, radix as nat, max as nat) is None,
        },
{
    let start: usize = if s.len() > 0 && s[0] == '+' {
        1
    } else {
        0
    };
    let ghost d = unsigned_digits(s@);
    assert(d =~= s@.skip(start as int));
    if start == s.len() {
        return None;
    }
    let mut acc: u128 = 0;
    let mut i = start;
    assert(d.take(0) =~= seq![]);
    while i < s.len()
        invariant
            start <= i <= s.len(),
            start < s.len(),
            d =~= s@.skip(start as int),
            d == unsigned_digits(s@),
            2 <= radix <= 36,
            acc <= max,
            all_digits(d.take(i - start), radix as nat),
            acc == digits_value(d.take(i - start), radix as nat),
        decreases s.len() - i,
    {
        let c = s[i];
        let u = c as u32;
        let v: u32 = if 0x30 <= u && u <= 0x39 {
            u - 0x30
        } else if 0x61 <= u && u <= 0x7A {
            u - 0x61 + 10
        } else if 0x41 <= u && u <= 0x5A {
            u - 0x41 + 10
        } else {
            99
        };
        let ghost k = i - start;
        assert(d[k] == c);
        if v >= radix {
            assert(!all_digits(d, radix as nat)) by {
                assert(digit_value(d[k], radix as nat) is None);
            }
            assert(parse_unsigned(s@, radix as nat, max as nat) is None);
            return None;
        }
        assert(all_digits(d.take(k + 1), radix as nat)) by {
            assert forall|j: int| 0 <= j < k + 1 implies digit_value(
                #[trigger] d.take(k + 1)[j],
                radix as nat,
            ) is Some by {
                if j < k {
                    assert(d.take(k + 1)[j] == d.take(k)[j]);
                }
            }
        }
        proof {
            lemma_digits_value_prefix(d.take(k + 1), radix as nat, k);
            assert(d.take(k + 1).take(k) =~= d.take(k));
            assert(d.take(k + 1).take(k + 1) =~= d.take(k + 1));
        }
        assert(acc * (radix as u128) <= 0xFFFF_FFFF_FFFF_FFFFu128 * 36) by (nonlinear_arith)
            requires
                acc <= 0xFFFF_FFFF_FFFF_FFFFu128,
                radix <= 36,
        ;
        acc = acc * (radix as u128) + (v as u128);
        assert(acc == digits_value(d.take(k + 1), radix as nat));
        i = i + 1;
        if acc > max as u128 {
            assert(parse_unsigned(s@, radix as nat, max as nat) is None) by {
                if all_digits(d, radix as nat) {
                    lemma_digits_value_grows(d, radix as nat, i - start, d.len() as int);
                    assert(d.take(d.len() as int) =~= d);
                }
            }
            return None;
        }
    }
    assert(d.take(d.len() as int) =~= d);
    Some(acc as u64)
}

/// `str::parse::<u16>()`.
pub fn parse_u16(s: &[char]) -> (r: Option<u16>)
    ensures
        match r {
            Some(v) => parse_unsigned(s@, 10, 0xFFFF) == Some(v as nat),
            None => parse_unsigned(s@, 10, 0xFFFF) is None,
        },
{
    match parse_radix(s, 10, 0xFFFF) {
        Some(v) => Some(v as u16),
        None => None,
    }
}

/// `str::parse::<u32>()`.
pub fn parse_u32(s: &[char]) -> (r: Option<u32>)
    ensures
        match r {
            Some(v) => parse_unsigned(s@, 10, 0xFFFF_FFFF) == Some(v as nat),
            None => parse_unsigned(s@, 10, 0xFFFF_FFFF) is None,
        },
{
    match parse_radix(s, 10, 0xFFFF_FFFF) {
        Some(v) => Some(v as u32),
        None => None,
    }
}

/// `str::parse::<u64>()`.
pub fn parse_u64(s: &[char]) -> (r: Option<u64>)
    ensures
        match r {
            Some(v) => parse_unsigned(s@, 10, 0xFFFF_FFFF_FFFF_FFFF) == Some(v as nat),
            None => parse_unsigned(s@, 10, 0xFFFF_FFFF_FFFF_FFFF) is None,
        },
{
    parse_radix(s, 10, 0xFFFF_FFFF_FFFF_FFFF)
}

/// `u16::from_str_radix(s, 16)`.
pub fn parse_hex_u16(s: &[char]) -> (r: Option<u16>)
    ensures
        match r {
            Some(v) => parse_unsigned(s@, 16, 0xFFFF) == Some(v as nat),
            None => parse_unsigned(s@, 16, 0xFFFF) is None,
        },
{
    match parse_radix(s, 16, 0xFFFF) {
        Some(v) => Some(v as u16),
        None => None,
    }
}

/// `u8::from_str_radix(s, 16)`.
pub fn parse_hex_u8(s: &[char]) -> (r: Option<u8>)
    ensures
        match r {
            Some(v) => parse_unsigned(s@, 16, 0xFF) == Some(v as nat),
            None => parse_unsigned(s@, 16, 0xFF) is None,
        },
{
    match parse_radix(s, 16, 0xFF) {
        Some(v) => Some(v as u8),
        None => None,
    }
}

/// Appends the decimal rendering of `n`.
pub fn push_decimal(s: &mut String, n: u64)
    ensures
        final(s)@ == old(s)@ + decimal(n as nat),
    decreases n,
{
    if n >= 10 {
        push_decimal(s, n / 10);
    }
    let d = (n % 10) as u8;
    let c = (d + 0x30) as char;
    assert(c == dec_char(n as nat)) by {
        assert((n as nat % 10) == d);
    }
    crate::text::push_char(s, c);
    proof {
        if n >= 10 {
            assert(dec_char(n as nat) == dec_char(n as nat % 10));
        }
    }
}

/// Decimal rendering of `n`.
pub fn decimal_string(n: u64) -> (s: String)
    ensures
        s@ == decimal(n as nat),
{
    let mut s = String::new();
    push_decimal(&mut s, n);
    assert(Seq::<char>::empty() + decimal(n as nat) =~= decimal(n as nat));
    s
}

/// Appends two lower-case hexadecimal digits of `b`.
pub fn push_hex2(s: &mut String, b: u8)
    ensures
        final(s)@ == old(s)@ + hex2(b),
{
    let hi = b / 16;
    let lo = b % 16;
    let c1 = if hi < 10 {
        (hi + 0x30) as char
    } else {
        (hi - 10 + 0x61) as char
    };
    let c2 = if lo < 10 {
        (lo + 0x30) as char
    } else {
        (lo - 10 + 0x61) as char
    };
    let ghost start = s@;
    crate::text::push_char(s, c1);
    crate::text::push_char(s, c2);
    assert(s@ =~= start + hex2(b));
}

proof fn lemma_hex_char(d: nat)
    requires
        d < 16,
    ensures
        digit_value(hex_char(d), 16) == Some(d),
        hex_char(d) != '+',
{
    if d < 10 {
        assert((hex_char(d) as u32) == d + 0x30);
    } else {
        assert((hex_char(d) as u32) == d - 10 + 0x61);
    }
}

/// Reading back two hex digits gives the byte they were written from.
pub proof fn lemma_parse_hex2(b: u8)
    ensures
        parse_unsigned(hex2(b), 16, 0xFF) == Some(b as nat),
{
    let hi = b as nat / 16;
    let lo = b as nat % 16;
    lemma_hex_char(hi);
    lemma_hex_char(lo);
    let s = hex2(b);
    assert(unsigned_digits(s) == s);
    assert(s.drop_last() =~= seq![hex_char(hi)]);
    assert(s.drop_last().drop_last() =~= Seq::<char>::empty());
    assert(digits_value(Seq::<char>::empty(), 16) == 0);
    assert(s.drop_last().last() == hex_char(hi));
    assert(digits_value(s.drop_last(), 16) == digits_value(s.drop_last().drop_last(), 16) * 16
        + hi);
    assert(digits_value(s.drop_last(), 16) == hi);
    assert(digits_value(s, 16) == hi * 16 + lo);
    assert(all_digits(s, 16));
}

proof fn lemma_dec_char(d: nat)
    requires
        d < 10,
    ensures
        digit_value(dec_char(d), 10) == Some(d),
        dec_char(d) != '+',
{
    assert((dec_char(d) as u32) == d + 0x30);
}

pub proof fn lemma_decimal_digits(n: nat)
    ensures
        all_digits(decimal(n), 10),
        digits_value(decimal(n), 10) == n,
        decimal(n).len() >= 1,
        decimal(n)[0] != '+',
    decreases n,
{
    lemma_dec_char(n % 10);
    if n < 10 {
        assert(decimal(n).drop_last() =~= Seq::<char>::empty());
        assert(digits_value(Seq::<char>::empty(), 10) == 0);
        assert(decimal(n).last() == dec_char(n));
        assert(n % 10 == n);
    } else {
        lemma_decimal_digits(n / 10);
        let p = decimal(n / 10);
        assert(decimal(n).drop_last() =~= p);
        assert(decimal(n).last() == dec_char(n % 10));
        assert(digits_value(decimal(n), 10) == digits_value(p, 10) * 10 + (n % 10));
        assert((n / 10) * 10 + n % 10 == n);
        assert forall|i: int| 0 <= i < decimal(n).len() implies digit_value(
            #[trigger] decimal(n)[i],
            10,
        ) is Some by {
            if i < p.len() {
                assert(decimal(n)[i] == p[i]);
            }
        }
        assert(decimal(n)[0] == p[0]);
    }
}

/// Reading back a rendered number gives the number: parsing is the inverse
/// of decimal rendering on every value that fits.
pub proof fn lemma_parse_decimal(n: nat, max: nat)
    requires
        n <= max,
    ensures
        parse_unsigned(decimal(n), 10, max) == Some(n),
{
    lemma_decimal_digits(n);
}

} // verus!
