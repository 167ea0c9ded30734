//! Run-time options of the emulator and the parsing of their values.

use vstd::prelude::*;
use vstd::slice::slice_subrange;
use vstd::string::StringSliceAdditionalSpecFns;

verus! {

/// A colour as red, green and blue intensities.
#[derive(Clone, Copy, Debug, PartialEq, Eq, Structural)]
pub struct Rgb {
    pub r: u8,
    pub g: u8,
    pub b: u8,
}

/// The options a run of the emulator is started with.
pub struct Flags {
    /// Fill value of the display at start-up: 1 starts with every pixel lit.
    pub invert_colors: u8,
    /// Path of the program image, or of a saved state.
    pub rom_path: String,
    /// Instructions executed per second.
    pub hz: u64,
    /// Colour of lit pixels.
    pub fg: Rgb,
    /// Colour of dark pixels.
    pub bg: Rgb,
}

/// Splits a `0xRRGGBB` value into its three channels; bits above the low
/// 24 are ignored.
pub fn hex_to_rgb(hex: u32) -> (c: Rgb)
    ensures
        c.r == (hex / 0x10000) % 0x100,
        c.g == (hex / 0x100) % 0x100,
        c.b == hex % 0x100,
{
    Rgb { r: ((hex / 0x10000) % 0x100) as u8, g: ((hex / 0x100) % 0x100) as u8, b: (hex % 0x100) as u8 }
}

/// The value of ASCII digit `c` in base `radix` (10 or 16, either case for
/// hexadecimal letters), or -1 when `c` is no such digit.
pub open spec fn digit_value(c: u8, radix: int) -> int {
    let d = if 0x30 <= c <= 0x39 {
        c - 0x30
    } else if 0x61 <= c <= 0x66 {
        c - 0x61 + 10
    } else if 0x41 <= c <= 0x46 {
        c - 0x41 + 10
    } else {
        -1
    };
    if d < radix {
        d
    } else {
        -1
    }
}

/// Every byte of `s` is a digit in base `radix`.
pub open spec fn all_digits(s: Seq<u8>, radix: int) -> bool {
    forall|k: int| 0 <= k < s.len() ==> digit_value(#[trigger] s[k], radix) >= 0
}

/// The number that the digits `s` spell in base `radix`, most significant first.
pub open spec fn digits_value(s: Seq<u8>, radix: int) -> int
    decreases s.len(),
{
    if s.len() == 0 {
        0
    } else {
        digits_value(s.drop_last(), radix) * radix + digit_value(s.last(), radix)
    }
}

/// Adding digits never makes the number smaller.
proof fn lemma_digits_value_grows(s: Seq<u8>, radix: int, k: int)
    requires
        radix == 10 || radix == 16,
        all_digits(s, radix),
        0 <= k <= s.len(),
    ensures
        0 <= digits_value(s.subrange(0, k), radix) <= digits_value(s, radix),
    decreases s.len(),
{
    if k < s.len() {
        let init = s.drop_last();
        assert(init.subrange(0, k) =~= s.subrange(0, k));
        assert(all_digits(init, radix));
        lemma_digits_value_grows(init, radix, k);
        lemma_digits_value_grows(init, radix, init.len() as int);
        assert(init.subrange(0, init.len() as int) =~= init);
        assert(digit_value(s.last(), radix) >= 0);
        assert(digits_value(init, radix) * radix >= digits_value(init, radix)) by (nonlinear_arith)
            requires
                digits_value(init, radix) >= 0,
                radix >= 1,
        ;
    } else {
        assert(s.subrange(0, k) =~= s);
        if s.len() > 0 {
            let init = s.drop_last();
            assert(all_digits(init, radix));
            lemma_digits_value_grows(init, radix, init.len() as int);
            assert(init.subrange(0, init.len() as int) =~= init);
            assert(digit_value(s.last(), radix) >= 0);
            assert(digits_value(init, radix) * radix >= 0) by (nonlinear_arith)
                requires
                    digits_value(init, radix) >= 0,
                    radix >= 1,
            ;
        }
    }
}

/// Reads a non-empty run of digits in base `radix` (10 or 16): `Some`
/// exactly when every byte is a digit and the value fits in 64 bits.
fn parse_digits(s: &[u8], radix: u64) -> (r: Option<u64>)
    requires
        radix == 10 || radix == 16,
    ensures
        r is Some <==> (s@.len() > 0 && all_digits(s@, radix as int) && digits_value(
            s@,
            radix as int,
        ) <= u64::MAX),
        r matches Some(v) ==> v == digits_value(s@, radix as int),
{
    if s.len() == 0 {
        return None;
    }
    let mut value: u64 = 0;
    let mut k: usize = 0;
    while k < s.len()
        invariant
            radix == 10 || radix == 16,
            k <= s@.len(),
            all_digits(s@.subrange(0, k as int), radix as int),
            value == digits_value(s@.subrange(0, k as int), radix as int),
        decreases s@.len() - k,
    {
        let c = s[k];
        let d: u64 = if 0x30 <= c && c <= 0x39 {
            (c - 0x30) as u64
        } else if 0x61 <= c && c <= 0x66 {
            (c - 0x61 + 10) as u64
        } else if 0x41 <= c && c <= 0x46 {
            (c - 0x41 + 10) as u64
        } else {
            radix
        };
        if d >= radix {
            proof {
                assert(!all_digits(s@, radix as int)) by {
                    assert(digit_value(s@[k as int], radix as int) < 0);
                }
            }
            return None;
        }
        let ghost next = s@.subrange(0, k + 1);
        proof {
            assert(next.drop_last() =~= s@.subrange(0, k as int));
            assert(next.last() == c);
            assert forall|j: int| 0 <= j < next.len() implies digit_value(#[trigger] next[j], radix as int) >= 0 by {
                if j < k {
                    assert(next[j] == s@.subrange(0, k as int)[j]);
                }
            }
        }
        match value.checked_mul(radix) {
            Some(scaled) => match scaled.checked_add(d) {
                Some(v) => {
                    value = v;
                },
                None => {
                    proof {
                        assert(digits_value(next, radix as int) > u64::MAX);
                        too_large(s@, radix as int, k as int + 1);
                    }
                    return None;
                },
            },
            None => {
                proof {
                    assert(digits_value(next, radix as int) > u64::MAX) by (nonlinear_arith)
                        requires
                            value * radix > u64::MAX,
                            digits_value(next, radix as int) == value * radix + d,
                            d >= 0,
                    ;
                    too_large(s@, radix as int, k as int + 1);
                }
                return None;
            },
        }
        k = k + 1;
    }
    assert(s@.subrange(0, k as int) =~= s@);
    Some(value)
}

/// The digits of a number as written: everything after one optional
/// leading `+`.
pub open spec fn number_digits(s: Seq<u8>) -> Seq<u8> {
    if s.len() > 0 && s[0] == 0x2B {
        s.subrange(1, s.len() as int)
    } else {
        s
    }
}

/// Reads an unsigned number written in base `radix` (10 or 16), with an
/// optional leading `+`: `Some` exactly when what follows the sign is a
/// non-empty run of digits whose value fits in 64 bits.
pub fn parse_number(s: &[u8], radix: u64) -> (r: Option<u64>)
    requires
        radix == 10 || radix == 16,
    ensures
        r is Some <==> (number_digits(s@).len() > 0 && all_digits(number_digits(s@), radix as int)
            && digits_value(number_digits(s@), radix as int) <= u64::MAX),
        r matches Some(v) ==> v == digits_value(number_digits(s@), radix as int),
{
    if s.len() > 0 && s[0] == 0x2B {
        parse_digits(slice_subrange(s, 1, s.len()), radix)
    } else {
        parse_digits(s, radix)
    }
}

/// When a prefix of a digit string already exceeds 64 bits, either a later
/// byte is no digit or the whole string exceeds 64 bits too.
proof fn too_large(s: Seq<u8>, radix: int, k: int)
    requires
        radix == 10 || radix == 16,
        0 <= k <= s.len(),
        digits_value(s.subrange(0, k), radix) > u64::MAX,
    ensures
        !(all_digits(s, radix) && digits_value(s, radix) <= u64::MAX),
{
    if all_digits(s, radix) {
        lemma_digits_value_grows(s, radix, k);
    }
}

/// Reads a colour written as six hexadecimal digits `RRGGBB` (more
/// generally, any hexadecimal number that fits in 32 bits, of which the
/// low 24 bits count), optionally preceded by `+`.
pub fn parse_color(s: &str) -> (r: Option<Rgb>)
    ensures
        r is Some <==> (number_digits(s.spec_bytes()).len() > 0 && all_digits(
            number_digits(s.spec_bytes()),
            16,
        ) && digits_value(number_digits(s.spec_bytes()), 16) <= u32::MAX),
        r matches Some(c) ==> ({
            let v = digits_value(number_digits(s.spec_bytes()), 16);
            c.r == (v / 0x10000) % 0x100 && c.g == (v / 0x100) % 0x100 && c.b == v % 0x100
        }),
{
    match parse_number(s.as_bytes(), 16) {
        Some(v) => {
            if v > 0xFFFF_FFFF {
                None
            } else {
                Some(hex_to_rgb(v as u32))
            }
        },
        None => None,
    }
}

/// Reads an instruction rate written in decimal, optionally preceded by
/// `+`; `None` unless the digits are a non-empty run whose value is
/// positive and fits in 64 bits.
pub fn parse_hz(s: &str) -> (r: Option<u64>)
    ensures
        r is Some <==> (number_digits(s.spec_bytes()).len() > 0 && all_digits(
            number_digits(s.spec_bytes()),
            10,
        ) && 0 < digits_value(number_digits(s.spec_bytes()), 10) <= u64::MAX),
        r matches Some(v) ==> v == digits_value(number_digits(s.spec_bytes()), 10),
{
    match parse_number(s.as_bytes(), 10) {
        Some(v) => {
            if v == 0 {
                None
            } else {
                Some(v)
            }
        },
        None => None,
    }
}

} // verus!
