use vstd::prelude::*;
use vstd::string::*;

verus! {

broadcast use vstd::string::is_ascii_spec_bytes;

/// The value of a hexadecimal digit (either case), given its code point.
pub open spec fn hex_digit(c: u32) -> Option<u8> {
    if 0x30 <= c <= 0x39 {
        Some((c - 0x30) as u8)
    } else if 0x61 <= c <= 0x66 {
        Some((c - 0x61 + 10) as u8)
    } else if 0x41 <= c <= 0x46 {
        Some((c - 0x41 + 10) as u8)
    } else {
        None
    }
}

/// Hexadecimal text decoded two digits to a byte, high digit first; `None`
/// for an odd length or a character that is not a hex digit.
pub open spec fn hex_decode(s: Seq<char>) -> Option<Seq<u8>>
    decreases s.len(),
{
    if s.len() == 0 {
        Some(Seq::empty())
    } else if s.len() == 1 {
        None
    } else {
        match (hex_digit(s[0] as u32), hex_digit(s[1] as u32), hex_decode(s.subrange(2, s.len() as int))) {
            (Some(high), Some(low), Some(rest)) => Some(seq![(high * 16 + low) as u8] + rest),
            _ => None,
        }
    }
}

/// The lowercase hexadecimal digit for a value below sixteen.
pub open spec fn lower_hex_char(v: nat) -> char {
    if v < 10 {
        ((0x30 + v) as u32) as char
    } else {
        ((0x61 + v - 10) as u32) as char
    }
}

/// Bytes written as lowercase hexadecimal text, two digits per byte.
pub open spec fn hex_encode(b: Seq<u8>) -> Seq<char>
    decreases b.len(),
{
    if b.len() == 0 {
        Seq::empty()
    } else {
        seq![lower_hex_char(b[0] as nat / 16), lower_hex_char(b[0] as nat % 16)] + hex_encode(
            b.subrange(1, b.len() as int),
        )
    }
}

pub open spec fn is_hex_text(s: Seq<char>) -> bool {
    forall|i: int| 0 <= i < s.len() ==> (#[trigger] hex_digit(s[i] as u32)) is Some
}

pub open spec fn is_lower_hex_text(s: Seq<char>) -> bool {
    forall|i: int|
        0 <= i < s.len() ==> {
            let c = #[trigger] (s[i] as u32);
            (0x30 <= c <= 0x39) || (0x61 <= c <= 0x66)
        }
}

proof fn lemma_lower_hex_char(v: nat)
    requires
        v < 16,
    ensures
        hex_digit(lower_hex_char(v) as u32) == Some(v as u8),
        0x30 <= lower_hex_char(v) as u32 <= 0x39 || 0x61 <= lower_hex_char(v) as u32 <= 0x66,
{
}

proof fn lemma_hex_decode_odd_or_invalid(s: Seq<char>)
    requires
        s.len() % 2 == 1 || !is_hex_text(s),
    ensures
        hex_decode(s) is None,
    decreases s.len(),
{
    if s.len() >= 2 {
        let rest = s.subrange(2, s.len() as int);
        if hex_digit(s[0] as u32) is Some && hex_digit(s[1] as u32) is Some {
            if !is_hex_text(s) {
                let i = choose|i: int| 0 <= i < s.len() && !(hex_digit(s[i] as u32) is Some);
                assert(rest[i - 2] == s[i]);
            }
            lemma_hex_decode_odd_or_invalid(rest);
        }
    } else if s.len() == 0 {
        let i = choose|i: int| 0 <= i < s.len() && !(hex_digit(s[i] as u32) is Some);
    }
}

proof fn lemma_hex_text_rest(s: Seq<char>)
    requires
        s.len() >= 2,
        is_hex_text(s),
    ensures
        is_hex_text(s.subrange(2, s.len() as int)),
        hex_digit(s[0] as u32) is Some,
        hex_digit(s[1] as u32) is Some,
        is_lower_hex_text(s) ==> is_lower_hex_text(s.subrange(2, s.len() as int)),
{
    let rest = s.subrange(2, s.len() as int);
    assert(hex_digit(s[0] as u32) is Some);
    assert(hex_digit(s[1] as u32) is Some);
    assert forall|i: int| 0 <= i < rest.len() implies (#[trigger] hex_digit(rest[i] as u32)) is Some by {
        assert(rest[i] == s[i + 2]);
    }
    if is_lower_hex_text(s) {
        assert forall|i: int| 0 <= i < rest.len() implies {
            let c = #[trigger] (rest[i] as u32);
            (0x30 <= c <= 0x39) || (0x61 <= c <= 0x66)
        } by {
            assert(rest[i] == s[i + 2]);
        }
    }
}

proof fn lemma_decode_hex_text(s: Seq<char>)
    requires
        s.len() % 2 == 0,
        is_hex_text(s),
    ensures
        hex_decode(s) is Some,
        hex_decode(s)->0.len() * 2 == s.len(),
        is_lower_hex_text(s) ==> hex_encode(hex_decode(s)->0) == s,
    decreases s.len(),
{
    if s.len() >= 2 {
        let rest = s.subrange(2, s.len() as int);
        lemma_hex_text_rest(s);
        lemma_decode_hex_text(rest);
        if is_lower_hex_text(s) {
            let c0 = s[0] as u32;
            let c1 = s[1] as u32;
            assert(0x30 <= c0 <= 0x39 || 0x61 <= c0 <= 0x66);
            assert(0x30 <= c1 <= 0x39 || 0x61 <= c1 <= 0x66);
            let high = hex_digit(c0)->0;
            let low = hex_digit(c1)->0;
            let byte = (high * 16 + low) as u8;
            assert(byte as nat / 16 == high as nat);
            assert(byte as nat % 16 == low as nat);
            let decoded = hex_decode(s)->0;
            assert(decoded == seq![byte] + hex_decode(rest)->0);
            assert(decoded.subrange(1, decoded.len() as int) =~= hex_decode(rest)->0);
            assert(decoded[0] == byte);
            vstd::utf8::char_u32_cast(s[0], c0);
            vstd::utf8::char_u32_cast(s[1], c1);
            assert(hex_encode(decoded) == seq![lower_hex_char(byte as nat / 16), lower_hex_char(byte as nat % 16)] + hex_encode(decoded.subrange(1, decoded.len() as int)));
            assert(hex_encode(decoded) == seq![s[0], s[1]] + rest);
            assert(hex_encode(decoded) =~= s);
        }
    }
}

proof fn lemma_decode_encoded(b: Seq<u8>)
    ensures
        hex_decode(hex_encode(b)) == Some(b),
    decreases b.len(),
{
    if b.len() > 0 {
        let tail = b.subrange(1, b.len() as int);
        lemma_decode_encoded(tail);
        let e = hex_encode(b);
        lemma_lower_hex_char(b[0] as nat / 16);
        lemma_lower_hex_char(b[0] as nat % 16);
        assert(e.subrange(2, e.len() as int) =~= hex_encode(tail));
        assert(((b[0] as nat / 16) * 16 + b[0] as nat % 16) as u8 == b[0]);
        assert(seq![b[0]] + tail =~= b);
    }
}

/// Even-length hexadecimal text decodes to half as many bytes, which encode
/// back to the same text when it was written in lowercase; and any bytes,
/// once encoded, decode back to themselves. Odd-length text, or text with a
/// character that is not a hex digit, never decodes.
pub proof fn hex_round_trip(s: Seq<char>, b: Seq<u8>)
    ensures
        s.len() % 2 == 0 && is_hex_text(s) ==> hex_decode(s) is Some && hex_decode(s)->0.len() * 2
            == s.len(),
        s.len() % 2 == 0 && is_lower_hex_text(s) ==> hex_decode(s) is Some && hex_encode(
            hex_decode(s)->0,
        ) == s,
        hex_decode(hex_encode(b)) == Some(b),
        s.len() % 2 == 1 || !is_hex_text(s) ==> hex_decode(s) is None,
{
    if s.len() % 2 == 1 || !is_hex_text(s) {
        lemma_hex_decode_odd_or_invalid(s);
    }
    if s.len() % 2 == 0 && is_lower_hex_text(s) {
        assert(is_hex_text(s)) by {
            assert forall|i: int| 0 <= i < s.len() implies (#[trigger] hex_digit(s[i] as u32)) is Some by {
                let c = s[i] as u32;
                assert((0x30 <= c <= 0x39) || (0x61 <= c <= 0x66));
            }
        }
    }
    if s.len() % 2 == 0 && is_hex_text(s) {
        lemma_decode_hex_text(s);
    }
    lemma_decode_encoded(b);
}

fn hex_value(c: u8) -> (r: Option<u8>)
    ensures
        r == hex_digit(c as u32),
{
    if 0x30 <= c && c <= 0x39 {
        Some(c - 0x30)
    } else if 0x61 <= c && c <= 0x66 {
        Some(c - 0x61 + 10)
    } else if 0x41 <= c && c <= 0x46 {
        Some(c - 0x41 + 10)
    } else {
        None
    }
}

proof fn lemma_non_ascii_not_hex(s: Seq<char>)
    requires
        !vstd::utf8::is_ascii_chars(s),
    ensures
        !is_hex_text(s),
{
    if is_hex_text(s) {
        assert forall|i: int| 0 <= i < s.len() implies '\0' <= #[trigger] s[i] <= '\u{7f}' by {
            let c = s[i] as u32;
            assert(hex_digit(c) is Some);
            vstd::utf8::char_u32_cast(s[i], c);
        }
    }
}

/// Decodes hexadecimal text two digits at a time into bytes.
pub fn decode_bytes_from_string(s: &str) -> (r: Result<Vec<u8>, ()>)
    ensures
        r is Ok <==> hex_decode(s@) is Some,
        r is Ok ==> r->Ok_0@ == hex_decode(s@)->0,
{
    if !s.is_ascii() {
        proof {
            lemma_non_ascii_not_hex(s@);
            lemma_hex_decode_odd_or_invalid(s@);
        }
        return Err(());
    }
    let bytes = s.as_bytes();
    let n: usize = bytes.len();
    assert(bytes@ == s.spec_bytes());
    assert(bytes@.len() == s@.len());
    if n % 2 == 1 {
        proof {
            lemma_hex_decode_odd_or_invalid(s@);
        }
        return Err(());
    }
    let mut out: Vec<u8> = Vec::new();
    let mut i: usize = 0;
    assert(s@.subrange(0, n as int) =~= s@);
    proof {
        if let Some(rest) = hex_decode(s@) {
            assert(out@ + rest =~= rest);
        }
    }
    while i < n
        invariant
            n == s@.len(),
            bytes@ == s.spec_bytes(),
            i <= n,
            i % 2 == 0,
            n % 2 == 0,
            is_ascii(s),
            hex_decode(s@) == match hex_decode(s@.subrange(i as int, n as int)) {
                Some(rest) => Some(out@ + rest),
                None => None::<Seq<u8>>,
            },
        decreases n - i,
    {
        let ghost sub = s@.subrange(i as int, n as int);
        assert(bytes@[i as int] == s@[i as int] as u8);
        assert(bytes@[i + 1] == s@[i + 1] as u8);
        let high = hex_value(bytes[i]);
        let low = hex_value(bytes[i + 1]);
        assert(sub[0] == s@[i as int]);
        assert(sub[1] == s@[i + 1]);
        assert(sub.subrange(2, sub.len() as int) =~= s@.subrange(i + 2, n as int));
        match (high, low) {
            (Some(h), Some(l)) => {
                let byte: u8 = h * 16 + l;
                let ghost before = out@;
                out.push(byte);
                i = i + 2;
                proof {
                    match hex_decode(s@.subrange(i as int, n as int)) {
                        Some(rest) => {
                            assert(before + (seq![byte] + rest) =~= out@ + rest);
                        },
                        None => {},
                    }
                }
            },
            _ => {
                return Err(());
            },
        }
    }
    assert(s@.subrange(n as int, n as int) =~= Seq::<char>::empty());
    assert(out@ + Seq::<u8>::empty() =~= out@);
    Ok(out)
}

/// Decodes hexadecimal text two digits at a time into bytes.
pub fn decode_byte(s: String) -> (r: Result<Vec<u8>, ()>)
    ensures
        r is Ok <==> hex_decode(s@) is Some,
        r is Ok ==> r->Ok_0@ == hex_decode(s@)->0,
{
    decode_bytes_from_string(s.as_str())
}

} // verus!

verus! {

/// The value of the character with code `c` as a digit of `radix`: `0`-`9`,
/// then letters of either case from ten on.
pub open spec fn digit_value(c: u32, radix: nat) -> Option<nat> {
    let v: int = if 0x30 <= c <= 0x39 {
        c - 0x30
    } else if 0x61 <= c <= 0x7a {
        c - 0x61 + 10
    } else if 0x41 <= c <= 0x5a {
        c - 0x41 + 10
    } else {
        36
    };
    if v < radix {
        Some(v as nat)
    } else {
        None
    }
}

/// The number that the digits `s` write in `radix`, most significant first.
pub open spec fn digits_value(s: Seq<char>, radix: nat) -> Option<nat>
    decreases s.len(),
{
    if s.len() == 0 {
        Some(0)
    } else {
        match (digits_value(s.drop_last(), radix), digit_value(s.last() as u32, radix)) {
            (Some(v), Some(d)) => Some(v * radix + d),
            _ => None,
        }
    }
}

/// Text read as an unsigned 32-bit number in `radix` (2 to 36): an optional
/// `+`, then at least one digit, and a value that fits.
pub open spec fn parsed_u32(s: Seq<char>, radix: nat) -> Option<u32> {
    if radix < 2 || radix > 36 {
        None
    } else {
        let digits = if s.len() > 0 && s[0] == '+' {
            s.drop_first()
        } else {
            s
        };
        if digits.len() == 0 {
            None
        } else {
            match digits_value(digits, radix) {
                Some(v) => if v <= u32::MAX {
                    Some(v as u32)
                } else {
                    None
                },
                None => None,
            }
        }
    }
}

proof fn lemma_digits_prefix(s: Seq<char>, radix: nat, k: int)
    requires
        0 <= k <= s.len(),
        radix >= 1,
        digits_value(s, radix) is Some,
    ensures
        digits_value(s.subrange(0, k), radix) is Some,
        digits_value(s.subrange(0, k), radix)->0 <= digits_value(s, radix)->0,
    decreases s.len(),
{
    if k == s.len() {
        assert(s.subrange(0, k) =~= s);
    } else {
        let v = digits_value(s.drop_last(), radix)->0;
        lemma_digits_prefix(s.drop_last(), radix, k);
        assert(s.drop_last().subrange(0, k) =~= s.subrange(0, k));
        assert(v <= v * radix) by (nonlinear_arith)
            requires
                radix >= 1,
        ;
    }
}

proof fn lemma_digits_invalid(s: Seq<char>, radix: nat, i: int)
    requires
        0 <= i < s.len(),
        digit_value(s[i] as u32, radix) is None,
    ensures
        digits_value(s, radix) is None,
    decreases s.len(),
{
    if i < s.len() - 1 {
        assert(s.drop_last()[i] == s[i]);
        lemma_digits_invalid(s.drop_last(), radix, i);
    }
}

fn digit_of(c: u8, radix: u32) -> (r: Option<u32>)
    requires
        2 <= radix <= 36,
    ensures
        match digit_value(c as u32, radix as nat) {
            Some(v) => r == Some(v as u32),
            None => r is None,
        },
{
    let v: u32 = if 0x30 <= c && c <= 0x39 {
        (c - 0x30) as u32
    } else if 0x61 <= c && c <= 0x7a {
        (c - 0x61 + 10) as u32
    } else if 0x41 <= c && c <= 0x5a {
        (c - 0x41 + 10) as u32
    } else {
        36
    };
    if v < radix {
        Some(v)
    } else {
        None
    }
}

/// Reads `s` as an unsigned 32-bit number in `radix`: an optional `+`, then
/// digits `0`-`9` and letters of either case; `None` for an empty or
/// malformed text, a value that does not fit, or a radix outside 2 to 36.
pub fn parse_u32_radix(s: &str, radix: u32) -> (r: Option<u32>)
    ensures
        r == parsed_u32(s@, radix as nat),
{
    if radix < 2 || radix > 36 {
        return None;
    }
    let ghost digits = if s@.len() > 0 && s@[0] == '+' {
        s@.drop_first()
    } else {
        s@
    };
    if !s.is_ascii() {
        proof {
            assert(exists|i: int| 0 <= i < s@.len() && !('\0' <= #[trigger] s@[i] <= '\u{7f}'));
            let i = choose|i: int| 0 <= i < s@.len() && !('\0' <= #[trigger] s@[i] <= '\u{7f}');
            vstd::utf8::char_u32_cast(s@[i], s@[i] as u32);
            if s@.len() > 0 && s@[0] == '+' {
                assert(i != 0);
                assert(digits[i - 1] == s@[i]);
                lemma_digits_invalid(digits, radix as nat, i - 1);
            } else {
                lemma_digits_invalid(digits, radix as nat, i);
            }
        }
        return None;
    }
    let bytes = s.as_bytes();
    let n: usize = bytes.len();
    assert(bytes@ == s.spec_bytes());
    assert(bytes@.len() == s@.len());
    let start: usize = if n > 0 && bytes[0] == 0x2b {
        proof {
            vstd::utf8::char_u32_cast(s@[0], s@[0] as u32);
        }
        1
    } else {
        proof {
            if n > 0 {
                vstd::utf8::char_u32_cast(s@[0], s@[0] as u32);
            }
        }
        0
    };
    assert(digits =~= s@.subrange(start as int, n as int));
    if start == n {
        return None;
    }
    let mut value: u32 = 0;
    let mut i: usize = start;
    assert(s@.subrange(start as int, start as int) =~= Seq::<char>::empty());
    while i < n
        invariant
            start <= i <= n,
            n == s@.len(),
            bytes@ == s.spec_bytes(),
            is_ascii(s),
            2 <= radix <= 36,
            digits =~= s@.subrange(start as int, n as int),
            digits == (if s@.len() > 0 && s@[0] == '+' {
                s@.drop_first()
            } else {
                s@
            }),
            digits_value(s@.subrange(start as int, i as int), radix as nat) == Some(value as nat),
        decreases n - i,
    {
        assert(bytes@[i as int] == s@[i as int] as u8);
        proof {
            vstd::utf8::char_u32_cast(s@[i as int], s@[i as int] as u32);
            assert('\0' <= s@[i as int] <= '\u{7f}');
            assert((s@[i as int] as u32) <= 0x7f);
            assert((bytes@[i as int] as u32) == (s@[i as int] as u32));
        }
        let ghost prefix = s@.subrange(start as int, i + 1);
        assert(prefix.drop_last() =~= s@.subrange(start as int, i as int));
        assert(prefix.last() == s@[i as int]);
        match digit_of(bytes[i], radix) {
            None => {
                proof {
                    assert(digits[i - start] == s@[i as int]);
                    lemma_digits_invalid(digits, radix as nat, i - start);
                }
                return None;
            },
            Some(d) => {
                assert((value as u64) * (radix as u64) + (d as u64) <= 36 * 0xFFFF_FFFF + 36)
                    by (nonlinear_arith)
                    requires
                        value <= 0xFFFF_FFFF,
                        radix <= 36,
                        d < 36,
                ;
                let wide: u64 = (value as u64) * (radix as u64) + (d as u64);
                if wide > 0xFFFF_FFFF {
                    proof {
                        if digits_value(digits, radix as nat) is Some {
                            lemma_digits_prefix(digits, radix as nat, i + 1 - start);
                            assert(digits.subrange(0, i + 1 - start) =~= prefix);
                        }
                    }
                    return None;
                }
                value = wide as u32;
                i = i + 1;
            },
        }
    }
    assert(s@.subrange(start as int, n as int) =~= digits);
    Some(value)
}

/// The character of a decimal digit.
pub open spec fn decimal_char(d: nat) -> char {
    ((0x30 + d) as u32) as char
}

/// `n` written in decimal, without leading zeros.
pub open spec fn decimal(n: nat) -> Seq<char>
    decreases n,
{
    if n < 10 {
        seq![decimal_char(n)]
    } else {
        decimal(n / 10).push(decimal_char(n % 10))
    }
}

fn digit_text(d: usize) -> (r: &'static str)
    requires
        d < 10,
    ensures
        r@ == seq![decimal_char(d as nat)],
{
    proof {
        reveal_strlit("0");
        reveal_strlit("1");
        reveal_strlit("2");
        reveal_strlit("3");
        reveal_strlit("4");
        reveal_strlit("5");
        reveal_strlit("6");
        reveal_strlit("7");
        reveal_strlit("8");
        reveal_strlit("9");
    }
    if d == 0 {
        "0"
    } else if d == 1 {
        "1"
    } else if d == 2 {
        "2"
    } else if d == 3 {
        "3"
    } else if d == 4 {
        "4"
    } else if d == 5 {
        "5"
    } else if d == 6 {
        "6"
    } else if d == 7 {
        "7"
    } else if d == 8 {
        "8"
    } else {
        "9"
    }
}

/// `n` written in decimal.
pub fn decimal_string(n: usize) -> (r: String)
    ensures
        r@ == decimal(n as nat),
    decreases n,
{
    if n < 10 {
        String::from_str(digit_text(n))
    } else {
        let mut s = decimal_string(n / 10);
        s.append(digit_text(n % 10));
        s
    }
}

} // verus!
