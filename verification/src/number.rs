//! Integer text conversion with the standard library's `from_str` and
//! `from_str_radix` rules, and decimal rendering.
use vstd::prelude::*;

verus! {

/// Value of a digit character in radix 10 or 16 (either letter case).
pub open spec fn digit_val(c: char, radix: nat) -> Option<nat> {
    if '0' <= c <= '9' {
        Some((c as int - '0' as int) as nat)
    } else if radix == 16 && 'a' <= c <= 'f' {
        Some((c as int - 'a' as int + 10) as nat)
    } else if radix == 16 && 'A' <= c <= 'F' {
        Some((c as int - 'A' as int + 10) as nat)
    } else {
        None
    }
}

pub open spec fn all_digits(s: Seq<char>, radix: nat) -> bool {
    forall|i: int| 0 <= i < s.len() ==> (#[trigger] digit_val(s[i], radix)) is Some
}

/// The number that a string of digits denotes.
pub open spec fn digits_value(s: Seq<char>, radix: nat) -> nat
    decreases s.len(),
{
    if s.len() == 0 {
        0
    } else {
        digits_value(s.drop_last(), radix) * radix + digit_val(s.last(), radix).unwrap()
    }
}

/// The digits of an unsigned number: an optional leading `+` is dropped.
pub open spec fn unsigned_body(s: Seq<char>) -> Seq<char> {
    if s.len() > 0 && s[0] == '+' {
        s.drop_first()
    } else {
        s
    }
}

/// `from_str_radix` for an unsigned type whose largest value is `max`.
pub open spec fn parse_unsigned(s: Seq<char>, radix: nat, max: nat) -> Option<nat> {
    let b = unsigned_body(s);
    if b.len() > 0 && all_digits(b, radix) && digits_value(b, radix) <= max {
        Some(digits_value(b, radix))
    } else {
        None
    }
}

/// `from_str` for `i64`.
pub open spec fn parse_i64_spec(s: Seq<char>) -> Option<int> {
    if s.len() > 0 && s[0] == '-' {
        let b = s.drop_first();
        if b.len() > 0 && all_digits(b, 10) && digits_value(b, 10) <= 0x8000_0000_0000_0000 {
            Some(-(digits_value(b, 10) as int))
        } else {
            None
        }
    } else {
        match parse_unsigned(s, 10, 0x7fff_ffff_ffff_ffff) {
            Some(v) => Some(v as int),
            None => None,
        }
    }
}

proof fn lemma_digits_monotone(s: Seq<char>, radix: nat, k: int, j: int)
    requires
        0 <= k <= j <= s.len(),
        radix >= 1,
        all_digits(s, radix),
    ensures
        digits_value(s.subrange(0, k), radix) <= digits_value(s.subrange(0, j), radix),
    decreases j - k,
{
    if k < j {
        lemma_digits_monotone(s, radix, k, j - 1);
        assert(s.subrange(0, j).drop_last() == s.subrange(0, j - 1));
        let prev = digits_value(s.subrange(0, j - 1), radix);
        assert(prev * radix >= prev) by (nonlinear_arith)
            requires
                radix >= 1,
        ;
    }
}

fn digit_of(c: char, radix: u64) -> (r: Option<u64>)
    requires
        radix == 10 || radix == 16,
    ensures
        r matches Some(d) ==> digit_val(c, radix as nat) == Some(d as nat) && d < radix,
        r is None <==> digit_val(c, radix as nat) is None,
{
    if '0' <= c && c <= '9' {
        Some((c as u64) - ('0' as u64))
    } else if radix == 16 && 'a' <= c && c <= 'f' {
        Some((c as u64) - ('a' as u64) + 10)
    } else if radix == 16 && 'A' <= c && c <= 'F' {
        Some((c as u64) - ('A' as u64) + 10)
    } else {
        None
    }
}

/// The value of a nonempty run of digits, when every character is a digit and
/// the value is at most `max`.
fn parse_digits(s: &[char], radix: u64, max: u64) -> (r: Option<u64>)
    requires
        radix == 10 || radix == 16,
    ensures
        r matches Some(v) ==> s@.len() > 0 && all_digits(s@, radix as nat) && digits_value(
            s@,
            radix as nat,
        ) == v && v <= max,
        r is None <==> !(s@.len() > 0 && all_digits(s@, radix as nat) && digits_value(
            s@,
            radix as nat,
        ) <= max),
{
    if s.len() == 0 {
        return None;
    }
    let mut acc: u64 = 0;
    let mut i: usize = 0;
    assert(s@.subrange(0, 0) =~= Seq::<char>::empty());
    while i < s.len()
        invariant
            radix == 10 || radix == 16,
            i <= s@.len(),
            acc <= max,
            acc == digits_value(s@.subrange(0, i as int), radix as nat),
            forall|j: int| 0 <= j < i ==> (#[trigger] digit_val(s@[j], radix as nat)) is Some,
        decreases s@.len() - i,
    {
        let d = match digit_of(s[i], radix) {
            Some(d) => d,
            None => {
                return None;
            },
        };
        let ghost prefix = s@.subrange(0, i + 1);
        assert(prefix.drop_last() == s@.subrange(0, i as int));
        assert(prefix.last() == s@[i as int]);
        if d > max {
            proof {
                assert(acc * radix + d > max) by (nonlinear_arith)
                    requires
                        d > max,
                        radix > 0,
                ;
                if all_digits(s@, radix as nat) {
                    lemma_digits_monotone(s@, radix as nat, i + 1, s@.len() as int);
                    assert(s@.subrange(0, s@.len() as int) == s@);
                }
            }
            return None;
        }
        let q = (max - d) / radix;
        if acc > q {
            proof {
                assert(acc * radix + d > max) by (nonlinear_arith)
                    requires
                        acc > q,
                        q as int == (max as int - d as int) / (radix as int),
                        radix > 0,
                        d <= max,
                ;
                if all_digits(s@, radix as nat) {
                    lemma_digits_monotone(s@, radix as nat, i + 1, s@.len() as int);
                    assert(s@.subrange(0, s@.len() as int) == s@);
                }
            }
            return None;
        }
        assert(acc * radix + d <= max) by (nonlinear_arith)
            requires
                d <= max,
                acc <= q,
                q as int == (max as int - d as int) / (radix as int),
                radix > 0,
        ;
        acc = acc * radix + d;
        i = i + 1;
    }
    assert(s@.subrange(0, s@.len() as int) == s@);
    Some(acc)
}

/// `from_str_radix` for an unsigned type whose largest value is `max`
/// (radix 10 or 16).
pub fn parse_unsigned_chars(s: &[char], radix: u64, max: u64) -> (r: Option<u64>)
    requires
        radix == 10 || radix == 16,
    ensures
        r matches Some(v) ==> parse_unsigned(s@, radix as nat, max as nat) == Some(v as nat),
        r is None <==> parse_unsigned(s@, radix as nat, max as nat) is None,
{
    if s.len() > 0 && s[0] == '+' {
        let body = vstd::slice::slice_subrange(s, 1, s.len());
        assert(body@ == s@.drop_first());
        parse_digits(body, radix, max)
    } else {
        parse_digits(s, radix, max)
    }
}

/// `str::parse::<u32>`.
pub fn parse_u32(s: &[char]) -> (r: Option<u32>)
    ensures
        r matches Some(v) ==> parse_unsigned(s@, 10, u32::MAX as nat) == Some(v as nat),
        r is None <==> parse_unsigned(s@, 10, u32::MAX as nat) is None,
{
    match parse_unsigned_chars(s, 10, u32::MAX as u64) {
        Some(v) => Some(v as u32),
        None => None,
    }
}

/// `str::parse::<u64>`.
pub fn parse_u64(s: &[char]) -> (r: Option<u64>)
    ensures
        r matches Some(v) ==> parse_unsigned(s@, 10, u64::MAX as nat) == Some(v as nat),
        r is None <==> parse_unsigned(s@, 10, u64::MAX as nat) is None,
{
    parse_unsigned_chars(s, 10, u64::MAX)
}

/// `str::parse::<usize>`.
pub fn parse_usize(s: &[char]) -> (r: Option<usize>)
    ensures
        r matches Some(v) ==> parse_unsigned(s@, 10, usize::MAX as nat) == Some(v as nat),
        r is None <==> parse_unsigned(s@, 10, usize::MAX as nat) is None,
{
    match parse_unsigned_chars(s, 10, usize::MAX as u64) {
        Some(v) => Some(v as usize),
        None => None,
    }
}

/// `u32::from_str_radix(_, 16)`.
pub fn parse_hex_u32(s: &[char]) -> (r: Option<u32>)
    ensures
        r matches Some(v) ==> parse_unsigned(s@, 16, u32::MAX as nat) == Some(v as nat),
        r is None <==> parse_unsigned(s@, 16, u32::MAX as nat) is None,
{
    match parse_unsigned_chars(s, 16, u32::MAX as u64) {
        Some(v) => Some(v as u32),
        None => None,
    }
}

/// `str::parse::<i64>`.
pub fn parse_i64(s: &[char]) -> (r: Option<i64>)
    ensures
        r matches Some(v) ==> parse_i64_spec(s@) == Some(v as int),
        r is None <==> parse_i64_spec(s@) is None,
{
    if s.len() > 0 && s[0] == '-' {
        let body = vstd::slice::slice_subrange(s, 1, s.len());
        assert(body@ == s@.drop_first());
        match parse_digits(body, 10, 0x8000_0000_0000_0000u64) {
            Some(v) => {
                if v == 0x8000_0000_0000_0000u64 {
                    Some(i64::MIN)
                } else {
                    Some(-(v as i64))
                }
            },
            None => None,
        }
    } else {
        match parse_unsigned_chars(s, 10, 0x7fff_ffff_ffff_ffffu64) {
            Some(v) => Some(v as i64),
            None => None,
        }
    }
}

pub open spec fn digit_char(d: nat) -> char {
    (d + '0' as nat) as char
}

/// Decimal rendering of a number, as `Display` writes it.
pub open spec fn decimal(n: nat) -> Seq<char>
    decreases n,
{
    if n < 10 {
        seq![digit_char(n)]
    } else {
        decimal(n / 10) + seq![digit_char(n % 10)]
    }
}

/// Append the decimal rendering of `n` to `out`.
pub fn push_decimal(out: &mut Vec<char>, n: u64)
    ensures
        final(out)@ == old(out)@ + decimal(n as nat),
    decreases n,
{
    if n >= 10 {
        push_decimal(out, n / 10);
    }
    let d = (n % 10) as u8;
    let c = (d + 48) as char;
    assert(c == digit_char((n % 10) as nat));
    out.push(c);
}

/// A decimal rendering is a nonempty string of decimal digits that
/// denotes the number.
pub proof fn lemma_decimal_digits(n: nat)
    ensures
        decimal(n).len() > 0,
        all_digits(decimal(n), 10),
        digits_value(decimal(n), 10) == n,
        forall|i: int| 0 <= i < decimal(n).len() ==> '0' <= #[trigger] decimal(n)[i] <= '9',
    decreases n,
{
    let d = (n % 10) as nat;
    let c = digit_char(d);
    assert(digit_val(c, 10) == Some(d));
    if n >= 10 {
        lemma_decimal_digits(n / 10);
        let p = decimal(n / 10);
        let s = decimal(n);
        assert(s == p + seq![c]);
        assert(s.drop_last() == p);
        assert(s.last() == c);
        assert(digits_value(s, 10) == digits_value(p, 10) * 10 + d);
        assert((n / 10) * 10 + n % 10 == n);
        assert forall|i: int| 0 <= i < s.len() implies (#[trigger] digit_val(s[i], 10)) is Some by {
            if i < p.len() {
                assert(s[i] == p[i]);
            }
        }
        assert forall|i: int| 0 <= i < s.len() implies '0' <= #[trigger] s[i] <= '9' by {
            if i < p.len() {
                assert(s[i] == p[i]);
            }
        }
    } else {
        let s = decimal(n);
        assert(s == seq![c]);
        assert(s.drop_last() =~= Seq::<char>::empty());
        assert(s.last() == c);
        assert(digits_value(s.drop_last(), 10) == 0);
        assert(digits_value(s, 10) == d);
    }
}

/// Parsing a decimal rendering gives the number back.
pub proof fn lemma_parse_decimal(n: nat, max: nat)
    requires
        n <= max,
    ensures
        parse_unsigned(decimal(n), 10, max) == Some(n),
{
    lemma_decimal_digits(n);
    assert('0' <= decimal(n)[0] <= '9');
    assert(unsigned_body(decimal(n)) == decimal(n));
}

/// Decimal rendering of a signed number: a `-` before the magnitude when
/// negative, as `Display` writes it.
pub open spec fn signed_decimal(v: int) -> Seq<char> {
    if v < 0 {
        seq!['-'] + decimal((-v) as nat)
    } else {
        decimal(v as nat)
    }
}

/// Parsing a signed decimal rendering of an `i64` gives the number back.
pub proof fn lemma_parse_signed_decimal(v: i64)
    ensures
        parse_i64_spec(signed_decimal(v as int)) == Some(v as int),
{
    if v < 0 {
        let m = (-(v as int)) as nat;
        lemma_decimal_digits(m);
        let s = signed_decimal(v as int);
        assert(s.drop_first() == decimal(m));
    } else {
        lemma_decimal_digits(v as nat);
        assert('0' <= decimal(v as nat)[0] <= '9');
        lemma_parse_decimal(v as nat, 0x7fff_ffff_ffff_ffff);
    }
}

/// Lowercase hexadecimal digit.
pub open spec fn hex_digit_char(d: nat) -> char {
    if d < 10 {
        (d + '0' as nat) as char
    } else {
        ((d - 10) + 'a' as nat) as char
    }
}

/// Lowercase hexadecimal rendering without leading zeros, as `{:x}` writes it.
pub open spec fn lower_hex(n: nat) -> Seq<char>
    decreases n,
{
    if n < 16 {
        seq![hex_digit_char(n)]
    } else {
        lower_hex(n / 16) + seq![hex_digit_char(n % 16)]
    }
}

/// A run of `k` zero digits, as zero padding writes it.
pub open spec fn zeros(k: nat) -> Seq<char> {
    Seq::new(k, |i: int| '0')
}

/// Characters that may appear in a hexadecimal rendering.
pub open spec fn is_hex_char(c: char) -> bool {
    ('0' <= c <= '9') || ('a' <= c <= 'f')
}

proof fn lemma_lower_hex_digits(n: nat)
    ensures
        lower_hex(n).len() > 0,
        all_digits(lower_hex(n), 16),
        digits_value(lower_hex(n), 16) == n,
        forall|i: int| 0 <= i < lower_hex(n).len() ==> is_hex_char(#[trigger] lower_hex(n)[i]),
    decreases n,
{
    let d = (n % 16) as nat;
    let c = hex_digit_char(d);
    assert(digit_val(c, 16) == Some(d));
    if n >= 16 {
        lemma_lower_hex_digits(n / 16);
        let p = lower_hex(n / 16);
        let s = lower_hex(n);
        assert(s == p + seq![c]);
        assert(s.drop_last() == p);
        assert(digits_value(s, 16) == digits_value(p, 16) * 16 + d);
        assert((n / 16) * 16 + n % 16 == n);
        assert forall|i: int| 0 <= i < s.len() implies (#[trigger] digit_val(s[i], 16)) is Some by {
            if i < p.len() {
                assert(s[i] == p[i]);
            }
        }
        assert forall|i: int| 0 <= i < s.len() implies is_hex_char(#[trigger] s[i]) by {
            if i < p.len() {
                assert(s[i] == p[i]);
            }
        }
    } else {
        let s = lower_hex(n);
        assert(s == seq![c]);
        assert(s.drop_last() =~= Seq::<char>::empty());
        assert(digits_value(s.drop_last(), 16) == 0);
    }
}

proof fn lemma_zeros_value(k: nat, radix: nat)
    ensures
        all_digits(zeros(k), radix),
        digits_value(zeros(k), radix) == 0,
    decreases k,
{
    assert(digit_val('0', radix) == Some(0nat));
    if k > 0 {
        lemma_zeros_value((k - 1) as nat, radix);
        assert(zeros(k).drop_last() == zeros((k - 1) as nat));
    }
}

proof fn lemma_zero_padded_value(k: nat, d: Seq<char>, radix: nat)
    requires
        all_digits(d, radix),
    ensures
        all_digits(zeros(k) + d, radix),
        digits_value(zeros(k) + d, radix) == digits_value(d, radix),
    decreases d.len(),
{
    lemma_zeros_value(k, radix);
    let s = zeros(k) + d;
    assert forall|i: int| 0 <= i < s.len() implies (#[trigger] digit_val(s[i], radix)) is Some by {
        if i >= k {
            assert(s[i] == d[i - k]);
        }
    }
    if d.len() == 0 {
        assert(s == zeros(k));
    } else {
        let dl = d.drop_last();
        assert(all_digits(dl, radix)) by {
            assert forall|i: int| 0 <= i < dl.len() implies (#[trigger] digit_val(dl[i], radix)) is Some by {
                assert(dl[i] == d[i]);
            }
        }
        lemma_zero_padded_value(k, dl, radix);
        assert(s.drop_last() == zeros(k) + dl);
        assert(s.last() == d.last());
    }
}

/// Parsing a zero-padded lowercase hexadecimal rendering of a 32-bit value
/// gives the value back.
pub proof fn lemma_parse_padded_hex(k: nat, n: u32)
    ensures
        parse_unsigned(zeros(k) + lower_hex(n as nat), 16, u32::MAX as nat) == Some(n as nat),
        forall|i: int| 0 <= i < (zeros(k) + lower_hex(n as nat)).len()
            ==> is_hex_char(#[trigger] (zeros(k) + lower_hex(n as nat))[i]),
        (zeros(k) + lower_hex(n as nat)).len() > 0,
{
    let h = lower_hex(n as nat);
    let s = zeros(k) + h;
    lemma_lower_hex_digits(n as nat);
    lemma_zero_padded_value(k, h, 16);
    assert(is_hex_char(s[0])) by {
        if k == 0 {
            assert(s[0] == h[0]);
        }
    }
    assert(unsigned_body(s) == s);
    assert forall|i: int| 0 <= i < s.len() implies is_hex_char(#[trigger] s[i]) by {
        if i >= k {
            assert(s[i] == h[i - k]);
        }
    }
}

} // verus!
