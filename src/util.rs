use vstd::prelude::*;
use vstd::string::StringSliceAdditionalSpecFns;

verus! {

/// A byte that may stand in an alpha field: printable ASCII but the digits.
pub open spec fn alpha_byte(c: u8) -> bool {
    (0x20 <= c && c <= 0x2f) || (0x3a <= c && c <= 0x7e)
}

/// A byte that may stand in an alpha/numeric field: printable ASCII.
pub open spec fn alphanum_byte(c: u8) -> bool {
    0x20 <= c && c <= 0x7e
}

pub open spec fn all_alpha(s: Seq<u8>) -> bool {
    forall|i: int| 0 <= i < s.len() ==> alpha_byte(#[trigger] s[i])
}

pub open spec fn all_alphanum(s: Seq<u8>) -> bool {
    forall|i: int| 0 <= i < s.len() ==> alphanum_byte(#[trigger] s[i])
}

pub open spec fn all_blank(s: Seq<u8>) -> bool {
    forall|i: int| 0 <= i < s.len() ==> #[trigger] s[i] == 0x20u8
}

/// `s` without its trailing blanks.
pub open spec fn trim_right_spaces_spec(s: Seq<u8>) -> Seq<u8>
    decreases s.len(),
{
    if s.len() == 0 {
        s
    } else if s.last() == 0x20u8 {
        trim_right_spaces_spec(s.drop_last())
    } else {
        s
    }
}

/// `s` without its leading `'0'` bytes.
pub open spec fn trim_leading_zeroes_spec(s: Seq<u8>) -> Seq<u8>
    decreases s.len(),
{
    if s.len() == 0 {
        s
    } else if s[0] == 0x30u8 {
        trim_leading_zeroes_spec(s.drop_first())
    } else {
        s
    }
}

/// `s` without its leading carriage returns.
pub open spec fn trim_left_cr(s: Seq<u8>) -> Seq<u8>
    decreases s.len(),
{
    if s.len() == 0 {
        s
    } else if s[0] == 0x0du8 {
        trim_left_cr(s.drop_first())
    } else {
        s
    }
}

/// `s` without its trailing carriage returns.
pub open spec fn trim_right_cr(s: Seq<u8>) -> Seq<u8>
    decreases s.len(),
{
    if s.len() == 0 {
        s
    } else if s.last() == 0x0du8 {
        trim_right_cr(s.drop_last())
    } else {
        s
    }
}

pub open spec fn is_digit(c: u8) -> bool {
    0x30 <= c && c <= 0x39
}

pub open spec fn all_digits(s: Seq<u8>) -> bool {
    forall|i: int| 0 <= i < s.len() ==> is_digit(#[trigger] s[i])
}

/// The decimal value of a run of digits.
pub open spec fn digits_value(s: Seq<u8>) -> nat
    decreases s.len(),
{
    if s.len() == 0 {
        0
    } else {
        digits_value(s.drop_last()) * 10 + (s.last() - 0x30u8) as nat
    }
}

/// The digits of an unsigned decimal number with an optional leading `'+'`.
pub open spec fn unsigned_digits(t: Seq<u8>) -> Seq<u8> {
    if t.len() > 0 && t[0] == 0x2bu8 {
        t.drop_first()
    } else {
        t
    }
}

/// The value of a zero-padded unsigned number no greater than `max`: no digits at
/// all after the leading zeroes read as zero.
pub open spec fn padded_number(s: Seq<u8>, max: nat) -> Option<nat> {
    let t = trim_leading_zeroes_spec(s);
    let d = unsigned_digits(t);
    if t.len() == 0 {
        Some(0)
    } else if d.len() > 0 && all_digits(d) && digits_value(d) <= max {
        Some(digits_value(d))
    } else {
        None
    }
}

/// A numeric field whose length lies in `[min_len, max_len]` and whose value lies in
/// `[lo, hi]`, with `max` the largest value of the field's type.
pub open spec fn number_field(s: Seq<u8>, min_len: nat, max_len: nat, lo: nat, hi: nat, max: nat) -> Option<nat> {
    if min_len <= s.len() <= max_len {
        match padded_number(s, max) {
            Some(v) => if lo <= v <= hi {
                Some(v)
            } else {
                None
            },
            None => None,
        }
    } else {
        None
    }
}

/// The bytes of a text field whose length, trailing blanks aside, lies in
/// `[min_len, max_len]`, and whose bytes are all alpha (or all alpha/numeric).
pub open spec fn text_field(s: Seq<u8>, min_len: nat, max_len: nat, alphanum: bool) -> Option<Seq<u8>> {
    let t = trim_right_spaces_spec(s);
    if min_len <= t.len() <= max_len && (if alphanum {
        all_alphanum(t)
    } else {
        all_alpha(t)
    }) {
        Some(t)
    } else {
        None
    }
}

/// The text a field parser returned, compared with the bytes it should hold.
pub open spec fn text_matches(r: Option<&str>, s: Option<Seq<u8>>) -> bool {
    match (r, s) {
        (Some(a), Some(b)) => a.spec_bytes() == b,
        (None, None) => true,
        _ => false,
    }
}

proof fn lemma_ascii_valid_utf8(s: Seq<u8>)
    requires
        forall|i: int| 0 <= i < s.len() ==> #[trigger] s[i] <= 0x7f,
    ensures
        vstd::utf8::valid_utf8(s),
    decreases s.len(),
{
    if s.len() != 0 {
        let rest = vstd::utf8::pop_first_scalar(s);
        assert(rest =~= s.subrange(1, s.len() as int));
        assert forall|i: int| 0 <= i < rest.len() implies #[trigger] rest[i] <= 0x7f by {
            assert(rest[i] == s[i + 1]);
        }
        lemma_ascii_valid_utf8(rest);
    }
}

/// Relies on std::str::from_utf8: it succeeds exactly on valid UTF-8 and then
/// returns a str over the same bytes.
#[verifier::external_body]
fn str_from_utf8(bytes: &[u8]) -> (r: Option<&str>)
    ensures
        r is Some <==> vstd::utf8::valid_utf8(bytes@),
        r is Some ==> r.unwrap().spec_bytes() == bytes@,
{
    std::str::from_utf8(bytes).ok()
}

/// True when every byte may stand in an alpha field.
pub fn is_alpha(bytes: &[u8]) -> (r: bool)
    ensures
        r == all_alpha(bytes@),
{
    let mut i: usize = 0;
    while i < bytes.len()
        invariant
            i <= bytes@.len(),
            forall|k: int| 0 <= k < i ==> alpha_byte(#[trigger] bytes@[k]),
        decreases bytes@.len() - i,
    {
        let c = bytes[i];
        if !((0x20 <= c && c <= 0x2f) || (0x3a <= c && c <= 0x7e)) {
            return false;
        }
        i += 1;
    }
    true
}

/// True when every byte may stand in an alpha/numeric field.
pub fn is_alphanum(bytes: &[u8]) -> (r: bool)
    ensures
        r == all_alphanum(bytes@),
{
    let mut i: usize = 0;
    while i < bytes.len()
        invariant
            i <= bytes@.len(),
            forall|k: int| 0 <= k < i ==> alphanum_byte(#[trigger] bytes@[k]),
        decreases bytes@.len() - i,
    {
        let c = bytes[i];
        if !(0x20 <= c && c <= 0x7e) {
            return false;
        }
        i += 1;
    }
    true
}

/// Drops the trailing blanks of a left-justified field.
pub fn trim_right_spaces(bytes: &[u8]) -> (r: &[u8])
    ensures
        r@ == trim_right_spaces_spec(bytes@),
{
    let mut end: usize = bytes.len();
    assert(bytes@.subrange(0, bytes@.len() as int) =~= bytes@);
    while end > 0 && bytes[end - 1] == 0x20u8
        invariant
            end <= bytes@.len(),
            trim_right_spaces_spec(bytes@) == trim_right_spaces_spec(bytes@.subrange(0, end as int)),
        decreases end,
    {
        assert(bytes@.subrange(0, end as int).drop_last() =~= bytes@.subrange(0, end - 1));
        end -= 1;
    }
    &bytes[0..end]
}

/// Drops the leading `'0'` bytes of a numeric field.
pub fn trim_leading_zeroes(bytes: &[u8]) -> (r: &[u8])
    ensures
        r@ == trim_leading_zeroes_spec(bytes@),
{
    let mut start: usize = 0;
    assert(bytes@.subrange(0, bytes@.len() as int) =~= bytes@);
    while start < bytes.len() && bytes[start] == 0x30u8
        invariant
            start <= bytes@.len(),
            trim_leading_zeroes_spec(bytes@) == trim_leading_zeroes_spec(
                bytes@.subrange(start as int, bytes@.len() as int),
            ),
        decreases bytes@.len() - start,
    {
        assert(bytes@.subrange(start as int, bytes@.len() as int).drop_first() =~= bytes@.subrange(
            start + 1,
            bytes@.len() as int,
        ));
        start += 1;
    }
    &bytes[start..bytes.len()]
}

/// Drops the carriage returns at both ends of a line.
pub fn trim_0d(bytes: &[u8]) -> (r: &[u8])
    ensures
        r@ == trim_left_cr(trim_right_cr(bytes@)),
{
    let mut end: usize = bytes.len();
    assert(bytes@.subrange(0, bytes@.len() as int) =~= bytes@);
    while end > 0 && bytes[end - 1] == 0x0du8
        invariant
            end <= bytes@.len(),
            trim_right_cr(bytes@) == trim_right_cr(bytes@.subrange(0, end as int)),
        decreases end,
    {
        assert(bytes@.subrange(0, end as int).drop_last() =~= bytes@.subrange(0, end - 1));
        end -= 1;
    }
    let ghost right = bytes@.subrange(0, end as int);
    let mut start: usize = 0;
    while start < end && bytes[start] == 0x0du8
        invariant
            start <= end <= bytes@.len(),
            right == bytes@.subrange(0, end as int),
            trim_left_cr(right) == trim_left_cr(bytes@.subrange(start as int, end as int)),
        decreases end - start,
    {
        assert(bytes@.subrange(start as int, end as int).drop_first() =~= bytes@.subrange(
            start + 1,
            end as int,
        ));
        start += 1;
    }
    &bytes[start..end]
}

/// Accepts a single blank byte.
pub fn parse_blank(blank: u8) -> (r: Option<()>)
    ensures
        r is Some <==> blank == 0x20u8,
{
    if blank == 0x20u8 {
        Some(())
    } else {
        None
    }
}

/// Accepts a blank field whose length lies in `[min_len, max_len]`.
pub fn parse_blank_arr(blank: &[u8], min_len: usize, max_len: usize) -> (r: Option<()>)
    ensures
        r is Some <==> (min_len <= blank@.len() <= max_len && all_blank(blank@)),
{
    if blank.len() < min_len || blank.len() > max_len {
        return None;
    }
    let mut i: usize = 0;
    while i < blank.len()
        invariant
            i <= blank@.len(),
            forall|k: int| 0 <= k < i ==> #[trigger] blank@[k] == 0x20u8,
        decreases blank@.len() - i,
    {
        if blank[i] != 0x20u8 {
            return None;
        }
        i += 1;
    }
    Some(())
}

fn parse_internal(bytes: &[u8], min_len: usize, max_len: usize, alphanum: bool) -> (r: Option<&str>)
    ensures
        text_matches(r, text_field(bytes@, min_len as nat, max_len as nat, alphanum)),
{
    let bytes = trim_right_spaces(bytes);
    if bytes.len() < min_len || bytes.len() > max_len {
        return None;
    }
    let ok = if alphanum {
        is_alphanum(bytes)
    } else {
        is_alpha(bytes)
    };
    if !ok {
        return None;
    }
    proof {
        assert forall|i: int| 0 <= i < bytes@.len() implies #[trigger] bytes@[i] <= 0x7f by {
            if alphanum {
                assert(alphanum_byte(bytes@[i]));
            } else {
                assert(alpha_byte(bytes@[i]));
            }
        }
        lemma_ascii_valid_utf8(bytes@);
    }
    str_from_utf8(bytes)
}

/// Reads an alpha field whose trimmed length lies in `[min_len, max_len]`.
pub fn parse_alpha(bytes: &[u8], min_len: usize, max_len: usize) -> (r: Option<&str>)
    ensures
        text_matches(r, text_field(bytes@, min_len as nat, max_len as nat, false)),
{
    parse_internal(bytes, min_len, max_len, false)
}

/// Reads an alpha/numeric field whose trimmed length lies in `[min_len, max_len]`.
pub fn parse_alphanum(bytes: &[u8], min_len: usize, max_len: usize) -> (r: Option<&str>)
    ensures
        text_matches(r, text_field(bytes@, min_len as nat, max_len as nat, true)),
{
    parse_internal(bytes, min_len, max_len, true)
}

proof fn lemma_digits_value_prefix(s: Seq<u8>, i: int, j: int)
    requires
        0 <= i <= j <= s.len(),
    ensures
        digits_value(s.subrange(0, i)) <= digits_value(s.subrange(0, j)),
    decreases j - i,
{
    if i < j {
        lemma_digits_value_prefix(s, i, j - 1);
        assert(s.subrange(0, j).drop_last() =~= s.subrange(0, j - 1));
    }
}

/// The value of a zero-padded unsigned number, `None` where it is malformed or
/// exceeds `max`.
fn parse_raw(bytes: &[u8], max: u64) -> (r: Option<u64>)
    requires
        max >= 9,
    ensures
        match padded_number(bytes@, max as nat) {
            Some(v) => r == Some(v as u64),
            None => r is None,
        },
{
    let t = trim_leading_zeroes(bytes);
    if t.len() == 0 {
        return Some(0);
    }
    let d: &[u8] = if t[0] == 0x2bu8 {
        &t[1..t.len()]
    } else {
        t
    };
    proof {
        assert(d@ =~= unsigned_digits(t@));
    }
    if d.len() == 0 {
        return None;
    }
    let mut i: usize = 0;
    while i < d.len()
        invariant
            i <= d@.len(),
            d@ == unsigned_digits(t@),
            t@ == trim_leading_zeroes_spec(bytes@),
            t@.len() > 0,
            forall|k: int| 0 <= k < i ==> is_digit(#[trigger] d@[k]),
        decreases d@.len() - i,
    {
        if !(0x30u8 <= d[i] && d[i] <= 0x39u8) {
            assert(!is_digit(d@[i as int]));
            return None;
        }
        i += 1;
    }
    let mut value: u64 = 0;
    let mut i: usize = 0;
    while i < d.len()
        invariant
            i <= d@.len(),
            all_digits(d@),
            d@.len() > 0,
            d@ == unsigned_digits(t@),
            t@ == trim_leading_zeroes_spec(bytes@),
            t@.len() > 0,
            value == digits_value(d@.subrange(0, i as int)),
            value <= max,
            max >= 9,
        decreases d@.len() - i,
    {
        let digit = (d[i] - 0x30u8) as u64;
        proof {
            assert(d@.subrange(0, i + 1).drop_last() =~= d@.subrange(0, i as int));
            assert(is_digit(d@[i as int]));
        }
        if value > (max - digit) / 10 {
            proof {
                assert(value * 10 + digit > max) by (nonlinear_arith)
                    requires
                        value > (max - digit) / 10,
                        digit <= 9,
                        max >= 9,
                ;
                lemma_digits_value_prefix(d@, i + 1, d@.len() as int);
                assert(d@.subrange(0, d@.len() as int) =~= d@);
            }
            return None;
        }
        value = value * 10 + digit;
        i += 1;
    }
    proof {
        assert(d@.subrange(0, d@.len() as int) =~= d@);
    }
    Some(value)
}

/// Reads a zero-padded `u8` field whose length lies in `[min_len, max_len]` and
/// whose value lies in `[lo, hi]`.
pub fn parse_num_u8(bytes: &[u8], min_len: usize, max_len: usize, lo: u8, hi: u8) -> (r: Option<u8>)
    ensures
        match number_field(bytes@, min_len as nat, max_len as nat, lo as nat, hi as nat, 255) {
            Some(v) => r == Some(v as u8),
            None => r is None,
        },
{
    if bytes.len() < min_len || bytes.len() > max_len {
        return None;
    }
    match parse_raw(bytes, 255) {
        Some(v) => if lo as u64 <= v && v <= hi as u64 {
            Some(v as u8)
        } else {
            None
        },
        None => None,
    }
}

/// Reads a zero-padded `u16` field whose length lies in `[min_len, max_len]` and
/// whose value lies in `[lo, hi]`.
pub fn parse_num_u16(bytes: &[u8], min_len: usize, max_len: usize, lo: u16, hi: u16) -> (r: Option<u16>)
    ensures
        match number_field(bytes@, min_len as nat, max_len as nat, lo as nat, hi as nat, 65535) {
            Some(v) => r == Some(v as u16),
            None => r is None,
        },
{
    if bytes.len() < min_len || bytes.len() > max_len {
        return None;
    }
    match parse_raw(bytes, 65535) {
        Some(v) => if lo as u64 <= v && v <= hi as u64 {
            Some(v as u16)
        } else {
            None
        },
        None => None,
    }
}

/// Reads a zero-padded `u32` field whose length lies in `[min_len, max_len]` and
/// whose value lies in `[lo, hi]`.
pub fn parse_num_u32(bytes: &[u8], min_len: usize, max_len: usize, lo: u32, hi: u32) -> (r: Option<u32>)
    ensures
        match number_field(bytes@, min_len as nat, max_len as nat, lo as nat, hi as nat, 4294967295) {
            Some(v) => r == Some(v as u32),
            None => r is None,
        },
{
    if bytes.len() < min_len || bytes.len() > max_len {
        return None;
    }
    match parse_raw(bytes, 4294967295) {
        Some(v) => if lo as u64 <= v && v <= hi as u64 {
            Some(v as u32)
        } else {
            None
        },
        None => None,
    }
}

/// The consecutive pairs of a cycle: each item with the next one, and the last
/// with the first.
pub fn cycling<T: Copy>(it: &[T]) -> (r: Vec<(T, T)>)
    ensures
        r@.len() == it@.len(),
        forall|k: int|
            0 <= k < it@.len() ==> #[trigger] r@[k] == (it@[k], it@[(k + 1) % (it@.len() as int)]),
{
    let mut r: Vec<(T, T)> = Vec::new();
    let n = it.len();
    let mut i: usize = 0;
    while i < n
        invariant
            n == it@.len(),
            i <= n,
            r@.len() == i,
            forall|k: int| 0 <= k < i ==> #[trigger] r@[k] == (it@[k], it@[(k + 1) % (n as int)]),
        decreases n - i,
    {
        let next = if i + 1 < n {
            i + 1
        } else {
            0
        };
        proof {
            if i + 1 < n {
                vstd::arithmetic::div_mod::lemma_small_mod((i + 1) as nat, n as nat);
            } else {
                vstd::arithmetic::div_mod::lemma_mod_self_0(n as int);
            }
        }
        r.push((it[i], it[next]));
        i += 1;
    }
    r
}

/// Ten to the power `n`.
pub open spec fn pow10(n: nat) -> nat
    decreases n,
{
    if n == 0 {
        1
    } else {
        10 * pow10((n - 1) as nat)
    }
}

proof fn lemma_digits_value_bound(s: Seq<u8>)
    requires
        all_digits(s),
    ensures
        digits_value(s) < pow10(s.len()),
    decreases s.len(),
{
    if s.len() > 0 {
        let p = s.drop_last();
        assert(all_digits(p)) by {
            assert forall|i: int| 0 <= i < p.len() implies is_digit(#[trigger] p[i]) by {
                assert(p[i] == s[i]);
            }
        }
        lemma_digits_value_bound(p);
        assert(is_digit(s[s.len() - 1]));
        let a = digits_value(p);
        let b = pow10(p.len());
        let d = (s.last() - 0x30u8) as nat;
        assert(a * 10 + d < 10 * b) by (nonlinear_arith)
            requires
                a < b,
                d <= 9,
        ;
    }
}

proof fn lemma_trim_leading_zeroes_len(s: Seq<u8>)
    ensures
        trim_leading_zeroes_spec(s).len() <= s.len(),
    decreases s.len(),
{
    if s.len() > 0 && s[0] == 0x30u8 {
        lemma_trim_leading_zeroes_len(s.drop_first());
    }
}

/// A number read from at most five bytes stays below a hundred thousand.
pub proof fn lemma_padded_number_bound(s: Seq<u8>, max: nat)
    requires
        s.len() <= 5,
        padded_number(s, max) is Some,
    ensures
        padded_number(s, max).unwrap() <= 99999,
{
    let t = trim_leading_zeroes_spec(s);
    let d = unsigned_digits(t);
    lemma_trim_leading_zeroes_len(s);
    if t.len() > 0 {
        lemma_digits_value_bound(d);
        assert(d.len() <= 5);
        assert(pow10(0) == 1);
        assert(pow10(1) == 10);
        assert(pow10(2) == 100);
        assert(pow10(3) == 1000);
        assert(pow10(4) == 10000);
        assert(pow10(5) == 100000);
        lemma_pow10_mono(d.len(), 5);
    }
}

proof fn lemma_pow10_mono(a: nat, b: nat)
    requires
        a <= b,
    ensures
        pow10(a) <= pow10(b),
    decreases b,
{
    if a < b {
        lemma_pow10_mono(a, (b - 1) as nat);
    }
}

} // verus!
