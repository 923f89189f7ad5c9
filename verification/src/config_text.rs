//! Canonical textual form of a weight configuration.
//!
//! A configuration is exchanged with the persistent store as one JSON
//! object whose seven numeric fields are decimal numbers of pressure units
//! (respectively seconds for the decay period) with a six-digit fraction,
//! and whose timeout is a duration string in seconds. The renderer emits
//! exactly one spelling per value; the parser accepts exactly that
//! spelling, so a value round-trips through text unchanged, byte for byte.

use vstd::prelude::*;
use crate::pressure::clamp_u64;
use crate::weights::SpamConfig;

verus! {

/// Resolution of the fixed-point fields: micro-units per unit.
pub const MICRO: u64 = 1_000_000;

/// Whether `c` is a decimal digit.
pub open spec fn is_digit(c: char) -> bool {
    c == '0' || c == '1' || c == '2' || c == '3' || c == '4' || c == '5' || c == '6' || c == '7'
        || c == '8' || c == '9'
}

/// The numeric value of a digit character; ten on anything else.
pub open spec fn digit_of(c: char) -> int {
    if c == '0' {
        0
    } else if c == '1' {
        1
    } else if c == '2' {
        2
    } else if c == '3' {
        3
    } else if c == '4' {
        4
    } else if c == '5' {
        5
    } else if c == '6' {
        6
    } else if c == '7' {
        7
    } else if c == '8' {
        8
    } else if c == '9' {
        9
    } else {
        10
    }
}

/// The digit character of a value below ten.
pub open spec fn digit_char(d: int) -> char {
    if d == 0 {
        '0'
    } else if d == 1 {
        '1'
    } else if d == 2 {
        '2'
    } else if d == 3 {
        '3'
    } else if d == 4 {
        '4'
    } else if d == 5 {
        '5'
    } else if d == 6 {
        '6'
    } else if d == 7 {
        '7'
    } else if d == 8 {
        '8'
    } else {
        '9'
    }
}

/// The shortest decimal spelling of `n`.
pub open spec fn dec_digits(n: int) -> Seq<char>
    decreases n,
{
    if n < 10 {
        seq![digit_char(n)]
    } else {
        dec_digits(n / 10).push(digit_char(n % 10))
    }
}

/// The lowest `width` decimal digits of `n`, zero-padded.
pub open spec fn pad_digits(n: int, width: int) -> Seq<char>
    decreases width,
{
    if width <= 0 {
        Seq::empty()
    } else {
        pad_digits(n / 10, width - 1).push(digit_char(n % 10))
    }
}

/// The canonical spelling of a micro-unit quantity: the whole part, a
/// point, and the six-digit fraction.
pub open spec fn number_chars(v: u64) -> Seq<char> {
    dec_digits(v as int / MICRO as int) + seq!['.'] + pad_digits(v as int % MICRO as int, 6)
}

/// The canonical text of a whole configuration: one JSON object, fields in
/// declaration order, the timeout quoted as a duration in seconds.
pub open spec fn config_chars(c: SpamConfig) -> Seq<char> {
    "{\"base_pressure\":"@ + number_chars(c.base_pressure) + ",\"image_pressure\":"@
        + number_chars(c.image_pressure) + ",\"length_pressure\":"@ + number_chars(
        c.length_pressure,
    ) + ",\"line_pressure\":"@ + number_chars(c.line_pressure) + ",\"max_pressure\":"@
        + number_chars(c.max_pressure) + ",\"ping_pressure\":"@ + number_chars(c.ping_pressure)
        + ",\"pressure_decay\":"@ + number_chars(c.pressure_decay) + ",\"silence_timeout\":\""@
        + number_chars(c.silence_timeout) + "s\"}"@
}

/// Appends one digit character.
fn push_digit(out: &mut String, d: u64)
    requires
        d < 10,
    ensures
        final(out)@ == old(out)@ + seq![digit_char(d as int)],
{
    let s = match d {
        0 => "0",
        1 => "1",
        2 => "2",
        3 => "3",
        4 => "4",
        5 => "5",
        6 => "6",
        7 => "7",
        8 => "8",
        _ => "9",
    };
    proof {
        reveal_strlit("0");
        reveal_strlit("1");
        reveal_strlit("2");
        reveal_strlit("3");
        reveal_strlit("4");
        reveal_strlit("5");
        reveal_strlit("6");
        reveal_strlit("7");
        reveal_strlit("8");
        reveal_strlit("9");
    }
    out.append(s);
    proof {
        assert(final(out)@ =~= old(out)@ + seq![digit_char(d as int)]);
    }
}

/// Appends the shortest decimal spelling of `n`.
fn push_dec(out: &mut String, n: u64)
    ensures
        final(out)@ == old(out)@ + dec_digits(n as int),
    decreases n,
{
    if n >= 10 {
        push_dec(out, n / 10);
    }
    push_digit(out, n % 10);
    proof {
        assert(final(out)@ =~= old(out)@ + dec_digits(n as int));
    }
}

/// Appends the lowest `width` digits of `n`, zero-padded.
fn push_pad(out: &mut String, n: u64, width: u64)
    ensures
        final(out)@ == old(out)@ + pad_digits(n as int, width as int),
    decreases width,
{
    if width > 0 {
        push_pad(out, n / 10, width - 1);
        push_digit(out, n % 10);
    }
    proof {
        assert(final(out)@ =~= old(out)@ + pad_digits(n as int, width as int));
    }
}

/// Appends the canonical spelling of a micro-unit quantity.
fn push_number(out: &mut String, v: u64)
    ensures
        final(out)@ == old(out)@ + number_chars(v),
{
    push_dec(out, v / MICRO);
    proof {
        reveal_strlit(".");
    }
    out.append(".");
    push_pad(out, v % MICRO, 6);
    proof {
        assert(final(out)@ =~= old(out)@ + number_chars(v));
    }
}

/// Rejection of a configuration text: it is not the canonical form of any
/// configuration — a field is missing, misspelt, out of order, negative or
/// not a number of the canonical shape.
#[derive(Clone, Copy, Debug, PartialEq, Eq, Structural)]
pub struct ConfigParseError;

impl ConfigParseError {
    /// A short description of the failure.
    pub fn message(&self) -> (r: &'static str)
        ensures
            r@ == "not a canonical spam configuration"@,
    {
        "not a canonical spam configuration"
    }
}

/// The first position at or after `i` that does not hold a digit.
pub open spec fn digit_run_end(s: Seq<char>, i: int) -> int
    decreases s.len() - i,
{
    if i < 0 {
        i
    } else if i >= s.len() || !is_digit(s[i]) {
        i
    } else {
        digit_run_end(s, i + 1)
    }
}

/// The value of the digits `s[i..j)`, read as a decimal number.
pub open spec fn digits_val(s: Seq<char>, i: int, j: int) -> int
    decreases j - i,
{
    if i >= j {
        0
    } else {
        digits_val(s, i, j - 1) * 10 + digit_of(s[j - 1])
    }
}

/// A canonical number spelling for `v` fills `s[i..j)` and is not followed
/// by a further digit.
pub open spec fn number_at(s: Seq<char>, i: int, j: int, v: u64) -> bool {
    &&& 0 <= i <= j <= s.len()
    &&& s.subrange(i, j) == number_chars(v)
    &&& (j == s.len() || !is_digit(s[j]))
}

proof fn lemma_dec_digits_shape(n: int)
    requires
        n >= 0,
    ensures
        dec_digits(n).len() >= 1,
        forall|k: int| 0 <= k < dec_digits(n).len() ==> is_digit(#[trigger] dec_digits(n)[k]),
    decreases n,
{
    if n >= 10 {
        lemma_dec_digits_shape(n / 10);
    }
}

proof fn lemma_pad_digits_shape(n: int, w: int)
    requires
        n >= 0,
    ensures
        pad_digits(n, w).len() == if w >= 0 {
            w
        } else {
            0
        },
        forall|k: int| 0 <= k < pad_digits(n, w).len() ==> is_digit(#[trigger] pad_digits(n, w)[k]),
    decreases w,
{
    if w > 0 {
        lemma_pad_digits_shape(n / 10, w - 1);
    }
}

proof fn lemma_digits_val_dec(s: Seq<char>, i: int, j: int, n: int)
    requires
        n >= 0,
        0 <= i <= j <= s.len(),
        s.subrange(i, j) == dec_digits(n),
    ensures
        digits_val(s, i, j) == n,
    decreases n,
{
    lemma_dec_digits_shape(n);
    if n < 10 {
        assert(j - i == 1);
        assert(s[j - 1] == dec_digits(n)[0]);
        assert(digits_val(s, i, j) == digits_val(s, i, j - 1) * 10 + digit_of(s[j - 1]));
        assert(digits_val(s, i, j - 1) == 0);
    } else {
        assert(s.subrange(i, j - 1) =~= dec_digits(n / 10));
        lemma_digits_val_dec(s, i, j - 1, n / 10);
        assert(s[j - 1] == dec_digits(n)[j - 1 - i]);
        assert(digits_val(s, i, j) == digits_val(s, i, j - 1) * 10 + digit_of(s[j - 1]));
    }
}

proof fn lemma_digits_val_pad(s: Seq<char>, i: int, j: int, n: int, w: int)
    requires
        w >= 0,
        0 <= n < pow10(w),
        0 <= i <= j <= s.len(),
        s.subrange(i, j) == pad_digits(n, w),
    ensures
        digits_val(s, i, j) == n,
    decreases w,
{
    lemma_pad_digits_shape(n, w);
    if w == 0 {
        assert(n == 0);
    } else {
        assert(s.subrange(i, j - 1) =~= pad_digits(n / 10, w - 1));
        assert(n / 10 < pow10(w - 1)) by (nonlinear_arith)
            requires
                0 <= n < pow10(w),
                pow10(w) == 10 * pow10(w - 1),
                pow10(w - 1) >= 1,
        ;
        lemma_digits_val_pad(s, i, j - 1, n / 10, w - 1);
        assert(s[j - 1] == pad_digits(n, w)[j - 1 - i]);
    }
}

/// Ten to the `w`th power.
pub open spec fn pow10(w: int) -> int
    decreases w,
{
    if w <= 0 {
        1
    } else {
        10 * pow10(w - 1)
    }
}

proof fn lemma_pow10_pos(w: int)
    ensures
        pow10(w) >= 1,
    decreases w,
{
    if w > 0 {
        lemma_pow10_pos(w - 1);
    }
}

proof fn lemma_digits_val_nonneg(s: Seq<char>, i: int, j: int)
    ensures
        digits_val(s, i, j) >= 0,
    decreases j - i,
{
    if i < j {
        lemma_digits_val_nonneg(s, i, j - 1);
    }
}

proof fn lemma_digit_run(s: Seq<char>, i: int, j: int)
    requires
        0 <= i <= j <= s.len(),
        forall|k: int| i <= k < j ==> is_digit(s[k]),
        j == s.len() || !is_digit(s[j]),
    ensures
        digit_run_end(s, i) == j,
    decreases j - i,
{
    if i < j {
        lemma_digit_run(s, i + 1, j);
    }
}

/// The exact layout a canonical number occupies: the whole part's digits,
/// the point, then six fraction digits, with the recovered values.
proof fn lemma_number_shape(s: Seq<char>, i: int, j: int, v: u64)
    requires
        number_at(s, i, j, v),
    ensures
        ({
            let ip = v as int / MICRO as int;
            let l = dec_digits(ip).len() as int;
            &&& j == i + l + 7
            &&& i + l < s.len()
            &&& digit_run_end(s, i) == i + l
            &&& digits_val(s, i, i + l) == ip
            &&& s[i + l] == '.'
            &&& digit_run_end(s, i + l + 1) == j
            &&& digits_val(s, i + l + 1, j) == v as int % MICRO as int
        }),
{
    let ip = v as int / MICRO as int;
    let fr = v as int % MICRO as int;
    let l = dec_digits(ip).len() as int;
    lemma_dec_digits_shape(ip);
    lemma_pad_digits_shape(fr, 6);
    assert(number_chars(v).len() == l + 7);
    assert(s.subrange(i, i + l) =~= dec_digits(ip));
    assert(s[i + l] == number_chars(v)[l]);
    assert(!is_digit('.'));
    assert forall|k: int| i <= k < i + l implies is_digit(s[k]) by {
        assert(s[k] == dec_digits(ip)[k - i]);
    }
    lemma_digit_run(s, i, i + l);
    lemma_digits_val_dec(s, i, i + l, ip);
    assert forall|m: int| 0 <= m < 6 implies s[i + l + 1 + m] == pad_digits(fr, 6)[m] by {
        assert(s[i + l + 1 + m] == s.subrange(i, j)[l + 1 + m]);
        assert(number_chars(v)[l + 1 + m] == pad_digits(fr, 6)[m]);
    }
    assert(s.subrange(i + l + 1, j) =~= pad_digits(fr, 6));
    assert forall|k: int| i + l + 1 <= k < j implies is_digit(s[k]) by {
        assert(s[k] == pad_digits(fr, 6)[k - (i + l + 1)]);
    }
    lemma_digit_run(s, i + l + 1, j);
    assert(pow10(6) == 1_000_000) by {
        reveal_with_fuel(pow10, 8);
    }
    lemma_digits_val_pad(s, i + l + 1, j, fr, 6);
}

/// The numeric value of a digit character, if it is one.
fn char_digit(c: char) -> (r: Option<u64>)
    ensures
        r matches Some(d) ==> is_digit(c) && d == digit_of(c),
        r is None ==> !is_digit(c),
{
    match c {
        '0' => Some(0),
        '1' => Some(1),
        '2' => Some(2),
        '3' => Some(3),
        '4' => Some(4),
        '5' => Some(5),
        '6' => Some(6),
        '7' => Some(7),
        '8' => Some(8),
        '9' => Some(9),
        _ => None,
    }
}

/// Reads the maximal digit run starting at `i`; the value saturates, the
/// end position is exact.
fn scan_uint(s: &str, i: usize) -> (r: (u64, usize))
    requires
        i <= s@.len(),
    ensures
        i <= r.1 <= s@.len(),
        r.1 == digit_run_end(s@, i as int),
        r.0 == clamp_u64(digits_val(s@, i as int, r.1 as int)),
{
    let len = s.unicode_len();
    let mut k = i;
    let mut acc: u64 = 0;
    loop
        invariant
            i <= k <= len,
            len == s@.len(),
            forall|m: int| i <= m < k ==> is_digit(s@[m]),
            acc == clamp_u64(digits_val(s@, i as int, k as int)),
        ensures
            i <= k <= len,
            k == len || !is_digit(s@[k as int]),
            forall|m: int| i <= m < k ==> is_digit(s@[m]),
            acc == clamp_u64(digits_val(s@, i as int, k as int)),
        decreases len - k,
    {
        if k >= len {
            break ;
        }
        let c = s.get_char(k);
        match char_digit(c) {
            None => {
                break ;
            },
            Some(d) => {
                proof {
                    lemma_digits_val_nonneg(s@, i as int, k as int);
                }
                let step = crate::pressure::sat_mul(acc, 10);
                acc = crate::pressure::sat_add(step, d);
                k = k + 1;
            },
        }
    }
    proof {
        lemma_digit_run(s@, i as int, k as int);
    }
    (acc, k)
}

/// Reads one canonical number spelling starting at `i`.
fn parse_number_at(s: &str, i: usize) -> (r: Option<(u64, usize)>)
    requires
        i <= s@.len(),
    ensures
        r matches Some(p) ==> i <= p.1 <= s@.len(),
        forall|v: u64, j: int| #[trigger] number_at(s@, i as int, j, v) ==> r == Some(
            (v, j as usize),
        ),
{
    let len = s.unicode_len();
    let (ip, p1) = scan_uint(s, i);
    if p1 >= len {
        proof {
            assert forall|v: u64, j: int| number_at(s@, i as int, j, v) implies false by {
                lemma_number_shape(s@, i as int, j, v);
            }
        }
        return None;
    }
    if s.get_char(p1) != '.' {
        proof {
            assert forall|v: u64, j: int| number_at(s@, i as int, j, v) implies false by {
                lemma_number_shape(s@, i as int, j, v);
            }
        }
        return None;
    }
    let (fr, p2) = scan_uint(s, p1 + 1);
    if p2 - (p1 + 1) != 6 || fr >= MICRO {
        proof {
            assert forall|v: u64, j: int| number_at(s@, i as int, j, v) implies false by {
                lemma_number_shape(s@, i as int, j, v);
            }
        }
        return None;
    }
    let whole = crate::pressure::sat_mul(ip, MICRO);
    let v0 = crate::pressure::sat_add(whole, fr);
    proof {
        assert forall|v: u64, j: int| number_at(s@, i as int, j, v) implies (v0, p2) == (
        v,
        j as usize,
        ) by {
            lemma_number_shape(s@, i as int, j, v);
        }
    }
    Some((v0, p2))
}

/// Matches the exact characters of `lit` at position `i`.
fn match_lit(s: &str, i: usize, lit: &str) -> (r: Option<usize>)
    requires
        i <= s@.len(),
    ensures
        r matches Some(p) ==> i <= p <= s@.len() && p == i + lit@.len(),
        (i + lit@.len() <= s@.len() && s@.subrange(i as int, i + lit@.len()) == lit@) ==> r
            == Some((i + lit@.len()) as usize),
{
    let len = s.unicode_len();
    let lit_len = lit.unicode_len();
    if lit_len > len - i || i > len {
        return None;
    }
    let mut k: usize = 0;
    while k < lit_len
        invariant
            0 <= k <= lit_len,
            i + lit_len <= len,
            len == s@.len(),
            lit_len == lit@.len(),
            forall|m: int| 0 <= m < k ==> s@[i + m] == lit@[m],
        ensures
            k <= lit_len,
            k == lit_len || (i + lit_len <= s@.len() && s@[i + k] != lit@[k as int]),
            forall|m: int| 0 <= m < k ==> s@[i + m] == lit@[m],
        decreases lit_len - k,
    {
        if s.get_char(i + k) != lit.get_char(k) {
            break ;
        }
        k = k + 1;
    }
    if k == lit_len {
        Some(i + lit_len)
    } else {
        proof {
            if i + lit@.len() <= s@.len() && s@.subrange(i as int, i + lit@.len()) == lit@ {
                assert(s@[i + k] == s@.subrange(i as int, i + lit@.len())[k as int]);
            }
        }
        None
    }
}

/// How a canonical configuration text decomposes: each key literal and each
/// number stands at a fixed offset determined by the lengths of the numbers
/// before it.
pub open spec fn canonical_layout(s: Seq<char>, c: SpamConfig) -> bool {
    ({
            let t0 = "{\"base_pressure\":"@.len() as int;
            let u0 = t0 + number_chars(c.base_pressure).len();
            let t1 = u0 + ",\"image_pressure\":"@.len();
            let u1 = t1 + number_chars(c.image_pressure).len();
            let t2 = u1 + ",\"length_pressure\":"@.len();
            let u2 = t2 + number_chars(c.length_pressure).len();
            let t3 = u2 + ",\"line_pressure\":"@.len();
            let u3 = t3 + number_chars(c.line_pressure).len();
            let t4 = u3 + ",\"max_pressure\":"@.len();
            let u4 = t4 + number_chars(c.max_pressure).len();
            let t5 = u4 + ",\"ping_pressure\":"@.len();
            let u5 = t5 + number_chars(c.ping_pressure).len();
            let t6 = u5 + ",\"pressure_decay\":"@.len();
            let u6 = t6 + number_chars(c.pressure_decay).len();
            let t7 = u6 + ",\"silence_timeout\":\""@.len();
            let u7 = t7 + number_chars(c.silence_timeout).len();
            &&& s.len() == u7 + "s\"}"@.len()
            &&& s.subrange(0, t0) == "{\"base_pressure\":"@
            &&& number_at(s, t0, u0, c.base_pressure)
            &&& s.subrange(u0, t1) == ",\"image_pressure\":"@
            &&& number_at(s, t1, u1, c.image_pressure)
            &&& s.subrange(u1, t2) == ",\"length_pressure\":"@
            &&& number_at(s, t2, u2, c.length_pressure)
            &&& s.subrange(u2, t3) == ",\"line_pressure\":"@
            &&& number_at(s, t3, u3, c.line_pressure)
            &&& s.subrange(u3, t4) == ",\"max_pressure\":"@
            &&& number_at(s, t4, u4, c.max_pressure)
            &&& s.subrange(u4, t5) == ",\"ping_pressure\":"@
            &&& number_at(s, t5, u5, c.ping_pressure)
            &&& s.subrange(u5, t6) == ",\"pressure_decay\":"@
            &&& number_at(s, t6, u6, c.pressure_decay)
            &&& s.subrange(u6, t7) == ",\"silence_timeout\":\""@
            &&& number_at(s, t7, u7, c.silence_timeout)
            &&& s.subrange(u7, s.len() as int) == "s\"}"@
    })
}

#[verifier::rlimit(60)]
proof fn lemma_config_shape(s: Seq<char>, c: SpamConfig)
    requires
        s == config_chars(c),
    ensures
        canonical_layout(s, c),
{
    reveal_strlit("{\"base_pressure\":");
    reveal_strlit(",\"image_pressure\":");
    reveal_strlit(",\"length_pressure\":");
    reveal_strlit(",\"line_pressure\":");
    reveal_strlit(",\"max_pressure\":");
    reveal_strlit(",\"ping_pressure\":");
    reveal_strlit(",\"pressure_decay\":");
    reveal_strlit(",\"silence_timeout\":\"");
    reveal_strlit("s\"}");
    let t0 = "{\"base_pressure\":"@.len() as int;
    let u0 = t0 + number_chars(c.base_pressure).len();
    let t1 = u0 + ",\"image_pressure\":"@.len();
    let u1 = t1 + number_chars(c.image_pressure).len();
    let t2 = u1 + ",\"length_pressure\":"@.len();
    let u2 = t2 + number_chars(c.length_pressure).len();
    let t3 = u2 + ",\"line_pressure\":"@.len();
    let u3 = t3 + number_chars(c.line_pressure).len();
    let t4 = u3 + ",\"max_pressure\":"@.len();
    let u4 = t4 + number_chars(c.max_pressure).len();
    let t5 = u4 + ",\"ping_pressure\":"@.len();
    let u5 = t5 + number_chars(c.ping_pressure).len();
    let t6 = u5 + ",\"pressure_decay\":"@.len();
    let u6 = t6 + number_chars(c.pressure_decay).len();
    let t7 = u6 + ",\"silence_timeout\":\""@.len();
    let u7 = t7 + number_chars(c.silence_timeout).len();
    assert(s.subrange(0, t0) =~= "{\"base_pressure\":"@);
    assert(s.subrange(t0, u0) =~= number_chars(c.base_pressure));
    assert(s.subrange(u0, t1) =~= ",\"image_pressure\":"@);
    assert(s.subrange(t1, u1) =~= number_chars(c.image_pressure));
    assert(s.subrange(u1, t2) =~= ",\"length_pressure\":"@);
    assert(s.subrange(t2, u2) =~= number_chars(c.length_pressure));
    assert(s.subrange(u2, t3) =~= ",\"line_pressure\":"@);
    assert(s.subrange(t3, u3) =~= number_chars(c.line_pressure));
    assert(s.subrange(u3, t4) =~= ",\"max_pressure\":"@);
    assert(s.subrange(t4, u4) =~= number_chars(c.max_pressure));
    assert(s.subrange(u4, t5) =~= ",\"ping_pressure\":"@);
    assert(s.subrange(t5, u5) =~= number_chars(c.ping_pressure));
    assert(s.subrange(u5, t6) =~= ",\"pressure_decay\":"@);
    assert(s.subrange(t6, u6) =~= number_chars(c.pressure_decay));
    assert(s.subrange(u6, t7) =~= ",\"silence_timeout\":\""@);
    assert(s.subrange(t7, u7) =~= number_chars(c.silence_timeout));
    assert(s.subrange(u7, s.len() as int) =~= "s\"}"@);
    assert(s[u0] == ",\"image_pressure\":"@[0]);
    assert(s[u1] == ",\"length_pressure\":"@[0]);
    assert(s[u2] == ",\"line_pressure\":"@[0]);
    assert(s[u3] == ",\"max_pressure\":"@[0]);
    assert(s[u4] == ",\"ping_pressure\":"@[0]);
    assert(s[u5] == ",\"pressure_decay\":"@[0]);
    assert(s[u6] == ",\"silence_timeout\":\""@[0]);
    assert(s[u7] == "s\"}"@[0]);
}


/// The offset just past the fourth number in the canonical text of `c`.
pub open spec fn head_end(c: SpamConfig) -> nat {
    "{\"base_pressure\":"@.len() + number_chars(c.base_pressure).len()
        + ",\"image_pressure\":"@.len() + number_chars(c.image_pressure).len()
        + ",\"length_pressure\":"@.len() + number_chars(c.length_pressure).len()
        + ",\"line_pressure\":"@.len() + number_chars(c.line_pressure).len()
}

/// Reads the first half of a canonical configuration text: the opening
/// brace and the four fields up to `line_pressure`.
#[verifier::rlimit(100)]
#[verifier::spinoff_prover]
fn parse_head(s: &str) -> (r: Option<(u64, u64, u64, u64, usize)>)
    ensures
        r matches Some(x) ==> x.4 <= s@.len(),
        forall|c: SpamConfig|
            s@ == config_chars(c) ==> (r matches Some(x) && x.0 == c.base_pressure && x.1
                == c.image_pressure && x.2 == c.length_pressure && x.3 == c.line_pressure && x.4
                == head_end(c)),
{
    // learns that the character count fits a machine word, which the
    // position casts below depend on
    let _len = s.unicode_len();
    proof {
        assert forall|c: SpamConfig| s@ == config_chars(c) implies canonical_layout(s@, c) by {
            lemma_config_shape(s@, c);
        }
    }
    let p0 = match match_lit(s, 0, "{\"base_pressure\":") {
        Some(p) => p,
        None => {
            proof {
                assert forall|c: SpamConfig| s@ == config_chars(c) implies false by {
                    assert(canonical_layout(s@, c));
                }
            }
            return None;
        },
    };
    let (base_pressure, p1) = match parse_number_at(s, p0) {
        Some(x) => x,
        None => {
            proof {
                assert forall|c: SpamConfig| s@ == config_chars(c) implies false by {
                    assert(canonical_layout(s@, c));
                    assert(number_at(s@, p0 as int, p0 + number_chars(c.base_pressure).len(), c.base_pressure));
                }
            }
            return None;
        },
    };
    let p2 = match match_lit(s, p1, ",\"image_pressure\":") {
        Some(p) => p,
        None => {
            proof {
                assert forall|c: SpamConfig| s@ == config_chars(c) implies false by {
                    assert(canonical_layout(s@, c));
                    assert(number_at(s@, p0 as int, p0 + number_chars(c.base_pressure).len(), c.base_pressure));
                }
            }
            return None;
        },
    };
    let (image_pressure, p3) = match parse_number_at(s, p2) {
        Some(x) => x,
        None => {
            proof {
                assert forall|c: SpamConfig| s@ == config_chars(c) implies false by {
                    assert(canonical_layout(s@, c));
                    assert(number_at(s@, p0 as int, p0 + number_chars(c.base_pressure).len(), c.base_pressure));
                    assert(number_at(s@, p2 as int, p2 + number_chars(c.image_pressure).len(), c.image_pressure));
                }
            }
            return None;
        },
    };
    let p4 = match match_lit(s, p3, ",\"length_pressure\":") {
        Some(p) => p,
        None => {
            proof {
                assert forall|c: SpamConfig| s@ == config_chars(c) implies false by {
                    assert(canonical_layout(s@, c));
                    assert(number_at(s@, p0 as int, p0 + number_chars(c.base_pressure).len(), c.base_pressure));
                    assert(number_at(s@, p2 as int, p2 + number_chars(c.image_pressure).len(), c.image_pressure));
                }
            }
            return None;
        },
    };
    let (length_pressure, p5) = match parse_number_at(s, p4) {
        Some(x) => x,
        None => {
            proof {
                assert forall|c: SpamConfig| s@ == config_chars(c) implies false by {
                    assert(canonical_layout(s@, c));
                    assert(number_at(s@, p0 as int, p0 + number_chars(c.base_pressure).len(), c.base_pressure));
                    assert(number_at(s@, p2 as int, p2 + number_chars(c.image_pressure).len(), c.image_pressure));
                    assert(number_at(s@, p4 as int, p4 + number_chars(c.length_pressure).len(), c.length_pressure));
                }
            }
            return None;
        },
    };
    let p6 = match match_lit(s, p5, ",\"line_pressure\":") {
        Some(p) => p,
        None => {
            proof {
                assert forall|c: SpamConfig| s@ == config_chars(c) implies false by {
                    assert(canonical_layout(s@, c));
                    assert(number_at(s@, p0 as int, p0 + number_chars(c.base_pressure).len(), c.base_pressure));
                    assert(number_at(s@, p2 as int, p2 + number_chars(c.image_pressure).len(), c.image_pressure));
                    assert(number_at(s@, p4 as int, p4 + number_chars(c.length_pressure).len(), c.length_pressure));
                }
            }
            return None;
        },
    };
    let (line_pressure, p7) = match parse_number_at(s, p6) {
        Some(x) => x,
        None => {
            proof {
                assert forall|c: SpamConfig| s@ == config_chars(c) implies false by {
                    assert(canonical_layout(s@, c));
                    assert(number_at(s@, p0 as int, p0 + number_chars(c.base_pressure).len(), c.base_pressure));
                    assert(number_at(s@, p2 as int, p2 + number_chars(c.image_pressure).len(), c.image_pressure));
                    assert(number_at(s@, p4 as int, p4 + number_chars(c.length_pressure).len(), c.length_pressure));
                    assert(number_at(s@, p6 as int, p6 + number_chars(c.line_pressure).len(), c.line_pressure));
                }
            }
            return None;
        },
    };
    proof {
        assert forall|c: SpamConfig| s@ == config_chars(c) implies p7 == head_end(c) by {
            assert(canonical_layout(s@, c));
            assert(number_at(s@, p0 as int, p0 + number_chars(c.base_pressure).len(), c.base_pressure));
            assert(number_at(s@, p2 as int, p2 + number_chars(c.image_pressure).len(), c.image_pressure));
            assert(number_at(s@, p4 as int, p4 + number_chars(c.length_pressure).len(), c.length_pressure));
            assert(number_at(s@, p6 as int, p6 + number_chars(c.line_pressure).len(), c.line_pressure));
        }
    }
    Some((base_pressure, image_pressure, length_pressure, line_pressure, p7))
}

/// Reads the second half of a canonical configuration text from `start`:
/// the four fields from `max_pressure` on, the closing of the quoted
/// timeout, and the end of the text.
#[verifier::rlimit(100)]
#[verifier::spinoff_prover]
fn parse_tail(s: &str, start: usize) -> (r: Option<(u64, u64, u64, u64)>)
    requires
        start <= s@.len(),
    ensures
        forall|c: SpamConfig|
            s@ == config_chars(c) && start == head_end(c) ==> r == Some(
                (c.max_pressure, c.ping_pressure, c.pressure_decay, c.silence_timeout),
            ),
{
    proof {
        assert forall|c: SpamConfig| s@ == config_chars(c) implies canonical_layout(s@, c) by {
            lemma_config_shape(s@, c);
        }
    }
    let len = s.unicode_len();
    let q0 = match match_lit(s, start, ",\"max_pressure\":") {
        Some(p) => p,
        None => {
            proof {
                assert forall|c: SpamConfig|
                    s@ == config_chars(c) && start == head_end(c) implies false by {
                    assert(canonical_layout(s@, c));
                }
            }
            return None;
        },
    };
    let (max_pressure, q1) = match parse_number_at(s, q0) {
        Some(x) => x,
        None => {
            proof {
                assert forall|c: SpamConfig|
                    s@ == config_chars(c) && start == head_end(c) implies false by {
                    assert(canonical_layout(s@, c));
                    assert(number_at(s@, q0 as int, q0 + number_chars(c.max_pressure).len(), c.max_pressure));
                }
            }
            return None;
        },
    };
    let q2 = match match_lit(s, q1, ",\"ping_pressure\":") {
        Some(p) => p,
        None => {
            proof {
                assert forall|c: SpamConfig|
                    s@ == config_chars(c) && start == head_end(c) implies false by {
                    assert(canonical_layout(s@, c));
                    assert(number_at(s@, q0 as int, q0 + number_chars(c.max_pressure).len(), c.max_pressure));
                }
            }
            return None;
        },
    };
    let (ping_pressure, q3) = match parse_number_at(s, q2) {
        Some(x) => x,
        None => {
            proof {
                assert forall|c: SpamConfig|
                    s@ == config_chars(c) && start == head_end(c) implies false by {
                    assert(canonical_layout(s@, c));
                    assert(number_at(s@, q0 as int, q0 + number_chars(c.max_pressure).len(), c.max_pressure));
                    assert(number_at(s@, q2 as int, q2 + number_chars(c.ping_pressure).len(), c.ping_pressure));
                }
            }
            return None;
        },
    };
    let q4 = match match_lit(s, q3, ",\"pressure_decay\":") {
        Some(p) => p,
        None => {
            proof {
                assert forall|c: SpamConfig|
                    s@ == config_chars(c) && start == head_end(c) implies false by {
                    assert(canonical_layout(s@, c));
                    assert(number_at(s@, q0 as int, q0 + number_chars(c.max_pressure).len(), c.max_pressure));
                    assert(number_at(s@, q2 as int, q2 + number_chars(c.ping_pressure).len(), c.ping_pressure));
                }
            }
            return None;
        },
    };
    let (pressure_decay, q5) = match parse_number_at(s, q4) {
        Some(x) => x,
        None => {
            proof {
                assert forall|c: SpamConfig|
                    s@ == config_chars(c) && start == head_end(c) implies false by {
                    assert(canonical_layout(s@, c));
                    assert(number_at(s@, q0 as int, q0 + number_chars(c.max_pressure).len(), c.max_pressure));
                    assert(number_at(s@, q2 as int, q2 + number_chars(c.ping_pressure).len(), c.ping_pressure));
                    assert(number_at(s@, q4 as int, q4 + number_chars(c.pressure_decay).len(), c.pressure_decay));
                }
            }
            return None;
        },
    };
    let q6 = match match_lit(s, q5, ",\"silence_timeout\":\"") {
        Some(p) => p,
        None => {
            proof {
                assert forall|c: SpamConfig|
                    s@ == config_chars(c) && start == head_end(c) implies false by {
                    assert(canonical_layout(s@, c));
                    assert(number_at(s@, q0 as int, q0 + number_chars(c.max_pressure).len(), c.max_pressure));
                    assert(number_at(s@, q2 as int, q2 + number_chars(c.ping_pressure).len(), c.ping_pressure));
                    assert(number_at(s@, q4 as int, q4 + number_chars(c.pressure_decay).len(), c.pressure_decay));
                }
            }
            return None;
        },
    };
    let (silence_timeout, q7) = match parse_number_at(s, q6) {
        Some(x) => x,
        None => {
            proof {
                assert forall|c: SpamConfig|
                    s@ == config_chars(c) && start == head_end(c) implies false by {
                    assert(canonical_layout(s@, c));
                    assert(number_at(s@, q0 as int, q0 + number_chars(c.max_pressure).len(), c.max_pressure));
                    assert(number_at(s@, q2 as int, q2 + number_chars(c.ping_pressure).len(), c.ping_pressure));
                    assert(number_at(s@, q4 as int, q4 + number_chars(c.pressure_decay).len(), c.pressure_decay));
                    assert(number_at(s@, q6 as int, q6 + number_chars(c.silence_timeout).len(), c.silence_timeout));
                }
            }
            return None;
        },
    };
    let q8 = match match_lit(s, q7, "s\"}") {
        Some(p) => p,
        None => {
            proof {
                assert forall|c: SpamConfig|
                    s@ == config_chars(c) && start == head_end(c) implies false by {
                    assert(canonical_layout(s@, c));
                    assert(number_at(s@, q0 as int, q0 + number_chars(c.max_pressure).len(), c.max_pressure));
                    assert(number_at(s@, q2 as int, q2 + number_chars(c.ping_pressure).len(), c.ping_pressure));
                    assert(number_at(s@, q4 as int, q4 + number_chars(c.pressure_decay).len(), c.pressure_decay));
                    assert(number_at(s@, q6 as int, q6 + number_chars(c.silence_timeout).len(), c.silence_timeout));
                }
            }
            return None;
        },
    };
    if q8 != len {
        proof {
            assert forall|c: SpamConfig|
                s@ == config_chars(c) && start == head_end(c) implies false by {
                assert(canonical_layout(s@, c));
                assert(number_at(s@, q0 as int, q0 + number_chars(c.max_pressure).len(), c.max_pressure));
                assert(number_at(s@, q2 as int, q2 + number_chars(c.ping_pressure).len(), c.ping_pressure));
                assert(number_at(s@, q4 as int, q4 + number_chars(c.pressure_decay).len(), c.pressure_decay));
                assert(number_at(s@, q6 as int, q6 + number_chars(c.silence_timeout).len(), c.silence_timeout));
            }
        }
        return None;
    }
    proof {
        assert forall|c: SpamConfig|
            s@ == config_chars(c) && start == head_end(c) implies (
        max_pressure,
        ping_pressure,
        pressure_decay,
        silence_timeout,
        ) == (c.max_pressure, c.ping_pressure, c.pressure_decay, c.silence_timeout) by {
            assert(canonical_layout(s@, c));
                assert(number_at(s@, q0 as int, q0 + number_chars(c.max_pressure).len(), c.max_pressure));
                assert(number_at(s@, q2 as int, q2 + number_chars(c.ping_pressure).len(), c.ping_pressure));
                assert(number_at(s@, q4 as int, q4 + number_chars(c.pressure_decay).len(), c.pressure_decay));
                assert(number_at(s@, q6 as int, q6 + number_chars(c.silence_timeout).len(), c.silence_timeout));
        }
    }
    Some((max_pressure, ping_pressure, pressure_decay, silence_timeout))
}

/// Reads a whole canonical configuration text, and nothing else: on the
/// canonical text of any configuration it recovers exactly that
/// configuration.
fn parse_core(s: &str) -> (r: Option<SpamConfig>)
    ensures
        forall|c: SpamConfig| s@ == config_chars(c) ==> r == Some(c),
{
    let head = match parse_head(s) {
        Some(x) => x,
        None => {
            return None;
        },
    };
    let tail = match parse_tail(s, head.4) {
        Some(x) => x,
        None => {
            return None;
        },
    };
    Some(
        SpamConfig {
            base_pressure: head.0,
            image_pressure: head.1,
            length_pressure: head.2,
            line_pressure: head.3,
            max_pressure: tail.0,
            ping_pressure: tail.1,
            pressure_decay: tail.2,
            silence_timeout: tail.3,
        },
    )
}

/// Character-for-character equality of two string slices.
fn str_eq(a: &str, b: &str) -> (r: bool)
    ensures
        r == (a@ == b@),
{
    let la = a.unicode_len();
    let lb = b.unicode_len();
    if la != lb {
        return false;
    }
    let mut k: usize = 0;
    while k < la
        invariant
            0 <= k <= la,
            la == a@.len(),
            la == lb,
            lb == b@.len(),
            forall|m: int| 0 <= m < k ==> a@[m] == b@[m],
        decreases la - k,
    {
        if a.get_char(k) != b.get_char(k) {
            return false;
        }
        k = k + 1;
    }
    proof {
        assert(a@ =~= b@);
    }
    true
}

impl SpamConfig {
    /// Renders the configuration in its canonical textual form.
    pub fn to_json(&self) -> (r: String)
        ensures
            r@ == config_chars(*self),
    {
        let mut out = String::new();
        out.append("{\"base_pressure\":");
        push_number(&mut out, self.base_pressure);
        out.append(",\"image_pressure\":");
        push_number(&mut out, self.image_pressure);
        out.append(",\"length_pressure\":");
        push_number(&mut out, self.length_pressure);
        out.append(",\"line_pressure\":");
        push_number(&mut out, self.line_pressure);
        out.append(",\"max_pressure\":");
        push_number(&mut out, self.max_pressure);
        out.append(",\"ping_pressure\":");
        push_number(&mut out, self.ping_pressure);
        out.append(",\"pressure_decay\":");
        push_number(&mut out, self.pressure_decay);
        out.append(",\"silence_timeout\":\"");
        push_number(&mut out, self.silence_timeout);
        out.append("s\"}");
        proof {
            assert(out@ =~= config_chars(*self));
        }
        out
    }

    /// Reads a configuration back from its canonical textual form: exactly
    /// the texts [`SpamConfig::to_json`] produces are accepted — the whole
    /// object is rejected otherwise — and parsing what was rendered returns
    /// the rendered value, byte-for-byte round trip included.
    pub fn from_str(s: &str) -> (r: Result<SpamConfig, ConfigParseError>)
        ensures
            r matches Ok(c) ==> s@ == config_chars(c),
            forall|c: SpamConfig| s@ == config_chars(c) ==> r == Ok::<
                SpamConfig,
                ConfigParseError,
            >(c),
    {
        match parse_core(s) {
            None => Err(ConfigParseError),
            Some(parsed) => {
                let rendered = parsed.to_json();
                if str_eq(rendered.as_str(), s) {
                    Ok(parsed)
                } else {
                    proof {
                        assert forall|c: SpamConfig| s@ == config_chars(c) implies false by {
                            assert(parsed == c);
                        }
                    }
                    Err(ConfigParseError)
                }
            },
        }
    }
}

} // verus!
