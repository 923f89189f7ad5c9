//! Instantaneous pressure of a single message.
//!
//! A message is summarised by a [`MessageEvent`]; its pressure is a weighted
//! sum of the event's counts, clamped to the largest representable value on
//! overflow (never an error).

use vstd::prelude::*;
use crate::weights::SpamConfig;

verus! {

/// Clamps a mathematical integer into the representable pressure range.
pub open spec fn clamp_u64(v: int) -> int {
    if v > u64::MAX {
        u64::MAX as int
    } else if v < 0 {
        0
    } else {
        v
    }
}

/// Saturating addition on micro-unit quantities.
pub fn sat_add(a: u64, b: u64) -> (r: u64)
    ensures
        r == clamp_u64(a + b),
{
    if a > u64::MAX - b {
        u64::MAX
    } else {
        a + b
    }
}

/// Saturating multiplication of a count by a micro-unit weight.
pub fn sat_mul(a: u64, b: u64) -> (r: u64)
    ensures
        r == clamp_u64(a * b),
{
    if b == 0 {
        assert(a * 0 == 0) by (nonlinear_arith);
        0
    } else if a > u64::MAX / b {
        proof {
            let q = (u64::MAX / b) as int;
            assert(q * b <= u64::MAX < (q + 1) * b) by (nonlinear_arith)
                requires
                    q == (u64::MAX as int) / (b as int),
                    0 < b <= u64::MAX,
            ;
            assert(a * b >= (q + 1) * b) by (nonlinear_arith)
                requires
                    a >= q + 1,
                    b > 0,
            ;
        }
        u64::MAX
    } else {
        proof {
            let q = (u64::MAX / b) as int;
            assert(q * b <= u64::MAX) by (nonlinear_arith)
                requires
                    q == (u64::MAX as int) / (b as int),
                    0 < b <= u64::MAX,
            ;
            assert(a * b <= q * b) by (nonlinear_arith)
                requires
                    a <= q,
                    b > 0,
            ;
        }
        a * b
    }
}

/// True of the vertical-whitespace characters, each of which counts as one
/// line separator: CR, vertical tab, form feed, LF, U+2028 and U+2029.
pub open spec fn is_vertical_ws(c: char) -> bool {
    c == '\r' || c == '\u{000B}' || c == '\u{000C}' || c == '\n' || c == '\u{2028}' || c
        == '\u{2029}'
}

/// Number of vertical-whitespace characters among the first `n` of `s`.
pub open spec fn line_breaks_prefix(s: Seq<char>, n: int) -> int
    decreases n,
{
    if n <= 0 {
        0
    } else {
        line_breaks_prefix(s, n - 1) + if is_vertical_ws(s[n - 1]) {
            1int
        } else {
            0int
        }
    }
}

/// Number of vertical-whitespace characters in `s`, adjacent matches counted
/// independently.
pub open spec fn line_breaks(s: Seq<char>) -> int {
    line_breaks_prefix(s, s.len() as int)
}

/// Counts the line separators of a message body: each vertical-whitespace
/// character counts on its own, never merged with a neighbour.
pub fn line_break_count(s: &str) -> (n: usize)
    ensures
        n == line_breaks(s@),
{
    let len: usize = s.unicode_len();
    let mut n: usize = 0;
    let mut i: usize = 0;
    while i < len
        invariant
            i <= len,
            len == s@.len(),
            n == line_breaks_prefix(s@, i as int),
            n <= i,
        decreases len - i,
    {
        let c = s.get_char(i);
        if c == '\r' || c == '\u{000B}' || c == '\u{000C}' || c == '\n' || c == '\u{2028}' || c
            == '\u{2029}' {
            n = n + 1;
        }
        i = i + 1;
    }
    n
}

/// What the pressure calculator reads of one inbound message.
#[derive(Clone, Copy, Debug, PartialEq, Eq, Structural)]
pub struct MessageEvent {
    /// Attachments that carry an image dimension.
    pub attachment_count_with_dimension: u64,
    /// Length of the message body in codepoints.
    pub content_length_codepoints: u64,
    /// Users mentioned by the message.
    pub mention_count: u64,
    /// Roles mentioned by the message.
    pub role_mention_count: u64,
    /// Whether the message mentions everyone.
    pub mentions_everyone: bool,
    /// Vertical-whitespace characters in the message body.
    pub line_break_count: u64,
}

impl MessageEvent {
    /// How many pings the message makes: user mentions, role mentions, and
    /// one more if it mentions everyone.
    pub open spec fn ping_count(self) -> int {
        self.mention_count + self.role_mention_count + if self.mentions_everyone {
            1int
        } else {
            0int
        }
    }
}

/// The exact weighted sum an event is worth, before clamping.
pub open spec fn raw_pressure(conf: SpamConfig, ev: MessageEvent) -> int {
    conf.base_pressure + ev.attachment_count_with_dimension * conf.image_pressure
        + ev.content_length_codepoints * conf.length_pressure + ev.ping_count() * conf.ping_pressure
        + ev.line_break_count * conf.line_pressure
}

/// Calculates the pressure of a single message: the weighted sum of its
/// counts, clamped to the maximum representable value on overflow.
pub fn message_pressure(conf: &SpamConfig, ev: &MessageEvent) -> (p: u64)
    ensures
        p == clamp_u64(raw_pressure(*conf, *ev)),
{
    let pings = sat_add(
        sat_add(ev.mention_count, ev.role_mention_count),
        if ev.mentions_everyone {
            1
        } else {
            0
        },
    );
    let image_term = sat_mul(ev.attachment_count_with_dimension, conf.image_pressure);
    let length_term = sat_mul(ev.content_length_codepoints, conf.length_pressure);
    let ping_term = sat_mul(pings, conf.ping_pressure);
    let line_term = sat_mul(ev.line_break_count, conf.line_pressure);
    let p = sat_add(
        sat_add(sat_add(sat_add(conf.base_pressure, image_term), length_term), ping_term),
        line_term,
    );
    proof {
        lemma_ping_term(*conf, *ev, pings as int, ping_term as int);
        assert(p == clamp_u64(raw_pressure(*conf, *ev)));
    }
    p
}

proof fn lemma_ping_term(conf: SpamConfig, ev: MessageEvent, pings: int, term: int)
    requires
        pings == clamp_u64(ev.ping_count()),
        term == clamp_u64(pings * conf.ping_pressure),
    ensures
        term == clamp_u64(ev.ping_count() * conf.ping_pressure)
            || (term == u64::MAX && ev.ping_count() * conf.ping_pressure > u64::MAX),
{
    if pings == ev.ping_count() {
    } else {
        assert(pings == u64::MAX && ev.ping_count() > u64::MAX);
        if conf.ping_pressure == 0 {
            assert(pings * 0 == 0) by (nonlinear_arith);
            assert(ev.ping_count() * 0 == 0) by (nonlinear_arith);
        } else {
            assert(ev.ping_count() * conf.ping_pressure >= pings * conf.ping_pressure) by (
            nonlinear_arith)
                requires
                    ev.ping_count() >= pings,
                    conf.ping_pressure > 0,
            ;
            assert(pings * conf.ping_pressure >= pings) by (nonlinear_arith)
                requires
                    pings >= 0,
                    conf.ping_pressure >= 1,
            ;
        }
    }
}

} // verus!
