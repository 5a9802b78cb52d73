//! Plain-text helpers for the terminal interface: decimal numbers, padding,
//! the scrolling title (marquee) and byte-bounded truncation.

use vstd::prelude::*;
use vstd::utf8::*;
use vstd::arithmetic::div_mod::{lemma_fundamental_div_mod, lemma_fundamental_div_mod_converse};

verus! {

broadcast use vstd::utf8::group_utf8_lib;

// ---------------------------------------------------------------------------
// Specifications
// ---------------------------------------------------------------------------

/// The ASCII digit for `d` (`d < 10`).
pub open spec fn digit_char(d: nat) -> char {
    (d + 48) as char
}

/// The decimal representation of `n`, without sign or leading zeros.
pub open spec fn decimal(n: nat) -> Seq<char>
    decreases n,
{
    if n < 10 {
        seq![digit_char(n)]
    } else {
        decimal(n / 10).push(digit_char(n % 10))
    }
}

/// `s` right-aligned in a field of at least `width` characters, filled with `fill`.
pub open spec fn pad_left(s: Seq<char>, width: nat, fill: char) -> Seq<char> {
    if s.len() >= width {
        s
    } else {
        Seq::new((width - s.len()) as nat, |i: int| fill) + s
    }
}

/// The position in the scroll cycle at which the window starts at `tick`: the
/// window moves on one position every four ticks, round a cycle of the text and
/// a four-blank gap.
pub open spec fn marquee_offset(len: nat, tick: u64) -> int {
    ((tick / 4) as usize) as int % ((len + 4) as int)
}

/// The character that column `i` of the marquee window shows at `tick`.
pub open spec fn marquee_char(text: Seq<char>, tick: u64, i: int) -> char {
    let len = text.len() as int;
    let cycle = len + 4;
    let idx = marquee_offset(text.len(), tick) + i;
    if idx < len {
        text[idx]
    } else if idx < cycle {
        ' '
    } else {
        text[(idx - cycle) % len]
    }
}

/// `text` as shown in a window `width` characters wide at `tick`: unchanged when it
/// fits, otherwise `width` characters scrolling through the text and a blank gap.
pub open spec fn spec_marquee(text: Seq<char>, width: nat, tick: u64) -> Seq<char> {
    if text.len() <= width {
        text
    } else {
        Seq::new(width, |i: int| marquee_char(text, tick, i))
    }
}

/// The text followed by its gap, the stream the marquee window slides over.
pub open spec fn marquee_stream(text: Seq<char>) -> Seq<char> {
    text + Seq::new(4, |i: int| ' ')
}

/// The byte index at which `truncate` cuts a text that does not fit `max` bytes.
pub open spec fn truncate_cut(max: usize) -> int {
    if max == 0 {
        0
    } else {
        max - 1
    }
}

/// The ellipsis appended to a truncated text.
pub open spec fn ellipsis() -> char {
    '\u{2026}'
}

/// `s` unchanged when its UTF-8 encoding has at most `max` bytes; otherwise the
/// characters in its first `max - 1` bytes followed by an ellipsis.
pub open spec fn spec_truncate(s: Seq<char>, max: usize) -> Seq<char> {
    let bytes = encode_utf8(s);
    if bytes.len() <= max {
        s
    } else {
        decode_utf8(bytes.subrange(0, truncate_cut(max))) + seq![ellipsis()]
    }
}

/// Whether `truncate(s, max)` can cut `s` without splitting a character.
pub open spec fn truncate_allowed(s: Seq<char>, max: usize) -> bool {
    encode_utf8(s).len() > max ==> is_char_boundary(encode_utf8(s), truncate_cut(max))
}

// ---------------------------------------------------------------------------
// Trusted: std's String::push
// ---------------------------------------------------------------------------

/// Appends `c` to `s` with `String::push`; trusted to append exactly that character.
#[verifier::external_body]
pub(crate) fn push_char(s: &mut String, c: char)
    ensures
        final(s)@ == old(s)@.push(c),
{
    s.push(c);
}

// ---------------------------------------------------------------------------
// Numbers
// ---------------------------------------------------------------------------

fn digit(d: u64) -> (c: char)
    requires
        d < 10,
    ensures
        c == digit_char(d as nat),
{
    ((d as u8) + 48u8) as char
}

/// The decimal representation of `n`.
pub fn decimal_string(n: u64) -> (s: String)
    ensures
        s@ == decimal(n as nat),
    decreases n,
{
    if n < 10 {
        let mut s = String::new();
        push_char(&mut s, digit(n));
        s
    } else {
        let mut s = decimal_string(n / 10);
        push_char(&mut s, digit(n % 10));
        s
    }
}

/// `s` right-aligned in a field of at least `width` characters filled with `fill`.
pub fn pad_left_string(s: &str, width: usize, fill: char) -> (r: String)
    ensures
        r@ == pad_left(s@, width as nat, fill),
{
    let len = s.unicode_len();
    let mut r = String::new();
    if len < width {
        let missing = width - len;
        let mut i: usize = 0;
        while i < missing
            invariant
                i <= missing,
                r@ == Seq::new(i as nat, |k: int| fill),
            decreases missing - i,
        {
            push_char(&mut r, fill);
            i = i + 1;
        }
    }
    r.append(s);
    proof {
        if len >= width {
            assert(r@ =~= s@);
        } else {
            assert(r@ =~= pad_left(s@, width as nat, fill));
        }
    }
    r
}

/// `n` in decimal, zero-padded to at least two digits (as `{:02}` prints it).
pub fn two_digits(n: u64) -> (r: String)
    ensures
        r@ == pad_left(decimal(n as nat), 2, '0'),
{
    let d = decimal_string(n);
    pad_left_string(d.as_str(), 2, '0')
}


// ---------------------------------------------------------------------------
// Characters
// ---------------------------------------------------------------------------

/// The characters of `text`, in order.
pub fn chars_of(text: &str) -> (v: Vec<char>)
    ensures
        v@ == text@,
{
    let mut v: Vec<char> = Vec::new();
    for c in it: text.chars()
        invariant
            v@ == it.seq().take(it.index() as int),
    {
        v.push(c);
    }
    v
}


// ---------------------------------------------------------------------------
// Marquee
// ---------------------------------------------------------------------------

/// `text` fitted into a window `width` characters wide: returned unchanged when it
/// fits; otherwise a `width`-character window that advances one character every
/// four ticks over the text followed by a four-space gap, wrapping around.
pub fn marquee(text: &str, width: usize, tick: u64) -> (r: String)
    requires
        text@.len() > width ==> text@.len() + 4 + width <= usize::MAX,
    ensures
        r@ == spec_marquee(text@, width as nat, tick),
{
    let chars = chars_of(text);
    let len = chars.len();

    if len <= width {
        return text.to_owned();
    }

    let speed: u64 = 4;
    let gap: usize = 4;

    let cycle = len + gap;
    let offset = ((tick / speed) as usize) % cycle;

    let mut out = String::new();

    for i in 0..width
        invariant
            len == text@.len(),
            chars@ == text@,
            cycle == len + 4,
            len > width,
            text@.len() + 4 + width <= usize::MAX,
            offset == marquee_offset(text@.len(), tick),
            out@ == Seq::new(i as nat, |k: int| marquee_char(text@, tick, k)),
    {
        let idx = offset + i;
        let c = if idx < len {
            chars[idx]
        } else if idx < cycle {
            ' '
        } else {
            chars[(idx - cycle) % len]
        };
        push_char(&mut out, c);
        assert(out@ =~= Seq::new((i + 1) as nat, |k: int| marquee_char(text@, tick, k)));
    }
    out
}


// ---------------------------------------------------------------------------
// Truncation
// ---------------------------------------------------------------------------

/// `s` unchanged when it is at most `max` bytes long; otherwise its first
/// `max - 1` bytes (none when `max` is 0) followed by an ellipsis.
///
/// The cut must fall on a character boundary.
pub fn truncate(s: &str, max: usize) -> (r: String)
    requires
        truncate_allowed(s@, max),
    ensures
        r@ == spec_truncate(s@, max),
{
    let byte_len = s.as_bytes().len();
    if byte_len <= max {
        s.to_owned()
    } else {
        let cut: usize = if max == 0 { 0 } else { max - 1 };
        let (head, _) = s.split_at(cut);
        let mut r = head.to_owned();
        r.append("\u{2026}");
        proof {
            reveal_strlit("\u{2026}");
            encode_utf8_decode_utf8(head@);
            assert(r@ =~= spec_truncate(s@, max));
        }
        r
    }
}


// ---------------------------------------------------------------------------
// Laws of the marquee
// ---------------------------------------------------------------------------

/// A text that does not fit scrolls as a window onto its endless repetition:
/// column `i` shows the character of "text followed by the gap" at position
/// `offset + i`, taken round the cycle.
pub proof fn lemma_marquee_window(text: Seq<char>, width: nat, tick: u64, i: int)
    requires
        text.len() > width,
        0 <= i < width,
    ensures
        spec_marquee(text, width, tick)[i] == marquee_stream(text)[(marquee_offset(text.len(), tick)
            + i) % (text.len() + 4) as int],
{
    let len = text.len() as int;
    let cycle = len + 4;
    let off = marquee_offset(text.len(), tick);
    let idx = off + i;
    assert(0 <= off < cycle);
    if idx < cycle {
        lemma_fundamental_div_mod_converse(idx, cycle, 0, idx);
    } else {
        lemma_fundamental_div_mod_converse(idx, cycle, 1, idx - cycle);
        lemma_fundamental_div_mod_converse(idx - cycle, len, 0, idx - cycle);
    }
}

/// The marquee repeats itself: after four ticks per position of the cycle
/// (text length plus gap) it shows the same window again.
pub proof fn lemma_marquee_period(text: Seq<char>, width: nat, tick: u64)
    requires
        tick + 4 * (text.len() + 4) <= u64::MAX,
        tick / 4 + text.len() + 4 <= usize::MAX,
    ensures
        spec_marquee(text, width, tick) == spec_marquee(
            text,
            width,
            (tick + 4 * (text.len() + 4)) as u64,
        ),
{
    let c = (text.len() + 4) as int;
    let later = (tick + 4 * c) as u64;
    lemma_fundamental_div_mod(tick as int, 4);
    lemma_fundamental_div_mod_converse(later as int, 4, tick / 4 + c, tick as int % 4);
    let t4 = (tick / 4) as int;
    lemma_fundamental_div_mod(t4, c);
    let q = t4 / c;
    assert((q + 1) * c == c * q + c) by (nonlinear_arith);
    lemma_fundamental_div_mod_converse(t4 + c, c, t4 / c + 1, t4 % c);
    assert(marquee_offset(text.len(), tick) == marquee_offset(text.len(), later));
    assert(spec_marquee(text, width, tick) =~= spec_marquee(text, width, later));
}

/// The marquee moves only every fourth tick: the ticks of one group of four
/// show the same window.
pub proof fn lemma_marquee_steps_every_four_ticks(text: Seq<char>, width: nat, tick: u64)
    ensures
        spec_marquee(text, width, tick) == spec_marquee(text, width, (tick - tick % 4) as u64),
{
    let start = (tick - tick % 4) as u64;
    lemma_fundamental_div_mod(tick as int, 4);
    lemma_fundamental_div_mod_converse(start as int, 4, (tick / 4) as int, 0);
    assert(marquee_offset(text.len(), tick) == marquee_offset(text.len(), start));
    assert(spec_marquee(text, width, tick) =~= spec_marquee(text, width, start));
}

} // verus!
