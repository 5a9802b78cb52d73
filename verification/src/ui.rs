//! What the terminal interface shows: the layout choice, the rows of the track
//! list, the title of the playing track, the time and volume labels and the bars
//! of the animation.

use vstd::prelude::*;
use crate::app::App;
use crate::text::{
    decimal, decimal_string, marquee, pad_left, pad_left_string, push_char,
    spec_marquee, spec_truncate, truncate, truncate_allowed, two_digits,
};
use crate::time::{Duration, nanos_per_sec};

verus! {

// ---------------------------------------------------------------------------
// Layout
// ---------------------------------------------------------------------------

/// Whether a terminal of this size gets the compact layout: narrower than 50
/// columns or shorter than 18 rows.
pub fn is_compact(width: u16, height: u16) -> (r: bool)
    ensures
        r == (width < 50 || height < 18),
{
    width < 50 || height < 18
}

/// `a - b`, or 0 when `b` is larger.
pub open spec fn sat_sub(a: int, b: int) -> int {
    if a > b {
        a - b
    } else {
        0
    }
}

// ---------------------------------------------------------------------------
// The track list
// ---------------------------------------------------------------------------

/// The mark before the highlighted row.
pub open spec fn selected_prefix() -> Seq<char> {
    seq!['\u{25B6}', ' ']
}

/// The blank before every other row.
pub open spec fn plain_prefix() -> Seq<char> {
    seq![' ', ' ']
}

/// The columns a title gets in a list box `area_width` wide: all but two
/// borders and the two columns of the row's prefix.
pub open spec fn list_inner_width(area_width: u16) -> int {
    sat_sub(area_width as int, 4)
}

/// A row of the track list: the prefix, then the title in `room` columns; the
/// highlighted row scrolls its title, the others cut theirs short.
pub open spec fn list_row(title: Seq<char>, highlighted: bool, room: int, tick: u64) -> Seq<char> {
    if highlighted {
        selected_prefix() + spec_marquee(title, room as nat, tick)
    } else {
        plain_prefix() + spec_truncate(title, room as usize)
    }
}

/// Whether a row can be made: a scrolled title has room for its arithmetic, and
/// a cut title is cut between characters.
pub open spec fn list_row_allowed(title: Seq<char>, highlighted: bool, room: int) -> bool {
    if highlighted {
        title.len() > room ==> title.len() + 4 + room <= usize::MAX
    } else {
        truncate_allowed(title, room as usize)
    }
}

/// The rows of the track list in a box `area_width` columns wide; each title
/// gets the columns left after the borders and the prefix.
pub fn track_list_rows(app: &App, area_width: u16) -> (rows: Vec<String>)
    requires
        forall|i: int|
            0 <= i < app.tracks@.len() ==> list_row_allowed(
                #[trigger] app.tracks@[i].title@,
                i == app.selected,
                list_inner_width(area_width),
            ),
    ensures
        rows@.len() == app.tracks@.len(),
        forall|i: int|
            0 <= i < rows@.len() ==> #[trigger] rows@[i]@ == list_row(
                app.tracks@[i].title@,
                i == app.selected,
                list_inner_width(area_width),
                app.tick,
            ),
{
    let inner_width = area_width.saturating_sub(4) as usize;
    let mut rows: Vec<String> = Vec::new();
    let n = app.tracks.len();
    for i in 0..n
        invariant
            n == app.tracks@.len(),
            inner_width == list_inner_width(area_width),
            rows@.len() == i,
            forall|k: int|
                0 <= k < app.tracks@.len() ==> list_row_allowed(
                    #[trigger] app.tracks@[k].title@,
                    k == app.selected,
                    list_inner_width(area_width),
                ),
            forall|k: int|
                0 <= k < i ==> #[trigger] rows@[k]@ == list_row(
                    app.tracks@[k].title@,
                    k == app.selected,
                    list_inner_width(area_width),
                    app.tick,
                ),
    {
        let t = &app.tracks[i];
        let selected = i == app.selected;
        let prefix = if selected {
            "\u{25B6} "
        } else {
            "  "
        };
        proof {
            reveal_strlit("\u{25B6} ");
            reveal_strlit("  ");
            assert(list_row_allowed(
                app.tracks@[i as int].title@,
                i == app.selected,
                list_inner_width(area_width),
            ));
        }
        let available = inner_width;
        let title = if selected {
            marquee(t.title.as_str(), available, app.tick)
        } else {
            truncate(t.title.as_str(), available)
        };
        let mut row = prefix.to_owned();
        row.append(title.as_str());
        rows.push(row);
    }
    rows
}

// ---------------------------------------------------------------------------
// The player
// ---------------------------------------------------------------------------

/// The title of the playing track in a box `area_width` columns wide: scrolled
/// through the columns inside the borders and margins.
pub fn player_title(app: &App, area_width: u16) -> (title: String)
    requires
        app.playback.index < app.tracks@.len(),
        app.tracks@[app.playback.index as int].title@.len() > sat_sub(area_width as int, 4)
            ==> app.tracks@[app.playback.index as int].title@.len() + 4 + sat_sub(
            area_width as int,
            4,
        ) <= usize::MAX,
    ensures
        title@ == spec_marquee(
            app.tracks@[app.playback.index as int].title@,
            sat_sub(area_width as int, 4) as nat,
            app.tick,
        ),
{
    let track = &app.tracks[app.playback.index];
    let title_width = area_width.saturating_sub(4) as usize;
    marquee(track.title.as_str(), title_width, app.tick)
}

/// The time that the player shows as elapsed: the whole track once it has
/// finished, else what has been played.
pub fn shown_elapsed(finished: bool, duration: Duration, elapsed: Duration) -> (d: Duration)
    ensures
        d == (if finished {
            duration
        } else {
            elapsed
        }),
{
    if finished {
        duration
    } else {
        elapsed
    }
}

/// Minutes and seconds of `secs` seconds, each at least two digits: `mm:ss`.
pub open spec fn clock(secs: nat) -> Seq<char> {
    pad_left(decimal(secs / 60), 2, '0') + seq![':'] + pad_left(decimal(secs % 60), 2, '0')
}

/// The whole seconds of a span.
pub open spec fn whole_secs(d: Duration) -> nat {
    d@ / nanos_per_sec()
}

/// A span as `mm:ss` (minutes are not capped at an hour).
pub fn clock_label(d: Duration) -> (s: String)
    ensures
        s@ == clock(whole_secs(d)),
{
    let secs = d.as_secs();
    let mut s = two_digits(secs / 60);
    push_char(&mut s, ':');
    let seconds = two_digits(secs % 60);
    s.append(seconds.as_str());
    s
}

/// The label of the progress bar: `elapsed / length`, both as `mm:ss`.
pub fn progress_label(elapsed: Duration, duration: Duration) -> (s: String)
    ensures
        s@ == clock(whole_secs(elapsed)) + seq![' ', '/', ' '] + clock(whole_secs(duration)),
{
    let mut s = clock_label(elapsed);
    s.append(" / ");
    let total = clock_label(duration);
    s.append(total.as_str());
    proof {
        reveal_strlit(" / ");
    }
    s
}

/// The playing state in words, after its sign.
pub open spec fn status_text(paused: bool) -> Seq<char> {
    if paused {
        seq!['\u{23F8}', ' ', 'P', 'a', 'u', 's', 'e', 'd']
    } else {
        seq!['\u{25B6}', ' ', 'P', 'l', 'a', 'y', 'i', 'n', 'g']
    }
}

/// The playing state as the full player shows it.
pub fn status_label(paused: bool) -> (s: String)
    ensures
        s@ == status_text(paused),
{
    if paused {
        proof {
            reveal_strlit("\u{23F8} Paused");
        }
        "\u{23F8} Paused".to_owned()
    } else {
        proof {
            reveal_strlit("\u{25B6} Playing");
        }
        "\u{25B6} Playing".to_owned()
    }
}

/// The sign of the playing state as the compact player shows it.
pub open spec fn status_sign(paused: bool) -> char {
    if paused {
        '\u{23F8}'
    } else {
        '\u{25B6}'
    }
}

/// The compact player's time line: the sign of the state, then
/// `elapsed/length`, both as `mm:ss`.
pub fn compact_time_label(paused: bool, elapsed: Duration, duration: Duration) -> (s: String)
    ensures
        s@ == seq![status_sign(paused), ' '] + clock(whole_secs(elapsed)) + seq!['/'] + clock(
            whole_secs(duration),
        ),
{
    let mut s = String::new();
    push_char(&mut s, if paused { '\u{23F8}' } else { '\u{25B6}' });
    push_char(&mut s, ' ');
    let e = clock_label(elapsed);
    s.append(e.as_str());
    push_char(&mut s, '/');
    let d = clock_label(duration);
    s.append(d.as_str());
    proof {
        assert(s@ =~= seq![status_sign(paused), ' '] + clock(whole_secs(elapsed)) + seq!['/']
            + clock(whole_secs(duration)));
    }
    s
}

/// `Vol `, the percentage right-aligned in three columns, and `%`.
pub fn volume_label(percent: u16) -> (s: String)
    ensures
        s@ == seq!['V', 'o', 'l', ' '] + pad_left(decimal(percent as nat), 3, ' ') + seq!['%'],
{
    let mut s = "Vol ".to_owned();
    let digits = decimal_string(percent as u64);
    let padded = pad_left_string(digits.as_str(), 3, ' ');
    s.append(padded.as_str());
    push_char(&mut s, '%');
    proof {
        reveal_strlit("Vol ");
    }
    s
}

/// `Vol `, the percentage, and `%`, as the compact player shows it.
pub fn compact_volume_label(percent: u8) -> (s: String)
    ensures
        s@ == seq!['V', 'o', 'l', ' '] + decimal(percent as nat) + seq!['%'],
{
    let mut s = "Vol ".to_owned();
    let digits = decimal_string(percent as u64);
    s.append(digits.as_str());
    push_char(&mut s, '%');
    proof {
        reveal_strlit("Vol ");
    }
    s
}

// ---------------------------------------------------------------------------
// The animation
// ---------------------------------------------------------------------------

/// Whether the bar of height `amp`, centred in `height` rows, covers `row`
/// (rows counted from the bottom).
pub open spec fn bar_covers(height: int, amp: int, row: int) -> bool {
    let mid = height / 2;
    let top = mid + amp / 2;
    let bottom = sat_sub(mid, amp / 2);
    bottom <= row <= top
}

/// Line `line` (counted from the top) of the bars of heights `amps` in `height`
/// rows: a dot where a bar covers the row, a blank elsewhere.
pub open spec fn bar_line(amps: Seq<usize>, height: int, line: int) -> Seq<char> {
    Seq::new(
        amps.len(),
        |x: int|
            if bar_covers(height, amps[x] as int, height - 1 - line) {
                '.'
            } else {
                ' '
            },
    )
}

/// The lines of the animation: one per row, top row first, one column per bar;
/// none at all when there are no bars or no rows.
pub fn waveform_lines(amps: &Vec<usize>, height: usize) -> (lines: Vec<String>)
    requires
        forall|x: int| 0 <= x < amps@.len() ==> height / 2 + #[trigger] amps@[x] / 2 <= usize::MAX,
    ensures
        amps@.len() == 0 || height == 0 ==> lines@.len() == 0,
        amps@.len() > 0 && height > 0 ==> {
            &&& lines@.len() == height
            &&& forall|k: int|
                0 <= k < height ==> #[trigger] lines@[k]@ == bar_line(amps@, height as int, k)
        },
{
    let mut lines: Vec<String> = Vec::new();
    if amps.len() == 0 || height == 0 {
        return lines;
    }
    let mid = height / 2;
    let mut k: usize = 0;
    while k < height
        invariant
            amps@.len() > 0,
            height > 0,
            mid == height / 2,
            k <= height,
            lines@.len() == k,
            forall|x: int| 0 <= x < amps@.len() ==> height / 2 + #[trigger] amps@[x] / 2 <= usize::MAX,
            forall|j: int| 0 <= j < k ==> #[trigger] lines@[j]@ == bar_line(amps@, height as int, j),
        decreases height - k,
    {
        let row = height - 1 - k;
        let mut line = String::new();
        let mut x: usize = 0;
        while x < amps.len()
            invariant
                mid == height / 2,
                row == height - 1 - k,
                x <= amps@.len(),
                forall|y: int| 0 <= y < amps@.len() ==> height / 2 + #[trigger] amps@[y] / 2 <= usize::MAX,
                line@ == bar_line(amps@, height as int, k as int).take(x as int),
            decreases amps@.len() - x,
        {
            let amp = amps[x];
            let top = mid + amp / 2;
            let bottom = mid.saturating_sub(amp / 2);
            let c = if row >= bottom && row <= top {
                '.'
            } else {
                ' '
            };
            push_char(&mut line, c);
            assert(line@ =~= bar_line(amps@, height as int, k as int).take(x + 1));
            x = x + 1;
        }
        assert(line@ =~= bar_line(amps@, height as int, k as int));
        lines.push(line);
        k = k + 1;
    }
    lines
}

/// Bars all of one height draw a flat band: every column of a line is the
/// same, a dot exactly where a bar of that height covers the line's row.
pub proof fn lemma_equal_bars_are_flat(amps: Seq<usize>, height: int, a: usize, line: int)
    requires
        forall|x: int| 0 <= x < amps.len() ==> #[trigger] amps[x] == a,
    ensures
        bar_line(amps, height, line) == Seq::new(
            amps.len(),
            |x: int|
                if bar_covers(height, a as int, height - 1 - line) {
                    '.'
                } else {
                    ' '
                },
        ),
{
    assert(bar_line(amps, height, line) =~= Seq::new(
        amps.len(),
        |x: int|
            if bar_covers(height, a as int, height - 1 - line) {
                '.'
            } else {
                ' '
            },
    ));
}

/// A bar is centred on row `height / 2`: it covers exactly the rows no further
/// from that row than half its height (rows counted from 0 at the bottom).
pub proof fn lemma_bar_is_centred(height: int, amp: int, row: int)
    requires
        height > 0,
        amp >= 0,
        0 <= row < height,
    ensures
        bar_covers(height, amp, row) <==> (if row >= height / 2 {
            row - height / 2
        } else {
            height / 2 - row
        }) <= amp / 2,
{
}

/// For an odd number of rows the bars are symmetric about the middle row:
/// a row is covered exactly when its mirror image is; a bar lower than two
/// covers the middle row `(height - 1) / 2` and no other.
pub proof fn lemma_bars_symmetric_when_odd(height: int, amp: int, row: int)
    requires
        height > 0,
        height % 2 == 1,
        amp >= 0,
        0 <= row < height,
    ensures
        bar_covers(height, amp, row) == bar_covers(height, amp, height - 1 - row),
        amp < 2 ==> (bar_covers(height, amp, row) <==> row == (height - 1) / 2),
{
    lemma_bar_is_centred(height, amp, row);
    lemma_bar_is_centred(height, amp, height - 1 - row);
}

/// The lines of an odd number of rows mirror each other top to bottom, and
/// bars lower than two draw only the middle line, all dots.
pub proof fn lemma_lines_symmetric_when_odd(amps: Seq<usize>, height: int, line: int)
    requires
        height > 0,
        height % 2 == 1,
        0 <= line < height,
    ensures
        bar_line(amps, height, line) == bar_line(amps, height, height - 1 - line),
        (forall|x: int| 0 <= x < amps.len() ==> #[trigger] amps[x] < 2) ==> (bar_line(
            amps,
            height,
            line,
        ) == Seq::new(
            amps.len(),
            |x: int|
                if line == (height - 1) / 2 {
                    '.'
                } else {
                    ' '
                },
        )),
{
    assert forall|x: int| 0 <= x < amps.len() implies #[trigger] bar_line(amps, height, line)[x]
        == bar_line(amps, height, height - 1 - line)[x] by {
        lemma_bars_symmetric_when_odd(height, amps[x] as int, height - 1 - line);
    }
    assert(bar_line(amps, height, line) =~= bar_line(amps, height, height - 1 - line));
    if forall|x: int| 0 <= x < amps.len() ==> #[trigger] amps[x] < 2 {
        assert forall|x: int| 0 <= x < amps.len() implies #[trigger] bar_line(amps, height, line)[x]
            == (if line == (height - 1) / 2 {
            '.'
        } else {
            ' '
        }) by {
            lemma_bars_symmetric_when_odd(height, amps[x] as int, height - 1 - line);
        }
        assert(bar_line(amps, height, line) =~= Seq::new(
            amps.len(),
            |x: int|
                if line == (height - 1) / 2 {
                    '.'
                } else {
                    ' '
                },
        ));
    }
}

} // verus!
