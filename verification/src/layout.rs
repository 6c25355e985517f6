//! Layout arithmetic and small display texts of the terminal interface:
//! centered and side panels, progress bars, yes/no labels and report times.
//! Drawing is left to the caller.
use vstd::prelude::*;
use crate::logs::{format_timestamp, timestamp_text};
use crate::server::{decimal, decimal_chars};
use crate::text::{chars_of, concat_chars, string_of};

verus! {

/// A rectangle of terminal cells.
#[derive(Clone, Copy, Debug, PartialEq, Eq, Structural)]
pub struct Rect {
    pub x: u16,
    pub y: u16,
    pub width: u16,
    pub height: u16,
}

/// `percent` of `size`, with the percentage capped at 100, rounded down.
pub open spec fn share(size: u16, percent: u16) -> int {
    size * (if percent < 100 {
        percent as int
    } else {
        100
    }) / 100
}

/// The panel of the given percentages of `area`, centered in it (any odd
/// cell goes to the right and bottom margins).
pub open spec fn spec_centered(area: Rect, width_percent: u16, height_percent: u16) -> Rect {
    let w = share(area.width, width_percent);
    let h = share(area.height, height_percent);
    Rect {
        x: (area.x + (area.width - w) / 2) as u16,
        y: (area.y + (area.height - h) / 2) as u16,
        width: w as u16,
        height: h as u16,
    }
}

proof fn lemma_share(size: u16, percent: u16)
    ensures
        0 <= share(size, percent) <= size,
{
    let p: int = if percent < 100 {
        percent as int
    } else {
        100
    };
    assert(0 <= size * p <= size * 100) by (nonlinear_arith)
        requires
            0 <= p <= 100,
            0 <= size,
    ;
}

/// The panel of the given percentages of `area`, centered in it.
pub fn centered(area: Rect, width_percent: u16, height_percent: u16) -> (r: Rect)
    requires
        area.x + area.width / 2 <= u16::MAX,
        area.y + area.height / 2 <= u16::MAX,
    ensures
        r == spec_centered(area, width_percent, height_percent),
{
    proof {
        lemma_share(area.width, width_percent);
        lemma_share(area.height, height_percent);
    }
    let wp: u32 = if width_percent < 100 {
        width_percent as u32
    } else {
        100
    };
    let hp: u32 = if height_percent < 100 {
        height_percent as u32
    } else {
        100
    };
    assert((area.width as u32) * wp <= 6553500) by (nonlinear_arith)
        requires
            wp <= 100,
    ;
    assert((area.height as u32) * hp <= 6553500) by (nonlinear_arith)
        requires
            hp <= 100,
    ;
    let width = ((area.width as u32) * wp / 100) as u16;
    let height = ((area.height as u32) * hp / 100) as u16;
    Rect {
        x: area.x + (area.width - width) / 2,
        y: area.y + (area.height - height) / 2,
        width,
        height,
    }
}

/// A centered panel never leaves its area, and is the whole area at 100 %.
pub proof fn law_centered_within_area(area: Rect, width_percent: u16, height_percent: u16)
    requires
        area.x + area.width <= u16::MAX,
        area.y + area.height <= u16::MAX,
    ensures
        ({
            let r = spec_centered(area, width_percent, height_percent);
            &&& area.x <= r.x
            &&& r.x + r.width <= area.x + area.width
            &&& area.y <= r.y
            &&& r.y + r.height <= area.y + area.height
        }),
        width_percent >= 100 && height_percent >= 100 ==> spec_centered(
            area,
            width_percent,
            height_percent,
        ) == area,
{
    lemma_share(area.width, width_percent);
    lemma_share(area.height, height_percent);
}

/// The right-hand panel: the last 44 % of the width, starting 56 % in.
pub open spec fn spec_side_panel(area: Rect) -> Rect {
    let w56 = if area.width * 56 <= u16::MAX {
        area.width * 56
    } else {
        u16::MAX as int
    };
    let w44 = if area.width * 44 <= u16::MAX {
        area.width * 44
    } else {
        u16::MAX as int
    };
    Rect {
        x: (area.x + w56 / 100) as u16,
        y: area.y,
        width: (w44 / 100) as u16,
        height: area.height,
    }
}

/// The right-hand panel of `area`.
pub fn side_panel(area: Rect) -> (r: Rect)
    requires
        area.x + 655 <= u16::MAX,
    ensures
        r == spec_side_panel(area),
{
    let p56 = (area.width as u32) * 56;
    let p44 = (area.width as u32) * 44;
    let w56: u16 = if p56 <= 0xffff {
        p56 as u16
    } else {
        0xffff
    };
    let w44: u16 = if p44 <= 0xffff {
        p44 as u16
    } else {
        0xffff
    };
    Rect { x: area.x + w56 / 100, y: area.y, width: w44 / 100, height: area.height }
}

/// `n` copies of `c`.
pub open spec fn repeat_char(c: char, n: nat) -> Seq<char> {
    Seq::new(n, |i: int| c)
}

/// A bar of `width` cells, of which `percent` % (rounded down) are filled
/// with `|` and the rest are `.`.
pub open spec fn spec_progress_bar(percent: u8, width: usize) -> Seq<char> {
    let product = if width * percent <= usize::MAX {
        width * percent
    } else {
        usize::MAX as int
    };
    let filled = product / 100;
    repeat_char('|', filled as nat) + repeat_char('.', if width >= filled {
        (width - filled) as nat
    } else {
        0
    })
}

fn push_repeated(v: Vec<char>, c: char, n: usize) -> (r: Vec<char>)
    ensures
        r@ == v@ + repeat_char(c, n as nat),
{
    let mut r = v;
    let ghost r0 = r@;
    let mut i: usize = 0;
    while i < n
        invariant
            i <= n,
            r@ == r0 + repeat_char(c, i as nat),
        decreases n - i,
    {
        r.push(c);
        i += 1;
        assert(repeat_char(c, i as nat) =~= repeat_char(c, (i - 1) as nat).push(c));
    }
    r
}

/// The progress bar of `percent` % over `width` cells.
pub fn progress_bar(percent: u8, width: usize) -> (r: String)
    ensures
        r@ == spec_progress_bar(percent, width),
{
    let product = match width.checked_mul(percent as usize) {
        Some(p) => p,
        None => usize::MAX,
    };
    let filled = product / 100;
    let rest = width.saturating_sub(filled);
    let v = push_repeated(Vec::new(), '|', filled);
    let v = push_repeated(v, '.', rest);
    assert(Seq::<char>::empty() + repeat_char('|', filled as nat) == repeat_char('|', filled as nat));
    string_of(&v)
}

/// `yes` or `no`.
pub fn yes_no(value: bool) -> (r: &'static str)
    ensures
        r@ == if value {
            "yes"@
        } else {
            "no"@
        },
{
    if value {
        "yes"
    } else {
        "no"
    }
}

/// A report time: the clock time, `UTC`, and the epoch milliseconds.
pub open spec fn report_time_text(timestamp: u64) -> Seq<char> {
    timestamp_text(timestamp) + " UTC (epoch "@ + decimal(timestamp as nat) + " ms)"@
}

/// A report time: the clock time, `UTC`, and the epoch milliseconds.
pub fn report_time(timestamp: u64) -> (r: String)
    ensures
        r@ == report_time_text(timestamp),
{
    let clock = format_timestamp(timestamp);
    let v = concat_chars(chars_of(clock.as_str()), &chars_of(" UTC (epoch "));
    let v = concat_chars(v, &decimal_chars(timestamp as u128));
    let v = concat_chars(v, &chars_of(" ms)"));
    string_of(&v)
}

} // verus!
