//! What the toolchain shows on a terminal: sizes, times, steps, progress, tables
//! and boxes. The functions here make the text; printing it is up to the caller.
use crate::color::{
    BLUE, BOLD, CYAN, DIM, GRAY, GREEN, MAGENTA, ORANGE, PURPLE, RED, RESET, YELLOW, ramp,
    ramp_color,
};
use crate::num::{decimal, decimal2, decimal_text, push_decimal, push_decimal2};
use crate::text::{
    chars_of, concat2, concat3, contains_in_middle, contains_in_part, contains_text, tells,
    tells_more, text_of, views,
};
use vstd::prelude::*;
use vstd::utf8::{encode_scalar, encode_utf8};

verus! {

// ---------------------------------------------------------------------------
// Sizes

/// `a / b` rounded to the nearest whole number, and to the even one of two that
/// are equally near.
pub open spec fn rounded(a: nat, b: nat) -> nat
    recommends
        b > 0,
{
    let q = a / b;
    let r = a % b;
    if 2 * r > b || (2 * r == b && q % 2 == 1) {
        q + 1
    } else {
        q
    }
}

/// The smallest power of two of which a double can count `n` in steps, where
/// `step` is one that is not too large: a double has 53 significant bits.
pub open spec fn double_step(n: nat, step: nat) -> nat
    decreases n / step,
    when step > 0
    via double_step_decreases
{
    if n < 0x20000000000000 * step {
        step
    } else {
        double_step(n, step * 2)
    }
}

#[via_fn]
proof fn double_step_decreases(n: nat, step: nat) {
    if n >= 0x20000000000000 * step {
        assert(n / (step * 2) < n / step) by (nonlinear_arith)
            requires
                step > 0,
                n >= 0x20000000000000 * step,
        ;
    }
}

/// The double nearest to `n`.
pub open spec fn as_double(n: nat) -> nat {
    rounded(n, double_step(n, 1)) * double_step(n, 1)
}

/// How many bytes the unit of a size has: the largest of B, KB, MB, GB and TB
/// that is not larger than the size.
pub open spec fn unit_bytes(n: nat) -> nat {
    if n < 0x400 {
        1
    } else if n < 0x100000 {
        0x400
    } else if n < 0x40000000 {
        0x100000
    } else if n < 0x10000000000 {
        0x40000000
    } else {
        0x10000000000
    }
}

/// The name of the unit of a size.
pub open spec fn unit_name(n: nat) -> Seq<char> {
    if n < 0x400 {
        " B"@
    } else if n < 0x100000 {
        " KB"@
    } else if n < 0x40000000 {
        " MB"@
    } else if n < 0x10000000000 {
        " GB"@
    } else {
        " TB"@
    }
}

/// A size as people read it: whole bytes below a kilobyte, else a number with
/// one decimal in the largest fitting unit. The number is the double nearest to
/// the size, divided by the unit and rounded to tenths.
pub open spec fn size_text(n: nat) -> Seq<char> {
    if n < 0x400 {
        decimal(n) + unit_name(n)
    } else {
        let tenths = rounded(as_double(n) * 10, unit_bytes(n));
        decimal(tenths / 10) + "."@ + decimal(tenths % 10) + unit_name(n)
    }
}

fn round_div(a: u128, b: u128) -> (r: u128)
    requires
        0 < b <= 0x10000000000000000,
        a <= 0x100000000000000000000,
    ensures
        r == rounded(a as nat, b as nat),
        r <= a + 1,
{
    let q = a / b;
    let m = a % b;
    proof {
        assert(q <= a) by (nonlinear_arith)
            requires
                q == a / b,
                b > 0,
        ;
        assert(m < b);
    }
    if 2 * m > b || (2 * m == b && q % 2 == 1) {
        q + 1
    } else {
        q
    }
}

fn nearest_double(n: u64) -> (r: u128)
    ensures
        r == as_double(n as nat),
        r <= 0x20000000000000000,
{
    let wide: u128 = n as u128;
    let mut step: u128 = 1;
    while wide >= 0x20000000000000 * step
        invariant
            1 <= step <= 0x1000,
            wide == n,
            double_step(n as nat, 1) == double_step(n as nat, step as nat),
        decreases 0x2000 - step,
    {
        proof {
            assert(0x20000000000000 * step <= wide);
            assert(step < 0x800);
        }
        step = step * 2;
    }
    let q = round_div(wide, step);
    proof {
        assert(q <= wide / step + 1);
        assert((wide / step) * step <= wide) by (nonlinear_arith)
            requires
                step > 0,
        ;
        assert(q * step <= (wide / step) * step + step) by (nonlinear_arith)
            requires
                q <= wide / step + 1,
                step > 0,
        ;
    }
    q * step
}

/// A size as people read it, e.g. `42.3 MB`.
pub fn fmt_bytes(bytes: u64) -> (r: String)
    ensures
        r@ == size_text(bytes as nat),
{
    if bytes < 0x400 {
        return concat2(&decimal_text(bytes), " B");
    }
    let (unit, name): (u128, &'static str) = if bytes < 0x100000 {
        (0x400, " KB")
    } else if bytes < 0x40000000 {
        (0x100000, " MB")
    } else if bytes < 0x10000000000 {
        (0x40000000, " GB")
    } else {
        (0x10000000000, " TB")
    };
    let value = nearest_double(bytes);
    let tenths = round_div(value * 10, unit);
    proof {
        assert(unit >= 0x400);
        assert((value * 10) / unit as int <= (value * 10) / 0x400) by (nonlinear_arith)
            requires
                unit >= 0x400,
                value >= 0,
        ;
        assert(tenths <= (value * 10) / 0x400 + 1);
        assert(tenths / 10 <= u64::MAX);
    }
    let mut out = decimal_text((tenths / 10) as u64);
    out.append(".");
    push_decimal(&mut out, (tenths % 10) as u64);
    out.append(name);
    out
}

/// A speed in bytes per second.
pub fn fmt_speed(bytes_per_second: u64) -> (r: String)
    ensures
        r@ == size_text(bytes_per_second as nat) + "/s"@,
{
    concat2(&fmt_bytes(bytes_per_second), "/s")
}

// ---------------------------------------------------------------------------
// Times

/// A stretch of time: its whole seconds, its whole milliseconds, and its seconds
/// written with two decimals.
#[derive(Debug)]
pub struct Elapsed {
    pub secs: u64,
    pub millis: u64,
    pub two_decimals: String,
}

/// Minutes and seconds.
pub open spec fn minutes_text(secs: nat) -> Seq<char> {
    decimal(secs / 60) + "m "@ + decimal2(secs % 60) + "s"@
}

/// A stretch of time as people read it: milliseconds below a second, seconds with
/// two decimals below a minute, else minutes and seconds.
pub open spec fn duration_text(d: Elapsed) -> Seq<char> {
    if d.millis < 1000 {
        decimal(d.millis as nat) + "ms"@
    } else if d.secs < 60 {
        d.two_decimals@ + "s"@
    } else {
        minutes_text(d.secs as nat)
    }
}

fn write_minutes(secs: u64) -> (r: String)
    ensures
        r@ == minutes_text(secs as nat),
{
    let mut out = decimal_text(secs / 60);
    out.append("m ");
    push_decimal2(&mut out, secs % 60);
    out.append("s");
    out
}

/// A stretch of time as people read it.
pub fn fmt_duration(d: &Elapsed) -> (r: String)
    ensures
        r@ == duration_text(*d),
{
    if d.millis < 1000 {
        concat2(&decimal_text(d.millis), "ms")
    } else if d.secs < 60 {
        concat2(&d.two_decimals, "s")
    } else {
        write_minutes(d.secs)
    }
}

/// The time that is left, in seconds, where it can be told.
pub fn eta(secs: Option<u64>) -> (r: String)
    ensures
        r@ == (match secs {
            None => "—"@,
            Some(s) => if s < 60 {
                decimal(s as nat) + "s"@
            } else {
                minutes_text(s as nat)
            },
        }),
{
    match secs {
        None => "—".to_owned(),
        Some(s) => if s < 60 {
            concat2(&decimal_text(s), "s")
        } else {
            write_minutes(s)
        },
    }
}

// ---------------------------------------------------------------------------
// Padding

/// `n` spaces.
pub open spec fn spaces(n: int) -> Seq<char> {
    Seq::new(
        if n > 0 {
            n as nat
        } else {
            0
        },
        |i: int| ' ',
    )
}

/// A text with spaces behind it up to a width.
pub open spec fn padded_right(s: Seq<char>, width: nat) -> Seq<char> {
    s + spaces(width - s.len())
}

/// A text with spaces before it up to a width.
pub open spec fn padded_left(s: Seq<char>, width: nat) -> Seq<char> {
    spaces(width - s.len()) + s
}

fn write_spaces(used: usize, width: usize) -> (r: String)
    ensures
        r@ == spaces(width - used),
{
    let mut out = String::new();
    let mut n: usize = used;
    while n < width
        invariant
            used <= width ==> used <= n <= width,
            used > width ==> n == used,
            out@ == spaces(n - used),
        decreases width - n,
    {
        out.push(' ');
        assert(out@ =~= spaces(n + 1 - used));
        n += 1;
    }
    assert(out@ =~= spaces(width - used));
    out
}

fn pad_right(s: &str, width: usize) -> (r: String)
    ensures
        r@ == padded_right(s@, width as nat),
{
    concat2(s, &write_spaces(s.unicode_len(), width))
}

fn pad_left(s: &str, width: usize) -> (r: String)
    ensures
        r@ == padded_left(s@, width as nat),
{
    concat2(&write_spaces(s.unicode_len(), width), s)
}

/// `s`, `n` times.
pub open spec fn repeated(s: Seq<char>, n: nat) -> Seq<char>
    decreases n,
{
    if n == 0 {
        seq![]
    } else {
        repeated(s, (n - 1) as nat) + s
    }
}

fn repeat(s: &str, n: usize) -> (r: String)
    ensures
        r@ == repeated(s@, n as nat),
{
    let mut out = String::new();
    for i in 0..n
        invariant
            out@ == repeated(s@, i as nat),
    {
        out.append(s);
    }
    out
}

// ---------------------------------------------------------------------------
// Single lines

/// A line of information.
pub fn info(msg: &str) -> (r: String)
    ensures
        r@ == BLUE@ + "  "@ + msg@ + RESET@,
{
    let mut out = concat3(BLUE, "  ", msg);
    out.append(RESET);
    out
}

/// The beginning of a line that is marked with a coloured word.
pub open spec fn marked(color: Seq<char>, word: Seq<char>) -> Seq<char> {
    BOLD@ + color + word + RESET@
}

fn mark(color: &str, word: &str) -> (r: String)
    ensures
        r@ == marked(color@, word@),
{
    let mut out = concat3(BOLD, color, word);
    out.append(RESET);
    out
}

/// A warning.
pub fn warn(msg: &str) -> (r: String)
    ensures
        r@ == marked(YELLOW@, "warning"@) + ": "@ + msg@,
{
    concat3(&mark(YELLOW, "warning"), ": ", msg)
}

/// An error.
pub fn error(msg: &str) -> (r: String)
    ensures
        r@ == marked(RED@, "error"@) + ": "@ + msg@,
{
    concat3(&mark(RED, "error"), ": ", msg)
}

/// A heading, after an empty line.
pub fn header(title: &str) -> (r: String)
    ensures
        r@ == "\n"@ + BOLD@ + MAGENTA@ + "== "@ + title@ + " =="@ + RESET@,
{
    let mut out = concat3("\n", BOLD, MAGENTA);
    out.append("== ");
    out.append(title);
    out.append(" ==");
    out.append(RESET);
    out
}

/// A horizontal rule.
pub const RULE: &'static str = "──────────────────────────────────────────────────────";

/// A line of a box, after its left edge.
pub open spec fn boxed(color: Seq<char>, content: Seq<char>) -> Seq<char> {
    marked(color, "│"@) + content + "\n"@
}

/// The upper edge of a box, after an empty line.
pub open spec fn box_top(color: Seq<char>) -> Seq<char> {
    "\n"@ + BOLD@ + color + "┌"@ + RULE@ + "┐"@ + RESET@ + "\n"@
}

/// The lower edge of a box.
pub open spec fn box_bottom(color: Seq<char>) -> Seq<char> {
    BOLD@ + color + "└"@ + RULE@ + "┘"@ + RESET@ + "\n"@
}

fn push_box_top(out: &mut String, color: &str)
    ensures
        final(out)@ == old(out)@ + box_top(color@),
{
    let mut line = concat3("\n", BOLD, color);
    line.append("┌");
    line.append(RULE);
    line.append("┐");
    line.append(RESET);
    line.append("\n");
    out.append(&line);
}

fn push_box_bottom(out: &mut String, color: &str)
    ensures
        final(out)@ == old(out)@ + box_bottom(color@),
{
    let mut line = concat3(BOLD, color, "└");
    line.append(RULE);
    line.append("┘");
    line.append(RESET);
    line.append("\n");
    out.append(&line);
}

fn push_boxed(out: &mut String, color: &str, content: &str)
    ensures
        final(out)@ == old(out)@ + boxed(color@, content@),
{
    let line = concat3(&mark(color, "│"), content, "\n");
    out.append(&line);
}

/// What the banner says of the toolchain.
pub open spec fn banner_title(version: Seq<char>) -> Seq<char> {
    "  "@ + BOLD@ + CYAN@ + "rusk"@ + RESET@ + " "@ + DIM@ + version
        + "  ·  Rust → Android APK toolchain"@ + RESET@
}

/// The banner at the beginning of a build.
pub fn compiler_banner(project_name: &str, version: &str) -> (r: String)
    ensures
        r@ == box_top(PURPLE@) + boxed(PURPLE@, banner_title(version@)) + boxed(
            PURPLE@,
            "  building "@ + BOLD@ + project_name@ + RESET@,
        ) + box_bottom(PURPLE@),
{
    let mut title = concat3("  ", BOLD, CYAN);
    title.append("rusk");
    title.append(RESET);
    title.append(" ");
    title.append(DIM);
    title.append(version);
    title.append("  ·  Rust → Android APK toolchain");
    title.append(RESET);
    let mut project = concat3("  building ", BOLD, project_name);
    project.append(RESET);
    let mut out = String::new();
    push_box_top(&mut out, PURPLE);
    assert(out@ =~= box_top(PURPLE@));
    push_boxed(&mut out, PURPLE, &title);
    push_boxed(&mut out, PURPLE, &project);
    push_box_bottom(&mut out, PURPLE);
    out
}

// ---------------------------------------------------------------------------
// Steps

/// A labelled step of a build, which may be part of another.
#[derive(Debug)]
pub struct Step {
    pub label: String,
    pub depth: usize,
}

/// The beginning of a line about a step: its indentation and a coloured mark.
pub open spec fn step_mark(depth: nat, color: Seq<char>, mark: Seq<char>) -> Seq<char> {
    repeated("  "@, depth) + marked(color, mark) + " "@
}

impl Step {
    fn start_at_depth(label: String, depth: usize) -> (r: (Self, String))
        ensures
            r.0.label == label,
            r.0.depth == depth,
            r.1@ == step_mark(
                depth as nat,
                CYAN@,
                if depth == 0 {
                    "➤"@
                } else {
                    "↳"@
                },
            ) + label@,
    {
        let step = Step { label, depth };
        let mut line = step.mark(
            CYAN,
            if depth == 0 {
                "➤"
            } else {
                "↳"
            },
        );
        line.append(&step.label);
        (step, line)
    }

    fn mark(&self, color: &str, sign: &str) -> (r: String)
        ensures
            r@ == step_mark(self.depth as nat, color@, sign@),
    {
        concat3(&repeat("  ", self.depth), &mark(color, sign), " ")
    }

    /// Begins a step; also its line.
    pub fn start(label: String) -> (r: (Self, String))
        ensures
            r.0.label == label,
            r.0.depth == 0,
            r.1@ == step_mark(0, CYAN@, "➤"@) + label@,
    {
        Self::start_at_depth(label, 0)
    }

    /// Begins a step within another; also its line.
    pub fn start_nested(label: String) -> (r: (Self, String))
        ensures
            r.0.label == label,
            r.0.depth == 1,
            r.1@ == step_mark(1, CYAN@, "↳"@) + label@,
    {
        Self::start_at_depth(label, 1)
    }

    /// The line for a step that succeeded.
    pub fn ok(&self, elapsed: &Elapsed) -> (r: String)
        ensures
            r@ == step_mark(self.depth as nat, GREEN@, "✔"@) + self.label@ + " "@ + GRAY@ + "("@
                + duration_text(*elapsed) + ")"@ + RESET@,
    {
        let mut line = self.mark(GREEN, "✔");
        line.append(&self.label);
        line.append(" ");
        line.append(GRAY);
        line.append("(");
        line.append(&fmt_duration(elapsed));
        line.append(")");
        line.append(RESET);
        line
    }

    /// The line for a step that failed.
    pub fn fail(&self, reason: &str) -> (r: String)
        ensures
            r@ == step_mark(self.depth as nat, RED@, "✘"@) + self.label@ + " "@ + RED@ + "— "@
                + reason@ + RESET@,
    {
        let mut line = self.mark(RED, "✘");
        line.append(&self.label);
        line.append(" ");
        line.append(RED);
        line.append("— ");
        line.append(reason);
        line.append(RESET);
        line
    }

    /// The line for a step that ended without having succeeded or failed.
    pub fn aborted(&self) -> (r: String)
        ensures
            r@ == step_mark(self.depth as nat, RED@, "✘"@) + self.label@ + " "@ + RED@ + "— "@
                + "aborted"@ + RESET@,
    {
        self.fail("aborted")
    }

    /// The line for a step that succeeded with something worth noting.
    pub fn warn_ok(&self, elapsed: &Elapsed, note: &str) -> (r: String)
        ensures
            r@ == step_mark(self.depth as nat, ORANGE@, "◆"@) + self.label@ + " "@ + GRAY@ + "("@
                + duration_text(*elapsed) + ", "@ + note@ + ")"@ + RESET@,
    {
        let mut line = self.mark(ORANGE, "◆");
        line.append(&self.label);
        line.append(" ");
        line.append(GRAY);
        line.append("(");
        line.append(&fmt_duration(elapsed));
        line.append(", ");
        line.append(note);
        line.append(")");
        line.append(RESET);
        line
    }
}

// ---------------------------------------------------------------------------
// Progress

/// The frames of a spinner.
pub open spec fn spinner_frame(frame: nat) -> Seq<char> {
    let i = frame % 10;
    if i == 0 {
        "⠋"@
    } else if i == 1 {
        "⠙"@
    } else if i == 2 {
        "⠹"@
    } else if i == 3 {
        "⠸"@
    } else if i == 4 {
        "⠼"@
    } else if i == 5 {
        "⠴"@
    } else if i == 6 {
        "⠦"@
    } else if i == 7 {
        "⠧"@
    } else if i == 8 {
        "⠇"@
    } else {
        "⠏"@
    }
}

fn spinner_glyph(frame: usize) -> (r: &'static str)
    ensures
        r@ == spinner_frame(frame as nat),
{
    let i = frame % 10;
    if i == 0 {
        "⠋"
    } else if i == 1 {
        "⠙"
    } else if i == 2 {
        "⠹"
    } else if i == 3 {
        "⠸"
    } else if i == 4 {
        "⠼"
    } else if i == 5 {
        "⠴"
    } else if i == 6 {
        "⠦"
    } else if i == 7 {
        "⠧"
    } else if i == 8 {
        "⠇"
    } else {
        "⠏"
    }
}

/// The frames of a pulse, each shown three times.
pub open spec fn pulse_frame(frame: nat) -> Seq<char> {
    let i = frame / 3 % 4;
    if i == 0 {
        "·"@
    } else if i == 1 {
        "•"@
    } else if i == 2 {
        "●"@
    } else {
        "•"@
    }
}

fn pulse_glyph(frame: usize) -> (r: &'static str)
    ensures
        r@ == pulse_frame(frame as nat),
{
    let i = frame / 3 % 4;
    if i == 0 {
        "·"
    } else if i == 1 {
        "•"
    } else if i == 2 {
        "●"
    } else {
        "•"
    }
}

/// The frame after `n`, beginning anew after the greatest.
pub open spec fn next_frame(n: usize) -> usize {
    if n == usize::MAX {
        0
    } else {
        (n + 1) as usize
    }
}

fn advance_frame(n: usize) -> (r: usize)
    ensures
        r == next_frame(n),
{
    if n == usize::MAX {
        0
    } else {
        n + 1
    }
}

/// A bar of `width` cells, of which the first `filled` are full.
pub open spec fn bar_text(filled: nat, width: nat, full: Seq<char>, empty: Seq<char>) -> Seq<char> {
    let n = if filled < width {
        filled
    } else {
        width
    };
    repeated(full, n) + repeated(empty, (width - n) as nat)
}

fn bar(filled: usize, width: usize, full: &str, empty: &str) -> (r: String)
    ensures
        r@ == bar_text(filled as nat, width as nat, full@, empty@),
{
    let n: usize = if filled < width {
        filled
    } else {
        width
    };
    concat2(&repeat(full, n), &repeat(empty, width - n))
}

/// How far a bar has come: its full cells, the stop of its colour, and the
/// percentage.
#[derive(Debug, Clone, Copy)]
pub struct Ratio {
    pub filled: usize,
    pub color: usize,
    pub percent: u32,
}

/// A download of which a number of bytes has come.
#[derive(Debug)]
pub struct DownloadProgress {
    pub label: String,
    pub total: u64,
    pub downloaded: u64,
    pub frame: usize,
    /// When it was shown last, in milliseconds since it began.
    pub shown_at: Option<u64>,
}

impl DownloadProgress {
    /// Before the first byte.
    pub fn new(label: String, total_bytes: u64) -> (r: Self)
        ensures
            r.label == label,
            r.total == total_bytes,
            r.downloaded == 0,
            r.frame == 0,
            r.shown_at is None,
    {
        DownloadProgress { label, total: total_bytes, downloaded: 0, frame: 0, shown_at: None }
    }

    /// Counts more bytes; whether the bar is to be shown again, which it is about
    /// fifteen times a second, and when the last byte comes in. Without a known size
    /// there is no last byte.
    pub fn add(&mut self, delta: u64, now_millis: u64) -> (r: bool)
        requires
            old(self).downloaded + delta <= u64::MAX,
        ensures
            final(self).downloaded == old(self).downloaded + delta,
            final(self).label == old(self).label,
            final(self).total == old(self).total,
            final(self).frame == old(self).frame,
            r == ((old(self).downloaded < old(self).total && final(self).downloaded >= old(
                self,
            ).total) || (match old(self).shown_at {
                Some(t) => now_millis - t >= 66,
                None => true,
            })),
            final(self).shown_at == (if r {
                Some(now_millis)
            } else {
                old(self).shown_at
            }),
    {
        let incomplete = self.downloaded < self.total;
        self.downloaded += delta;
        let waited = match self.shown_at {
            Some(t) => now_millis >= t && now_millis - t >= 66,
            None => true,
        };
        let due = waited || (incomplete && self.downloaded >= self.total);
        if due {
            self.shown_at = Some(now_millis);
        }
        due
    }

    /// Moves the spinner on.
    pub fn tick_frame(&mut self)
        ensures
            final(self).frame == next_frame(old(self).frame),
            final(self).label == old(self).label,
            final(self).total == old(self).total,
            final(self).downloaded == old(self).downloaded,
            final(self).shown_at == old(self).shown_at,
    {
        self.frame = advance_frame(self.frame);
    }

    /// The bar's line, with the speed and the time that is left.
    pub fn render(&self, ratio: Ratio, bytes_per_second: u64, eta: &str) -> (r: String)
        ensures
            r@ == "\r"@ + CYAN@ + spinner_frame(self.frame as nat) + RESET@ + BOLD@ + " "@
                + self.label@ + "  "@ + ramp(ratio.color as nat) + bar_text(
                ratio.filled as nat,
                30,
                "█"@,
                "░"@,
            ) + RESET@ + "  "@ + padded_left(decimal(ratio.percent as nat), 3) + "%  "@ + BOLD@
                + size_text(self.downloaded as nat) + " / "@ + size_text(self.total as nat)
                + RESET@ + "  "@ + GRAY@ + size_text(bytes_per_second as nat) + "/s"@ + RESET@
                + "  "@ + DIM@ + "ETA "@ + eta@ + RESET@ + "   "@,
    {
        let mut out = concat3("\r", CYAN, spinner_glyph(self.frame));
        out.append(RESET);
        out.append(BOLD);
        out.append(" ");
        out.append(&self.label);
        out.append("  ");
        out.append(ramp_color(ratio.color));
        out.append(&bar(ratio.filled, 30, "█", "░"));
        out.append(RESET);
        out.append("  ");
        out.append(&pad_left(&decimal_text(ratio.percent as u64), 3));
        out.append("%  ");
        out.append(BOLD);
        out.append(&fmt_bytes(self.downloaded));
        out.append(" / ");
        out.append(&fmt_bytes(self.total));
        out.append(RESET);
        out.append("  ");
        out.append(GRAY);
        out.append(&fmt_bytes(bytes_per_second));
        out.append("/s");
        out.append(RESET);
        out.append("  ");
        out.append(DIM);
        out.append("ETA ");
        out.append(eta);
        out.append(RESET);
        out.append("   ");
        out
    }

    /// The line for a download that is complete.
    pub fn finish(&self, elapsed: &Elapsed, bytes_per_second: u64) -> (r: String)
        ensures
            r@ == "\r"@ + marked(GREEN@, "✔"@) + " "@ + self.label@ + "  "@ + GRAY@ + size_text(
                self.downloaded as nat,
            ) + " downloaded in "@ + duration_text(*elapsed) + " "@ + DIM@ + "("@ + size_text(
                bytes_per_second as nat,
            ) + "/s)"@ + RESET@ + "                    "@,
    {
        let mut out = concat3("\r", &mark(GREEN, "✔"), " ");
        out.append(&self.label);
        out.append("  ");
        out.append(GRAY);
        out.append(&fmt_bytes(self.downloaded));
        out.append(" downloaded in ");
        out.append(&fmt_duration(elapsed));
        out.append(" ");
        out.append(DIM);
        out.append("(");
        out.append(&fmt_bytes(bytes_per_second));
        out.append("/s)");
        out.append(RESET);
        out.append("                    ");
        out
    }
}

/// How many bytes a text takes.
pub open spec fn byte_len(s: Seq<char>) -> nat {
    encode_utf8(s).len()
}

fn char_len(c: char) -> (r: usize)
    ensures
        r == encode_scalar(c as u32).len(),
        1 <= r <= 4,
{
    let n = c as u32;
    if n <= 0x7f {
        1
    } else if n <= 0x7ff {
        2
    } else if n <= 0xffff {
        3
    } else {
        4
    }
}

/// The longest end of a text that takes no more than `max` bytes, of which the
/// part from position `p` on is known to.
pub open spec fn end_within(s: Seq<char>, max: nat, p: int) -> Seq<char>
    decreases p,
{
    if p <= 0 || p > s.len() || byte_len(s.skip(p - 1)) > max {
        s.skip(p)
    } else {
        end_within(s, max, p - 1)
    }
}

/// The name of an entry, cut at its beginning where it takes more than 34 bytes.
pub open spec fn short_name(s: Seq<char>) -> Seq<char> {
    if byte_len(s) > 34 {
        "…"@ + end_within(s, 33, s.len() as int)
    } else {
        s
    }
}

/// Cuts a long name at its beginning, to at most 33 bytes after an ellipsis.
pub fn shorten(name: &str) -> (r: String)
    ensures
        r@ == short_name(name@),
{
    let v = chars_of(name);
    if name.as_bytes().len() <= 34 {
        return name.to_owned();
    }
    let mut p: usize = v.len();
    let mut used: usize = 0;
    assert(name@.skip(p as int) =~= seq![]);
    while p > 0
        invariant
            p <= v.len(),
            v@ == name@,
            used <= 33,
            used == byte_len(name@.skip(p as int)),
            end_within(name@, 33, name@.len() as int) == end_within(name@, 33, p as int),
        ensures
            p <= v.len(),
            v@ == name@,
            end_within(name@, 33, name@.len() as int) == end_within(name@, 33, p as int),
            end_within(name@, 33, p as int) == name@.skip(p as int),
        decreases p,
    {
        let n = char_len(v[p - 1]);
        proof {
            let t = name@.skip(p - 1);
            assert(t[0] == v@[p - 1]);
            assert(t.drop_first() =~= name@.skip(p as int));
            assert(byte_len(t) == n + used);
        }
        if used + n > 33 {
            break ;
        }
        used += n;
        p -= 1;
    }
    let tail = text_of(&v, p, v.len());
    assert(tail@ =~= name@.skip(p as int));
    concat2("…", &tail)
}

/// The unpacking of an archive of which a number of entries is done.
#[derive(Debug)]
pub struct ExtractProgress {
    pub total: usize,
    pub done: usize,
    pub bytes_written: u64,
    pub frame: usize,
    /// When it was shown last, in milliseconds since it began.
    pub shown_at: Option<u64>,
}

/// The note on how much has been written; none where nothing has.
pub open spec fn written_note(bytes: nat) -> Seq<char> {
    if bytes > 0 {
        "  "@ + GRAY@ + size_text(bytes) + RESET@
    } else {
        ""@
    }
}

fn write_note(bytes: u64) -> (r: String)
    ensures
        r@ == written_note(bytes as nat),
{
    if bytes > 0 {
        let mut out = concat3("  ", GRAY, &fmt_bytes(bytes));
        out.append(RESET);
        out
    } else {
        "".to_owned()
    }
}

impl ExtractProgress {
    /// Before the first entry.
    pub fn new(total_entries: usize) -> (r: Self)
        ensures
            r.total == total_entries,
            r.done == 0,
            r.bytes_written == 0,
            r.frame == 0,
            r.shown_at is None,
    {
        ExtractProgress {
            total: total_entries,
            done: 0,
            bytes_written: 0,
            frame: 0,
            shown_at: None,
        }
    }

    /// Whether the line is to be shown at the given time: at most every fifty
    /// milliseconds, and with the last entry.
    pub open spec fn due(&self, now_millis: u64, done: int) -> bool {
        match self.shown_at {
            Some(t) => now_millis - t >= 50 || done == self.total,
            None => true,
        }
    }

    /// Counts an entry; whether the line is to be shown again.
    pub fn advance(&mut self, now_millis: u64) -> (r: bool)
        requires
            old(self).done < usize::MAX,
        ensures
            r == old(self).due(now_millis, old(self).done + 1),
            final(self).total == old(self).total,
            final(self).done == old(self).done + 1,
            final(self).bytes_written == old(self).bytes_written,
            final(self).frame == next_frame(old(self).frame),
            final(self).shown_at == (if r {
                Some(now_millis)
            } else {
                old(self).shown_at
            }),
    {
        self.advance_sized(0, now_millis)
    }

    /// Counts an entry and its size; whether the line is to be shown again.
    pub fn advance_sized(&mut self, entry_bytes: u64, now_millis: u64) -> (r: bool)
        requires
            old(self).done < usize::MAX,
            old(self).bytes_written + entry_bytes <= u64::MAX,
        ensures
            r == old(self).due(now_millis, old(self).done + 1),
            final(self).total == old(self).total,
            final(self).done == old(self).done + 1,
            final(self).bytes_written == old(self).bytes_written + entry_bytes,
            final(self).frame == next_frame(old(self).frame),
            final(self).shown_at == (if r {
                Some(now_millis)
            } else {
                old(self).shown_at
            }),
    {
        self.done += 1;
        self.bytes_written += entry_bytes;
        self.frame = advance_frame(self.frame);
        let due = match self.shown_at {
            Some(t) => (now_millis >= t && now_millis - t >= 50) || self.done == self.total,
            None => true,
        };
        if due {
            self.shown_at = Some(now_millis);
        }
        due
    }

    /// The line that names the entry.
    pub fn render(&self, ratio: Ratio, entry_name: &str) -> (r: String)
        ensures
            r@ == "\r"@ + CYAN@ + pulse_frame(self.frame as nat) + RESET@ + BOLD@ + "  "@ + ramp(
                ratio.color as nat,
            ) + bar_text(ratio.filled as nat, 18, "▰"@, "▱"@) + RESET@ + "  "@ + GREEN@ + decimal(
                self.done as nat,
            ) + "/"@ + decimal(self.total as nat) + RESET@ + written_note(
                self.bytes_written as nat,
            ) + "  "@ + GRAY@ + short_name(entry_name@) + RESET@ + "                    "@,
    {
        let mut out = concat3("\r", CYAN, pulse_glyph(self.frame));
        out.append(RESET);
        out.append(BOLD);
        out.append("  ");
        out.append(ramp_color(ratio.color));
        out.append(&bar(ratio.filled, 18, "▰", "▱"));
        out.append(RESET);
        out.append("  ");
        out.append(GREEN);
        push_decimal(&mut out, self.done as u64);
        out.append("/");
        push_decimal(&mut out, self.total as u64);
        out.append(RESET);
        out.append(&write_note(self.bytes_written));
        out.append("  ");
        out.append(GRAY);
        out.append(&shorten(entry_name));
        out.append(RESET);
        out.append("                    ");
        out
    }

    /// The line for an archive that is unpacked.
    pub fn finish(&self, elapsed: &Elapsed) -> (r: String)
        ensures
            r@ == "\r"@ + marked(GREEN@, "✔"@) + " "@ + BOLD@ + decimal(self.total as nat) + "/"@
                + decimal(self.total as nat) + RESET@ + " files in "@ + duration_text(*elapsed)
                + written_note(self.bytes_written as nat) + RESET@
                + "                                                  "@,
    {
        let mut out = concat3("\r", &mark(GREEN, "✔"), " ");
        out.append(BOLD);
        push_decimal(&mut out, self.total as u64);
        out.append("/");
        push_decimal(&mut out, self.total as u64);
        out.append(RESET);
        out.append(" files in ");
        out.append(&fmt_duration(elapsed));
        out.append(&write_note(self.bytes_written));
        out.append(RESET);
        out.append("                                                  ");
        out
    }
}

/// A spinner for a step of unknown length.
#[derive(Debug)]
pub struct Spinner {
    pub label: String,
    pub frame: usize,
}

impl Spinner {
    pub fn new(label: String) -> (r: Self)
        ensures
            r.label == label,
            r.frame == 0,
    {
        Spinner { label, frame: 0 }
    }

    /// Moves the spinner on.
    pub fn tick(&mut self)
        ensures
            final(self).frame == next_frame(old(self).frame),
            final(self).label == old(self).label,
    {
        self.frame = advance_frame(self.frame);
    }

    /// The spinner's line.
    pub fn render(&self, elapsed: &Elapsed) -> (r: String)
        ensures
            r@ == "\r"@ + CYAN@ + spinner_frame(self.frame as nat) + RESET@ + BOLD@ + " "@
                + self.label@ + "  "@ + DIM@ + duration_text(*elapsed) + RESET@ + "   "@,
    {
        let mut out = concat3("\r", CYAN, spinner_glyph(self.frame));
        out.append(RESET);
        out.append(BOLD);
        out.append(" ");
        out.append(&self.label);
        out.append("  ");
        out.append(DIM);
        out.append(&fmt_duration(elapsed));
        out.append(RESET);
        out.append("   ");
        out
    }

    /// The line for a step that succeeded.
    pub fn finish_ok(&self, elapsed: &Elapsed) -> (r: String)
        ensures
            r@ == "\r"@ + marked(GREEN@, "✔"@) + " "@ + self.label@ + " "@ + GRAY@ + "("@
                + duration_text(*elapsed) + ")"@ + RESET@ + "                    "@,
    {
        let mut out = concat3("\r", &mark(GREEN, "✔"), " ");
        out.append(&self.label);
        out.append(" ");
        out.append(GRAY);
        out.append("(");
        out.append(&fmt_duration(elapsed));
        out.append(")");
        out.append(RESET);
        out.append("                    ");
        out
    }
}

// ---------------------------------------------------------------------------
// Tables

/// The most bytes that any of the first `n` texts takes, and no less than `least`.
pub open spec fn widest(texts: Seq<Seq<char>>, least: nat, n: nat) -> nat
    decreases n,
{
    if n == 0 || n > texts.len() {
        least
    } else {
        let w = widest(texts, least, (n - 1) as nat);
        if byte_len(texts[n - 1]) > w {
            byte_len(texts[n - 1])
        } else {
            w
        }
    }
}

fn column_width(texts: &Vec<String>, least: usize) -> (r: usize)
    ensures
        r == widest(views(texts@), least as nat, texts@.len()),
{
    let mut w: usize = least;
    for i in 0..texts.len()
        invariant
            w == widest(views(texts@), least as nat, i as nat),
    {
        let n = texts[i].as_str().as_bytes().len();
        assert(views(texts@)[i as int] == texts@[i as int]@);
        if n > w {
            w = n;
        }
    }
    w
}

/// The sum of the sizes in the first `n` rows.
pub open spec fn total_size(rows: Seq<(Seq<char>, Seq<char>, u64)>, n: nat) -> nat
    decreases n,
{
    if n == 0 || n > rows.len() {
        0
    } else {
        total_size(rows, (n - 1) as nat) + rows[n - 1].2 as nat
    }
}

/// The rows of a dependency table, up to the one before `n`.
pub open spec fn table_rows(
    rows: Seq<(Seq<char>, Seq<char>, u64)>,
    name_width: nat,
    version_width: nat,
    n: nat,
) -> Seq<char>
    decreases n,
{
    if n == 0 || n > rows.len() {
        seq![]
    } else {
        let (name, version, size) = rows[n - 1];
        table_rows(rows, name_width, version_width, (n - 1) as nat) + "  "@ + padded_right(
            name,
            name_width,
        ) + "  "@ + GRAY@ + padded_right(version, version_width) + RESET@ + "  "@ + padded_left(
            size_text(size as nat),
            10,
        ) + "\n"@
    }
}

/// A line of a dependency table that is set off in one style.
pub open spec fn table_line(
    style: Seq<char>,
    name: Seq<char>,
    version: Seq<char>,
    size: Seq<char>,
    name_width: nat,
    version_width: nat,
) -> Seq<char> {
    "  "@ + style + padded_right(name, name_width) + "  "@ + padded_right(version, version_width)
        + "  "@ + padded_left(size, 10) + RESET@ + "\n"@
}

/// The names of the dependencies.
pub open spec fn row_names(rows: Seq<(Seq<char>, Seq<char>, u64)>) -> Seq<Seq<char>> {
    rows.map_values(|r: (Seq<char>, Seq<char>, u64)| r.0)
}

/// The versions of the dependencies.
pub open spec fn row_versions(rows: Seq<(Seq<char>, Seq<char>, u64)>) -> Seq<Seq<char>> {
    rows.map_values(|r: (Seq<char>, Seq<char>, u64)| r.1)
}

/// A table of dependencies with their sizes and the sum of these; nothing where
/// there are none.
pub open spec fn table_text(rows: Seq<(Seq<char>, Seq<char>, u64)>) -> Seq<char> {
    let nw = widest(row_names(rows), 10, rows.len());
    let vw = widest(row_versions(rows), 7, rows.len());
    if rows.len() == 0 {
        seq![]
    } else {
        table_line(BOLD@, "DEPENDENCY"@, "VERSION"@, "SIZE"@, nw, vw) + table_rows(
            rows,
            nw,
            vw,
            rows.len(),
        ) + table_line(DIM@, ""@, "total"@, size_text(total_size(rows, rows.len())), nw, vw)
    }
}

/// The texts of a table's rows.
pub open spec fn table_views(v: Seq<(String, String, u64)>) -> Seq<(Seq<char>, Seq<char>, u64)> {
    v.map_values(|r: (String, String, u64)| (r.0@, r.1@, r.2))
}

fn write_table_line(
    style: &str,
    name: &str,
    version: &str,
    size: &str,
    name_width: usize,
    version_width: usize,
) -> (r: String)
    ensures
        r@ == table_line(
            style@,
            name@,
            version@,
            size@,
            name_width as nat,
            version_width as nat,
        ),
{
    let mut out = concat2("  ", style);
    out.append(&pad_right(name, name_width));
    out.append("  ");
    out.append(&pad_right(version, version_width));
    out.append("  ");
    out.append(&pad_left(size, 10));
    out.append(RESET);
    out.append("\n");
    out
}

/// A table of dependencies with their sizes.
pub fn dependency_table(rows: &Vec<(String, String, u64)>) -> (r: String)
    requires
        total_size(table_views(rows@), rows@.len()) <= u64::MAX,
    ensures
        r@ == table_text(table_views(rows@)),
{
    let ghost all = table_views(rows@);
    assert(all.len() == rows@.len());
    if rows.len() == 0 {
        return String::new();
    }
    let mut names: Vec<String> = Vec::new();
    let mut versions: Vec<String> = Vec::new();
    for i in 0..rows.len()
        invariant
            names@.len() == i,
            versions@.len() == i,
            forall|j: int| 0 <= j < i ==> (#[trigger] names@[j])@ == rows@[j].0@,
            forall|j: int| 0 <= j < i ==> (#[trigger] versions@[j])@ == rows@[j].1@,
    {
        names.push(rows[i].0.clone());
        versions.push(rows[i].1.clone());
    }
    proof {
        assert(views(names@) =~= row_names(all));
        assert(views(versions@) =~= row_versions(all));
    }
    let nw = column_width(&names, 10);
    let vw = column_width(&versions, 7);
    let mut body = String::new();
    let mut total: u64 = 0;
    for i in 0..rows.len()
        invariant
            all == table_views(rows@),
            total_size(all, all.len()) <= u64::MAX,
            total == total_size(all, i as nat),
            body@ == table_rows(all, nw as nat, vw as nat, i as nat),
    {
        proof {
            assert(all[i as int] == (rows@[i as int].0@, rows@[i as int].1@, rows@[i as int].2));
            total_size_grows(all, (i + 1) as nat, all.len());
        }
        total = total + rows[i].2;
        body.append("  ");
        body.append(&pad_right(&rows[i].0, nw));
        body.append("  ");
        body.append(GRAY);
        body.append(&pad_right(&rows[i].1, vw));
        body.append(RESET);
        body.append("  ");
        body.append(&pad_left(&fmt_bytes(rows[i].2), 10));
        body.append("\n");
    }
    let mut out = write_table_line(BOLD, "DEPENDENCY", "VERSION", "SIZE", nw, vw);
    out.append(&body);
    out.append(&write_table_line(DIM, "", "total", &fmt_bytes(total), nw, vw));
    out
}

proof fn total_size_grows(rows: Seq<(Seq<char>, Seq<char>, u64)>, m: nat, n: nat)
    requires
        m <= n <= rows.len(),
    ensures
        total_size(rows, m) <= total_size(rows, n),
    decreases n,
{
    if m < n {
        total_size_grows(rows, m, (n - 1) as nat);
    }
}

/// The lines of a summary for the first `n` ABIs.
pub open spec fn abi_lines(per_abi: Seq<(Seq<char>, u64)>, n: nat) -> Seq<char>
    decreases n,
{
    if n == 0 || n > per_abi.len() {
        seq![]
    } else {
        let (abi, size) = per_abi[n - 1];
        abi_lines(per_abi, (n - 1) as nat) + boxed(
            GREEN@,
            "    "@ + GRAY@ + padded_right(abi, 14) + RESET@ + "  "@ + size_text(size as nat),
        )
    }
}

/// The texts of a list of sizes.
pub open spec fn size_views(v: Seq<(String, u64)>) -> Seq<(Seq<char>, u64)> {
    v.map_values(|p: (String, u64)| (p.0@, p.1))
}

/// The box at the end of a build, with the size of each ABI's library and of the
/// APK.
pub fn build_summary(
    apk_path: &str,
    apk_size: u64,
    per_abi: &Vec<(String, u64)>,
    elapsed: &Elapsed,
) -> (r: String)
    ensures
        r@ == box_top(GREEN@) + boxed(
            GREEN@,
            "  "@ + BOLD@ + "✔ build succeeded"@ + RESET@ + "  "@ + DIM@ + "in "@ + duration_text(
                *elapsed,
            ) + RESET@,
        ) + abi_lines(size_views(per_abi@), per_abi@.len()) + boxed(
            GREEN@,
            "  "@ + BOLD@ + "APK"@ + RESET@ + "  "@ + apk_path@ + " "@ + GRAY@ + "("@ + size_text(
                apk_size as nat,
            ) + ")"@ + RESET@,
        ) + box_bottom(GREEN@),
{
    let mut title = concat3("  ", BOLD, "✔ build succeeded");
    title.append(RESET);
    title.append("  ");
    title.append(DIM);
    title.append("in ");
    title.append(&fmt_duration(elapsed));
    title.append(RESET);
    let mut abis = String::new();
    let ghost all = size_views(per_abi@);
    for i in 0..per_abi.len()
        invariant
            all == size_views(per_abi@),
            abis@ == abi_lines(all, i as nat),
    {
        assert(all[i as int] == (per_abi@[i as int].0@, per_abi@[i as int].1));
        let mut line = concat2("    ", GRAY);
        line.append(&pad_right(&per_abi[i].0, 14));
        line.append(RESET);
        line.append("  ");
        line.append(&fmt_bytes(per_abi[i].1));
        push_boxed(&mut abis, GREEN, &line);
    }
    let mut apk = concat3("  ", BOLD, "APK");
    apk.append(RESET);
    apk.append("  ");
    apk.append(apk_path);
    apk.append(" ");
    apk.append(GRAY);
    apk.append("(");
    apk.append(&fmt_bytes(apk_size));
    apk.append(")");
    apk.append(RESET);
    let mut out = String::new();
    push_box_top(&mut out, GREEN);
    assert(out@ =~= box_top(GREEN@));
    push_boxed(&mut out, GREEN, &title);
    out.append(&abis);
    push_boxed(&mut out, GREEN, &apk);
    push_box_bottom(&mut out, GREEN);
    out
}

// ---------------------------------------------------------------------------
// What the texts say

/// Rounding is to the nearest whole, and from the middle to the even one.
pub proof fn rounded_is_nearest(a: nat, b: nat)
    requires
        b > 0,
    ensures
        2 * (rounded(a, b) * b) <= 2 * a + b,
        2 * a <= 2 * (rounded(a, b) * b) + b,
        (2 * (rounded(a, b) * b) == 2 * a + b || 2 * a == 2 * (rounded(a, b) * b) + b)
            ==> rounded(a, b) % 2 == 0,
{
    let q = a / b;
    let r = a % b;
    assert(a == q * b + r) by (nonlinear_arith)
        requires
            b > 0,
            q == a / b,
            r == a % b,
    ;
    assert((q + 1) * b == q * b + b) by (nonlinear_arith);
}

/// A size of whole units is shown as their number with a zero behind the point; one of
/// less than the first unit is shown as it is.
pub proof fn whole_units_are_shown(k: nat, unit: nat)
    requires
        k < 1024,
        unit == 1024 || unit == 1024 * 1024 || unit == 1024 * 1024 * 1024 || unit == 1024 * 1024
            * 1024 * 1024,
    ensures
        size_text(k) == decimal(k) + " B"@,
        k > 0 ==> size_text(k * unit) == decimal(k) + "."@ + "0"@ + (if unit == 1024 {
            " KB"@
        } else if unit == 1024 * 1024 {
            " MB"@
        } else if unit == 1024 * 1024 * 1024 {
            " GB"@
        } else {
            " TB"@
        }),
{
    if k > 0 {
        let n = k * unit;
        assert(unit <= n && n < 1024 * unit) by (nonlinear_arith)
            requires
                n == k * unit,
                0 < k < 1024,
                unit > 0,
        ;
        assert(unit_bytes(n) == unit);
        assert(double_step(n, 1) == 1);
        assert(rounded(n, 1) == n) by {
            assert(n / 1 == n && n % 1 == 0);
        }
        assert(as_double(n) == n);
        assert(n * 10 == (k * 10) * unit) by (nonlinear_arith)
            requires
                n == k * unit,
        ;
        assert(((k * 10) * unit) / unit == k * 10 && ((k * 10) * unit) % unit == 0)
            by (nonlinear_arith)
            requires
                unit > 0,
        ;
        assert(rounded(n * 10, unit) == k * 10);
        assert((k * 10) / 10 == k && (k * 10) % 10 == 0);
        assert(decimal(0) =~= "0"@) by {
            reveal_strlit("0");
        }
    }
}

/// The unit that a size is shown in is the greatest that it holds one of.
pub proof fn unit_fits_size(n: nat)
    requires
        0 < n < 0x400 * 0x10000000000,
    ensures
        unit_bytes(n) <= n < 1024 * unit_bytes(n),
{
}

/// Minutes and seconds are those of the time.
pub proof fn minutes_read_back(m: nat, s: nat)
    requires
        s < 60,
    ensures
        minutes_text(60 * m + s) == decimal(m) + "m "@ + (if s < 10 {
            seq!['0'] + decimal(s)
        } else {
            decimal(s)
        }) + "s"@,
{
    assert((60 * m + s) / 60 == m && (60 * m + s) % 60 == s);
}

/// A time of less than a second is shown in milliseconds, one of less than a minute in
/// seconds with two decimals, and any other in minutes and seconds.
pub proof fn duration_by_length(d: Elapsed)
    ensures
        d.millis < 1000 ==> duration_text(d) == decimal(d.millis as nat) + "ms"@,
        d.millis >= 1000 && d.secs < 60 ==> duration_text(d) == d.two_decimals@ + "s"@,
        d.millis >= 1000 && d.secs >= 60 ==> duration_text(d) == decimal((d.secs / 60) as nat)
            + "m "@ + decimal2((d.secs % 60) as nat) + "s"@,
{
}

/// Padding fills a column up with blanks behind or before a text, and never cuts it.
pub proof fn padding_fills_column(s: Seq<char>, width: nat)
    ensures
        padded_right(s, width).len() == if s.len() < width {
            width
        } else {
            s.len()
        },
        padded_left(s, width).len() == padded_right(s, width).len(),
        s.is_prefix_of(padded_right(s, width)),
        s.is_suffix_of(padded_left(s, width)),
        forall|i: int|
            s.len() <= i < padded_right(s, width).len() ==> #[trigger] padded_right(s, width)[i]
                == ' ',
        forall|i: int|
            0 <= i < padded_left(s, width).len() - s.len() ==> #[trigger] padded_left(s, width)[i]
                == ' ',
{
    let r = padded_right(s, width);
    let l = padded_left(s, width);
    assert(r.subrange(0, s.len() as int) =~= s);
    assert(l.subrange(l.len() - s.len(), l.len() as int) =~= s);
}

/// A bar is as wide as it is asked for. It is full up to where it is filled, and empty
/// behind that.
pub proof fn bar_is_filled(filled: nat, width: nat, full: char, empty: char)
    ensures
        bar_text(filled, width, seq![full], seq![empty]).len() == width,
        forall|i: int|
            0 <= i < width ==> #[trigger] bar_text(filled, width, seq![full], seq![empty])[i] == (
            if i < filled {
                full
            } else {
                empty
            }),
{
    let n = if filled < width {
        filled
    } else {
        width
    };
    repeated_one(full, n);
    repeated_one(empty, (width - n) as nat);
}

proof fn repeated_one(c: char, n: nat)
    ensures
        repeated(seq![c], n).len() == n,
        forall|i: int| 0 <= i < n ==> #[trigger] repeated(seq![c], n)[i] == c,
    decreases n,
{
    if n > 0 {
        repeated_one(c, (n - 1) as nat);
    }
}

/// The spinner goes round in ten frames, no two of which look the same.
pub proof fn spinner_goes_round(a: nat, b: nat)
    ensures
        spinner_frame(a) == spinner_frame(b) <==> a % 10 == b % 10,
        spinner_frame(a + 10) == spinner_frame(a),
{
    assert("⠋"@[0] == '⠋' && "⠋"@.len() == 1) by {
        reveal_strlit("⠋");
    }
    assert("⠙"@[0] == '⠙' && "⠙"@.len() == 1) by {
        reveal_strlit("⠙");
    }
    assert("⠹"@[0] == '⠹' && "⠹"@.len() == 1) by {
        reveal_strlit("⠹");
    }
    assert("⠸"@[0] == '⠸' && "⠸"@.len() == 1) by {
        reveal_strlit("⠸");
    }
    assert("⠼"@[0] == '⠼' && "⠼"@.len() == 1) by {
        reveal_strlit("⠼");
    }
    assert("⠴"@[0] == '⠴' && "⠴"@.len() == 1) by {
        reveal_strlit("⠴");
    }
    assert("⠦"@[0] == '⠦' && "⠦"@.len() == 1) by {
        reveal_strlit("⠦");
    }
    assert("⠧"@[0] == '⠧' && "⠧"@.len() == 1) by {
        reveal_strlit("⠧");
    }
    assert("⠇"@[0] == '⠇' && "⠇"@.len() == 1) by {
        reveal_strlit("⠇");
    }
    assert("⠏"@[0] == '⠏' && "⠏"@.len() == 1) by {
        reveal_strlit("⠏");
    }
}

/// A name is shortened from its beginning: what is left of it is its end, and as much of
/// it as fits.
pub proof fn end_fits(s: Seq<char>, max: nat, p: int)
    requires
        0 <= p <= s.len(),
        byte_len(s.skip(p)) <= max,
    ensures
        end_within(s, max, p).is_suffix_of(s),
        byte_len(end_within(s, max, p)) <= max,
        end_within(s, max, p).len() >= s.len() - p,
        end_within(s, max, p) == s || byte_len(
            s.skip(s.len() - end_within(s, max, p).len() - 1),
        ) > max,
    decreases p,
{
    if p > 0 && byte_len(s.skip(p - 1)) <= max {
        end_fits(s, max, p - 1);
    } else {
        let e = s.skip(p);
        assert(s.subrange(p, s.len() as int) =~= e);
        if p == 0 {
            assert(e =~= s);
        }
    }
}

/// A name of at most 34 bytes is shown as it is. Of a longer one the end is shown, of
/// at most 33 bytes, behind a sign that something is left out.
pub proof fn long_names_are_cut(s: Seq<char>)
    ensures
        byte_len(s) <= 34 ==> short_name(s) == s,
        byte_len(s) > 34 ==> short_name(s)[0] == '…' && short_name(s).skip(1).is_suffix_of(s)
            && byte_len(short_name(s).skip(1)) <= 33,
{
    if byte_len(s) > 34 {
        assert(s.skip(s.len() as int) =~= seq![]);
        assert(byte_len(seq![]) == 0);
        end_fits(s, 33, s.len() as int);
        reveal_strlit("…");
        assert(short_name(s).skip(1) =~= end_within(s, 33, s.len() as int));
    }
}

/// The total is the sum of the sizes, in whatever parts it is taken.
pub proof fn total_adds_up(
    a: Seq<(Seq<char>, Seq<char>, u64)>,
    b: Seq<(Seq<char>, Seq<char>, u64)>,
    r: (Seq<char>, Seq<char>, u64),
)
    ensures
        total_size(a + b, (a + b).len()) == total_size(a, a.len()) + total_size(b, b.len()),
        total_size(seq![r], 1) == r.2,
        total_size(seq![], 0) == 0,
    decreases b.len(),
{
    reveal_with_fuel(total_size, 2);
    if b.len() == 0 {
        assert(a + b =~= a);
    } else {
        let fewer = b.drop_last();
        total_adds_up(a, fewer, r);
        total_of_part(a + b, a + fewer, (a + fewer).len());
        total_of_part(b, fewer, fewer.len());
        assert((a + b)[(a + b).len() - 1] == b.last());
    }
}

proof fn total_of_part(
    a: Seq<(Seq<char>, Seq<char>, u64)>,
    b: Seq<(Seq<char>, Seq<char>, u64)>,
    n: nat,
)
    requires
        n <= a.len(),
        n <= b.len(),
        forall|i: int| 0 <= i < n ==> a[i] == b[i],
    ensures
        total_size(a, n) == total_size(b, n),
    decreases n,
{
    if n > 0 {
        total_of_part(a, b, (n - 1) as nat);
    }
}

/// A column is as wide as its widest text, and at least as wide as its heading.
pub proof fn column_holds_its_texts(texts: Seq<Seq<char>>, least: nat, n: nat)
    requires
        n <= texts.len(),
    ensures
        least <= widest(texts, least, n),
        forall|i: int| 0 <= i < n ==> byte_len(#[trigger] texts[i]) <= widest(texts, least, n),
        widest(texts, least, n) == least || exists|i: int|
            0 <= i < n && byte_len(#[trigger] texts[i]) == widest(texts, least, n),
    decreases n,
{
    if n > 0 {
        column_holds_its_texts(texts, least, (n - 1) as nat);
        assert(byte_len(texts[n - 1]) <= widest(texts, least, n));
    }
}

/// A table shows every dependency with its version and its size, and the total of the
/// sizes behind them.
#[verifier::rlimit(40)]
pub proof fn table_shows_every_row(rows: Seq<(Seq<char>, Seq<char>, u64)>, i: int)
    requires
        0 <= i < rows.len(),
    ensures
        contains_text(table_text(rows), rows[i].0),
        contains_text(table_text(rows), rows[i].1),
        contains_text(table_text(rows), size_text(rows[i].2 as nat)),
        contains_text(table_text(rows), size_text(total_size(rows, rows.len()))),
{
    let nw = widest(row_names(rows), 10, rows.len());
    let vw = widest(row_versions(rows), 7, rows.len());
    let head = table_line(BOLD@, "DEPENDENCY"@, "VERSION"@, "SIZE"@, nw, vw);
    let body = table_rows(rows, nw, vw, rows.len());
    let total = size_text(total_size(rows, rows.len()));
    let foot = table_line(DIM@, ""@, "total"@, total, nw, vw);
    rows_show_row(rows, nw, vw, rows.len(), i);
    contains_in_part(head, body, foot, rows[i].0);
    contains_in_part(head, body, foot, rows[i].1);
    contains_in_part(head, body, foot, size_text(rows[i].2 as nat));
    let a = "  "@ + DIM@ + padded_right(""@, nw) + "  "@ + padded_right("total"@, vw) + "  "@
        + spaces(10 - total.len());
    let b = RESET@ + "\n"@;
    contains_in_middle(a, total, b);
    assert(a + total + b =~= foot);
    contains_in_part(head + body, foot, seq![], total);
    assert(head + body + foot + seq![] =~= table_text(rows));
}

#[verifier::rlimit(80)]
proof fn rows_show_row(
    rows: Seq<(Seq<char>, Seq<char>, u64)>,
    nw: nat,
    vw: nat,
    n: nat,
    i: int,
)
    requires
        0 <= i < n <= rows.len(),
    ensures
        contains_text(table_rows(rows, nw, vw, n), rows[i].0),
        contains_text(table_rows(rows, nw, vw, n), rows[i].1),
        contains_text(table_rows(rows, nw, vw, n), size_text(rows[i].2 as nat)),
    decreases n,
{
    let (name, version, size) = rows[n - 1];
    let text = size_text(size as nat);
    let before = table_rows(rows, nw, vw, (n - 1) as nat);
    let all = table_rows(rows, nw, vw, n);
    let x = spaces(nw - name.len()) + "  "@ + GRAY@ + padded_right(version, vw) + RESET@ + "  "@
        + padded_left(text, 10) + "\n"@;
    let y = spaces(vw - version.len()) + RESET@ + "  "@ + padded_left(text, 10) + "\n"@;
    let line = "  "@ + padded_right(name, nw) + "  "@ + GRAY@ + padded_right(version, vw) + RESET@
        + "  "@ + padded_left(text, 10) + "\n"@;
    assert(all =~= before + line);
    if i < n - 1 {
        rows_show_row(rows, nw, vw, (n - 1) as nat, i);
        contains_in_part(seq![], before, line, rows[i].0);
        contains_in_part(seq![], before, line, rows[i].1);
        contains_in_part(seq![], before, line, size_text(rows[i].2 as nat));
        assert(seq![] + before + line =~= all);
    } else {
        contains_in_middle(before + "  "@, name, x);
        assert(before + "  "@ + name + x =~= all);
        let b = before + "  "@ + padded_right(name, nw) + "  "@ + GRAY@;
        contains_in_middle(b, version, y);
        assert(b + version + y =~= all);
        let c = b + padded_right(version, vw) + RESET@ + "  "@ + spaces(10 - text.len());
        contains_in_middle(c, text, "\n"@);
        assert(c + text + "\n"@ =~= all);
    }
}

/// The summary of a build shows every ABI with the size of its library.
#[verifier::rlimit(80)]
pub proof fn summary_shows_every_abi(per_abi: Seq<(Seq<char>, u64)>, n: nat, i: int)
    requires
        0 <= i < n <= per_abi.len(),
    ensures
        contains_text(abi_lines(per_abi, n), per_abi[i].0),
        contains_text(abi_lines(per_abi, n), size_text(per_abi[i].1 as nat)),
    decreases n,
{
    let (abi, size) = per_abi[n - 1];
    let text = size_text(size as nat);
    let before = abi_lines(per_abi, (n - 1) as nat);
    let all = abi_lines(per_abi, n);
    let line = boxed(
        GREEN@,
        "    "@ + GRAY@ + padded_right(abi, 14) + RESET@ + "  "@ + text,
    );
    if i < n - 1 {
        summary_shows_every_abi(per_abi, (n - 1) as nat, i);
        contains_in_part(seq![], before, line, per_abi[i].0);
        contains_in_part(seq![], before, line, size_text(per_abi[i].1 as nat));
        assert(seq![] + before + line =~= all);
    } else {
        let a = before + marked(GREEN@, "│"@) + "    "@ + GRAY@;
        let x = spaces(14 - abi.len()) + RESET@ + "  "@ + text + "\n"@;
        contains_in_middle(a, abi, x);
        assert(a + abi + x =~= all);
        let b = a + padded_right(abi, 14) + RESET@ + "  "@;
        contains_in_middle(b, text, "\n"@);
        assert(b + text + "\n"@ =~= all);
    }
}

/// How much was written is noted where anything was.
pub proof fn written_is_noted(bytes: nat)
    ensures
        written_note(0).len() == 0,
        bytes > 0 ==> contains_text(written_note(bytes), size_text(bytes)),
{
    reveal_strlit("");
    tells("  "@ + GRAY@, size_text(bytes));
    tells_more("  "@ + GRAY@ + size_text(bytes), RESET@, size_text(bytes));
}

/// The sign of a running step goes through four frames, each shown three times, growing
/// and shrinking again.
pub proof fn pulse_grows_and_shrinks(k: nat, r: nat)
    requires
        r < 3,
    ensures
        pulse_frame(12 * k + r) == "·"@,
        pulse_frame(12 * k + 3 + r) == "•"@,
        pulse_frame(12 * k + 6 + r) == "●"@,
        pulse_frame(12 * k + 9 + r) == pulse_frame(12 * k + 3 + r),
{
    assert((12 * k + r) / 3 == 4 * k && (12 * k + 3 + r) / 3 == 4 * k + 1);
    assert((12 * k + 6 + r) / 3 == 4 * k + 2 && (12 * k + 9 + r) / 3 == 4 * k + 3);
}

/// A marked word is bold and in its colour, which end behind it.
pub proof fn marks_end(color: Seq<char>, word: Seq<char>)
    ensures
        (BOLD@ + color).is_prefix_of(marked(color, word)),
        (word + RESET@).is_suffix_of(marked(color, word)),
        marked(color, word).len() == BOLD@.len() + color.len() + word.len() + RESET@.len(),
{
    let m = marked(color, word);
    let a = BOLD@ + color;
    let b = word + RESET@;
    assert(m.subrange(0, a.len() as int) =~= a);
    assert(m.subrange(m.len() - b.len(), m.len() as int) =~= b);
}

/// A nested step is set in by two blanks for each level.
pub proof fn steps_are_set_in(depth: nat, color: Seq<char>, mark: Seq<char>)
    ensures
        step_mark(depth + 1, color, mark) == seq![' ', ' '] + step_mark(depth, color, mark),
        step_mark(0, color, mark) == marked(color, mark).push(' '),
{
    reveal_strlit("  ");
    reveal_strlit(" ");
    let two = seq![' ', ' '];
    assert("  "@ =~= two);
    indent_by_one(depth);
    assert(step_mark(depth + 1, color, mark) =~= two + step_mark(depth, color, mark));
    assert(step_mark(0, color, mark) =~= marked(color, mark).push(' '));
}

proof fn indent_by_one(n: nat)
    ensures
        repeated("  "@, n + 1) == "  "@ + repeated("  "@, n),
    decreases n,
{
    if n == 0 {
        assert(repeated("  "@, 0) + "  "@ =~= "  "@ + repeated("  "@, 0));
    } else {
        indent_by_one((n - 1) as nat);
        let r = repeated("  "@, (n - 1) as nat);
        assert("  "@ + r + "  "@ =~= "  "@ + (r + "  "@));
    }
}

} // verus!
