//! Native crash backtraces: reading them out of a log, and putting function
//! names and source lines back in with the NDK's `llvm-addr2line`.
use crate::ndk::{NdkHome, toolchain_dir};
use crate::num::{
    all_digits, decimal2, decimal2_read_back, is_all_digits, number_of, parse_number,
    push_decimal2, push_signed, signed_decimal,
};
use crate::path::{HostOs, exe_name, exe_suffix, join_path, joined_path};
use crate::text::{
    ascii_digit, ascii_hex_digit, chars_of, clone_opt, concat3, contains_text, find_char,
    find_char_from, is_hex_digit, is_white_space, join, joined, joined_keeps_ends, lines, lines_of,
    no_white_space, one_more_line, opt_view, same, tells, tells_more, text_of, trim, trim_end_char,
    trim_left, trim_right, trim_right_char, trimmed, views, white_space, white_space_first,
    word_first, words, words_keep_ends, words_of,
};
use vstd::prelude::*;

verus! {

/// Why a backtrace could not be symbolized.
#[derive(Debug)]
pub enum SymbolizeError {
    UnstrippedLibMissing(String),
    ToolFailed(i32),
}

impl SymbolizeError {
    /// The text of the message shown for the error.
    pub open spec fn text(&self) -> Seq<char> {
        match *self {
            SymbolizeError::UnstrippedLibMissing(path) => "unstripped library not found at "@
                + path@
                + "; symbolication needs the debug-info copy cargo produced before `rusk build --release` stripped it — check target/<triple>/release/deps/"@,
            SymbolizeError::ToolFailed(status) => "`llvm-addr2line` exited with status "@
                + signed_decimal(status as int),
        }
    }

    /// The message shown for the error.
    pub fn message(&self) -> (r: String)
        ensures
            r@ == self.text(),
    {
        match self {
            SymbolizeError::UnstrippedLibMissing(path) => concat3(
                "unstripped library not found at ",
                path,
                "; symbolication needs the debug-info copy cargo produced before `rusk build --release` stripped it — check target/<triple>/release/deps/",
            ),
            SymbolizeError::ToolFailed(status) => {
                let mut out = "`llvm-addr2line` exited with status ".to_owned();
                push_signed(&mut out, *status);
                out
            },
        }
    }
}

/// One frame of a backtrace as the log shows it.
#[derive(Debug)]
pub struct BacktraceFrame {
    pub frame_number: u32,
    pub program_counter: String,
    pub library: String,
    /// The symbol, where the log already has one.
    pub existing_symbol: Option<String>,
}

/// The texts of a frame.
pub struct FrameView {
    pub frame_number: u32,
    pub program_counter: Seq<char>,
    pub library: Seq<char>,
    pub existing_symbol: Option<Seq<char>>,
}

impl View for BacktraceFrame {
    type V = FrameView;

    open spec fn view(&self) -> FrameView {
        FrameView {
            frame_number: self.frame_number,
            program_counter: self.program_counter@,
            library: self.library@,
            existing_symbol: opt_view(self.existing_symbol),
        }
    }
}

impl Clone for BacktraceFrame {
    fn clone(&self) -> (r: Self)
        ensures
            r@ == self@,
    {
        BacktraceFrame {
            frame_number: self.frame_number,
            program_counter: self.program_counter.clone(),
            library: self.library.clone(),
            existing_symbol: clone_opt(&self.existing_symbol),
        }
    }
}

/// The texts of a list of frames.
pub open spec fn frame_views(v: Seq<BacktraceFrame>) -> Seq<FrameView> {
    v.map_values(|f: BacktraceFrame| f@)
}

/// What stands between the round brackets that enclose a text.
pub open spec fn in_brackets(s: Seq<char>) -> Option<Seq<char>> {
    if s.len() >= 2 && s[0] == '(' && s.last() == ')' {
        Some(s.subrange(1, s.len() - 1))
    } else {
        None
    }
}

/// Whether `s` is one or more hexadecimal digits.
pub open spec fn all_hex(s: Seq<char>) -> bool {
    s.len() > 0 && forall|i: int| 0 <= i < s.len() ==> ascii_hex_digit(#[trigger] s[i])
}

fn is_all_hex(s: &str) -> (r: bool)
    ensures
        r == all_hex(s@),
{
    let v = chars_of(s);
    for i in 0..v.len()
        invariant
            v@ == s@,
            forall|j: int| 0 <= j < i ==> ascii_hex_digit(#[trigger] v@[j]),
    {
        if !is_hex_digit(v[i]) {
            return false;
        }
    }
    v.len() > 0
}

/// The frame that a line shows: right behind its first `#` a number in decimal
/// digits, then the word `pc`, an address in hexadecimal digits and a library, and
/// perhaps a symbol in brackets.
pub open spec fn frame_in(line: Seq<char>) -> Option<FrameView> {
    let hash = find_char(line, '#', 0);
    let rest = line.skip(hash + 1);
    let words = words_of(rest);
    if hash < line.len() && words.len() >= 4 && !white_space(rest[0]) && all_digits(words[0])
        && words[1] == "pc"@ && all_hex(words[2]) {
        match number_of(words[0], u32::MAX as nat) {
            Some(n) => Some(
                FrameView {
                    frame_number: n as u32,
                    program_counter: words[2],
                    library: trim_right_char(words[3], ')'),
                    existing_symbol: in_brackets(trimmed(joined(words.skip(4), " "@))),
                },
            ),
            None => None,
        }
    } else {
        None
    }
}

/// The frames that lines show; other lines are passed over.
pub open spec fn frames_in(lines: Seq<Seq<char>>) -> Seq<FrameView>
    decreases lines.len(),
{
    if lines.len() == 0 {
        seq![]
    } else {
        match frame_in(lines.last()) {
            Some(f) => frames_in(lines.drop_last()).push(f),
            None => frames_in(lines.drop_last()),
        }
    }
}

fn find_in_brackets(s: &str) -> (r: Option<String>)
    ensures
        opt_view(r) == in_brackets(s@),
{
    let v = chars_of(s);
    if v.len() >= 2 && v[0] == '(' && v[v.len() - 1] == ')' {
        Some(text_of(&v, 1, v.len() - 1))
    } else {
        None
    }
}

fn read_frame(line: &str) -> (r: Option<BacktraceFrame>)
    ensures
        match r {
            Some(f) => frame_in(line@) == Some(f@),
            None => frame_in(line@) is None,
        },
{
    let v = chars_of(line);
    let hash = find_char_from(&v, '#', 0);
    if hash == v.len() {
        return None;
    }
    let rest = text_of(&v, hash + 1, v.len());
    assert(rest@ =~= line@.skip(hash + 1));
    let parts = words(&rest);
    let ghost w = words_of(rest@);
    assert(w == views(parts@));
    if parts.len() < 4 {
        return None;
    }
    assert(w[0] == parts@[0]@ && w[1] == parts@[1]@ && w[2] == parts@[2]@ && w[3] == parts@[3]@);
    if hash + 1 == v.len() {
        assert(rest@.len() == 0);
        assert(w.len() == 0);
        return None;
    }
    assert(rest@[0] == v@[hash + 1]);
    if is_white_space(v[hash + 1]) || !is_all_digits(&parts[0]) || !is_all_hex(&parts[2]) {
        return None;
    }
    let number = match parse_number(&parts[0], 4294967295) {
        Some(n) => n,
        None => {
            return None;
        },
    };
    if !same(&parts[1], "pc") {
        return None;
    }
    let mut symbol: Vec<String> = Vec::new();
    for i in 4..parts.len()
        invariant
            w == views(parts@),
            4 <= i <= parts.len(),
            views(symbol@) == w.skip(4).take(i - 4),
    {
        let ghost so_far = symbol@;
        symbol.push(parts[i].clone());
        proof {
            assert(views(symbol@) =~= views(so_far).push(parts@[i as int]@));
            assert(w.skip(4).take(i - 3) =~= w.skip(4).take(i - 4).push(w[i as int]));
        }
    }
    assert(w.skip(4).take(w.len() - 4) =~= w.skip(4));
    let remainder = trim(&join(&symbol, " "));
    Some(
        BacktraceFrame {
            frame_number: number as u32,
            program_counter: parts[2].clone(),
            library: trim_end_char(&parts[3], ')'),
            existing_symbol: find_in_brackets(&remainder),
        },
    )
}

/// The frames in a captured log, in order. Lines that show no frame are passed
/// over.
pub fn parse_backtrace(logcat_text: &str) -> (r: Vec<BacktraceFrame>)
    ensures
        frame_views(r@) == frames_in(lines_of(logcat_text@)),
{
    let all_lines = lines(logcat_text);
    let ghost all = lines_of(logcat_text@);
    let mut frames: Vec<BacktraceFrame> = Vec::new();
    assert(frame_views(frames@) =~= seq![]);
    for i in 0..all_lines.len()
        invariant
            all == views(all_lines@),
            frame_views(frames@) == frames_in(all.take(i as int)),
    {
        proof {
            assert(all[i as int] == all_lines@[i as int]@);
            assert(all.take(i + 1).drop_last() =~= all.take(i as int));
            assert(all.take(i + 1).last() == all[i as int]);
        }
        if let Some(f) = read_frame(&all_lines[i]) {
            let ghost so_far = frames@;
            frames.push(f);
            assert(frame_views(frames@) =~= frame_views(so_far).push(f@));
        }
    }
    assert(all.take(all.len() as int) =~= all);
    frames
}

/// A frame with the function that it is in and, where that is known, the source
/// file and line.
#[derive(Debug)]
pub struct SymbolizedFrame {
    pub frame_number: u32,
    pub program_counter: String,
    pub library: String,
    pub function: String,
    pub file_line: Option<String>,
}

/// The texts of a symbolized frame.
pub struct SymbolizedView {
    pub frame_number: u32,
    pub program_counter: Seq<char>,
    pub library: Seq<char>,
    pub function: Seq<char>,
    pub file_line: Option<Seq<char>>,
}

impl View for SymbolizedFrame {
    type V = SymbolizedView;

    open spec fn view(&self) -> SymbolizedView {
        SymbolizedView {
            frame_number: self.frame_number,
            program_counter: self.program_counter@,
            library: self.library@,
            function: self.function@,
            file_line: opt_view(self.file_line),
        }
    }
}

/// The texts of a list of symbolized frames.
pub open spec fn symbolized_views(v: Seq<SymbolizedFrame>) -> Seq<SymbolizedView> {
    v.map_values(|f: SymbolizedFrame| f@)
}

/// Those of the first `n` frames that are in the library, in order.
pub open spec fn frames_of(frames: Seq<FrameView>, lib_name: Seq<char>, n: nat) -> Seq<FrameView>
    decreases n,
{
    if n == 0 || n > frames.len() {
        seq![]
    } else if frames[n - 1].library == lib_name {
        frames_of(frames, lib_name, (n - 1) as nat).push(frames[n - 1])
    } else {
        frames_of(frames, lib_name, (n - 1) as nat)
    }
}

/// The addresses of frames.
pub open spec fn addresses(frames: Seq<FrameView>) -> Seq<Seq<char>> {
    frames.map_values(|f: FrameView| f.program_counter)
}

/// What has to be asked of `llvm-addr2line`: the frames in question and the
/// arguments, which hold the addresses of all of them.
#[derive(Debug)]
pub struct SymbolizePlan {
    pub frames: Vec<BacktraceFrame>,
    pub args: Vec<String>,
}

/// What to ask to symbolize the frames in the library at `unstripped_lib`, whose
/// file name is `lib_name`; nothing where no frame is in it.
pub fn symbolize(
    unstripped_lib: &str,
    lib_is_file: bool,
    lib_name: &str,
    frames: &Vec<BacktraceFrame>,
) -> (r: Result<Option<SymbolizePlan>, SymbolizeError>)
    ensures
        ({
            let relevant = frames_of(frame_views(frames@), lib_name@, frames@.len());
            match r {
                Err(SymbolizeError::UnstrippedLibMissing(path)) => !lib_is_file && path@
                    == unstripped_lib@,
                Err(_) => false,
                Ok(None) => lib_is_file && relevant.len() == 0,
                Ok(Some(plan)) => {
                    &&& lib_is_file
                    &&& relevant.len() > 0
                    &&& frame_views(plan.frames@) == relevant
                    &&& views(plan.args@) == seq!["-f"@, "-C"@, "-e"@, unstripped_lib@]
                        + addresses(relevant)
                },
            }
        }),
{
    if !lib_is_file {
        return Err(SymbolizeError::UnstrippedLibMissing(unstripped_lib.to_owned()));
    }
    let ghost all = frame_views(frames@);
    let mut relevant: Vec<BacktraceFrame> = Vec::new();
    let mut args = vec![
        "-f".to_owned(),
        "-C".to_owned(),
        "-e".to_owned(),
        unstripped_lib.to_owned(),
    ];
    let ghost start = seq!["-f"@, "-C"@, "-e"@, unstripped_lib@];
    assert(frame_views(relevant@) =~= seq![]);
    assert(views(args@) =~= start + addresses(frame_views(relevant@)));
    for i in 0..frames.len()
        invariant
            all == frame_views(frames@),
            frame_views(relevant@) == frames_of(all, lib_name@, i as nat),
            views(args@) == start + addresses(frame_views(relevant@)),
    {
        assert(all[i as int] == frames@[i as int]@);
        if same(&frames[i].library, lib_name) {
            let ghost so_far = relevant@;
            let ghost args_so_far = args@;
            let f = frames[i].clone();
            args.push(f.program_counter.clone());
            relevant.push(f);
            proof {
                assert(frame_views(relevant@) =~= frame_views(so_far).push(f@));
                assert(views(args@) =~= views(args_so_far).push(f@.program_counter));
                assert(addresses(frame_views(relevant@)) =~= addresses(frame_views(so_far)).push(
                    f@.program_counter,
                ));
                assert(views(args@) =~= start + addresses(frame_views(relevant@)));
            }
        }
    }
    if relevant.len() == 0 {
        assert(frame_views(relevant@).len() == 0);
        return Ok(None);
    }
    assert(frame_views(relevant@).len() > 0);
    Ok(Some(SymbolizePlan { frames: relevant, args }))
}

/// The frame at `i` with what the tool printed for it: two lines for each
/// address, the function and then the place, which is `??:0` where it is not
/// known.
pub open spec fn symbolized_at(
    frames: Seq<FrameView>,
    lines: Seq<Seq<char>>,
    i: int,
) -> SymbolizedView {
    SymbolizedView {
        frame_number: frames[i].frame_number,
        program_counter: frames[i].program_counter,
        library: frames[i].library,
        function: if 2 * i < lines.len() {
            lines[2 * i]
        } else {
            "??"@
        },
        file_line: if 2 * i + 1 < lines.len() && lines[2 * i + 1] != "??:0"@ {
            Some(lines[2 * i + 1])
        } else {
            None
        },
    }
}

/// The frames with what the tool printed for them, from how it ended.
pub fn symbolized(
    frames: &Vec<BacktraceFrame>,
    success: bool,
    code: Option<i32>,
    stdout: &str,
) -> (r: Result<Vec<SymbolizedFrame>, SymbolizeError>)
    ensures
        match r {
            Ok(out) => success && symbolized_views(out@) == Seq::new(
                frames@.len(),
                |i: int| symbolized_at(frame_views(frames@), lines_of(stdout@), i),
            ),
            Err(SymbolizeError::ToolFailed(status)) => !success && status == (match code {
                Some(c) => c,
                None => -1i32,
            }),
            Err(_) => false,
        },
{
    if !success {
        return Err(
            SymbolizeError::ToolFailed(
                match code {
                    Some(c) => c,
                    None => -1,
                },
            ),
        );
    }
    let all_lines = lines(stdout);
    let ghost l = lines_of(stdout@);
    let ghost fs = frame_views(frames@);
    let n = all_lines.len();
    let mut out: Vec<SymbolizedFrame> = Vec::new();
    for i in 0..frames.len()
        invariant
            n == all_lines.len(),
            l == views(all_lines@),
            fs == frame_views(frames@),
            out@.len() == i,
            forall|j: int| 0 <= j < i ==> (#[trigger] out@[j])@ == symbolized_at(fs, l, j),
    {
        assert(fs[i as int] == frames@[i as int]@);
        let function = if i < n - n / 2 {
            assert(l[2 * i] == all_lines@[2 * i]@);
            all_lines[2 * i].clone()
        } else {
            "??".to_owned()
        };
        let file_line = if i < n / 2 {
            assert(l[2 * i + 1] == all_lines@[2 * i + 1]@);
            if same(&all_lines[2 * i + 1], "??:0") {
                None
            } else {
                Some(all_lines[2 * i + 1].clone())
            }
        } else {
            None
        };
        out.push(
            SymbolizedFrame {
                frame_number: frames[i].frame_number,
                program_counter: frames[i].program_counter.clone(),
                library: frames[i].library.clone(),
                function,
                file_line,
            },
        );
    }
    assert(symbolized_views(out@) =~= Seq::new(
        frames@.len(),
        |i: int| symbolized_at(fs, l, i),
    ));
    Ok(out)
}

/// The NDK's `llvm-addr2line`.
pub fn addr2line_path(host: HostOs, ndk: &NdkHome) -> (r: String)
    ensures
        r@ == joined_path(
            host,
            toolchain_dir(host, ndk.root@),
            "llvm-addr2line"@ + exe_suffix(host),
        ),
{
    join_path(host, &ndk.toolchain_bin(host), &exe_name(host, "llvm-addr2line"))
}

/// One line of a readable backtrace.
pub open spec fn frame_line(f: SymbolizedView) -> Seq<char> {
    "#"@ + decimal2(f.frame_number as nat) + " pc "@ + f.program_counter + "  "@ + f.library + " ("@
        + f.function + " at "@ + (match f.file_line {
        Some(place) => place,
        None => "<no debug info>"@,
    }) + ")\n"@
}

/// A readable backtrace of the first `n` frames.
pub open spec fn backtrace_text(frames: Seq<SymbolizedView>, n: nat) -> Seq<char>
    decreases n,
{
    if n == 0 || n > frames.len() {
        seq![]
    } else {
        backtrace_text(frames, (n - 1) as nat) + frame_line(frames[n - 1])
    }
}

fn write_frame(f: &SymbolizedFrame) -> (r: String)
    ensures
        r@ == frame_line(f@),
{
    let mut line = "#".to_owned();
    push_decimal2(&mut line, f.frame_number as u64);
    line.append(" pc ");
    line.append(&f.program_counter);
    line.append("  ");
    line.append(&f.library);
    line.append(" (");
    line.append(&f.function);
    line.append(" at ");
    match &f.file_line {
        Some(place) => {
            line.append(place);
        },
        None => {
            line.append("<no debug info>");
        },
    }
    line.append(")\n");
    line
}

/// A readable backtrace, one frame on each line.
pub fn format_backtrace(frames: &Vec<SymbolizedFrame>) -> (r: String)
    ensures
        r@ == backtrace_text(symbolized_views(frames@), frames@.len()),
{
    let mut out = String::new();
    let ghost all = symbolized_views(frames@);
    for i in 0..frames.len()
        invariant
            all == symbolized_views(frames@),
            out@ == backtrace_text(all, i as nat),
    {
        assert(all[i as int] == frames@[i as int]@);
        out.append(&write_frame(&frames[i]));
    }
    out
}

// ---------------------------------------------------------------------------
// What holds of every backtrace

/// Only frames in the library are symbolized, and all of them.
pub proof fn frames_of_props(frames: Seq<FrameView>, lib_name: Seq<char>, n: nat)
    requires
        n <= frames.len(),
    ensures
        forall|i: int|
            0 <= i < frames_of(frames, lib_name, n).len() ==> (#[trigger] frames_of(
                frames,
                lib_name,
                n,
            )[i]).library == lib_name,
        forall|i: int|
            0 <= i < n && (#[trigger] frames[i]).library == lib_name ==> frames_of(
                frames,
                lib_name,
                n,
            ).contains(frames[i]),
    decreases n,
{
    if n > 0 {
        frames_of_props(frames, lib_name, (n - 1) as nat);
        let before = frames_of(frames, lib_name, (n - 1) as nat);
        let now = frames_of(frames, lib_name, n);
        assert forall|i: int| 0 <= i < n && (#[trigger] frames[i]).library
            == lib_name implies now.contains(frames[i]) by {
            if i < n - 1 {
                assert(before.contains(frames[i]));
                let k = choose|k: int| 0 <= k < before.len() && before[k] == frames[i];
                assert(now[k] == frames[i]);
            } else {
                assert(now[now.len() - 1] == frames[i]);
            }
        }
    }
}

/// A frame that can be told from its line: its address is hexadecimal, its library
/// is a word that does not end in a bracket, and nothing in it breaks the line.
pub open spec fn readable(f: SymbolizedView) -> bool {
    &&& all_hex(f.program_counter)
    &&& f.library.len() > 0
    &&& no_white_space(f.library)
    &&& f.library.last() != ')'
    &&& !f.function.contains('\n')
    &&& f.file_line matches Some(place) ==> !place.contains('\n')
}

/// The function and the place of a frame, as its line shows them.
pub open spec fn place_text(f: SymbolizedView) -> Seq<char> {
    f.function + " at "@ + (match f.file_line {
        Some(place) => place,
        None => "<no debug info>"@,
    })
}

proof fn hex_is_a_word(s: Seq<char>)
    requires
        all_hex(s) || all_digits(s),
    ensures
        no_white_space(s),
        !s.contains('\n'),
{
    assert forall|i: int| 0 <= i < s.len() implies !white_space(#[trigger] s[i]) && s[i] != '\n' by {
        assert(ascii_hex_digit(s[i]) || ascii_digit(s[i]));
    }
}

/// The text behind the number in a frame's line.
spec fn behind_number(pc: Seq<char>, lib: Seq<char>, tail: Seq<char>) -> Seq<char> {
    seq![' '] + (seq!['p', 'c'] + (seq![' '] + (pc + (seq![' '] + (seq![' '] + (lib + (seq![' ']
        + tail)))))))
}

proof fn words_of_frame(number: Seq<char>, pc: Seq<char>, lib: Seq<char>, tail: Seq<char>)
    requires
        number.len() > 0,
        no_white_space(number),
        pc.len() > 0,
        no_white_space(pc),
        lib.len() > 0,
        no_white_space(lib),
    ensures
        words_of(number + behind_number(pc, lib, tail)) == seq![number, seq!['p', 'c'], pc, lib]
            + words_of(tail),
{
    let r4 = seq![' '] + tail;
    let r3 = seq![' '] + (lib + r4);
    let r2 = seq![' '] + r3;
    let r1 = seq![' '] + (pc + r2);
    let word = seq!['p', 'c'];
    let r0 = seq![' '] + (word + r1);
    word_first(number, r0);
    white_space_first(' ', word + r1);
    word_first(word, r1);
    white_space_first(' ', pc + r2);
    word_first(pc, r2);
    white_space_first(' ', r3);
    white_space_first(' ', lib + r4);
    word_first(lib, r4);
    white_space_first(' ', tail);
    assert(seq![number] + (seq![word] + (seq![pc] + (seq![lib] + words_of(tail)))) =~= seq![
        number,
        word,
        pc,
        lib,
    ] + words_of(tail));
}

/// What the line of a frame holds.
proof fn frame_line_parts(f: SymbolizedView)
    ensures
        frame_line(f) == (seq!['#'] + (decimal2(f.frame_number as nat) + behind_number(
            f.program_counter,
            f.library,
            seq!['('] + place_text(f) + seq![')'],
        ))).push('\n'),
{
    reveal_strlit("#");
    reveal_strlit(" pc ");
    reveal_strlit("  ");
    reveal_strlit(" (");
    reveal_strlit(")\n");
    assert("#"@ =~= seq!['#']);
    assert(" pc "@ =~= seq![' ', 'p', 'c', ' ']);
    assert("  "@ =~= seq![' ', ' ']);
    assert(" ("@ =~= seq![' ', '(']);
    assert(")\n"@ =~= seq![')', '\n']);
    let number = decimal2(f.frame_number as nat);
    let place = match f.file_line {
        Some(place) => place,
        None => "<no debug info>"@,
    };
    assert(place_text(f) == f.function + " at "@ + place);
    assert(frame_line(f) == seq!['#'] + number + seq![' ', 'p', 'c', ' '] + f.program_counter + seq![
        ' ',
        ' ',
    ] + f.library + seq![' ', '('] + f.function + " at "@ + place + seq![')', '\n']);
    flatten_line(number, f.program_counter, f.library, f.function, " at "@, place);
}

#[verifier::rlimit(80)]
proof fn flatten_line(
    number: Seq<char>,
    pc: Seq<char>,
    lib: Seq<char>,
    function: Seq<char>,
    at: Seq<char>,
    place: Seq<char>,
)
    ensures
        seq!['#'] + number + seq![' ', 'p', 'c', ' '] + pc + seq![' ', ' '] + lib + seq![' ', '(']
            + function + at + place + seq![')', '\n'] == (seq!['#'] + (number + behind_number(
            pc,
            lib,
            seq!['('] + (function + at + place) + seq![')'],
        ))).push('\n'),
{
    let a = seq!['#'] + number + seq![' ', 'p', 'c', ' '] + pc + seq![' ', ' '] + lib + seq![
        ' ',
        '(',
    ] + function + at + place + seq![')', '\n'];
    let b = (seq!['#'] + (number + behind_number(
        pc,
        lib,
        seq!['('] + (function + at + place) + seq![')'],
    ))).push('\n');
    assert(a =~= b);
}

proof fn unbroken(a: Seq<char>, b: Seq<char>)
    requires
        !a.contains('\n'),
        !b.contains('\n'),
    ensures
        !(a + b).contains('\n'),
{
    if (a + b).contains('\n') {
        let i = choose|i: int| 0 <= i < (a + b).len() && (a + b)[i] == '\n';
        if i < a.len() {
            assert(a[i] == '\n');
        } else {
            assert(b[i - a.len()] == '\n');
        }
    }
}

proof fn place_is_unbroken(f: SymbolizedView)
    requires
        readable(f),
    ensures
        !(seq!['('] + place_text(f) + seq![')']).contains('\n'),
{
    reveal_strlit(" at ");
    reveal_strlit("<no debug info>");
    assert(!" at "@.contains('\n'));
    assert(!"<no debug info>"@.contains('\n'));
    unbroken(f.function, " at "@);
    match f.file_line {
        Some(place) => unbroken(f.function + " at "@, place),
        None => unbroken(f.function + " at "@, "<no debug info>"@),
    }
    assert(!seq!['('].contains('\n'));
    assert(!seq![')'].contains('\n'));
    unbroken(seq!['('], place_text(f));
    unbroken(seq!['('] + place_text(f), seq![')']);
}

proof fn frame_is_unbroken(number: Seq<char>, pc: Seq<char>, lib: Seq<char>, tail: Seq<char>)
    requires
        !number.contains('\n'),
        !pc.contains('\n'),
        !lib.contains('\n'),
        !tail.contains('\n'),
    ensures
        !(seq!['#'] + (number + behind_number(pc, lib, tail))).contains('\n'),
{
    let space = seq![' '];
    let word = seq!['p', 'c'];
    assert(!space.contains('\n') && !word.contains('\n') && !seq!['#'].contains('\n'));
    unbroken(space, tail);
    let r4 = space + tail;
    unbroken(lib, r4);
    unbroken(space, lib + r4);
    let r3 = space + (lib + r4);
    unbroken(space, r3);
    let r2 = space + r3;
    unbroken(pc, r2);
    unbroken(space, pc + r2);
    let r1 = space + (pc + r2);
    unbroken(word, r1);
    unbroken(space, word + r1);
    unbroken(number, space + (word + r1));
    unbroken(seq!['#'], number + (space + (word + r1)));
}

/// A text in brackets is what stands between the brackets of its words.
proof fn words_stay_in_brackets(place: Seq<char>)
    ensures
        in_brackets(trimmed(joined(words_of(seq!['('] + place + seq![')']), " "@))) is Some,
{
    let tail = seq!['('] + place + seq![')'];
    assert(tail[0] == '(');
    assert(tail.last() == ')');
    words_keep_ends(tail, 0);
    let w = words_of(tail);
    joined_keeps_ends(w, " "@);
    let s = joined(w, " "@);
    assert(s[0] == '(' && s.last() == ')');
    assert(trim_left(s) == s);
    assert(trim_right(s) == s);
}

/// The line of a frame, without the line feed at its end, shows the frame.
proof fn frame_line_read_back(f: SymbolizedView)
    requires
        readable(f),
    ensures
        ({
            let line = frame_line(f).drop_last();
            &&& frame_line(f) == line.push('\n')
            &&& !line.contains('\n')
            &&& line.len() > 0
            &&& line.last() == ')'
            &&& frame_in(line) matches Some(g) && g.frame_number == f.frame_number
                && g.program_counter == f.program_counter && g.library == f.library
                && g.existing_symbol is Some
        }),
{
    let number = decimal2(f.frame_number as nat);
    let pc = f.program_counter;
    let lib = f.library;
    let tail = seq!['('] + place_text(f) + seq![')'];
    let rest = number + behind_number(pc, lib, tail);
    let line = seq!['#'] + rest;
    decimal2_read_back(f.frame_number as nat, u32::MAX as nat);
    hex_is_a_word(number);
    hex_is_a_word(pc);
    assert(!lib.contains('\n')) by {
        if lib.contains('\n') {
            let i = choose|i: int| 0 <= i < lib.len() && lib[i] == '\n';
            assert(white_space(lib[i]));
        }
    }
    frame_line_parts(f);
    place_is_unbroken(f);
    frame_is_unbroken(number, pc, lib, tail);
    words_of_frame(number, pc, lib, tail);
    words_stay_in_brackets(place_text(f));
    assert(frame_line(f).drop_last() =~= line);
    assert(line.last() == ')') by {
        assert(tail.last() == ')');
    }
    assert(line[0] == '#');
    assert(find_char(line, '#', 0) == 0);
    assert(line.skip(1) =~= rest);
    assert(rest[0] == number[0]);
    let all = words_of(rest);
    assert(all[0] == number && all[1] == seq!['p', 'c'] && all[2] == pc && all[3] == lib);
    assert(all.skip(4) =~= words_of(tail));
    reveal_strlit("pc");
    assert("pc"@ =~= seq!['p', 'c']);
}

/// Reading a backtrace that was written gives its frames back: the number, the
/// address and the library of each, with some symbol.
pub proof fn backtrace_read_back(frames: Seq<SymbolizedView>, n: nat)
    requires
        n <= frames.len(),
        forall|i: int| 0 <= i < n ==> readable(#[trigger] frames[i]),
    ensures
        ({
            let read = frames_in(lines_of(backtrace_text(frames, n)));
            &&& read.len() == n
            &&& forall|i: int|
                0 <= i < n ==> {
                    &&& (#[trigger] read[i]).frame_number == frames[i].frame_number
                    &&& read[i].program_counter == frames[i].program_counter
                    &&& read[i].library == frames[i].library
                    &&& read[i].existing_symbol is Some
                }
        }),
        n > 0 ==> backtrace_text(frames, n).last() == '\n',
    decreases n,
{
    if n == 0 {
        assert(lines_of(backtrace_text(frames, n)) =~= seq![]);
    } else {
        let m = (n - 1) as nat;
        backtrace_read_back(frames, m);
        let before = backtrace_text(frames, m);
        let f = frames[n - 1];
        frame_line_read_back(f);
        let line = frame_line(f).drop_last();
        if m == 0 {
            assert(before.len() == 0);
        }
        one_more_line(before, line);
        assert(backtrace_text(frames, n) =~= before + line.push('\n'));
        let all = lines_of(backtrace_text(frames, n));
        assert(all =~= lines_of(before).push(line));
        assert(all.drop_last() =~= lines_of(before));
    }
}

/// A backtrace has no more frames than the log has lines.
pub proof fn frames_are_lines(lines: Seq<Seq<char>>)
    ensures
        frames_in(lines).len() <= lines.len(),
    decreases lines.len(),
{
    if lines.len() > 0 {
        frames_are_lines(lines.drop_last());
    }
}

/// The answers come in pairs of lines, the function and then the place, and belong to
/// the frames in their order. A place that is not known is none, and a frame without an
/// answer has neither.
pub proof fn answers_belong_to_frames(
    frames: Seq<FrameView>,
    functions: Seq<Seq<char>>,
    places: Seq<Seq<char>>,
    i: int,
)
    requires
        functions.len() == places.len(),
        functions.len() <= frames.len(),
        0 <= i < frames.len(),
    ensures
        ({
            let lines = Seq::new(
                2 * functions.len(),
                |j: int|
                    if j % 2 == 0 {
                        functions[j / 2]
                    } else {
                        places[j / 2]
                    },
            );
            let f = symbolized_at(frames, lines, i);
            &&& f.frame_number == frames[i].frame_number
            &&& f.program_counter == frames[i].program_counter
            &&& f.library == frames[i].library
            &&& i < functions.len() ==> f.function == functions[i]
            &&& i < functions.len() && places[i] == "??:0"@ ==> f.file_line is None
            &&& i < functions.len() && places[i] != "??:0"@ ==> f.file_line == Some(places[i])
            &&& i >= functions.len() ==> f.function == "??"@ && f.file_line is None
        }),
{
    assert((2 * i) % 2 == 0 && (2 * i) / 2 == i);
    assert((2 * i + 1) % 2 == 1 && (2 * i + 1) / 2 == i);
}

/// The frames of a library are those among all that name it, in their order; those of a
/// log are those of its lines that are frames.
pub proof fn frames_are_picked(frames: Seq<FrameView>, lib_name: Seq<char>, n: nat)
    requires
        n <= frames.len(),
    ensures
        frames_of(frames, lib_name, n) == frames.take(n as int).filter(
            |f: FrameView| f.library == lib_name,
        ),
    decreases n,
{
    reveal(Seq::filter);
    let p = |f: FrameView| f.library == lib_name;
    if n > 0 {
        frames_are_picked(frames, lib_name, (n - 1) as nat);
        assert(frames.take(n as int).drop_last() =~= frames.take(n - 1));
        assert(frames.take(n as int).last() == frames[n - 1]);
        assert(frames_of(frames, lib_name, n) =~= frames.take(n as int).filter(p));
    } else {
        assert(frames_of(frames, lib_name, n) =~= frames.take(0).filter(p));
    }
}

/// What stands in brackets is read without them.
pub proof fn brackets_are_taken_off(s: Seq<char>)
    ensures
        in_brackets(seq!['('] + s + seq![')']) == Some(s),
        s.len() > 0 && s[0] != '(' ==> in_brackets(s) is None,
        s.len() > 0 && s.last() != ')' ==> in_brackets(s) is None,
{
    let t = seq!['('] + s + seq![')'];
    assert(t[0] == '(' && t.last() == ')');
    assert(t.subrange(1, t.len() - 1) =~= s);
}

/// The message of an error tells what it is about.
#[verifier::rlimit(40)]
pub proof fn message_tells_all(e: SymbolizeError)
    ensures
        match e {
            SymbolizeError::UnstrippedLibMissing(path) => contains_text(e.text(), path@),
            SymbolizeError::ToolFailed(status) => contains_text(e.text(), signed_decimal(status as int)),
        },
{
    match e {
        SymbolizeError::UnstrippedLibMissing(path) => {
            tells("unstripped library not found at "@, path@);
            tells_more("unstripped library not found at "@ + path@, "; symbolication needs the debug-info copy cargo produced before `rusk build --release` stripped it — check target/<triple>/release/deps/"@, path@);
        },
        SymbolizeError::ToolFailed(status) => {
            tells("`llvm-addr2line` exited with status "@, signed_decimal(status as int));
        },
    }
}

} // verus!
