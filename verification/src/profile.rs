//! CPU profiling on a device with the NDK's `simpleperf`, driven through `adb`:
//! the steps of a recording, what `adb` is told in each, and what its outcome
//! means.
use crate::ndk::NdkHome;
use crate::num::{
    decimal, decimal_digits, decimal_read_back, decimal_text, number_of, parse_number,
    push_decimal, push_signed, signed_decimal,
};
use crate::path::{HostOs, join_path, joined_path};
use crate::text::{
    ascii_digit, behind_three, clone_strings, concat3, contains_text, no_white_space, opt_view,
    option_is, tells, tells_behind, tells_more, trim, trimmed, views, white_space, word_first,
    words, words_of,
};
use vstd::prelude::*;

verus! {

/// Why profiling failed.
#[derive(Debug)]
pub enum ProfileError {
    SimpleperfBinaryMissing(String),
    /// What `adb` was doing, and the status it exited with.
    AdbFailed(String, i32),
    PidNotFound(String),
}

impl ProfileError {
    /// The text of the message shown for the error.
    pub open spec fn text(&self) -> Seq<char> {
        match *self {
            ProfileError::SimpleperfBinaryMissing(abi) =>
                "simpleperf device binary not found for abi "@ + abi@
                + " in this NDK; check that the NDK version supports profiling on this ABI"@,
            ProfileError::AdbFailed(what, status) => "`adb "@ + what@ + "` exited with status "@
                + signed_decimal(status as int),
            ProfileError::PidNotFound(package) =>
                "could not determine the running PID for package \""@ + package@
                + "\" — is the app currently running? (`rusk run` first)"@,
        }
    }

    /// The message shown for the error.
    pub fn message(&self) -> (r: String)
        ensures
            r@ == self.text(),
    {
        match self {
            ProfileError::SimpleperfBinaryMissing(abi) => concat3(
                "simpleperf device binary not found for abi ",
                abi,
                " in this NDK; check that the NDK version supports profiling on this ABI",
            ),
            ProfileError::AdbFailed(what, status) => {
                let mut out = concat3("`adb ", what, "` exited with status ");
                push_signed(&mut out, *status);
                out
            },
            ProfileError::PidNotFound(package) => concat3(
                "could not determine the running PID for package \"",
                package,
                "\" — is the app currently running? (`rusk run` first)",
            ),
        }
    }
}

/// Where `simpleperf` and its recordings are put on the device.
pub const DEVICE_SIMPLEPERF: &'static str = "/data/local/tmp/simpleperf";

/// Where a recording is written on the device.
pub const DEVICE_PERF_DATA: &'static str = "/data/local/tmp/perf.data";

/// The arguments that select a device, where one is named.
pub open spec fn device_args(device: Option<Seq<char>>) -> Seq<Seq<char>> {
    match device {
        Some(serial) => seq!["-s"@, serial],
        None => seq![],
    }
}

/// The arguments of `adb` for a device.
pub fn adb_args(device: &Option<String>, args: &Vec<String>) -> (r: Vec<String>)
    ensures
        views(r@) == device_args(opt_view(*device)) + views(args@),
{
    let mut out: Vec<String> = Vec::new();
    if let Some(serial) = device {
        out.push("-s".to_owned());
        out.push(serial.clone());
    }
    assert(views(out@) =~= device_args(opt_view(*device)));
    let ghost start = out@;
    let mut more = clone_strings(args);
    let ghost m = more@;
    out.append(&mut more);
    assert(views(out@) =~= views(start) + views(m));
    out
}

/// The arguments of `adb` that ask for the process of an application.
pub fn pidof_args(package_id: &str) -> (r: Vec<String>)
    ensures
        views(r@) == seq!["shell"@, "pidof"@, package_id@],
{
    let r = vec!["shell".to_owned(), "pidof".to_owned(), package_id.to_owned()];
    assert(views(r@) =~= seq!["shell"@, "pidof"@, package_id@]);
    r
}

/// The process that `pidof` names first.
pub open spec fn first_pid(stdout: Seq<char>) -> Option<nat> {
    let words = words_of(trimmed(stdout));
    if words.len() == 0 {
        None
    } else {
        number_of(words[0], u32::MAX as nat)
    }
}

/// The running process of an application, from what `adb shell pidof` printed.
pub fn resolve_pid(stdout: &str, package_id: &str) -> (r: Result<u32, ProfileError>)
    ensures
        match r {
            Ok(pid) => first_pid(stdout@) == Some(pid as nat),
            Err(ProfileError::PidNotFound(p)) => first_pid(stdout@) is None && p@ == package_id@,
            Err(_) => false,
        },
{
    let parts = words(&trim(stdout));
    if parts.len() > 0 {
        assert(views(parts@)[0] == parts@[0]@);
        if let Some(n) = parse_number(&parts[0], 4294967295) {
            return Ok(n as u32);
        }
    } else {
        assert(views(parts@).len() == 0);
    }
    Err(ProfileError::PidNotFound(package_id.to_owned()))
}

/// Where the NDK keeps the `simpleperf` that runs on devices of an ABI.
pub fn device_simpleperf_binary(host: HostOs, ndk: &NdkHome, abi: &str) -> (r: String)
    ensures
        r@ == joined_path(
            host,
            joined_path(host, joined_path(host, ndk.root@, "simpleperf"@), abi@),
            "simpleperf"@,
        ),
{
    let dir = join_path(host, &join_path(host, &ndk.root, "simpleperf"), abi);
    join_path(host, &dir, "simpleperf")
}

/// What to record.
#[derive(Debug)]
pub struct RecordOptions {
    pub device: Option<String>,
    pub abi: String,
    pub pid: u32,
    pub duration_secs: u32,
    pub frequency_hz: u32,
    /// Whether whole stacks are recorded.
    pub call_graph: bool,
}

/// The steps of a recording.
#[derive(Debug, Clone, Copy, PartialEq, Eq, Structural)]
pub enum RecordStep {
    /// See whether an earlier recording left `simpleperf` on the device.
    Probe,
    Push,
    MakeExecutable,
    Record,
    Pull,
    Done,
}

/// What `adb` is told in a step.
pub open spec fn step_args(
    step: RecordStep,
    opts: RecordOptions,
    binary: Seq<char>,
    out_path: Seq<char>,
) -> Seq<Seq<char>> {
    match step {
        RecordStep::Probe => seq!["shell"@, "ls"@, DEVICE_SIMPLEPERF@],
        RecordStep::Push => seq!["push"@, binary, DEVICE_SIMPLEPERF@],
        RecordStep::MakeExecutable => seq!["shell"@, "chmod"@, "755"@, DEVICE_SIMPLEPERF@],
        RecordStep::Record => seq![
            "shell"@,
            DEVICE_SIMPLEPERF@,
            "record"@,
            "-p"@,
            decimal(opts.pid as nat),
            "-f"@,
            decimal(opts.frequency_hz as nat),
            "--duration"@,
            decimal(opts.duration_secs as nat),
            "-o"@,
            DEVICE_PERF_DATA@,
        ] + (if opts.call_graph {
            seq!["--call-graph"@, "dwarf"@]
        } else {
            seq![]
        }),
        RecordStep::Pull => seq!["pull"@, DEVICE_PERF_DATA@, out_path],
        RecordStep::Done => seq![],
    }
}

/// The line that announces a step; the first one has none.
pub open spec fn step_label(step: RecordStep, opts: RecordOptions) -> Seq<char> {
    match step {
        RecordStep::Push => "Pushing simpleperf to device"@,
        RecordStep::MakeExecutable => "Marking simpleperf executable on device"@,
        RecordStep::Record => "Recording "@ + decimal(opts.duration_secs as nat)
            + "s of samples at "@ + decimal(opts.frequency_hz as nat) + "Hz (pid "@ + decimal(
            opts.pid as nat,
        ) + ")"@,
        RecordStep::Pull => "Pulling perf.data from device"@,
        _ => ""@,
    }
}

/// What a failed step is called in the error.
pub open spec fn step_name(step: RecordStep) -> Seq<char> {
    match step {
        RecordStep::Push => "push"@,
        RecordStep::MakeExecutable => "shell chmod"@,
        RecordStep::Record => "shell simpleperf record"@,
        RecordStep::Pull => "pull"@,
        _ => ""@,
    }
}

/// The step after one that succeeded or failed. A `simpleperf` that is already
/// on the device is not pushed again. Every other step has to succeed.
pub open spec fn step_after(step: RecordStep, success: bool) -> Option<RecordStep> {
    match step {
        RecordStep::Probe => if success {
            Some(RecordStep::MakeExecutable)
        } else {
            Some(RecordStep::Push)
        },
        RecordStep::Push => if success {
            Some(RecordStep::MakeExecutable)
        } else {
            None
        },
        RecordStep::MakeExecutable => if success {
            Some(RecordStep::Record)
        } else {
            None
        },
        RecordStep::Record => if success {
            Some(RecordStep::Pull)
        } else {
            None
        },
        RecordStep::Pull => if success {
            Some(RecordStep::Done)
        } else {
            None
        },
        RecordStep::Done => Some(RecordStep::Done),
    }
}

/// Begins a recording, where the NDK has a `simpleperf` for the ABI.
pub fn record(opts: &RecordOptions, binary_is_file: bool) -> (r: Result<RecordStep, ProfileError>)
    ensures
        match r {
            Ok(step) => binary_is_file && step == RecordStep::Probe,
            Err(ProfileError::SimpleperfBinaryMissing(abi)) => !binary_is_file && abi@ == opts.abi@,
            Err(_) => false,
        },
{
    if binary_is_file {
        Ok(RecordStep::Probe)
    } else {
        Err(ProfileError::SimpleperfBinaryMissing(opts.abi.clone()))
    }
}

fn record_command(opts: &RecordOptions) -> (r: Vec<String>)
    ensures
        views(r@) == step_args(RecordStep::Record, *opts, seq![], seq![]),
{
    let mut args = vec![
        "shell".to_owned(),
        DEVICE_SIMPLEPERF.to_owned(),
        "record".to_owned(),
        "-p".to_owned(),
        decimal_text(opts.pid as u64),
        "-f".to_owned(),
        decimal_text(opts.frequency_hz as u64),
        "--duration".to_owned(),
        decimal_text(opts.duration_secs as u64),
        "-o".to_owned(),
        DEVICE_PERF_DATA.to_owned(),
    ];
    if opts.call_graph {
        args.push("--call-graph".to_owned());
        args.push("dwarf".to_owned());
    }
    assert(views(args@) =~= step_args(RecordStep::Record, *opts, seq![], seq![]));
    args
}

/// What `adb` is told in a step.
pub fn step_command(step: RecordStep, opts: &RecordOptions, binary: &str, out_path: &str) -> (r:
    Vec<String>)
    ensures
        views(r@) == device_args(opt_view(opts.device)) + step_args(
            step,
            *opts,
            binary@,
            out_path@,
        ),
{
    let args: Vec<String> = match step {
        RecordStep::Probe => vec![
            "shell".to_owned(),
            "ls".to_owned(),
            DEVICE_SIMPLEPERF.to_owned(),
        ],
        RecordStep::Push => vec![
            "push".to_owned(),
            binary.to_owned(),
            DEVICE_SIMPLEPERF.to_owned(),
        ],
        RecordStep::MakeExecutable => vec![
            "shell".to_owned(),
            "chmod".to_owned(),
            "755".to_owned(),
            DEVICE_SIMPLEPERF.to_owned(),
        ],
        RecordStep::Record => record_command(opts),
        RecordStep::Pull => vec![
            "pull".to_owned(),
            DEVICE_PERF_DATA.to_owned(),
            out_path.to_owned(),
        ],
        RecordStep::Done => Vec::new(),
    };
    assert(views(args@) =~= step_args(step, *opts, binary@, out_path@));
    adb_args(&opts.device, &args)
}

/// The line that announces a step.
pub fn announce_step(step: RecordStep, opts: &RecordOptions) -> (r: String)
    ensures
        r@ == step_label(step, *opts),
{
    match step {
        RecordStep::Push => "Pushing simpleperf to device".to_owned(),
        RecordStep::MakeExecutable => "Marking simpleperf executable on device".to_owned(),
        RecordStep::Record => {
            let mut out = "Recording ".to_owned();
            push_decimal(&mut out, opts.duration_secs as u64);
            out.append("s of samples at ");
            push_decimal(&mut out, opts.frequency_hz as u64);
            out.append("Hz (pid ");
            push_decimal(&mut out, opts.pid as u64);
            out.append(")");
            out
        },
        RecordStep::Pull => "Pulling perf.data from device".to_owned(),
        _ => "".to_owned(),
    }
}

/// The step after `step`, from how `adb` ended in it.
pub fn next_step(step: RecordStep, success: bool, code: Option<i32>) -> (r: Result<
    RecordStep,
    ProfileError,
>)
    ensures
        match r {
            Ok(next) => step_after(step, success) == Some(next),
            Err(ProfileError::AdbFailed(what, status)) => {
                &&& step_after(step, success) is None
                &&& what@ == step_name(step)
                &&& status == (match code {
                    Some(c) => c,
                    None => -1i32,
                })
            },
            Err(_) => false,
        },
{
    let what = match step {
        RecordStep::Probe => {
            return Ok(
                if success {
                    RecordStep::MakeExecutable
                } else {
                    RecordStep::Push
                },
            );
        },
        RecordStep::Push => {
            if success {
                return Ok(RecordStep::MakeExecutable);
            }
            "push"
        },
        RecordStep::MakeExecutable => {
            if success {
                return Ok(RecordStep::Record);
            }
            "shell chmod"
        },
        RecordStep::Record => {
            if success {
                return Ok(RecordStep::Pull);
            }
            "shell simpleperf record"
        },
        RecordStep::Pull => {
            if success {
                return Ok(RecordStep::Done);
            }
            "pull"
        },
        RecordStep::Done => {
            return Ok(RecordStep::Done);
        },
    };
    Err(
        ProfileError::AdbFailed(
            what.to_owned(),
            match code {
                Some(c) => c,
                None => -1,
            },
        ),
    )
}

/// A recording whose steps succeed comes to its end: after the probe, whatever
/// it finds, the recording is made executable, made, and pulled.
pub proof fn recording_comes_to_its_end(present: bool)
    ensures
        ({
            let first = step_after(RecordStep::Probe, present)->0;
            let second = if present {
                first
            } else {
                step_after(first, true)->0
            };
            let third = step_after(second, true)->0;
            let fourth = step_after(third, true)->0;
            &&& second == RecordStep::MakeExecutable
            &&& third == RecordStep::Record
            &&& fourth == RecordStep::Pull
            &&& step_after(fourth, true) == Some(RecordStep::Done)
        }),
{
}

/// The arguments of `python3` that make the NDK's script report on a recording.
pub fn report(host: HostOs, ndk: &NdkHome, perf_data: &str) -> (r: Vec<String>)
    ensures
        views(r@) == seq![
            joined_path(host, joined_path(host, ndk.root@, "simpleperf"@), "report.py"@),
            "-i"@,
            perf_data@,
        ],
{
    let r = vec![
        join_path(host, &join_path(host, &ndk.root, "simpleperf"), "report.py"),
        "-i".to_owned(),
        perf_data.to_owned(),
    ];
    assert(views(r@) =~= seq![
        joined_path(host, joined_path(host, ndk.root@, "simpleperf"@), "report.py"@),
        "-i"@,
        perf_data@,
    ]);
    r
}

/// The result of the report.
pub fn report_outcome(success: bool, code: Option<i32>) -> (r: Result<(), ProfileError>)
    ensures
        match r {
            Ok(()) => success,
            Err(ProfileError::AdbFailed(what, status)) => {
                &&& !success
                &&& what@ == "report.py"@
                &&& status == (match code {
                    Some(c) => c,
                    None => -1i32,
                })
            },
            Err(_) => false,
        },
{
    if success {
        Ok(())
    } else {
        Err(
            ProfileError::AdbFailed(
                "report.py".to_owned(),
                match code {
                    Some(c) => c,
                    None => -1,
                },
            ),
        )
    }
}

/// The program that is probed for on the device is the one that is pushed there, made
/// executable and run; the samples that it writes are the ones that are pulled.
pub proof fn what_is_recorded_is_pulled(
    opts: RecordOptions,
    binary: Seq<char>,
    out_path: Seq<char>,
)
    ensures
        ({
            let probe = step_args(RecordStep::Probe, opts, binary, out_path);
            let push = step_args(RecordStep::Push, opts, binary, out_path);
            let mark = step_args(RecordStep::MakeExecutable, opts, binary, out_path);
            let run = step_args(RecordStep::Record, opts, binary, out_path);
            let pull = step_args(RecordStep::Pull, opts, binary, out_path);
            &&& push == seq!["push"@, binary, probe.last()]
            &&& mark == seq!["shell"@, "chmod"@, "755"@, probe.last()]
            &&& run[0] == "shell"@ && run[1] == probe.last()
            &&& pull[0] == "pull"@ && pull.last() == out_path
            &&& option_is(run, "-o"@, pull[1])
            &&& probe.last() != pull[1]
        }),
{
    let probe = step_args(RecordStep::Probe, opts, binary, out_path);
    let push = step_args(RecordStep::Push, opts, binary, out_path);
    let mark = step_args(RecordStep::MakeExecutable, opts, binary, out_path);
    let run = step_args(RecordStep::Record, opts, binary, out_path);
    let pull = step_args(RecordStep::Pull, opts, binary, out_path);
    assert(push =~= seq!["push"@, binary, probe.last()]);
    assert(mark =~= seq!["shell"@, "chmod"@, "755"@, probe.last()]);
    assert(run[9] == "-o"@ && run[10] == pull[1]);
    paths_on_device_differ();
}

proof fn paths_on_device_differ()
    ensures
        DEVICE_SIMPLEPERF@ != DEVICE_PERF_DATA@,
{
    reveal_strlit("/data/local/tmp/simpleperf");
    reveal_strlit("/data/local/tmp/perf.data");
    assert(DEVICE_SIMPLEPERF@ == "/data/local/tmp/simpleperf"@);
    assert(DEVICE_PERF_DATA@ == "/data/local/tmp/perf.data"@);
}

/// The process, the frequency and the time that are asked for are those recorded, and
/// calls are recorded exactly where that is asked for.
pub proof fn recording_is_what_was_asked(
    opts: RecordOptions,
    binary: Seq<char>,
    out_path: Seq<char>,
)
    ensures
        ({
            let run = step_args(RecordStep::Record, opts, binary, out_path);
            &&& run[2] == "record"@
            &&& option_is(run, "-p"@, decimal(opts.pid as nat))
            &&& option_is(run, "-f"@, decimal(opts.frequency_hz as nat))
            &&& option_is(run, "--duration"@, decimal(opts.duration_secs as nat))
            &&& opts.call_graph ==> option_is(run, "--call-graph"@, "dwarf"@)
            &&& run.len() == if opts.call_graph {
                13nat
            } else {
                11nat
            }
        }),
{
    let run = step_args(RecordStep::Record, opts, binary, out_path);
    assert(run[3] == "-p"@ && run[4] == decimal(opts.pid as nat));
    assert(run[5] == "-f"@ && run[6] == decimal(opts.frequency_hz as nat));
    assert(run[7] == "--duration"@ && run[8] == decimal(opts.duration_secs as nat));
    if opts.call_graph {
        assert(run[11] == "--call-graph"@ && run[12] == "dwarf"@);
    }
}

/// The program is pushed exactly where it is not on the device; any other step that
/// fails is the end, and each that succeeds leads to the next.
pub proof fn recording_goes_on(step: RecordStep, success: bool)
    ensures
        step_after(RecordStep::Probe, false) == Some(RecordStep::Push),
        step_after(RecordStep::Probe, true) == step_after(RecordStep::Push, true),
        step_after(RecordStep::Push, true) == Some(RecordStep::MakeExecutable),
        step_after(RecordStep::MakeExecutable, true) == Some(RecordStep::Record),
        step_after(RecordStep::Record, true) == Some(RecordStep::Pull),
        step_after(RecordStep::Pull, true) == Some(RecordStep::Done),
        step_after(step, success) is None <==> !success && step != RecordStep::Probe && step
            != RecordStep::Done,
{
}

/// A device is named before the command that is for it.
pub proof fn device_goes_first(serial: Seq<char>)
    ensures
        device_args(Some(serial)) == seq!["-s"@, serial],
        device_args(None).len() == 0,
{
}

/// The process that is found is the first that is listed.
pub proof fn first_process_is_taken(pid: u32, rest: Seq<char>)
    requires
        rest.len() > 0 ==> white_space(rest[0]) && !white_space(rest.last()),
    ensures
        first_pid(decimal(pid as nat) + rest) == Some(pid as nat),
{
    let d = decimal(pid as nat);
    let s = d + rest;
    decimal_digits(pid as nat);
    decimal_read_back(pid as nat, u32::MAX as nat);
    assert(s[0] == d[0] && !white_space(d[0]));
    assert(!white_space(s.last())) by {
        if rest.len() == 0 {
            assert(s =~= d);
            assert(ascii_digit(d[d.len() - 1]));
        } else {
            assert(s.last() == rest.last());
        }
    }
    assert(trimmed(s) == s);
    assert(no_white_space(d)) by {
        assert forall|i: int| 0 <= i < d.len() implies !white_space(#[trigger] d[i]) by {
            assert(ascii_digit(d[i]));
        }
    }
    word_first(d, rest);
}

/// The message of an error tells what it is about.
#[verifier::rlimit(40)]
pub proof fn message_tells_all(e: ProfileError)
    ensures
        match e {
            ProfileError::SimpleperfBinaryMissing(abi) => contains_text(e.text(), abi@),
            ProfileError::AdbFailed(what, status) => contains_text(e.text(), "adb "@ + what@) && contains_text(e.text(), "status "@ + signed_decimal(status as int)),
            ProfileError::PidNotFound(package) => contains_text(e.text(), package@),
        },
{
    match e {
        ProfileError::SimpleperfBinaryMissing(abi) => {
            tells("simpleperf device binary not found for abi "@, abi@);
            tells_more("simpleperf device binary not found for abi "@ + abi@, " in this NDK; check that the NDK version supports profiling on this ABI"@, abi@);
        },
        ProfileError::AdbFailed(what, status) => {
            assert("`adb "@ =~= "`"@ + "adb "@) by {
                reveal_strlit("`adb ");
                reveal_strlit("`");
                reveal_strlit("adb ");
            }
            tells("`"@, "adb "@ + what@);
            behind_three("`"@, "adb "@, what@, seq![]);
            tells_more("`adb "@ + what@, "` exited with status "@, "adb "@ + what@);
            tells_more("`adb "@ + what@ + "` exited with status "@, signed_decimal(status as int), "adb "@ + what@);
            assert("` exited with status "@ =~= "` exited with "@ + "status "@) by {
                reveal_strlit("` exited with status ");
                reveal_strlit("` exited with ");
                reveal_strlit("status ");
            }
            tells_behind("`adb "@ + what@, "` exited with "@, "status "@, signed_decimal(status as int));
        },
        ProfileError::PidNotFound(package) => {
            tells("could not determine the running PID for package \""@, package@);
            tells_more("could not determine the running PID for package \""@ + package@, "\" — is the app currently running? (`rusk run` first)"@, package@);
        },
    }
}

/// A step that fails is named by the command that it runs.
pub proof fn failed_step_is_named(opts: RecordOptions, binary: Seq<char>, out_path: Seq<char>)
    ensures
        step_name(RecordStep::Push) == step_args(RecordStep::Push, opts, binary, out_path)[0],
        step_name(RecordStep::Pull) == step_args(RecordStep::Pull, opts, binary, out_path)[0],
        ({
            let mark = step_args(RecordStep::MakeExecutable, opts, binary, out_path);
            step_name(RecordStep::MakeExecutable) == mark[0] + " "@ + mark[1]
        }),
        ({
            let run = step_args(RecordStep::Record, opts, binary, out_path);
            step_name(RecordStep::Record) == run[0] + " simpleperf "@ + run[2]
        }),
{
    assert("shell chmod"@ =~= "shell"@ + " "@ + "chmod"@) by {
        reveal_strlit("shell chmod");
        reveal_strlit("shell");
        reveal_strlit(" ");
        reveal_strlit("chmod");
    }
    assert("shell simpleperf record"@ =~= "shell"@ + " simpleperf "@ + "record"@) by {
        reveal_strlit("shell simpleperf record");
        reveal_strlit("shell");
        reveal_strlit(" simpleperf ");
        reveal_strlit("record");
    }
}

/// Recording is announced with how long it takes, how often it samples, and the process.
pub proof fn recording_is_announced(opts: RecordOptions)
    ensures
        step_label(RecordStep::Record, opts) == "Recording "@ + decimal(opts.duration_secs as nat)
            + seq!['s'] + " of samples at "@ + decimal(opts.frequency_hz as nat) + "Hz"@
            + " (pid "@ + decimal(opts.pid as nat) + seq![')'],
        step_label(RecordStep::Probe, opts).len() == 0,
        step_label(RecordStep::Done, opts).len() == 0,
        step_label(RecordStep::Push, opts).len() > 0,
        step_label(RecordStep::Pull, opts).len() > 0,
        step_label(RecordStep::MakeExecutable, opts).len() > 0,
        step_label(RecordStep::Push, opts) != step_label(RecordStep::Pull, opts),
{
    reveal_strlit("");
    assert("s of samples at "@ =~= seq!['s'] + " of samples at "@) by {
        reveal_strlit("s of samples at ");
        reveal_strlit(" of samples at ");
    }
    assert("Hz (pid "@ =~= "Hz"@ + " (pid "@) by {
        reveal_strlit("Hz (pid ");
        reveal_strlit("Hz");
        reveal_strlit(" (pid ");
    }
    assert(")"@ =~= seq![')']) by {
        reveal_strlit(")");
    }
    assert("Pushing simpleperf to device"@.len() == 28) by {
        reveal_strlit("Pushing simpleperf to device");
    }
    assert("Pulling perf.data from device"@.len() == 29) by {
        reveal_strlit("Pulling perf.data from device");
    }
    assert("Marking simpleperf executable on device"@.len() > 0) by {
        reveal_strlit("Marking simpleperf executable on device");
    }
    let a = "Recording "@ + decimal(opts.duration_secs as nat);
    let b = decimal(opts.frequency_hz as nat);
    behind_three(a, seq!['s'], " of samples at "@, b);
    let c = a + seq!['s'] + " of samples at "@ + b;
    behind_three(c, "Hz"@, " (pid "@, b);
}

} // verus!
