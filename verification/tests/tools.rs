use rusk::ndk::NdkHome;
use rusk::path::HostOs;
use rusk::profile::{
    adb_args, announce_step, device_simpleperf_binary, next_step, pidof_args, record, report, report_outcome,
    resolve_pid, step_command, ProfileError, RecordOptions, RecordStep,
};
use rusk::sqlite::{database_path, Migrations, SqliteError};
use rusk::symbolize::{
    addr2line_path, format_backtrace, parse_backtrace, symbolize, symbolized, SymbolizeError, SymbolizedFrame,
};
use rusk::workspace::{glob_prefix, render_new_workspace_file, Candidate, Workspace, WorkspaceError, WorkspaceFile};

// ---------------------------------------------------------------------------
// Profiling

fn options(call_graph: bool) -> RecordOptions {
    RecordOptions {
        device: Some("emu".to_string()),
        abi: "x86".to_string(),
        pid: 42,
        duration_secs: 10,
        frequency_hz: 4000,
        call_graph,
    }
}

#[test]
fn a_recording_goes_through_its_steps() {
    let o = options(true);
    let mut step = record(&o, true).unwrap();
    let mut seen = vec![];
    while step != RecordStep::Done {
        let args = step_command(step, &o, "/ndk/simpleperf", "/out/perf.data");
        assert_eq!(&args[..2], ["-s", "emu"]);
        seen.push(args[2..].join(" "));
        let success = step != RecordStep::Probe;
        step = next_step(step, success, Some(1)).unwrap();
    }
    assert_eq!(
        seen,
        [
            "shell ls /data/local/tmp/simpleperf",
            "push /ndk/simpleperf /data/local/tmp/simpleperf",
            "shell chmod 755 /data/local/tmp/simpleperf",
            "shell /data/local/tmp/simpleperf record -p 42 -f 4000 --duration 10 -o /data/local/tmp/perf.data --call-graph dwarf",
            "pull /data/local/tmp/perf.data /out/perf.data",
        ]
    );
    assert_eq!(announce_step(RecordStep::Record, &o), "Recording 10s of samples at 4000Hz (pid 42)");
    assert_eq!(announce_step(RecordStep::Push, &o), "Pushing simpleperf to device");
}

#[test]
fn a_present_simpleperf_is_not_pushed() {
    assert_eq!(next_step(RecordStep::Probe, true, Some(0)).unwrap(), RecordStep::MakeExecutable);
    assert_eq!(step_command(RecordStep::Record, &options(false), "b", "o").len(), 13);
}

#[test]
fn failed_steps_are_errors() {
    for (step, what) in [
        (RecordStep::Push, "push"),
        (RecordStep::MakeExecutable, "shell chmod"),
        (RecordStep::Record, "shell simpleperf record"),
        (RecordStep::Pull, "pull"),
    ] {
        let e = next_step(step, false, Some(3)).unwrap_err();
        assert_eq!(e.message(), format!("`adb {what}` exited with status 3"));
    }
    let e = record(&options(false), false).unwrap_err();
    assert!(matches!(&e, ProfileError::SimpleperfBinaryMissing(abi) if abi == "x86"));
    assert!(e.message().starts_with("simpleperf device binary not found for abi x86 in this NDK"));
}

#[test]
fn processes_are_resolved() {
    assert_eq!(resolve_pid(" 123 456\n", "p").unwrap(), 123);
    for out in ["", "\n", "abc", "-1", "99999999999"] {
        let e = resolve_pid(out, "com.x").unwrap_err();
        assert_eq!(
            e.message(),
            "could not determine the running PID for package \"com.x\" — is the app currently running? (`rusk run` first)"
        );
    }
    assert_eq!(pidof_args("com.x"), ["shell", "pidof", "com.x"]);
    assert_eq!(adb_args(&None, &vec!["devices".to_string()]), ["devices"]);
}

#[test]
fn recordings_are_reported() {
    let ndk = NdkHome { root: "/n".to_string(), version: "27".to_string() };
    assert_eq!(report(HostOs::Linux, &ndk, "p"), ["/n/simpleperf/report.py", "-i", "p"]);
    assert_eq!(device_simpleperf_binary(HostOs::Linux, &ndk, "x86"), "/n/simpleperf/x86/simpleperf");
    assert!(report_outcome(true, None).is_ok());
    assert_eq!(report_outcome(false, None).unwrap_err().message(), "`adb report.py` exited with status -1");
}

// ---------------------------------------------------------------------------
// Backtraces

const LOG: &str = "backtrace:\n  I/DEBUG  #00 pc 0002a4f0  libmy_app.so (my_app::render::draw_frame+128)\n#01 pc 0002a4f0  libmy_app.so\nF/x: #02 pc 01 libc.so)) (a\tb )\n#03 xx 01 libc.so\n#4 pc 01\n#x pc 01 l\nno frame\n#7 pc ff lib (";

#[test]
fn frames_are_read_from_a_log() {
    let f = parse_backtrace(LOG);
    let nums: Vec<u32> = f.iter().map(|f| f.frame_number).collect();
    assert_eq!(nums, [0, 1, 2, 7]);
    assert_eq!(f[0].program_counter, "0002a4f0");
    assert_eq!(f[0].library, "libmy_app.so");
    assert_eq!(f[0].existing_symbol.as_deref(), Some("my_app::render::draw_frame+128"));
    assert!(f[1].existing_symbol.is_none());
    assert_eq!(f[2].library, "libc.so");
    assert_eq!(f[2].existing_symbol.as_deref(), Some("a b "));
    assert!(f[3].existing_symbol.is_none());
}

#[test]
fn frames_are_symbolized() {
    let frames = parse_backtrace(LOG);
    let plan = symbolize("/t/libmy_app.so", true, "libmy_app.so", &frames).unwrap().unwrap();
    assert_eq!(plan.args, ["-f", "-C", "-e", "/t/libmy_app.so", "0002a4f0", "0002a4f0"]);
    let out = symbolized(&plan.frames, true, Some(0), "draw\nsrc/a.rs:3\nmain\n??:0\n").unwrap();
    assert_eq!(
        format_backtrace(&out),
        "#00 pc 0002a4f0  libmy_app.so (draw at src/a.rs:3)\n#01 pc 0002a4f0  libmy_app.so (main at <no debug info>)\n"
    );
    let out = symbolized(&plan.frames, true, Some(0), "draw").unwrap();
    assert_eq!((out[0].function.as_str(), out[1].function.as_str()), ("draw", "??"));
    assert!(out[0].file_line.is_none());
}

#[test]
fn symbolizing_can_fail() {
    let frames = parse_backtrace(LOG);
    assert!(symbolize("/x/other.so", true, "other.so", &frames).unwrap().is_none());
    let e = symbolize("/x/l.so", false, "l.so", &frames).unwrap_err();
    assert!(matches!(&e, SymbolizeError::UnstrippedLibMissing(p) if p == "/x/l.so"));
    assert!(e.message().starts_with("unstripped library not found at /x/l.so; symbolication needs"));
    let e = symbolized(&frames, false, None, "").unwrap_err();
    assert_eq!(e.message(), "`llvm-addr2line` exited with status -1");
    let ndk = NdkHome { root: "/n".to_string(), version: "27".to_string() };
    assert_eq!(addr2line_path(HostOs::Linux, &ndk), "/n/toolchains/llvm/prebuilt/linux-x86_64/bin/llvm-addr2line");
}

// ---------------------------------------------------------------------------
// Migrations

#[test]
fn migrations_are_numbered_and_applied_once() {
    let m = Migrations::new(&vec!["A", "B", "C"]);
    let versions: Vec<u32> = m.migrations.iter().map(|m| m.version).collect();
    assert_eq!(versions, [1, 2, 3]);
    let sql: Vec<&str> = m.pending(1).iter().map(|m| m.sql).collect();
    assert_eq!(sql, ["B", "C"]);
    assert_eq!(m.pending(0).len(), 3);
    assert!(m.pending(3).is_empty());
    assert!(m.pending(9).is_empty());
    assert_eq!(database_path(HostOs::Linux, "/data", "app.db"), "/data/app.db");
}

#[test]
fn migrations_run_on_a_database() {
    let conn = rusqlite::Connection::open_in_memory().unwrap();
    let m = Migrations::new(&vec!["CREATE TABLE a (x)", "CREATE TABLE b (x)"]);
    for _ in 0..2 {
        conn.execute_batch(rusk::sqlite::CREATE_VERSION_TABLE).unwrap();
        let current: u32 = conn.query_row(rusk::sqlite::SELECT_VERSION, [], |r| r.get(0)).unwrap();
        for step in m.pending(current) {
            conn.execute_batch(step.sql).unwrap();
            conn.execute(rusk::sqlite::INSERT_VERSION, [step.version]).unwrap();
        }
    }
    let n: u32 = conn.query_row(rusk::sqlite::SELECT_VERSION, [], |r| r.get(0)).unwrap();
    assert_eq!(n, 2);
}

// ---------------------------------------------------------------------------
// Workspaces

fn dir(rel: &str, has_manifest: bool) -> Candidate {
    Candidate {
        dir: format!("/r/{rel}"),
        relative: rel.to_string(),
        canonical: format!("/real/{rel}"),
        file_name: rel.rsplit('/').next().map(|s| s.to_string()),
        manifest_path: format!("/r/{rel}/Rusk.toml"),
        has_manifest,
    }
}

fn file(members: &[&str], exclude: &[&str]) -> WorkspaceFile {
    WorkspaceFile {
        members: members.iter().map(|s| s.to_string()).collect(),
        exclude: exclude.iter().map(|s| s.to_string()).collect(),
    }
}

#[test]
fn members_are_found() {
    let found = vec![
        vec![dir("apps/wear", true), dir("apps/tools", false), dir("apps/old", true), dir("apps/phone", true)],
        vec![dir("demo", true)],
        vec![],
    ];
    let w = Workspace::load(HostOs::Linux, "/r", &file(&["apps/*", "demo", "none/*"], &["apps/old", "demo"]), &found)
        .unwrap();
    let names: Vec<&str> = w.members.iter().map(|m| m.name.as_str()).collect();
    assert_eq!(names, ["phone", "wear", "demo"]);
    assert_eq!(w.members[0].manifest_path, "/r/apps/phone/Rusk.toml");
    assert!(w.contains(HostOs::Linux, "/r/apps/phone/src"));
    assert!(w.contains(HostOs::Linux, "/r/demo"));
    assert!(!w.contains(HostOs::Linux, "/r/apps"));
    assert!(!w.contains(HostOs::Linux, "/r/demo2"));
}

#[test]
fn workspace_errors() {
    let e = Workspace::load(HostOs::Linux, "/r", &file(&["a", "b"], &[]), &vec![vec![dir("a", true)], vec![dir("b", false)]])
        .unwrap_err();
    assert_eq!(e.message(), "member \"b\" listed in Rusk.workspace.toml has no Rusk.toml at that path");
    let e = Workspace::load(HostOs::Linux, "/r", &file(&["apps/a", "apps/*"], &[]), &vec![vec![dir("apps/a", true)], vec![dir("apps/a", true)]])
        .unwrap_err();
    assert_eq!(e.message(), "member path \"apps/a\" appears more than once (after glob expansion)");
    assert!(matches!(Workspace::discover("/x", &vec![false, true]), Ok(1)));
    let e = Workspace::discover("/x", &vec![false]).unwrap_err();
    assert!(matches!(&e, WorkspaceError::NotFound(_)));
    assert_eq!(e.message(), "Rusk.workspace.toml not found in /x (or any parent directory)");
}

#[test]
fn patterns_and_fresh_files() {
    assert_eq!(glob_prefix("examples/*"), Some("examples".to_string()));
    assert_eq!(glob_prefix("examples"), None);
    assert_eq!(glob_prefix("/*"), Some("".to_string()));
    let value: toml::Table = render_new_workspace_file().parse().unwrap();
    assert_eq!(value["members"].as_array().unwrap()[0].as_str(), Some("apps/*"));
    assert!(value["exclude"].as_array().unwrap().is_empty());
}

#[test]
fn database_errors_have_messages() {
    let s = |t: &str| t.to_string();
    assert_eq!(SqliteError::Sqlite(s("locked")).message(), "sqlite error: locked");
    assert_eq!(SqliteError::Io { path: s("/d"), source: s("full") }.message(), "io error at /d: full");
    assert_eq!(SqliteError::Migration { version: 12, source: s("x") }.message(), "migration 12 failed: x");
    assert_eq!(
        SqliteError::NoDataDir.message(),
        "could not determine an app data directory to store the database in"
    );
}

#[test]
fn other_lines_show_no_frame() {
    for line in [
        "#00 pc zz lib.so",
        "#00 pc 0x1f lib.so",
        "# 0 pc 1f lib.so",
        "#+1 pc 1f lib.so",
        "#00 sp 1f lib.so",
        "#00 pc 1f",
        "00 pc 1f lib.so",
        "#",
    ] {
        assert!(parse_backtrace(line).is_empty(), "{line}");
    }
    assert_eq!(parse_backtrace("F DEBUG : #7 pc 1F lib.so").len(), 1);
}

#[test]
fn a_written_backtrace_is_read_back() {
    let frame = |n: u32, place: Option<&str>| SymbolizedFrame {
        frame_number: n,
        program_counter: format!("00{n:x}af"),
        library: format!("lib{n}.so"),
        function: "my_app::f(a, b) #1".to_string(),
        file_line: place.map(|p| p.to_string()),
    };
    let frames = vec![frame(0, Some("src/a b.rs:3")), frame(123, None)];
    let read = parse_backtrace(&format_backtrace(&frames));
    assert_eq!(read.len(), 2);
    for (r, f) in read.iter().zip(&frames) {
        assert_eq!(r.frame_number, f.frame_number);
        assert_eq!(r.program_counter, f.program_counter);
        assert_eq!(r.library, f.library);
        assert!(r.existing_symbol.is_some());
    }
    assert_eq!(read[0].existing_symbol.as_deref(), Some("my_app::f(a, b) #1 at src/a b.rs:3"));
}
