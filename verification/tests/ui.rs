use rusk::color;
use rusk::ui::{
    build_summary, compiler_banner, dependency_table, error, eta, fmt_bytes, fmt_duration, fmt_speed, header, info,
    shorten, warn, DownloadProgress, Elapsed, ExtractProgress, Ratio, Spinner, Step, RULE,
};

fn by_floats(bytes: u64) -> String {
    let units = ["B", "KB", "MB", "GB", "TB"];
    let mut size = bytes as f64;
    let mut unit = 0;
    while size >= 1024.0 && unit < units.len() - 1 {
        size /= 1024.0;
        unit += 1;
    }
    if unit == 0 {
        format!("{bytes} {}", units[unit])
    } else {
        format!("{size:.1} {}", units[unit])
    }
}

#[test]
fn sizes_are_what_floats_say() {
    let mut samples: Vec<u64> = vec![0, 1, 1023, 1024, 1025, 1075, 1076, 1126, 1127, 1536, 1587, 1588, 44354765, u64::MAX];
    for shift in 0..64u32 {
        let p = 1u64 << shift;
        for d in 0..40u64 {
            samples.push(p.wrapping_add(d));
            samples.push(p.wrapping_sub(d));
            samples.push(p.wrapping_add(p / 20 * d));
        }
    }
    // Values half-way between two tenths, and their neighbours.
    for k in 1..5u32 {
        let unit = 1u64 << (10 * k);
        for i in 0..400u64 {
            let tie = unit + (2 * i + 1) * (unit / 20);
            for d in 0..5u64 {
                samples.push(tie - 2 + d);
            }
            samples.push(unit / 4 * (4 + i));
            samples.push(unit / 8 * (8 + i));
        }
    }
    let mut x: u64 = 0x9e3779b97f4a7c15;
    for _ in 0..20000 {
        x ^= x << 13;
        x ^= x >> 7;
        x ^= x << 17;
        samples.push(x >> (x % 64));
    }
    for n in samples {
        assert_eq!(fmt_bytes(n), by_floats(n), "{n}");
    }
    assert_eq!(fmt_bytes(44354765), "42.3 MB");
    assert_eq!(fmt_speed(2048), "2.0 KB/s");
}

fn took(d: std::time::Duration) -> Elapsed {
    Elapsed {
        secs: d.as_secs(),
        millis: d.as_millis() as u64,
        two_decimals: format!("{:.2}", d.as_secs_f64()),
    }
}

#[test]
fn durations() {
    let ms = |n: u64| fmt_duration(&took(std::time::Duration::from_millis(n)));
    assert_eq!(ms(312), "312ms");
    assert_eq!(ms(999), "999ms");
    assert_eq!(ms(1000), "1.00s");
    assert_eq!(ms(59_990), "59.99s");
    assert_eq!(ms(60_000), "1m 00s");
    assert_eq!(ms(3_725_000), "62m 05s");
    assert_eq!(eta(None), "—");
    assert_eq!(eta(Some(0)), "0s");
    assert_eq!(eta(Some(59)), "59s");
    assert_eq!(eta(Some(61)), "1m 01s");
}

#[test]
fn single_lines() {
    assert_eq!(info("x"), format!("{}  x{}", color::BLUE, color::RESET));
    assert_eq!(warn("x"), format!("{}{}warning{}: x", color::BOLD, color::YELLOW, color::RESET));
    assert_eq!(error("x"), format!("{}{}error{}: x", color::BOLD, color::RED, color::RESET));
    assert_eq!(header("x"), format!("\n{}{}== x =={}", color::BOLD, color::MAGENTA, color::RESET));
    assert_eq!(RULE, "─".repeat(54));
}

#[test]
fn steps() {
    let (s, line) = Step::start("Build".to_string());
    assert_eq!(line, format!("{}{}➤{} Build", color::BOLD, color::CYAN, color::RESET));
    let t = took(std::time::Duration::from_millis(312));
    assert_eq!(
        s.ok(&t),
        format!("{}{}✔{} Build {}(312ms){}", color::BOLD, color::GREEN, color::RESET, color::GRAY, color::RESET)
    );
    let (n, line) = Step::start_nested("Part".to_string());
    assert_eq!(line, format!("  {}{}↳{} Part", color::BOLD, color::CYAN, color::RESET));
    assert_eq!(
        n.fail("why"),
        format!("  {}{}✘{} Part {}— why{}", color::BOLD, color::RED, color::RESET, color::RED, color::RESET)
    );
    assert_eq!(n.aborted(), n.fail("aborted"));
    assert_eq!(
        s.warn_ok(&t, "note"),
        format!("{}{}◆{} Build {}(312ms, note){}", color::BOLD, color::ORANGE, color::RESET, color::GRAY, color::RESET)
    );
}

#[test]
fn the_banner() {
    let rule = "─".repeat(54);
    let want = format!(
        "\n{b}{p}┌{rule}┐{r}\n{b}{p}│{r}  {b}{c}rusk{r} {d}0.9.7  ·  Rust → Android APK toolchain{r}\n{b}{p}│{r}  building {b}demo{r}\n{b}{p}└{rule}┘{r}\n",
        b = color::BOLD, p = color::PURPLE, r = color::RESET, c = color::CYAN, d = color::DIM
    );
    assert_eq!(compiler_banner("demo", "0.9.7"), want);
}

#[test]
fn a_download_is_shown() {
    let mut p = DownloadProgress::new("NDK".to_string(), 1000);
    assert!(p.add(100, 0));
    assert!(!p.add(100, 65));
    assert!(p.add(100, 66));
    assert!(!p.add(100, 67));
    assert!(p.add(600, 68));
    p.tick_frame();
    let line = p.render(Ratio { filled: 15, color: 2, percent: 7 }, 2048, "6s");
    let bar = format!("{}{}", "█".repeat(15), "░".repeat(15));
    let want = format!(
        "\r{}{}{}{} {}  {}{}{}  {:>3}%  {}{} / {}{}  {}{}{}  {}ETA {}{}   ",
        color::CYAN, "⠙", color::RESET, color::BOLD, "NDK", "\x1b[38;5;79m", bar, color::RESET, 7, color::BOLD,
        "1000 B", "1000 B", color::RESET, color::GRAY, "2.0 KB/s", color::RESET, color::DIM, "6s", color::RESET,
    );
    assert_eq!(line, want);
    let t = took(std::time::Duration::from_millis(5));
    let want = format!(
        "\r{}{}✔{} {}  {}{} downloaded in {} {}({}){}                    ",
        color::BOLD, color::GREEN, color::RESET, "NDK", color::GRAY, "1000 B", "5ms", color::DIM, "1 B/s", color::RESET,
    );
    assert_eq!(p.finish(&t, 1), want);
}

#[test]
fn an_archive_is_unpacked() {
    let mut p = ExtractProgress::new(3);
    assert!(p.advance(0));
    assert!(!p.advance_sized(2048, 49));
    assert!(p.advance(49));
    let line = p.render(Ratio { filled: 99, color: 9, percent: 100 }, "a/b");
    let want = format!(
        "\r{}{}{}{}  {}{}{}  {}{}/{}{}{}  {}{}{}                    ",
        color::CYAN, "•", color::RESET, color::BOLD, "\x1b[38;5;120m", "▰".repeat(18), color::RESET, color::GREEN, 3, 3,
        color::RESET, format!("  {}2.0 KB{}", color::GRAY, color::RESET), color::GRAY, "a/b", color::RESET,
    );
    assert_eq!(line, want);
    let t = took(std::time::Duration::from_millis(5));
    let want = format!(
        "\r{}{}✔{} {}{}/{}{} files in {}{}{}                                                  ",
        color::BOLD, color::GREEN, color::RESET, color::BOLD, 3, 3, color::RESET, "5ms",
        format!("  {}2.0 KB{}", color::GRAY, color::RESET), color::RESET,
    );
    assert_eq!(p.finish(&t), want);
}

#[test]
fn long_entry_names_are_cut() {
    let long = "0123456789012345678901234567890123456789";
    assert_eq!(shorten(long), format!("…{}", &long[long.len() - 33..]));
    assert_eq!(shorten(&long[..34]), &long[..34]);
    let cyrillic = "ж".repeat(20);
    assert_eq!(shorten(&cyrillic), format!("…{}", "ж".repeat(16)));
}

#[test]
fn a_spinner() {
    let mut s = Spinner::new("Wait".to_string());
    s.tick();
    s.tick();
    let t = took(std::time::Duration::from_millis(5));
    let want = format!(
        "\r{}{}{}{} {}  {}{}{}   ",
        color::CYAN, "⠹", color::RESET, color::BOLD, "Wait", color::DIM, "5ms", color::RESET
    );
    assert_eq!(s.render(&t), want);
    let want = format!(
        "\r{}{}✔{} {} {}({}){}                    ",
        color::BOLD, color::GREEN, color::RESET, "Wait", color::GRAY, "5ms", color::RESET
    );
    assert_eq!(s.finish_ok(&t), want);
}

#[test]
fn a_table_of_dependencies() {
    assert_eq!(dependency_table(&vec![]), "");
    let rows = vec![
        ("androidx.core:core-ktx".to_string(), "1.13.1".to_string(), 2048),
        ("é:x".to_string(), "1.0-beta-2".to_string(), 100),
    ];
    let name_w = 22;
    let ver_w = 10;
    let mut want = format!(
        "  {}{:<name_w$}  {:<ver_w$}  {:>10}{}\n",
        color::BOLD, "DEPENDENCY", "VERSION", "SIZE", color::RESET
    );
    for (name, version, size) in &rows {
        want.push_str(&format!(
            "  {:<name_w$}  {}{:<ver_w$}{}  {:>10}\n",
            name, color::GRAY, version, color::RESET, by_floats(*size)
        ));
    }
    want.push_str(&format!(
        "  {}{:<name_w$}  {:<ver_w$}  {:>10}{}\n",
        color::DIM, "", "total", "2.1 KB", color::RESET
    ));
    assert_eq!(dependency_table(&rows), want);
}

#[test]
fn a_summary_of_a_build() {
    let rule = "─".repeat(54);
    let t = took(std::time::Duration::from_secs(61));
    let text = build_summary("/p/my.apk", 2048, &vec![("x86".to_string(), 5)], &t);
    let want = format!(
        "\n{b}{g}┌{rule}┐{r}\n{b}{g}│{r}  {b}✔ build succeeded{r}  {d}in 1m 01s{r}\n{b}{g}│{r}    {y}{:<14}{r}  5 B\n{b}{g}│{r}  {b}APK{r}  /p/my.apk {y}(2.0 KB){r}\n{b}{g}└{rule}┘{r}\n",
        "x86", b = color::BOLD, g = color::GREEN, r = color::RESET, d = color::DIM, y = color::GRAY
    );
    assert_eq!(text, want);
}

#[test]
fn a_download_of_unknown_size_is_throttled_too() {
    let mut p = DownloadProgress::new("x".to_string(), 0);
    assert!(p.add(10, 0));
    assert!(!p.add(10, 1));
    assert!(p.add(10, 66));
}
