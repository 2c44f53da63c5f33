//! Checks over a manifest for mistakes that otherwise show up only after a
//! release: each reports findings with a severity.
use crate::manifest::{ManifestView, RuskManifest, text_items};
use crate::num::{decimal, push_decimal};
use crate::text::{
    ascii_digit, chars_of, clone_opt, concat3, has_string, lower, lowered, opt_view, same,
    starts_with, to_lower_text, views,
};
use vstd::prelude::*;

verus! {

/// How bad a finding is.
#[derive(Debug, Clone, Copy, PartialEq, Eq, PartialOrd, Ord, Structural)]
pub enum Severity {
    Info,
    Warning,
    Error,
}

impl Severity {
    /// Higher is worse.
    pub open spec fn rank(self) -> int {
        match self {
            Severity::Info => 0,
            Severity::Warning => 1,
            Severity::Error => 2,
        }
    }
}

/// What a check reports.
#[derive(Debug)]
pub struct Finding {
    pub id: &'static str,
    pub severity: Severity,
    pub message: String,
    pub hint: Option<String>,
}

/// The texts of a finding.
pub struct FindingView {
    pub id: Seq<char>,
    pub severity: Severity,
    pub message: Seq<char>,
    pub hint: Option<Seq<char>>,
}

impl View for Finding {
    type V = FindingView;

    open spec fn view(&self) -> FindingView {
        FindingView {
            id: self.id@,
            severity: self.severity,
            message: self.message@,
            hint: opt_view(self.hint),
        }
    }
}

/// The texts of a list of findings.
pub open spec fn finding_views(v: Seq<Finding>) -> Seq<FindingView> {
    v.map_values(|f: Finding| f@)
}

/// A list of the finding where `present`, else the empty list.
pub open spec fn finding_if(present: bool, f: FindingView) -> Seq<FindingView> {
    if present {
        seq![f]
    } else {
        seq![]
    }
}

impl Clone for Finding {
    fn clone(&self) -> (r: Self)
        ensures
            r@ == self@,
    {
        Finding {
            id: self.id,
            severity: self.severity,
            message: self.message.clone(),
            hint: clone_opt(&self.hint),
        }
    }
}

impl Finding {
    /// A finding without a hint.
    pub fn new(id: &'static str, severity: Severity, message: String) -> (r: Self)
        ensures
            r@ == (FindingView { id: id@, severity, message: message@, hint: None }),
    {
        Finding { id, severity, message, hint: None }
    }

    /// The finding with a hint on what to do.
    pub fn with_hint(self, hint: &str) -> (r: Self)
        ensures
            r@ == (FindingView { hint: Some(hint@), ..self@ }),
    {
        Finding {
            id: self.id,
            severity: self.severity,
            message: self.message,
            hint: Some(hint.to_owned()),
        }
    }
}

fn push_finding(out: &mut Vec<Finding>, f: Finding)
    ensures
        finding_views(final(out)@) == finding_views(old(out)@) + finding_if(true, f@),
{
    let ghost start = out@;
    out.push(f);
    assert(finding_views(out@) =~= finding_views(start) + seq![f@]);
}

// ---------------------------------------------------------------------------
// The checks

pub const HINT_COMPILE: &'static str =
    "raise sdk_compile to at least sdk_target — APIs targeted at sdk_target may not exist in the sdk_compile platform jar";

pub const HINT_TARGET: &'static str =
    "raise sdk_target — check https://developer.android.com/google/play/requirements/target-sdk for the current minimum";

/// What the SDK levels give rise to: compiling below the target level is an
/// error, a target below 33 a warning, a minimum below 21 worth noting.
pub open spec fn sdk_findings(m: ManifestView) -> Seq<FindingView> {
    finding_if(
        m.package.sdk_compile < m.package.sdk_target,
        FindingView {
            id: "sdk-compile-below-target"@,
            severity: Severity::Error,
            message: "package.sdk_compile ("@ + decimal(m.package.sdk_compile as nat)
                + ") is lower than package.sdk_target ("@ + decimal(m.package.sdk_target as nat)
                + ")"@,
            hint: Some(HINT_COMPILE@),
        },
    ) + finding_if(
        m.package.sdk_target < 33,
        FindingView {
            id: "sdk-target-outdated"@,
            severity: Severity::Warning,
            message: "package.sdk_target ("@ + decimal(m.package.sdk_target as nat)
                + ") is below API 33; Play Console requires targeting within one year of the latest Android release for new submissions and updates"@,
            hint: Some(HINT_TARGET@),
        },
    ) + finding_if(
        m.package.sdk_min < 21,
        FindingView {
            id: "sdk-min-very-old"@,
            severity: Severity::Info,
            message: "package.sdk_min ("@ + decimal(m.package.sdk_min as nat)
                + ") targets Android versions with negligible remaining market share"@,
            hint: None,
        },
    )
}

fn check_sdk_versions(m: &RuskManifest) -> (r: Vec<Finding>)
    ensures
        finding_views(r@) == sdk_findings(m@),
{
    let mut out: Vec<Finding> = Vec::new();
    assert(finding_views(out@) =~= seq![]);
    if m.package.sdk_compile < m.package.sdk_target {
        let mut message = "package.sdk_compile (".to_owned();
        push_decimal(&mut message, m.package.sdk_compile as u64);
        message.append(") is lower than package.sdk_target (");
        push_decimal(&mut message, m.package.sdk_target as u64);
        message.append(")");
        push_finding(
            &mut out,
            Finding::new("sdk-compile-below-target", Severity::Error, message).with_hint(
                HINT_COMPILE,
            ),
        );
    }
    if m.package.sdk_target < 33 {
        let mut message = "package.sdk_target (".to_owned();
        push_decimal(&mut message, m.package.sdk_target as u64);
        message.append(
            ") is below API 33; Play Console requires targeting within one year of the latest Android release for new submissions and updates",
        );
        push_finding(
            &mut out,
            Finding::new("sdk-target-outdated", Severity::Warning, message).with_hint(HINT_TARGET),
        );
    }
    if m.package.sdk_min < 21 {
        let mut message = "package.sdk_min (".to_owned();
        push_decimal(&mut message, m.package.sdk_min as u64);
        message.append(") targets Android versions with negligible remaining market share");
        push_finding(&mut out, Finding::new("sdk-min-very-old", Severity::Info, message));
    }
    assert(finding_views(out@) =~= sdk_findings(m@));
    out
}

pub const NOTE_LOCATION: &'static str =
    "requires a dedicated Play Console declaration form and a prominent in-app disclosure before it's granted";

pub const NOTE_SMS: &'static str =
    "restricted to a very small set of approved app categories (default SMS/dialer handlers) — Play will likely reject unless the app is one of those";

pub const NOTE_CALL_LOG: &'static str = "restricted the same way as READ_SMS";

pub const NOTE_ALERT_WINDOW: &'static str =
    "requires a separate runtime grant flow the user must complete in system settings — a raw manifest permission alone won't work";

pub const NOTE_STORAGE: &'static str =
    "has no effect on API 30+ (scoped storage) unless requestLegacyExternalStorage is also set — likely a permission left over from an older target SDK";

/// The finding for a sensitive permission, where it is asked for.
pub open spec fn permission_finding(
    perms: Seq<Seq<char>>,
    perm: Seq<char>,
    note: Seq<char>,
) -> Seq<FindingView> {
    finding_if(
        perms.contains(perm),
        FindingView {
            id: "sensitive-permission"@,
            severity: Severity::Warning,
            message: "permission "@ + perm + " is declared"@,
            hint: Some(note),
        },
    )
}

/// What the permissions give rise to: a warning for each that the store looks at
/// closely, or that is most often there by mistake.
pub open spec fn permission_findings(m: ManifestView) -> Seq<FindingView> {
    let perms = m.permissions;
    permission_finding(perms, "ACCESS_BACKGROUND_LOCATION"@, NOTE_LOCATION@) + permission_finding(
        perms,
        "READ_SMS"@,
        NOTE_SMS@,
    ) + permission_finding(perms, "READ_CALL_LOG"@, NOTE_CALL_LOG@) + permission_finding(
        perms,
        "SYSTEM_ALERT_WINDOW"@,
        NOTE_ALERT_WINDOW@,
    ) + permission_finding(perms, "WRITE_EXTERNAL_STORAGE"@, NOTE_STORAGE@)
}

fn push_permission(out: &mut Vec<Finding>, perms: &Vec<String>, perm: &str, note: &str)
    ensures
        finding_views(final(out)@) == finding_views(old(out)@) + permission_finding(
            views(perms@),
            perm@,
            note@,
        ),
{
    if has_string(perms, perm) {
        let message = concat3("permission ", perm, " is declared");
        push_finding(
            out,
            Finding::new("sensitive-permission", Severity::Warning, message).with_hint(note),
        );
    } else {
        assert(finding_views(out@) =~= finding_views(out@) + seq![]);
    }
}

fn check_permissions(m: &RuskManifest) -> (r: Vec<Finding>)
    ensures
        finding_views(r@) == permission_findings(m@),
{
    let mut out: Vec<Finding> = Vec::new();
    assert(finding_views(out@) =~= seq![]);
    let perms = &m.permissions.list;
    push_permission(&mut out, perms, "ACCESS_BACKGROUND_LOCATION", NOTE_LOCATION);
    push_permission(&mut out, perms, "READ_SMS", NOTE_SMS);
    push_permission(&mut out, perms, "READ_CALL_LOG", NOTE_CALL_LOG);
    push_permission(&mut out, perms, "SYSTEM_ALERT_WINDOW", NOTE_ALERT_WINDOW);
    push_permission(&mut out, perms, "WRITE_EXTERNAL_STORAGE", NOTE_STORAGE);
    assert(finding_views(out@) =~= permission_findings(m@));
    out
}

pub const NO_SIGNING: &'static str =
    "no [signing] section — `rusk build --release` will still succeed, signed with the auto-generated debug keystore";

pub const HINT_SIGNING: &'static str =
    "run `rusk keystore generate` and add a [signing] section before shipping a release build anywhere outside your own devices";

/// What the lack of a signing key gives rise to.
pub open spec fn signing_findings(m: ManifestView) -> Seq<FindingView> {
    finding_if(
        m.signing is None,
        FindingView {
            id: "no-release-signing-configured"@,
            severity: Severity::Info,
            message: NO_SIGNING@,
            hint: Some(HINT_SIGNING@),
        },
    )
}

fn check_release_signing(m: &RuskManifest) -> (r: Vec<Finding>)
    ensures
        finding_views(r@) == signing_findings(m@),
{
    let mut out: Vec<Finding> = Vec::new();
    if m.signing.is_none() {
        push_finding(
            &mut out,
            Finding::new(
                "no-release-signing-configured",
                Severity::Info,
                NO_SIGNING.to_owned(),
            ).with_hint(HINT_SIGNING),
        );
    }
    assert(finding_views(out@) =~= signing_findings(m@));
    out
}

pub const HINT_SINGLE_ABI: &'static str =
    "add at least arm64-v8a (covers nearly all real devices) and x86_64 (emulators) — see [abi] targets in Rusk.toml";

pub const HINT_ARM64: &'static str =
    "arm64-v8a covers the overwhelming majority of real Android devices sold since ~2019 — omitting it will make the app uninstallable on most phones";

/// What the ABIs give rise to: a single one is a warning, whichever it is;
/// otherwise the lack of arm64 is an error.
pub open spec fn abi_findings(m: ManifestView) -> Seq<FindingView> {
    if m.targets.len() == 1 {
        seq![
            FindingView {
                id: "single-abi-target"@,
                severity: Severity::Warning,
                message: "only one ABI target configured ("@ + m.targets[0] + ")"@,
                hint: Some(HINT_SINGLE_ABI@),
            },
        ]
    } else {
        finding_if(
            !m.targets.contains("arm64-v8a"@),
            FindingView {
                id: "missing-arm64"@,
                severity: Severity::Error,
                message: "arm64-v8a is not in [abi] targets"@,
                hint: Some(HINT_ARM64@),
            },
        )
    }
}

fn check_abi_coverage(m: &RuskManifest) -> (r: Vec<Finding>)
    ensures
        finding_views(r@) == abi_findings(m@),
{
    let mut out: Vec<Finding> = Vec::new();
    if m.abi.targets.len() == 1 {
        assert(m@.targets[0] == m.abi.targets@[0]@);
        let message = concat3("only one ABI target configured (", &m.abi.targets[0], ")");
        push_finding(
            &mut out,
            Finding::new("single-abi-target", Severity::Warning, message).with_hint(
                HINT_SINGLE_ABI,
            ),
        );
    } else if !has_string(&m.abi.targets, "arm64-v8a") {
        push_finding(
            &mut out,
            Finding::new(
                "missing-arm64",
                Severity::Error,
                "arm64-v8a is not in [abi] targets".to_owned(),
            ).with_hint(HINT_ARM64),
        );
    }
    assert(finding_views(out@) =~= abi_findings(m@));
    out
}

pub const HINT_DEBUGGABLE: &'static str =
    "Play Console rejects debuggable=true release uploads outright — set this to false (or leave it unset; false is the default) before a release build";

/// What a debuggable application gives rise to.
pub open spec fn debuggable_findings(m: ManifestView) -> Seq<FindingView> {
    finding_if(
        m.app.debuggable,
        FindingView {
            id: "debuggable-true"@,
            severity: Severity::Warning,
            message: "app.debuggable is true"@,
            hint: Some(HINT_DEBUGGABLE@),
        },
    )
}

fn check_debuggable_release(m: &RuskManifest) -> (r: Vec<Finding>)
    ensures
        finding_views(r@) == debuggable_findings(m@),
{
    let mut out: Vec<Finding> = Vec::new();
    if m.app.debuggable {
        push_finding(
            &mut out,
            Finding::new(
                "debuggable-true",
                Severity::Warning,
                "app.debuggable is true".to_owned(),
            ).with_hint(HINT_DEBUGGABLE),
        );
    }
    assert(finding_views(out@) =~= debuggable_findings(m@));
    out
}

pub const HINT_UNPINNED: &'static str =
    "pin an exact version — an unpinned dependency can resolve differently between builds even with the same Rusk.lock present";

/// Whether a version can resolve differently from one build to the next.
pub open spec fn unpinned(version: Seq<char>) -> bool {
    (version.len() > 0 && version.last() == '+') || lowered(version) == "latest"@
}

/// What the Java dependencies give rise to: a warning for each version that is
/// not pinned, in the order of the dependencies.
pub open spec fn java_findings(java: Seq<(Seq<char>, Seq<char>)>) -> Seq<FindingView>
    decreases java.len(),
{
    if java.len() == 0 {
        seq![]
    } else {
        let (k, v) = java.last();
        java_findings(java.drop_last()) + finding_if(
            unpinned(v),
            FindingView {
                id: "unpinned-java-dependency"@,
                severity: Severity::Warning,
                message: k + " = \""@ + v + "\" is not a pinned version"@,
                hint: Some(HINT_UNPINNED@),
            },
        )
    }
}

fn is_unpinned(version: &str) -> (r: bool)
    ensures
        r == unpinned(version@),
{
    let v = chars_of(version);
    (v.len() > 0 && v[v.len() - 1] == '+') || same(&to_lower_text(version), "latest")
}

fn check_java_dependency_versions(m: &RuskManifest) -> (r: Vec<Finding>)
    ensures
        finding_views(r@) == java_findings(m@.java),
{
    let mut out: Vec<Finding> = Vec::new();
    let java = &m.dependencies.java;
    let ghost all = m@.java;
    assert(finding_views(out@) =~= seq![]);
    for i in 0..java.entries.len()
        invariant
            all == text_items(*java),
            finding_views(out@) == java_findings(all.take(i as int)),
    {
        let key = &java.entries[i].0;
        let version = &java.entries[i].1;
        proof {
            assert(all[i as int] == (key@, version@));
            assert(all.take(i + 1).drop_last() =~= all.take(i as int));
            assert(all.take(i + 1).last() == all[i as int]);
        }
        if is_unpinned(version) {
            let mut message = key.clone();
            message.append(" = \"");
            message.append(version);
            message.append("\" is not a pinned version");
            push_finding(
                &mut out,
                Finding::new("unpinned-java-dependency", Severity::Warning, message).with_hint(
                    HINT_UNPINNED,
                ),
            );
        } else {
            assert(finding_views(out@) =~= finding_views(out@) + seq![]);
        }
    }
    assert(all.take(all.len() as int) =~= all);
    out
}

pub const HINT_EXAMPLE_ID: &'static str =
    "Play Console blocks publishing under com.example.* outright — change package.id before a release build";

/// What an application id from a tutorial gives rise to.
pub open spec fn app_id_findings(m: ManifestView) -> Seq<FindingView> {
    finding_if(
        "com.example."@.is_prefix_of(m.package.id),
        FindingView {
            id: "example-app-id"@,
            severity: Severity::Error,
            message: "package.id \""@ + m.package.id
                + "\" uses the reserved com.example.* namespace"@,
            hint: Some(HINT_EXAMPLE_ID@),
        },
    )
}

fn check_app_id(m: &RuskManifest) -> (r: Vec<Finding>)
    ensures
        finding_views(r@) == app_id_findings(m@),
{
    let mut out: Vec<Finding> = Vec::new();
    if starts_with(&m.package.id, "com.example.") {
        let message = concat3(
            "package.id \"",
            &m.package.id,
            "\" uses the reserved com.example.* namespace",
        );
        push_finding(
            &mut out,
            Finding::new("example-app-id", Severity::Error, message).with_hint(HINT_EXAMPLE_ID),
        );
    }
    assert(finding_views(out@) =~= app_id_findings(m@));
    out
}

// ---------------------------------------------------------------------------
// All checks

/// What all checks give rise to, check by check.
pub open spec fn all_findings(m: ManifestView) -> Seq<FindingView> {
    sdk_findings(m) + permission_findings(m) + signing_findings(m) + abi_findings(m)
        + debuggable_findings(m) + java_findings(m.java) + app_id_findings(m)
}

/// Those findings of the given severity whose checks are not ignored, in order.
pub open spec fn kept_at(
    findings: Seq<FindingView>,
    ignore: Seq<Seq<char>>,
    severity: Severity,
) -> Seq<FindingView>
    decreases findings.len(),
{
    if findings.len() == 0 {
        seq![]
    } else if findings.last().severity == severity && !ignore.contains(findings.last().id) {
        kept_at(findings.drop_last(), ignore, severity).push(findings.last())
    } else {
        kept_at(findings.drop_last(), ignore, severity)
    }
}

/// What is reported of the findings: those whose checks are not ignored, the
/// worst first, and of one severity in the order of the checks.
pub open spec fn reported(findings: Seq<FindingView>, ignore: Seq<Seq<char>>) -> Seq<FindingView> {
    kept_at(findings, ignore, Severity::Error) + kept_at(findings, ignore, Severity::Warning)
        + kept_at(findings, ignore, Severity::Info)
}

fn push_kept(
    out: &mut Vec<Finding>,
    findings: &Vec<Finding>,
    ignore: &Vec<String>,
    severity: Severity,
)
    ensures
        finding_views(final(out)@) == finding_views(old(out)@) + kept_at(
            finding_views(findings@),
            views(ignore@),
            severity,
        ),
{
    let ghost start = finding_views(out@);
    let ghost all = finding_views(findings@);
    assert(start =~= start + kept_at(all.take(0), views(ignore@), severity));
    for i in 0..findings.len()
        invariant
            all == finding_views(findings@),
            finding_views(out@) == start + kept_at(all.take(i as int), views(ignore@), severity),
    {
        proof {
            assert(all[i as int] == findings@[i as int]@);
            assert(all.take(i + 1).drop_last() =~= all.take(i as int));
            assert(all.take(i + 1).last() == all[i as int]);
        }
        if findings[i].severity == severity && !has_string(ignore, findings[i].id) {
            let ghost so_far = out@;
            let f = findings[i].clone();
            out.push(f);
            proof {
                assert(finding_views(out@) =~= finding_views(so_far).push(f@));
                assert(finding_views(out@) =~= start + kept_at(
                    all.take(i + 1),
                    views(ignore@),
                    severity,
                ));
            }
        }
    }
    assert(all.take(all.len() as int) =~= all);
}

/// Runs every check and reports what is not ignored, the worst first.
pub fn run(manifest: &RuskManifest) -> (r: Vec<Finding>)
    ensures
        finding_views(r@) == reported(all_findings(manifest@), manifest@.lint_ignore),
{
    let mut findings = check_sdk_versions(manifest);
    let mut more = check_permissions(manifest);
    append_findings(&mut findings, &mut more);
    let mut more = check_release_signing(manifest);
    append_findings(&mut findings, &mut more);
    let mut more = check_abi_coverage(manifest);
    append_findings(&mut findings, &mut more);
    let mut more = check_debuggable_release(manifest);
    append_findings(&mut findings, &mut more);
    let mut more = check_java_dependency_versions(manifest);
    append_findings(&mut findings, &mut more);
    let mut more = check_app_id(manifest);
    append_findings(&mut findings, &mut more);
    let mut out: Vec<Finding> = Vec::new();
    push_kept(&mut out, &findings, &manifest.lint.ignore, Severity::Error);
    push_kept(&mut out, &findings, &manifest.lint.ignore, Severity::Warning);
    push_kept(&mut out, &findings, &manifest.lint.ignore, Severity::Info);
    assert(finding_views(out@) =~= reported(all_findings(manifest@), manifest@.lint_ignore));
    out
}

fn append_findings(out: &mut Vec<Finding>, more: &mut Vec<Finding>)
    ensures
        finding_views(final(out)@) == finding_views(old(out)@) + finding_views(old(more)@),
{
    let ghost a = out@;
    let ghost b = more@;
    out.append(more);
    assert(finding_views(out@) =~= finding_views(a) + finding_views(b));
}

// ---------------------------------------------------------------------------
// What holds of every report

proof fn kept_at_props(findings: Seq<FindingView>, ignore: Seq<Seq<char>>, severity: Severity)
    ensures
        forall|i: int|
            0 <= i < kept_at(findings, ignore, severity).len() ==> {
                let f = #[trigger] kept_at(findings, ignore, severity)[i];
                f.severity == severity && !ignore.contains(f.id) && findings.contains(f)
            },
        forall|f: FindingView|
            findings.contains(f) && f.severity == severity && !ignore.contains(f.id)
                ==> #[trigger] kept_at(findings, ignore, severity).contains(f),
    decreases findings.len(),
{
    if findings.len() > 0 {
        let less = findings.drop_last();
        kept_at_props(less, ignore, severity);
        let k = kept_at(findings, ignore, severity);
        let k0 = kept_at(less, ignore, severity);
        assert forall|i: int| 0 <= i < k.len() implies {
            let f = #[trigger] k[i];
            f.severity == severity && !ignore.contains(f.id) && findings.contains(f)
        } by {
            if i < k0.len() {
                assert(k[i] == k0[i]);
                assert(less.contains(k0[i]));
                let j = choose|j: int| 0 <= j < less.len() && less[j] == k0[i];
                assert(findings[j] == k[i]);
            } else {
                assert(findings[findings.len() - 1] == k[i]);
            }
        }
        assert forall|f: FindingView|
            findings.contains(f) && f.severity == severity && !ignore.contains(
                f.id,
            ) implies #[trigger] k.contains(f) by {
            let j = choose|j: int| 0 <= j < findings.len() && findings[j] == f;
            if j < less.len() {
                assert(less[j] == f);
                assert(k0.contains(f));
                let i = choose|i: int| 0 <= i < k0.len() && k0[i] == f;
                assert(k[i] == f);
            } else {
                assert(k[k.len() - 1] == f);
            }
        }
    }
}

/// A report never holds a finding before a worse one.
pub proof fn report_is_sorted(findings: Seq<FindingView>, ignore: Seq<Seq<char>>)
    ensures
        forall|i: int, j: int|
            0 <= i < j < reported(findings, ignore).len() ==> (#[trigger] reported(
                findings,
                ignore,
            )[i]).severity.rank() >= (#[trigger] reported(findings, ignore)[j]).severity.rank(),
{
    let e = kept_at(findings, ignore, Severity::Error);
    let w = kept_at(findings, ignore, Severity::Warning);
    let n = kept_at(findings, ignore, Severity::Info);
    kept_at_props(findings, ignore, Severity::Error);
    kept_at_props(findings, ignore, Severity::Warning);
    kept_at_props(findings, ignore, Severity::Info);
    let r = reported(findings, ignore);
    assert forall|i: int, j: int| 0 <= i < j < r.len() implies (#[trigger] r[i]).severity.rank() >= (
    #[trigger] r[j]).severity.rank() by {
        report_severity(findings, ignore, i);
        report_severity(findings, ignore, j);
    }
}

proof fn report_severity(findings: Seq<FindingView>, ignore: Seq<Seq<char>>, i: int)
    requires
        0 <= i < reported(findings, ignore).len(),
    ensures
        ({
            let e = kept_at(findings, ignore, Severity::Error);
            let w = kept_at(findings, ignore, Severity::Warning);
            reported(findings, ignore)[i].severity == (if i < e.len() {
                Severity::Error
            } else if i < e.len() + w.len() {
                Severity::Warning
            } else {
                Severity::Info
            })
        }),
{
    let e = kept_at(findings, ignore, Severity::Error);
    let w = kept_at(findings, ignore, Severity::Warning);
    let n = kept_at(findings, ignore, Severity::Info);
    kept_at_props(findings, ignore, Severity::Error);
    kept_at_props(findings, ignore, Severity::Warning);
    kept_at_props(findings, ignore, Severity::Info);
    let r = reported(findings, ignore);
    if i < e.len() {
        assert(r[i] == e[i]);
    } else if i < e.len() + w.len() {
        assert(r[i] == w[i - e.len()]);
    } else {
        assert(r[i] == n[i - e.len() - w.len()]);
    }
}

/// A report holds exactly the findings whose checks are not ignored.
pub proof fn report_is_complete(
    findings: Seq<FindingView>,
    ignore: Seq<Seq<char>>,
    f: FindingView,
)
    ensures
        reported(findings, ignore).contains(f) <==> findings.contains(f) && !ignore.contains(f.id),
{
    let e = kept_at(findings, ignore, Severity::Error);
    let w = kept_at(findings, ignore, Severity::Warning);
    let n = kept_at(findings, ignore, Severity::Info);
    kept_at_props(findings, ignore, Severity::Error);
    kept_at_props(findings, ignore, Severity::Warning);
    kept_at_props(findings, ignore, Severity::Info);
    let r = reported(findings, ignore);
    if r.contains(f) {
        let i = choose|i: int| 0 <= i < r.len() && r[i] == f;
        if i < e.len() {
            assert(r[i] == e[i]);
        } else if i < e.len() + w.len() {
            assert(r[i] == w[i - e.len()]);
        } else {
            assert(r[i] == n[i - e.len() - w.len()]);
        }
    }
    if findings.contains(f) && !ignore.contains(f.id) {
        match f.severity {
            Severity::Error => {
                assert(e.contains(f));
                let i = choose|i: int| 0 <= i < e.len() && e[i] == f;
                assert(r[i] == f);
            },
            Severity::Warning => {
                assert(w.contains(f));
                let i = choose|i: int| 0 <= i < w.len() && w[i] == f;
                assert(r[e.len() + i] == f);
            },
            Severity::Info => {
                assert(n.contains(f));
                let i = choose|i: int| 0 <= i < n.len() && n[i] == f;
                assert(r[e.len() + w.len() + i] == f);
            },
        }
    }
}

// ---------------------------------------------------------------------------
// When each check speaks up

/// Whether a check speaks up about a project, at a severity.
pub open spec fn speaks_up(m: ManifestView, id: Seq<char>, severity: Severity) -> bool {
    exists|f: FindingView|
        #[trigger] all_findings(m).contains(f) && f.id == id && f.severity == severity
}

/// How long the name of a check is and how it begins, which tells checks apart.
spec fn check_shape(s: Seq<char>) -> (nat, char) {
    (s.len(), s[0])
}

proof fn check_shapes()
    ensures
        check_shape("sdk-compile-below-target"@) == (24nat, 's'),
        check_shape("sdk-target-outdated"@) == (19nat, 's'),
        check_shape("sdk-min-very-old"@) == (16nat, 's'),
        check_shape("sensitive-permission"@) == (20nat, 's'),
        check_shape("no-release-signing-configured"@) == (29nat, 'n'),
        check_shape("single-abi-target"@) == (17nat, 's'),
        check_shape("missing-arm64"@) == (13nat, 'm'),
        check_shape("debuggable-true"@) == (15nat, 'd'),
        check_shape("unpinned-java-dependency"@) == (24nat, 'u'),
        check_shape("example-app-id"@) == (14nat, 'e'),
{
    assert(check_shape("sdk-compile-below-target"@) == (24nat, 's')) by {
        reveal_strlit("sdk-compile-below-target");
    }
    assert(check_shape("sdk-target-outdated"@) == (19nat, 's')) by {
        reveal_strlit("sdk-target-outdated");
    }
    assert(check_shape("sdk-min-very-old"@) == (16nat, 's')) by {
        reveal_strlit("sdk-min-very-old");
    }
    assert(check_shape("sensitive-permission"@) == (20nat, 's')) by {
        reveal_strlit("sensitive-permission");
    }
    assert(check_shape("no-release-signing-configured"@) == (29nat, 'n')) by {
        reveal_strlit("no-release-signing-configured");
    }
    assert(check_shape("single-abi-target"@) == (17nat, 's')) by {
        reveal_strlit("single-abi-target");
    }
    assert(check_shape("missing-arm64"@) == (13nat, 'm')) by {
        reveal_strlit("missing-arm64");
    }
    assert(check_shape("debuggable-true"@) == (15nat, 'd')) by {
        reveal_strlit("debuggable-true");
    }
    assert(check_shape("unpinned-java-dependency"@) == (24nat, 'u')) by {
        reveal_strlit("unpinned-java-dependency");
    }
    assert(check_shape("example-app-id"@) == (14nat, 'e')) by {
        reveal_strlit("example-app-id");
    }
}

proof fn in_both(a: Seq<FindingView>, b: Seq<FindingView>, f: FindingView)
    ensures
        (a + b).contains(f) <==> a.contains(f) || b.contains(f),
{
    if a.contains(f) {
        let i = choose|i: int| 0 <= i < a.len() && a[i] == f;
        assert((a + b)[i] == f);
    }
    if b.contains(f) {
        let i = choose|i: int| 0 <= i < b.len() && b[i] == f;
        assert((a + b)[a.len() + i] == f);
    }
}

proof fn in_one(present: bool, g: FindingView, f: FindingView)
    ensures
        finding_if(present, g).contains(f) <==> present && f == g,
{
    if present {
        assert(finding_if(present, g)[0] == g);
    }
}

/// A finding is about the project as a whole if it comes from one of the checks.
proof fn found_by_a_check(m: ManifestView, f: FindingView)
    ensures
        all_findings(m).contains(f) <==> sdk_findings(m).contains(f) || permission_findings(
            m,
        ).contains(f) || signing_findings(m).contains(f) || abi_findings(m).contains(f)
            || debuggable_findings(m).contains(f) || java_findings(m.java).contains(f)
            || app_id_findings(m).contains(f),
{
    let a = sdk_findings(m);
    let b = permission_findings(m);
    let c = signing_findings(m);
    let d = abi_findings(m);
    let e = debuggable_findings(m);
    let g = java_findings(m.java);
    let h = app_id_findings(m);
    in_both(a, b, f);
    in_both(a + b, c, f);
    in_both(a + b + c, d, f);
    in_both(a + b + c + d, e, f);
    in_both(a + b + c + d + e, g, f);
    in_both(a + b + c + d + e + g, h, f);
}

spec fn compile_finding(m: ManifestView) -> FindingView {
    FindingView {
        id: "sdk-compile-below-target"@,
        severity: Severity::Error,
        message: "package.sdk_compile ("@ + decimal(m.package.sdk_compile as nat)
            + ") is lower than package.sdk_target ("@ + decimal(m.package.sdk_target as nat)
            + ")"@,
        hint: Some(HINT_COMPILE@),
    }
}

spec fn target_finding(m: ManifestView) -> FindingView {
    FindingView {
        id: "sdk-target-outdated"@,
        severity: Severity::Warning,
        message: "package.sdk_target ("@ + decimal(m.package.sdk_target as nat)
            + ") is below API 33; Play Console requires targeting within one year of the latest Android release for new submissions and updates"@,
        hint: Some(HINT_TARGET@),
    }
}

spec fn lowest_finding(m: ManifestView) -> FindingView {
    FindingView {
        id: "sdk-min-very-old"@,
        severity: Severity::Info,
        message: "package.sdk_min ("@ + decimal(m.package.sdk_min as nat)
            + ") targets Android versions with negligible remaining market share"@,
        hint: None,
    }
}

proof fn in_sdk_findings(m: ManifestView, f: FindingView)
    ensures
        sdk_findings(m).contains(f) <==> {
            ||| m.package.sdk_compile < m.package.sdk_target && f == compile_finding(m)
            ||| m.package.sdk_target < 33 && f == target_finding(m)
            ||| m.package.sdk_min < 21 && f == lowest_finding(m)
        },
{
    let a = finding_if(m.package.sdk_compile < m.package.sdk_target, compile_finding(m));
    let b = finding_if(m.package.sdk_target < 33, target_finding(m));
    let c = finding_if(m.package.sdk_min < 21, lowest_finding(m));
    assert(sdk_findings(m) == a + b + c);
    in_both(a, b, f);
    in_both(a + b, c, f);
    in_one(m.package.sdk_compile < m.package.sdk_target, compile_finding(m), f);
    in_one(m.package.sdk_target < 33, target_finding(m), f);
    in_one(m.package.sdk_min < 21, lowest_finding(m), f);
}

/// The permissions that a store asks about.
pub open spec fn asked_about() -> Seq<Seq<char>> {
    seq![
        "ACCESS_BACKGROUND_LOCATION"@,
        "READ_SMS"@,
        "READ_CALL_LOG"@,
        "SYSTEM_ALERT_WINDOW"@,
        "WRITE_EXTERNAL_STORAGE"@,
    ]
}

proof fn in_permission_finding(
    perms: Seq<Seq<char>>,
    perm: Seq<char>,
    note: Seq<char>,
    f: FindingView,
)
    ensures
        permission_finding(perms, perm, note).contains(f) <==> perms.contains(perm) && f == (
        FindingView {
            id: "sensitive-permission"@,
            severity: Severity::Warning,
            message: "permission "@ + perm + " is declared"@,
            hint: Some(note),
        }),
{
    in_one(
        perms.contains(perm),
        FindingView {
            id: "sensitive-permission"@,
            severity: Severity::Warning,
            message: "permission "@ + perm + " is declared"@,
            hint: Some(note),
        },
        f,
    );
}

proof fn in_permission_findings(m: ManifestView, f: FindingView)
    ensures
        permission_findings(m).contains(f) <==> {
            ||| permission_finding(m.permissions, "ACCESS_BACKGROUND_LOCATION"@, NOTE_LOCATION@).contains(f)
            ||| permission_finding(m.permissions, "READ_SMS"@, NOTE_SMS@).contains(f)
            ||| permission_finding(m.permissions, "READ_CALL_LOG"@, NOTE_CALL_LOG@).contains(f)
            ||| permission_finding(m.permissions, "SYSTEM_ALERT_WINDOW"@, NOTE_ALERT_WINDOW@).contains(f)
            ||| permission_finding(m.permissions, "WRITE_EXTERNAL_STORAGE"@, NOTE_STORAGE@).contains(f)
        },
{
    let a = permission_finding(m.permissions, "ACCESS_BACKGROUND_LOCATION"@, NOTE_LOCATION@);
    let b = permission_finding(m.permissions, "READ_SMS"@, NOTE_SMS@);
    let c = permission_finding(m.permissions, "READ_CALL_LOG"@, NOTE_CALL_LOG@);
    let d = permission_finding(m.permissions, "SYSTEM_ALERT_WINDOW"@, NOTE_ALERT_WINDOW@);
    let e = permission_finding(m.permissions, "WRITE_EXTERNAL_STORAGE"@, NOTE_STORAGE@);
    in_both(a, b, f);
    in_both(a + b, c, f);
    in_both(a + b + c, d, f);
    in_both(a + b + c + d, e, f);
}

spec fn unpinned_finding(k: Seq<char>, v: Seq<char>) -> FindingView {
    FindingView {
        id: "unpinned-java-dependency"@,
        severity: Severity::Warning,
        message: k + " = \""@ + v + "\" is not a pinned version"@,
        hint: Some(HINT_UNPINNED@),
    }
}

proof fn in_java_findings(java: Seq<(Seq<char>, Seq<char>)>, f: FindingView)
    ensures
        java_findings(java).contains(f) <==> exists|i: int|
            0 <= i < java.len() && unpinned((#[trigger] java[i]).1) && f == unpinned_finding(
                java[i].0,
                java[i].1,
            ),
    decreases java.len(),
{
    if java.len() > 0 {
        let rest = java.drop_last();
        let (k, v) = java.last();
        in_java_findings(rest, f);
        in_one(unpinned(v), unpinned_finding(k, v), f);
        in_both(java_findings(rest), finding_if(unpinned(v), unpinned_finding(k, v)), f);
        if java_findings(rest).contains(f) {
            let i = choose|i: int|
                0 <= i < rest.len() && unpinned((#[trigger] rest[i]).1) && f == unpinned_finding(
                    rest[i].0,
                    rest[i].1,
                );
            assert(java[i] == rest[i]);
        }
        if java_findings(java).contains(f) && !java_findings(rest).contains(f) {
            assert(java[java.len() - 1] == (k, v));
        }
        if exists|i: int|
            0 <= i < java.len() && unpinned((#[trigger] java[i]).1) && f == unpinned_finding(
                java[i].0,
                java[i].1,
            ) {
            let i = choose|i: int|
                0 <= i < java.len() && unpinned((#[trigger] java[i]).1) && f == unpinned_finding(
                    java[i].0,
                    java[i].1,
                );
            if i < rest.len() {
                assert(rest[i] == java[i]);
            }
        }
    }
}

spec fn signing_finding() -> FindingView {
    FindingView {
        id: "no-release-signing-configured"@,
        severity: Severity::Info,
        message: NO_SIGNING@,
        hint: Some(HINT_SIGNING@),
    }
}

spec fn single_finding(m: ManifestView) -> FindingView {
    FindingView {
        id: "single-abi-target"@,
        severity: Severity::Warning,
        message: "only one ABI target configured ("@ + m.targets[0] + ")"@,
        hint: Some(HINT_SINGLE_ABI@),
    }
}

spec fn missing_finding() -> FindingView {
    FindingView {
        id: "missing-arm64"@,
        severity: Severity::Error,
        message: "arm64-v8a is not in [abi] targets"@,
        hint: Some(HINT_ARM64@),
    }
}

spec fn debuggable_finding() -> FindingView {
    FindingView {
        id: "debuggable-true"@,
        severity: Severity::Warning,
        message: "app.debuggable is true"@,
        hint: Some(HINT_DEBUGGABLE@),
    }
}

spec fn example_finding(m: ManifestView) -> FindingView {
    FindingView {
        id: "example-app-id"@,
        severity: Severity::Error,
        message: "package.id \""@ + m.package.id
            + "\" uses the reserved com.example.* namespace"@,
        hint: Some(HINT_EXAMPLE_ID@),
    }
}

/// Every finding comes from one check.
#[verifier::rlimit(40)]
proof fn finding_cases(m: ManifestView, f: FindingView)
    ensures
        all_findings(m).contains(f) <==> {
            ||| m.package.sdk_compile < m.package.sdk_target && f == compile_finding(m)
            ||| m.package.sdk_target < 33 && f == target_finding(m)
            ||| m.package.sdk_min < 21 && f == lowest_finding(m)
            ||| permission_findings(m).contains(f)
            ||| m.signing is None && f == signing_finding()
            ||| m.targets.len() == 1 && f == single_finding(m)
            ||| m.targets.len() != 1 && !m.targets.contains("arm64-v8a"@) && f == missing_finding()
            ||| m.app.debuggable && f == debuggable_finding()
            ||| java_findings(m.java).contains(f)
            ||| "com.example."@.is_prefix_of(m.package.id) && f == example_finding(m)
        },
{
    found_by_a_check(m, f);
    in_sdk_findings(m, f);
    in_one(m.signing is None, signing_finding(), f);
    in_one(true, single_finding(m), f);
    in_one(!m.targets.contains("arm64-v8a"@), missing_finding(), f);
    in_one(m.app.debuggable, debuggable_finding(), f);
    in_one("com.example."@.is_prefix_of(m.package.id), example_finding(m), f);
    assert(m.targets.len() == 1 ==> abi_findings(m) == finding_if(true, single_finding(m)));
}

proof fn permission_cases(m: ManifestView, f: FindingView)
    ensures
        permission_findings(m).contains(f) ==> f.id == "sensitive-permission"@ && f.severity
            == Severity::Warning,
        java_findings(m.java).contains(f) ==> f.id == "unpinned-java-dependency"@ && f.severity
            == Severity::Warning,
{
    in_permission_findings(m, f);
    in_permission_finding(m.permissions, "ACCESS_BACKGROUND_LOCATION"@, NOTE_LOCATION@, f);
    in_permission_finding(m.permissions, "READ_SMS"@, NOTE_SMS@, f);
    in_permission_finding(m.permissions, "READ_CALL_LOG"@, NOTE_CALL_LOG@, f);
    in_permission_finding(m.permissions, "SYSTEM_ALERT_WINDOW"@, NOTE_ALERT_WINDOW@, f);
    in_permission_finding(m.permissions, "WRITE_EXTERNAL_STORAGE"@, NOTE_STORAGE@, f);
    in_java_findings(m.java, f);
}

/// A project that is compiled against an older level than it is built for is in error;
/// one that is built for a level below 33 is warned, and one that runs below level 21 is
/// told so.
#[verifier::rlimit(40)]
pub proof fn levels_are_checked(m: ManifestView)
    ensures
        speaks_up(m, "sdk-compile-below-target"@, Severity::Error) <==> m.package.sdk_compile
            < m.package.sdk_target,
        speaks_up(m, "sdk-target-outdated"@, Severity::Warning) <==> m.package.sdk_target < 33,
        speaks_up(m, "sdk-min-very-old"@, Severity::Info) <==> m.package.sdk_min < 21,
{
    check_shapes();
    finding_cases(m, compile_finding(m));
    finding_cases(m, target_finding(m));
    finding_cases(m, lowest_finding(m));
    assert forall|f: FindingView| #[trigger] all_findings(m).contains(f) implies (f.id
        == "sdk-compile-below-target"@ ==> m.package.sdk_compile < m.package.sdk_target) && (f.id
        == "sdk-target-outdated"@ ==> m.package.sdk_target < 33) && (f.id == "sdk-min-very-old"@
        ==> m.package.sdk_min < 21) by {
        finding_cases(m, f);
        permission_cases(m, f);
    }
}

/// A project without a release key is told so. One with a single target is warned; one
/// with none or several is in error where 64-bit ARM is not among them. A project that
/// can be debugged is warned, and one with an example's id is in error.
#[verifier::rlimit(40)]
pub proof fn release_is_checked(m: ManifestView)
    ensures
        speaks_up(m, "no-release-signing-configured"@, Severity::Info) <==> m.signing is None,
        speaks_up(m, "single-abi-target"@, Severity::Warning) <==> m.targets.len() == 1,
        speaks_up(m, "missing-arm64"@, Severity::Error) <==> m.targets.len() != 1
            && !m.targets.contains("arm64-v8a"@),
        speaks_up(m, "debuggable-true"@, Severity::Warning) <==> m.app.debuggable,
        speaks_up(m, "example-app-id"@, Severity::Error) <==> "com.example."@.is_prefix_of(
            m.package.id,
        ),
{
    check_shapes();
    finding_cases(m, signing_finding());
    finding_cases(m, single_finding(m));
    finding_cases(m, missing_finding());
    finding_cases(m, debuggable_finding());
    finding_cases(m, example_finding(m));
    assert forall|f: FindingView| #[trigger] all_findings(m).contains(f) implies (f.id
        == "no-release-signing-configured"@ ==> m.signing is None) && (f.id
        == "single-abi-target"@ ==> m.targets.len() == 1) && (f.id == "missing-arm64"@
        ==> m.targets.len() != 1 && !m.targets.contains("arm64-v8a"@)) && (f.id
        == "debuggable-true"@ ==> m.app.debuggable) && (f.id == "example-app-id"@
        ==> "com.example."@.is_prefix_of(m.package.id)) by {
        finding_cases(m, f);
        permission_cases(m, f);
    }
}

/// A project is warned of every permission it asks for that a store asks about, by the
/// permission's name, and of no other.
#[verifier::rlimit(40)]
pub proof fn permissions_are_checked(m: ManifestView, f: FindingView)
    ensures
        forall|i: int|
            0 <= i < asked_about().len() && m.permissions.contains(#[trigger] asked_about()[i])
                ==> exists|g: FindingView| #[trigger]
                all_findings(m).contains(g) && g.id == "sensitive-permission"@ && g.severity
                    == Severity::Warning && g.message == "permission "@ + asked_about()[i]
                    + " is declared"@,
        all_findings(m).contains(f) && f.id == "sensitive-permission"@ ==> exists|i: int|
            0 <= i < asked_about().len() && m.permissions.contains(#[trigger] asked_about()[i])
                && f.message == "permission "@ + asked_about()[i] + " is declared"@,
{
    check_shapes();
    let t = asked_about();
    let notes = seq![
        NOTE_LOCATION@,
        NOTE_SMS@,
        NOTE_CALL_LOG@,
        NOTE_ALERT_WINDOW@,
        NOTE_STORAGE@,
    ];
    assert(t[0] == "ACCESS_BACKGROUND_LOCATION"@ && t[1] == "READ_SMS"@);
    assert(t[2] == "READ_CALL_LOG"@ && t[3] == "SYSTEM_ALERT_WINDOW"@);
    assert(t[4] == "WRITE_EXTERNAL_STORAGE"@);
    assert forall|i: int| 0 <= i < t.len() && m.permissions.contains(
        #[trigger] t[i],
    ) implies exists|g: FindingView| #[trigger]
        all_findings(m).contains(g) && g.id == "sensitive-permission"@ && g.severity
            == Severity::Warning && g.message == "permission "@ + t[i] + " is declared"@ by {
        let g = FindingView {
            id: "sensitive-permission"@,
            severity: Severity::Warning,
            message: "permission "@ + t[i] + " is declared"@,
            hint: Some(notes[i]),
        };
        in_permission_finding(m.permissions, t[i], notes[i], g);
        in_permission_findings(m, g);
        finding_cases(m, g);
    }
    finding_cases(m, f);
    permission_cases(m, f);
    if all_findings(m).contains(f) && f.id == "sensitive-permission"@ {
        in_permission_findings(m, f);
        in_permission_finding(m.permissions, t[0], NOTE_LOCATION@, f);
        in_permission_finding(m.permissions, t[1], NOTE_SMS@, f);
        in_permission_finding(m.permissions, t[2], NOTE_CALL_LOG@, f);
        in_permission_finding(m.permissions, t[3], NOTE_ALERT_WINDOW@, f);
        in_permission_finding(m.permissions, t[4], NOTE_STORAGE@, f);
    }
}

/// A project is warned of every Java dependency without a fixed version, by its name and
/// version, and of no other.
#[verifier::rlimit(40)]
pub proof fn dependencies_are_checked(m: ManifestView, i: int, f: FindingView)
    ensures
        0 <= i < m.java.len() && unpinned(m.java[i].1) ==> exists|g: FindingView| #[trigger]
            all_findings(m).contains(g) && g.id == "unpinned-java-dependency"@ && g.message
                == m.java[i].0 + " = \""@ + m.java[i].1 + "\" is not a pinned version"@,
        all_findings(m).contains(f) && f.id == "unpinned-java-dependency"@ ==> f.severity
            == Severity::Warning && exists|k: int|
            0 <= k < m.java.len() && unpinned((#[trigger] m.java[k]).1) && m.java[k].0.is_prefix_of(
                f.message,
            ),
{
    check_shapes();
    if 0 <= i < m.java.len() && unpinned(m.java[i].1) {
        let g = unpinned_finding(m.java[i].0, m.java[i].1);
        in_java_findings(m.java, g);
        finding_cases(m, g);
    }
    finding_cases(m, f);
    permission_cases(m, f);
    in_java_findings(m.java, f);
    if all_findings(m).contains(f) && f.id == "unpinned-java-dependency"@ {
        let k = choose|k: int|
            0 <= k < m.java.len() && unpinned((#[trigger] m.java[k]).1) && f == unpinned_finding(
                m.java[k].0,
                m.java[k].1,
            );
        assert(f.message.subrange(0, m.java[k].0.len() as int) =~= m.java[k].0);
    }
}

/// A version that leaves its end open is not fixed, nor is the latest one, however it
/// is written; a version that ends in a digit is.
pub proof fn fixed_versions(v: Seq<char>)
    ensures
        unpinned(v.push('+')),
        lowered(v) == "latest"@ ==> unpinned(v),
        v.len() > 0 && ascii_digit(v.last()) ==> !unpinned(v),
        !unpinned(seq![]),
{
    reveal_strlit("latest");
    assert(v.push('+').last() == '+');
    assert(lowered(seq![]).len() == 0);
    if v.len() > 0 && ascii_digit(v.last()) && lowered(v) == "latest"@ {
        assert(lowered(v).len() == v.len() && "latest"@[5] == 't');
        assert(lowered(v)[v.len() - 1] == lower(v.last()));
    }
}

} // verus!
