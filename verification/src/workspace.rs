//! Repositories with more than one project: `Rusk.workspace.toml` lists them, by
//! directory or by a pattern for all directories below one.
use crate::manifest::{find_first_true, first_true};
use crate::path::{HostOs, is_path_below, key_of, path_below, path_key};
use crate::text::{
    concat3, contains_text, has_string, opt_view, positions, precedes, replace_char, replaced,
    sort_positions, sorted_positions, sorted_positions_are_sorted, stands_before, strip_suffix,
    tells, tells_more, views,
};
use vstd::prelude::*;

verus! {

/// What is wrong with a workspace.
#[derive(Debug)]
pub enum WorkspaceError {
    /// No `Rusk.workspace.toml` in the directory or any above it.
    NotFound(String),
    MemberMissingManifest(String),
    DuplicateMember(String),
}

impl WorkspaceError {
    /// The text of the message shown for the error.
    pub open spec fn text(&self) -> Seq<char> {
        match *self {
            WorkspaceError::NotFound(dir) => "Rusk.workspace.toml not found in "@ + dir@
                + " (or any parent directory)"@,
            WorkspaceError::MemberMissingManifest(m) => "member \""@ + m@
                + "\" listed in Rusk.workspace.toml has no Rusk.toml at that path"@,
            WorkspaceError::DuplicateMember(m) => "member path \""@ + m@
                + "\" appears more than once (after glob expansion)"@,
        }
    }

    /// The message shown for the error.
    pub fn message(&self) -> (r: String)
        ensures
            r@ == self.text(),
    {
        match self {
            WorkspaceError::NotFound(dir) => concat3(
                "Rusk.workspace.toml not found in ",
                dir,
                " (or any parent directory)",
            ),
            WorkspaceError::MemberMissingManifest(m) => concat3(
                "member \"",
                m,
                "\" listed in Rusk.workspace.toml has no Rusk.toml at that path",
            ),
            WorkspaceError::DuplicateMember(m) => concat3(
                "member path \"",
                m,
                "\" appears more than once (after glob expansion)",
            ),
        }
    }
}

/// A `Rusk.workspace.toml`.
#[derive(Debug)]
pub struct WorkspaceFile {
    /// Directories relative to the workspace's root. One that ends in `/*`
    /// stands for every directory right below that has a `Rusk.toml`.
    pub members: Vec<String>,
    /// Directories that such patterns pass over.
    pub exclude: Vec<String>,
}

/// A project of a workspace.
#[derive(Debug)]
pub struct WorkspaceMember {
    pub name: String,
    pub dir: String,
    pub manifest_path: String,
}

/// A workspace.
#[derive(Debug)]
pub struct Workspace {
    pub root: String,
    pub members: Vec<WorkspaceMember>,
}

/// A directory that may be a member: its path, that path relative to the
/// workspace's root, the path with links resolved, its name where it has one,
/// the path of its `Rusk.toml` and whether there is one.
#[derive(Debug)]
pub struct Candidate {
    pub dir: String,
    pub relative: String,
    pub canonical: String,
    pub file_name: Option<String>,
    pub manifest_path: String,
    pub has_manifest: bool,
}

/// What a pattern's `/*` follows, where it has one.
pub open spec fn glob_base(pattern: Seq<char>) -> Option<Seq<char>> {
    if "/*"@.is_suffix_of(pattern) {
        Some(pattern.take(pattern.len() - "/*"@.len()))
    } else {
        None
    }
}

/// What a pattern's `/*` follows, where it has one.
pub fn glob_prefix(pattern: &str) -> (r: Option<String>)
    ensures
        opt_view(r) == glob_base(pattern@),
{
    match strip_suffix(pattern, "/*") {
        Some(base) => {
            proof {
                assert(pattern@.take(pattern@.len() - "/*"@.len()) =~= base@);
                assert(pattern@.subrange(
                    pattern@.len() - "/*"@.len(),
                    pattern@.len() as int,
                ) =~= "/*"@);
            }
            Some(base)
        },
        None => None,
    }
}

/// What reading the members comes upon.
pub enum Step {
    /// A directory that is a member.
    Take(Candidate),
    /// A listed directory without a `Rusk.toml`.
    Missing(Seq<char>),
}

/// Whether a pattern takes the directory: it is not excluded and has a `Rusk.toml`.
pub open spec fn glob_takes(c: Candidate, exclude: Seq<Seq<char>>) -> bool {
    c.has_manifest && !exclude.contains(replaced(c.relative@, '\\', "/"@))
}

/// The paths by whose keys directories are sorted.
pub open spec fn dir_keys(host: HostOs, found: Seq<Candidate>) -> Seq<Seq<char>> {
    found.map_values(|c: Candidate| path_key(host, c.dir@))
}

/// The directories that a pattern takes among those at the first `n` of the
/// positions.
pub open spec fn glob_steps(
    found: Seq<Candidate>,
    order: Seq<int>,
    exclude: Seq<Seq<char>>,
    n: nat,
) -> Seq<Step>
    decreases n,
{
    if n == 0 || n > order.len() {
        seq![]
    } else {
        let c = found[order[n - 1]];
        let before = glob_steps(found, order, exclude, (n - 1) as nat);
        if glob_takes(c, exclude) {
            before.push(Step::Take(c))
        } else {
            before
        }
    }
}

/// What a member of the file stands for, where `found` are the directories
/// right below a pattern's base, or the one directory that is named. A
/// pattern's directories are taken in the order of their paths.
pub open spec fn steps_of(
    host: HostOs,
    pattern: Seq<char>,
    found: Seq<Candidate>,
    exclude: Seq<Seq<char>>,
) -> Seq<Step> {
    if glob_base(pattern) is Some {
        glob_steps(
            found,
            sorted_positions(dir_keys(host, found), found.len()),
            exclude,
            found.len(),
        )
    } else if found.len() > 0 && found[0].has_manifest {
        seq![Step::Take(found[0])]
    } else {
        seq![Step::Missing(pattern)]
    }
}

/// What the first `n` members of the file stand for.
pub open spec fn all_steps(
    host: HostOs,
    patterns: Seq<Seq<char>>,
    found: Seq<Vec<Candidate>>,
    exclude: Seq<Seq<char>>,
    n: nat,
) -> Seq<Step>
    decreases n,
{
    if n == 0 || n > patterns.len() {
        seq![]
    } else {
        all_steps(host, patterns, found, exclude, (n - 1) as nat) + steps_of(
            host,
            patterns[n - 1],
            found[n - 1]@,
            exclude,
        )
    }
}

/// Why reading the members stops.
pub enum Stop {
    Missing(Seq<char>),
    Duplicate(Seq<char>),
}

/// Whether one of the directories is the same as `canonical`.
pub open spec fn already_taken(taken: Seq<Candidate>, canonical: Seq<char>) -> bool {
    exists|i: int| 0 <= i < taken.len() && (#[trigger] taken[i]).canonical@ == canonical
}

/// The members that the steps lead to, or why they stop.
pub open spec fn taken_by(steps: Seq<Step>) -> Result<Seq<Candidate>, Stop>
    decreases steps.len(),
{
    if steps.len() == 0 {
        Ok(seq![])
    } else {
        match taken_by(steps.drop_last()) {
            Err(stop) => Err(stop),
            Ok(taken) => match steps.last() {
                Step::Missing(pattern) => Err(Stop::Missing(pattern)),
                Step::Take(c) => if already_taken(taken, c.canonical@) {
                    Err(Stop::Duplicate(c.relative@))
                } else {
                    Ok(taken.push(c))
                },
            },
        }
    }
}

/// The name of a member: that of its directory, or the whole path where it has
/// none.
pub open spec fn member_name(c: Candidate) -> Seq<char> {
    match c.file_name {
        Some(n) => n@,
        None => c.dir@,
    }
}

/// Whether the members are the directories taken, in order.
pub open spec fn are_members(members: Seq<WorkspaceMember>, taken: Seq<Candidate>) -> bool {
    &&& members.len() == taken.len()
    &&& forall|i: int|
        0 <= i < members.len() ==> {
            &&& (#[trigger] members[i]).name@ == member_name(taken[i])
            &&& members[i].dir@ == taken[i].dir@
            &&& members[i].manifest_path@ == taken[i].manifest_path@
        }
}

/// Once reading has stopped, more steps change nothing.
proof fn stop_is_final(a: Seq<Step>, b: Seq<Step>)
    requires
        taken_by(a) is Err,
    ensures
        taken_by(a + b) == taken_by(a),
    decreases b.len(),
{
    if b.len() == 0 {
        assert(a + b =~= a);
    } else {
        stop_is_final(a, b.drop_last());
        assert((a + b).drop_last() =~= a + b.drop_last());
    }
}

/// The members found so far, with the directories that they are.
struct Loading<'a> {
    members: Vec<WorkspaceMember>,
    canonical: Vec<String>,
    taken: Ghost<Seq<Candidate>>,
    exclude: &'a Vec<String>,
}

impl<'a> Loading<'a> {
    spec fn wf(&self) -> bool {
        &&& are_members(self.members@, self.taken@)
        &&& self.canonical.len() == self.taken@.len()
        &&& forall|i: int|
            0 <= i < self.canonical.len() ==> (#[trigger] self.canonical@[i])@
                == self.taken@[i].canonical@
    }

    /// Takes a directory as a member.
    fn push_member(&mut self, c: &Candidate) -> (r: Result<(), WorkspaceError>)
        requires
            old(self).wf(),
        ensures
            final(self).wf(),
            final(self).exclude == old(self).exclude,
            match r {
                Ok(()) => !already_taken(old(self).taken@, c.canonical@) && final(self).taken@
                    == old(self).taken@.push(*c),
                Err(WorkspaceError::DuplicateMember(m)) => already_taken(
                    old(self).taken@,
                    c.canonical@,
                ) && m@ == c.relative@,
                Err(_) => false,
            },
    {
        for i in 0..self.canonical.len()
            invariant
                self.wf(),
                self.taken@ == old(self).taken@,
                self.exclude == old(self).exclude,
                forall|j: int| 0 <= j < i ==> (#[trigger] self.taken@[j]).canonical@ != c.canonical@,
        {
            assert(self.canonical@[i as int]@ == self.taken@[i as int].canonical@);
            if self.canonical[i] == c.canonical {
                return Err(WorkspaceError::DuplicateMember(c.relative.clone()));
            }
        }
        let name = match &c.file_name {
            Some(n) => n.clone(),
            None => c.dir.clone(),
        };
        self.members.push(
            WorkspaceMember {
                name,
                dir: c.dir.clone(),
                manifest_path: c.manifest_path.clone(),
            },
        );
        self.canonical.push(c.canonical.clone());
        proof {
            self.taken@ = self.taken@.push(*c);
        }
        Ok(())
    }
}

/// Whether an error is what reading stops with.
spec fn stops_with(e: WorkspaceError, stop: Stop) -> bool {
    match (e, stop) {
        (WorkspaceError::MemberMissingManifest(m), Stop::Missing(p)) => m@ == p,
        (WorkspaceError::DuplicateMember(m), Stop::Duplicate(p)) => m@ == p,
        _ => false,
    }
}

fn load_glob(
    host: HostOs,
    loading: &mut Loading,
    found: &Vec<Candidate>,
    Ghost(done): Ghost<Seq<Step>>,
) -> (r: Result<(), WorkspaceError>)
    requires
        old(loading).wf(),
        taken_by(done) == Ok::<Seq<Candidate>, Stop>(old(loading).taken@),
    ensures
        final(loading).wf(),
        final(loading).exclude == old(loading).exclude,
        ({
            let steps = glob_steps(
                found@,
                sorted_positions(dir_keys(host, found@), found@.len()),
                views(old(loading).exclude@),
                found@.len(),
            );
            match r {
                Ok(()) => taken_by(done + steps) == Ok::<Seq<Candidate>, Stop>(
                    final(loading).taken@,
                ),
                Err(e) => taken_by(done + steps) is Err && stops_with(
                    e,
                    taken_by(done + steps)->Err_0,
                ),
            }
        }),
{
    let mut keys: Vec<String> = Vec::new();
    for i in 0..found.len()
        invariant
            keys.len() == i,
            forall|j: int| 0 <= j < i ==> (#[trigger] keys@[j])@ == path_key(host, found@[j].dir@),
    {
        keys.push(key_of(host, &found[i].dir));
    }
    assert(views(keys@) =~= dir_keys(host, found@));
    let order = sort_positions(&keys);
    let ghost pos = sorted_positions(dir_keys(host, found@), found@.len());
    let ghost exclude = views(loading.exclude@);
    let ghost all = glob_steps(found@, pos, exclude, found@.len());
    assert(done + glob_steps(found@, pos, exclude, 0) =~= done);
    for i in 0..order.len()
        invariant
            loading.wf(),
            loading.exclude == old(loading).exclude,
            exclude == views(loading.exclude@),
            order.len() == found.len(),
            forall|j: int| 0 <= j < order.len() ==> (#[trigger] order@[j]) < found.len(),
            pos == positions(order@),
            pos == sorted_positions(dir_keys(host, found@), found@.len()),
            pos.len() == order.len(),
            all == glob_steps(found@, pos, exclude, found@.len()),
            taken_by(done + glob_steps(found@, pos, exclude, i as nat)) == Ok::<
                Seq<Candidate>,
                Stop,
            >(loading.taken@),
    {
        let c = &found[order[i]];
        let ghost before = glob_steps(found@, pos, exclude, i as nat);
        let ghost now = glob_steps(found@, pos, exclude, (i + 1) as nat);
        assert(pos[i as int] == order@[i as int]);
        let slashed = replace_char(&c.relative, '\\', "/");
        if c.has_manifest && !has_string(loading.exclude, &slashed) {
            proof {
                assert(now == before.push(Step::Take(*c)));
                assert((done + now).drop_last() =~= done + before);
                assert((done + now).last() == Step::Take(*c));
            }
            match loading.push_member(c) {
                Ok(()) => {},
                Err(e) => {
                    proof {
                        glob_steps_grow(found@, pos, exclude, (i + 1) as nat, found@.len());
                        let rest = all.skip(now.len() as int);
                        assert(done + all =~= (done + now) + rest);
                        stop_is_final(done + now, rest);
                    }
                    return Err(e);
                },
            }
        } else {
            assert(now == before);
        }
    }
    Ok(())
}

proof fn glob_steps_grow(
    found: Seq<Candidate>,
    order: Seq<int>,
    exclude: Seq<Seq<char>>,
    m: nat,
    n: nat,
)
    requires
        m <= n <= order.len(),
    ensures
        glob_steps(found, order, exclude, m).is_prefix_of(glob_steps(found, order, exclude, n)),
    decreases n,
{
    let a = glob_steps(found, order, exclude, m);
    if m < n {
        glob_steps_grow(found, order, exclude, m, (n - 1) as nat);
        let b = glob_steps(found, order, exclude, (n - 1) as nat);
        let c = glob_steps(found, order, exclude, n);
        assert(c.subrange(0, a.len() as int) =~= b.subrange(0, a.len() as int));
    } else {
        assert(a.subrange(0, a.len() as int) =~= a);
    }
}

proof fn all_steps_grow(
    host: HostOs,
    patterns: Seq<Seq<char>>,
    found: Seq<Vec<Candidate>>,
    exclude: Seq<Seq<char>>,
    m: nat,
    n: nat,
)
    requires
        m <= n <= patterns.len(),
    ensures
        all_steps(host, patterns, found, exclude, m).is_prefix_of(
            all_steps(host, patterns, found, exclude, n),
        ),
    decreases n,
{
    let a = all_steps(host, patterns, found, exclude, m);
    if m < n {
        all_steps_grow(host, patterns, found, exclude, m, (n - 1) as nat);
        let b = all_steps(host, patterns, found, exclude, (n - 1) as nat);
        let c = all_steps(host, patterns, found, exclude, n);
        assert(c.subrange(0, a.len() as int) =~= b.subrange(0, a.len() as int));
    } else {
        assert(a.subrange(0, a.len() as int) =~= a);
    }
}

impl Workspace {
    /// Which directory's `Rusk.workspace.toml` to load: of the starting directory
    /// and those above it, nearest first, the first that has one.
    pub fn discover(start_dir: &str, has_file: &Vec<bool>) -> (r: Result<usize, WorkspaceError>)
        ensures
            match r {
                Ok(i) => first_true(has_file@, 0) == Some(i as int) && i < has_file.len(),
                Err(WorkspaceError::NotFound(dir)) => first_true(has_file@, 0) is None && dir@
                    == start_dir@,
                Err(_) => false,
            },
    {
        match find_first_true(has_file) {
            Some(i) => Ok(i),
            None => Err(WorkspaceError::NotFound(start_dir.to_owned())),
        }
    }

    /// The workspace that a file describes. `found` holds, for each member of
    /// the file, the directories right below a pattern's base (none where the
    /// base does not exist), or the one directory that is named.
    pub fn load(host: HostOs, root: &str, file: &WorkspaceFile, found: &Vec<Vec<Candidate>>) -> (r:
        Result<Workspace, WorkspaceError>)
        requires
            found.len() == file.members.len(),
        ensures
            ({
                let steps = all_steps(
                    host,
                    views(file.members@),
                    found@,
                    views(file.exclude@),
                    file.members@.len(),
                );
                match r {
                    Ok(w) => {
                        &&& taken_by(steps) is Ok
                        &&& are_members(w.members@, taken_by(steps)->Ok_0)
                        &&& w.root@ == root@
                    },
                    Err(WorkspaceError::MemberMissingManifest(m)) => taken_by(steps) == Err::<
                        Seq<Candidate>,
                        Stop,
                    >(Stop::Missing(m@)),
                    Err(WorkspaceError::DuplicateMember(m)) => taken_by(steps) == Err::<
                        Seq<Candidate>,
                        Stop,
                    >(Stop::Duplicate(m@)),
                    Err(_) => false,
                }
            }),
    {
        let mut loading = Loading {
            members: Vec::new(),
            canonical: Vec::new(),
            taken: Ghost(Seq::empty()),
            exclude: &file.exclude,
        };
        let ghost patterns = views(file.members@);
        let ghost exclude = views(file.exclude@);
        let ghost all = all_steps(host, patterns, found@, exclude, patterns.len());
        for i in 0..file.members.len()
            invariant
                found.len() == file.members.len(),
                patterns == views(file.members@),
                exclude == views(file.exclude@),
                all == all_steps(host, patterns, found@, exclude, patterns.len()),
                loading.wf(),
                loading.exclude@ == file.exclude@,
                taken_by(all_steps(host, patterns, found@, exclude, i as nat)) == Ok::<
                    Seq<Candidate>,
                    Stop,
                >(loading.taken@),
        {
            let pattern = &file.members[i];
            let here = &found[i];
            let ghost done = all_steps(host, patterns, found@, exclude, i as nat);
            let ghost now = all_steps(host, patterns, found@, exclude, (i + 1) as nat);
            proof {
                assert(patterns[i as int] == pattern@);
                all_steps_grow(host, patterns, found@, exclude, (i + 1) as nat, patterns.len());
                assert(all =~= now + all.skip(now.len() as int));
            }
            if glob_prefix(pattern).is_some() {
                match load_glob(host, &mut loading, here, Ghost(done)) {
                    Ok(()) => {},
                    Err(e) => {
                        proof {
                            stop_is_final(now, all.skip(now.len() as int));
                        }
                        return Err(e);
                    },
                }
            } else if here.len() > 0 && here[0].has_manifest {
                proof {
                    assert(now.drop_last() =~= done);
                    assert(now.last() == Step::Take(here@[0]));
                }
                match loading.push_member(&here[0]) {
                    Ok(()) => {},
                    Err(e) => {
                        proof {
                            stop_is_final(now, all.skip(now.len() as int));
                        }
                        return Err(e);
                    },
                }
            } else {
                proof {
                    assert(now.drop_last() =~= done);
                    assert(now.last() == Step::Missing(pattern@));
                    stop_is_final(now, all.skip(now.len() as int));
                }
                return Err(WorkspaceError::MemberMissingManifest(pattern.clone()));
            }
        }
        Ok(Workspace { root: root.to_owned(), members: loading.members })
    }

    /// Whether a directory is a member's or below one.
    pub fn contains(&self, host: HostOs, dir: &str) -> (r: bool)
        ensures
            r == exists|i: int|
                0 <= i < self.members.len() && path_below(
                    host,
                    dir@,
                    (#[trigger] self.members@[i]).dir@,
                ),
    {
        for i in 0..self.members.len()
            invariant
                forall|j: int|
                    0 <= j < i ==> !path_below(host, dir@, (#[trigger] self.members@[j]).dir@),
        {
            if is_path_below(host, dir, &self.members[i].dir) {
                return true;
            }
        }
        false
    }
}

/// No directory is a member twice: reading comes to its end only where every
/// step takes a directory and no two of these are the same, and then the
/// members are the directories in the order of the steps.
pub proof fn members_are_distinct(steps: Seq<Step>)
    ensures
        taken_by(steps) matches Ok(taken) ==> {
            &&& taken.len() == steps.len()
            &&& forall|i: int|
                0 <= i < taken.len() ==> #[trigger] steps[i] == Step::Take(taken[i])
            &&& forall|i: int, j: int|
                0 <= i < j < taken.len() ==> (#[trigger] taken[i]).canonical@ != (
                #[trigger] taken[j]).canonical@
        },
    decreases steps.len(),
{
    if steps.len() > 0 {
        members_are_distinct(steps.drop_last());
        if let Ok(taken) = taken_by(steps) {
            let before = taken_by(steps.drop_last())->Ok_0;
            assert forall|i: int| 0 <= i < taken.len() implies #[trigger] steps[i] == Step::Take(
                taken[i],
            ) by {
                if i < before.len() {
                    assert(steps.drop_last()[i] == steps[i]);
                }
            }
            assert forall|i: int, j: int| 0 <= i < j < taken.len() implies (
            #[trigger] taken[i]).canonical@ != (#[trigger] taken[j]).canonical@ by {
                assert(taken[i] == before[i]);
                if j < before.len() {
                    assert(taken[j] == before[j]);
                }
            }
        }
    }
}

/// A pattern never takes an excluded directory, nor one without a `Rusk.toml`.
pub proof fn patterns_take_only_projects(
    found: Seq<Candidate>,
    order: Seq<int>,
    exclude: Seq<Seq<char>>,
    n: nat,
)
    ensures
        forall|i: int|
            0 <= i < glob_steps(found, order, exclude, n).len() ==> ((#[trigger] glob_steps(
                found,
                order,
                exclude,
                n,
            )[i]) matches Step::Take(c) && glob_takes(c, exclude)),
    decreases n,
{
    if n > 0 && n <= order.len() {
        patterns_take_only_projects(found, order, exclude, (n - 1) as nat);
    }
}

/// A fresh `Rusk.workspace.toml`.
pub const NEW_WORKSPACE_FILE: &'static str =
    "# Lists every Rusk project directory in this repository. `rusk build\n# --all` / `rusk lint --all` operate on every listed member in one\n# invocation. A trailing \"/*\" expands to every immediate subdirectory\n# that contains a Rusk.toml.\nmembers = [\n    \"apps/*\",\n]\nexclude = []\n";

/// A fresh `Rusk.workspace.toml`.
pub fn render_new_workspace_file() -> (r: String)
    ensures
        r@ == NEW_WORKSPACE_FILE@,
{
    NEW_WORKSPACE_FILE.to_owned()
}

/// Exclusions have no effect on directories that are listed by name.
pub proof fn named_members_are_not_excluded(
    host: HostOs,
    pattern: Seq<char>,
    found: Seq<Candidate>,
    exclude: Seq<Seq<char>>,
)
    requires
        glob_base(pattern) is None,
    ensures
        steps_of(host, pattern, found, exclude) == steps_of(host, pattern, found, seq![]),
{
}

/// Which position the step at `k` of a pattern comes from.
proof fn glob_step_source(
    found: Seq<Candidate>,
    order: Seq<int>,
    exclude: Seq<Seq<char>>,
    n: nat,
    k: int,
) -> (p: int)
    requires
        n <= order.len(),
        0 <= k < glob_steps(found, order, exclude, n).len(),
    ensures
        0 <= p < n,
        glob_steps(found, order, exclude, n)[k] == Step::Take(found[order[p]]),
        glob_steps(found, order, exclude, p as nat).len() == k,
    decreases n,
{
    let before = glob_steps(found, order, exclude, (n - 1) as nat);
    if k < before.len() {
        glob_step_source(found, order, exclude, (n - 1) as nat, k)
    } else {
        n - 1
    }
}

/// The directories that a pattern takes come in the order of their paths, in
/// whatever order they were found.
pub proof fn patterns_take_in_order(
    host: HostOs,
    pattern: Seq<char>,
    found: Seq<Candidate>,
    exclude: Seq<Seq<char>>,
    i: int,
    j: int,
)
    requires
        glob_base(pattern) is Some,
        0 <= i < j < steps_of(host, pattern, found, exclude).len(),
    ensures
        ({
            let steps = steps_of(host, pattern, found, exclude);
            match (steps[i], steps[j]) {
                (Step::Take(a), Step::Take(b)) => {
                    ||| precedes(path_key(host, a.dir@), path_key(host, b.dir@))
                    ||| path_key(host, a.dir@) == path_key(host, b.dir@)
                },
                _ => false,
            }
        }),
{
    let keys = dir_keys(host, found);
    let order = sorted_positions(keys, found.len());
    sorted_positions_are_sorted(keys, found.len());
    let p = glob_step_source(found, order, exclude, found.len(), i);
    let q = glob_step_source(found, order, exclude, found.len(), j);
    if q <= p {
        glob_steps_grow(found, order, exclude, q as nat, p as nat);
    }
    assert(order.contains(order[p]) && order.contains(order[q]));
    assert(stands_before(keys, order[p], order[q]));
}

/// A pattern that ends in a slash and a star stands for what is below the path before
/// them; any other names one member.
pub proof fn patterns_have_their_base(base: Seq<char>)
    ensures
        glob_base(base + seq!['/', '*']) == Some(base),
        base.len() > 0 && base.last() != '*' ==> glob_base(base) is None,
{
    reveal_strlit("/*");
    assert("/*"@ =~= seq!['/', '*']);
    let p = base + seq!['/', '*'];
    assert(p.subrange(p.len() - 2, p.len() as int) =~= "/*"@);
    assert(p.take(p.len() - 2) =~= base);
    if base.len() > 1 && "/*"@.is_suffix_of(base) {
        assert(base.subrange(base.len() - 2, base.len() as int)[1] == base.last());
    }
}

/// An excluded directory is not taken, with whatever separators the host writes it; nor
/// is one without a manifest. Every other is.
pub proof fn excluded_are_not_taken(c: Candidate, exclude: Seq<Seq<char>>)
    ensures
        glob_takes(c, exclude) ==> c.has_manifest,
        exclude.contains(replaced(c.relative@, '\\', seq!['/'])) ==> !glob_takes(c, exclude),
        c.has_manifest && !exclude.contains(replaced(c.relative@, '\\', seq!['/']))
            ==> glob_takes(c, exclude),
{
    reveal_strlit("/");
    assert("/"@ =~= seq!['/']);
}

/// The message of an error tells what it is about.
#[verifier::rlimit(40)]
pub proof fn message_tells_all(e: WorkspaceError)
    ensures
        match e {
            WorkspaceError::NotFound(dir) => contains_text(e.text(), dir@),
            WorkspaceError::MemberMissingManifest(m) => contains_text(e.text(), m@),
            WorkspaceError::DuplicateMember(m) => contains_text(e.text(), m@),
        },
{
    match e {
        WorkspaceError::NotFound(dir) => {
            tells("Rusk.workspace.toml not found in "@, dir@);
            tells_more("Rusk.workspace.toml not found in "@ + dir@, " (or any parent directory)"@, dir@);
        },
        WorkspaceError::MemberMissingManifest(m) => {
            tells("member \""@, m@);
            tells_more("member \""@ + m@, "\" listed in Rusk.workspace.toml has no Rusk.toml at that path"@, m@);
        },
        WorkspaceError::DuplicateMember(m) => {
            tells("member path \""@, m@);
            tells_more("member path \""@ + m@, "\" appears more than once (after glob expansion)"@, m@);
        },
    }
}

} // verus!
