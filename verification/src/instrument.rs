//! Instrumentation pipeline: walks the decoded build-event stream and,
//! for every compiled artifact with an executable, computes the follow-up
//! rewriting action — the instrumented-output path next to the original
//! artifact, the profile subdirectory named after the artifact's base
//! name, and the full argument list for the external binary-rewriting
//! tool. The caller performs the filesystem work and runs the tool, one
//! action at a time, in event order, aborting at the first failure.

use vstd::prelude::*;

use crate::events::BuildEvent;

verus! {

/// Additional arguments that will be passed to `cargo build` by a BOLT
/// instrumentation run.
pub struct BoltInstrumentArgs {
    /// User-supplied build arguments, handed to the argument filter.
    pub cargo_args: Vec<String>,
}

/// Length of the directory part of `path`, up to and including the last
/// `/`; `0` when the path has no `/`.
pub open spec fn spec_dir_len(path: Seq<char>) -> nat
    decreases path.len(),
{
    if path.len() == 0 {
        0
    } else if path.last() == '/' {
        path.len()
    } else {
        spec_dir_len(path.drop_last())
    }
}

/// The file-name part of `path`: everything after its last `/`.
pub open spec fn spec_file_name(path: Seq<char>) -> Seq<char> {
    path.skip(spec_dir_len(path) as int)
}

/// Length of the stem of a file name: everything before the last `.`,
/// unless that `.` is the first character or there is none, in which case
/// the whole name.
pub open spec fn spec_stem_len(name: Seq<char>) -> nat
    decreases name.len(),
{
    if name.len() <= 1 {
        name.len()
    } else if name.last() == '.' {
        (name.len() - 1) as nat
    } else {
        let s = spec_stem_len(name.drop_last());
        if s < name.len() - 1 {
            s
        } else {
            name.len()
        }
    }
}

/// The artifact's base name: its file name without the extension.
pub open spec fn spec_basename(path: Seq<char>) -> Seq<char> {
    let name = spec_file_name(path);
    name.take(spec_stem_len(name) as int)
}

proof fn lemma_dir_len_bound(path: Seq<char>)
    ensures
        spec_dir_len(path) <= path.len(),
    decreases path.len(),
{
    if path.len() != 0 && path.last() != '/' {
        lemma_dir_len_bound(path.drop_last());
    }
}

/// `spec_dir_len` is pinned by where the last `/` stands.
proof fn lemma_dir_len_at(path: Seq<char>, m: int)
    requires
        0 <= m <= path.len(),
        forall|k: int| m <= k < path.len() ==> path[k] != '/',
        m > 0 ==> path[m - 1] == '/',
    ensures
        spec_dir_len(path) == m,
    decreases path.len(),
{
    if path.len() == 0 {
    } else if path.last() == '/' {
        assert(m == path.len());
    } else {
        assert(m < path.len());
        let d = path.drop_last();
        assert(forall|k: int| m <= k < d.len() ==> d[k] == path[k] && path[k] != '/');
        if m > 0 {
            assert(d[m - 1] == path[m - 1]);
        }
        lemma_dir_len_at(d, m);
    }
}

/// A name with no `.` past its first character keeps its full length as
/// its stem.
proof fn lemma_stem_len_no_dot(name: Seq<char>)
    requires
        forall|k: int| 1 <= k < name.len() ==> name[k] != '.',
    ensures
        spec_stem_len(name) == name.len(),
    decreases name.len(),
{
    if name.len() > 1 {
        assert(name.last() != '.');
        let d = name.drop_last();
        assert(forall|k: int| 1 <= k < d.len() ==> d[k] == name[k] && name[k] != '.');
        lemma_stem_len_no_dot(d);
    }
}

/// `spec_stem_len` is pinned by where the last `.` stands, when that `.`
/// is not the first character.
proof fn lemma_stem_len_dot_at(name: Seq<char>, m: int)
    requires
        1 <= m < name.len(),
        name[m] == '.',
        forall|k: int| m < k < name.len() ==> name[k] != '.',
    ensures
        spec_stem_len(name) == m,
    decreases name.len(),
{
    if m == name.len() - 1 {
        assert(name.last() == '.');
    } else {
        assert(name.last() != '.');
        let d = name.drop_last();
        assert(forall|k: int| 0 <= k < d.len() ==> d[k] == name[k]);
        lemma_stem_len_dot_at(d, m);
    }
}

/// Length (in characters) of the directory part of `path`, up to and
/// including its last `/`.
fn find_dir_len(path: &str) -> (d: usize)
    ensures
        d == spec_dir_len(path@),
        d <= path@.len(),
{
    let n = path.unicode_len();
    let mut i: usize = n;
    while i > 0 && path.get_char(i - 1) != '/'
        invariant
            0 <= i <= n,
            n == path@.len(),
            forall|k: int| i <= k < n ==> path@[k] != '/',
        decreases i,
    {
        i = i - 1;
    }
    proof {
        lemma_dir_len_at(path@, i as int);
    }
    i
}

/// Length (in characters) of the stem of a file name.
fn find_stem_len(name: &str) -> (m: usize)
    ensures
        m == spec_stem_len(name@),
        m <= name@.len(),
{
    let n = name.unicode_len();
    let mut i: usize = n;
    while i > 1 && name.get_char(i - 1) != '.'
        invariant
            0 <= i <= n,
            n == name@.len(),
            forall|k: int| i <= k < n ==> name@[k] != '.',
        decreases i,
    {
        i = i - 1;
    }
    if i <= 1 {
        proof {
            lemma_stem_len_no_dot(name@);
        }
        n
    } else {
        proof {
            lemma_stem_len_dot_at(name@, i - 1);
        }
        i - 1
    }
}

/// Whether `path` carries a nonempty file name: only such a path names an
/// executable an artifact can be instrumented from.
pub fn has_file_name(path: &str) -> (b: bool)
    ensures
        b == (spec_file_name(path@).len() > 0),
{
    proof {
        lemma_dir_len_bound(path@);
    }
    let n = path.unicode_len();
    if n == 0 {
        false
    } else if path.get_char(n - 1) == '/' {
        proof {
            assert(spec_dir_len(path@) == path@.len());
        }
        false
    } else {
        proof {
            lemma_dir_len_bound(path@.drop_last());
            assert(spec_dir_len(path@) == spec_dir_len(path@.drop_last()));
        }
        true
    }
}

/// Computes the artifact's base name: its file name without extension.
pub fn artifact_basename(path: &str) -> (r: String)
    requires
        spec_file_name(path@).len() > 0,
    ensures
        r@ == spec_basename(path@),
{
    let n = path.unicode_len();
    let d = find_dir_len(path);
    let name = path.substring_char(d, n);
    proof {
        assert(name@ =~= spec_file_name(path@));
    }
    let m = find_stem_len(name);
    let stem = name.substring_char(0, m);
    proof {
        assert(stem@ =~= spec_basename(path@));
    }
    stem.to_owned()
}

/// The instrumented copy's path: a sibling of the original artifact,
/// named `<basename>-bolt-instrumented`.
pub open spec fn spec_instrumented_path(path: Seq<char>) -> Seq<char> {
    path.take(spec_dir_len(path) as int) + spec_basename(path) + "-bolt-instrumented"@
}

/// The profile subdirectory for an artifact: a directory named after the
/// artifact's base name inside the profile directory.
pub open spec fn spec_profile_subdir(profile_dir: Seq<char>, path: Seq<char>) -> Seq<char> {
    profile_dir + "/"@ + spec_basename(path)
}

/// The profile-file path prefix the rewriting tool writes under:
/// `<profile-dir>/<basename>/profile`.
pub open spec fn spec_profile_path(profile_dir: Seq<char>, path: Seq<char>) -> Seq<char> {
    spec_profile_subdir(profile_dir, path) + "/profile"@
}

/// The external rewriting tool's full argument list for one artifact:
/// instrument mode, the input path, the option appending the process id to
/// each written profile file (so concurrent workload runs don't clobber
/// each other), the profile-file path prefix, debug-section preservation,
/// and the output path.
pub open spec fn spec_bolt_args(path: Seq<char>, profile_dir: Seq<char>) -> Seq<Seq<char>> {
    seq![
        "-instrument"@,
        path,
        "--instrumentation-file-append-pid"@,
        "--instrumentation-file"@,
        spec_profile_path(profile_dir, path),
        "-update-debug-sections"@,
        "-o"@,
        spec_instrumented_path(path),
    ]
}

/// One planned rewriting action, derived from a compiled-artifact event
/// with an executable: every path the action touches, precomputed.
pub struct InstrumentedArtifact {
    /// Name of the target the artifact belongs to.
    pub target_name: String,
    /// Path of the original executable.
    pub original_path: String,
    /// The artifact's base name (file name without extension).
    pub basename: String,
    /// Where the instrumented copy is written.
    pub instrumented_path: String,
    /// The profile subdirectory that must exist before the tool runs.
    pub profile_subdir: String,
    /// The profile-file path prefix handed to the tool.
    pub profile_path: String,
    /// The rewriting tool's complete argument list.
    pub bolt_args: Vec<String>,
}

/// Whether `a` is exactly the action planned for executable `path` of
/// target `name` under `profile_dir`.
pub open spec fn artifact_planned(
    a: InstrumentedArtifact,
    name: Seq<char>,
    path: Seq<char>,
    profile_dir: Seq<char>,
) -> bool {
    &&& a.target_name@ == name
    &&& a.original_path@ == path
    &&& a.basename@ == spec_basename(path)
    &&& a.instrumented_path@ == spec_instrumented_path(path)
    &&& a.profile_subdir@ == spec_profile_subdir(profile_dir, path)
    &&& a.profile_path@ == spec_profile_path(profile_dir, path)
    &&& a.bolt_args.deep_view() == spec_bolt_args(path, profile_dir)
}

/// Plans the rewriting action for one compiled executable: computes the
/// instrumented-output path, the profile subdirectory and path prefix,
/// and the rewriting tool's argument list.
pub fn plan_instrument_binary(target_name: &String, path: &String, profile_dir: &String) -> (r:
    InstrumentedArtifact)
    requires
        spec_file_name(path@).len() > 0,
    ensures
        artifact_planned(r, target_name@, path@, profile_dir@),
{
    let basename = artifact_basename(path.as_str());
    let n = path.as_str().unicode_len();
    let d = find_dir_len(path.as_str());
    let mut instrumented = path.as_str().substring_char(0, d).to_owned();
    proof {
        assert(instrumented@ =~= path@.take(spec_dir_len(path@) as int));
    }
    instrumented.append(basename.as_str());
    instrumented.append("-bolt-instrumented");
    let mut subdir = profile_dir.clone();
    subdir.append("/");
    subdir.append(basename.as_str());
    let mut profile_path = subdir.clone();
    profile_path.append("/profile");
    let mut bolt_args: Vec<String> = Vec::new();
    bolt_args.push(String::from_str("-instrument"));
    bolt_args.push(path.clone());
    bolt_args.push(String::from_str("--instrumentation-file-append-pid"));
    bolt_args.push(String::from_str("--instrumentation-file"));
    bolt_args.push(profile_path.clone());
    bolt_args.push(String::from_str("-update-debug-sections"));
    bolt_args.push(String::from_str("-o"));
    bolt_args.push(instrumented.clone());
    proof {
        assert(bolt_args.deep_view() =~= spec_bolt_args(path@, profile_dir@));
    }
    InstrumentedArtifact {
        target_name: target_name.clone(),
        original_path: path.clone(),
        basename,
        instrumented_path: instrumented,
        profile_subdir: subdir,
        profile_path,
        bolt_args,
    }
}

/// The artifacts of an event stream that qualify for instrumentation, in
/// emission order: each compiled-artifact event naming an executable, as
/// its (target name, executable path) pair.
pub open spec fn spec_instrument_targets(events: Seq<BuildEvent>) -> Seq<(Seq<char>, Seq<char>)>
    decreases events.len(),
{
    if events.len() == 0 {
        Seq::empty()
    } else {
        let rest = spec_instrument_targets(events.drop_first());
        match events[0] {
            BuildEvent::CompiledArtifact { target_name, kinds, executable } => match executable {
                Some(p) => seq![(target_name@, p@)] + rest,
                None => rest,
            },
            _ => rest,
        }
    }
}

/// The overall build outcome an event stream reports: the success flag of
/// its first build-finished record (the build tool emits at most one, as
/// the last record relevant to the run), or nothing when the stream holds
/// none.
pub open spec fn spec_build_success(events: Seq<BuildEvent>) -> Option<bool>
    decreases events.len(),
{
    if events.len() == 0 {
        None
    } else {
        match events[0] {
            BuildEvent::BuildFinished { success } => Some(success),
            _ => spec_build_success(events.drop_first()),
        }
    }
}

/// Whether an event's executable path, if it has one, carries a file
/// name an action can be planned from.
pub open spec fn event_path_ok(e: BuildEvent) -> bool {
    match e {
        BuildEvent::CompiledArtifact { target_name, kinds, executable } => match executable {
            Some(p) => spec_file_name(p@).len() > 0,
            None => true,
        },
        _ => true,
    }
}

/// Checks that every executable named by the stream carries a file name,
/// so that the whole pipeline can be planned.
pub fn events_paths_ok(events: &Vec<BuildEvent>) -> (b: bool)
    ensures
        b == (forall|i: int| 0 <= i < events@.len() ==> #[trigger] event_path_ok(events@[i])),
{
    let mut i: usize = 0;
    while i < events.len()
        invariant
            i <= events@.len(),
            forall|k: int| 0 <= k < i ==> #[trigger] event_path_ok(events@[k]),
        decreases events@.len() - i,
    {
        let ok = match &events[i] {
            BuildEvent::CompiledArtifact { target_name, kinds, executable } => match executable {
                Some(p) => has_file_name(p.as_str()),
                None => true,
            },
            _ => true,
        };
        if !ok {
            assert(!event_path_ok(events@[i as int]));
            return false;
        }
        i = i + 1;
    }
    true
}

/// The whole planned pipeline run over one decoded event stream: the
/// rewriting actions in event order, and the overall build outcome.
pub struct InstrumentationPlan {
    /// One action per qualifying artifact, in emission order.
    pub artifacts: Vec<InstrumentedArtifact>,
    /// The reported build outcome, if the stream held one.
    pub build_success: Option<bool>,
}

/// The (target name, executable path) pairs of a vector of planned
/// actions.
pub open spec fn spec_planned_pairs(artifacts: Seq<InstrumentedArtifact>) -> Seq<
    (Seq<char>, Seq<char>),
> {
    Seq::new(artifacts.len(), |j: int| (artifacts[j].target_name@, artifacts[j].original_path@))
}

/// Walks the decoded event stream and plans the whole pipeline run: one
/// rewriting action per compiled-artifact event naming an executable, in
/// emission order, plus the overall build outcome of the stream's final
/// record. Performing the actions — and aborting at the first tool
/// failure — is the caller's part.
pub fn plan_instrumentation(events: &Vec<BuildEvent>, profile_dir: &String) -> (r:
    InstrumentationPlan)
    requires
        forall|i: int| 0 <= i < events@.len() ==> #[trigger] event_path_ok(events@[i]),
    ensures
        spec_planned_pairs(r.artifacts@) == spec_instrument_targets(events@),
        forall|j: int|
            0 <= j < r.artifacts@.len() ==> #[trigger] artifact_planned(
                r.artifacts@[j],
                r.artifacts@[j].target_name@,
                r.artifacts@[j].original_path@,
                profile_dir@,
            ),
        r.build_success == spec_build_success(events@),
{
    let ghost all = events@;
    let mut artifacts: Vec<InstrumentedArtifact> = Vec::new();
    let mut build_success: Option<bool> = None;
    let mut i: usize = 0;
    proof {
        assert(all.skip(0) =~= all);
        assert(spec_planned_pairs(artifacts@) =~= Seq::<(Seq<char>, Seq<char>)>::empty());
    }
    while i < events.len()
        invariant
            i <= all.len(),
            all == events@,
            all.len() == events@.len(),
            spec_instrument_targets(all) == spec_planned_pairs(artifacts@)
                + spec_instrument_targets(all.skip(i as int)),
            spec_build_success(all) == (match build_success {
                Some(b) => Some(b),
                None => spec_build_success(all.skip(i as int)),
            }),
            forall|j: int|
                0 <= j < artifacts@.len() ==> #[trigger] artifact_planned(
                    artifacts@[j],
                    artifacts@[j].target_name@,
                    artifacts@[j].original_path@,
                    profile_dir@,
                ),
            forall|k: int| 0 <= k < all.len() ==> #[trigger] event_path_ok(all[k]),
        decreases all.len() - i,
    {
        let ghost suffix = all.skip(i as int);
        let ghost old_artifacts = artifacts@;
        proof {
            assert(suffix[0] == all[i as int]);
            assert(suffix.drop_first() =~= all.skip(i + 1));
            assert(event_path_ok(all[i as int]));
        }
        match &events[i] {
            BuildEvent::CompiledArtifact { target_name, kinds, executable } => {
                match executable {
                    Some(p) => {
                        let planned = plan_instrument_binary(target_name, p, profile_dir);
                        artifacts.push(planned);
                        proof {
                            assert(spec_planned_pairs(artifacts@) =~= spec_planned_pairs(
                                old_artifacts,
                            ).push((target_name@, p@)));
                            assert(spec_planned_pairs(old_artifacts).push((target_name@, p@))
                                + spec_instrument_targets(suffix.drop_first())
                                =~= spec_planned_pairs(old_artifacts) + spec_instrument_targets(
                                suffix,
                            ));
                        }
                    },
                    None => {},
                }
            },
            BuildEvent::BuildFinished { success } => {
                if build_success.is_none() {
                    build_success = Some(*success);
                }
            },
            _ => {},
        }
        i = i + 1;
    }
    proof {
        assert(all.skip(all.len() as int) =~= Seq::<BuildEvent>::empty());
        assert(spec_planned_pairs(artifacts@) + spec_instrument_targets(all.skip(all.len() as int))
            =~= spec_planned_pairs(artifacts@));
    }
    InstrumentationPlan { artifacts, build_success }
}

/// The model of the on-disk profile directory: its path, and the
/// subdirectories (one per instrumented base name) known to exist. The
/// caller mirrors this state on disk: `prepare` clears and recreates the
/// directory, `ensure_subdir` creates a subdirectory.
pub struct ProfileDirectory {
    /// The directory's path.
    pub path: String,
    /// Base names whose subdirectories exist, each recorded once.
    pub subdirs: Vec<String>,
}

impl ProfileDirectory {
    /// Each subdirectory is recorded exactly once.
    pub open spec fn wf(self) -> bool {
        forall|i: int, j: int|
            0 <= i < j < self.subdirs@.len() ==> self.subdirs@[i]@ != self.subdirs@[j]@
    }

    /// Whether a subdirectory of this base name exists.
    pub open spec fn has_subdir(self, name: Seq<char>) -> bool {
        exists|i: int| 0 <= i < self.subdirs@.len() && #[trigger] self.subdirs@[i]@ == name
    }

    /// A freshly prepared profile directory: whatever stood at `path`
    /// before — including the state left by an earlier `prepare` and
    /// anything written since — the prepared directory is empty, so no
    /// profile data of a previous run can be misattributed to the new
    /// one. Preparing twice in a row leaves it empty both times.
    pub fn prepare(path: String) -> (r: Self)
        ensures
            r.path == path,
            r.subdirs@.len() == 0,
            r.wf(),
            forall|n: Seq<char>| !r.has_subdir(n),
    {
        ProfileDirectory { path, subdirs: Vec::new() }
    }

    /// Ensures a subdirectory for `name` exists: records it when absent,
    /// changes nothing when present (distinct artifacts sharing one base
    /// name share one subdirectory, by design). Returns whether the
    /// subdirectory is new.
    pub fn ensure_subdir(&mut self, name: &String) -> (created: bool)
        requires
            old(self).wf(),
        ensures
            final(self).wf(),
            final(self).path == old(self).path,
            final(self).has_subdir(name@),
            created == !old(self).has_subdir(name@),
            !created ==> *final(self) == *old(self),
            created ==> final(self).subdirs@ == old(self).subdirs@.push(*name),
            forall|n: Seq<char>|
                #[trigger] final(self).has_subdir(n) == (old(self).has_subdir(n) || n == name@),
    {
        let mut i: usize = 0;
        while i < self.subdirs.len()
            invariant
                i <= self.subdirs@.len(),
                *self == *old(self),
                old(self).wf(),
                forall|k: int| 0 <= k < i ==> self.subdirs@[k]@ != name@,
            decreases self.subdirs@.len() - i,
        {
            if self.subdirs[i] == *name {
                return false;
            }
            i = i + 1;
        }
        assert(!self.has_subdir(name@));
        self.subdirs.push(name.clone());
        let ghost prev = old(self).subdirs@;
        assert forall|n: Seq<char>|
            #[trigger] self.has_subdir(n) == (old(self).has_subdir(n) || n == name@) by {
            if self.has_subdir(n) {
                let k = choose|k: int|
                    0 <= k < self.subdirs@.len() && #[trigger] self.subdirs@[k]@ == n;
                if k < prev.len() {
                    assert(prev[k]@ == n);
                    assert(old(self).has_subdir(n));
                } else {
                    assert(n == name@);
                }
            }
            if old(self).has_subdir(n) {
                let k = choose|k: int| 0 <= k < prev.len() && #[trigger] prev[k]@ == n;
                assert(self.subdirs@[k]@ == n);
                assert(self.has_subdir(n));
            }
            if n == name@ {
                assert(self.subdirs@[prev.len() as int]@ == n);
                assert(self.has_subdir(n));
            }
        }
        true
    }
}

} // verus!
