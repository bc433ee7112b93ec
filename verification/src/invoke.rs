//! Build invoker: constructs the wrapped build invocation (injected
//! release mode, structured output format and target triple, filtered user
//! arguments, merged extra compiler flags) and judges its captured output.
//!
//! The caller executes the prepared command as a child process and hands
//! back what it captured; everything that can be computed rather than
//! performed is computed here.

use vstd::prelude::*;

use crate::args::CargoArgs;
use crate::args::kept_args;
use crate::args::spec_message_format_flag;
use crate::args::spec_release_flag;
use crate::args::spec_target_flag;
use crate::events::contains_subseq;
use crate::events::decoded_events;
use crate::events::lemma_transcript_contains_rendered;
use crate::events::spec_render;
use crate::events::spec_transcript;

verus! {

/// The build tool subcommand a wrapped invocation runs.
#[derive(Clone, Copy, Debug, PartialEq, Eq, Structural)]
pub enum CargoCommand {
    Build,
    Test,
    Bench,
}

impl CargoCommand {
    /// The subcommand's name on the build tool's command line.
    pub open spec fn spec_str(self) -> Seq<char> {
        match self {
            CargoCommand::Build => "build"@,
            CargoCommand::Test => "test"@,
            CargoCommand::Bench => "bench"@,
        }
    }

    /// Returns the subcommand's name on the build tool's command line.
    pub fn to_str(&self) -> (r: &'static str)
        ensures
            r@ == self.spec_str(),
    {
        match self {
            CargoCommand::Build => "build",
            CargoCommand::Test => "test",
            CargoCommand::Bench => "bench",
        }
    }
}

/// The fixed structured output format the workflow demands: JSON records
/// with diagnostics pre-rendered for terminals.
pub open spec fn spec_message_format_value() -> Seq<char> {
    "json-diagnostic-rendered-ansi"@
}

/// The full argument list of a wrapped invocation: the subcommand, the
/// injected release and message-format flags, the injected target pair
/// when one is supplied, then the filtered user arguments.
pub open spec fn spec_invocation_args(
    cmd: CargoCommand,
    kept: Seq<Seq<char>>,
    target: Option<Seq<char>>,
) -> Seq<Seq<char>> {
    let base = seq![
        cmd.spec_str(),
        spec_release_flag(),
        spec_message_format_flag(),
        spec_message_format_value(),
    ];
    (match target {
        Some(t) => base + seq![spec_target_flag(), t],
        None => base,
    }) + kept
}

/// A fully prepared wrapped build invocation: the subcommand, its complete
/// argument list, and the environment overrides to launch it with (keys
/// unique). The caller executes it and captures its output.
pub struct BuildCommand {
    /// The subcommand to run.
    pub command: CargoCommand,
    /// The complete argument list, injected flags included.
    pub args: Vec<String>,
    /// Environment overrides for the child process, keys unique.
    pub env: Vec<(String, String)>,
}

/// The extra-flags environment value for the child process: the inherited
/// value (empty when the variable is unset) with the workflow's own flags
/// appended after a separating space.
pub open spec fn spec_merged_rustflags(existing: Option<Seq<char>>, flags: Seq<char>) -> Seq<char> {
    (match existing {
        Some(e) => e,
        None => Seq::empty(),
    }) + " "@ + flags
}

/// Appends the workflow's extra compiler flags to the inherited value of
/// the extra-flags environment variable (empty when unset), separated by a
/// space. The inherited value is preserved, never replaced.
pub fn merge_rustflags(existing: Option<&String>, flags: &str) -> (r: String)
    ensures
        r@ == spec_merged_rustflags(
            match existing {
                Some(e) => Some(e@),
                None => None,
            },
            flags@,
        ),
{
    let mut out = match existing {
        Some(e) => e.clone(),
        None => String::new(),
    };
    out.append(" ");
    out.append(flags);
    out
}

/// Prepares the wrapped build invocation from already-filtered user
/// arguments: injects release mode and the fixed structured output format,
/// injects the default target triple when the user supplied none (so that
/// build scripts, compiled for the host tool triple, stay outside the
/// instrumented flag set), and carries the merged extra compiler flags as
/// the single environment override.
pub fn prepare_build_command(
    command: CargoCommand,
    filtered: &CargoArgs,
    existing_rustflags: Option<&String>,
    flags: &str,
    default_target: Option<&String>,
) -> (r: BuildCommand)
    requires
        filtered.contains_target || default_target is Some,
    ensures
        r.command == command,
        r.args.deep_view() == spec_invocation_args(
            command,
            filtered.filtered.deep_view(),
            if filtered.contains_target {
                None
            } else {
                Some(default_target->0@)
            },
        ),
        r.env@.len() == 1,
        r.env@[0].0@ == "RUSTFLAGS"@,
        r.env@[0].1@ == spec_merged_rustflags(
            match existing_rustflags {
                Some(e) => Some(e@),
                None => None,
            },
            flags@,
        ),
{
    let mut args: Vec<String> = Vec::new();
    args.push(String::from_str(command.to_str()));
    args.push(String::from_str("--release"));
    args.push(String::from_str("--message-format"));
    args.push(String::from_str("json-diagnostic-rendered-ansi"));
    if !filtered.contains_target {
        match default_target {
            Some(t) => {
                args.push(String::from_str("--target"));
                args.push(t.clone());
            },
            None => {
                proof {
                    assert(false);
                }
            },
        }
    }
    let ghost target = if filtered.contains_target {
        None
    } else {
        Some(default_target->0@)
    };
    let ghost base = spec_invocation_args(command, Seq::empty(), target);
    proof {
        assert(args.deep_view() =~= base);
    }
    let mut i: usize = 0;
    while i < filtered.filtered.len()
        invariant
            i <= filtered.filtered.len(),
            args.deep_view() =~= base + filtered.filtered.deep_view().take(i as int),
        decreases filtered.filtered.len() - i,
    {
        let ghost old_args = args.deep_view();
        args.push(filtered.filtered[i].clone());
        proof {
            assert(args.deep_view() =~= old_args.push(filtered.filtered.deep_view()[i as int]));
            assert(old_args.push(filtered.filtered.deep_view()[i as int]) =~= base
                + filtered.filtered.deep_view().take(i + 1));
        }
        i = i + 1;
    }
    proof {
        assert(filtered.filtered.deep_view().take(filtered.filtered.len() as int)
            =~= filtered.filtered.deep_view());
        assert(base + filtered.filtered.deep_view() =~= spec_invocation_args(
            command,
            filtered.filtered.deep_view(),
            target,
        ));
    }
    let rustflags = merge_rustflags(existing_rustflags, flags);
    let mut env: Vec<(String, String)> = Vec::new();
    env.push((String::from_str("RUSTFLAGS"), rustflags));
    BuildCommand { command, args, env }
}

/// The injected flags stand exactly where the invocation builder puts
/// them, and the filtered user arguments that follow them never reintroduce
/// the release or message-format flag: a prepared invocation carries each
/// of those exactly once.
pub proof fn lemma_invocation_well_formed(
    cmd: CargoCommand,
    user: Seq<Seq<char>>,
    target: Option<Seq<char>>,
)
    ensures
        ({
            let inv = spec_invocation_args(cmd, kept_args(user), target);
            let head = if target is Some {
                6int
            } else {
                4int
            };
            &&& inv.len() == head + kept_args(user).len()
            &&& inv[0] == cmd.spec_str()
            &&& inv[1] == spec_release_flag()
            &&& inv[2] == spec_message_format_flag()
            &&& inv[3] == spec_message_format_value()
            &&& (target matches Some(t) ==> inv[4] == spec_target_flag() && inv[5] == t)
            &&& forall|i: int|
                head <= i < inv.len() ==> inv[i] != spec_release_flag() && inv[i]
                    != spec_message_format_flag()
        }),
{
    crate::args::lemma_forbidden_flags_never_kept(user);
    let inv = spec_invocation_args(cmd, kept_args(user), target);
    let head = if target is Some {
        6int
    } else {
        4int
    };
    assert(forall|i: int|
        head <= i < inv.len() ==> inv[i] == kept_args(user)[i - head]);
}

/// A wrapped build that exited with a failure, reported with everything
/// the user needs: the child's exit status, its raw standard error, and a
/// rendered replay of the diagnostics captured on its standard output.
#[derive(Debug)]
pub struct BuildError {
    /// Display form of the child process's exit status.
    pub status: String,
    /// The raw captured standard error.
    pub stderr: String,
    /// The rendered transcript reconstructed from the captured standard
    /// output, or a fixed note when that stream could not be decoded.
    pub transcript: String,
}

impl BuildError {
    /// The full human-readable report of the failed build.
    pub fn message(&self) -> (r: String)
        ensures
            r@ == "Cargo error ("@ + self.status@ + ")\n"@ + self.stderr@ + "\n"@
                + self.transcript@,
    {
        let mut out = String::from_str("Cargo error (");
        out.append(self.status.as_str());
        out.append(")\n");
        out.append(self.stderr.as_str());
        out.append("\n");
        out.append(self.transcript.as_str());
        out
    }
}

/// What the transcript of a failed build reports: the rendered replay of
/// the captured output's events, or a fixed note when decoding fails.
pub open spec fn spec_failure_transcript(stdout: Seq<u8>) -> Seq<char> {
    match decoded_events(stdout) {
        Some(events) => spec_transcript(events),
        None => "Could not parse Cargo stdout"@,
    }
}

/// On the failed-build path, the reconstructed transcript contains,
/// verbatim, the text of every diagnostic (and every text line) among the
/// records of the captured standard output.
pub proof fn lemma_build_error_transcript_contains(stdout: Seq<u8>, i: int)
    requires
        decoded_events(stdout) is Some,
        0 <= i < decoded_events(stdout)->0.len(),
        spec_render(decoded_events(stdout)->0[i]) is Some,
    ensures
        contains_subseq(
            spec_failure_transcript(stdout),
            spec_render(decoded_events(stdout)->0[i])->0,
        ),
{
    lemma_transcript_contains_rendered(decoded_events(stdout)->0, i);
}

/// Judges the captured output of a finished wrapped build: on success the
/// captured standard output is handed on for decoding; on failure a
/// `BuildError` embeds the exit status, the raw standard error, and a
/// best-effort rendered replay of the structured standard output, so the
/// user sees the compiler's own error text even though the stream was
/// captured rather than streamed live.
pub fn process_build_output(success: bool, status: String, stdout: Vec<u8>, stderr: String) -> (r:
    Result<Vec<u8>, BuildError>)
    ensures
        match r {
            Ok(out) => success && out@ == stdout@,
            Err(e) => {
                &&& !success
                &&& e.status@ == status@
                &&& e.stderr@ == stderr@
                &&& e.transcript@ == spec_failure_transcript(stdout@)
            },
        },
{
    if success {
        Ok(stdout)
    } else {
        let transcript = match crate::events::decode_build_events(&stdout) {
            Ok(events) => crate::events::render_transcript(&events),
            Err(e) => String::from_str(e.message()),
        };
        Err(BuildError { status, stderr, transcript })
    }
}

} // verus!
