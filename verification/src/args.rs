//! Argument filter: sanitizes user-supplied build arguments before they
//! are handed to the wrapped build tool.
//!
//! The surrounding workflow always injects the release flag and a fixed
//! structured message format itself, so user copies of those flags are
//! dropped (with a warning); an explicit target flag is kept and recorded,
//! so that the caller can skip automatic target injection.

use vstd::prelude::*;

verus! {

/// The release-mode flag that the workflow injects itself.
pub open spec fn spec_release_flag() -> Seq<char> {
    "--release"@
}

/// The output-format flag whose value the workflow must control.
pub open spec fn spec_message_format_flag() -> Seq<char> {
    "--message-format"@
}

/// The target-selection flag that a user may pass explicitly.
pub open spec fn spec_target_flag() -> Seq<char> {
    "--target"@
}

/// The arguments that survive filtering, in order: release flags are
/// dropped, a message-format flag is dropped together with the value
/// that follows it, everything else passes through unchanged.
pub open spec fn kept_args(args: Seq<Seq<char>>) -> Seq<Seq<char>>
    decreases args.len(),
{
    if args.len() == 0 {
        Seq::empty()
    } else if args[0] == spec_release_flag() {
        kept_args(args.drop_first())
    } else if args[0] == spec_message_format_flag() {
        if args.len() == 1 {
            Seq::empty()
        } else {
            kept_args(args.skip(2))
        }
    } else {
        seq![args[0]] + kept_args(args.drop_first())
    }
}

/// Whether the argument list carries an explicit target flag (one that is
/// not consumed as the value of a message-format flag).
pub open spec fn target_specified(args: Seq<Seq<char>>) -> bool
    decreases args.len(),
{
    if args.len() == 0 {
        false
    } else if args[0] == spec_release_flag() {
        target_specified(args.drop_first())
    } else if args[0] == spec_message_format_flag() {
        if args.len() == 1 {
            false
        } else {
            target_specified(args.skip(2))
        }
    } else if args[0] == spec_target_flag() {
        true
    } else {
        target_specified(args.drop_first())
    }
}

/// How many warnings filtering the list produces: one per dropped flag.
pub open spec fn warning_count(args: Seq<Seq<char>>) -> nat
    decreases args.len(),
{
    if args.len() == 0 {
        0
    } else if args[0] == spec_release_flag() {
        1 + warning_count(args.drop_first())
    } else if args[0] == spec_message_format_flag() {
        if args.len() == 1 {
            1
        } else {
            1 + warning_count(args.skip(2))
        }
    } else {
        warning_count(args.drop_first())
    }
}

/// Result of filtering user-supplied build arguments.
pub struct CargoArgs {
    /// The surviving arguments, order preserved.
    pub filtered: Vec<String>,
    /// Whether the user passed an explicit target flag.
    pub contains_target: bool,
    /// One warning per argument that was dropped.
    pub warnings: Vec<String>,
}

/// Filters user-supplied build arguments in a single left-to-right pass:
/// drops the release flag, drops the message-format flag together with its
/// following value (each with a warning), records an explicit target flag,
/// and keeps everything else unchanged.
pub fn parse_cargo_args(cargo_args: Vec<String>) -> (r: CargoArgs)
    ensures
        r.filtered.deep_view() == kept_args(cargo_args.deep_view()),
        r.contains_target == target_specified(cargo_args.deep_view()),
        r.warnings@.len() == warning_count(cargo_args.deep_view()),
{
    let rel = String::from_str("--release");
    let mf = String::from_str("--message-format");
    let tgt = String::from_str("--target");
    let mut filtered: Vec<String> = Vec::new();
    let mut warnings: Vec<String> = Vec::new();
    let mut contains_target = false;
    let mut i: usize = 0;
    let ghost all = cargo_args.deep_view();
    proof {
        assert(all.skip(0) =~= all);
    }
    while i < cargo_args.len()
        invariant
            i <= cargo_args.len(),
            all == cargo_args.deep_view(),
            all.len() == cargo_args.len(),
            rel@ == spec_release_flag(),
            mf@ == spec_message_format_flag(),
            tgt@ == spec_target_flag(),
            kept_args(all) == filtered.deep_view() + kept_args(all.skip(i as int)),
            target_specified(all) == (contains_target || target_specified(all.skip(i as int))),
            warning_count(all) == warnings@.len() + warning_count(all.skip(i as int)),
        decreases cargo_args.len() - i,
    {
        let ghost suffix = all.skip(i as int);
        let ghost old_filtered = filtered.deep_view();
        let ghost old_warnings = warnings@;
        let arg = &cargo_args[i];
        proof {
            assert(suffix[0] == arg.deep_view());
            assert(suffix.drop_first() =~= all.skip(i + 1));
        }
        if *arg == rel {
            warnings.push(
                String::from_str(
                    "Do not pass `--release` manually, it will be added automatically by `cargo-pgo`",
                ),
            );
            i = i + 1;
        } else if *arg == mf {
            warnings.push(
                String::from_str(
                    "Do not pass `--message-format` manually, it will be added automatically by `cargo-pgo`",
                ),
            );
            // Skip the flag's value as well, if one follows.
            if i + 1 < cargo_args.len() {
                proof {
                    assert(suffix.skip(2) =~= all.skip(i + 2));
                }
                i = i + 2;
            } else {
                proof {
                    assert(suffix.len() == 1);
                    assert(all.skip(i + 1) =~= Seq::<Seq<char>>::empty());
                }
                i = i + 1;
            }
        } else {
            if *arg == tgt {
                contains_target = true;
            }
            filtered.push(arg.clone());
            proof {
                assert(filtered.deep_view() =~= old_filtered.push(arg.deep_view()));
                assert(old_filtered + kept_args(suffix) =~= filtered.deep_view() + kept_args(
                    all.skip(i + 1),
                ));
            }
            i = i + 1;
        }
    }
    proof {
        assert(all.skip(cargo_args.len() as int) =~= Seq::<Seq<char>>::empty());
        assert(filtered.deep_view() + kept_args(all.skip(cargo_args.len() as int))
            =~= filtered.deep_view());
    }
    CargoArgs { filtered, contains_target, warnings }
}

/// The three flags the filter looks for are pairwise distinct tokens.
pub proof fn lemma_flags_distinct()
    ensures
        spec_release_flag() != spec_message_format_flag(),
        spec_release_flag() != spec_target_flag(),
        spec_message_format_flag() != spec_target_flag(),
{
    reveal_strlit("--release");
    reveal_strlit("--message-format");
    reveal_strlit("--target");
    assert(spec_release_flag().len() == 9);
    assert(spec_message_format_flag().len() == 16);
    assert(spec_target_flag().len() == 8);
}

/// The filter never lets the release flag or the message-format flag
/// through, and whenever the input contains one of them, a warning is
/// produced.
pub proof fn lemma_forbidden_flags_never_kept(args: Seq<Seq<char>>)
    ensures
        forall|i: int|
            0 <= i < kept_args(args).len() ==> kept_args(args)[i] != spec_release_flag()
                && kept_args(args)[i] != spec_message_format_flag(),
        args.contains(spec_release_flag()) ==> warning_count(args) >= 1,
        args.contains(spec_message_format_flag()) ==> warning_count(args) >= 1,
    decreases args.len(),
{
    lemma_flags_distinct();
    if args.len() == 0 {
    } else if args[0] == spec_release_flag() {
        lemma_forbidden_flags_never_kept(args.drop_first());
        assert(kept_args(args) == kept_args(args.drop_first()));
    } else if args[0] == spec_message_format_flag() {
        if args.len() == 1 {
            assert(kept_args(args) == Seq::<Seq<char>>::empty());
        } else {
            lemma_forbidden_flags_never_kept(args.skip(2));
            assert(kept_args(args) == kept_args(args.skip(2)));
        }
    } else {
        lemma_forbidden_flags_never_kept(args.drop_first());
        assert(kept_args(args) == seq![args[0]] + kept_args(args.drop_first()));
        assert(forall|i: int|
            1 <= i < kept_args(args).len() ==> kept_args(args)[i]
                == kept_args(args.drop_first())[i - 1]);
        if args.contains(spec_release_flag()) {
            let idx = choose|idx: int|
                0 <= idx < args.len() && args[idx] == spec_release_flag();
            assert(args.drop_first()[idx - 1] == spec_release_flag());
            assert(args.drop_first().contains(spec_release_flag()));
        }
        if args.contains(spec_message_format_flag()) {
            let idx = choose|idx: int|
                0 <= idx < args.len() && args[idx] == spec_message_format_flag();
            assert(args.drop_first()[idx - 1] == spec_message_format_flag());
            assert(args.drop_first().contains(spec_message_format_flag()));
        }
    }
}

/// A message-format flag drops the token after it without inspecting it:
/// filtering continues past both tokens, and replacing the value token by
/// any other value changes nothing (flag-aware skip, not position-blind
/// filtering of matching text).
pub proof fn lemma_message_format_value_skipped(args: Seq<Seq<char>>, v: Seq<char>)
    requires
        args.len() >= 2,
        args[0] == spec_message_format_flag(),
    ensures
        kept_args(args) == kept_args(args.skip(2)),
        kept_args(args.update(1, v)) == kept_args(args),
{
    lemma_flags_distinct();
    let swapped = args.update(1, v);
    assert(swapped[0] == spec_message_format_flag());
    assert(swapped.skip(2) =~= args.skip(2));
}

/// An argument list free of the release and message-format flags passes
/// through the filter verbatim, with no warnings; in particular an explicit
/// target flag and its value are preserved, and the target flag is
/// reported exactly when the list contains it.
pub proof fn lemma_clean_args_pass_through(args: Seq<Seq<char>>)
    requires
        !args.contains(spec_release_flag()),
        !args.contains(spec_message_format_flag()),
    ensures
        kept_args(args) == args,
        target_specified(args) == args.contains(spec_target_flag()),
        warning_count(args) == 0,
    decreases args.len(),
{
    if args.len() == 0 {
        assert(kept_args(args) =~= args);
    } else {
        assert(args[0] != spec_release_flag());
        assert(args[0] != spec_message_format_flag());
        assert(forall|k: int|
            0 <= k < args.drop_first().len() ==> args.drop_first()[k] == args[k + 1]);
        if args.drop_first().contains(spec_release_flag()) {
            let idx = choose|idx: int|
                0 <= idx < args.drop_first().len() && args.drop_first()[idx]
                    == spec_release_flag();
            assert(args[idx + 1] == spec_release_flag());
        }
        if args.drop_first().contains(spec_message_format_flag()) {
            let idx = choose|idx: int|
                0 <= idx < args.drop_first().len() && args.drop_first()[idx]
                    == spec_message_format_flag();
            assert(args[idx + 1] == spec_message_format_flag());
        }
        lemma_clean_args_pass_through(args.drop_first());
        assert(kept_args(args) =~= args);
        if args[0] == spec_target_flag() {
            assert(args.contains(spec_target_flag()));
        } else {
            if args.drop_first().contains(spec_target_flag()) {
                let idx = choose|idx: int|
                    0 <= idx < args.drop_first().len() && args.drop_first()[idx]
                        == spec_target_flag();
                assert(args[idx + 1] == spec_target_flag());
            }
            if args.contains(spec_target_flag()) {
                let idx = choose|idx: int|
                    0 <= idx < args.len() && args[idx] == spec_target_flag();
                assert(args.drop_first()[idx - 1] == spec_target_flag());
            }
        }
    }
}

} // verus!
