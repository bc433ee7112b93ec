//! Drives a two-phase compiler optimization workflow (profile-guided
//! instrumentation and post-link binary reordering) by wrapping `cargo`
//! invocations, decoding the structured build-event stream they produce,
//! and planning the follow-up binary-rewriting actions.
//!
//! This crate holds the logic of that orchestration layer: constructing
//! non-conflicting build invocations, filtering user arguments, decoding
//! and re-rendering build events, computing instrumentation paths, and
//! modelling the profile-directory lifecycle. Process execution and
//! filesystem work live with the caller.

use vstd::prelude::*;

pub mod args;
pub mod bolt;
pub mod events;
pub mod instrument;
pub mod invoke;

verus! {

/// Marker that introduces the host target triple in the toolchain's
/// verbose version output.
pub open spec fn host_marker() -> Seq<char> {
    seq!['h', 'o', 's', 't', ':', ' ']
}

/// Index of the first newline in `s`, or `s.len()` if there is none.
pub open spec fn first_newline(s: Seq<char>) -> nat
    decreases s.len(),
{
    if s.len() == 0 {
        0
    } else if s[0] == '\n' {
        0
    } else {
        1 + first_newline(s.drop_first())
    }
}

/// The value of the first line of `s` that starts with the host marker,
/// with the marker stripped; `None` if no line starts with it.
pub open spec fn host_line_value(s: Seq<char>) -> Option<Seq<char>>
    decreases s.len(),
{
    let e = first_newline(s);
    let line = s.take(e as int);
    if host_marker().is_prefix_of(line) {
        Some(line.skip(6))
    } else if e >= s.len() {
        None
    } else {
        host_line_value(s.skip(e as int + 1))
    }
}

/// `first_newline` is determined by the newline-free prefix.
proof fn lemma_first_newline_at(s: Seq<char>, m: int)
    requires
        0 <= m <= s.len(),
        forall|k: int| 0 <= k < m ==> s[k] != '\n',
        m < s.len() ==> s[m] == '\n',
    ensures
        first_newline(s) == m,
    decreases s.len(),
{
    if s.len() != 0 && s[0] != '\n' {
        assert(forall|k: int| 0 <= k < m - 1 ==> s.drop_first()[k] == s[k + 1] && s[k + 1] != '\n');
        lemma_first_newline_at(s.drop_first(), m - 1);
    }
}

/// Tries to find the default target triple used for compiling on the
/// current host computer, given the toolchain's verbose version output
/// (the caller queries the toolchain and hands over its standard output).
///
/// Scans the output line by line for the first line beginning with
/// `host: ` and returns the remainder of that line.
pub fn get_default_target(output: &str) -> (r: Result<String, ResolveError>)
    ensures
        match r {
            Ok(host) => host_line_value(output@) == Some(host@),
            Err(_) => host_line_value(output@) is None,
        },
{
    let n = output.unicode_len();
    let mut i: usize = 0;
    proof {
        assert(output@.skip(0) =~= output@);
    }
    loop
        invariant
            0 <= i <= n,
            n == output@.len(),
            host_line_value(output@) == host_line_value(output@.skip(i as int)),
        decreases n - i,
    {
        if i >= n {
            proof {
                assert(output@.skip(i as int) =~= Seq::<char>::empty());
                assert(first_newline(output@.skip(i as int)) == 0);
                reveal_strlit("");
            }
            return Err(ResolveError::HostLineMissing);
        }
        // Find the end of the current line.
        let mut j: usize = i;
        while j < n && output.get_char(j) != '\n'
            invariant
                i <= j <= n,
                n == output@.len(),
                forall|k: int| i <= k < j ==> output@[k] != '\n',
            decreases n - j,
        {
            j = j + 1;
        }
        let ghost suffix = output@.skip(i as int);
        let ghost line = suffix.take(j - i);
        proof {
            assert(forall|k: int| 0 <= k < j - i ==> suffix[k] == output@[k + i] && output@[k + i]
                != '\n');
            lemma_first_newline_at(suffix, j - i);
            assert(forall|k: int| 0 <= k < j - i ==> line[k] == output@[k + i]);
        }
        // Check whether the line starts with the host marker.
        let line_len = j - i;
        let is_host = line_len >= 6 && output.get_char(i) == 'h' && output.get_char(i + 1) == 'o'
            && output.get_char(i + 2) == 's' && output.get_char(i + 3) == 't' && output.get_char(
            i + 4,
        ) == ':' && output.get_char(i + 5) == ' ';
        proof {
            if is_host {
                assert(host_marker() =~= line.take(6));
                assert(host_marker().is_prefix_of(line));
            } else if host_marker().is_prefix_of(line) {
                assert(line.len() >= 6);
                assert(line =~= line.take(line.len() as int));
                assert(forall|k: int| 0 <= k < 6 ==> line[k] == host_marker()[k]);
                assert(line[0] == 'h' && line[1] == 'o' && line[2] == 's' && line[3] == 't'
                    && line[4] == ':' && line[5] == ' ');
                assert(false);
            }
            assert(is_host == host_marker().is_prefix_of(line));
        }
        if is_host {
            let host = output.substring_char(i + 6, j);
            proof {
                assert(line.skip(6) =~= output@.subrange(i + 6, j as int));
                assert(host_line_value(suffix) == Some(line.skip(6)));
            }
            return Ok(host.to_owned());
        }
        if j == n {
            proof {
                assert(first_newline(suffix) >= suffix.len());
                assert(host_line_value(suffix) is None);
            }
            return Err(ResolveError::HostLineMissing);
        }
        proof {
            assert(host_line_value(suffix) == host_line_value(suffix.skip(j - i + 1)));
            assert(suffix.skip(j - i + 1) =~= output@.skip(j + 1));
        }
        i = j + 1;
    }
}

/// Failure to determine the host target triple from the toolchain's output.
#[derive(Clone, Copy, Debug, PartialEq, Eq, Structural)]
pub enum ResolveError {
    /// No line of the queried output started with the host marker.
    HostLineMissing,
}

impl ResolveError {
    /// Human-readable description of the failure.
    pub fn message(&self) -> (r: &'static str)
        ensures
            r@ == "Failed to parse target from rustc output."@,
    {
        "Failed to parse target from rustc output."
    }
}

} // verus!
