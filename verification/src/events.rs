//! Event stream decoder: turns the captured output of a structured build
//! invocation into a sequence of build events, and re-renders the
//! human-readable ones.
//!
//! The wrapped build tool emits one record per line; recognized kinds are
//! plain text lines, compiler diagnostics (with an optional pre-rendered
//! rich form), compiled-artifact records and the final build-finished
//! record. Unrecognized kinds degrade to a catch-all variant instead of
//! failing the decode.

use vstd::prelude::*;

use cargo_metadata::Message;

verus! {

/// One decoded record of the build tool's structured output stream.
#[derive(Debug, Clone)]
pub enum BuildEvent {
    /// A line of plain text that is not a structured record.
    TextLine { content: String },
    /// A compiler diagnostic: the plain message, and the richer form the
    /// compiler rendered for terminals, when present.
    Diagnostic { rendered: Option<String>, message: String },
    /// One produced build artifact: the target it belongs to, the raw kind
    /// tags of that target, and the path of its executable when it has one.
    CompiledArtifact { target_name: String, kinds: Vec<String>, executable: Option<String> },
    /// The final record of a build: whether the build succeeded.
    BuildFinished { success: bool },
    /// A recognized stream record of a kind this workflow ignores.
    Other,
}

/// Structured stream malformed; the stream comes from a trusted build
/// tool, so this indicates a version mismatch and is not recovered from.
#[derive(Clone, Copy, Debug, PartialEq, Eq, Structural)]
pub enum DecodeError {
    MalformedStream,
}

impl DecodeError {
    /// Human-readable description of the failure.
    pub fn message(&self) -> (r: &'static str)
        ensures
            r@ == "Could not parse Cargo stdout"@,
    {
        "Could not parse Cargo stdout"
    }
}

/// The events that decoding a captured output stream yields, in emission
/// order, or `None` when the stream is malformed. The decode is a pure
/// function of the captured bytes.
pub uninterp spec fn decoded_events(bytes: Seq<u8>) -> Option<Seq<BuildEvent>>;

/// Relies on `cargo_metadata::Message::parse_stream`: the captured output
/// is split into newline-delimited records, each classified by its reason
/// tag; a line that is no record passes through as plain text; the stream
/// fails only when its bytes are not well-formed text. The result depends
/// on the captured bytes alone.
#[verifier::external_body]
fn parse_event_stream(bytes: &Vec<u8>) -> (r: Result<Vec<BuildEvent>, DecodeError>)
    ensures
        match r {
            Ok(events) => decoded_events(bytes@) == Some(events@),
            Err(_) => decoded_events(bytes@) is None,
        },
{
    let mut events = Vec::new();
    for message in Message::parse_stream(bytes.as_slice()) {
        let m = match message { Ok(m) => m, Err(_) => return Err(DecodeError::MalformedStream) };
        events.push(match m {
            Message::TextLine(content) => BuildEvent::TextLine { content },
            Message::CompilerMessage(c) => BuildEvent::Diagnostic { rendered: c.message.rendered, message: c.message.message },
            Message::CompilerArtifact(a) => BuildEvent::CompiledArtifact { target_name: a.target.name, kinds: a.target.kind, executable: match a.executable { Some(p) => Some(p.into_string()), None => None } },
            Message::BuildFinished(f) => BuildEvent::BuildFinished { success: f.success },
            _ => BuildEvent::Other,
        });
    }
    Ok(events)
}

/// Decodes the captured output of one structured build invocation into its
/// events, in emission order; fails exactly when the stream is malformed.
pub fn decode_build_events(bytes: &Vec<u8>) -> (r: Result<Vec<BuildEvent>, DecodeError>)
    ensures
        match r {
            Ok(events) => decoded_events(bytes@) == Some(events@),
            Err(_) => decoded_events(bytes@) is None,
        },
{
    parse_event_stream(bytes)
}

/// What one event renders to for the user's console: text lines render to
/// their content, diagnostics to their pre-rendered rich form when present
/// (falling back to the plain message), and all other events to nothing.
pub open spec fn spec_render(e: BuildEvent) -> Option<Seq<char>> {
    match e {
        BuildEvent::TextLine { content } => Some(content@),
        BuildEvent::Diagnostic { rendered, message } => match rendered {
            Some(r) => Some(r@),
            None => Some(message@),
        },
        _ => None,
    }
}

/// Renders one event to the text shown to the user, if it renders at all.
pub fn render_event(e: &BuildEvent) -> (r: Option<String>)
    ensures
        match r {
            Some(s) => spec_render(*e) == Some(s@),
            None => spec_render(*e) is None,
        },
{
    match e {
        BuildEvent::TextLine { content } => Some(content.clone()),
        BuildEvent::Diagnostic { rendered, message } => match rendered {
            Some(r) => Some(r.clone()),
            None => Some(message.clone()),
        },
        _ => None,
    }
}

/// The rendered transcript of a whole event sequence: the concatenation,
/// in order, of what each event renders to.
pub open spec fn spec_transcript(events: Seq<BuildEvent>) -> Seq<char>
    decreases events.len(),
{
    if events.len() == 0 {
        Seq::empty()
    } else {
        (match spec_render(events[0]) {
            Some(t) => t,
            None => Seq::empty(),
        }) + spec_transcript(events.drop_first())
    }
}

/// Renders a whole event sequence into one transcript, concatenating the
/// text of every event that renders.
pub fn render_transcript(events: &Vec<BuildEvent>) -> (r: String)
    ensures
        r@ == spec_transcript(events@),
{
    let mut out = String::new();
    let mut i: usize = 0;
    proof {
        assert(events@.skip(0) =~= events@);
        assert(out@ + spec_transcript(events@) =~= spec_transcript(events@));
    }
    while i < events.len()
        invariant
            i <= events.len(),
            spec_transcript(events@) == out@ + spec_transcript(events@.skip(i as int)),
        decreases events.len() - i,
    {
        let ghost suffix = events@.skip(i as int);
        let ghost old_out = out@;
        proof {
            assert(suffix[0] == events@[i as int]);
            assert(suffix.drop_first() =~= events@.skip(i + 1));
        }
        match render_event(&events[i]) {
            Some(s) => {
                out.append(s.as_str());
            },
            None => {},
        }
        proof {
            assert(out@ + spec_transcript(events@.skip(i + 1)) =~= old_out + spec_transcript(
                suffix,
            ));
        }
        i = i + 1;
    }
    proof {
        assert(events@.skip(events.len() as int) =~= Seq::<BuildEvent>::empty());
        assert(out@ + spec_transcript(events@.skip(events.len() as int)) =~= out@);
    }
    out
}

/// Whether `needle` occurs contiguously inside `hay`.
pub open spec fn contains_subseq(hay: Seq<char>, needle: Seq<char>) -> bool {
    exists|j: int|
        0 <= j && j + needle.len() <= hay.len() && #[trigger] hay.subrange(j, j + needle.len())
            == needle
}

/// Whatever any one event of a stream renders to occurs, verbatim, in the
/// rendered transcript of the whole stream: in particular, the transcript
/// reconstructed on a failed build contains the text of every diagnostic
/// record of the captured output.
pub proof fn lemma_transcript_contains_rendered(events: Seq<BuildEvent>, i: int)
    requires
        0 <= i < events.len(),
        spec_render(events[i]) is Some,
    ensures
        contains_subseq(spec_transcript(events), spec_render(events[i])->0),
    decreases i,
{
    let head = match spec_render(events[0]) {
        Some(t) => t,
        None => Seq::<char>::empty(),
    };
    let rest = spec_transcript(events.drop_first());
    assert(spec_transcript(events) == head + rest);
    if i == 0 {
        let needle = spec_render(events[0])->0;
        assert(spec_transcript(events).subrange(0, 0 + needle.len() as int) =~= needle);
        assert(contains_subseq(spec_transcript(events), needle));
    } else {
        assert(events.drop_first()[i - 1] == events[i]);
        lemma_transcript_contains_rendered(events.drop_first(), i - 1);
        let needle = spec_render(events[i])->0;
        let j = choose|j: int|
            0 <= j && j + needle.len() <= rest.len() && #[trigger] rest.subrange(
                j,
                j + needle.len(),
            ) == needle;
        let w = head.len() + j;
        assert(spec_transcript(events).subrange(w, w + needle.len()) =~= needle);
        assert(contains_subseq(spec_transcript(events), needle));
    }
}

/// The user-friendly name of an artifact's kind: derived from the first
/// recognized tag among the artifact's raw kind tags.
pub open spec fn spec_artifact_kind(kinds: Seq<Seq<char>>) -> Seq<char>
    decreases kinds.len(),
{
    if kinds.len() == 0 {
        "artifact"@
    } else if kinds[0] == "bin"@ {
        "binary"@
    } else if kinds[0] == "bench"@ {
        "benchmark"@
    } else if kinds[0] == "example"@ {
        "example"@
    } else {
        spec_artifact_kind(kinds.drop_first())
    }
}

/// Returns a user-friendly name for an artifact's kind tags.
pub fn get_artifact_kind(kinds: &Vec<String>) -> (r: &'static str)
    ensures
        r@ == spec_artifact_kind(kinds.deep_view()),
{
    let bin = String::from_str("bin");
    let bench = String::from_str("bench");
    let example = String::from_str("example");
    let ghost all = kinds.deep_view();
    let mut i: usize = 0;
    proof {
        assert(all.skip(0) =~= all);
    }
    while i < kinds.len()
        invariant
            i <= kinds.len(),
            all == kinds.deep_view(),
            all.len() == kinds.len(),
            bin@ == "bin"@,
            bench@ == "bench"@,
            example@ == "example"@,
            spec_artifact_kind(all) == spec_artifact_kind(all.skip(i as int)),
        decreases kinds.len() - i,
    {
        let ghost suffix = all.skip(i as int);
        let k = &kinds[i];
        proof {
            assert(suffix[0] == k.deep_view());
            assert(suffix.drop_first() =~= all.skip(i + 1));
        }
        if *k == bin {
            return "binary";
        } else if *k == bench {
            return "benchmark";
        } else if *k == example {
            return "example";
        }
        i = i + 1;
    }
    proof {
        assert(all.skip(kinds.len() as int) =~= Seq::<Seq<char>>::empty());
    }
    "artifact"
}

} // verus!
