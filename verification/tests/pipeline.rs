use cargo_pgo::events::{decode_build_events, render_event, render_transcript, BuildEvent};
use cargo_pgo::events::get_artifact_kind;
use cargo_pgo::instrument::{
    artifact_basename, has_file_name, plan_instrument_binary, plan_instrumentation,
    events_paths_ok, ProfileDirectory,
};
use cargo_pgo::invoke::{merge_rustflags, prepare_build_command, process_build_output, CargoCommand};
use cargo_pgo::args::parse_cargo_args;
use cargo_pgo::bolt::{bolt_rustflags, llvm_bolt_install_hint};
use cargo_pgo::get_default_target;

const ARTIFACT_LINE: &str = r#"{"reason":"compiler-artifact","package_id":"myapp 0.1.0 (path+file:///w/myapp)","target":{"name":"myapp","kind":["bin"],"src_path":"/w/myapp/src/main.rs"},"profile":{"opt_level":"3","debuginfo":0,"debug_assertions":false,"overflow_checks":false,"test":false},"features":[],"filenames":["/out/myapp"],"executable":"/out/myapp","fresh":false}"#;

const FINISHED_LINE: &str = r#"{"reason":"build-finished","success":true}"#;

const DIAGNOSTIC_LINE: &str = "{\"reason\":\"compiler-message\",\"package_id\":\"myapp 0.1.0 (path+file:///w/myapp)\",\"target\":{\"name\":\"myapp\",\"kind\":[\"bin\"],\"src_path\":\"/w/myapp/src/main.rs\"},\"message\":{\"message\":\"mismatched types\",\"code\":null,\"level\":\"error\",\"spans\":[],\"children\":[],\"rendered\":\"error[E0308]: mismatched types\\n\"}}";

fn stream(lines: &[&str]) -> Vec<u8> {
    let mut out = Vec::new();
    for line in lines {
        out.extend_from_slice(line.as_bytes());
        out.push(b'\n');
    }
    out
}

#[test]
fn decode_artifact_then_finished_yields_two_events_in_order() {
    let bytes = stream(&[ARTIFACT_LINE, FINISHED_LINE]);
    let events = decode_build_events(&bytes).unwrap();
    assert_eq!(events.len(), 2);
    match &events[0] {
        BuildEvent::CompiledArtifact {
            target_name,
            kinds,
            executable,
        } => {
            assert_eq!(target_name, "myapp");
            assert_eq!(kinds, &vec!["bin".to_string()]);
            assert_eq!(executable.as_deref(), Some("/out/myapp"));
        }
        other => panic!("expected a compiled artifact, got {:?}", other),
    }
    match &events[1] {
        BuildEvent::BuildFinished { success } => assert!(*success),
        other => panic!("expected build finished, got {:?}", other),
    }
}

#[test]
fn pipeline_plans_one_action_and_reports_success() {
    let bytes = stream(&[ARTIFACT_LINE, FINISHED_LINE]);
    let events = decode_build_events(&bytes).unwrap();
    assert!(events_paths_ok(&events));
    let plan = plan_instrumentation(&events, &"/prof".to_string());
    assert_eq!(plan.artifacts.len(), 1);
    assert_eq!(plan.build_success, Some(true));
    let action = &plan.artifacts[0];
    assert_eq!(action.target_name, "myapp");
    assert_eq!(action.original_path, "/out/myapp");
    assert_eq!(action.instrumented_path, "/out/myapp-bolt-instrumented");
    assert_eq!(action.profile_path, "/prof/myapp/profile");
}

#[test]
fn decode_text_line_and_unknown_record() {
    let bytes = stream(&[
        "warming up",
        r#"{"reason":"build-script-executed","package_id":"x 0.1.0 (path+file:///x)","linked_libs":[],"linked_paths":[],"cfgs":[],"env":[],"out_dir":"/o"}"#,
    ]);
    let events = decode_build_events(&bytes).unwrap();
    assert_eq!(events.len(), 2);
    assert!(matches!(&events[0], BuildEvent::TextLine { content } if content == "warming up"));
    assert!(matches!(&events[1], BuildEvent::Other));
}

#[test]
fn decode_rejects_malformed_stream() {
    // Bytes that are not well-formed text cannot be split into records.
    let bytes = vec![0xff, 0xfe, 0xfd];
    assert!(decode_build_events(&bytes).is_err());
}

#[test]
fn diagnostic_renders_rich_form_and_falls_back() {
    let rich = BuildEvent::Diagnostic {
        rendered: Some("error: boom\n".to_string()),
        message: "boom".to_string(),
    };
    assert_eq!(render_event(&rich), Some("error: boom\n".to_string()));
    let plain = BuildEvent::Diagnostic {
        rendered: None,
        message: "boom".to_string(),
    };
    assert_eq!(render_event(&plain), Some("boom".to_string()));
    assert_eq!(render_event(&BuildEvent::Other), None);
}

#[test]
fn build_error_transcript_contains_diagnostic_text() {
    let stdout = stream(&[DIAGNOSTIC_LINE, FINISHED_LINE]);
    let err = process_build_output(
        false,
        "exit status: 101".to_string(),
        stdout,
        "real stderr".to_string(),
    )
    .unwrap_err();
    assert!(!err.transcript.is_empty());
    assert!(err.transcript.contains("error[E0308]: mismatched types"));
    let message = err.message();
    assert!(message.contains("Cargo error (exit status: 101)"));
    assert!(message.contains("real stderr"));
    assert!(message.contains("error[E0308]: mismatched types"));
}

#[test]
fn successful_build_passes_stdout_through() {
    let stdout = stream(&[FINISHED_LINE]);
    let out = process_build_output(true, "exit status: 0".to_string(), stdout.clone(), String::new());
    assert_eq!(out.unwrap(), stdout);
}

#[test]
fn transcript_concatenates_rendered_events_in_order() {
    let events = vec![
        BuildEvent::TextLine { content: "a".to_string() },
        BuildEvent::Other,
        BuildEvent::Diagnostic { rendered: None, message: "b".to_string() },
    ];
    assert_eq!(render_transcript(&events), "ab");
}

#[test]
fn instrumented_paths_for_artifact_under_profile_dir() {
    let action = plan_instrument_binary(
        &"myapp".to_string(),
        &"/out/myapp".to_string(),
        &"/prof".to_string(),
    );
    assert_eq!(action.basename, "myapp");
    assert_eq!(action.instrumented_path, "/out/myapp-bolt-instrumented");
    assert_eq!(action.profile_subdir, "/prof/myapp");
    assert_eq!(action.profile_path, "/prof/myapp/profile");
    assert_eq!(
        action.bolt_args,
        vec![
            "-instrument".to_string(),
            "/out/myapp".to_string(),
            "--instrumentation-file-append-pid".to_string(),
            "--instrumentation-file".to_string(),
            "/prof/myapp/profile".to_string(),
            "-update-debug-sections".to_string(),
            "-o".to_string(),
            "/out/myapp-bolt-instrumented".to_string(),
        ]
    );
}

#[test]
fn basename_strips_directory_and_extension() {
    assert_eq!(artifact_basename("/out/app.exe"), "app");
    assert_eq!(artifact_basename("/out/my.app.v2"), "my.app");
    assert_eq!(artifact_basename("plain"), "plain");
    assert_eq!(artifact_basename("/out/.hidden"), ".hidden");
    assert!(has_file_name("/out/myapp"));
    assert!(!has_file_name("/out/"));
    assert!(!has_file_name(""));
}

#[test]
fn profile_directory_prepare_is_idempotent() {
    let first = ProfileDirectory::prepare("/prof".to_string());
    assert_eq!(first.subdirs.len(), 0);
    let mut dir = first;
    assert!(dir.ensure_subdir(&"myapp".to_string()));
    assert!(!dir.ensure_subdir(&"myapp".to_string()));
    assert_eq!(dir.subdirs.len(), 1);
    // Preparing again discards everything recorded in between.
    let again = ProfileDirectory::prepare("/prof".to_string());
    assert_eq!(again.subdirs.len(), 0);
    assert_eq!(again.path, "/prof");
}

#[test]
fn get_default_target_scans_for_host_line() {
    let output = "rustc 1.75.0 (82e1608df 2023-12-21)\nbinary: rustc\nhost: x86_64-unknown-linux-gnu\nrelease: 1.75.0\n";
    assert_eq!(
        get_default_target(output).unwrap(),
        "x86_64-unknown-linux-gnu"
    );
}

#[test]
fn get_default_target_fails_without_host_line() {
    let output = "rustc 1.75.0\nrelease: 1.75.0\n";
    let err = get_default_target(output).unwrap_err();
    assert_eq!(err.message(), "Failed to parse target from rustc output.");
    // A line merely containing the marker elsewhere does not count.
    assert!(get_default_target("the host: here\n").is_err());
}

#[test]
fn merge_rustflags_appends_to_inherited_value() {
    assert_eq!(merge_rustflags(None, "-C link-args=-Wl,-q"), " -C link-args=-Wl,-q");
    let existing = "-Ctarget-cpu=native".to_string();
    assert_eq!(
        merge_rustflags(Some(&existing), "-C link-args=-Wl,-q"),
        "-Ctarget-cpu=native -C link-args=-Wl,-q"
    );
}

#[test]
fn prepare_build_command_injects_flags_and_target() {
    let filtered = parse_cargo_args(vec!["--bar".to_string()]);
    let target = "x86_64-unknown-linux-gnu".to_string();
    let cmd = prepare_build_command(
        CargoCommand::Build,
        &filtered,
        None,
        bolt_rustflags(),
        Some(&target),
    );
    assert_eq!(
        cmd.args,
        vec![
            "build".to_string(),
            "--release".to_string(),
            "--message-format".to_string(),
            "json-diagnostic-rendered-ansi".to_string(),
            "--target".to_string(),
            "x86_64-unknown-linux-gnu".to_string(),
            "--bar".to_string(),
        ]
    );
    assert_eq!(cmd.env.len(), 1);
    assert_eq!(cmd.env[0].0, "RUSTFLAGS");
    assert_eq!(cmd.env[0].1, " -C link-args=-Wl,-q");
}

#[test]
fn prepare_build_command_skips_target_when_user_gave_one() {
    let filtered = parse_cargo_args(vec!["--target".to_string(), "x64".to_string()]);
    let cmd = prepare_build_command(CargoCommand::Build, &filtered, None, "", None);
    assert_eq!(
        cmd.args,
        vec![
            "build".to_string(),
            "--release".to_string(),
            "--message-format".to_string(),
            "json-diagnostic-rendered-ansi".to_string(),
            "--target".to_string(),
            "x64".to_string(),
        ]
    );
}

#[test]
fn artifact_kind_names() {
    assert_eq!(get_artifact_kind(&vec!["bin".to_string()]), "binary");
    assert_eq!(get_artifact_kind(&vec!["bench".to_string()]), "benchmark");
    assert_eq!(get_artifact_kind(&vec!["example".to_string()]), "example");
    assert_eq!(get_artifact_kind(&vec!["lib".to_string()]), "artifact");
    assert_eq!(
        get_artifact_kind(&vec!["lib".to_string(), "bin".to_string()]),
        "binary"
    );
}

#[test]
fn command_names_and_bolt_constants() {
    assert_eq!(CargoCommand::Build.to_str(), "build");
    assert_eq!(CargoCommand::Test.to_str(), "test");
    assert_eq!(CargoCommand::Bench.to_str(), "bench");
    assert_eq!(bolt_rustflags(), "-C link-args=-Wl,-q");
    assert_eq!(
        llvm_bolt_install_hint(),
        "Build LLVM with BOLT and add its `bin` directory to PATH."
    );
}

#[test]
fn events_paths_ok_rejects_directory_like_executable() {
    let events = vec![BuildEvent::CompiledArtifact {
        target_name: "x".to_string(),
        kinds: vec!["bin".to_string()],
        executable: Some("/out/".to_string()),
    }];
    assert!(!events_paths_ok(&events));
}
