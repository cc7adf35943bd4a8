//! Texts, paths, JSON and versions.

use codex_worktree::bounds::{
    bound_worktree_error, ensure_worktree_output_fits_context, git_error, truncate_text,
    worktree_model_error, FunctionCallError, WORKTREE_OUTPUT_MAX_BYTES, WORKTREE_OUTPUT_MAX_TOKENS,
};
use codex_worktree::errors::GitToolingError;
use codex_worktree::json::{write_object, JsonValue};
use codex_worktree::metadata::{metadata_content, worktree_metadata_path, WorktreeMetadata};
use codex_worktree::paths::{
    file_name, is_absolute, join_path, parent, same_path, starts_with, strip_prefix, tidy,
};
use codex_worktree::pending_input::{
    map_withdraw_pending_input_result, WithdrawPendingInputResult,
};
use codex_worktree::rpc::{internal_error, JSONRPCErrorError};
use codex_worktree::text::{decimal_text, signed_decimal_text, split_on, strip_suffix, trim};
use codex_worktree::tool_spec::{
    create_enter_worktree_tool, create_exit_worktree_tool, ENTER_WORKTREE_TOOL_NAME,
    EXIT_WORKTREE_TOOL_NAME,
};
use codex_worktree::version::{
    build_directives, format_cli_version, git_output, product_version,
};
use codex_worktree::worktree::validate_managed_worktree_name;

fn text(value: &str) -> String {
    value.to_string()
}

#[test]
fn formats_package_version_with_optional_fork_revision() {
    assert_eq!(
        [
            format_cli_version("0.144.0", /*revision*/ None),
            format_cli_version("0.144.0", Some("abcdef123456")),
            format_cli_version("0.144.0-alpha.1", Some("abcdef123456")),
            format_cli_version("0.144.0+preview", Some("abcdef123456")),
        ],
        [
            "0.144.0",
            "0.144.0+fork.abcdef123456",
            "0.144.0-alpha.1+fork.abcdef123456",
            "0.144.0+preview.fork.abcdef123456",
        ]
    );
}

#[test]
fn git_output_is_a_value_only_where_some_is_left() {
    assert_eq!(git_output(true, b" abc \n".to_vec()), Some(text("abc")));
    assert_eq!(git_output(true, b" \n".to_vec()), None);
    assert_eq!(git_output(false, b"abc".to_vec()), None);
    assert_eq!(git_output(true, vec![0xff]), None);
}

#[test]
fn the_build_is_told_its_version_and_what_makes_it_stale() {
    assert_eq!(
        build_directives(
            Some(text("0123456789abcdef0123456789abcdef01234567")),
            "1.0.0",
            Some(text(".git/HEAD")),
            Some(text(".git/refs/heads/main")),
            true,
        ),
        vec![
            "cargo:rustc-env=CODEX_CLI_VERSION=codex-cli 1.0.0+fork.0123456789ab",
            "cargo:rerun-if-changed=build.rs",
            "cargo:rerun-if-changed=.git/HEAD",
            "cargo:rerun-if-changed=.git/refs/heads/main",
            "cargo:rustc-link-arg=-ObjC",
        ]
    );
    assert_eq!(
        build_directives(None, "1.0.0", None, None, false),
        vec!["cargo:rustc-env=CODEX_CLI_VERSION=codex-cli 1.0.0", "cargo:rerun-if-changed=build.rs"]
    );
}

#[test]
fn top_level_version_exposes_a_non_source_semver() {
    let commit = "0123456789ABCDEF0123456789abcdef01234567";
    let output = product_version("0.144.0+preview", Some(commit));
    let version = output
        .trim()
        .strip_prefix("codex-cli ")
        .expect("version output should use the codex-cli package name");
    let (core, build) = version.split_once('+').expect("build metadata");
    let numbers: Vec<u64> = core.split('.').map(|n| n.parse().expect("a number")).collect();
    assert_eq!(numbers, vec![0, 144, 0]);
    let mut build_components = build.rsplit('.');
    let revision =
        build_components.next().expect("non-empty build metadata should contain a revision");
    assert_eq!(build_components.next(), Some("fork"));
    assert_eq!(revision.len(), 12);
    assert!(revision.chars().all(|character| character.is_ascii_hexdigit()));
    assert_eq!(revision, "0123456789AB");

    assert_eq!(product_version("0.144.0", None), "codex-cli 0.144.0");
    assert_eq!(product_version("0.144.0", Some("0123456789a")), "codex-cli 0.144.0");
    assert_eq!(product_version("0.144.0", Some("0123456789ag")), "codex-cli 0.144.0");
}

#[test]
fn worktree_output_byte_cap_is_conservative_for_token_budget() {
    assert_eq!(WORKTREE_OUTPUT_MAX_BYTES, WORKTREE_OUTPUT_MAX_TOKENS);
}

#[test]
fn git_error_output_is_bounded() {
    let error = GitToolingError::InvalidWorktreeName {
        name: "x".repeat(WORKTREE_OUTPUT_MAX_BYTES * 2),
        reason: "bad name".to_string(),
    };

    let FunctionCallError::RespondToModel(message) = git_error(&error) else {
        panic!("git errors should be reported to the model");
    };

    assert!(message.len() < WORKTREE_OUTPUT_MAX_BYTES + 512);
    assert!(message.contains("truncated"));
    assert!(message.starts_with("worktree operation failed: invalid managed worktree name \"xx"));
    assert!(message.ends_with("xx\": bad name"));
}

#[test]
fn texts_are_cut_in_their_middle() {
    assert_eq!(truncate_text("short", 5), "short");
    assert_eq!(truncate_text("abcdefghij", 4), "ab…6 chars truncated…ij");
    assert_eq!(truncate_text("abcdefghij", 5), "ab…5 chars truncated…hij");
    assert_eq!(truncate_text("ääääää", 5), "ä…4 chars truncated…ä");
    assert_eq!(truncate_text("", 0), "");
}

#[test]
fn only_what_the_model_is_told_is_cut() {
    let long = "y".repeat(2000);
    match bound_worktree_error(&FunctionCallError::Fatal(long.clone())) {
        FunctionCallError::Fatal(message) => assert_eq!(message, long),
        FunctionCallError::RespondToModel(_) => panic!("the error stays what it is"),
    }
    match bound_worktree_error(&FunctionCallError::RespondToModel(long)) {
        FunctionCallError::RespondToModel(message) => {
            assert!(message.contains("…1488 chars truncated…"));
        }
        FunctionCallError::Fatal(_) => panic!("the error stays what it is"),
    }
    assert_eq!(FunctionCallError::Fatal(text("gone")).message(), "Fatal error: gone");
    assert_eq!(worktree_model_error("told").message(), "told");
}

#[test]
fn outputs_fit_up_to_the_cap() {
    assert!(ensure_worktree_output_fits_context(&"z".repeat(512)).is_ok());
    match ensure_worktree_output_fits_context(&"z".repeat(513)) {
        Err(error) => assert_eq!(
            error.message(),
            "worktree output exceeds 512 bytes; use a shorter repository path or worktree name"
        ),
        Ok(_) => panic!("an error was expected"),
    }
    assert!(ensure_worktree_output_fits_context(&"ä".repeat(257)).is_err());
}

#[test]
fn objects_are_written_like_a_json_library_writes_them() {
    let tricky = "quote \" slash \\ bell \u{8} tab \t line \n feed \u{c} return \r one \u{1} ü";
    let members = vec![
        (text("a"), JsonValue::Text(text(tricky))),
        (text("b"), JsonValue::Null),
        (text("c"), JsonValue::Bool(true)),
        (text("d\""), JsonValue::Bool(false)),
    ];
    let written = write_object(&members);
    let parsed: serde_json::Value = serde_json::from_str(&written).expect("valid JSON");
    assert_eq!(parsed["a"], serde_json::Value::String(text(tricky)));
    assert_eq!(parsed["b"], serde_json::Value::Null);
    assert_eq!(parsed["c"], serde_json::Value::Bool(true));
    assert_eq!(parsed["d\""], serde_json::Value::Bool(false));
    assert_eq!(write_object(&Vec::new()), "{}");
    assert_eq!(
        write_object(&vec![(text("x"), JsonValue::Text(text("\u{1f}\u{7f}")))]),
        "{\"x\":\"\\u001f\u{7f}\"}"
    );
}

#[test]
fn metadata_is_kept_beside_the_worktree() {
    assert_eq!(
        worktree_metadata_path("/repo/.git", "codex-a"),
        "/repo/.git/codex/worktrees/codex-a.codex.json"
    );
    let metadata = WorktreeMetadata {
        original_cwd: text("/repo/\"sub\""),
        owner_thread_id: Some(text("thread-1")),
    };
    assert_eq!(
        metadata_content(&metadata),
        "{\"original_cwd\":\"/repo/\\\"sub\\\"\",\"owner_thread_id\":\"thread-1\"}"
    );
    let other = WorktreeMetadata { original_cwd: text("/repo"), owner_thread_id: None };
    assert_eq!(metadata_content(&other), "{\"original_cwd\":\"/repo\",\"owner_thread_id\":null}");
}

#[test]
fn enter_worktree_schema_requires_exactly_one_selector() {
    let tool = create_enter_worktree_tool();
    let names: Vec<&str> =
        tool.parameters.object.properties.iter().map(|(name, _)| name.as_str()).collect();
    assert!(names.contains(&"name"));
    assert!(names.contains(&"path"));

    let one_of = tool.parameters.one_of.as_ref().expect("enter_worktree should require one selector");
    let required_by_variant: Vec<Vec<String>> = one_of
        .iter()
        .map(|schema| {
            schema.required.as_ref().expect("selector variant should have required fields").clone()
        })
        .collect();
    assert_eq!(
        required_by_variant,
        vec![vec!["name".to_string()], vec!["path".to_string()]]
    );

    let variant_properties: Vec<Vec<String>> = one_of
        .iter()
        .map(|schema| schema.properties.iter().map(|(name, _)| name.clone()).collect())
        .collect();
    assert_eq!(
        variant_properties,
        vec![vec!["name".to_string()], vec!["path".to_string()]]
    );
    assert_eq!(tool.name, ENTER_WORKTREE_TOOL_NAME);
    assert!(!tool.parameters.object.additional_properties);
}

#[test]
fn exit_worktree_takes_one_flag_and_reports_two_more() {
    let tool = create_exit_worktree_tool();
    assert_eq!(tool.name, EXIT_WORKTREE_TOOL_NAME);
    assert_eq!(tool.parameters.object.properties.len(), 1);
    assert_eq!(tool.parameters.object.properties[0].0, "keep");
    assert_eq!(tool.parameters.object.properties[0].1.kind, "boolean");
    assert_eq!(
        tool.output_schema.required,
        vec![
            "cwd",
            "worktree_path",
            "original_cwd",
            "branch",
            "name",
            "created",
            "keep",
            "removed"
        ]
    );
    assert_eq!(tool.output_schema.properties[5].1, vec!["boolean", "null"]);
}

#[test]
fn paths_are_seen_by_their_components() {
    assert!(is_absolute("/a") && !is_absolute("a"));
    assert!(same_path("/a//b/./c/", "/a/b/c"));
    assert!(!same_path("/a/b", "/a/c"));
    assert!(starts_with("/a/b/c", "/a/b/"));
    assert!(!starts_with("/a/bc", "/a/b"));
    assert_eq!(join_path("/a", "b"), "/a/b");
    assert_eq!(join_path("/a/", "b"), "/a/b");
    assert_eq!(join_path("/a", "/b"), "/b");
    assert_eq!(join_path("/a", ""), "/a/");
    assert_eq!(strip_prefix("/a/b/c", "/a"), Some(text("b/c")));
    assert_eq!(strip_prefix("/a", "/a"), Some(text("")));
    assert_eq!(strip_prefix("/x", "/a"), None);
    assert_eq!(parent("/a/b/"), Some(text("/a")));
    assert_eq!(parent("/"), None);
    assert_eq!(file_name("/a/.git/"), Some(text(".git")));
    assert_eq!(file_name("/a/.."), None);
    assert_eq!(tidy("/a//b/"), "/a/b");
}

#[test]
fn names_of_managed_worktrees_are_single_plain_components() {
    for name in ["a", "codex-test", "v1.2_x", "A9"] {
        assert!(validate_managed_worktree_name(name).is_ok(), "{name}");
    }
    for name in ["", ".", "..", "a/b", "a b", "-a", "ä"] {
        assert!(validate_managed_worktree_name(name).is_err(), "{name}");
    }
}

#[test]
fn small_texts_are_taken_apart() {
    assert_eq!(trim(" \t a b \u{a0}\n"), "a b");
    assert_eq!(split_on("a||b", '|'), vec!["a", "", "b"]);
    assert_eq!(strip_suffix("name.smudge", ".smudge"), Some(text("name")));
    assert_eq!(strip_suffix("name", ".smudge"), None);
    assert_eq!(decimal_text(0), "0");
    assert_eq!(decimal_text(u64::MAX), "18446744073709551615");
    assert_eq!(signed_decimal_text(i32::MIN), "-2147483648");
}

fn refused(expected: &str, result: WithdrawPendingInputResult) -> JSONRPCErrorError {
    match map_withdraw_pending_input_result(expected, result) {
        Ok(_) => panic!("an error was expected"),
        Err(error) => error,
    }
}

#[test]
fn turn_withdraw_pending_input_maps_active_turn_outcomes() {
    let error = refused("expected-turn", WithdrawPendingInputResult::NoActiveTurn);
    assert_eq!(error.code, -32600);
    assert_eq!(error.message, "no active turn contains pending input");
    assert_eq!(
        write_object(&error.data.expect("data")),
        "{\"reason\":\"noActiveTurn\",\"expectedTurnId\":\"expected-turn\",\"actualTurnId\":null}"
    );

    let error = refused(
        "wrong-turn",
        WithdrawPendingInputResult::ExpectedTurnMismatch {
            expected: text("wrong-turn"),
            actual: text("turn-1"),
        },
    );
    assert_eq!(error.code, -32600);
    assert_eq!(error.message, "expected active turn id `wrong-turn` but found `turn-1`");
    assert_eq!(
        write_object(&error.data.expect("data")),
        "{\"reason\":\"expectedTurnMismatch\",\"expectedTurnId\":\"wrong-turn\",\
         \"actualTurnId\":\"turn-1\"}"
    );

    let error =
        refused("turn-1", WithdrawPendingInputResult::NotPending { turn_id: text("turn-1") });
    assert_eq!(error.message, "client user message id is not pending");
    assert_eq!(
        write_object(&error.data.expect("data")),
        "{\"reason\":\"notPending\",\"expectedTurnId\":\"turn-1\",\"actualTurnId\":\"turn-1\"}"
    );

    let error =
        refused("turn-1", WithdrawPendingInputResult::AmbiguousClientId { turn_id: text("turn-1") });
    assert_eq!(error.message, "client user message id matches multiple pending inputs");
    assert_eq!(
        write_object(&error.data.expect("data")),
        "{\"reason\":\"ambiguousClientUserMessageId\",\"expectedTurnId\":\"turn-1\",\
         \"actualTurnId\":\"turn-1\"}"
    );

    match map_withdraw_pending_input_result(
        "turn-1",
        WithdrawPendingInputResult::Withdrawn { turn_id: text("turn-1") },
    ) {
        Ok(response) => assert_eq!(response.turn_id, "turn-1"),
        Err(_) => panic!("the input was taken back"),
    }
    assert_eq!(internal_error("broken").code, -32603);
}
