use git_log_formatter::resolver::clean_commit_ref;
use git_log_formatter::resolver::commit_message;
use git_log_formatter::resolver::display_text;
use git_log_formatter::resolver::failure_report;
use git_log_formatter::resolver::lookup_command;
use git_log_formatter::resolver::LookupOutcome;
use git_log_formatter::resolver::TOOL;
use git_log_formatter::resolver::TREE_MARKER;

const ID: &str = "abcdef0123456789abcdef0123456789abcdef01";
const PLACEHOLDER: &str = "Commit message not available";

fn exited(success: bool, stdout: &[u8], stderr: &[u8]) -> LookupOutcome {
    LookupOutcome::Exited { success, stdout: stdout.to_vec(), stderr: stderr.to_vec() }
}

#[test]
fn constants_hold_the_fixed_texts() {
    assert_eq!(git_log_formatter::resolver::PLACEHOLDER, PLACEHOLDER);
    assert_eq!(TREE_MARKER, "^{tree}");
    assert_eq!(TOOL, "git");
}

#[test]
fn clean_strips_a_trailing_marker() {
    assert_eq!(clean_commit_ref(&format!("{}^{{tree}}", ID)), ID);
    assert_eq!(clean_commit_ref("abc123^{tree}"), "abc123");
}

#[test]
fn clean_leaves_a_bare_identifier() {
    assert_eq!(clean_commit_ref(ID), ID);
    assert_eq!(clean_commit_ref(""), "");
}

#[test]
fn clean_leaves_other_suffixes() {
    assert_eq!(clean_commit_ref("abc^{commit}"), "abc^{commit}");
    assert_eq!(clean_commit_ref("abc^"), "abc^");
    assert_eq!(clean_commit_ref("abc~2"), "abc~2");
}

#[test]
fn clean_strips_every_marker() {
    assert_eq!(clean_commit_ref("abc^{tree}^{tree}"), "abc");
    assert_eq!(clean_commit_ref("^{tree}abc"), "abc");
}

#[test]
fn command_names_tool_format_color_and_key() {
    let words = lookup_command(&format!("{}^{{tree}}", ID), "%s", "always");
    assert_eq!(words, vec!["git", "log", "--format=%s", "--color=always", "-n", "1", ID]);
}

#[test]
fn command_passes_the_format_through_verbatim() {
    let format = "%C(auto)%(decorate)%C(reset) %C(normal)%<|(-1,trunc)%s%C(reset)";
    let words = lookup_command(ID, format, "never");
    assert_eq!(words.len(), 7);
    assert_eq!(words[2], format!("--format={}", format));
    assert_eq!(words[3], "--color=never");
    assert_eq!(words[6], ID);
}

#[test]
fn command_keeps_quotes_and_spaces_inside_one_word() {
    let words = lookup_command("x", "'; rm -rf /; '", "a b");
    assert_eq!(words, vec!["git", "log", "--format='; rm -rf /; '", "--color=a b", "-n", "1", "x"]);
}

#[test]
fn command_with_empty_settings() {
    let words = lookup_command("", "", "");
    assert_eq!(words, vec!["git", "log", "--format=", "--color=", "-n", "1", ""]);
}

#[test]
fn display_trims() {
    assert_eq!(display_text("  Fix bug\n", None), "Fix bug");
    assert_eq!(display_text("Fix bug", None), "Fix bug");
    assert_eq!(display_text(" \n", None), "");
}

#[test]
fn display_cuts_to_the_limit() {
    assert_eq!(display_text("Fix bug", Some(3)), "Fix");
    assert_eq!(display_text("Fix bug", Some(7)), "Fix bug");
    assert_eq!(display_text("Fix bug", Some(100)), "Fix bug");
    assert_eq!(display_text("Fix bug", Some(0)), "");
}

#[test]
fn display_trims_before_it_cuts() {
    assert_eq!(display_text("   Fix bug   ", Some(3)), "Fix");
    assert_eq!(display_text("ab   cd", Some(3)), "ab ");
}

#[test]
fn display_cuts_500_characters_to_120() {
    let response: String = "0123456789".repeat(50);
    assert_eq!(response.chars().count(), 500);
    let shown = display_text(&response, Some(120));
    assert_eq!(shown.chars().count(), 120);
    assert_eq!(shown, response[..120]);
}

#[test]
fn message_of_success_is_the_trimmed_output() {
    assert_eq!(commit_message(&exited(true, b"Fix bug\n", b""), None), "Fix bug");
    assert_eq!(commit_message(&exited(true, b"  (HEAD -> main) Fix bug \r\n", b"warning"), None),
        "(HEAD -> main) Fix bug");
}

#[test]
fn message_of_success_keeps_color_codes() {
    let out = b"\x1b[33m (HEAD)\x1b[m subject\x1b[m\n";
    assert_eq!(
        commit_message(&exited(true, out, b""), None),
        "\u{1b}[33m (HEAD)\u{1b}[m subject\u{1b}[m"
    );
}

#[test]
fn message_of_success_under_a_limit() {
    let response = "x".repeat(500);
    let message = commit_message(&exited(true, response.as_bytes(), b""), Some(120));
    assert_eq!(message, "x".repeat(120));
    let unbounded = commit_message(&exited(true, response.as_bytes(), b""), None);
    assert_eq!(unbounded, response);
}

#[test]
fn message_of_success_replaces_invalid_bytes() {
    assert_eq!(commit_message(&exited(true, b"Fix \xff bug\n", b""), None), "Fix \u{fffd} bug");
    assert_eq!(commit_message(&exited(true, b"\xe2\x82", b""), None), "\u{fffd}");
}

#[test]
fn message_of_success_may_be_empty() {
    assert_eq!(commit_message(&exited(true, b"", b""), None), "");
    assert_eq!(commit_message(&exited(true, b"\n", b""), None), "");
    assert_eq!(commit_message(&exited(true, b"abc", b""), Some(0)), "");
}

#[test]
fn message_of_failed_exit_is_the_placeholder() {
    assert_eq!(commit_message(&exited(false, b"", b"fatal: bad object"), None), PLACEHOLDER);
    assert_eq!(commit_message(&exited(false, b"partial output", b""), None), PLACEHOLDER);
    assert_eq!(PLACEHOLDER.len(), 28);
}

#[test]
fn message_of_failed_exit_ignores_the_limit() {
    assert_eq!(commit_message(&exited(false, b"partial", b"x"), Some(5)), PLACEHOLDER);
    assert_eq!(commit_message(&exited(false, b"", b""), Some(0)), PLACEHOLDER);
}

#[test]
fn message_of_failed_launch_is_the_placeholder() {
    let outcome = LookupOutcome::LaunchFailed { reason: "No such file or directory".to_string() };
    assert_eq!(commit_message(&outcome, None), PLACEHOLDER);
    assert_eq!(commit_message(&outcome, Some(3)), PLACEHOLDER);
}

#[test]
fn report_is_silent_on_success() {
    assert_eq!(failure_report(ID, &exited(true, b"Fix bug", b"")), None);
    assert_eq!(failure_report(ID, &exited(true, b"", b"warning: noise")), None);
}

#[test]
fn report_names_target_and_error_text() {
    let target = format!("{}^{{tree}}", ID);
    let report = failure_report(&target, &exited(false, b"", b"fatal: bad object\n"));
    assert_eq!(
        report,
        Some(format!("Error fetching commit message for {}: fatal: bad object\n", target))
    );
}

#[test]
fn report_decodes_error_text_lossily() {
    let report = failure_report("abc", &exited(false, b"", b"bad \xff"));
    assert_eq!(report, Some("Error fetching commit message for abc: bad \u{fffd}".to_string()));
}

#[test]
fn report_names_target_and_launch_error() {
    let outcome = LookupOutcome::LaunchFailed { reason: "No such file or directory".to_string() };
    assert_eq!(
        failure_report("abc", &outcome),
        Some("Failed to execute git command for abc: No such file or directory".to_string())
    );
}
