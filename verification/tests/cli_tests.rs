use projectpad::cli::{
    check_db_version, clipboard_tool, decimal_text, plan_command, plan_words, ClipboardTool,
    CommandPlan, VersionError, MAX_SUPPORTED_DB_SCHEMA_VERSION, MIN_SUPPORTED_DB_SCHEMA_VERSION,
};

#[test]
fn supported_version_is_accepted() {
    assert_eq!(MIN_SUPPORTED_DB_SCHEMA_VERSION, 21);
    assert_eq!(MAX_SUPPORTED_DB_SCHEMA_VERSION, 21);
    assert_eq!(check_db_version(21), Ok(()));
}

#[test]
fn older_version_is_refused() {
    assert_eq!(check_db_version(20), Err(VersionError::TooOld(20)));
    assert_eq!(check_db_version(i32::MIN), Err(VersionError::TooOld(i32::MIN)));
}

#[test]
fn newer_version_is_refused() {
    assert_eq!(check_db_version(22), Err(VersionError::TooNew(22)));
}

#[test]
fn version_messages_name_the_version() {
    assert_eq!(
        VersionError::TooOld(19).message(),
        "The database version (19), is older than the oldest version supported by this application. Please upgrade the main projectpad application."
    );
    assert_eq!(
        VersionError::TooNew(105).message(),
        "The database version (105), is newer than the newest version supported by this application. Please upgrade this CLI application."
    );
}

#[test]
fn decimal_text_writes_integers() {
    assert_eq!(decimal_text(0), "0");
    assert_eq!(decimal_text(7), "7");
    assert_eq!(decimal_text(10), "10");
    assert_eq!(decimal_text(-45), "-45");
    assert_eq!(decimal_text(i32::MAX), "2147483647");
    assert_eq!(decimal_text(i32::MIN), "-2147483648");
}

#[test]
fn command_line_is_split_like_a_shell() {
    assert_eq!(
        plan_command("ssh -p 2222 'my host' \"a b\""),
        CommandPlan::Run {
            program: "ssh".to_string(),
            args: vec!["-p".to_string(), "2222".to_string(), "my host".to_string(), "a b".to_string()],
        }
    );
}

#[test]
fn command_without_arguments() {
    assert_eq!(
        plan_command("htop"),
        CommandPlan::Run { program: "htop".to_string(), args: vec![] }
    );
}

#[test]
fn empty_command_line_runs_nothing() {
    assert_eq!(plan_command(""), CommandPlan::Nothing);
    assert_eq!(plan_command("   "), CommandPlan::Nothing);
    assert_eq!(plan_command("# only a comment"), CommandPlan::Nothing);
}

#[test]
fn open_quote_is_unparsable() {
    assert_eq!(plan_command("echo 'abc"), CommandPlan::Unparsable);
}

#[test]
fn plan_words_takes_the_first_word_as_program() {
    assert_eq!(plan_words(None), CommandPlan::Unparsable);
    assert_eq!(plan_words(Some(vec![])), CommandPlan::Nothing);
    assert_eq!(
        plan_words(Some(vec!["a".to_string(), "b".to_string(), "c".to_string()])),
        CommandPlan::Run { program: "a".to_string(), args: vec!["b".to_string(), "c".to_string()] }
    );
}

#[test]
fn clipboard_tool_prefers_wayland() {
    assert_eq!(clipboard_tool(true, true), ClipboardTool::WlCopy);
    assert_eq!(clipboard_tool(true, false), ClipboardTool::WlCopy);
    assert_eq!(clipboard_tool(false, true), ClipboardTool::Xsel);
    assert_eq!(clipboard_tool(false, false), ClipboardTool::Unavailable);
}
