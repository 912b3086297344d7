use pass_shell::errors::PassError;
use pass_shell::store::entry_names;
use pass_shell::store::StoreEntry;
use pass_shell::tool::read_command;
use pass_shell::tool::read_outcome;
use pass_shell::tool::remove_command;
use pass_shell::tool::remove_outcome;
use pass_shell::tool::ToolOutput;

#[test]
fn read_command_line() {
    let c = read_command("mail/work".to_string());
    assert_eq!(c.program, "pass");
    assert_eq!(c.args, vec!["mail/work".to_string()]);
}

#[test]
fn remove_command_line() {
    let c = remove_command("mail/work".to_string());
    assert_eq!(c.program, "pass");
    assert_eq!(c.args, vec!["rm".to_string(), "mail/work".to_string()]);
}

#[test]
fn read_returns_decoded_output() {
    let out = ToolOutput { stdout: "hunter2\n".as_bytes().to_vec(), success: true };
    assert_eq!(read_outcome(Ok(out)), Ok("hunter2\n".to_string()));
}

#[test]
fn read_decodes_multibyte_output() {
    let out = ToolOutput { stdout: "clé: épée\n".as_bytes().to_vec(), success: true };
    assert_eq!(read_outcome(Ok(out)), Ok("clé: épée\n".to_string()));
}

#[test]
fn read_of_empty_output_is_empty() {
    let out = ToolOutput { stdout: Vec::new(), success: true };
    assert_eq!(read_outcome(Ok(out)), Ok(String::new()));
}

#[test]
fn read_reports_non_utf8_output_as_typed_error() {
    let out = ToolOutput { stdout: vec![0xff, 0xfe, 0x00], success: true };
    let e = read_outcome(Ok(out)).unwrap_err();
    assert_eq!(e, PassError::NonUtf8Output);
    assert_eq!(
        e.message(),
        "The password tool produced output that is not valid UTF-8"
    );
}

#[test]
fn read_reports_tool_failure_before_output() {
    let out = ToolOutput { stdout: "ignored".as_bytes().to_vec(), success: false };
    let e = read_outcome(Ok(out)).unwrap_err();
    assert_eq!(e, PassError::ToolFailed);
    assert_eq!(e.message(), "The password tool exited with a failure status");
}

#[test]
fn read_reports_launch_failure() {
    let e = read_outcome(Err("No such file or directory".to_string())).unwrap_err();
    assert_eq!(e, PassError::Process("No such file or directory".to_string()));
    assert_eq!(e.message(), "No such file or directory");
}

#[test]
fn remove_succeeds_only_with_the_tool() {
    assert_eq!(remove_outcome(Ok(true)), Ok(()));
}

#[test]
fn remove_of_absent_entry_surfaces_failure() {
    let e = remove_outcome(Ok(false)).unwrap_err();
    assert_eq!(e, PassError::ToolFailed);
}

#[test]
fn remove_reports_launch_failure() {
    let e = remove_outcome(Err("Permission denied".to_string())).unwrap_err();
    assert_eq!(e, PassError::Process("Permission denied".to_string()));
}

#[test]
fn removed_entry_is_absent_from_a_later_listing() {
    let d = "/h/.password-store/";
    let before = vec![
        StoreEntry { path: "/h/.password-store/bank.gpg".to_string(), is_file: true },
        StoreEntry { path: "/h/.password-store/mail.gpg".to_string(), is_file: true },
    ];
    assert!(entry_names(d, &before).contains(&"bank".to_string()));
    assert_eq!(remove_outcome(Ok(true)), Ok(()));
    let after = vec![
        StoreEntry { path: "/h/.password-store/mail.gpg".to_string(), is_file: true },
    ];
    assert!(!entry_names(d, &after).contains(&"bank".to_string()));
    assert_eq!(entry_names(d, &after), vec!["mail".to_string()]);
}
