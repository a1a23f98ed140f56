use website::process::{command_output, describe_command, ProcessError};

#[test]
fn describes_program_and_quoted_args() {
    let args = vec!["clone".to_string(), "https://x/y.git".to_string(), "/s/y".to_string()];
    assert_eq!(describe_command("git", &args), "git 'clone' 'https://x/y.git' '/s/y'");
}

#[test]
fn describes_program_without_args() {
    assert_eq!(describe_command("hugo", &vec![]), "hugo ");
}

#[test]
fn describes_single_arg() {
    assert_eq!(describe_command("git", &vec!["status".to_string()]), "git 'status'");
}

#[test]
fn successful_command_yields_stdout() {
    assert_eq!(command_output(true, b"commit\n".to_vec(), b"warn".to_vec()), Ok("commit\n".to_string()));
}

#[test]
fn failed_command_yields_stderr() {
    assert_eq!(
        command_output(false, b"out".to_vec(), b"fatal: bad".to_vec()),
        Err(ProcessError::Failed("fatal: bad".to_string()))
    );
}

#[test]
fn output_that_is_not_utf8_is_refused() {
    assert_eq!(command_output(true, vec![0xff, 0xfe], vec![]), Err(ProcessError::StdoutNotUtf8));
    assert_eq!(command_output(false, vec![], vec![0xc3]), Err(ProcessError::StderrNotUtf8));
}

#[test]
fn output_decodes_multibyte_text() {
    assert_eq!(command_output(true, "grüße".as_bytes().to_vec(), vec![]), Ok("grüße".to_string()));
}
