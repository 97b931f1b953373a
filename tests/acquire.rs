use tunes::acquire::{
    download_args, next_attempt, temp_download_args, temp_path, temp_url, AttemptOutcome,
    DownloadError, RetryDecision, MAX_ATTEMPTS,
};

fn failing() -> AttemptOutcome {
    AttemptOutcome::Ran { stdout: vec![], stderr: b"ERROR: unavailable".to_vec() }
}

/// Feeds outcomes to the policy until it stops; the attempts made and the end.
fn drive(outcomes: Vec<AttemptOutcome>) -> (u8, RetryDecision) {
    let mut attempt: u8 = 0;
    for o in outcomes {
        attempt += 1;
        match next_attempt(attempt, o) {
            RetryDecision::Retry => continue,
            d => return (attempt, d),
        }
    }
    (attempt, RetryDecision::Retry)
}

#[test]
fn two_failures_then_success() {
    let outcomes = vec![
        AttemptOutcome::LaunchFailed("no such file".to_string()),
        failing(),
        AttemptOutcome::Ran { stdout: b"{\"title\":\"x\"}".to_vec(), stderr: vec![] },
        AttemptOutcome::Ran { stdout: b"never".to_vec(), stderr: vec![] },
    ];
    let (n, d) = drive(outcomes);
    assert_eq!(n, 3);
    match d {
        RetryDecision::Succeed(out) => assert_eq!(out, b"{\"title\":\"x\"}".to_vec()),
        _ => panic!("third attempt succeeds"),
    }
}

#[test]
fn always_diagnostic_gives_up_after_three() {
    let outcomes = vec![failing(), failing(), failing(), failing(), failing()];
    let (n, d) = drive(outcomes);
    assert_eq!(n, MAX_ATTEMPTS);
    match d {
        RetryDecision::Fail(e) => {
            assert!(e.is_client_error());
            assert!(matches!(e, DownloadError::Diagnostic(ref m) if m == b"ERROR: unavailable"));
        }
        _ => panic!("terminal error after the third attempt"),
    }
}

#[test]
fn launch_failure_on_last_attempt_is_a_server_error() {
    let d = next_attempt(3, AttemptOutcome::LaunchFailed("spawn".to_string()));
    match d {
        RetryDecision::Fail(e) => {
            assert!(!e.is_client_error());
            assert!(matches!(e, DownloadError::Launch(ref m) if m == "spawn"));
        }
        _ => panic!("gives up"),
    }
    assert!(matches!(
        next_attempt(2, AttemptOutcome::LaunchFailed("spawn".to_string())),
        RetryDecision::Retry
    ));
}

#[test]
fn first_clean_attempt_succeeds() {
    let d = next_attempt(1, AttemptOutcome::Ran { stdout: vec![7], stderr: vec![] });
    assert!(matches!(d, RetryDecision::Succeed(ref o) if o == &vec![7]));
}

#[test]
fn download_command_line() {
    assert_eq!(
        download_args("https://example.com/v?id=1"),
        vec![
            "-f", "bestaudio/best", "--no-playlist", "--no-warning", "--embed-thumbnail",
            "--embed-metadata", "--print-json", "-x", "--audio-format", "mp3", "-o",
            "music/%(title)s.%(ext)s", "--", "https://example.com/v?id=1",
        ]
    );
}

#[test]
fn temp_download_command_line() {
    assert_eq!(temp_path("abc"), "temp/abc.mp3");
    assert_eq!(temp_url("abc"), "/td/abc.mp3");
    assert_eq!(
        temp_download_args("abc"),
        vec![
            "-f", "bestaudio/best", "--no-playlist", "--no-warning", "-x", "--audio-format",
            "mp3", "-o", "temp/abc.mp3", "--", "abc",
        ]
    );
}
