//! The download orchestrator's decisions: the acquisition tool's command
//! line, and the bounded retry policy over the outcomes of its runs.
use vstd::prelude::*;
use vstd::string::*;

verus! {

/// Attempts made before a download is given up.
pub const MAX_ATTEMPTS: u8 = 3;

/// How one run of the acquisition tool ended, as plain values.
pub enum Attempt {
    /// The process could not be started or its output not captured.
    Launch(Seq<char>),
    /// The process ran: its standard output and its diagnostic output.
    Ran(Seq<u8>, Seq<u8>),
}

/// How one run of the acquisition tool ended.
pub enum AttemptOutcome {
    /// The process could not be started; the reason.
    LaunchFailed(String),
    /// The process ran to its end.
    Ran { stdout: Vec<u8>, stderr: Vec<u8> },
}

impl View for AttemptOutcome {
    type V = Attempt;

    open spec fn view(&self) -> Attempt {
        match self {
            AttemptOutcome::LaunchFailed(m) => Attempt::Launch(m@),
            AttemptOutcome::Ran { stdout, stderr } => Attempt::Ran(stdout@, stderr@),
        }
    }
}

/// The decision after one attempt, as plain values.
pub enum Verdict {
    Retry,
    Succeed(Seq<u8>),
    FailDiagnostic(Seq<u8>),
    FailLaunch(Seq<char>),
}

/// A download's terminal error.
#[derive(Debug)]
pub enum DownloadError {
    /// The tool wrote diagnostic output on the last attempt: the input was
    /// most likely at fault.
    Diagnostic(Vec<u8>),
    /// The tool could not be started on the last attempt: a fault of the server.
    Launch(String),
}

impl DownloadError {
    /// Whether the error is the caller's (bad input) rather than the server's.
    pub fn is_client_error(&self) -> (r: bool)
        ensures
            r == (self is Diagnostic),
    {
        match self {
            DownloadError::Diagnostic(_) => true,
            DownloadError::Launch(_) => false,
        }
    }
}

/// What to do after an attempt.
pub enum RetryDecision {
    /// Run the tool again.
    Retry,
    /// The attempt succeeded: the tool's standard output.
    Succeed(Vec<u8>),
    /// Give up with this error.
    Fail(DownloadError),
}

impl View for RetryDecision {
    type V = Verdict;

    open spec fn view(&self) -> Verdict {
        match self {
            RetryDecision::Retry => Verdict::Retry,
            RetryDecision::Succeed(o) => Verdict::Succeed(o@),
            RetryDecision::Fail(DownloadError::Diagnostic(d)) => Verdict::FailDiagnostic(d@),
            RetryDecision::Fail(DownloadError::Launch(m)) => Verdict::FailLaunch(m@),
        }
    }
}

/// The retry policy: an attempt succeeds when the tool ran and wrote no
/// diagnostic output; any other attempt is retried, unless it was the last.
pub open spec fn verdict_of(attempt: nat, a: Attempt) -> Verdict {
    match a {
        Attempt::Ran(out, err) => if err.len() == 0 {
            Verdict::Succeed(out)
        } else if attempt >= MAX_ATTEMPTS {
            Verdict::FailDiagnostic(err)
        } else {
            Verdict::Retry
        },
        Attempt::Launch(m) => if attempt >= MAX_ATTEMPTS {
            Verdict::FailLaunch(m)
        } else {
            Verdict::Retry
        },
    }
}

/// Decides what follows attempt number `attempt` (counted from 1), given
/// how it ended.
pub fn next_attempt(attempt: u8, outcome: AttemptOutcome) -> (r: RetryDecision)
    requires
        1 <= attempt <= MAX_ATTEMPTS,
    ensures
        r@ == verdict_of(attempt as nat, outcome@),
{
    match outcome {
        AttemptOutcome::Ran { stdout, stderr } => {
            if stderr.len() == 0 {
                RetryDecision::Succeed(stdout)
            } else if attempt >= MAX_ATTEMPTS {
                RetryDecision::Fail(DownloadError::Diagnostic(stderr))
            } else {
                RetryDecision::Retry
            }
        },
        AttemptOutcome::LaunchFailed(m) => {
            if attempt >= MAX_ATTEMPTS {
                RetryDecision::Fail(DownloadError::Launch(m))
            } else {
                RetryDecision::Retry
            }
        },
    }
}

/// Runs the policy over the outcomes of successive attempts, starting at
/// attempt number `attempt`: how many attempts are made, and how it ends
/// (`Retry` when the outcomes run out first).
pub open spec fn run_of(outcomes: Seq<Attempt>, attempt: nat) -> (nat, Verdict)
    decreases outcomes.len(),
{
    if outcomes.len() == 0 {
        (0, Verdict::Retry)
    } else {
        let v = verdict_of(attempt, outcomes[0]);
        if v is Retry {
            let (k, w) = run_of(outcomes.drop_first(), attempt + 1);
            (k + 1, w)
        } else {
            (1, v)
        }
    }
}

/// Whether an attempt failed: no launch, or diagnostic output.
pub open spec fn failed(a: Attempt) -> bool {
    match a {
        Attempt::Launch(_) => true,
        Attempt::Ran(_, err) => err.len() > 0,
    }
}

/// Whether the tool ran and wrote diagnostic output.
pub open spec fn diagnostic(a: Attempt) -> bool {
    a matches Attempt::Ran(_, err) && err.len() > 0
}

/// A download never runs the tool more than the fixed number of times, and
/// whenever that many outcomes are at hand it ends, in success or error.
pub proof fn lemma_attempts_bounded(outcomes: Seq<Attempt>)
    ensures
        run_of(outcomes, 1).0 <= MAX_ATTEMPTS,
        outcomes.len() >= MAX_ATTEMPTS ==> !(run_of(outcomes, 1).1 is Retry),
{
    reveal_with_fuel(run_of, 4);
}

/// A tool that fails twice and then succeeds is run exactly three times, and
/// the third run's output is the result.
pub proof fn lemma_third_attempt_succeeds(outcomes: Seq<Attempt>)
    requires
        outcomes.len() >= 3,
        failed(outcomes[0]),
        failed(outcomes[1]),
        outcomes[2] matches Attempt::Ran(_, err) && err.len() == 0,
    ensures
        run_of(outcomes, 1) == (3nat, Verdict::Succeed(
            match outcomes[2] {
                Attempt::Ran(out, _) => out,
                Attempt::Launch(_) => Seq::empty(),
            },
        )),
{
    reveal_with_fuel(run_of, 4);
    assert(outcomes.drop_first().drop_first()[0] == outcomes[2]);
    assert(outcomes.drop_first()[0] == outcomes[1]);
}

/// A tool that always writes diagnostic output is run exactly three times,
/// and the download ends with the third run's diagnostic text.
pub proof fn lemma_always_diagnostic_fails(outcomes: Seq<Attempt>)
    requires
        outcomes.len() >= 3,
        forall|i: int| 0 <= i < outcomes.len() ==> #[trigger] diagnostic(outcomes[i]),
    ensures
        run_of(outcomes, 1) == (3nat, Verdict::FailDiagnostic(
            match outcomes[2] {
                Attempt::Ran(_, err) => err,
                Attempt::Launch(_) => Seq::empty(),
            },
        )),
{
    reveal_with_fuel(run_of, 4);
    assert(outcomes.drop_first().drop_first()[0] == outcomes[2]);
    assert(outcomes.drop_first()[0] == outcomes[1]);
    assert(diagnostic(outcomes[0]));
    assert(diagnostic(outcomes[1]));
    assert(diagnostic(outcomes[2]));
}

/// The acquisition tool's arguments for a download into the track store:
/// best audio, no playlist expansion, no warnings, thumbnail and metadata
/// embedded, one JSON document on standard output, transcoded to mp3, named
/// by title.
pub open spec fn download_args_of(source: Seq<char>) -> Seq<Seq<char>> {
    seq![
        "-f"@,
        "bestaudio/best"@,
        "--no-playlist"@,
        "--no-warning"@,
        "--embed-thumbnail"@,
        "--embed-metadata"@,
        "--print-json"@,
        "-x"@,
        "--audio-format"@,
        "mp3"@,
        "-o"@,
        "music/%(title)s.%(ext)s"@,
        "--"@,
        source,
    ]
}

/// The views of a list of strings.
pub open spec fn string_views(v: Seq<String>) -> Seq<Seq<char>> {
    v.map_values(|s: String| s@)
}

/// Appends a copy of `s` to `v`.
fn push_str(v: &mut Vec<String>, s: &str)
    ensures
        string_views(final(v)@) == string_views(old(v)@).push(s@),
{
    v.push(String::from_str(s));
    assert(string_views(v@) =~= string_views(old(v)@).push(s@));
}

/// The acquisition tool's command line for downloading `source` into the
/// track store.
pub fn download_args(source: &str) -> (r: Vec<String>)
    ensures
        string_views(r@) == download_args_of(source@),
{
    let mut v: Vec<String> = Vec::new();
    assert(string_views(v@) =~= seq![]);
    push_str(&mut v, "-f");
    push_str(&mut v, "bestaudio/best");
    push_str(&mut v, "--no-playlist");
    push_str(&mut v, "--no-warning");
    push_str(&mut v, "--embed-thumbnail");
    push_str(&mut v, "--embed-metadata");
    push_str(&mut v, "--print-json");
    push_str(&mut v, "-x");
    push_str(&mut v, "--audio-format");
    push_str(&mut v, "mp3");
    push_str(&mut v, "-o");
    push_str(&mut v, "music/%(title)s.%(ext)s");
    push_str(&mut v, "--");
    push_str(&mut v, source);
    assert(string_views(v@) =~= download_args_of(source@));
    v
}

/// Path of a preview download in the temp store: `temp/<id>.mp3`.
pub open spec fn temp_path_of(id: Seq<char>) -> Seq<char> {
    "temp/"@ + id + ".mp3"@
}

/// Path of the preview download of `id` in the temp store.
pub fn temp_path(id: &str) -> (r: String)
    ensures
        r@ == temp_path_of(id@),
{
    let mut s = String::from_str("temp/");
    s.append(id);
    s.append(".mp3");
    s
}

/// Address under which the preview download of `id` is served: `/td/<id>.mp3`.
pub fn temp_url(id: &str) -> (r: String)
    ensures
        r@ == "/td/"@ + id@ + ".mp3"@,
{
    let mut s = String::from_str("/td/");
    s.append(id);
    s.append(".mp3");
    s
}

/// The acquisition tool's arguments for a preview download: as for the track
/// store, but without embedding and without JSON, into the temp store.
pub open spec fn temp_download_args_of(id: Seq<char>) -> Seq<Seq<char>> {
    seq![
        "-f"@,
        "bestaudio/best"@,
        "--no-playlist"@,
        "--no-warning"@,
        "-x"@,
        "--audio-format"@,
        "mp3"@,
        "-o"@,
        temp_path_of(id),
        "--"@,
        id,
    ]
}

/// The acquisition tool's command line for a preview download of `id`.
pub fn temp_download_args(id: &str) -> (r: Vec<String>)
    ensures
        string_views(r@) == temp_download_args_of(id@),
{
    let mut v: Vec<String> = Vec::new();
    assert(string_views(v@) =~= seq![]);
    push_str(&mut v, "-f");
    push_str(&mut v, "bestaudio/best");
    push_str(&mut v, "--no-playlist");
    push_str(&mut v, "--no-warning");
    push_str(&mut v, "-x");
    push_str(&mut v, "--audio-format");
    push_str(&mut v, "mp3");
    push_str(&mut v, "-o");
    let p = temp_path(id);
    push_str(&mut v, p.as_str());
    push_str(&mut v, "--");
    push_str(&mut v, id);
    assert(string_views(v@) =~= temp_download_args_of(id@));
    v
}

} // verus!
