//! The arguments of the put tool, the rules that reject a combination of
//! them, and what is left to write when a run ends.
use vstd::prelude::*;
use crate::error_tracker::{serialize, ErrorTracker};
use crate::session::CommandOptions;

verus! {

/// The arguments of the put tool.
pub struct Cli {
    pub verbose: bool,
    pub lyrics: bool,
    pub keep_going: bool,
    pub error_files: Option<String>,
    pub retry_file: Option<String>,
    pub dest: String,
    pub playlists: Vec<String>,
}

/// A combination of arguments that the put tool refuses.
#[derive(Debug, PartialEq, Eq, Structural)]
pub enum ArgumentError {
    /// A failure log was asked for without keep-going, outside a retry.
    ErrorFilesWithoutKeepGoing,
    /// The log to retry and the log to write are the same file.
    SameRetryAndErrorFile,
}

/// The view of an optional string.
pub open spec fn opt_view(o: Option<String>) -> Option<Seq<char>> {
    match o {
        Some(s) => Some(s@),
        None => None,
    }
}

/// A failure log needs keep-going, unless the run is a retry.
pub open spec fn error_files_refused(cli: Cli) -> bool {
    cli.error_files is Some && !cli.keep_going && cli.retry_file is None
}

/// The log to retry may not be the log to write.
pub open spec fn same_file_refused(cli: Cli) -> bool {
    cli.error_files is Some && cli.retry_file is Some && opt_view(cli.error_files) == opt_view(
        cli.retry_file,
    )
}

impl ArgumentError {
    /// The message that explains the refusal.
    pub fn message(&self) -> (r: String)
        ensures
            r@ == match self {
                ArgumentError::ErrorFilesWithoutKeepGoing => "--error-files can only be used with --keep-going"@,
                ArgumentError::SameRetryAndErrorFile => "--retry and --error-files cannot specify the same file"@,
            },
    {
        let mut r = String::new();
        match self {
            ArgumentError::ErrorFilesWithoutKeepGoing => {
                crate::text::push_str(&mut r, "--error-files can only be used with --keep-going");
            },
            ArgumentError::SameRetryAndErrorFile => {
                crate::text::push_str(
                    &mut r,
                    "--retry and --error-files cannot specify the same file",
                );
            },
        }
        r
    }
}

/// The arguments, unless a rule refuses them: a failure log needs
/// keep-going outside a retry, and the log to retry and the log to write
/// must differ.
pub fn handle_arguments(cli: Cli) -> (r: Result<Cli, ArgumentError>)
    ensures
        error_files_refused(cli) ==> r == Err::<Cli, ArgumentError>(
            ArgumentError::ErrorFilesWithoutKeepGoing,
        ),
        !error_files_refused(cli) && same_file_refused(cli) ==> r == Err::<Cli, ArgumentError>(
            ArgumentError::SameRetryAndErrorFile,
        ),
        !error_files_refused(cli) && !same_file_refused(cli) ==> r == Ok::<Cli, ArgumentError>(cli),
{
    if cli.error_files.is_some() && !cli.keep_going && cli.retry_file.is_none() {
        return Err(ArgumentError::ErrorFilesWithoutKeepGoing);
    }
    let same = match (&cli.retry_file, &cli.error_files) {
        (Some(a), Some(b)) => *a == *b,
        _ => false,
    };
    if same {
        return Err(ArgumentError::SameRetryAndErrorFile);
    }
    Ok(cli)
}

impl CommandOptions {
    /// The options that the arguments ask for.
    pub fn from_cli(cli: &Cli) -> (r: Self)
        ensures
            r.verbose == cli.verbose,
            r.copy_lyrics == cli.lyrics,
            r.keep_going == cli.keep_going,
    {
        CommandOptions { verbose: cli.verbose, copy_lyrics: cli.lyrics, keep_going: cli.keep_going }
    }
}

/// What to write when the run ends: where a failure log was asked for and
/// failures were tracked, its path and its text.
pub fn perform_cleanup(cli: &Cli, error_tracker: Option<ErrorTracker>) -> (r: Option<(String, String)>)
    ensures
        r is Some <==> (cli.error_files is Some && error_tracker is Some),
        r matches Some(w) ==> {
            &&& opt_view(cli.error_files) == Some(w.0@)
            &&& w.1@ == serialize(error_tracker->0@)
        },
{
    match (&cli.error_files, error_tracker) {
        (Some(path), Some(tracker)) => Some((path.clone(), tracker.log_text())),
        _ => None,
    }
}

/// The message for a failure log that could not be created.
pub fn log_create_error(path: &str) -> (r: String)
    ensures
        r@ == "Failed to create error log file: "@ + path@,
{
    let mut r = String::new();
    crate::text::push_str(&mut r, "Failed to create error log file: ");
    crate::text::push_str(&mut r, path);
    r
}

/// The message for a failure log that could not be written.
pub fn log_write_error(path: &str) -> (r: String)
    ensures
        r@ == "Failed to write error log file: "@ + path@,
{
    let mut r = String::new();
    crate::text::push_str(&mut r, "Failed to write error log file: ");
    crate::text::push_str(&mut r, path);
    r
}

} // verus!
