//! Command-line vocabulary of the client and the daemon.
//!
//! Argument strings come from the surrounding application; the daemon's
//! little flag walk is decided here, exactly as [`spec_daemon_args`] says.

use vstd::prelude::*;
use vstd::string::StringExecFns;

use crate::protocol::{Mode, Target};

verus! {

/// What the client was asked to do.
#[derive(Debug, PartialEq, Eq)]
pub enum Cmd {
    /// Show daemon status.
    Status,
    /// List outputs (monitors).
    Outputs,
    /// Cancel the active capture job.
    Cancel,
    /// Show the floating bar UI.
    Bar { mode: Option<Mode>, output: Option<String> },
    /// Start a region capture.
    Region { output: Option<String> },
    /// Start a full-screen capture.
    Screen { output: Option<String> },
    /// Start a window capture.
    Window,
}

/// The client's parsed command line.
#[derive(Debug)]
pub struct Args {
    pub socket: Option<String>,
    pub verbose: bool,
    pub log_file: Option<String>,
    pub cmd: Cmd,
}

/// An optional output name as a capture target.
pub fn target_from_output_name(output: Option<String>) -> (r: Option<Target>)
    ensures
        (match output {
            Some(name) => r matches Some(t) && t@ == crate::protocol::TargetM::OutputName(name@),
            None => r is None,
        }),
{
    match output {
        Some(name) => Some(Target::OutputName(name)),
        None => None,
    }
}

/// The daemon's parsed command line.
#[derive(Debug, PartialEq, Eq)]
pub struct DaemonArgs {
    pub verbose: bool,
    pub log_file: Option<String>,
}

/// The daemon's flag walk over its arguments (program name excluded):
/// `-v`/`--verbose` turns logging up, `--log-file` takes the next argument
/// as the log path (the last occurrence wins), anything else is ignored.
pub open spec fn spec_daemon_args(
    args: Seq<Seq<char>>,
    i: int,
    verbose: bool,
    log_file: Option<Seq<char>>,
) -> (bool, Option<Seq<char>>)
    decreases args.len() - i,
{
    if i < 0 || i >= args.len() {
        (verbose, log_file)
    } else if args[i] == "-v"@ || args[i] == "--verbose"@ {
        spec_daemon_args(args, i + 1, true, log_file)
    } else if args[i] == "--log-file"@ {
        if i + 1 < args.len() {
            spec_daemon_args(args, i + 2, verbose, Some(args[i + 1]))
        } else {
            (verbose, log_file)
        }
    } else {
        spec_daemon_args(args, i + 1, verbose, log_file)
    }
}

/// Parse the daemon's arguments (program name excluded).
pub fn parse_daemon_args(args: &Vec<String>) -> (r: DaemonArgs)
    ensures
        ({
            let (verbose, log_file) = spec_daemon_args(
                args@.map_values(|s: String| s@),
                0,
                false,
                None,
            );
            &&& r.verbose == verbose
            &&& (match r.log_file {
                Some(p) => log_file == Some(p@),
                None => log_file is None,
            })
        }),
{
    let ghost m = args@.map_values(|s: String| s@);
    let mut verbose = false;
    let mut log_file: Option<String> = None;
    let mut i: usize = 0;
    while i < args.len()
        invariant
            0 <= i <= args@.len(),
            m == args@.map_values(|s: String| s@),
            m.len() == args@.len(),
            ({
                let lf = match log_file {
                    Some(p) => Some(p@),
                    None => None::<Seq<char>>,
                };
                spec_daemon_args(m, 0, false, None) == spec_daemon_args(
                    m,
                    i as int,
                    verbose,
                    lf,
                )
            }),
        decreases args@.len() - i,
    {
        proof {
            assert(m[i as int] == args@[i as int]@);
            if i as int + 1 < m.len() {
                assert(m[i as int + 1] == args@[i as int + 1]@);
            }
        }
        let arg = &args[i];
        if *arg == String::from_str("-v") || *arg == String::from_str("--verbose") {
            verbose = true;
            i += 1;
        } else if *arg == String::from_str("--log-file") {
            if i + 1 < args.len() {
                log_file = Some(args[i + 1].clone());
                i += 2;
            } else {
                i = args.len();
            }
        } else {
            i += 1;
        }
    }
    DaemonArgs { verbose, log_file }
}

} // verus!
