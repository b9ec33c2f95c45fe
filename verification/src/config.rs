//! What the program is told at start-up about where its own log goes.

use vstd::prelude::*;

verus! {

/// A path in the file system. Nothing here looks inside one.
#[verifier::external_type_specification]
#[verifier::external_body]
pub struct ExPathBuf(std::path::PathBuf);

/// A place that the program's own log can be written to.
#[derive(Clone, Copy, Debug, PartialEq, Eq, Structural)]
pub enum LogTarget {
    /// The file named by [`LogConfig::file_path`].
    File,
    Stdout,
    Stderr,
}

/// Where the program's own log goes, and how much of it.
#[derive(Debug)]
pub struct LogConfig {
    /// A file to append the log to.
    pub file_path: Option<std::path::PathBuf>,
    /// Whether the log is written to standard output.
    pub emit_stdout: bool,
    /// Whether the log is written to standard error.
    pub emit_stderr: bool,
    /// The filter directives, such as `info` or `heracles=debug`.
    pub log_filters: String,
}

/// The places that a configuration sends the log to: the file first if
/// one is named, then standard output, then standard error.
pub open spec fn targets_spec(to_file: bool, to_stdout: bool, to_stderr: bool) -> Seq<LogTarget> {
    (if to_file {
        seq![LogTarget::File]
    } else {
        Seq::empty()
    }) + (if to_stdout {
        seq![LogTarget::Stdout]
    } else {
        Seq::empty()
    }) + (if to_stderr {
        seq![LogTarget::Stderr]
    } else {
        Seq::empty()
    })
}

impl LogConfig {
    /// Without a word from the user, messages from `info` upwards are kept.
    #[must_use]
    pub fn default_log_filters() -> (filters: String)
        ensures
            filters@ == "info"@,
    {
        "info".to_owned()
    }

    /// Without a word from the user, no file is written.
    #[must_use]
    pub fn default_file_path() -> (path: Option<std::path::PathBuf>)
        ensures
            path.is_none(),
    {
        None
    }

    /// Without a word from the user, the log goes to standard output.
    #[must_use]
    pub fn default_emit_stdout() -> (emit: bool)
        ensures
            emit,
    {
        true
    }

    /// Without a word from the user, nothing goes to standard error.
    #[must_use]
    pub fn default_emit_stderr() -> (emit: bool)
        ensures
            !emit,
    {
        false
    }

    /// The places that the log is sent to, in the order in which they are
    /// set up.
    pub fn targets(&self) -> (targets: Vec<LogTarget>)
        ensures
            targets@ == targets_spec(self.file_path.is_some(), self.emit_stdout, self.emit_stderr),
    {
        let mut targets: Vec<LogTarget> = Vec::new();
        if self.file_path.is_some() {
            targets.push(LogTarget::File);
        }
        if self.emit_stdout {
            targets.push(LogTarget::Stdout);
        }
        if self.emit_stderr {
            targets.push(LogTarget::Stderr);
        }
        assert(targets@ =~= targets_spec(
            self.file_path.is_some(),
            self.emit_stdout,
            self.emit_stderr,
        ));
        targets
    }
}

impl Default for LogConfig {
    fn default() -> (config: Self)
        ensures
            config.file_path.is_none(),
            config.emit_stdout,
            !config.emit_stderr,
            config.log_filters@ == "info"@,
    {
        LogConfig {
            file_path: Self::default_file_path(),
            emit_stdout: Self::default_emit_stdout(),
            emit_stderr: Self::default_emit_stderr(),
            log_filters: Self::default_log_filters(),
        }
    }
}

/// The whole configuration.
#[derive(Debug)]
pub struct Config {
    pub log: LogConfig,
}

impl Default for Config {
    fn default() -> (config: Self)
        ensures
            config.log.file_path.is_none(),
            config.log.emit_stdout,
            !config.log.emit_stderr,
            config.log.log_filters@ == "info"@,
    {
        Config { log: LogConfig::default() }
    }
}

impl Config {
    /// Picks the configuration file among the places searched, given for
    /// each place what looking there showed: `Some(true)` where a file is
    /// there, `Some(false)` where none is, `None` where looking failed. The
    /// first place with a file is taken. Where there is none, the caller
    /// falls back on the default place.
    pub fn pick_config_file(probes: &Vec<Option<bool>>) -> (found: Option<usize>)
        ensures
            match found {
                Some(i) => i < probes@.len() && probes@[i as int] == Some(true) && forall|j: int|
                    0 <= j < i ==> probes@[j] != Some(true),
                None => forall|j: int| 0 <= j < probes@.len() ==> probes@[j] != Some(true),
            },
    {
        let mut i: usize = 0;
        while i < probes.len()
            invariant
                i <= probes@.len(),
                forall|j: int| 0 <= j < i ==> probes@[j] != Some(true),
            decreases probes@.len() - i,
        {
            match probes[i] {
                Some(true) => {
                    return Some(i);
                },
                _ => {},
            }
            i += 1;
        }
        None
    }
}

} // verus!
