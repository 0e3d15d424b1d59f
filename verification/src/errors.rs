//! The error and warning taxonomy of the tool.
//!
//! Errors abort the current command; warnings are reported and execution
//! continues.  Both render themselves to plain message strings, and the
//! exact text of every message is pinned by a specification function.

use vstd::prelude::*;
use vstd::string::StringExecFns;

verus! {

/// One structured failure unit extracted from the external tool's diagnostic
/// stream: a title line plus zero or more detail lines.
#[derive(Debug, Clone, PartialEq, Eq)]
pub struct ErrorRecord {
    pub title: String,
    pub details: Vec<String>,
}

/// The mathematical shape of an [`ErrorRecord`].
pub struct ErrorRecordView {
    pub title: Seq<char>,
    pub details: Seq<Seq<char>>,
}

impl View for ErrorRecord {
    type V = ErrorRecordView;

    open spec fn view(&self) -> ErrorRecordView {
        ErrorRecordView { title: self.title@, details: self.details.deep_view() }
    }
}

impl DeepView for ErrorRecord {
    type V = ErrorRecordView;

    open spec fn deep_view(&self) -> ErrorRecordView {
        self.view()
    }
}

/// A fatal (per command) failure.
#[derive(Debug, Clone, PartialEq, Eq)]
pub enum Error {
    /// A filesystem or subprocess-spawn failure: the file or stream involved,
    /// the operating system's message, and the code the process should exit with.
    Io { file: String, message: String, code: i32 },
    /// A classified failure reported by the external tool.
    Nix(ErrorRecord),
    /// No configuration directory was given and none could be discovered.
    NoConfig,
    /// Adding a flake whose name is already tracked.
    TrackedFlake(String),
    /// Enabling, disabling or inspecting a flake that is not tracked.
    MissingFlake(String),
    /// Updating a flake that is not tracked.
    NoFlake(String),
    /// An internal error, such as a malformed configuration file.
    Internal(String),
}

/// The mathematical shape of an [`Error`].
pub enum ErrorV {
    Io { file: Seq<char>, message: Seq<char>, code: i32 },
    Nix(ErrorRecordView),
    NoConfig,
    TrackedFlake(Seq<char>),
    MissingFlake(Seq<char>),
    NoFlake(Seq<char>),
    Internal(Seq<char>),
}

impl View for Error {
    type V = ErrorV;

    open spec fn view(&self) -> ErrorV {
        match self {
            Error::Io { file, message, code } => ErrorV::Io {
                file: file@,
                message: message@,
                code: *code,
            },
            Error::Nix(r) => ErrorV::Nix(r@),
            Error::NoConfig => ErrorV::NoConfig,
            Error::TrackedFlake(n) => ErrorV::TrackedFlake(n@),
            Error::MissingFlake(n) => ErrorV::MissingFlake(n@),
            Error::NoFlake(n) => ErrorV::NoFlake(n@),
            Error::Internal(m) => ErrorV::Internal(m@),
        }
    }
}

impl DeepView for Error {
    type V = ErrorV;

    open spec fn deep_view(&self) -> ErrorV {
        self.view()
    }
}

/// A non-fatal anomaly, reported to the user without stopping the command.
#[derive(Debug, Clone, PartialEq, Eq)]
pub enum Warning {
    /// Enabling a flake that is already enabled.
    AlreadyEnabled(String),
    /// Disabling a flake that is already disabled.
    AlreadyDisabled(String),
    /// Removing a flake that is not tracked.
    NotTracked(String),
    /// A record in the configuration file repeats an already-seen name; the
    /// later record is ignored and its location reported.
    DuplicateOnLoad { name: String, discarded: String },
    /// An unstructured diagnostic line from the external tool.
    Diagnostic(String),
}

/// The mathematical shape of a [`Warning`].
pub enum WarningV {
    AlreadyEnabled(Seq<char>),
    AlreadyDisabled(Seq<char>),
    NotTracked(Seq<char>),
    DuplicateOnLoad { name: Seq<char>, discarded: Seq<char> },
    Diagnostic(Seq<char>),
}

impl View for Warning {
    type V = WarningV;

    open spec fn view(&self) -> WarningV {
        match self {
            Warning::AlreadyEnabled(n) => WarningV::AlreadyEnabled(n@),
            Warning::AlreadyDisabled(n) => WarningV::AlreadyDisabled(n@),
            Warning::NotTracked(n) => WarningV::NotTracked(n@),
            Warning::DuplicateOnLoad { name, discarded } => WarningV::DuplicateOnLoad {
                name: name@,
                discarded: discarded@,
            },
            Warning::Diagnostic(l) => WarningV::Diagnostic(l@),
        }
    }
}

impl DeepView for Warning {
    type V = WarningV;

    open spec fn deep_view(&self) -> WarningV {
        self.view()
    }
}

/// The detail lines of a record, each preceded by a line break.
pub open spec fn spec_detail_tail(details: Seq<Seq<char>>) -> Seq<char>
    decreases details.len(),
{
    if details.len() == 0 {
        Seq::empty()
    } else {
        "\n"@ + details[0] + spec_detail_tail(details.drop_first())
    }
}

/// The message of a classified record: its title, then its detail lines.
pub open spec fn spec_record_msg(r: ErrorRecordView) -> Seq<char> {
    r.title + spec_detail_tail(r.details)
}

/// The message text of each error.
pub open spec fn spec_error_msg(e: ErrorV) -> Seq<char> {
    match e {
        ErrorV::Io { file, message, .. } => file + ": "@ + message,
        ErrorV::Nix(r) => spec_record_msg(r),
        ErrorV::NoConfig => "no user provided configuration and unable to find the system default location"@,
        ErrorV::TrackedFlake(n) => "flake `"@ + n + "` is already tracked"@,
        ErrorV::MissingFlake(n) => "flake `"@ + n + "` is not tracked"@,
        ErrorV::NoFlake(n) => "no flake named `"@ + n + "`"@,
        ErrorV::Internal(m) => "internal: "@ + m,
    }
}

/// The process exit code an error asks for: the operating system's code for
/// an I/O failure, and 1 for every other fatal category.
pub open spec fn spec_exit_code(e: ErrorV) -> i32 {
    match e {
        ErrorV::Io { code, .. } => code,
        _ => 1,
    }
}

/// The message text of each warning.  Diagnostic lines from the external
/// tool are attributed to it by a `nix: ` prefix.
pub open spec fn spec_warning_msg(w: WarningV) -> Seq<char> {
    match w {
        WarningV::AlreadyEnabled(n) => "flake `"@ + n + "` is already enabled"@,
        WarningV::AlreadyDisabled(n) => "flake `"@ + n + "` is already disabled"@,
        WarningV::NotTracked(n) => "flake `"@ + n + "` does not exists"@,
        WarningV::DuplicateOnLoad { name, discarded } => "flake `"@ + name
            + "` is present several time in the file. \""@ + discarded + "\" has been ignored."@,
        WarningV::Diagnostic(l) => "nix: "@ + l,
    }
}

impl ErrorRecord {
    /// The record's lines joined by line breaks: the title first, then each
    /// detail line.
    pub fn msg(&self) -> (m: String)
        ensures
            m@ == spec_record_msg(self@),
    {
        let mut m = self.title.clone();
        let ghost details: Seq<Seq<char>> = self@.details;
        let mut i: usize = 0;
        proof {
            assert(details.skip(0) =~= details);
        }
        while i < self.details.len()
            invariant
                i <= self.details.len(),
                details == self@.details,
                details.len() == self.details.len(),
                spec_record_msg(self@) == m@ + spec_detail_tail(details.skip(i as int)),
            decreases self.details.len() - i,
        {
            proof {
                assert(details.skip(i as int).drop_first() =~= details.skip(i + 1));
                assert(details.skip(i as int)[0] == details[i as int]);
            }
            m.append("\n");
            m.append(self.details[i].as_str());
            i += 1;
        }
        proof {
            assert(details.skip(i as int) =~= Seq::<Seq<char>>::empty());
        }
        m
    }
}

impl Error {
    /// The user-facing message of this error.
    pub fn msg(&self) -> (m: String)
        ensures
            m@ == spec_error_msg(self@),
    {
        match self {
            Error::Io { file, message, .. } => {
                let mut m = file.clone();
                m.append(": ");
                m.append(message.as_str());
                m
            }
            Error::Nix(r) => r.msg(),
            Error::NoConfig => String::from_str(
                "no user provided configuration and unable to find the system default location",
            ),
            Error::TrackedFlake(n) => {
                let mut m = String::from_str("flake `");
                m.append(n.as_str());
                m.append("` is already tracked");
                m
            }
            Error::MissingFlake(n) => {
                let mut m = String::from_str("flake `");
                m.append(n.as_str());
                m.append("` is not tracked");
                m
            }
            Error::NoFlake(n) => {
                let mut m = String::from_str("no flake named `");
                m.append(n.as_str());
                m.append("`");
                m
            }
            Error::Internal(msg) => {
                let mut m = String::from_str("internal: ");
                m.append(msg.as_str());
                m
            }
        }
    }

    /// The exit code this error asks the process to terminate with.
    pub fn exit_code(&self) -> (c: i32)
        ensures
            c == spec_exit_code(self@),
    {
        match self {
            Error::Io { code, .. } => *code,
            _ => 1,
        }
    }
}

impl Warning {
    /// The user-facing message of this warning.
    pub fn msg(&self) -> (m: String)
        ensures
            m@ == spec_warning_msg(self@),
    {
        match self {
            Warning::AlreadyEnabled(n) => {
                let mut m = String::from_str("flake `");
                m.append(n.as_str());
                m.append("` is already enabled");
                m
            }
            Warning::AlreadyDisabled(n) => {
                let mut m = String::from_str("flake `");
                m.append(n.as_str());
                m.append("` is already disabled");
                m
            }
            Warning::NotTracked(n) => {
                let mut m = String::from_str("flake `");
                m.append(n.as_str());
                m.append("` does not exists");
                m
            }
            Warning::DuplicateOnLoad { name, discarded } => {
                let mut m = String::from_str("flake `");
                m.append(name.as_str());
                m.append("` is present several time in the file. \"");
                m.append(discarded.as_str());
                m.append("\" has been ignored.");
                m
            }
            Warning::Diagnostic(l) => {
                let mut m = String::from_str("nix: ");
                m.append(l.as_str());
                m
            }
        }
    }
}

} // verus!
