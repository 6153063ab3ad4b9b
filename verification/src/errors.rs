//! The error types of the library, each with the message it shows.

use vstd::prelude::*;
use vstd::string::StringExecFns;

verus! {

/// The error that the INI reader reports; opaque to the library.
#[verifier::external_type_specification]
#[verifier::external_body]
pub struct ExIniError(ini::Error);

/// Renders an INI error through its `Display` impl. Nothing is claimed of the
/// text.
#[verifier::external_body]
pub(crate) fn ini_error_text(e: &ini::Error) -> (r: String) {
    e.to_string()
}

/// Why a line of operator input could not be read as a command.
#[derive(Debug)]
pub enum CommandLineError {
    /// Reading the line failed; the payload is the cause as text.
    Io(String),
    /// The line held no word at all.
    EmptyCommand,
}

impl CommandLineError {
    /// The message of this error.
    pub open spec fn text(self) -> Seq<char> {
        match self {
            CommandLineError::Io(cause) => "IO error: "@ + cause@,
            CommandLineError::EmptyCommand => "empty command."@,
        }
    }

    /// The message of this error.
    pub fn message(&self) -> (r: String)
        ensures
            r@ == self.text(),
    {
        match self {
            CommandLineError::Io(cause) => String::from_str("IO error: ").concat(cause.as_str()),
            CommandLineError::EmptyCommand => String::from_str("empty command."),
        }
    }
}

/// Why an operator command was refused.
#[derive(Debug, Clone, Copy, PartialEq, Eq, Structural)]
pub enum ExecError {
    /// The command is unknown or lacks an argument.
    InvalidArgs,
    /// The command has the wrong number of arguments.
    InvalidLength,
    /// No program carries the given name.
    ProcessNameNotFound,
}

impl ExecError {
    /// The message of this error.
    pub open spec fn text(self) -> Seq<char> {
        match self {
            ExecError::InvalidArgs => "invalid arguments."@,
            ExecError::InvalidLength => "invalid arguments length."@,
            ExecError::ProcessNameNotFound => "process name not found."@,
        }
    }

    /// The message of this error.
    pub fn message(&self) -> (r: String)
        ensures
            r@ == self.text(),
    {
        match self {
            ExecError::InvalidArgs => String::from_str("invalid arguments."),
            ExecError::InvalidLength => String::from_str("invalid arguments length."),
            ExecError::ProcessNameNotFound => String::from_str("process name not found."),
        }
    }
}

/// Why a configuration was refused.
#[derive(Debug)]
pub enum ConfigParseError {
    /// The text is no INI document.
    IniError(ini::Error),
    /// No configuration file was found.
    FileNotFound,
    /// The named file could not be read.
    PermissionDenied(String),
    /// A section, key or value that the configuration format does not allow.
    UnexpectedValue(String),
    /// A program name that occurs twice.
    DuplicatedValue(String),
    /// The named program section has no command.
    MissingCommand(String),
    /// An internal inconsistency.
    Critical(String),
}

/// The mathematical content of a [`ConfigParseError`].
pub enum Fault {
    Ini,
    FileNotFound,
    PermissionDenied(Seq<char>),
    UnexpectedValue(Seq<char>),
    DuplicatedValue(Seq<char>),
    MissingCommand(Seq<char>),
    Critical(Seq<char>),
}

impl View for ConfigParseError {
    type V = Fault;

    open spec fn view(&self) -> Fault {
        match self {
            ConfigParseError::IniError(_) => Fault::Ini,
            ConfigParseError::FileNotFound => Fault::FileNotFound,
            ConfigParseError::PermissionDenied(s) => Fault::PermissionDenied(s@),
            ConfigParseError::UnexpectedValue(s) => Fault::UnexpectedValue(s@),
            ConfigParseError::DuplicatedValue(s) => Fault::DuplicatedValue(s@),
            ConfigParseError::MissingCommand(s) => Fault::MissingCommand(s@),
            ConfigParseError::Critical(s) => Fault::Critical(s@),
        }
    }
}

impl ConfigParseError {
    /// The fixed text that the message of this error starts with.
    pub open spec fn prefix(self) -> Seq<char> {
        match self {
            ConfigParseError::IniError(_) => "config file parse error: "@,
            ConfigParseError::FileNotFound => "config file not found."@,
            ConfigParseError::PermissionDenied(_) => "cannot read a file: "@,
            ConfigParseError::UnexpectedValue(_) => "unexpected value: "@,
            ConfigParseError::DuplicatedValue(_) => "duplicated value: "@,
            ConfigParseError::MissingCommand(_) => "command is required in program section: "@,
            ConfigParseError::Critical(_) => "error: "@,
        }
    }

    /// What follows the prefix, where the library knows it: the payload.
    pub open spec fn detail(self) -> Option<Seq<char>> {
        match self {
            ConfigParseError::IniError(_) => None,
            ConfigParseError::FileNotFound => Some(Seq::empty()),
            ConfigParseError::PermissionDenied(s) => Some(s@),
            ConfigParseError::UnexpectedValue(s) => Some(s@),
            ConfigParseError::DuplicatedValue(s) => Some(s@),
            ConfigParseError::MissingCommand(s) => Some(s@),
            ConfigParseError::Critical(s) => Some(s@),
        }
    }

    /// The message of this error: its prefix, then its detail. For an INI
    /// error the detail is what the INI reader says.
    pub fn message(&self) -> (r: String)
        ensures
            r@.len() >= self.prefix().len(),
            r@.take(self.prefix().len() as int) == self.prefix(),
            self.detail() matches Some(d) ==> r@ == self.prefix() + d,
    {
        let r = match self {
            ConfigParseError::IniError(e) => {
                let cause = ini_error_text(e);
                String::from_str("config file parse error: ").concat(cause.as_str())
            },
            ConfigParseError::FileNotFound => String::from_str("config file not found."),
            ConfigParseError::PermissionDenied(s) => String::from_str("cannot read a file: ").concat(
                s.as_str(),
            ),
            ConfigParseError::UnexpectedValue(s) => String::from_str("unexpected value: ").concat(
                s.as_str(),
            ),
            ConfigParseError::DuplicatedValue(s) => String::from_str("duplicated value: ").concat(
                s.as_str(),
            ),
            ConfigParseError::MissingCommand(s) => String::from_str(
                "command is required in program section: ",
            ).concat(s.as_str()),
            ConfigParseError::Critical(s) => String::from_str("error: ").concat(s.as_str()),
        };
        proof {
            let p = self.prefix();
            assert(r@.take(p.len() as int) == p);
            if self.detail() is Some {
                assert(r@ == p + self.detail().unwrap());
            }
        }
        r
    }
}

/// Whether `r` refuses a value and reports `value` as the offender.
pub open spec fn refuses<T>(r: Result<T, ConfigParseError>, value: Seq<char>) -> bool {
    r matches Err(e) && e@ == Fault::UnexpectedValue(value)
}

/// Whether `r` is the answer to a reading that met `fault`, or none.
pub open spec fn answers(r: Result<(), ConfigParseError>, fault: Option<Fault>) -> bool {
    match fault {
        None => r is Ok,
        Some(f) => r matches Err(e) && e@ == f,
    }
}

/// Why a program description could not be completed.
#[derive(Debug, Clone, Copy, PartialEq, Eq, Structural)]
pub enum ProgramBuilderError {
    /// No program name was given.
    MissingProgramName,
    /// No command was given, or an empty one.
    MissingCommand,
    /// The number of processes is zero.
    InvalidNumProcs,
    /// The list of expected exit codes is empty.
    MissingExitCodes,
}

impl ProgramBuilderError {
    /// The message of this error.
    pub open spec fn text(self) -> Seq<char> {
        match self {
            ProgramBuilderError::MissingProgramName => "programname is required."@,
            ProgramBuilderError::MissingCommand => "command is required in program section."@,
            ProgramBuilderError::InvalidNumProcs => "numprocs must be at least 1."@,
            ProgramBuilderError::MissingExitCodes => "exitcodes must not be empty."@,
        }
    }

    /// The message of this error.
    pub fn message(&self) -> (r: String)
        ensures
            r@ == self.text(),
    {
        match self {
            ProgramBuilderError::MissingProgramName => String::from_str("programname is required."),
            ProgramBuilderError::MissingCommand => String::from_str(
                "command is required in program section.",
            ),
            ProgramBuilderError::InvalidNumProcs => String::from_str("numprocs must be at least 1."),
            ProgramBuilderError::MissingExitCodes => String::from_str(
                "exitcodes must not be empty.",
            ),
        }
    }
}

} // verus!
