//! How commands fail.

use vstd::prelude::*;

verus! {

/// Why a command was not carried out.
#[derive(Clone, Debug)]
pub enum CliError {
    /// The caller can mend it: the input or the machine's setup is wrong.
    InvalidArgument { command: String, reason: String },
    /// The input was fine; the machine could not do it.
    Runtime { command: String, reason: String },
    /// It was done, with warnings.
    Degraded { command: String, reason: String },
    /// It is not open yet.
    NotImplemented { command: String, hint: Option<String> },
}

impl CliError {
    /// A refusal as invalid.
    pub open spec fn is_invalid(self, command: Seq<char>, reason: Seq<char>) -> bool {
        self matches CliError::InvalidArgument { command: c, reason: r } && c@ == command && r@
            == reason
    }

    /// A failure of the machine.
    pub open spec fn is_runtime(self, command: Seq<char>, reason: Seq<char>) -> bool {
        self matches CliError::Runtime { command: c, reason: r } && c@ == command && r@ == reason
    }

    /// A success with warnings.
    pub open spec fn is_degraded(self, command: Seq<char>, reason: Seq<char>) -> bool {
        self matches CliError::Degraded { command: c, reason: r } && c@ == command && r@ == reason
    }

    /// A command that is not open yet.
    pub open spec fn is_closed(self, command: Seq<char>, hint: Option<Seq<char>>) -> bool {
        self matches CliError::NotImplemented { command: c, hint: h } && c@ == command && match (
            h,
            hint,
        ) {
            (Some(a), Some(b)) => a@ == b,
            (None, None) => true,
            _ => false,
        }
    }

    /// A command that is not open yet.
    pub fn not_implemented(command: String) -> (r: Self)
        ensures
            r.is_closed(command@, None),
            r matches CliError::NotImplemented { command: c, hint: h } && c@ == command@
                && h is None,
    {
        CliError::NotImplemented { command, hint: None }
    }

    /// A command that is not open yet, with a hint.
    pub fn not_implemented_with_hint(command: String, hint: String) -> (r: Self)
        ensures
            r.is_closed(command@, Some(hint@)),
            r matches CliError::NotImplemented { command: c, hint: h } && c@ == command@
                && h is Some && h->Some_0@ == hint@,
    {
        CliError::NotImplemented { command, hint: Some(hint) }
    }

    /// The code that scripts tell failures apart by.
    pub fn code(&self) -> (r: &'static str)
        requires
            !(self is Degraded),
        ensures
            r@ == (match *self {
                CliError::InvalidArgument { .. } => "INVALID_ARGUMENT"@,
                CliError::Runtime { .. } => "EXECUTION_FAILED"@,
                CliError::Degraded { .. } => Seq::empty(),
                CliError::NotImplemented { .. } => "NOT_IMPLEMENTED"@,
            }),
    {
        match self {
            CliError::InvalidArgument { .. } => "INVALID_ARGUMENT",
            CliError::NotImplemented { .. } => "NOT_IMPLEMENTED",
            _ => "EXECUTION_FAILED",
        }
    }

    /// The exit code of the process: 2 where the caller can mend it, 1 where
    /// the machine failed.
    pub fn exit_code(&self) -> (r: i32)
        requires
            self is InvalidArgument || self is Runtime,
        ensures
            r == (if self is InvalidArgument {
                2int
            } else {
                1
            }),
    {
        match self {
            CliError::InvalidArgument { .. } => 2,
            _ => 1,
        }
    }

    /// Why it failed.
    pub fn reason(&self) -> (r: &str)
        requires
            !(self is NotImplemented),
        ensures
            r@ == (match *self {
                CliError::InvalidArgument { command, reason } => reason@,
                CliError::Runtime { command, reason } => reason@,
                CliError::Degraded { command, reason } => reason@,
                CliError::NotImplemented { .. } => Seq::empty(),
            }),
    {
        match self {
            CliError::InvalidArgument { command: _, reason } => reason.as_str(),
            CliError::Runtime { command: _, reason } => reason.as_str(),
            CliError::Degraded { command: _, reason } => reason.as_str(),
            CliError::NotImplemented { .. } => "",
        }
    }

    /// What can be done about a command that is not open yet.
    pub fn hint(&self) -> (r: Option<&str>)
        requires
            self is NotImplemented,
        ensures
            r is Some <==> self->hint is Some,
            r matches Some(h) ==> h@ == self->hint->Some_0@,
    {
        match self {
            CliError::NotImplemented { command: _, hint } => match hint {
                Some(h) => Some(h.as_str()),
                None => None,
            },
            _ => None,
        }
    }
}

} // verus!
