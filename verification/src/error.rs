use vstd::prelude::*;

verus! {

/// Why a script is rejected.
#[derive(Debug)]
pub enum AmeError {
    /// A word names a language code that no language clause declared before it.
    InvalidLanguageCode(String),
    /// A relation names a variable that no word declaration defined before it.
    UndefinedVariable(String),
    /// The port of the setup clause is not a number from 0 to 65535.
    InvalidPort(String),
    /// The parse tree lacks a node that the grammar always produces: the value
    /// of a setting, or one of the two operands of a relation.
    MalformedTree,
}

/// What a rejected script is told.
pub open spec fn error_message(e: AmeError) -> Seq<char> {
    match e {
        AmeError::InvalidLanguageCode(c) => "ERROR: Invalid language code "@ + c@
            + " not declared in the Language clause."@,
        AmeError::UndefinedVariable(v) => "ERROR: variable "@ + v@ + " is used before being defined."@,
        AmeError::InvalidPort(p) => "ERROR: Invalid port "@ + p@ + " in the setup clause."@,
        AmeError::MalformedTree => "ERROR: The parse tree lacks a node that the grammar produces."@,
    }
}

impl AmeError {
    /// The message that tells why the script is rejected.
    pub fn message(&self) -> (s: String)
        ensures
            s@ == error_message(*self),
    {
        match self {
            AmeError::InvalidLanguageCode(c) => {
                let mut s = String::from_str("ERROR: Invalid language code ");
                s.append(c.as_str());
                s.append(" not declared in the Language clause.");
                s
            },
            AmeError::UndefinedVariable(v) => {
                let mut s = String::from_str("ERROR: variable ");
                s.append(v.as_str());
                s.append(" is used before being defined.");
                s
            },
            AmeError::InvalidPort(p) => {
                let mut s = String::from_str("ERROR: Invalid port ");
                s.append(p.as_str());
                s.append(" in the setup clause.");
                s
            },
            AmeError::MalformedTree => String::from_str(
                "ERROR: The parse tree lacks a node that the grammar produces.",
            ),
        }
    }
}

} // verus!
