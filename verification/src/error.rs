//! What can go wrong while decoding.

use vstd::prelude::*;
use vstd::string::StringExecFns;

verus! {

/// The operation during which a decoding failure arose.
#[derive(Clone, Copy, Debug, PartialEq, Eq, Structural)]
pub enum Stage {
    /// Decoding the value of an attribute of the given kind.
    Value(u16),
    /// Decoding the attributes of a message.
    Attributes,
}

/// A failure to decode.
#[derive(Debug, PartialEq, Eq)]
pub enum TaskStatsError {
    /// The command byte stands for no command of the family.
    UnknownCommand(u8),
    /// The kind of an attribute is none of the set that is being decoded.
    UnknownKind(u16),
    /// A value of fixed width has another length than that width.
    InvalidLength { expected: usize, found: usize },
    /// A string value does not end in the NUL that ends every string on the wire.
    MissingTerminator,
    /// A string value is not UTF-8.
    InvalidUtf8,
    /// A buffer is shorter than the fixed layout that is read from it.
    BufferTooShort { needed: usize, found: usize },
    /// The header of an attribute does not fit its buffer: the buffer ends inside
    /// the header or before the length that the header declares, or that length
    /// is shorter than the header itself.
    MalformedNla,
    /// A failure together with the operation during which it arose.
    Context { stage: Stage, cause: Box<TaskStatsError> },
}

/// The character that stands for a digit below ten.
pub open spec fn digit(d: nat) -> char {
    if d == 0 {
        '0'
    } else if d == 1 {
        '1'
    } else if d == 2 {
        '2'
    } else if d == 3 {
        '3'
    } else if d == 4 {
        '4'
    } else if d == 5 {
        '5'
    } else if d == 6 {
        '6'
    } else if d == 7 {
        '7'
    } else if d == 8 {
        '8'
    } else {
        '9'
    }
}

/// A number in decimal, without leading zeros.
pub open spec fn decimal(n: nat) -> Seq<char>
    decreases n,
{
    if n < 10 {
        seq![digit(n)]
    } else {
        decimal(n / 10).push(digit(n % 10))
    }
}

/// `u64::to_string`: the number in decimal, without sign or leading zeros.
#[verifier::external_body]
fn decimal_string(n: u64) -> (text: String)
    ensures
        text@ == decimal(n as nat),
{
    n.to_string()
}

impl Stage {
    /// What a failure of this stage is called in a message.
    pub open spec fn text(self) -> Seq<char> {
        match self {
            Stage::Value(kind) => "invalid value of attribute "@ + decimal(kind as nat),
            Stage::Attributes => "failed to parse control message attributes"@,
        }
    }

    /// What a failure of this stage is called in a message.
    pub fn message(&self) -> (text: String)
        ensures
            text@ == self.text(),
    {
        match self {
            Stage::Value(kind) => {
                let mut text = String::from_str("invalid value of attribute ");
                let number = decimal_string(*kind as u64);
                text.append(number.as_str());
                text
            },
            Stage::Attributes => String::from_str("failed to parse control message attributes"),
        }
    }
}

impl TaskStatsError {
    /// The message of this failure: what went wrong, with the number that was
    /// refused or the lengths that did not fit, and before it, for a failure
    /// with a cause, the stage that failed.
    pub open spec fn text(self) -> Seq<char>
        decreases self,
    {
        match self {
            TaskStatsError::UnknownCommand(cmd) => "Unknown taskstat command: "@ + decimal(
                cmd as nat,
            ),
            TaskStatsError::UnknownKind(kind) => "Unknown NLA type: "@ + decimal(kind as nat),
            TaskStatsError::InvalidLength { expected, found } => "invalid length: "@ + decimal(
                found as nat,
            ) + " bytes, expected "@ + decimal(expected as nat),
            TaskStatsError::MissingTerminator => "string without its terminating NUL"@,
            TaskStatsError::InvalidUtf8 => "invalid string"@,
            TaskStatsError::BufferTooShort { needed, found } => "buffer has length "@ + decimal(
                found as nat,
            ) + ", but the record is "@ + decimal(needed as nat) + " bytes"@,
            TaskStatsError::MalformedNla => "invalid NLA buffer"@,
            TaskStatsError::Context { stage, cause } => stage.text() + ": "@ + cause.text(),
        }
    }

    /// The message of this failure.
    pub fn message(&self) -> (text: String)
        ensures
            text@ == self.text(),
        decreases self,
    {
        match self {
            TaskStatsError::UnknownCommand(cmd) => {
                let mut text = String::from_str("Unknown taskstat command: ");
                text.append(decimal_string(*cmd as u64).as_str());
                text
            },
            TaskStatsError::UnknownKind(kind) => {
                let mut text = String::from_str("Unknown NLA type: ");
                text.append(decimal_string(*kind as u64).as_str());
                text
            },
            TaskStatsError::InvalidLength { expected, found } => {
                let mut text = String::from_str("invalid length: ");
                text.append(decimal_string(*found as u64).as_str());
                text.append(" bytes, expected ");
                text.append(decimal_string(*expected as u64).as_str());
                text
            },
            TaskStatsError::MissingTerminator => String::from_str(
                "string without its terminating NUL",
            ),
            TaskStatsError::InvalidUtf8 => String::from_str("invalid string"),
            TaskStatsError::BufferTooShort { needed, found } => {
                let mut text = String::from_str("buffer has length ");
                text.append(decimal_string(*found as u64).as_str());
                text.append(", but the record is ");
                text.append(decimal_string(*needed as u64).as_str());
                text.append(" bytes");
                text
            },
            TaskStatsError::MalformedNla => String::from_str("invalid NLA buffer"),
            TaskStatsError::Context { stage, cause } => {
                let mut text = stage.message();
                text.append(": ");
                text.append(cause.message().as_str());
                text
            },
        }
    }

    /// This failure as the cause of a failure of `stage`.
    pub fn context(self, stage: Stage) -> (wrapped: TaskStatsError)
        ensures
            wrapped == (TaskStatsError::Context { stage, cause: Box::new(self) }),
    {
        TaskStatsError::Context { stage, cause: Box::new(self) }
    }
}

} // verus!
