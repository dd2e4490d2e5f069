//! The status model of the monitoring-plugin convention: a closed set of four
//! severity levels, each with a fixed name and exit code, and the one-line
//! report that pairs a severity with a human-readable description.

use vstd::prelude::*;

verus! {

/// One of the four severities a monitoring plugin may report. `OK`,
/// `WARNING` and `CRITICAL` are threshold outcomes, ordered by escalation
/// rank; `UNKNOWN` is reserved for operational failures (bad configuration,
/// connection or query errors, shape mismatches).
#[derive(Clone, Copy, PartialEq, Eq, Structural, Debug)]
pub enum StatusType {
    OK,
    WARNING,
    CRITICAL,
    UNKNOWN,
}

impl StatusType {
    /// The severity's name as it appears on the wire.
    pub open spec fn spec_name(self) -> Seq<char> {
        match self {
            StatusType::OK => "OK"@,
            StatusType::WARNING => "WARNING"@,
            StatusType::CRITICAL => "CRITICAL"@,
            StatusType::UNKNOWN => "UNKNOWN"@,
        }
    }

    pub fn name(&self) -> (r: &'static str)
        ensures
            r@ == self.spec_name(),
    {
        match self {
            StatusType::OK => "OK",
            StatusType::WARNING => "WARNING",
            StatusType::CRITICAL => "CRITICAL",
            StatusType::UNKNOWN => "UNKNOWN",
        }
    }

    /// The process exit code the convention assigns to each severity. The
    /// codes follow the escalation order `OK < WARNING < CRITICAL`, with
    /// `UNKNOWN` above all threshold outcomes.
    pub open spec fn spec_exit_code(self) -> i32 {
        match self {
            StatusType::OK => 0,
            StatusType::WARNING => 1,
            StatusType::CRITICAL => 2,
            StatusType::UNKNOWN => 3,
        }
    }

    pub fn exit_code(&self) -> (r: i32)
        ensures
            r == self.spec_exit_code(),
    {
        match self {
            StatusType::OK => 0,
            StatusType::WARNING => 1,
            StatusType::CRITICAL => 2,
            StatusType::UNKNOWN => 3,
        }
    }
}

/// The input-dependent failures of the evaluation pipeline. Each one is
/// reported as an `UNKNOWN` status carrying the error's message, never as a
/// crash.
#[derive(Clone, Copy, PartialEq, Eq, Structural, Debug)]
pub enum CheckError {
    /// A column's declared type is outside the recognized integer family.
    UnsupportedColumnType,
    /// A column's raw value does not have the byte width its type calls for.
    MalformedColumnValue,
    /// A threshold list holds a token that is not a 64-bit signed integer.
    InvalidThreshold,
}

impl CheckError {
    /// The description an `UNKNOWN` report carries for this error.
    pub open spec fn spec_message(self) -> Seq<char> {
        match self {
            CheckError::UnsupportedColumnType => "Unsupported column type in result set"@,
            CheckError::MalformedColumnValue => "Malformed column value in result set"@,
            CheckError::InvalidThreshold => "Invalid threshold list"@,
        }
    }

    pub fn message(&self) -> (r: &'static str)
        ensures
            r@ == self.spec_message(),
    {
        match self {
            CheckError::UnsupportedColumnType => "Unsupported column type in result set",
            CheckError::MalformedColumnValue => "Malformed column value in result set",
            CheckError::InvalidThreshold => "Invalid threshold list",
        }
    }
}

/// The single report an invocation produces: a severity and a description,
/// rendered as one line `<SEVERITY>|<description>`.
#[derive(Debug)]
pub struct Status {
    pub t: StatusType,
    pub description: String,
}

impl Status {
    /// The wire form of the report: the severity's name, a `|` separator, and
    /// the description.
    pub open spec fn spec_render(self) -> Seq<char> {
        self.t.spec_name() + "|"@ + self.description@
    }

    pub fn render(&self) -> (r: String)
        ensures
            r@ == self.spec_render(),
    {
        let mut r = String::from_str(self.t.name());
        r.append("|");
        r.append(self.description.as_str());
        proof {
            assert(r@ =~= self.spec_render());
        }
        r
    }

    /// An operational-failure report with the given description.
    pub fn unknown(description: String) -> (r: Status)
        ensures
            r.t == StatusType::UNKNOWN,
            r.description == description,
    {
        Status { t: StatusType::UNKNOWN, description }
    }
}

} // verus!
