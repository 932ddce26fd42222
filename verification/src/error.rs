//! The ways in which a query of the device fails.

use vstd::prelude::*;
use vstd::string::StringExecFns;

verus! {

/// What a diagnostic text was expected to hold and did not.
#[derive(Debug, Clone, Copy, PartialEq, Eq, Structural)]
pub enum Missing {
    /// The process identifier of the package.
    ProcessId,
    /// The row of the process in the process listing, with its CPU share.
    CpuShare,
    /// A number on a line with the total of the memory report.
    MemoryTotal,
    /// A row of a wireless or mobile interface with its counters.
    InterfaceCounters,
    /// The count of frames rendered.
    FrameCount,
    /// A power figure, or a current large enough to be one.
    PowerFigure,
    /// The level or the temperature of the battery.
    BatteryFields,
    /// Byte counters of the interfaces of the process.
    TrafficCounters,
}

/// A failed query.
#[derive(Debug, Clone, PartialEq, Eq)]
pub enum AdbError {
    /// No debug bridge binary is known, or it could not be started.
    NotFound,
    /// The command ran and reported failure; the text is what it wrote to
    /// its error stream.
    CommandFailed(String),
    /// The command's output lacks what was looked for.
    ParseFailed(Missing),
    /// The debug bridge server could not be reached.
    Client(String),
}

/// What an [`AdbError`] holds, as mathematical values.
pub enum Failure {
    NotFound,
    CommandFailed(Seq<char>),
    ParseFailed(Missing),
    Client(Seq<char>),
}

impl View for AdbError {
    type V = Failure;

    open spec fn view(&self) -> Failure {
        match self {
            AdbError::NotFound => Failure::NotFound,
            AdbError::CommandFailed(text) => Failure::CommandFailed(text@),
            AdbError::ParseFailed(missing) => Failure::ParseFailed(*missing),
            AdbError::Client(text) => Failure::Client(text@),
        }
    }
}

/// The words for what is missing.
pub open spec fn missing_text(missing: Missing) -> Seq<char> {
    match missing {
        Missing::ProcessId => "no process of the package is running"@,
        Missing::CpuShare => "no CPU share for the process"@,
        Missing::MemoryTotal => "no memory total"@,
        Missing::InterfaceCounters => "no wireless or mobile interface"@,
        Missing::FrameCount => "no count of rendered frames"@,
        Missing::PowerFigure => "no power figure"@,
        Missing::BatteryFields => "no battery level or temperature"@,
        Missing::TrafficCounters => "no traffic on the interfaces of the process"@,
    }
}

/// The message that describes a failure.
pub open spec fn message_of(failure: Failure) -> Seq<char> {
    match failure {
        Failure::NotFound => "adb was not found"@,
        Failure::CommandFailed(text) => "adb command failed: "@ + text,
        Failure::ParseFailed(missing) => "unexpected adb output: "@ + missing_text(missing),
        Failure::Client(text) => "adb client error: "@ + text,
    }
}

impl Missing {
    /// The words for what is missing.
    pub fn describe(&self) -> (s: &'static str)
        ensures
            s@ == missing_text(*self),
    {
        match self {
            Missing::ProcessId => "no process of the package is running",
            Missing::CpuShare => "no CPU share for the process",
            Missing::MemoryTotal => "no memory total",
            Missing::InterfaceCounters => "no wireless or mobile interface",
            Missing::FrameCount => "no count of rendered frames",
            Missing::PowerFigure => "no power figure",
            Missing::BatteryFields => "no battery level or temperature",
            Missing::TrafficCounters => "no traffic on the interfaces of the process",
        }
    }
}

impl AdbError {
    /// The message that describes this failure.
    pub fn message(&self) -> (s: String)
        ensures
            s@ == message_of(self@),
    {
        match self {
            AdbError::NotFound => "adb was not found".to_owned(),
            AdbError::CommandFailed(text) => "adb command failed: ".to_owned().concat(
                text.as_str(),
            ),
            AdbError::ParseFailed(missing) => "unexpected adb output: ".to_owned().concat(
                missing.describe(),
            ),
            AdbError::Client(text) => "adb client error: ".to_owned().concat(text.as_str()),
        }
    }
}

} // verus!
