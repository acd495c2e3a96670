use vstd::prelude::*;
use vstd::string::StringExecFns;

verus! {

/// How much a log record matters.
#[derive(Clone, Copy, Debug, PartialEq, Eq, Structural)]
pub enum LogKind {
    Info,
    Log,
    Warn,
    Error,
}

/// The part of the system that a log record comes from.
#[derive(Clone, Copy, Debug, PartialEq, Eq, Structural)]
pub enum LogSource {
    Unset,
    Other,
    Rtr,
    Rwl,
}

impl LogKind {
    /// The one-character mark of the kind.
    pub open spec fn spec_mark(self) -> Seq<char> {
        match self {
            LogKind::Info => "i"@,
            LogKind::Log => "l"@,
            LogKind::Warn => "!"@,
            LogKind::Error => "e"@,
        }
    }

    /// The one-character mark of the kind.
    pub fn mark(self) -> (s: &'static str)
        ensures
            s@ == self.spec_mark(),
    {
        match self {
            LogKind::Info => "i",
            LogKind::Log => "l",
            LogKind::Warn => "!",
            LogKind::Error => "e",
        }
    }
}

impl LogSource {
    /// The name of the source.
    pub open spec fn spec_name(self) -> Seq<char> {
        match self {
            LogSource::Unset => "."@,
            LogSource::Other => "?"@,
            LogSource::Rtr => "RTR"@,
            LogSource::Rwl => "RWL"@,
        }
    }

    /// The name of the source.
    pub fn name(self) -> (s: &'static str)
        ensures
            s@ == self.spec_name(),
    {
        match self {
            LogSource::Unset => ".",
            LogSource::Other => "?",
            LogSource::Rtr => "RTR",
            LogSource::Rwl => "RWL",
        }
    }
}

/// A record for the log of the embedder.
#[derive(Debug)]
pub struct Log {
    pub kind: LogKind,
    pub source: LogSource,
    pub text: String,
}

/// The mathematical value of a [`Log`].
pub struct LogModel {
    pub kind: LogKind,
    pub source: LogSource,
    pub text: Seq<char>,
}

impl View for Log {
    type V = LogModel;

    open spec fn view(&self) -> LogModel {
        LogModel { kind: self.kind, source: self.source, text: self.text@ }
    }
}

impl LogModel {
    /// The line that the record is written as: its text, after the name of
    /// its source in square brackets where it has one.
    pub open spec fn line(self) -> Seq<char> {
        if self.source == LogSource::Unset {
            self.text
        } else {
            "["@ + self.source.spec_name() + "] "@ + self.text
        }
    }
}

/// The models of a sequence of records.
pub open spec fn log_models(logs: Seq<Log>) -> Seq<LogModel> {
    Seq::new(logs.len(), |i: int| logs[i]@)
}

impl Log {
    /// The line that the record is written as.
    pub fn to_text(&self) -> (s: String)
        ensures
            s@ == self@.line(),
    {
        match self.source {
            LogSource::Unset => self.text.clone(),
            _ => {
                let mut s = String::from_str("[");
                s.append(self.source.name());
                s.append("] ");
                s.append(self.text.as_str());
                s
            },
        }
    }
}

} // verus!
