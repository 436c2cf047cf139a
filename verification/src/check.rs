//! Diagnostics of the C# compiler, and the check that asks for them.

use std::cmp::Ordering;
use vstd::prelude::*;

verus! {

/// How serious a diagnostic is. An error ranks above a warning.
#[derive(Clone, Copy, PartialEq, Eq, Structural, Ord, Debug)]
pub enum Severity {
    Warning,
    Error,
}

impl Severity {
    /// The place of the severity in their order.
    pub open spec fn rank(self) -> int {
        match self {
            Severity::Warning => 0,
            Severity::Error => 1,
        }
    }

    /// The more serious of the two.
    pub open spec fn stronger(self, other: Severity) -> Severity {
        if self.rank() < other.rank() {
            other
        } else {
            self
        }
    }

    /// The more serious of the two.
    pub fn strongest(self, other: Severity) -> (result: Severity)
        ensures
            result == self.stronger(other),
    {
        match self {
            Severity::Error => Severity::Error,
            Severity::Warning => other,
        }
    }
}

impl PartialOrd for Severity {
    fn partial_cmp(&self, other: &Severity) -> (result: Option<Ordering>) {
        match (*self, *other) {
            (Severity::Warning, Severity::Error) => Some(Ordering::Less),
            (Severity::Error, Severity::Warning) => Some(Ordering::Greater),
            _ => Some(Ordering::Equal),
        }
    }
}

impl vstd::std_specs::cmp::PartialOrdSpecImpl for Severity {
    open spec fn obeys_partial_cmp_spec() -> bool {
        true
    }

    open spec fn partial_cmp_spec(&self, other: &Severity) -> Option<Ordering> {
        if self.rank() < other.rank() {
            Some(Ordering::Less)
        } else if self.rank() > other.rank() {
            Some(Ordering::Greater)
        } else {
            Some(Ordering::Equal)
        }
    }
}

/// One message of the compiler about one place in the file.
#[derive(Debug)]
pub struct Diagnostic {
    /// 0-indexed, to match the editor's own coordinates.
    pub line: usize,
    pub col: usize,
    pub severity: Severity,
    pub code: String,
    pub message: String,
}

/// What a [`Diagnostic`] says.
#[verifier::ext_equal]
pub struct DiagnosticView {
    pub line: int,
    pub col: int,
    pub severity: Severity,
    pub code: Seq<char>,
    pub message: Seq<char>,
}

impl View for Diagnostic {
    type V = DiagnosticView;

    open spec fn view(&self) -> DiagnosticView {
        DiagnosticView {
            line: self.line as int,
            col: self.col as int,
            severity: self.severity,
            code: self.code@,
            message: self.message@,
        }
    }
}

impl Clone for Diagnostic {
    fn clone(&self) -> (result: Diagnostic)
        ensures
            result@ == self@,
    {
        Diagnostic {
            line: self.line,
            col: self.col,
            severity: self.severity,
            code: self.code.clone(),
            message: self.message.clone(),
        }
    }
}

/// What a list of diagnostics says.
pub open spec fn diagnostic_views(diagnostics: Seq<Diagnostic>) -> Seq<DiagnosticView> {
    Seq::new(diagnostics.len(), |i: int| diagnostics[i]@)
}

/// Those of the diagnostics that are about line `row`.
pub open spec fn on_line(diagnostics: Seq<DiagnosticView>, row: int) -> Seq<DiagnosticView>
    decreases diagnostics.len(),
{
    if diagnostics.len() == 0 {
        seq![]
    } else if diagnostics.last().line == row {
        on_line(diagnostics.drop_last(), row).push(diagnostics.last())
    } else {
        on_line(diagnostics.drop_last(), row)
    }
}

/// The outcome of a check.
#[derive(Debug)]
pub enum CheckMessage {
    Finished(Vec<Diagnostic>),
    ToolMissing,
    Failed(String),
}

/// What a [`CheckMessage`] says.
#[verifier::ext_equal]
pub enum MessageView {
    Finished(Seq<DiagnosticView>),
    ToolMissing,
    Failed(Seq<char>),
}

impl View for CheckMessage {
    type V = MessageView;

    open spec fn view(&self) -> MessageView {
        match self {
            CheckMessage::Finished(diagnostics) => MessageView::Finished(
                diagnostic_views(diagnostics@),
            ),
            CheckMessage::ToolMissing => MessageView::ToolMissing,
            CheckMessage::Failed(reason) => MessageView::Failed(reason@),
        }
    }
}

/// Where a [`Checker`] stands.
#[verifier::ext_equal]
pub struct CheckerView {
    /// There is a channel that a check reports over.
    pub listening: bool,
    /// A check is in flight.
    pub running: bool,
}

impl CheckerView {
    /// A check may start: it opens a channel of its own.
    pub open spec fn started(self) -> CheckerView {
        if self.running {
            self
        } else {
            CheckerView { listening: true, running: true }
        }
    }

    /// After a look into the channel.
    pub open spec fn polled(self, received: Received) -> CheckerView {
        if !self.listening {
            self
        } else {
            match received {
                Received::Message(_) => CheckerView { running: false, ..self },
                Received::Empty => self,
                Received::Disconnected => CheckerView { listening: false, running: false },
            }
        }
    }
}

/// What a look into the channel of a check found.
#[derive(Debug)]
pub enum Received {
    /// The check's outcome.
    Message(CheckMessage),
    /// Nothing yet.
    Empty,
    /// Nothing, and nothing will come any more.
    Disconnected,
}

/// Keeps track of the check that runs in the background, so that the editor
/// never blocks on it. Only one check runs at a time.
#[derive(Debug)]
pub struct Checker {
    listening: bool,
    running: bool,
}

impl View for Checker {
    type V = CheckerView;

    closed spec fn view(&self) -> CheckerView {
        CheckerView { listening: self.listening, running: self.running }
    }
}

impl Checker {
    /// A checker with no check in flight.
    pub fn new() -> (checker: Checker)
        ensures
            checker@ == (CheckerView { listening: false, running: false }),
    {
        Checker { listening: false, running: false }
    }

    /// Whether there is a channel to look into.
    pub fn is_listening(&self) -> (result: bool)
        ensures
            result == self@.listening,
    {
        self.listening
    }

    /// Asks to start a check, which is granted unless one is already in
    /// flight. Returns `true` if a new check is to be started.
    pub fn start(&mut self) -> (result: bool)
        ensures
            result == !old(self)@.running,
            final(self)@ == old(self)@.started(),
    {
        if self.running {
            return false;
        }
        self.listening = true;
        self.running = true;
        true
    }

    /// Takes in what a non-blocking look into the channel found; returns a
    /// message if the running check has finished.
    pub fn poll(&mut self, received: Received) -> (result: Option<CheckMessage>)
        ensures
            result == (match received {
                Received::Message(message) if old(self)@.listening => Some(message),
                _ => None,
            }),
            final(self)@ == old(self)@.polled(received),
    {
        if !self.listening {
            return None;
        }
        match received {
            Received::Message(message) => {
                self.running = false;
                Some(message)
            },
            Received::Empty => None,
            Received::Disconnected => {
                self.running = false;
                self.listening = false;
                None
            },
        }
    }
}

} // verus!
