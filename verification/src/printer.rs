//! Console message rendering: a prefix per severity, then the message.
//!
//! Rendering and writing are separate concerns: this module builds the exact
//! line to show, and the embedding program puts it on the console.

use vstd::prelude::*;

verus! {

use vstd::string::StringExecFns;

/// Severity of a console message.
#[derive(PartialEq, Eq, Structural, Debug, Clone, Copy)]
pub enum LogLevel {
    Notice,
    Error,
    Warning,
}

impl LogLevel {
    /// The colored prefix shown before a message of this severity.
    pub open spec fn spec_prefix(&self) -> Seq<char> {
        match self {
            LogLevel::Notice => ""@,
            LogLevel::Error => "[\x1b[0;31mERROR\x1b[0m]"@,
            LogLevel::Warning => "[\x1b[0;33mWARNING\x1b[0m]"@,
        }
    }

    /// Renders the prefix of this severity.
    pub fn prefix(&self) -> (r: String)
        ensures
            r@ == self.spec_prefix(),
    {
        match self {
            LogLevel::Notice => String::from_str(""),
            LogLevel::Error => String::from_str("[\x1b[0;31mERROR\x1b[0m]"),
            LogLevel::Warning => String::from_str("[\x1b[0;33mWARNING\x1b[0m]"),
        }
    }
}

/// The full console line for a message of the given severity: the prefix
/// and a colon before the message, or the bare message when the prefix is
/// empty.
pub open spec fn spec_line(level: LogLevel, msg: Seq<char>) -> Seq<char> {
    if level.spec_prefix().len() == 0 {
        msg
    } else {
        level.spec_prefix() + ": "@ + msg
    }
}

/// Renders console messages.
#[derive(Clone, Debug)]
pub struct Printer {}

impl Printer {
    /// A new message renderer.
    pub fn new() -> (r: Self)
        ensures
            r == (Printer {  }),
    {
        Self {  }
    }

    /// The console line for one message of one severity.
    fn print(&self, level: LogLevel, msg: &str) -> (r: String)
        ensures
            r@ == spec_line(level, msg@),
    {
        let prefix = level.prefix();
        if prefix.as_str().unicode_len() == 0 {
            msg.to_owned()
        } else {
            let r = prefix.concat(": ");
            r.concat(msg)
        }
    }

    /// The console line for a plain notice: the message itself.
    pub fn notice(&self, msg: &str) -> (r: String)
        ensures
            r@ == spec_line(LogLevel::Notice, msg@),
    {
        self.print(LogLevel::Notice, msg)
    }

    /// The console line for an error message.
    pub fn error(&self, msg: &str) -> (r: String)
        ensures
            r@ == spec_line(LogLevel::Error, msg@),
    {
        self.print(LogLevel::Error, msg)
    }

    /// The console line for a warning; it keeps the error prefix, as the
    /// list has always shown warnings in red.
    pub fn warning(&self, msg: &str) -> (r: String)
        ensures
            r@ == spec_line(LogLevel::Error, msg@),
    {
        self.print(LogLevel::Error, msg)
    }
}

impl Default for Printer {
    fn default() -> (r: Self)
        ensures
            r == (Printer {  }),
    {
        Self::new()
    }
}

} // verus!
