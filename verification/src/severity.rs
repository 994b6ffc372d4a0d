//! The six-step verbosity scale.

use crate::text::{chars_of, range_is};
use vstd::prelude::*;

verus! {

/// A point on the verbosity scale, from silent to most verbose:
/// `Off < Error < Warn < Info < Debug < Trace`.
///
/// The same scale serves as a configured threshold and as the level of a
/// single message.
#[derive(Clone, Copy, Debug, PartialEq, Eq, Structural, PartialOrd, Ord, Hash)]
pub enum Severity {
    Off,
    Error,
    Warn,
    Info,
    Debug,
    Trace,
}

/// The severity that a token names: one of the six lower-case words, or the
/// single digit that gives its place on the scale. Any other token names
/// nothing; in particular the words are case-sensitive.
pub open spec fn severity_of_token(token: Seq<char>) -> Option<Severity> {
    if token == "off"@ || token == "0"@ {
        Some(Severity::Off)
    } else if token == "error"@ || token == "1"@ {
        Some(Severity::Error)
    } else if token == "warn"@ || token == "2"@ {
        Some(Severity::Warn)
    } else if token == "info"@ || token == "3"@ {
        Some(Severity::Info)
    } else if token == "debug"@ || token == "4"@ {
        Some(Severity::Debug)
    } else if token == "trace"@ || token == "5"@ {
        Some(Severity::Trace)
    } else {
        None
    }
}

/// The more verbose of two severities.
pub open spec fn higher(a: Severity, b: Severity) -> Severity {
    if a.rank() >= b.rank() {
        a
    } else {
        b
    }
}

impl Severity {
    /// Place on the scale: 0 for `Off` up to 5 for `Trace`.
    pub open spec fn rank(self) -> nat {
        match self {
            Severity::Off => 0,
            Severity::Error => 1,
            Severity::Warn => 2,
            Severity::Info => 3,
            Severity::Debug => 4,
            Severity::Trace => 5,
        }
    }

    /// Whether a message at `level` passes a threshold of `self`.
    pub open spec fn admits(self, level: Severity) -> bool {
        level.rank() <= self.rank()
    }

    /// The identifier under which the severity appears in generated source.
    pub open spec fn ident(self) -> Seq<char> {
        match self {
            Severity::Off => "Off"@,
            Severity::Error => "Error"@,
            Severity::Warn => "Warn"@,
            Severity::Info => "Info"@,
            Severity::Debug => "Debug"@,
            Severity::Trace => "Trace"@,
        }
    }

    /// The most verbose severity.
    pub fn max() -> (r: Severity)
        ensures
            r == Severity::Trace,
            forall|s: Severity| s.rank() <= r.rank(),
    {
        Severity::Trace
    }

    /// Place on the scale as a machine integer.
    pub fn index(self) -> (r: u8)
        ensures
            r == self.rank(),
    {
        match self {
            Severity::Off => 0,
            Severity::Error => 1,
            Severity::Warn => 2,
            Severity::Info => 3,
            Severity::Debug => 4,
            Severity::Trace => 5,
        }
    }

    /// The severity at a place on the scale, if the place exists.
    pub fn from_index(index: u8) -> (r: Option<Severity>)
        ensures
            index <= 5 ==> r is Some && r->0.rank() == index,
            index > 5 ==> r is None,
    {
        match index {
            0 => Some(Severity::Off),
            1 => Some(Severity::Error),
            2 => Some(Severity::Warn),
            3 => Some(Severity::Info),
            4 => Some(Severity::Debug),
            5 => Some(Severity::Trace),
            _ => None,
        }
    }

    /// Decides whether a message at `level` passes this threshold.
    pub fn allows(self, level: Severity) -> (r: bool)
        ensures
            r == self.admits(level),
    {
        level.index() <= self.index()
    }

    /// Returns the more verbose of `self` and `other`.
    pub fn or_higher(self, other: Severity) -> (r: Severity)
        ensures
            r == higher(self, other),
    {
        if self.index() >= other.index() {
            self
        } else {
            other
        }
    }

    /// Returns the identifier used for the severity in generated source.
    pub fn name(self) -> (r: &'static str)
        ensures
            r@ == self.ident(),
    {
        match self {
            Severity::Off => "Off",
            Severity::Error => "Error",
            Severity::Warn => "Warn",
            Severity::Info => "Info",
            Severity::Debug => "Debug",
            Severity::Trace => "Trace",
        }
    }

    /// Reads a severity from a token: a lower-case level word or a digit
    /// from `0` to `5`.
    pub fn parse(token: &str) -> (r: Option<Severity>)
        ensures
            r == severity_of_token(token@),
    {
        let chars = chars_of(token);
        assert(chars@.subrange(0, chars@.len() as int) == chars@);
        severity_in(&chars, 0, chars.len())
    }
}

/// Reads a severity from the token `chars[from..to]`.
pub fn severity_in(chars: &[char], from: usize, to: usize) -> (r: Option<Severity>)
    requires
        from <= to <= chars.len(),
    ensures
        r == severity_of_token(chars@.subrange(from as int, to as int)),
{
    if range_is(chars, from, to, "off") || range_is(chars, from, to, "0") {
        Some(Severity::Off)
    } else if range_is(chars, from, to, "error") || range_is(chars, from, to, "1") {
        Some(Severity::Error)
    } else if range_is(chars, from, to, "warn") || range_is(chars, from, to, "2") {
        Some(Severity::Warn)
    } else if range_is(chars, from, to, "info") || range_is(chars, from, to, "3") {
        Some(Severity::Info)
    } else if range_is(chars, from, to, "debug") || range_is(chars, from, to, "4") {
        Some(Severity::Debug)
    } else if range_is(chars, from, to, "trace") || range_is(chars, from, to, "5") {
        Some(Severity::Trace)
    } else {
        None
    }
}

} // verus!
