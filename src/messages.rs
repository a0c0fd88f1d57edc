use vstd::prelude::*;

verus! {

/// Severity of a diagnostic sent to the host.
#[derive(Clone, Copy, PartialEq, Eq, Structural, Debug)]
pub enum Msg {
    Fatal,
    Error,
    Warning,
    Notice,
    Info,
    Debug,
}

impl Msg {
    /// The syslog priority that the host expects for this severity.
    pub open spec fn spec_priority(self) -> i32 {
        match self {
            Msg::Fatal => 2,
            Msg::Error => 3,
            Msg::Warning => 4,
            Msg::Notice => 5,
            Msg::Info => 6,
            Msg::Debug => 7,
        }
    }

    /// The syslog priority that the host expects for this severity.
    pub fn priority(&self) -> (r: i32)
        ensures
            r == self.spec_priority(),
    {
        match self {
            Msg::Fatal => 2,
            Msg::Error => 3,
            Msg::Warning => 4,
            Msg::Notice => 5,
            Msg::Info => 6,
            Msg::Debug => 7,
        }
    }
}

} // verus!
