//! What enforcement has to say.
use vstd::prelude::*;

verus! {

/// How urgent a notice is.
#[derive(Debug, Clone, Copy, PartialEq, Eq, Structural)]
pub enum NoticeLevel {
    Info,
    Warn,
    Error,
}

/// A line for the log.
#[derive(Debug)]
pub struct Notice {
    pub level: NoticeLevel,
    pub message: String,
}

impl View for Notice {
    type V = (NoticeLevel, Seq<char>);

    open spec fn view(&self) -> (NoticeLevel, Seq<char>) {
        (self.level, self.message@)
    }
}

} // verus!
