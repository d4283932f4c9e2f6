//! Verbosity of diagnostics, held in a value that the caller passes along.

use vstd::prelude::*;

verus! {

/// How important a diagnostic is, from the least to the most important.
#[derive(Clone, Copy, Debug, PartialEq, Eq, PartialOrd, Ord)]
pub enum Level {
    Debug,
    Info,
    Warn,
    Error,
}

impl Level {
    /// Position of the level, counted from `Debug`.
    pub open spec fn rank(self) -> int {
        match self {
            Level::Debug => 0,
            Level::Info => 1,
            Level::Warn => 2,
            Level::Error => 3,
        }
    }
}

/// The level below which diagnostics are dropped: unset at first, and set at
/// most once.
pub struct Threshold {
    chosen: Option<Level>,
}

/// Why a level could not be set.
#[derive(Debug, PartialEq, Eq)]
pub enum LevelError {
    /// A level had been set before.
    SetTwice,
}

impl Threshold {
    /// The level that was set, if any.
    pub closed spec fn chosen(&self) -> Option<Level> {
        self.chosen
    }

    /// A threshold that nobody has set yet.
    pub fn new() -> (threshold: Self)
        ensures
            threshold.chosen() is None,
    {
        Threshold { chosen: None }
    }
}

/// The level in force: the one that was set, `Debug` while none was.
pub fn level(threshold: &Threshold) -> (current: Level)
    ensures
        current == match threshold.chosen() {
            Some(chosen) => chosen,
            None => Level::Debug,
        },
{
    match threshold.chosen {
        Some(chosen) => chosen,
        None => Level::Debug,
    }
}

/// Sets the level once. A second call fails and changes nothing.
pub fn set_level(threshold: &mut Threshold, level: Level) -> (outcome: Result<(), LevelError>)
    ensures
        old(threshold).chosen() is None ==> outcome is Ok && final(threshold).chosen() == Some(
            level,
        ),
        old(threshold).chosen() is Some ==> outcome == Err::<(), LevelError>(LevelError::SetTwice)
            && *final(threshold) == *old(threshold),
{
    match threshold.chosen {
        Some(_) => Err(LevelError::SetTwice),
        None => {
            threshold.chosen = Some(level);
            Ok(())
        },
    }
}

/// Whether a diagnostic of importance `message` is written while `current`
/// is in force: it is unless it ranks below `current`.
pub fn enabled(current: Level, message: Level) -> (written: bool)
    ensures
        written == (current.rank() <= message.rank()),
{
    let current_rank: u8 = match current {
        Level::Debug => 0,
        Level::Info => 1,
        Level::Warn => 2,
        Level::Error => 3,
    };
    let message_rank: u8 = match message {
        Level::Debug => 0,
        Level::Info => 1,
        Level::Warn => 2,
        Level::Error => 3,
    };
    current_rank <= message_rank
}

} // verus!
