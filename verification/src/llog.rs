//! Log levels and the filtering rule: a line is written only when its level
//! is at or above the configured one. The file sink itself lives outside.

use vstd::prelude::*;

verus! {

#[derive(Debug, PartialEq, Eq, Hash, Clone, Copy, Structural)]
pub enum LevelType {
    Debug,
    Warning,
    Info,
    Error,
}

/// The position of a level in the severity order.
pub open spec fn level_rank(l: LevelType) -> int {
    match l {
        LevelType::Debug => 1,
        LevelType::Warning => 2,
        LevelType::Info => 3,
        LevelType::Error => 4,
    }
}

impl LevelType {
    /// The configured number of a level; anything unknown logs everything.
    pub fn from_i32(n: i32) -> (r: LevelType)
        ensures
            n == 1 ==> r == LevelType::Debug,
            n == 2 ==> r == LevelType::Warning,
            n == 3 ==> r == LevelType::Info,
            n == 4 ==> r == LevelType::Error,
            !(1 <= n <= 4) ==> r == LevelType::Debug,
    {
        match n {
            1 => LevelType::Debug,
            2 => LevelType::Warning,
            3 => LevelType::Info,
            4 => LevelType::Error,
            _ => LevelType::Debug,
        }
    }

    fn rank(&self) -> (r: i32)
        ensures
            r == level_rank(*self),
    {
        match self {
            LevelType::Debug => 1,
            LevelType::Warning => 2,
            LevelType::Info => 3,
            LevelType::Error => 4,
        }
    }
}

/// Debug lines pass only a Debug-level sink.
pub fn can_log_debug(log_level: LevelType) -> (r: bool)
    ensures
        r == (level_rank(LevelType::Debug) >= level_rank(log_level)),
{
    LevelType::Debug.rank() >= log_level.rank()
}

/// Warning lines pass sinks at Warning level or below.
pub fn can_log_warning(log_level: LevelType) -> (r: bool)
    ensures
        r == (level_rank(LevelType::Warning) >= level_rank(log_level)),
{
    LevelType::Warning.rank() >= log_level.rank()
}

/// Info lines pass sinks at Info level or below.
pub fn can_log_info(log_level: LevelType) -> (r: bool)
    ensures
        r == (level_rank(LevelType::Info) >= level_rank(log_level)),
{
    LevelType::Info.rank() >= log_level.rank()
}

/// Error lines pass every sink.
pub fn can_log_error(log_level: LevelType) -> (r: bool)
    ensures
        r == (level_rank(LevelType::Error) >= level_rank(log_level)),
{
    LevelType::Error.rank() >= log_level.rank()
}

} // verus!
