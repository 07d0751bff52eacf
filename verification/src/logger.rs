//! Log levels, and the log lines that the console shows.

use vstd::prelude::*;
use crate::console::{after_text, Console};

verus! {

/// How much a log line matters, from the most to the least.
#[derive(Debug, Clone, Copy, PartialEq, Eq, PartialOrd, Ord, Structural)]
pub enum Level {
    Error,
    Warn,
    Info,
    Debug,
    Trace,
}

/// The place of a level in their order: 0 for `Error`, 4 for `Trace`.
pub open spec fn rank_of(level: Level) -> int {
    match level {
        Level::Error => 0,
        Level::Warn => 1,
        Level::Info => 2,
        Level::Debug => 3,
        Level::Trace => 4,
    }
}

/// The name of a level.
pub open spec fn name_of(level: Level) -> Seq<char> {
    match level {
        Level::Error => "ERROR"@,
        Level::Warn => "WARN"@,
        Level::Info => "INFO"@,
        Level::Debug => "DEBUG"@,
        Level::Trace => "TRACE"@,
    }
}

impl Level {
    /// The place of the level in their order.
    pub fn rank(&self) -> (rank: u8)
        ensures
            rank == rank_of(*self),
    {
        match self {
            Level::Error => 0,
            Level::Warn => 1,
            Level::Info => 2,
            Level::Debug => 3,
            Level::Trace => 4,
        }
    }

    /// The name of the level.
    pub fn as_str(&self) -> (name: &'static str)
        ensures
            name@ == name_of(*self),
    {
        match self {
            Level::Error => "ERROR",
            Level::Warn => "WARN",
            Level::Info => "INFO",
            Level::Debug => "DEBUG",
            Level::Trace => "TRACE",
        }
    }
}

/// Decides which log lines are shown: those whose level matters at least
/// as much as the logger's.
#[derive(Debug, Clone, Copy, PartialEq, Eq, Structural)]
pub struct Logger {
    level: Level,
}

impl Logger {
    /// The logger's level.
    pub closed spec fn level(&self) -> Level {
        self.level
    }

    /// Whether a line of the given level is shown.
    pub open spec fn shows(&self, level: Level) -> bool {
        rank_of(level) <= rank_of(self.level())
    }

    /// A logger that shows lines up to `Info`.
    pub fn new() -> (logger: Logger)
        ensures
            logger.level() == Level::Info,
    {
        Logger { level: Level::Info }
    }

    /// The logger's level.
    pub fn get_level(&self) -> (level: Level)
        ensures
            level == self.level(),
    {
        self.level
    }

    /// Whether a line of the given level is shown.
    pub fn enabled(&self, level: Level) -> (shown: bool)
        ensures
            shown == self.shows(level),
    {
        level.rank() <= self.level.rank()
    }
}

/// Sets the level up to which log lines are shown.
pub fn set_level(logger: &mut Logger, level: Level)
    ensures
        final(logger).level() == level,
{
    logger.level = level;
}

/// The text of a log line: the level's name in brackets, a blank, and the
/// message.
pub open spec fn log_line(level: Level, message: Seq<char>) -> Seq<char> {
    "["@ + name_of(level) + "] "@ + message
}

/// The console after the characters of `first` and then those of `second`
/// is the console after the characters of both in a row.
pub proof fn lemma_after_text_concat(
    state: crate::console::ConsoleState,
    font: crate::fonts::Font,
    fg: crate::graphics::PixelColor,
    bg: crate::graphics::PixelColor,
    first: Seq<char>,
    second: Seq<char>,
)
    ensures
        after_text(after_text(state, font, fg, bg, first), font, fg, bg, second) == after_text(
            state,
            font,
            fg,
            bg,
            first + second,
        ),
    decreases second.len(),
{
    if second.len() == 0 {
        assert(first + second =~= first);
    } else {
        lemma_after_text_concat(state, font, fg, bg, first, second.drop_last());
        assert((first + second).drop_last() =~= first + second.drop_last());
        assert((first + second).last() == second.last());
    }
}

/// Writes a log line to the console if the logger shows lines of its
/// level.
pub fn _log(logger: &Logger, console: &mut Console, level: Level, message: &str)
    ensures
        final(console).font() == old(console).font(),
        final(console).fg() == old(console).fg(),
        final(console).bg() == old(console).bg(),
        final(console)@ == (if logger.shows(level) {
            after_text(
                old(console)@,
                old(console).font(),
                old(console).fg(),
                old(console).bg(),
                log_line(level, message@),
            )
        } else {
            old(console)@
        }),
{
    if logger.enabled(level) {
        let ghost state = console@;
        let ghost font = console.font();
        let ghost fg = console.fg();
        let ghost bg = console.bg();
        console.put_string("[");
        console.put_string(level.as_str());
        console.put_string("] ");
        console.put_string(message);
        proof {
            lemma_after_text_concat(state, font, fg, bg, "["@, name_of(level));
            lemma_after_text_concat(state, font, fg, bg, "["@ + name_of(level), "] "@);
            lemma_after_text_concat(
                state,
                font,
                fg,
                bg,
                "["@ + name_of(level) + "] "@,
                message@,
            );
        }
    }
}

} // verus!
