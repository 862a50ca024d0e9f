//! Log levels, categories and locations, and the writer slots and message cache of a logger.
//!
//! The logger itself (its lock, its atomic maximum level and the writes to the terminal and
//! to the writers) lives with the caller: this module decides which messages are logged,
//! where a writer goes, and when the cached text is due to be written out.
use vstd::prelude::*;
use crate::display::{decimal, push_decimal, string_push_str};

verus! {

/// Logging level
#[derive(Clone, Copy, PartialEq, Eq, Debug, Structural)]
pub enum LogLevel {
    /// Severe error: will probably result in a crash
    Severe,
    /// Error: may not result in a crash
    Error,
    /// Warning: While not as bad as an error, it may result to something like a performance regression
    Warning,
    /// General info
    Info,
    /// Verbose info
    Verbose,
    /// Debug info (includes verbose info)
    Debug,
}

/// The number of a level: the more severe, the lower.
pub open spec fn level_rank(l: LogLevel) -> u8 {
    match l {
        LogLevel::Severe => 0,
        LogLevel::Error => 1,
        LogLevel::Warning => 2,
        LogLevel::Info => 3,
        LogLevel::Verbose => 4,
        LogLevel::Debug => 5,
    }
}

/// The label a level is displayed with, terminal colours included.
pub open spec fn level_label(l: LogLevel) -> Seq<char> {
    match l {
        LogLevel::Severe => "\x1B[1m\x1B[41m\x1B[30m[SEVERE ]\x1B[0m"@,
        LogLevel::Error => "\x1B[91m[ERROR  ]\x1B[0m"@,
        LogLevel::Warning => "\x1B[93m[WARNING]\x1B[0m"@,
        LogLevel::Info => "\x1B[37m[INFO   ]\x1B[0m"@,
        LogLevel::Verbose => "\x1B[90m[VERBOSE]\x1B[0m"@,
        LogLevel::Debug => "\x1B[94m[DEBUG  ]\x1B[0m"@,
    }
}

impl LogLevel {
    /// The number of the level: severe is the lowest, debug the highest.
    pub fn rank(self) -> (r: u8)
        ensures
            r == level_rank(self),
    {
        match self {
            LogLevel::Severe => 0,
            LogLevel::Error => 1,
            LogLevel::Warning => 2,
            LogLevel::Info => 3,
            LogLevel::Verbose => 4,
            LogLevel::Debug => 5,
        }
    }

    /// The label the level is displayed with.
    pub fn label(self) -> (r: &'static str)
        ensures
            r@ == level_label(self),
    {
        match self {
            LogLevel::Severe => "\x1B[1m\x1B[41m\x1B[30m[SEVERE ]\x1B[0m",
            LogLevel::Error => "\x1B[91m[ERROR  ]\x1B[0m",
            LogLevel::Warning => "\x1B[93m[WARNING]\x1B[0m",
            LogLevel::Info => "\x1B[37m[INFO   ]\x1B[0m",
            LogLevel::Verbose => "\x1B[90m[VERBOSE]\x1B[0m",
            LogLevel::Debug => "\x1B[94m[DEBUG  ]\x1B[0m",
        }
    }

    /// Is a message of this level logged while the maximum level is `max_level`?
    pub fn is_logged_at(self, max_level: u8) -> (r: bool)
        ensures
            r == (level_rank(self) <= max_level),
    {
        self.rank() <= max_level
    }

    /// Is the place a message was logged from shown with a message of this level?
    /// Severe errors, errors and debug messages show it.
    pub fn shows_location(self) -> (r: bool)
        ensures
            r == (self == LogLevel::Severe || self == LogLevel::Error || self == LogLevel::Debug),
    {
        match self {
            LogLevel::Severe | LogLevel::Error | LogLevel::Debug => true,
            LogLevel::Warning | LogLevel::Info | LogLevel::Verbose => false,
        }
    }
}

/// Log category
#[derive(Clone, Copy, PartialEq, Eq, Debug)]
pub struct LogCategory {
    category: &'static str,
    sub_category: Option<&'static str>,
}

impl LogCategory {
    /// The name of the category.
    pub closed spec fn category_spec(&self) -> Seq<char> {
        self.category@
    }

    /// The name of the sub-category, if there is one.
    pub closed spec fn sub_category_spec(&self) -> Option<Seq<char>> {
        match self.sub_category {
            Some(s) => Some(s@),
            None => None,
        }
    }

    /// A category without a sub-category.
    pub fn new(name: &'static str) -> (r: Self)
        ensures
            r.category_spec() == name@,
            r.sub_category_spec() is None,
    {
        LogCategory { category: name, sub_category: None }
    }

    /// A category with a sub-category.
    pub fn new_with_sub(name: &'static str, sub_name: &'static str) -> (r: Self)
        ensures
            r.category_spec() == name@,
            r.sub_category_spec() == Some(sub_name@),
    {
        LogCategory { category: name, sub_category: Some(sub_name) }
    }

    /// The category as it is displayed: its name, followed by the sub-category's name in
    /// parentheses where there is one.
    pub fn to_string(&self) -> (r: String)
        ensures
            r@ == category_text(*self),
    {
        let mut s = String::new();
        string_push_str(&mut s, self.category);
        match self.sub_category {
            Some(sub) => {
                string_push_str(&mut s, "(");
                string_push_str(&mut s, sub);
                string_push_str(&mut s, ")");
            },
            None => {},
        }
        s
    }
}

/// The text a category is displayed with: its name, and the sub-category's name in
/// parentheses where there is one.
pub open spec fn category_text(c: LogCategory) -> Seq<char> {
    match c.sub_category_spec() {
        Some(sub) => c.category_spec() + "("@ + sub + ")"@,
        None => c.category_spec(),
    }
}

/// Where a log message was made: file, line, function, and the time stamp.
pub struct LogLocation {
    file: &'static str,
    line: u32,
    func: &'static str,
    time: u64,
}

impl LogLocation {
    /// The file's name.
    pub closed spec fn file_spec(&self) -> Seq<char> {
        self.file@
    }

    /// The line.
    pub closed spec fn line_spec(&self) -> u32 {
        self.line
    }

    /// The function's name.
    pub closed spec fn function_spec(&self) -> Seq<char> {
        self.func@
    }

    /// The time stamp.
    pub closed spec fn timestamp_spec(&self) -> u64 {
        self.time
    }

    /// Creates a new log location
    pub fn new(file: &'static str, line: u32, func: &'static str, time: u64) -> (r: Self)
        ensures
            r.file_spec() == file@,
            r.line_spec() == line,
            r.function_spec() == func@,
            r.timestamp_spec() == time,
    {
        LogLocation { file, line, func, time }
    }

    /// Get the file name where the log occured
    pub fn file(&self) -> (r: &str)
        ensures
            r@ == self.file_spec(),
    {
        self.file
    }

    /// Get the line where the log occurred
    pub fn line(&self) -> (r: u32)
        ensures
            r == self.line_spec(),
    {
        self.line
    }

    /// Get the function where the log occurred
    pub fn function(&self) -> (r: &str)
        ensures
            r@ == self.function_spec(),
    {
        self.func
    }

    /// Get the timestamp when the log occurred
    pub fn timestamp(&self) -> (r: u64)
        ensures
            r == self.timestamp_spec(),
    {
        self.time
    }
}

/// The text of the place a message was logged from, as a message of `level` shows it:
/// `(file:line: function)` for severe errors, errors and debug messages, nothing otherwise.
pub open spec fn location_text(loc: LogLocation, level: LogLevel) -> Seq<char> {
    if level == LogLevel::Severe || level == LogLevel::Error || level == LogLevel::Debug {
        "("@ + loc.file_spec() + ":"@ + decimal(loc.line_spec() as nat) + ": "@ + loc.function_spec()
            + ")"@
    } else {
        Seq::empty()
    }
}

/// The text a logged message starts with: the time stamp, the level's label, the category in
/// brackets, and the place it was logged from where the level shows that.
pub open spec fn header_text(category: LogCategory, level: LogLevel, loc: LogLocation) -> Seq<char> {
    "\x1B[38m"@ + decimal(loc.timestamp_spec() as nat) + "\x1B[0m "@ + level_label(level) + " ["@
        + category_text(category) + "] "@ + location_text(loc, level)
}

/// The text a logged message starts with (see [`header_text`]).
pub fn log_header(category: &LogCategory, level: LogLevel, loc: &LogLocation) -> (r: String)
    ensures
        r@ == header_text(*category, level, *loc),
{
    let mut s = String::new();
    string_push_str(&mut s, "\x1B[38m");
    push_decimal(&mut s, loc.timestamp());
    string_push_str(&mut s, "\x1B[0m ");
    string_push_str(&mut s, level.label());
    string_push_str(&mut s, " [");
    let c = category.to_string();
    string_push_str(&mut s, c.as_str());
    string_push_str(&mut s, "] ");
    let ghost before = s@;
    if level.shows_location() {
        string_push_str(&mut s, "(");
        string_push_str(&mut s, loc.file());
        string_push_str(&mut s, ":");
        push_decimal(&mut s, loc.line() as u64);
        string_push_str(&mut s, ": ");
        string_push_str(&mut s, loc.function());
        string_push_str(&mut s, ")");
        assert(s@ =~= before + location_text(*loc, level));
    } else {
        assert(s@ =~= before + location_text(*loc, level));
    }
    assert(s@ =~= header_text(*category, level, *loc));
    s
}

/// The number of writers a logger holds.
pub const MAX_WRITERS: usize = 8;

/// The size in bytes past which the cached text is written out.
pub const CACHE_FLUSH_LIMIT: usize = 4096;

/// The size in bytes of a text, in UTF-8.
pub open spec fn text_len(t: Seq<char>) -> nat {
    vstd::utf8::encode_utf8(t).len()
}

/// The cached text after `message` is written to it: a cache not made yet starts empty.
pub open spec fn cache_after(cache: Option<Seq<char>>, message: Seq<char>) -> Seq<char> {
    match cache {
        Some(c) => c + message,
        None => message,
    }
}

/// The writer slots of a logger, the text waiting to be written out, and how it is written.
pub struct LoggerState<W> {
    writers: [Option<W>; 8],
    cache: Option<String>,
    always_flush: bool,
    log_to_console: bool,
}

impl<W> LoggerState<W> {
    /// The writer slots.
    pub closed spec fn slots(&self) -> Seq<Option<W>> {
        self.writers@
    }

    /// The text waiting to be written out; none before the first message.
    pub closed spec fn cache_spec(&self) -> Option<Seq<char>> {
        match self.cache {
            Some(c) => Some(c@),
            None => None,
        }
    }

    /// Is the text written out after each message?
    pub closed spec fn always_flush_spec(&self) -> bool {
        self.always_flush
    }

    /// Is the text written to the console too?
    pub closed spec fn log_to_console_spec(&self) -> bool {
        self.log_to_console
    }

    /// No writers, no text, written out when the cache is full, and to the console too.
    pub fn new() -> (r: Self)
        ensures
            r.slots() == Seq::new(MAX_WRITERS as nat, |i: int| None::<W>),
            r.cache_spec() is None,
            !r.always_flush_spec(),
            r.log_to_console_spec(),
    {
        let r = LoggerState {
            writers: [None, None, None, None, None, None, None, None],
            cache: None,
            always_flush: false,
            log_to_console: true,
        };
        assert(r.slots() =~= Seq::new(MAX_WRITERS as nat, |i: int| None::<W>));
        r
    }

    /// Put `writer` in the first free slot and give its index; where every slot is taken,
    /// hand the writer back.
    pub fn add_writer(&mut self, writer: W) -> (r: Result<usize, W>)
        ensures
            match r {
                Ok(i) => {
                    &&& i < MAX_WRITERS
                    &&& old(self).slots()[i as int] is None
                    &&& forall|j: int| 0 <= j < i ==> old(self).slots()[j] is Some
                    &&& final(self).slots() == old(self).slots().update(i as int, Some(writer))
                },
                Err(w) => {
                    &&& w == writer
                    &&& forall|j: int| 0 <= j < MAX_WRITERS ==> old(self).slots()[j] is Some
                    &&& final(self).slots() == old(self).slots()
                },
            },
            final(self).cache_spec() == old(self).cache_spec(),
            final(self).always_flush_spec() == old(self).always_flush_spec(),
            final(self).log_to_console_spec() == old(self).log_to_console_spec(),
    {
        let mut i: usize = 0;
        while i < MAX_WRITERS
            invariant
                i <= MAX_WRITERS,
                *self == *old(self),
                forall|j: int| 0 <= j < i ==> old(self).slots()[j] is Some,
            decreases MAX_WRITERS - i,
        {
            if self.writers[i].is_none() {
                self.writers[i] = Some(writer);
                return Ok(i);
            }
            i = i + 1;
        }
        Err(writer)
    }

    /// Take the writer out of slot `index`, leaving the slot free.
    pub fn remove_writer(&mut self, index: usize) -> (r: Option<W>)
        requires
            index < MAX_WRITERS,
        ensures
            r == old(self).slots()[index as int],
            final(self).slots() == old(self).slots().update(index as int, None),
            final(self).cache_spec() == old(self).cache_spec(),
            final(self).always_flush_spec() == old(self).always_flush_spec(),
            final(self).log_to_console_spec() == old(self).log_to_console_spec(),
    {
        let mut out: Option<W> = None;
        std::mem::swap(&mut out, &mut self.writers[index]);
        out
    }

    /// The writer slots, to write the text out to.
    pub fn writers_mut(&mut self) -> (r: &mut [Option<W>; 8])
        ensures
            r@ == old(self).slots(),
            final(self).slots() == final(r)@,
            final(self).cache_spec() == old(self).cache_spec(),
            final(self).always_flush_spec() == old(self).always_flush_spec(),
            final(self).log_to_console_spec() == old(self).log_to_console_spec(),
    {
        &mut self.writers
    }

    /// Set whether the text is written out after each message.
    pub fn set_always_flush(&mut self, always_flush: bool)
        ensures
            final(self).always_flush_spec() == always_flush,
            final(self).slots() == old(self).slots(),
            final(self).cache_spec() == old(self).cache_spec(),
            final(self).log_to_console_spec() == old(self).log_to_console_spec(),
    {
        self.always_flush = always_flush;
    }

    /// Set whether the text is written to the console too.
    pub fn set_log_to_console(&mut self, log_to_console: bool)
        ensures
            final(self).log_to_console_spec() == log_to_console,
            final(self).slots() == old(self).slots(),
            final(self).cache_spec() == old(self).cache_spec(),
            final(self).always_flush_spec() == old(self).always_flush_spec(),
    {
        self.log_to_console = log_to_console;
    }

    /// Is the text written to the console too?
    pub fn log_to_console(&self) -> (r: bool)
        ensures
            r == self.log_to_console_spec(),
    {
        self.log_to_console
    }

    /// Is the cached text due to be written out: after each message, or once it is larger
    /// than the limit?
    pub fn flush_due(&self) -> (r: bool)
        ensures
            r == (self.always_flush_spec() || match self.cache_spec() {
                Some(c) => text_len(c) > CACHE_FLUSH_LIMIT,
                None => false,
            }),
    {
        if self.always_flush {
            return true;
        }
        match &self.cache {
            Some(c) => {
                let t: &str = c.as_str();
                let n: usize = t.as_bytes().len();
                n > CACHE_FLUSH_LIMIT
            },
            None => false,
        }
    }

    /// Add `message` to the cached text, and say whether the text is now due to be written
    /// out.
    pub fn write_message(&mut self, message: &str) -> (due: bool)
        ensures
            final(self).cache_spec() == Some(cache_after(old(self).cache_spec(), message@)),
            due == (old(self).always_flush_spec() || text_len(cache_after(old(self).cache_spec(), message@))
                > CACHE_FLUSH_LIMIT),
            final(self).slots() == old(self).slots(),
            final(self).always_flush_spec() == old(self).always_flush_spec(),
            final(self).log_to_console_spec() == old(self).log_to_console_spec(),
    {
        let mut c = match self.cache.take() {
            Some(c) => c,
            None => String::new(),
        };
        string_push_str(&mut c, message);
        self.cache = Some(c);
        self.flush_due()
    }

    /// Take the cached text out to write it, leaving the cache empty; there is none to write
    /// before the first message.
    pub fn take_pending(&mut self) -> (r: Option<String>)
        ensures
            match r {
                Some(t) => old(self).cache_spec() == Some(t@),
                None => old(self).cache_spec() is None,
            },
            final(self).cache_spec() == match old(self).cache_spec() {
                Some(c) => Some(Seq::<char>::empty()),
                None => None,
            },
            final(self).slots() == old(self).slots(),
            final(self).always_flush_spec() == old(self).always_flush_spec(),
            final(self).log_to_console_spec() == old(self).log_to_console_spec(),
    {
        match self.cache.take() {
            Some(c) => {
                self.cache = Some(String::new());
                Some(c)
            },
            None => None,
        }
    }
}

/// Messages reach the cache in the order they are written: two messages cache the same text
/// as the two written as one, and once the text was taken out, the next message is all that
/// is cached.
pub proof fn law_cache_keeps_order(cache: Option<Seq<char>>, first: Seq<char>, second: Seq<char>)
    ensures
        cache_after(Some(cache_after(cache, first)), second) == cache_after(cache, first + second),
        cache_after(Some(Seq::<char>::empty()), second) == second,
{
    match cache {
        Some(c) => {
            assert(c + first + second =~= c + (first + second));
        },
        None => {},
    }
    assert(Seq::<char>::empty() + second =~= second);
}

/// A writer put in a free slot is the one taken out of that slot again, and taking it out
/// leaves the slots as they were before.
pub proof fn law_added_writer_comes_back<W>(slots: Seq<Option<W>>, index: int, writer: W)
    requires
        0 <= index < slots.len(),
        slots[index] is None,
    ensures
        slots.update(index, Some(writer))[index] == Some(writer),
        slots.update(index, Some(writer)).update(index, None) == slots,
{
    assert(slots.update(index, Some(writer)).update(index, None) =~= slots);
}

/// A maximum level that lets a message through lets every more severe one through too.
pub proof fn law_more_severe_is_logged(level: LogLevel, more_severe: LogLevel, max_level: u8)
    requires
        level_rank(more_severe) <= level_rank(level),
        level_rank(level) <= max_level,
    ensures
        level_rank(more_severe) <= max_level,
{
}

/// Levels rank by severity in the order they are declared, from severe errors (rank 0) to
/// debug messages (rank 5), each strictly above the one before; so a maximum level of `m`
/// lets through exactly the levels at least as severe as the level of rank `m`.
pub proof fn law_level_rank_order()
    ensures
        level_rank(LogLevel::Severe) == 0,
        level_rank(LogLevel::Severe) < level_rank(LogLevel::Error),
        level_rank(LogLevel::Error) < level_rank(LogLevel::Warning),
        level_rank(LogLevel::Warning) < level_rank(LogLevel::Info),
        level_rank(LogLevel::Info) < level_rank(LogLevel::Verbose),
        level_rank(LogLevel::Verbose) < level_rank(LogLevel::Debug),
        level_rank(LogLevel::Debug) == 5,
        forall|a: LogLevel, b: LogLevel| #[trigger] level_rank(a) == #[trigger] level_rank(b) ==> a == b,
{
}

} // verus!
