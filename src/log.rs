use vstd::prelude::*;

verus! {

/// How serious a log entry is.
#[derive(Debug, Clone, Copy, PartialEq, Eq, Structural)]
pub enum LogLevel {
    Error,
    Warn,
    Info,
    Debug,
    Trace,
}

/// What stripping the terminal escape sequences out of a text gives: the
/// bytes that remain, or `None` where stripping fails.
pub uninterp spec fn ansi_strip_result(text: Seq<char>) -> Option<Seq<u8>>;

/// Bytes decoded as UTF-8, with each invalid sequence replaced by U+FFFD.
pub uninterp spec fn utf8_lossy(bytes: Seq<u8>) -> Seq<char>;

/// Relies on strip_ansi_escapes::strip: the bytes of `text` with its escape
/// sequences removed. Its signature allows a failure, which is passed on as
/// `None`; the parser writes into memory, so the outcome depends on the text
/// alone.
#[verifier::external_body]
fn strip_escapes(text: &str) -> (r: Option<Vec<u8>>)
    ensures
        match r {
            Some(bytes) => ansi_strip_result(text@) == Some(bytes@),
            None => ansi_strip_result(text@).is_none(),
        },
{
    strip_ansi_escapes::strip(text).ok()
}

/// Relies on String::from_utf8_lossy: the bytes decoded as UTF-8, invalid
/// sequences replaced.
#[verifier::external_body]
fn decode_lossy(bytes: &[u8]) -> (r: String)
    ensures
        r@ == utf8_lossy(bytes@),
{
    String::from_utf8_lossy(bytes).into_owned()
}

/// The text shown for a log message, given what stripping its escape
/// sequences gave: the stripped text, or the message itself when stripping
/// failed, so that the message is never lost.
pub fn log_display_text(message: &String, stripped: Option<Vec<u8>>) -> (r: String)
    ensures
        r@ == match stripped {
            Some(bytes) => utf8_lossy(bytes@),
            None => message@,
        },
{
    match stripped {
        Some(bytes) => decode_lossy(bytes.as_slice()),
        None => message.clone(),
    }
}

/// The text shown for a log message, as a sequence of characters.
pub open spec fn displayed_text(message: Seq<char>) -> Seq<char> {
    match ansi_strip_result(message) {
        Some(bytes) => utf8_lossy(bytes),
        None => message,
    }
}

/// The text shown for a log message: the message without its terminal escape
/// sequences, or the message as it is when they could not be stripped.
pub fn clean_log_message(message: &String) -> (r: String)
    ensures
        r@ == displayed_text(message@),
{
    let stripped = strip_escapes(message.as_str());
    log_display_text(message, stripped)
}

/// One message of the log.
#[derive(Debug, Clone)]
pub struct LogEntry {
    pub level: LogLevel,
    pub message: String,
}

/// The application log: entries in the order in which they were appended.
/// Entries are never removed.
pub struct Log {
    entries: Vec<LogEntry>,
}

impl View for Log {
    type V = Seq<(LogLevel, Seq<char>)>;

    closed spec fn view(&self) -> Seq<(LogLevel, Seq<char>)> {
        self.entries@.map_values(|e: LogEntry| (e.level, e.message@))
    }
}

impl Log {
    /// An empty log.
    pub fn new() -> (r: Log)
        ensures
            r@ == Seq::<(LogLevel, Seq<char>)>::empty(),
    {
        let r = Log { entries: Vec::new() };
        assert(r@ =~= Seq::<(LogLevel, Seq<char>)>::empty());
        r
    }

    /// Appends one entry at the end.
    pub fn push(&mut self, level: LogLevel, message: String)
        ensures
            final(self)@ == old(self)@.push((level, message@)),
    {
        let ghost m = message@;
        self.entries.push(LogEntry { level, message });
        assert(self@ =~= old(self)@.push((level, m)));
    }

    pub fn len(&self) -> (r: usize)
        ensures
            r == self@.len(),
    {
        self.entries.len()
    }

    /// The entries in order, each with its message as it is shown: without
    /// terminal escape sequences, or unchanged where stripping fails.
    pub fn display_lines(&self) -> (r: Vec<(LogLevel, String)>)
        ensures
            r@.len() == self@.len(),
            forall|i: int|
                0 <= i < r@.len() ==> {
                    &&& (#[trigger] r@[i]).0 == self@[i].0
                    &&& r@[i].1@ == displayed_text(self@[i].1)
                },
    {
        let mut lines: Vec<(LogLevel, String)> = Vec::new();
        let n = self.entries.len();
        let mut i: usize = 0;
        while i < n
            invariant
                n == self.entries@.len(),
                i <= n,
                lines@.len() == i,
                forall|k: int|
                    0 <= k < i ==> {
                        &&& (#[trigger] lines@[k]).0 == self@[k].0
                        &&& lines@[k].1@ == displayed_text(self@[k].1)
                    },
            decreases n - i,
        {
            let entry = &self.entries[i];
            let text = clean_log_message(&entry.message);
            lines.push((entry.level, text));
            i = i + 1;
        }
        lines
    }
}

} // verus!
