//! Analysis of the node's JSON-formatted log: classifying lines by severity,
//! extracting structured entries, and searching for messages.
//!
//! The log is held as its list of lines; the surrounding program reads the
//! log file and hands the lines over (or `None` when the file is missing).

use vstd::prelude::*;

use crate::text::{join_lines, join_lines_exec, spec_contains, str_contains, str_eq};
use crate::time::{parse_ts, parse_timestamp, ts_ge, Timestamp};

verus! {

/// The severity tag a log entry carries.
#[derive(Clone, Copy, Debug, PartialEq, Eq, Structural)]
pub enum Level {
    WARN,
    INFO,
    ERRO,
}

/// The message that marks a block successfully created by a leader event.
pub const SUCCESFULLY_CREATED_BLOCK_MSG: &'static str =
    "block from leader event successfully stored";

/// Mathematical model of one structured log entry.
pub ghost struct LogEntryView {
    pub msg: Seq<char>,
    pub level: Level,
    pub ts: Seq<char>,
    pub task: Option<Seq<char>>,
    pub hash: Option<Seq<char>>,
    pub reason: Option<Seq<char>>,
    pub error: Option<Seq<char>>,
    pub peer_addr: Option<Seq<char>>,
}

/// One structured log entry: the message, severity and timestamp every entry
/// carries, and the optional fields some entries carry.
pub struct LogEntry {
    pub msg: String,
    pub level: Level,
    pub ts: String,
    pub task: Option<String>,
    pub hash: Option<String>,
    pub reason: Option<String>,
    pub error: Option<String>,
    pub peer_addr: Option<String>,
}

/// The view of an optional string.
pub open spec fn opt_view(o: Option<String>) -> Option<Seq<char>> {
    match o {
        Some(s) => Some(s@),
        None => None,
    }
}

impl View for LogEntry {
    type V = LogEntryView;

    open spec fn view(&self) -> LogEntryView {
        LogEntryView {
            msg: self.msg@,
            level: self.level,
            ts: self.ts@,
            task: opt_view(self.task),
            hash: opt_view(self.hash),
            reason: opt_view(self.reason),
            error: opt_view(self.error),
            peer_addr: opt_view(self.peer_addr),
        }
    }
}

impl LogEntry {
    /// Whether the entry has a reason field that contains `reason_part`.
    pub fn reason_contains(&self, reason_part: &str) -> (r: bool)
        ensures
            r == match self@.reason {
                Some(reason) => spec_contains(reason, reason_part@),
                None => false,
            },
    {
        match &self.reason {
            Some(reason) => str_contains(reason.as_str(), reason_part),
            None => false,
        }
    }

    /// The moment the entry was written, parsed from its timestamp text.
    pub fn timestamp(&self) -> (r: Timestamp)
        requires
            parse_ts(self@.ts) is Some,
        ensures
            Some(r) == parse_ts(self@.ts),
    {
        match parse_timestamp(self.ts.as_str()) {
            Some(t) => t,
            None => unreached(),
        }
    }

    /// Whether the entry was written at or after the given moment.
    pub fn is_later_than(&self, reference_time: &Timestamp) -> (r: bool)
        requires
            parse_ts(self@.ts) is Some,
        ensures
            r == ts_ge(parse_ts(self@.ts).unwrap(), *reference_time),
    {
        let entry_time = self.timestamp();
        entry_time.is_not_before(reference_time)
    }

    /// Whether the entry has an error field that contains `error_part`.
    pub fn error_contains(&self, error_part: &str) -> (r: bool)
        ensures
            r == match self@.error {
                Some(error) => spec_contains(error, error_part@),
                None => false,
            },
    {
        match &self.error {
            Some(error) => str_contains(error.as_str(), error_part),
            None => false,
        }
    }
}

/// The string-valued fields of the given text when it parses as a JSON
/// object all of whose values are strings; the fields come sorted by key.
pub uninterp spec fn json_fields_of(s: Seq<char>) -> Option<Seq<(Seq<char>, Seq<char>)>>;

/// The view of a list of string field pairs.
pub open spec fn fields_view(fields: Seq<(String, String)>) -> Seq<(Seq<char>, Seq<char>)> {
    fields.map_values(|p: (String, String)| (p.0@, p.1@))
}

/// Relies on serde_json::from_str: deserializes a JSON object whose values
/// are all strings into a string-to-string map; the outcome depends on the
/// input text alone.
#[verifier::external_body]
fn parse_json_string_fields(line: &str) -> (r: Option<Vec<(String, String)>>)
    ensures
        (r is Some) == (json_fields_of(line@) is Some),
        r matches Some(v) ==> Some(fields_view(v@)) == json_fields_of(line@),
{
    match serde_json::from_str::<std::collections::BTreeMap<String, String>>(line) {
        Ok(map) => Some(map.into_iter().collect()),
        Err(_) => None,
    }
}

/// The value of the first field named `key`, if any.
pub open spec fn field_value(fields: Seq<(Seq<char>, Seq<char>)>, key: Seq<char>) -> Option<
    Seq<char>,
>
    decreases fields.len(),
{
    if fields.len() == 0 {
        None
    } else if fields[0].0 == key {
        Some(fields[0].1)
    } else {
        field_value(fields.drop_first(), key)
    }
}

/// Looks up the first field named `key`.
pub fn find_field(fields: &Vec<(String, String)>, key: &str) -> (r: Option<String>)
    ensures
        opt_view(r) == field_value(fields_view(fields@), key@),
{
    let ghost fv = fields_view(fields@);
    let n = fields.len();
    let mut i: usize = 0;
    proof {
        assert(fv.skip(0) =~= fv);
    }
    while i < n
        invariant
            0 <= i <= n,
            n == fields.len(),
            fv == fields_view(fields@),
            field_value(fv, key@) == field_value(fv.skip(i as int), key@),
            fv.skip(i as int).len() == n - i,
        decreases n - i,
    {
        proof {
            assert(fv.skip(i as int)[0] == fv[i as int]);
        }
        if str_eq(fields[i].0.as_str(), key) {
            return Some(fields[i].1.clone());
        }
        proof {
            assert(fv.skip(i as int).drop_first() =~= fv.skip(i + 1));
        }
        i = i + 1;
    }
    proof {
        assert(fv.skip(n as int).len() == 0);
    }
    None
}

/// The severity named by the given field value, if it names one.
pub open spec fn level_of(s: Seq<char>) -> Option<Level> {
    if s == "WARN"@ {
        Some(Level::WARN)
    } else if s == "INFO"@ {
        Some(Level::INFO)
    } else if s == "ERRO"@ {
        Some(Level::ERRO)
    } else {
        None
    }
}

/// Parses a severity tag.
pub fn parse_level(s: &str) -> (r: Option<Level>)
    ensures
        r == level_of(s@),
{
    if str_eq(s, "WARN") {
        Some(Level::WARN)
    } else if str_eq(s, "INFO") {
        Some(Level::INFO)
    } else if str_eq(s, "ERRO") {
        Some(Level::ERRO)
    } else {
        None
    }
}

/// The structured entry described by the given fields: an entry needs a
/// message, a timestamp and a recognised severity; the remaining fields are
/// optional.
pub open spec fn entry_of_fields(fields: Seq<(Seq<char>, Seq<char>)>) -> Option<LogEntryView> {
    let msg = field_value(fields, "msg"@);
    let level = field_value(fields, "level"@);
    let ts = field_value(fields, "ts"@);
    if msg is Some && ts is Some && level is Some && level_of(level.unwrap()) is Some {
        Some(
            LogEntryView {
                msg: msg.unwrap(),
                level: level_of(level.unwrap()).unwrap(),
                ts: ts.unwrap(),
                task: field_value(fields, "task"@),
                hash: field_value(fields, "hash"@),
                reason: field_value(fields, "reason"@),
                error: field_value(fields, "error"@),
                peer_addr: field_value(fields, "peer_addr"@),
            },
        )
    } else {
        None
    }
}

/// Builds the structured entry described by the given fields.
pub fn entry_from_fields(fields: &Vec<(String, String)>) -> (r: Option<LogEntry>)
    ensures
        (r is Some) == (entry_of_fields(fields_view(fields@)) is Some),
        r matches Some(e) ==> Some(e@) == entry_of_fields(fields_view(fields@)),
{
    let msg = find_field(fields, "msg");
    let level = find_field(fields, "level");
    let ts = find_field(fields, "ts");
    if let (Some(msg), Some(level), Some(ts)) = (msg, level, ts) {
        if let Some(level) = parse_level(level.as_str()) {
            return Some(
                LogEntry {
                    msg,
                    level,
                    ts,
                    task: find_field(fields, "task"),
                    hash: find_field(fields, "hash"),
                    reason: find_field(fields, "reason"),
                    error: find_field(fields, "error"),
                    peer_addr: find_field(fields, "peer_addr"),
                },
            );
        }
        return None;
    }
    None
}

/// The structured entry a log line yields, if it parses as one.
pub open spec fn entry_of_line(s: Seq<char>) -> Option<LogEntryView> {
    match json_fields_of(s) {
        Some(fields) => entry_of_fields(fields),
        None => None,
    }
}

/// Parses one log line into a structured entry.
pub fn try_parse_line_as_entry(line: &str) -> (r: Option<LogEntry>)
    ensures
        (r is Some) == (entry_of_line(line@) is Some),
        r matches Some(e) ==> Some(e@) == entry_of_line(line@),
{
    match parse_json_string_fields(line) {
        Some(fields) => entry_from_fields(&fields),
        None => None,
    }
}

/// The line parses as an entry with severity `ERRO`.
pub open spec fn is_error_line_spec(s: Seq<char>) -> bool {
    match entry_of_line(s) {
        Some(e) => e.level == Level::ERRO,
        None => false,
    }
}

/// The line parses as an entry with severity `WARN`.
pub open spec fn is_warn_line_spec(s: Seq<char>) -> bool {
    match entry_of_line(s) {
        Some(e) => e.level == Level::WARN,
        None => false,
    }
}

/// The line has severity `ERRO` or does not parse at all.
pub open spec fn is_error_or_invalid_line_spec(s: Seq<char>) -> bool {
    match entry_of_line(s) {
        Some(e) => e.level == Level::ERRO,
        None => true,
    }
}

/// The entry records a block successfully created by a leader event.
pub open spec fn is_block_creation(e: LogEntryView) -> bool {
    &&& e.msg == SUCCESFULLY_CREATED_BLOCK_MSG@
    &&& e.task == Some("block"@)
    &&& e.hash is Some
}

/// The structured entries of the lines that parse, in order.
pub open spec fn entries_of(lines: Seq<Seq<char>>) -> Seq<LogEntryView>
    decreases lines.len(),
{
    if lines.len() == 0 {
        Seq::<LogEntryView>::empty()
    } else {
        entries_of(lines.drop_last()) + match entry_of_line(lines.last()) {
            Some(e) => seq![e],
            None => Seq::<LogEntryView>::empty(),
        }
    }
}

/// How many lines parse as entries whose message contains `message`.
pub open spec fn count_msg_matches(lines: Seq<Seq<char>>, message: Seq<char>) -> int
    decreases lines.len(),
{
    if lines.len() == 0 {
        0
    } else {
        count_msg_matches(lines.drop_last(), message) + match entry_of_line(lines.last()) {
            Some(e) => if spec_contains(e.msg, message) {
                1int
            } else {
                0int
            },
            None => 0int,
        }
    }
}

/// How many lines parse as block-creation entries.
pub open spec fn count_block_creations(lines: Seq<Seq<char>>) -> int
    decreases lines.len(),
{
    if lines.len() == 0 {
        0
    } else {
        count_block_creations(lines.drop_last()) + match entry_of_line(lines.last()) {
            Some(e) => if is_block_creation(e) {
                1int
            } else {
                0int
            },
            None => 0int,
        }
    }
}

/// The block-creation entries among the lines' entries, in order.
pub open spec fn block_creation_entries(lines: Seq<Seq<char>>) -> Seq<LogEntryView> {
    entries_of(lines).filter(|e: LogEntryView| is_block_creation(e))
}

/// The failure a log analysis reports: the log file the analyser was pointed
/// at does not exist.
#[derive(Debug)]
pub enum LoggerError {
    LogFileDoesNotExists { log_file: String },
}

/// Mathematical model of the log analyser: the path it was created with, and
/// the log's lines (`None` when the log file does not exist).
pub ghost struct LoggerView {
    pub path: Seq<char>,
    pub content: Option<Seq<Seq<char>>>,
}

/// Analyses the node's JSON log. Holds the log's lines, as read from the
/// log file by the surrounding program (`None` when the file is missing).
#[derive(Debug)]
pub struct JormungandrLogger {
    pub log_file_path: String,
    content: Option<Vec<String>>,
}

impl View for JormungandrLogger {
    type V = LoggerView;

    closed spec fn view(&self) -> LoggerView {
        LoggerView {
            path: self.log_file_path@,
            content: match self.content {
                Some(lines) => Some(lines@.map_values(|s: String| s@)),
                None => None,
            },
        }
    }
}

impl JormungandrLogger {
    /// Creates the analyser over the given log file path and its lines
    /// (`None` when the file does not exist).
    pub fn new(path: String, content: Option<Vec<String>>) -> (r: JormungandrLogger)
        ensures
            r@.path == path@,
            r@.content is Some <==> content is Some,
            content matches Some(lines) ==> r@.content == Some(
                lines@.map_values(|s: String| s@),
            ),
    {
        JormungandrLogger { log_file_path: path, content }
    }

    /// The markers whose presence anywhere in the raw log counts as an
    /// error indication.
    pub fn get_error_indicators() -> (r: Vec<&'static str>)
        ensures
            r@.len() == 1,
            r@[0]@ == "panicked"@,
    {
        let mut v: Vec<&'static str> = Vec::new();
        v.push("panicked");
        v
    }

    /// Whether the log file existed when the analyser was created.
    pub fn verify_file_exists(&self) -> (r: Result<(), LoggerError>)
        ensures
            (r is Ok) == (self@.content is Some),
            r matches Err(e) ==> e matches LoggerError::LogFileDoesNotExists { log_file }
                && log_file@ == self@.path,
    {
        match &self.content {
            Some(_) => Ok(()),
            None => Err(
                LoggerError::LogFileDoesNotExists { log_file: self.log_file_path.clone() },
            ),
        }
    }

    /// The log's lines.
    pub fn get_lines_from_log(&self) -> (r: Vec<String>)
        requires
            self@.content is Some,
        ensures
            r@.map_values(|s: String| s@) == self@.content.unwrap(),
    {
        let lines = match &self.content {
            Some(lines) => lines,
            None => unreached(),
        };
        let ghost lv = self@.content.unwrap();
        let n = lines.len();
        let mut out: Vec<String> = Vec::new();
        let mut i: usize = 0;
        while i < n
            invariant
                0 <= i <= n,
                n == lines.len(),
                lv == lines@.map_values(|s: String| s@),
                out@.len() == i,
                forall|j: int| 0 <= j < i ==> out@[j]@ == lv[j],
            decreases n - i,
        {
            out.push(lines[i].clone());
            i = i + 1;
        }
        proof {
            assert(out@.map_values(|s: String| s@) =~= lv);
        }
        out
    }

    /// The whole log text: the lines joined by newlines.
    pub fn get_log_content(&self) -> (r: String)
        requires
            self@.content is Some,
        ensures
            r@ == join_lines(self@.content.unwrap()),
    {
        let lines = match &self.content {
            Some(lines) => lines,
            None => unreached(),
        };
        join_lines_exec(lines)
    }

    /// Classifies one line: does it parse as an entry with severity `ERRO`?
    pub fn is_error_line(&self, line: &str) -> (r: bool)
        ensures
            r == is_error_line_spec(line@),
    {
        match try_parse_line_as_entry(line) {
            Some(entry) => entry.level == Level::ERRO,
            None => false,
        }
    }

    /// Classifies one line: does it parse as an entry with severity `WARN`?
    pub fn is_warn_line(&self, line: &str) -> (r: bool)
        ensures
            r == is_warn_line_spec(line@),
    {
        match try_parse_line_as_entry(line) {
            Some(entry) => entry.level == Level::WARN,
            None => false,
        }
    }

    /// Classifies one line: severity `ERRO`, or not parseable at all?
    pub fn is_error_line_or_invalid(&self, line: &str) -> (r: bool)
        ensures
            r == is_error_or_invalid_line_spec(line@),
    {
        match try_parse_line_as_entry(line) {
            Some(entry) => entry.level == Level::ERRO,
            None => true,
        }
    }

    /// The lines that parse as entries with severity `ERRO`.
    pub fn get_lines_with_error(&self) -> (r: Vec<String>)
        requires
            self@.content is Some,
        ensures
            r@.map_values(|s: String| s@) == self@.content.unwrap().filter(
                |l: Seq<char>| is_error_line_spec(l),
            ),
    {
        let lines = match &self.content {
            Some(lines) => lines,
            None => unreached(),
        };
        let ghost lv = self@.content.unwrap();
        let ghost pred = |l: Seq<char>| is_error_line_spec(l);
        let n = lines.len();
        let mut out: Vec<String> = Vec::new();
        proof {
            reveal(Seq::filter);
            assert(lv.take(0).filter(pred) =~= Seq::<Seq<char>>::empty());
            assert(out@.map_values(|s: String| s@) =~= lv.take(0).filter(pred));
        }
        let mut i: usize = 0;
        while i < n
            invariant
                0 <= i <= n,
                n == lines.len(),
                lv == lines@.map_values(|s: String| s@),
                pred == |l: Seq<char>| is_error_line_spec(l),
                out@.map_values(|s: String| s@) == lv.take(i as int).filter(pred),
            decreases n - i,
        {
            let keep = self.is_error_line(lines[i].as_str());
            let ghost prev = out@;
            if keep {
                out.push(lines[i].clone());
            }
            proof {
                reveal(Seq::filter);
                let t1 = lv.take(i + 1);
                assert(t1.drop_last() =~= lv.take(i as int));
                assert(t1.last() == lv[i as int]);
                assert(t1.filter(pred) == if pred(t1.last()) {
                    t1.drop_last().filter(pred).push(t1.last())
                } else {
                    t1.drop_last().filter(pred)
                });
                assert(out@.map_values(|s: String| s@) =~= t1.filter(pred));
            }
            i = i + 1;
        }
        proof {
            assert(lv.take(n as int) =~= lv);
        }
        out
    }

    /// The lines with severity `WARN`.
    pub fn get_lines_with_warn(&self) -> (r: Vec<String>)
        requires
            self@.content is Some,
        ensures
            r@.map_values(|s: String| s@) == self@.content.unwrap().filter(
                |l: Seq<char>| is_warn_line_spec(l),
            ),
    {
        let lines = match &self.content {
            Some(lines) => lines,
            None => unreached(),
        };
        let ghost lv = self@.content.unwrap();
        let ghost pred = |l: Seq<char>| is_warn_line_spec(l);
        let n = lines.len();
        let mut out: Vec<String> = Vec::new();
        proof {
            reveal(Seq::filter);
            assert(lv.take(0).filter(pred) =~= Seq::<Seq<char>>::empty());
            assert(out@.map_values(|s: String| s@) =~= lv.take(0).filter(pred));
        }
        let mut i: usize = 0;
        while i < n
            invariant
                0 <= i <= n,
                n == lines.len(),
                lv == lines@.map_values(|s: String| s@),
                pred == |l: Seq<char>| is_warn_line_spec(l),
                out@.map_values(|s: String| s@) == lv.take(i as int).filter(pred),
            decreases n - i,
        {
            let keep = self.is_warn_line(lines[i].as_str());
            if keep {
                out.push(lines[i].clone());
            }
            proof {
                reveal(Seq::filter);
                let t1 = lv.take(i + 1);
                assert(t1.drop_last() =~= lv.take(i as int));
                assert(t1.last() == lv[i as int]);
                assert(t1.filter(pred) == if pred(t1.last()) {
                    t1.drop_last().filter(pred).push(t1.last())
                } else {
                    t1.drop_last().filter(pred)
                });
                assert(out@.map_values(|s: String| s@) =~= t1.filter(pred));
            }
            i = i + 1;
        }
        proof {
            assert(lv.take(n as int) =~= lv);
        }
        out
    }

    /// The lines with severity `ERRO`, plus the lines that do not parse.
    pub fn get_lines_with_error_and_invalid(&self) -> (r: Vec<String>)
        requires
            self@.content is Some,
        ensures
            r@.map_values(|s: String| s@) == self@.content.unwrap().filter(
                |l: Seq<char>| is_error_or_invalid_line_spec(l),
            ),
    {
        let lines = match &self.content {
            Some(lines) => lines,
            None => unreached(),
        };
        let ghost lv = self@.content.unwrap();
        let ghost pred = |l: Seq<char>| is_error_or_invalid_line_spec(l);
        let n = lines.len();
        let mut out: Vec<String> = Vec::new();
        proof {
            reveal(Seq::filter);
            assert(lv.take(0).filter(pred) =~= Seq::<Seq<char>>::empty());
            assert(out@.map_values(|s: String| s@) =~= lv.take(0).filter(pred));
        }
        let mut i: usize = 0;
        while i < n
            invariant
                0 <= i <= n,
                n == lines.len(),
                lv == lines@.map_values(|s: String| s@),
                pred == |l: Seq<char>| is_error_or_invalid_line_spec(l),
                out@.map_values(|s: String| s@) == lv.take(i as int).filter(pred),
            decreases n - i,
        {
            let keep = self.is_error_line_or_invalid(lines[i].as_str());
            if keep {
                out.push(lines[i].clone());
            }
            proof {
                reveal(Seq::filter);
                let t1 = lv.take(i + 1);
                assert(t1.drop_last() =~= lv.take(i as int));
                assert(t1.last() == lv[i as int]);
                assert(t1.filter(pred) == if pred(t1.last()) {
                    t1.drop_last().filter(pred).push(t1.last())
                } else {
                    t1.drop_last().filter(pred)
                });
                assert(out@.map_values(|s: String| s@) =~= t1.filter(pred));
            }
            i = i + 1;
        }
        proof {
            assert(lv.take(n as int) =~= lv);
        }
        out
    }

    /// The lines with severity `WARN` or `ERRO`.
    pub fn get_lines_with_error_and_warn(&self) -> (r: Vec<String>)
        requires
            self@.content is Some,
        ensures
            r@.map_values(|s: String| s@) == self@.content.unwrap().filter(
                |l: Seq<char>| is_warn_line_spec(l) || is_error_line_spec(l),
            ),
    {
        let lines = match &self.content {
            Some(lines) => lines,
            None => unreached(),
        };
        let ghost lv = self@.content.unwrap();
        let ghost pred = |l: Seq<char>| is_warn_line_spec(l) || is_error_line_spec(l);
        let n = lines.len();
        let mut out: Vec<String> = Vec::new();
        proof {
            reveal(Seq::filter);
            assert(lv.take(0).filter(pred) =~= Seq::<Seq<char>>::empty());
            assert(out@.map_values(|s: String| s@) =~= lv.take(0).filter(pred));
        }
        let mut i: usize = 0;
        while i < n
            invariant
                0 <= i <= n,
                n == lines.len(),
                lv == lines@.map_values(|s: String| s@),
                pred == |l: Seq<char>| is_warn_line_spec(l) || is_error_line_spec(l),
                out@.map_values(|s: String| s@) == lv.take(i as int).filter(pred),
            decreases n - i,
        {
            let keep = self.is_warn_line(lines[i].as_str()) || self.is_error_line(
                lines[i].as_str(),
            );
            if keep {
                out.push(lines[i].clone());
            }
            proof {
                reveal(Seq::filter);
                let t1 = lv.take(i + 1);
                assert(t1.drop_last() =~= lv.take(i as int));
                assert(t1.last() == lv[i as int]);
                assert(t1.filter(pred) == if pred(t1.last()) {
                    t1.drop_last().filter(pred).push(t1.last())
                } else {
                    t1.drop_last().filter(pred)
                });
                assert(out@.map_values(|s: String| s@) =~= t1.filter(pred));
            }
            i = i + 1;
        }
        proof {
            assert(lv.take(n as int) =~= lv);
        }
        out
    }

    /// The structured entries of the lines that parse, in order.
    pub fn get_log_entries(&self) -> (r: Vec<LogEntry>)
        requires
            self@.content is Some,
        ensures
            r@.map_values(|e: LogEntry| e@) == entries_of(self@.content.unwrap()),
    {
        let lines = match &self.content {
            Some(lines) => lines,
            None => unreached(),
        };
        let ghost lv = self@.content.unwrap();
        let n = lines.len();
        let mut out: Vec<LogEntry> = Vec::new();
        proof {
            assert(lv.take(0) =~= Seq::<Seq<char>>::empty());
            assert(out@.map_values(|e: LogEntry| e@) =~= entries_of(lv.take(0)));
        }
        let mut i: usize = 0;
        while i < n
            invariant
                0 <= i <= n,
                n == lines.len(),
                lv == lines@.map_values(|s: String| s@),
                out@.map_values(|e: LogEntry| e@) == entries_of(lv.take(i as int)),
            decreases n - i,
        {
            if let Some(entry) = try_parse_line_as_entry(lines[i].as_str()) {
                out.push(entry);
            }
            proof {
                let t1 = lv.take(i + 1);
                assert(t1.drop_last() =~= lv.take(i as int));
                assert(t1.last() == lv[i as int]);
                assert(out@.map_values(|e: LogEntry| e@) =~= entries_of(t1));
            }
            i = i + 1;
        }
        proof {
            assert(lv.take(n as int) =~= lv);
        }
        out
    }

    /// The block-creation entries, in order.
    pub fn filter_entries_with_block_creation(&self) -> (r: Vec<LogEntry>)
        requires
            self@.content is Some,
        ensures
            r@.map_values(|e: LogEntry| e@) == block_creation_entries(self@.content.unwrap()),
    {
        let entries = self.get_log_entries();
        let ghost ev = entries_of(self@.content.unwrap());
        let ghost pred = |e: LogEntryView| is_block_creation(e);
        let n = entries.len();
        let mut out: Vec<LogEntry> = Vec::new();
        proof {
            reveal(Seq::filter);
            assert(ev.take(0).filter(pred) =~= Seq::<LogEntryView>::empty());
            assert(out@.map_values(|e: LogEntry| e@) =~= ev.take(0).filter(pred));
        }
        let mut i: usize = 0;
        while i < n
            invariant
                0 <= i <= n,
                n == entries.len(),
                ev == entries@.map_values(|e: LogEntry| e@),
                pred == |e: LogEntryView| is_block_creation(e),
                out@.map_values(|e: LogEntry| e@) == ev.take(i as int).filter(pred),
            decreases n - i,
        {
            let e = &entries[i];
            let msg_matches = str_eq(e.msg.as_str(), SUCCESFULLY_CREATED_BLOCK_MSG);
            let task_matches = match &e.task {
                Some(task) => str_eq(task.as_str(), "block"),
                None => false,
            };
            let keep = msg_matches && task_matches && e.hash.is_some();
            proof {
                assert(keep == pred(ev[i as int]));
            }
            if keep {
                let copy = LogEntry {
                    msg: e.msg.clone(),
                    level: e.level,
                    ts: e.ts.clone(),
                    task: e.task.clone(),
                    hash: e.hash.clone(),
                    reason: e.reason.clone(),
                    error: e.error.clone(),
                    peer_addr: e.peer_addr.clone(),
                };
                proof {
                    assert(copy@ == ev[i as int]);
                }
                out.push(copy);
            }
            proof {
                reveal(Seq::filter);
                let t1 = ev.take(i + 1);
                assert(t1.drop_last() =~= ev.take(i as int));
                assert(t1.last() == ev[i as int]);
                assert(t1.filter(pred) == if pred(t1.last()) {
                    t1.drop_last().filter(pred).push(t1.last())
                } else {
                    t1.drop_last().filter(pred)
                });
                assert(out@.map_values(|e: LogEntry| e@) =~= t1.filter(pred));
            }
            i = i + 1;
        }
        proof {
            assert(ev.take(n as int) =~= ev);
        }
        out
    }

    /// The hashes of the blocks the block-creation entries record, in order.
    pub fn get_created_blocks_hashes(&self) -> (r: Vec<String>)
        requires
            self@.content is Some,
        ensures
            r@.map_values(|s: String| s@) == block_creation_entries(
                self@.content.unwrap(),
            ).map_values(|e: LogEntryView| e.hash.unwrap()),
    {
        let created = self.filter_entries_with_block_creation();
        let ghost pred = |e: LogEntryView| is_block_creation(e);
        let ghost filtered = entries_of(self@.content.unwrap()).filter(pred);
        let n = created.len();
        let mut out: Vec<String> = Vec::new();
        let mut i: usize = 0;
        while i < n
            invariant
                0 <= i <= n,
                n == created.len(),
                self@.content is Some,
                pred == (|e: LogEntryView| is_block_creation(e)),
                filtered == entries_of(self@.content.unwrap()).filter(pred),
                filtered == created@.map_values(|e: LogEntry| e@),
                out@.len() == i,
                forall|j: int| 0 <= j < i ==> out@[j]@ == filtered[j].hash.unwrap(),
            decreases n - i,
        {
            proof {
                entries_of(self@.content.unwrap()).lemma_filter_pred(pred, i as int);
                assert(is_block_creation(filtered[i as int]));
            }
            match &created[i].hash {
                Some(hash) => out.push(hash.clone()),
                None => unreached(),
            }
            i = i + 1;
        }
        proof {
            assert(out@.map_values(|s: String| s@) =~= filtered.map_values(
                |e: LogEntryView| e.hash.unwrap(),
            ));
        }
        out
    }

    /// The hashes of the blocks created at or after the given moment, in
    /// order. Every block-creation entry must carry a well-formed timestamp.
    pub fn get_created_blocks_hashes_after(&self, reference_time: &Timestamp) -> (r: Vec<String>)
        requires
            self@.content is Some,
            forall|i: int|
                0 <= i < block_creation_entries(self@.content.unwrap()).len() ==> parse_ts(
                    #[trigger] block_creation_entries(self@.content.unwrap())[i].ts,
                ) is Some,
        ensures
            r@.map_values(|s: String| s@) == block_creation_entries(
                self@.content.unwrap(),
            ).filter(|e: LogEntryView| ts_ge(parse_ts(e.ts).unwrap(), *reference_time)).map_values(
                |e: LogEntryView| e.hash.unwrap(),
            ),
    {
        let created = self.filter_entries_with_block_creation();
        let ghost block_pred = |e: LogEntryView| is_block_creation(e);
        let ghost blocks = entries_of(self@.content.unwrap()).filter(block_pred);
        let ghost later = |e: LogEntryView| ts_ge(parse_ts(e.ts).unwrap(), *reference_time);
        let n = created.len();
        let mut out: Vec<String> = Vec::new();
        proof {
            reveal(Seq::filter);
            assert(blocks.take(0).filter(later) =~= Seq::<LogEntryView>::empty());
            assert(out@.map_values(|s: String| s@) =~= blocks.take(0).filter(later).map_values(
                |e: LogEntryView| e.hash.unwrap(),
            ));
        }
        let mut i: usize = 0;
        while i < n
            invariant
                0 <= i <= n,
                n == created.len(),
                self@.content is Some,
                block_pred == (|e: LogEntryView| is_block_creation(e)),
                blocks == entries_of(self@.content.unwrap()).filter(block_pred),
                blocks == created@.map_values(|e: LogEntry| e@),
                later == (|e: LogEntryView| ts_ge(parse_ts(e.ts).unwrap(), *reference_time)),
                forall|j: int| 0 <= j < blocks.len() ==> parse_ts(#[trigger] blocks[j].ts) is Some,
                out@.map_values(|s: String| s@) == blocks.take(i as int).filter(later).map_values(
                    |e: LogEntryView| e.hash.unwrap(),
                ),
            decreases n - i,
        {
            proof {
                entries_of(self@.content.unwrap()).lemma_filter_pred(block_pred, i as int);
                assert(is_block_creation(blocks[i as int]));
            }
            proof {
                assert(blocks[i as int] == created@[i as int]@);
            }
            let keep = created[i].is_later_than(reference_time);
            proof {
                assert(keep == later(blocks[i as int]));
            }
            if keep {
                match &created[i].hash {
                    Some(hash) => out.push(hash.clone()),
                    None => unreached(),
                }
            }
            proof {
                reveal(Seq::filter);
                let hv = |e: LogEntryView| e.hash.unwrap();
                let prev = blocks.take(i as int).filter(later);
                let t1 = blocks.take(i + 1);
                assert(t1.drop_last() =~= blocks.take(i as int));
                assert(t1.last() == blocks[i as int]);
                assert(t1.filter(later) == if later(t1.last()) {
                    prev.push(t1.last())
                } else {
                    prev
                });
                if keep {
                    assert(prev.push(blocks[i as int]).map_values(hv) =~= prev.map_values(
                        hv,
                    ).push(blocks[i as int].hash.unwrap()));
                    assert(out@.map_values(|s: String| s@) =~= prev.map_values(hv).push(
                        blocks[i as int].hash.unwrap(),
                    ));
                }
                assert(out@.map_values(|s: String| s@) =~= t1.filter(later).map_values(hv));
            }
            i = i + 1;
        }
        proof {
            assert(blocks.take(n as int) =~= blocks);
        }
        out
    }

    /// How many block-creation entries the log holds.
    pub fn get_created_blocks_counter(&self) -> (r: usize)
        requires
            self@.content is Some,
        ensures
            r == block_creation_entries(self@.content.unwrap()).len(),
    {
        let filtered = self.filter_entries_with_block_creation();
        let ghost ev = entries_of(self@.content.unwrap());
        proof {
            assert(filtered@.map_values(|e: LogEntry| e@).len() == filtered@.len());
        }
        filtered.len()
    }

    /// Whether the raw log holds an error indication: a panic marker
    /// anywhere in the text, or at least one line with severity `ERRO`.
    pub fn contains_error(&self) -> (r: Result<bool, LoggerError>)
        ensures
            (r is Ok) == (self@.content is Some),
            r matches Err(e) ==> e matches LoggerError::LogFileDoesNotExists { log_file }
                && log_file@ == self@.path,
            r matches Ok(found) ==> found == (spec_contains(
                join_lines(self@.content.unwrap()),
                "panicked"@,
            ) || self@.content.unwrap().filter(|l: Seq<char>| is_error_line_spec(l)).len() > 0),
    {
        self.verify_file_exists()?;
        let content = self.get_log_content();
        let panic_found = str_contains(content.as_str(), "panicked");
        let error_lines = self.get_lines_with_error();
        proof {
            assert(error_lines@.map_values(|s: String| s@).len() == error_lines@.len());
        }
        Ok(panic_found || error_lines.len() > 0)
    }

    /// Whether the raw log text contains any of the given messages.
    pub fn raw_log_contains_any_of(&self, messages: &[&str]) -> (r: Result<bool, LoggerError>)
        requires
            self@.content is Some,
        ensures
            r matches Ok(found) && found == exists|i: int|
                0 <= i < messages@.len() && spec_contains(
                    join_lines(self@.content.unwrap()),
                    messages@[i]@,
                ),
    {
        let content = self.get_log_content();
        let n = messages.len();
        let mut i: usize = 0;
        while i < n
            invariant
                0 <= i <= n,
                n == messages@.len(),
                content@ == join_lines(self@.content.unwrap()),
                forall|j: int|
                    0 <= j < i ==> !spec_contains(
                        join_lines(self@.content.unwrap()),
                        messages@[j]@,
                    ),
            decreases n - i,
        {
            if str_contains(content.as_str(), messages[i]) {
                return Ok(true);
            }
            i = i + 1;
        }
        Ok(false)
    }

    /// Whether some entry's message contains `message`.
    pub fn contains_message(&self, message: &str) -> (r: Result<bool, LoggerError>)
        ensures
            (r is Ok) == (self@.content is Some),
            r matches Err(e) ==> e matches LoggerError::LogFileDoesNotExists { log_file }
                && log_file@ == self@.path,
            r matches Ok(found) ==> found == (count_msg_matches(
                self@.content.unwrap(),
                message@,
            ) > 0),
    {
        self.verify_file_exists()?;
        let count = self.count_message_matches(message);
        Ok(count > 0)
    }

    /// Whether exactly `count` entries have a message containing `message`.
    pub fn message_logged_multiple_times(&self, message: &str, count: usize) -> (r: Result<
        bool,
        LoggerError,
    >)
        ensures
            (r is Ok) == (self@.content is Some),
            r matches Err(e) ==> e matches LoggerError::LogFileDoesNotExists { log_file }
                && log_file@ == self@.path,
            r matches Ok(found) ==> found == (count_msg_matches(
                self@.content.unwrap(),
                message@,
            ) == count),
    {
        self.verify_file_exists()?;
        let matches_found = self.count_message_matches(message);
        Ok(matches_found == count)
    }

    /// Counts the entries whose message contains `message`.
    fn count_message_matches(&self, message: &str) -> (r: usize)
        requires
            self@.content is Some,
        ensures
            r == count_msg_matches(self@.content.unwrap(), message@),
    {
        let lines = match &self.content {
            Some(lines) => lines,
            None => unreached(),
        };
        let ghost lv = self@.content.unwrap();
        let n = lines.len();
        let mut count: usize = 0;
        proof {
            assert(lv.take(0) =~= Seq::<Seq<char>>::empty());
        }
        let mut i: usize = 0;
        while i < n
            invariant
                0 <= i <= n,
                n == lines.len(),
                lv == lines@.map_values(|s: String| s@),
                count <= i,
                count == count_msg_matches(lv.take(i as int), message@),
            decreases n - i,
        {
            let hit = match try_parse_line_as_entry(lines[i].as_str()) {
                Some(entry) => str_contains(entry.msg.as_str(), message),
                None => false,
            };
            if hit {
                count = count + 1;
            }
            proof {
                let t1 = lv.take(i + 1);
                assert(t1.drop_last() =~= lv.take(i as int));
                assert(t1.last() == lv[i as int]);
            }
            i = i + 1;
        }
        proof {
            assert(lv.take(n as int) =~= lv);
        }
        count
    }
}

} // verus!
