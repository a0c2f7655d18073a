//! The system `log` node.

use vstd::prelude::*;
use crate::json::{JsonMap, JsonValue, JsonView};
use crate::models::ParameterType;
use crate::plugin::{ActionDefinition, action, action_is, param, param_is};
use crate::text::{lowercase, to_lowercase, str_eq, concat};
use crate::converter_plugin::join_texts;

verus! {

/// The `log` action as the system plugin defines it: inputs `message` (several) and `level`, no outputs.
pub open spec fn is_definition(r: ActionDefinition) -> bool {
    &&& action_is(r, "log"@, "Log one or more messages"@, "internal:log"@)
    &&& r.inputs@.len() == 2
    &&& param_is(r.inputs@[0], "message"@, "Message"@, ParameterType::String, "Message to log (can be multiple)"@, true, true, Some(JsonView::Str(""@)))
    &&& param_is(r.inputs@[1], "level"@, "Log Level"@, ParameterType::String, "Log level (info, warning, error, debug)"@, false, false, Some(JsonView::Str("info"@)))
    &&& r.outputs@.len() == 0
}

/// Definition of the `log` action: inputs `message` (several) and `level`, no outputs.
pub fn definition() -> (r: ActionDefinition)
    ensures
        is_definition(r),
{
    let mut inputs = Vec::new();
    inputs.push(param("message", "Message", ParameterType::String, "Message to log (can be multiple)", true, true, Some(JsonValue::String(String::from_str("")))));
    inputs.push(param("level", "Log Level", ParameterType::String, "Log level (info, warning, error, debug)", false, false, Some(JsonValue::String(String::from_str("info")))));
    action("log", "Log one or more messages", "internal:log", inputs, Vec::new())
}

/// Runs the `log` action: it outputs nothing. The line it writes is the one
/// `log_line` gives, which the caller writes out.
pub fn execute(inputs: JsonMap) -> (r: Result<JsonMap, String>)
    ensures
        r matches Ok(m) && m.wf() && m@ == Map::<Seq<char>, JsonValue>::empty(),
{
    Ok(JsonMap::new())
}

/// Where a log line goes and how it is tagged.
#[derive(Clone, Copy, Debug, PartialEq, Eq, Structural)]
pub enum LogLevel {
    /// `ERROR: ` on standard error.
    Error,
    /// `WARNING: ` on standard output.
    Warning,
    /// `DEBUG: ` on standard output.
    Debug,
    /// `INFO: ` on standard output.
    Info,
}

/// A piece of a log message: text as it is, or a value written in its debug form.
#[derive(Debug)]
pub enum LogPart {
    Text(String),
    Debug(JsonValue),
}

/// A log line: its level and the pieces of its message, which are joined by newlines.
#[derive(Debug)]
pub struct LogRecord {
    pub level: LogLevel,
    pub parts: Vec<LogPart>,
}

/// The level that a level text selects, compared in lower case.
pub open spec fn level_of(t: Seq<char>) -> LogLevel {
    let l = lowercase(t);
    if l == "error"@ {
        LogLevel::Error
    } else if l == "warning"@ || l == "warn"@ {
        LogLevel::Warning
    } else if l == "debug"@ {
        LogLevel::Debug
    } else {
        LogLevel::Info
    }
}

/// A message piece that stands for the value `v`.
pub open spec fn part_of(p: LogPart, v: JsonView) -> bool {
    match v {
        JsonView::Str(s) => p matches LogPart::Text(t) && t@ == s,
        _ => p matches LogPart::Debug(d) && d@ == v,
    }
}

/// The pieces of the message for the `message` input: one per element of an
/// array, the value itself otherwise, and none when it is missing.
pub open spec fn parts_of(parts: Seq<LogPart>, m: Option<JsonView>) -> bool {
    match m {
        Some(JsonView::Array(a)) => parts.len() == a.len() && forall|i: int| 0 <= i < a.len() ==> part_of(#[trigger] parts[i], a[i]),
        Some(v) => parts.len() == 1 && part_of(parts[0], v),
        None => parts.len() == 0,
    }
}

/// The text of the `level` input, `info` when it is missing or no string.
pub open spec fn level_text(m: Map<Seq<char>, JsonValue>) -> Seq<char> {
    if m.dom().contains("level"@) && m["level"@]@ is Str {
        m["level"@]@->Str_0
    } else {
        "info"@
    }
}

fn part_for(v: &JsonValue) -> (r: LogPart)
    ensures
        part_of(r, v@),
{
    match v {
        JsonValue::String(s) => LogPart::Text(s.clone()),
        _ => LogPart::Debug(v.deep_copy()),
    }
}

/// The log line that a `log` node with these inputs writes.
pub fn record(inputs: &JsonMap) -> (r: LogRecord)
    requires
        inputs.wf(),
    ensures
        r.level == level_of(level_text(inputs@)),
        parts_of(r.parts@, if inputs@.dom().contains("message"@) { Some(inputs@["message"@]@) } else { None }),
{
    let mut parts: Vec<LogPart> = Vec::new();
    match inputs.get("message") {
        Some(JsonValue::Array(a)) => {
            let mut i: usize = 0;
            while i < a.len()
                invariant
                    i <= a@.len(),
                    parts@.len() == i,
                    forall|j: int| 0 <= j < i ==> part_of(#[trigger] parts@[j], a@[j]@),
                decreases a@.len() - i,
            {
                parts.push(part_for(&a[i]));
                i = i + 1;
            }
        },
        Some(v) => {
            parts.push(part_for(v));
        },
        None => {},
    }
    let level_name = match inputs.get("level") {
        Some(JsonValue::String(s)) => s.clone(),
        _ => String::from_str("info"),
    };
    let l = to_lowercase(level_name.as_str());
    let level = if str_eq(l.as_str(), "error") {
        LogLevel::Error
    } else if str_eq(l.as_str(), "warning") || str_eq(l.as_str(), "warn") {
        LogLevel::Warning
    } else if str_eq(l.as_str(), "debug") {
        LogLevel::Debug
    } else {
        LogLevel::Info
    };
    LogRecord { level, parts }
}


/// Where a log line is written.
#[derive(Clone, Copy, Debug, PartialEq, Eq, Structural)]
pub enum LogStream {
    Stdout,
    Stderr,
}

/// The stream a level writes to: standard error for errors, standard
/// output otherwise.
pub open spec fn stream_of(l: LogLevel) -> LogStream {
    match l {
        LogLevel::Error => LogStream::Stderr,
        _ => LogStream::Stdout,
    }
}

/// The tag a line of level `l` starts with.
pub open spec fn prefix_of(l: LogLevel) -> Seq<char> {
    match l {
        LogLevel::Error => "ERROR: "@,
        LogLevel::Warning => "WARNING: "@,
        LogLevel::Debug => "DEBUG: "@,
        LogLevel::Info => "INFO: "@,
    }
}

/// `t` is the text of piece `p`: the text itself, or what `debug` writes
/// for the value.
pub open spec fn piece_text<D: Fn(&JsonValue) -> String>(p: LogPart, debug: D, t: Seq<char>) -> bool {
    match p {
        LogPart::Text(s) => t == s@,
        LogPart::Debug(v) => exists|w: String| call_ensures(debug, (&v,), w) && t == w@,
    }
}

/// `texts` are the texts of the pieces `parts`, one for one.
pub open spec fn piece_texts<D: Fn(&JsonValue) -> String>(parts: Seq<LogPart>, debug: D, texts: Seq<Seq<char>>) -> bool {
    &&& texts.len() == parts.len()
    &&& forall|i: int| 0 <= i < parts.len() ==> piece_text(#[trigger] parts[i], debug, texts[i])
}

impl LogRecord {
    /// The line this record writes and where: the level's tag, then the
    /// texts of the pieces joined by newlines. Values are written by `debug`.
    pub fn line<D: Fn(&JsonValue) -> String>(&self, debug: &D) -> (r: (LogStream, String))
        requires
            forall|v: &JsonValue| debug.requires((v,)),
        ensures
            r.0 == stream_of(self.level),
            exists|texts: Seq<Seq<char>>| piece_texts(self.parts@, *debug, texts)
                && r.1@ == prefix_of(self.level) + join_texts(texts, "\n"@),
    {
        let ghost mut texts: Seq<Seq<char>> = Seq::empty();
        let mut body = String::new();
        let mut i: usize = 0;
        while i < self.parts.len()
            invariant
                forall|v: &JsonValue| debug.requires((v,)),
                i <= self.parts@.len(),
                piece_texts(self.parts@.take(i as int), *debug, texts),
                body@ == join_texts(texts, "\n"@),
            decreases self.parts@.len() - i,
        {
            let t = match &self.parts[i] {
                LogPart::Text(s) => s.clone(),
                LogPart::Debug(v) => debug(v),
            };
            proof {
                assert(piece_text(self.parts@[i as int], *debug, t@));
            }
            let ghost before = texts;
            if i == 0 {
                body = t;
            } else {
                body.append("\n");
                body.append(t.as_str());
            }
            proof {
                texts = before.push(t@);
                assert(texts.drop_last() =~= before);
                if i == 0 {
                    assert(texts =~= seq![t@]);
                }
                assert(self.parts@.take(i + 1).drop_last() =~= self.parts@.take(i as int));
                assert forall|j: int| 0 <= j < i + 1 implies piece_text(#[trigger] self.parts@.take(i + 1)[j], *debug, texts[j]) by {
                    if j < i {
                        assert(self.parts@.take(i + 1)[j] == self.parts@.take(i as int)[j]);
                    }
                }
            }
            i = i + 1;
        }
        assert(self.parts@.take(self.parts@.len() as int) =~= self.parts@);
        let prefix = match self.level {
            LogLevel::Error => "ERROR: ",
            LogLevel::Warning => "WARNING: ",
            LogLevel::Debug => "DEBUG: ",
            LogLevel::Info => "INFO: ",
        };
        let stream = match self.level {
            LogLevel::Error => LogStream::Stderr,
            _ => LogStream::Stdout,
        };
        (stream, concat(prefix, body.as_str()))
    }
}

/// The line that a `log` node with these inputs writes, and where: the
/// tag of the level (chosen by the lower-cased `level` input, `info` by
/// default), then the message pieces joined by newlines, text as it is and
/// other values as `debug` writes them.
pub fn log_line<D: Fn(&JsonValue) -> String>(inputs: &JsonMap, debug: &D) -> (r: (LogStream, String))
    requires
        inputs.wf(),
        forall|v: &JsonValue| debug.requires((v,)),
    ensures
        r.0 == stream_of(level_of(level_text(inputs@))),
        exists|parts: Seq<LogPart>, texts: Seq<Seq<char>>|
            parts_of(parts, if inputs@.dom().contains("message"@) { Some(inputs@["message"@]@) } else { None })
            && piece_texts(parts, *debug, texts)
            && r.1@ == prefix_of(level_of(level_text(inputs@))) + join_texts(texts, "\n"@),
{
    let rec = record(inputs);
    rec.line(debug)
}

/// Where the `log` node's line goes and how it starts, by the lower-cased
/// `level` input (`info` when it is missing or no string): `error` on
/// standard error after `ERROR: `; `warning` or `warn` on standard output
/// after `WARNING: `; `debug` after `DEBUG: `; anything else after `INFO: `.
pub proof fn law_log_line_level(m: Map<Seq<char>, JsonValue>)
    ensures
        ({
            let l = lowercase(level_text(m));
            let lv = level_of(level_text(m));
            &&& l == "error"@ ==> stream_of(lv) == LogStream::Stderr && prefix_of(lv) == "ERROR: "@
            &&& l != "error"@ ==> stream_of(lv) == LogStream::Stdout
            &&& (l == "warning"@ || l == "warn"@) ==> prefix_of(lv) == "WARNING: "@
            &&& l == "debug"@ ==> prefix_of(lv) == "DEBUG: "@
            &&& l != "error"@ && l != "warning"@ && l != "warn"@ && l != "debug"@ ==> prefix_of(lv) == "INFO: "@
        }),
        !(m.dom().contains("level"@) && m["level"@]@ is Str) ==> level_text(m) == "info"@,
        m.dom().contains("level"@) && m["level"@]@ is Str ==> level_text(m) == m["level"@]@->Str_0,
{
    reveal_strlit("error");
    reveal_strlit("warning");
    reveal_strlit("warn");
    reveal_strlit("debug");
    assert("error"@ != "warning"@ && "error"@ != "warn"@ && "error"@ != "debug"@ && "warning"@ != "debug"@ && "warn"@ != "debug"@) by {
        assert("error"@[0] != "warning"@[0] && "error"@[0] != "debug"@[0] && "warning"@[0] != "debug"@[0]);
    }
}

} // verus!
