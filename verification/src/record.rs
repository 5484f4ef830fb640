use vstd::prelude::*;

use crate::clock::{format_time, local_time_parts, time_parts_valid, time_text, TimeParts};
use crate::digits::{dec_seq, u64_to_dec};
use crate::message::{
    event_message_text, format_event_message, format_span_context, level_text, msg_key,
    span_context_text, Level, Type,
};
use crate::value::{
    json_quote, json_quoted, lemma_dec_seq_clean, lemma_line_clean_concat, lemma_lit_clean,
    line_clean, lit_null, one_line, render_value, value_clean, value_text, JsonValue,
};

verus! {

/// Formatter configuration; `offset` is a time-zone hour offset kept for callers.
#[derive(Debug)]
pub struct Config {
    pub offset: i8,
}

/// The data of a context (a unit of work with begin/end lifecycle) that a
/// record is built from: its metadata and its attached field storage, in
/// insertion order.
#[derive(Clone, Debug)]
pub struct SpanData {
    pub name: String,
    pub level: Level,
    pub target: String,
    pub file: Option<String>,
    pub line: Option<u32>,
    pub fields: Vec<(String, JsonValue)>,
}

/// The data of one occurrence (a single log point): its metadata and its own
/// field storage, in insertion order.
#[derive(Clone, Debug)]
pub struct EventData {
    pub level: Level,
    pub target: String,
    pub file: Option<String>,
    pub line: Option<u32>,
    pub fields: Vec<(String, JsonValue)>,
}

/// One JSON object member: the quoted key, a colon, the rendered value.
pub open spec fn entry_text(key: Seq<char>, val_text: Seq<char>) -> Seq<char> {
    json_quoted(key) + seq![':'] + val_text
}

/// A JSON integer-or-null, for the optional source line.
pub open spec fn opt_u32_text(line: Option<u32>) -> Seq<char> {
    match line {
        Some(n) => dec_seq(n as nat),
        None => lit_null(),
    }
}

/// A JSON string-or-null, for the optional source file.
pub open spec fn opt_file_text(file: Option<String>) -> Seq<char> {
    match file {
        Some(f) => json_quoted(f@),
        None => lit_null(),
    }
}

/// The fixed prefix of every record, in the documented order:
/// `time, name, host, message, level, pid, target, line, file`.
pub open spec fn fixed_fields_text(
    time: Seq<char>,
    name: Seq<char>,
    host: Seq<char>,
    message: Seq<char>,
    level: Level,
    pid: u32,
    target: Seq<char>,
    line: Option<u32>,
    file: Option<String>,
) -> Seq<char> {
    entry_text(("time")@, json_quoted(time)) + seq![','] + entry_text(
        ("name")@,
        json_quoted(name),
    ) + seq![','] + entry_text(("host")@, json_quoted(host)) + seq![','] + entry_text(
        ("message")@,
        json_quoted(message),
    ) + seq![','] + entry_text(("level")@, json_quoted(level_text(level))) + seq![','] + entry_text(
        ("pid")@,
        dec_seq(pid as nat),
    ) + seq![','] + entry_text(("target")@, json_quoted(target)) + seq![','] + entry_text(
        ("line")@,
        opt_u32_text(line),
    ) + seq![','] + entry_text(("file")@, opt_file_text(file))
}

/// The caller-supplied members of a record, each preceded by a comma, in
/// their stored order — never sorted, never deduplicated.
pub open spec fn fields_text(fields: Seq<(String, JsonValue)>) -> Seq<char>
    decreases fields.len(),
{
    if fields.len() == 0 {
        Seq::<char>::empty()
    } else {
        seq![','] + entry_text(fields[0].0@, value_text(fields[0].1)) + fields_text(
            fields.drop_first(),
        )
    }
}

/// The occurrence-local members of a record: as `fields_text`, except that
/// every field keyed `message` is left out (it was consumed by the message).
pub open spec fn event_fields_text(fields: Seq<(String, JsonValue)>) -> Seq<char>
    decreases fields.len(),
{
    if fields.len() == 0 {
        Seq::<char>::empty()
    } else if fields[0].0@ == msg_key() {
        event_fields_text(fields.drop_first())
    } else {
        seq![','] + entry_text(fields[0].0@, value_text(fields[0].1)) + event_fields_text(
            fields.drop_first(),
        )
    }
}

/// Caller-supplied fields render in their stored order: the text of a
/// concatenation of two field sequences is the concatenation of their texts,
/// so no field is moved past another, dropped, or merged with a duplicate.
pub proof fn lemma_fields_text_concat(a: Seq<(String, JsonValue)>, b: Seq<(String, JsonValue)>)
    ensures
        fields_text(a + b) == fields_text(a) + fields_text(b),
    decreases a.len(),
{
    if a.len() == 0 {
        assert(a + b =~= b);
        assert(fields_text(a) + fields_text(b) =~= fields_text(b));
    } else {
        lemma_fields_text_concat(a.drop_first(), b);
        assert((a + b).drop_first() =~= a.drop_first() + b);
        assert(fields_text(a + b) =~= fields_text(a) + fields_text(b));
    }
}

/// The same stored-order guarantee for occurrence-local fields, with the
/// `message` field left out wherever it stands.
pub proof fn lemma_event_fields_text_concat(
    a: Seq<(String, JsonValue)>,
    b: Seq<(String, JsonValue)>,
)
    ensures
        event_fields_text(a + b) == event_fields_text(a) + event_fields_text(b),
    decreases a.len(),
{
    if a.len() == 0 {
        assert(a + b =~= b);
        assert(event_fields_text(a) + event_fields_text(b) =~= event_fields_text(b));
    } else {
        lemma_event_fields_text_concat(a.drop_first(), b);
        assert((a + b).drop_first() =~= a.drop_first() + b);
        assert(event_fields_text(a + b) =~= event_fields_text(a) + event_fields_text(b));
    }
}

/// Whether every field value in a storage renders without a newline.
pub open spec fn fields_clean(fields: Seq<(String, JsonValue)>) -> bool {
    forall|j: int| 0 <= j < fields.len() ==> value_clean(fields[j].1)
}

/// Whether the enclosing context's field storage, if any, is newline-free.
pub open spec fn ctx_fields_clean(current: Option<SpanData>) -> bool {
    match current {
        Some(s) => fields_clean(s.fields@),
        None => true,
    }
}

fn push_entry(out: &mut String, key: &str, val_text: &str)
    ensures
        final(out)@ == old(out)@ + entry_text(key@, val_text@),
        line_clean(old(out)@) && line_clean(val_text@) ==> line_clean(final(out)@),
{
    proof {
        reveal_strlit(":");
    }
    let quoted = json_quote(key);
    out.append(quoted.as_str());
    out.append(":");
    out.append(val_text);
    proof {
        assert(out@ =~= old(out)@ + entry_text(key@, val_text@));
        if line_clean(old(out)@) && line_clean(val_text@) {
            assert(line_clean(quoted@));
            assert(line_clean((":")@)) by {
                assert((":")@[0] == ':');
            }
            lemma_line_clean_concat(old(out)@, quoted@);
            lemma_line_clean_concat(old(out)@ + quoted@, (":")@);
            lemma_line_clean_concat(old(out)@ + quoted@ + (":")@, val_text@);
        }
    }
}

fn push_comma(out: &mut String)
    ensures
        final(out)@ == old(out)@ + seq![','],
        line_clean(old(out)@) ==> line_clean(final(out)@),
{
    proof {
        reveal_strlit(",");
    }
    out.append(",");
    proof {
        assert(out@ =~= old(out)@ + seq![',']);
        if line_clean(old(out)@) {
            assert(line_clean(seq![','])) by {
                assert(seq![','][0] == ',');
            }
            lemma_line_clean_concat(old(out)@, seq![',']);
            assert(line_clean(old(out)@ + seq![',']));
        }
    }
}

fn push_str_entry(out: &mut String, key: &str, val: &str)
    ensures
        final(out)@ == old(out)@ + entry_text(key@, json_quoted(val@)),
        line_clean(old(out)@) ==> line_clean(final(out)@),
{
    let rendered = json_quote(val);
    push_entry(out, key, rendered.as_str());
}

fn push_null_entry(out: &mut String, key: &str)
    ensures
        final(out)@ == old(out)@ + entry_text(key@, lit_null()),
        line_clean(old(out)@) ==> line_clean(final(out)@),
{
    proof {
        reveal_strlit("null");
        assert(("null")@ =~= lit_null());
        lemma_lit_clean();
    }
    push_entry(out, key, "null");
}

fn push_fixed_fields(
    out: &mut String,
    time: &str,
    name: &str,
    host: &str,
    message: &str,
    level: &Level,
    pid: u32,
    target: &str,
    line: Option<u32>,
    file: &Option<String>,
)
    ensures
        final(out)@ == old(out)@ + fixed_fields_text(
            time@,
            name@,
            host@,
            message@,
            *level,
            pid,
            target@,
            line,
            *file,
        ),
        line_clean(old(out)@) ==> line_clean(final(out)@),
{
    push_str_entry(out, "time", time);
    push_comma(out);
    push_str_entry(out, "name", name);
    push_comma(out);
    push_str_entry(out, "host", host);
    push_comma(out);
    push_str_entry(out, "message", message);
    push_comma(out);
    let level_str = level.render();
    push_str_entry(out, "level", level_str.as_str());
    push_comma(out);
    let pid_str = u64_to_dec(pid as u64);
    proof {
        lemma_dec_seq_clean(pid as nat);
    }
    push_entry(out, "pid", pid_str.as_str());
    push_comma(out);
    push_str_entry(out, "target", target);
    push_comma(out);
    match line {
        Some(n) => {
            let line_str = u64_to_dec(n as u64);
            proof {
                lemma_dec_seq_clean(n as nat);
            }
            push_entry(out, "line", line_str.as_str());
        },
        None => {
            push_null_entry(out, "line");
        },
    }
    push_comma(out);
    match file {
        Some(f) => {
            push_str_entry(out, "file", f.as_str());
        },
        None => {
            push_null_entry(out, "file");
        },
    }
    proof {
        assert(out@ =~= old(out)@ + fixed_fields_text(
            time@,
            name@,
            host@,
            message@,
            *level,
            pid,
            target@,
            line,
            *file,
        ));
    }
}

fn push_fields(out: &mut String, fields: &Vec<(String, JsonValue)>)
    ensures
        final(out)@ == old(out)@ + fields_text(fields@),
        line_clean(old(out)@) && fields_clean(fields@) ==> line_clean(final(out)@),
{
    let ghost head = out@;
    let mut i: usize = 0;
    while i < fields.len()
        invariant
            0 <= i <= fields@.len(),
            out@ == head + fields_text(fields@.subrange(0, i as int)),
            line_clean(head) && fields_clean(fields@) ==> line_clean(out@),
        decreases fields@.len() - i,
    {
        proof {
            reveal_strlit(",");
            reveal_strlit(":");
        }
        let ghost before = out@;
        out.append(",");
        let quoted = json_quote(fields[i].0.as_str());
        out.append(quoted.as_str());
        out.append(":");
        let val = render_value(&fields[i].1);
        out.append(val.as_str());
        proof {
            if line_clean(head) && fields_clean(fields@) {
                assert(value_clean(fields@[i as int].1));
                assert(line_clean((",")@)) by {
                    assert((",")@[0] == ',');
                }
                assert(line_clean((":")@)) by {
                    assert((":")@[0] == ':');
                }
                lemma_line_clean_concat(before, (",")@);
                lemma_line_clean_concat(before + (",")@, quoted@);
                lemma_line_clean_concat(before + (",")@ + quoted@, (":")@);
                lemma_line_clean_concat(before + (",")@ + quoted@ + (":")@, val@);
            }
        }
        proof {
            let pre = fields@.subrange(0, i as int);
            let one = seq![fields@[i as int]];
            assert(fields@.subrange(0, i as int + 1) =~= pre + one);
            lemma_fields_text_concat(pre, one);
            assert(one.drop_first() =~= Seq::<(String, JsonValue)>::empty());
            assert(fields_text(one.drop_first()) =~= Seq::<char>::empty());
            assert(one[0] == fields@[i as int]);
            assert(fields_text(one) =~= seq![','] + entry_text(
                fields@[i as int].0@,
                value_text(fields@[i as int].1),
            ));
            assert(out@ =~= head + fields_text(fields@.subrange(0, i as int + 1)));
        }
        i = i + 1;
    }
    proof {
        assert(fields@.subrange(0, fields@.len() as int) =~= fields@);
    }
}

fn push_event_fields(out: &mut String, fields: &Vec<(String, JsonValue)>)
    ensures
        final(out)@ == old(out)@ + event_fields_text(fields@),
        line_clean(old(out)@) && fields_clean(fields@) ==> line_clean(final(out)@),
{
    proof {
        reveal_strlit("message");
        assert(("message")@ =~= msg_key());
    }
    let key = String::from_str("message");
    let ghost head = out@;
    let mut i: usize = 0;
    while i < fields.len()
        invariant
            0 <= i <= fields@.len(),
            key@ == msg_key(),
            out@ == head + event_fields_text(fields@.subrange(0, i as int)),
            line_clean(head) && fields_clean(fields@) ==> line_clean(out@),
        decreases fields@.len() - i,
    {
        proof {
            reveal_strlit(",");
            reveal_strlit(":");
        }
        let ghost before = out@;
        if !(fields[i].0 == key) {
            out.append(",");
            let quoted = json_quote(fields[i].0.as_str());
            out.append(quoted.as_str());
            out.append(":");
            let val = render_value(&fields[i].1);
            out.append(val.as_str());
            proof {
                if line_clean(head) && fields_clean(fields@) {
                    assert(value_clean(fields@[i as int].1));
                    assert(line_clean((",")@)) by {
                        assert((",")@[0] == ',');
                    }
                    assert(line_clean((":")@)) by {
                        assert((":")@[0] == ':');
                    }
                    lemma_line_clean_concat(before, (",")@);
                    lemma_line_clean_concat(before + (",")@, quoted@);
                    lemma_line_clean_concat(before + (",")@ + quoted@, (":")@);
                    lemma_line_clean_concat(before + (",")@ + quoted@ + (":")@, val@);
                }
            }
        }
        proof {
            let pre = fields@.subrange(0, i as int);
            let one = seq![fields@[i as int]];
            assert(fields@.subrange(0, i as int + 1) =~= pre + one);
            lemma_event_fields_text_concat(pre, one);
            assert(one.drop_first() =~= Seq::<(String, JsonValue)>::empty());
            assert(event_fields_text(one.drop_first()) =~= Seq::<char>::empty());
            assert(one[0] == fields@[i as int]);
            if fields@[i as int].0@ == msg_key() {
                assert(event_fields_text(one) =~= Seq::<char>::empty());
            } else {
                assert(event_fields_text(one) =~= seq![','] + entry_text(
                    fields@[i as int].0@,
                    value_text(fields@[i as int].1),
                ));
            }
            assert(out@ =~= head + event_fields_text(fields@.subrange(0, i as int + 1)));
        }
        i = i + 1;
    }
    proof {
        assert(fields@.subrange(0, fields@.len() as int) =~= fields@);
    }
}

/// The full text of a context begin/end record: the fixed prefix, then the
/// context's own fields in stored order, as one JSON line.
pub open spec fn span_record_text(
    fmt: JsonFormattingLayer,
    time: Seq<char>,
    span: SpanData,
    ty: Type,
) -> Seq<char> {
    seq!['{'] + fixed_fields_text(
        time,
        fmt.name@,
        fmt.hostname@,
        span_context_text(span.name@, ty),
        span.level,
        fmt.pid,
        span.target@,
        span.line,
        span.file,
    ) + fields_text(span.fields@) + seq!['}', '\n']
}

/// The enclosing context's name, if an occurrence has one.
pub open spec fn ctx_name_view(current: Option<SpanData>) -> Option<Seq<char>> {
    match current {
        Some(s) => Some(s.name@),
        None => None,
    }
}

/// The members contributed by the enclosing context's field storage, if any.
pub open spec fn ctx_fields_text(current: Option<SpanData>) -> Seq<char> {
    match current {
        Some(s) => fields_text(s.fields@),
        None => Seq::<char>::empty(),
    }
}

/// The full text of an occurrence record: the fixed prefix (whose message is
/// the occurrence message, context-marked when a context is active), then the
/// occurrence's own fields less `message`, then the context's fields, as one
/// JSON line.
pub open spec fn event_record_text(
    fmt: JsonFormattingLayer,
    time: Seq<char>,
    event: EventData,
    current: Option<SpanData>,
) -> Seq<char> {
    seq!['{'] + fixed_fields_text(
        time,
        fmt.name@,
        fmt.hostname@,
        event_message_text(ctx_name_view(current), event.fields@, event.target@),
        event.level,
        fmt.pid,
        event.target@,
        event.line,
        event.file,
    ) + event_fields_text(event.fields@) + ctx_fields_text(current) + seq!['}', '\n']
}

proof fn lemma_one_line_close(body: Seq<char>, whole: Seq<char>)
    requires
        line_clean(body),
        whole == body + seq!['}', '\n'],
    ensures
        one_line(whole),
{
    assert(whole[whole.len() - 1] == '\n');
    assert forall|i: int| 0 <= i < whole.len() - 1 implies whole[i] != '\n' by {
        if i < body.len() {
            assert(whole[i] == body[i]);
        } else {
            assert(i == body.len());
            assert(whole[i] == '}');
        }
    }
}

/// The record assembler: the immutable process identity read at construction,
/// shared by every record it formats.
pub struct JsonFormattingLayer {
    pub name: String,
    pub pid: u32,
    pub hostname: String,
}

impl JsonFormattingLayer {
    /// Builds a formatter from an emitter display name and the process
    /// identity the caller acquired.
    pub fn new(name: String, pid: u32, hostname: String) -> (r: Self)
        ensures
            r.name == name,
            r.pid == pid,
            r.hostname == hostname,
    {
        Self::with_default_fields(name, pid, hostname)
    }

    /// As `new`; kept as the construction point every other constructor goes
    /// through.
    pub fn with_default_fields(name: String, pid: u32, hostname: String) -> (r: Self)
        ensures
            r.name == name,
            r.pid == pid,
            r.hostname == hostname,
    {
        JsonFormattingLayer { name, pid, hostname }
    }

    /// Renders a context begin/end record for a given timestamp text.
    pub fn render_span_record(&self, time: &str, span: &SpanData, ty: &Type) -> (r: String)
        ensures
            r@ == span_record_text(*self, time@, *span, *ty),
            fields_clean(span.fields@) ==> one_line(r@),
    {
        proof {
            reveal_strlit("{");
            reveal_strlit("}\n");
        }
        let mut out = String::from_str("{");
        proof {
            assert(line_clean(out@)) by {
                assert(out@[0] == '{');
            }
        }
        let message = format_span_context(span.name.as_str(), ty);
        push_fixed_fields(
            &mut out,
            time,
            self.name.as_str(),
            self.hostname.as_str(),
            message.as_str(),
            &span.level,
            self.pid,
            span.target.as_str(),
            span.line,
            &span.file,
        );
        push_fields(&mut out, &span.fields);
        let ghost body = out@;
        out.append("}\n");
        proof {
            assert(out@ =~= span_record_text(*self, time@, *span, *ty));
            if fields_clean(span.fields@) {
                assert(line_clean(body));
                assert(out@ =~= body + seq!['}', '\n']);
                lemma_one_line_close(body, out@);
            }
        }
        out
    }

    /// Formats one context begin/end record at the current local time: one
    /// newline-terminated JSON line whose shape is pinned for every clock
    /// reading.
    pub fn serialize_span(&self, span: &SpanData, ty: &Type) -> (r: String)
        ensures
            exists|t: TimeParts|
                time_parts_valid(t) && r@ == span_record_text(*self, time_text(t), *span, *ty),
            fields_clean(span.fields@) ==> one_line(r@),
    {
        let now = local_time_parts();
        let time = format_time(&now);
        let r = self.render_span_record(time.as_str(), span, ty);
        proof {
            assert(time_parts_valid(now) && r@ == span_record_text(
                *self,
                time_text(now),
                *span,
                *ty,
            ));
        }
        r
    }

    /// Renders an occurrence record for a given timestamp text.
    pub fn render_event_record(
        &self,
        time: &str,
        event: &EventData,
        current: Option<&SpanData>,
    ) -> (r: String)
        ensures
            r@ == event_record_text(
                *self,
                time@,
                *event,
                match current {
                    Some(s) => Some(*s),
                    None => None,
                },
            ),
            fields_clean(event.fields@) && ctx_fields_clean(
                match current {
                    Some(s) => Some(*s),
                    None => None,
                },
            ) ==> one_line(r@),
    {
        proof {
            reveal_strlit("{");
            reveal_strlit("}\n");
        }
        let ctx_name: Option<&String> = match current {
            Some(s) => Some(&s.name),
            None => None,
        };
        let message = format_event_message(ctx_name, &event.fields, event.target.as_str());
        let mut out = String::from_str("{");
        proof {
            assert(line_clean(out@)) by {
                assert(out@[0] == '{');
            }
        }
        push_fixed_fields(
            &mut out,
            time,
            self.name.as_str(),
            self.hostname.as_str(),
            message.as_str(),
            &event.level,
            self.pid,
            event.target.as_str(),
            event.line,
            &event.file,
        );
        push_event_fields(&mut out, &event.fields);
        match current {
            Some(s) => {
                push_fields(&mut out, &s.fields);
            },
            None => {},
        }
        let ghost body = out@;
        out.append("}\n");
        proof {
            let ghost cur = match current {
                Some(s) => Some(*s),
                None => None::<SpanData>,
            };
            assert(out@ =~= event_record_text(*self, time@, *event, cur));
            if fields_clean(event.fields@) && ctx_fields_clean(cur) {
                assert(line_clean(body));
                assert(out@ =~= body + seq!['}', '\n']);
                lemma_one_line_close(body, out@);
            }
        }
        out
    }

    /// Formats one occurrence record at the current local time: one
    /// newline-terminated JSON line whose shape is pinned for every clock
    /// reading.
    pub fn serialize_event(&self, event: &EventData, current: Option<&SpanData>) -> (r: String)
        ensures
            exists|t: TimeParts|
                time_parts_valid(t) && r@ == event_record_text(
                    *self,
                    time_text(t),
                    *event,
                    match current {
                        Some(s) => Some(*s),
                        None => None,
                    },
                ),
            fields_clean(event.fields@) && ctx_fields_clean(
                match current {
                    Some(s) => Some(*s),
                    None => None,
                },
            ) ==> one_line(r@),
    {
        let now = local_time_parts();
        let time = format_time(&now);
        let r = self.render_event_record(time.as_str(), event, current);
        proof {
            let ghost cur = match current {
                Some(s) => Some(*s),
                None => None::<SpanData>,
            };
            assert(time_parts_valid(now) && r@ == event_record_text(
                *self,
                time_text(now),
                *event,
                cur,
            ));
        }
        r
    }
}

} // verus!
