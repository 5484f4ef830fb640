use vstd::prelude::*;

use crate::value::JsonValue;

verus! {

/// Severity of a context or an occurrence, ordered from most to least verbose.
#[derive(Clone, Copy, Debug, PartialEq, Eq, Structural)]
pub enum Level {
    Trace,
    Debug,
    Info,
    Warn,
    Error,
}

/// The string form of a severity level.
pub open spec fn level_text(l: Level) -> Seq<char> {
    match l {
        Level::Trace => seq!['T', 'R', 'A', 'C', 'E'],
        Level::Debug => seq!['D', 'E', 'B', 'U', 'G'],
        Level::Info => seq!['I', 'N', 'F', 'O'],
        Level::Warn => seq!['W', 'A', 'R', 'N'],
        Level::Error => seq!['E', 'R', 'R', 'O', 'R'],
    }
}

impl Level {
    /// Renders the level as its upper-case name.
    pub fn render(&self) -> (r: String)
        ensures
            r@ == level_text(*self),
    {
        proof {
            reveal_strlit("TRACE");
            reveal_strlit("DEBUG");
            reveal_strlit("INFO");
            reveal_strlit("WARN");
            reveal_strlit("ERROR");
        }
        let r = match self {
            Level::Trace => String::from_str("TRACE"),
            Level::Debug => String::from_str("DEBUG"),
            Level::Info => String::from_str("INFO"),
            Level::Warn => String::from_str("WARN"),
            Level::Error => String::from_str("ERROR"),
        };
        proof {
            assert(r@ =~= level_text(*self));
        }
        r
    }
}

/// The kind of notification a record is built from.
#[derive(Clone, Debug)]
pub enum Type {
    EnterSpan,
    ExitSpan,
    Event,
}

/// The label that names a notification kind inside a context message.
pub open spec fn type_label(t: Type) -> Seq<char> {
    match t {
        Type::EnterSpan => seq!['S', 'T', 'A', 'R', 'T'],
        Type::ExitSpan => seq!['E', 'N', 'D'],
        Type::Event => seq!['E', 'V', 'E', 'N', 'T'],
    }
}

impl Type {
    /// Renders the kind's label: `START`, `END` or `EVENT`.
    pub fn label(&self) -> (r: String)
        ensures
            r@ == type_label(*self),
    {
        proof {
            reveal_strlit("START");
            reveal_strlit("END");
            reveal_strlit("EVENT");
        }
        let r = match self {
            Type::EnterSpan => String::from_str("START"),
            Type::ExitSpan => String::from_str("END"),
            Type::Event => String::from_str("EVENT"),
        };
        proof {
            assert(r@ =~= type_label(*self));
        }
        r
    }
}

/// The upper-case form of the characters `s`.
pub uninterp spec fn upper_of(s: Seq<char>) -> Seq<char>;

/// Relies on str::to_uppercase: the Unicode upper-case form, a function of the
/// characters alone; an empty string stays empty.
#[verifier::external_body]
pub fn to_upper(s: &str) -> (r: String)
    ensures
        r@ == upper_of(s@),
        s@.len() == 0 ==> r@.len() == 0,
{
    s.to_uppercase()
}

/// The bracketed context marker: `[NAME - LABEL]` with the context name upper-cased.
pub open spec fn span_context_text(name: Seq<char>, ty: Type) -> Seq<char> {
    seq!['['] + upper_of(name) + seq![' ', '-', ' '] + type_label(ty) + seq![']']
}

/// Builds the bracketed context marker for a context name and a notification kind.
pub fn format_span_context(name: &str, ty: &Type) -> (r: String)
    ensures
        r@ == span_context_text(name@, *ty),
{
    proof {
        reveal_strlit("[");
        reveal_strlit(" - ");
        reveal_strlit("]");
    }
    let mut r = String::from_str("[");
    let upper = to_upper(name);
    r.append(upper.as_str());
    r.append(" - ");
    let label = ty.label();
    r.append(label.as_str());
    r.append("]");
    proof {
        assert(r@ =~= span_context_text(name@, *ty));
    }
    r
}

/// The key under which an occurrence's own message travels.
pub open spec fn msg_key() -> Seq<char> {
    seq!['m', 'e', 's', 's', 'a', 'g', 'e']
}

/// The value of the first field keyed `message`, if any; the field storage is
/// a map, so at most one such field is expected.
pub open spec fn find_message(fields: Seq<(String, JsonValue)>) -> Option<JsonValue>
    decreases fields.len(),
{
    if fields.len() == 0 {
        None::<JsonValue>
    } else if fields[0].0@ == msg_key() {
        Some(fields[0].1)
    } else {
        find_message(fields.drop_first())
    }
}

/// An occurrence's own message: its string-typed `message` field when it has
/// one, else its `target` metadata string.
pub open spec fn base_message(fields: Seq<(String, JsonValue)>, target: Seq<char>) -> Seq<char> {
    match find_message(fields) {
        Some(JsonValue::Str(s)) => s@,
        _ => target,
    }
}

pub proof fn lemma_find_message_skip(fields: Seq<(String, JsonValue)>, i: int)
    requires
        0 <= i <= fields.len(),
        forall|j: int| 0 <= j < i ==> fields[j].0@ != msg_key(),
    ensures
        find_message(fields) == find_message(fields.subrange(i, fields.len() as int)),
    decreases i,
{
    if i > 0 {
        lemma_find_message_skip(fields, i - 1);
        let tail = fields.subrange(i - 1, fields.len() as int);
        assert(tail[0].0@ != msg_key());
        assert(tail.drop_first() =~= fields.subrange(i, fields.len() as int));
    } else {
        assert(fields.subrange(0, fields.len() as int) =~= fields);
    }
}

/// The final message of an occurrence record: the occurrence's own message,
/// preceded by the enclosing context's marker when there is one.
pub open spec fn event_message_text(
    ctx_name: Option<Seq<char>>,
    fields: Seq<(String, JsonValue)>,
    target: Seq<char>,
) -> Seq<char> {
    match ctx_name {
        Some(n) => span_context_text(n, Type::Event) + seq![' '] + base_message(fields, target),
        None => base_message(fields, target),
    }
}

fn base_message_exec(fields: &Vec<(String, JsonValue)>, target: &str) -> (r: String)
    ensures
        r@ == base_message(fields@, target@),
{
    proof {
        reveal_strlit("message");
        assert(("message")@ =~= msg_key());
    }
    let key = String::from_str("message");
    let mut i: usize = 0;
    while i < fields.len()
        invariant
            0 <= i <= fields@.len(),
            key@ == msg_key(),
            forall|j: int| 0 <= j < i ==> fields@[j].0@ != msg_key(),
        decreases fields@.len() - i,
    {
        if fields[i].0 == key {
            proof {
                lemma_find_message_skip(fields@, i as int);
                let tail = fields@.subrange(i as int, fields@.len() as int);
                assert(tail[0] == fields@[i as int]);
                assert(find_message(fields@) == Some(fields@[i as int].1));
            }
            match &fields[i].1 {
                JsonValue::Str(s) => {
                    return s.clone();
                },
                _ => {
                    return String::from_str(target);
                },
            }
        }
        i = i + 1;
    }
    proof {
        lemma_find_message_skip(fields@, fields@.len() as int);
        assert(fields@.subrange(fields@.len() as int, fields@.len() as int).len() == 0);
    }
    String::from_str(target)
}

/// Computes the message of an occurrence record from the enclosing context's
/// name (if any), the occurrence's own fields and its `target` string.
pub fn format_event_message(
    ctx_name: Option<&String>,
    fields: &Vec<(String, JsonValue)>,
    target: &str,
) -> (r: String)
    ensures
        r@ == event_message_text(
            match ctx_name {
                Some(n) => Some(n@),
                None => None,
            },
            fields@,
            target@,
        ),
{
    proof {
        reveal_strlit(" ");
    }
    let base = base_message_exec(fields, target);
    match ctx_name {
        Some(n) => {
            let mut r = format_span_context(n.as_str(), &Type::Event);
            r.append(" ");
            r.append(base.as_str());
            proof {
                assert(r@ =~= event_message_text(Some(n@), fields@, target@));
            }
            r
        },
        None => base,
    }
}

} // verus!
