use vstd::prelude::*;

use crate::message::{
    base_message, event_message_text, lemma_find_message_skip, msg_key, span_context_text, Type,
};
use crate::value::JsonValue;

verus! {

/// An occurrence outside every context, with no field keyed `message`, gets
/// its `target` string, exactly, as its record message.
pub proof fn lemma_message_defaults_to_target(fields: Seq<(String, JsonValue)>, target: Seq<char>)
    requires
        forall|j: int| 0 <= j < fields.len() ==> fields[j].0@ != msg_key(),
    ensures
        event_message_text(None, fields, target) == target,
{
    lemma_find_message_skip(fields, fields.len() as int);
    assert(fields.subrange(fields.len() as int, fields.len() as int).len() == 0);
}

/// An occurrence inside a context gets the context marker `[NAME - EVENT]`, a
/// space, and then its own message — whatever that message resolves to.
pub proof fn lemma_message_in_context(
    name: Seq<char>,
    fields: Seq<(String, JsonValue)>,
    target: Seq<char>,
)
    ensures
        event_message_text(Some(name), fields, target) == span_context_text(name, Type::Event)
            + seq![' '] + base_message(fields, target),
{
}

} // verus!
