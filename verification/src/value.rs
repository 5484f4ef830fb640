use vstd::prelude::*;

use crate::digits::{dec_seq, dec_seq_signed};

verus! {

/// A JSON-compatible field value as caller instrumentation supplies it.
/// `Num` carries a pre-rendered JSON number literal, so that callers can pass
/// through numeric values the other variants do not cover; it is emitted
/// verbatim.
#[derive(Clone, Debug)]
pub enum JsonValue {
    Null,
    Bool(bool),
    I64(i64),
    U64(u64),
    Str(String),
    Num(String),
}

/// The JSON string literal (quoted, with escapes) that encodes the characters `s`.
pub uninterp spec fn json_quoted(s: Seq<char>) -> Seq<char>;

/// Relies on serde_json::to_string on a `&str`: it writes exactly the JSON
/// string literal for those characters — opening and closing quotes around the
/// escaped text, with every control character escaped — and on a `&str` it
/// cannot fail, since the writer is an in-memory buffer.
#[verifier::external_body]
pub fn json_quote(s: &str) -> (r: String)
    ensures
        r@ == json_quoted(s@),
        forall|i: int| 0 <= i < r@.len() ==> r@[i] != '\n',
{
    serde_json::to_string(s).unwrap()
}

pub open spec fn lit_null() -> Seq<char> {
    seq!['n', 'u', 'l', 'l']
}

pub open spec fn lit_true() -> Seq<char> {
    seq!['t', 'r', 'u', 'e']
}

pub open spec fn lit_false() -> Seq<char> {
    seq!['f', 'a', 'l', 's', 'e']
}

/// The rendered JSON text of one field value.
pub open spec fn value_text(v: JsonValue) -> Seq<char> {
    match v {
        JsonValue::Null => lit_null(),
        JsonValue::Bool(b) => if b {
            lit_true()
        } else {
            lit_false()
        },
        JsonValue::I64(n) => dec_seq_signed(n as int),
        JsonValue::U64(n) => dec_seq(n as nat),
        JsonValue::Str(s) => json_quoted(s@),
        JsonValue::Num(s) => s@,
    }
}

/// Whether a text contains no newline, so it can sit inside a one-line record.
pub open spec fn line_clean(s: Seq<char>) -> bool {
    forall|i: int| 0 <= i < s.len() ==> s[i] != '\n'
}

/// Whether a text is exactly one line: non-empty, terminated by a newline,
/// with no newline anywhere before it.
pub open spec fn one_line(s: Seq<char>) -> bool {
    &&& s.len() > 0
    &&& s[s.len() - 1] == '\n'
    &&& forall|i: int| 0 <= i < s.len() - 1 ==> s[i] != '\n'
}

/// Whether a field value renders without a newline: only a `Num` literal can
/// carry one, since strings are escaped and the other variants render as
/// fixed words or digits.
pub open spec fn value_clean(v: JsonValue) -> bool {
    match v {
        JsonValue::Num(s) => line_clean(s@),
        _ => true,
    }
}

pub proof fn lemma_line_clean_concat(a: Seq<char>, b: Seq<char>)
    requires
        line_clean(a),
        line_clean(b),
    ensures
        line_clean(a + b),
{
    assert forall|i: int| 0 <= i < (a + b).len() implies (a + b)[i] != '\n' by {
        if i < a.len() {
            assert((a + b)[i] == a[i]);
        } else {
            assert((a + b)[i] == b[i - a.len()]);
        }
    }
}

pub proof fn lemma_dec_seq_clean(n: nat)
    ensures
        line_clean(dec_seq(n)),
    decreases n,
{
    if n < 10 {
        assert(dec_seq(n)[0] == crate::digits::digit_char(n));
    } else {
        lemma_dec_seq_clean(n / 10);
        assert(line_clean(seq![crate::digits::digit_char(n % 10)])) by {
            assert(seq![crate::digits::digit_char(n % 10)][0] != '\n');
        }
        lemma_line_clean_concat(dec_seq(n / 10), seq![crate::digits::digit_char(n % 10)]);
    }
}

pub proof fn lemma_dec_seq_signed_clean(n: int)
    ensures
        line_clean(dec_seq_signed(n)),
{
    if n < 0 {
        lemma_dec_seq_clean((-n) as nat);
        assert(line_clean(seq!['-'])) by {
            assert(seq!['-'][0] != '\n');
        }
        lemma_line_clean_concat(seq!['-'], dec_seq((-n) as nat));
    } else {
        lemma_dec_seq_clean(n as nat);
    }
}

pub proof fn lemma_lit_clean()
    ensures
        line_clean(lit_null()),
        line_clean(lit_true()),
        line_clean(lit_false()),
{
    assert forall|i: int| 0 <= i < lit_null().len() implies lit_null()[i] != '\n' by {
        if i == 0 {
        } else if i == 1 {
        } else if i == 2 {
        } else {
            assert(i == 3);
        }
    }
    assert forall|i: int| 0 <= i < lit_true().len() implies lit_true()[i] != '\n' by {
        if i == 0 {
        } else if i == 1 {
        } else if i == 2 {
        } else {
            assert(i == 3);
        }
    }
    assert forall|i: int| 0 <= i < lit_false().len() implies lit_false()[i] != '\n' by {
        if i == 0 {
        } else if i == 1 {
        } else if i == 2 {
        } else if i == 3 {
        } else {
            assert(i == 4);
        }
    }
}

/// Renders one field value as JSON text.
pub fn render_value(v: &JsonValue) -> (r: String)
    ensures
        r@ == value_text(*v),
        value_clean(*v) ==> line_clean(r@),
{
    proof {
        lemma_lit_clean();
        match *v {
            JsonValue::I64(n) => lemma_dec_seq_signed_clean(n as int),
            JsonValue::U64(n) => lemma_dec_seq_clean(n as nat),
            _ => {},
        }
    }
    proof {
        reveal_strlit("null");
        reveal_strlit("true");
        reveal_strlit("false");
    }
    match v {
        JsonValue::Null => {
            let s = String::from_str("null");
            proof {
                assert(s@ =~= lit_null());
            }
            s
        },
        JsonValue::Bool(b) => {
            if *b {
                let s = String::from_str("true");
                proof {
                    assert(s@ =~= lit_true());
                }
                s
            } else {
                let s = String::from_str("false");
                proof {
                    assert(s@ =~= lit_false());
                }
                s
            }
        },
        JsonValue::I64(n) => crate::digits::i64_to_dec(*n),
        JsonValue::U64(n) => crate::digits::u64_to_dec(*n),
        JsonValue::Str(s) => json_quote(s.as_str()),
        JsonValue::Num(s) => s.clone(),
    }
}

} // verus!
