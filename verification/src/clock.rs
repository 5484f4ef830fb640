use vstd::prelude::*;

use crate::digits::dec_seq;

verus! {

/// One calendar instant, split into plain parts.
#[derive(Clone, Copy, Debug)]
pub struct TimeParts {
    pub year: i32,
    pub month: u32,
    pub day: u32,
    pub hour: u32,
    pub minute: u32,
    pub second: u32,
}

/// Whether the parts lie in the ranges a calendar clock can produce.
pub open spec fn time_parts_valid(t: TimeParts) -> bool {
    &&& 1 <= t.month <= 12
    &&& 1 <= t.day <= 31
    &&& t.hour < 24
    &&& t.minute < 60
    &&& t.second < 60
}

/// Relies on chrono::Local::now with the Datelike and Timelike accessors: the
/// current local calendar time; chrono documents month in 1..=12, day in
/// 1..=31, hour below 24, minute below 60 and second below 60.
#[verifier::external_body]
pub fn local_time_parts() -> (t: TimeParts)
    ensures
        time_parts_valid(t),
{
    let now = chrono::Local::now();
    TimeParts {
        year: chrono::Datelike::year(&now),
        month: chrono::Datelike::month(&now),
        day: chrono::Datelike::day(&now),
        hour: chrono::Timelike::hour(&now),
        minute: chrono::Timelike::minute(&now),
        second: chrono::Timelike::second(&now),
    }
}

/// A number in decimal, zero-padded on the left to at least two digits.
pub open spec fn pad2(n: nat) -> Seq<char> {
    if n < 10 {
        seq!['0'] + dec_seq(n)
    } else {
        dec_seq(n)
    }
}

/// A number in decimal, zero-padded on the left to at least four digits.
pub open spec fn pad4(n: nat) -> Seq<char> {
    if n < 10 {
        seq!['0', '0', '0'] + dec_seq(n)
    } else if n < 100 {
        seq!['0', '0'] + dec_seq(n)
    } else if n < 1000 {
        seq!['0'] + dec_seq(n)
    } else {
        dec_seq(n)
    }
}

/// A calendar year in decimal: at least four digits, a minus sign before a
/// negative year.
pub open spec fn year_text(y: int) -> Seq<char> {
    if y < 0 {
        seq!['-'] + pad4((-y) as nat)
    } else {
        pad4(y as nat)
    }
}

/// The record's timestamp text: `YYYY-MM-DD HH:MM:SS`.
pub open spec fn time_text(t: TimeParts) -> Seq<char> {
    year_text(t.year as int) + seq!['-'] + pad2(t.month as nat) + seq!['-'] + pad2(t.day as nat)
        + seq![' '] + pad2(t.hour as nat) + seq![':'] + pad2(t.minute as nat) + seq![':'] + pad2(
        t.second as nat,
    )
}

/// For the calendar years a wall clock reads, the timestamp text is exactly
/// the nineteen characters of `YYYY-MM-DD HH:MM:SS`.
pub proof fn lemma_time_text_shape(t: TimeParts)
    requires
        time_parts_valid(t),
        0 <= t.year <= 9999,
    ensures
        time_text(t).len() == 19,
{
    crate::digits::lemma_dec_seq_len(t.year as nat);
    crate::digits::lemma_dec_seq_len(t.month as nat);
    crate::digits::lemma_dec_seq_len(t.day as nat);
    crate::digits::lemma_dec_seq_len(t.hour as nat);
    crate::digits::lemma_dec_seq_len(t.minute as nat);
    crate::digits::lemma_dec_seq_len(t.second as nat);
}

fn pad2_exec(n: u32) -> (r: String)
    ensures
        r@ == pad2(n as nat),
{
    proof {
        reveal_strlit("0");
    }
    if n < 10 {
        let mut r = String::from_str("0");
        let digits = crate::digits::u64_to_dec(n as u64);
        r.append(digits.as_str());
        proof {
            assert(r@ =~= pad2(n as nat));
        }
        r
    } else {
        crate::digits::u64_to_dec(n as u64)
    }
}

fn pad4_exec(n: u32) -> (r: String)
    ensures
        r@ == pad4(n as nat),
{
    proof {
        reveal_strlit("0");
        reveal_strlit("00");
        reveal_strlit("000");
    }
    let digits = crate::digits::u64_to_dec(n as u64);
    let mut r: String;
    if n < 10 {
        r = String::from_str("000");
    } else if n < 100 {
        r = String::from_str("00");
    } else if n < 1000 {
        r = String::from_str("0");
    } else {
        r = String::new();
    }
    r.append(digits.as_str());
    proof {
        assert(r@ =~= pad4(n as nat));
    }
    r
}

fn year_exec(y: i32) -> (r: String)
    ensures
        r@ == year_text(y as int),
{
    proof {
        reveal_strlit("-");
    }
    if y >= 0 {
        pad4_exec(y as u32)
    } else {
        let magnitude: u32 = ((-(y + 1)) as u32) + 1;
        proof {
            assert(magnitude as int == -(y as int));
        }
        let mut r = String::from_str("-");
        let padded = pad4_exec(magnitude);
        r.append(padded.as_str());
        proof {
            assert(r@ =~= year_text(y as int));
        }
        r
    }
}

/// Renders a calendar instant as `YYYY-MM-DD HH:MM:SS`.
pub fn format_time(t: &TimeParts) -> (r: String)
    ensures
        r@ == time_text(*t),
{
    proof {
        reveal_strlit("-");
        reveal_strlit(" ");
        reveal_strlit(":");
    }
    let mut r = year_exec(t.year);
    let month = pad2_exec(t.month);
    let day = pad2_exec(t.day);
    let hour = pad2_exec(t.hour);
    let minute = pad2_exec(t.minute);
    let second = pad2_exec(t.second);
    r.append("-");
    r.append(month.as_str());
    r.append("-");
    r.append(day.as_str());
    r.append(" ");
    r.append(hour.as_str());
    r.append(":");
    r.append(minute.as_str());
    r.append(":");
    r.append(second.as_str());
    proof {
        assert(r@ =~= time_text(*t));
    }
    r
}

} // verus!
