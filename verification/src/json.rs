//! Exact JSON rendering of the values the service serialises: strings
//! with standard JSON escaping, scalar field values, and the channel
//! payload object.

use vstd::prelude::*;
use vstd::string::*;

use crate::model::{FieldValue, FieldValueView, MongoDBData, MongoDBDataView};
use crate::text::{push_char, spec_dec, spec_digit, i64_dec};
use crate::time::{rfc3339_of, rfc3339_string};

verus! {

/// A hexadecimal digit as a lower-case character.
pub open spec fn spec_hex_digit(n: int) -> char {
    if n < 10 {
        spec_digit(n)
    } else if n == 10 {
        'a'
    } else if n == 11 {
        'b'
    } else if n == 12 {
        'c'
    } else if n == 13 {
        'd'
    } else if n == 14 {
        'e'
    } else {
        'f'
    }
}

/// The JSON escape of one character.
pub open spec fn spec_json_escaped_char(c: char) -> Seq<char> {
    if c == '"' {
        seq!['\\', '"']
    } else if c == '\\' {
        seq!['\\', '\\']
    } else if c == '\u{8}' {
        seq!['\\', 'b']
    } else if c == '\u{9}' {
        seq!['\\', 't']
    } else if c == '\u{A}' {
        seq!['\\', 'n']
    } else if c == '\u{C}' {
        seq!['\\', 'f']
    } else if c == '\u{D}' {
        seq!['\\', 'r']
    } else if (c as u32) < 32 {
        seq!['\\', 'u', '0', '0'] + seq![
            spec_hex_digit(c as u32 as int / 16),
            spec_hex_digit(c as u32 as int % 16),
        ]
    } else {
        seq![c]
    }
}

/// The JSON escape of a string's characters.
pub open spec fn spec_json_escaped(s: Seq<char>) -> Seq<char>
    decreases s.len(),
{
    if s.len() == 0 {
        Seq::empty()
    } else {
        spec_json_escaped(s.drop_last()) + spec_json_escaped_char(s.last())
    }
}

/// A JSON string literal: the escaped characters between quotes.
pub open spec fn spec_json_string(s: Seq<char>) -> Seq<char> {
    seq!['"'] + spec_json_escaped(s) + seq!['"']
}

/// The JSON rendering of one scalar value, or `None` when it holds a
/// timestamp outside the representable range.
pub open spec fn spec_json_of_value(v: FieldValueView) -> Option<Seq<char>> {
    match v {
        FieldValueView::Null => Some(seq!['n', 'u', 'l', 'l']),
        FieldValueView::Bool(b) => Some(
            if b {
                seq!['t', 'r', 'u', 'e']
            } else {
                seq!['f', 'a', 'l', 's', 'e']
            },
        ),
        FieldValueView::Int32(n) => Some(spec_dec(n as int)),
        FieldValueView::Int64(n) => Some(spec_dec(n as int)),
        FieldValueView::Str(s) => Some(spec_json_string(s)),
        FieldValueView::DateTime(ms) => match rfc3339_of(ms) {
            Some(s) => Some(spec_json_string(s)),
            None => None,
        },
    }
}

/// The members of the values object, comma separated, in entry order.
pub open spec fn spec_json_val_members(entries: Seq<(Seq<char>, FieldValueView)>) -> Option<
    Seq<char>,
>
    decreases entries.len(),
{
    if entries.len() == 0 {
        Some(Seq::empty())
    } else {
        let init = spec_json_val_members(entries.drop_last());
        let last = entries.last();
        match (init, spec_json_of_value(last.1)) {
            (Some(a), Some(b)) => {
                let member = spec_json_string(last.0) + seq![':'] + b;
                if entries.len() == 1 {
                    Some(member)
                } else {
                    Some(a + seq![','] + member)
                }
            },
            _ => None,
        }
    }
}

/// The members of the timestamps object, comma separated, in entry
/// order; each timestamp renders as an RFC 3339 string.
pub open spec fn spec_json_ts_members(entries: Seq<(Seq<char>, i64)>) -> Option<Seq<char>>
    decreases entries.len(),
{
    if entries.len() == 0 {
        Some(Seq::empty())
    } else {
        let init = spec_json_ts_members(entries.drop_last());
        let last = entries.last();
        match (init, rfc3339_of(last.1)) {
            (Some(a), Some(b)) => {
                let member = spec_json_string(last.0) + seq![':'] + spec_json_string(b);
                if entries.len() == 1 {
                    Some(member)
                } else {
                    Some(a + seq![','] + member)
                }
            },
            _ => None,
        }
    }
}

/// The JSON object a channel payload serialises to.
pub open spec fn spec_json_of_data(d: MongoDBDataView) -> Option<Seq<char>> {
    match (spec_json_val_members(d.val), spec_json_ts_members(d.ts)) {
        (Some(v), Some(t)) => Some(
            seq!['{', '"', 'v', 'a', 'l', '"', ':', '{'] + v + seq!['}', ',', '"', 't', 's', '"',
                ':', '{'] + t + seq!['}', '}'],
        ),
        _ => None,
    }
}

fn hex_digit_char(n: u32) -> (c: char)
    requires
        n < 16,
    ensures
        c == spec_hex_digit(n as int),
{
    match n {
        0 => '0',
        1 => '1',
        2 => '2',
        3 => '3',
        4 => '4',
        5 => '5',
        6 => '6',
        7 => '7',
        8 => '8',
        9 => '9',
        10 => 'a',
        11 => 'b',
        12 => 'c',
        13 => 'd',
        14 => 'e',
        _ => 'f',
    }
}

fn push_escaped_char(out: &mut String, c: char)
    ensures
        final(out)@ == old(out)@ + spec_json_escaped_char(c),
{
    if c == '"' {
        out.append("\\\"");
        proof {
            reveal_strlit("\\\"");
            assert(out@ =~= old(out)@ + spec_json_escaped_char(c));
        }
    } else if c == '\\' {
        out.append("\\\\");
        proof {
            reveal_strlit("\\\\");
            assert(out@ =~= old(out)@ + spec_json_escaped_char(c));
        }
    } else if c == '\u{8}' {
        out.append("\\b");
        proof {
            reveal_strlit("\\b");
            assert(out@ =~= old(out)@ + spec_json_escaped_char(c));
        }
    } else if c == '\u{9}' {
        out.append("\\t");
        proof {
            reveal_strlit("\\t");
            assert(out@ =~= old(out)@ + spec_json_escaped_char(c));
        }
    } else if c == '\u{A}' {
        out.append("\\n");
        proof {
            reveal_strlit("\\n");
            assert(out@ =~= old(out)@ + spec_json_escaped_char(c));
        }
    } else if c == '\u{C}' {
        out.append("\\f");
        proof {
            reveal_strlit("\\f");
            assert(out@ =~= old(out)@ + spec_json_escaped_char(c));
        }
    } else if c == '\u{D}' {
        out.append("\\r");
        proof {
            reveal_strlit("\\r");
            assert(out@ =~= old(out)@ + spec_json_escaped_char(c));
        }
    } else if (c as u32) < 32 {
        let code = c as u32;
        out.append("\\u00");
        push_char(out, hex_digit_char(code / 16));
        push_char(out, hex_digit_char(code % 16));
        proof {
            reveal_strlit("\\u00");
            assert(out@ =~= old(out)@ + spec_json_escaped_char(c));
        }
    } else {
        push_char(out, c);
        proof {
            assert(out@ =~= old(out)@ + spec_json_escaped_char(c));
        }
    }
}

/// Appends the JSON string literal rendering `s` between quotes.
pub fn append_json_string(out: &mut String, s: &str)
    ensures
        final(out)@ == old(out)@ + spec_json_string(s@),
{
    push_char(out, '"');
    let n = s.unicode_len();
    let mut i: usize = 0;
    proof {
        assert(spec_json_escaped(s@.take(0)) =~= Seq::<char>::empty());
        assert(out@ =~= old(out)@ + seq!['"'] + spec_json_escaped(s@.take(0)));
    }
    while i < n
        invariant
            n == s@.len(),
            i <= n,
            out@ == old(out)@ + seq!['"'] + spec_json_escaped(s@.take(i as int)),
        decreases n - i,
    {
        let c = s.get_char(i);
        push_escaped_char(out, c);
        proof {
            assert(s@.take(i as int + 1).drop_last() =~= s@.take(i as int));
            assert(s@.take(i as int + 1).last() == s@[i as int]);
        }
        i += 1;
    }
    push_char(out, '"');
    proof {
        assert(s@.take(n as int) =~= s@);
        assert(out@ =~= old(out)@ + spec_json_string(s@));
    }
}

/// Appends the JSON rendering of one scalar value; fails only on a
/// timestamp outside the representable range, appending nothing.
pub fn append_json_value(out: &mut String, v: &FieldValue) -> (ok: bool)
    ensures
        match spec_json_of_value(v@) {
            Some(m) => ok && final(out)@ == old(out)@ + m,
            None => !ok && final(out)@ == old(out)@,
        },
{
    match v {
        FieldValue::Null => {
            out.append("null");
            proof {
                reveal_strlit("null");
                assert(out@ =~= old(out)@ + spec_json_of_value(v@)->0);
            }
            true
        },
        FieldValue::Bool(b) => {
            if *b {
                out.append("true");
                proof {
                    reveal_strlit("true");
                    assert(out@ =~= old(out)@ + spec_json_of_value(v@)->0);
                }
            } else {
                out.append("false");
                proof {
                    reveal_strlit("false");
                    assert(out@ =~= old(out)@ + spec_json_of_value(v@)->0);
                }
            }
            true
        },
        FieldValue::Int32(n) => {
            let rendered = i64_dec(*n as i64);
            out.append(rendered.as_str());
            true
        },
        FieldValue::Int64(n) => {
            let rendered = i64_dec(*n);
            out.append(rendered.as_str());
            true
        },
        FieldValue::Str(s) => {
            append_json_string(out, s.as_str());
            true
        },
        FieldValue::DateTime(ms) => {
            match rfc3339_string(*ms) {
                Some(rendered) => {
                    append_json_string(out, rendered.as_str());
                    true
                },
                None => false,
            }
        },
    }
}

/// Renders a channel payload as its JSON object, or `None` when one of
/// its timestamps cannot be represented.
pub fn render_data(data: &MongoDBData) -> (r: Option<String>)
    ensures
        match r {
            Some(s) => spec_json_of_data(data@) == Some(s@),
            None => spec_json_of_data(data@) is None,
        },
{
    let mut out = String::new();
    out.append("{\"val\":{");
    proof {
        reveal_strlit("{\"val\":{");
        assert(out@ =~= seq!['{', '"', 'v', 'a', 'l', '"', ':', '{']);
    }
    let ghost header: Seq<char> = out@;
    let n = data.val_len();
    let mut i: usize = 0;
    proof {
        assert(data@.val.take(0) =~= Seq::<(Seq<char>, FieldValueView)>::empty());
        assert(spec_json_val_members(data@.val.take(0)) == Some(Seq::<char>::empty()));
        assert(out@ =~= header + Seq::<char>::empty());
    }
    while i < n
        invariant
            n == data@.val.len(),
            i <= n,
            spec_json_val_members(data@.val.take(i as int)) matches Some(m) && out@ == header + m,
        decreases n - i,
    {
        proof {
            assert(data@.val.take(i as int + 1).drop_last() =~= data@.val.take(i as int));
            assert(data@.val.take(i as int + 1).last() == data@.val[i as int]);
        }
        let ghost before: Seq<char> = out@;
        if i > 0 {
            push_char(&mut out, ',');
        }
        let entry = data.val_entry(i);
        append_json_string(&mut out, entry.0.as_str());
        push_char(&mut out, ':');
        let ok = append_json_value(&mut out, &entry.1);
        if !ok {
            proof {
                lemma_val_members_none(data@.val, i as int);
            }
            return None;
        }
        proof {
            assert(out@ =~= header + spec_json_val_members(data@.val.take(i as int + 1))->0);
        }
        i += 1;
    }
    proof {
        assert(data@.val.take(n as int) =~= data@.val);
    }
    out.append("},\"ts\":{");
    proof {
        reveal_strlit("},\"ts\":{");
    }
    let ghost mid: Seq<char> = out@;
    let tn = data.ts_len();
    let mut j: usize = 0;
    proof {
        assert(data@.ts.take(0) =~= Seq::<(Seq<char>, i64)>::empty());
        assert(spec_json_ts_members(data@.ts.take(0)) == Some(Seq::<char>::empty()));
        assert(out@ =~= mid + Seq::<char>::empty());
    }
    while j < tn
        invariant
            tn == data@.ts.len(),
            j <= tn,
            spec_json_ts_members(data@.ts.take(j as int)) matches Some(m) && out@ == mid + m,
        decreases tn - j,
    {
        proof {
            assert(data@.ts.take(j as int + 1).drop_last() =~= data@.ts.take(j as int));
            assert(data@.ts.take(j as int + 1).last() == data@.ts[j as int]);
        }
        if j > 0 {
            push_char(&mut out, ',');
        }
        let entry = data.ts_entry(j);
        append_json_string(&mut out, entry.0.as_str());
        push_char(&mut out, ':');
        match rfc3339_string(entry.1) {
            Some(rendered) => {
                append_json_string(&mut out, rendered.as_str());
            },
            None => {
                proof {
                    lemma_ts_members_none(data@.ts, j as int);
                }
                return None;
            },
        }
        proof {
            assert(out@ =~= mid + spec_json_ts_members(data@.ts.take(j as int + 1))->0);
        }
        j += 1;
    }
    proof {
        assert(data@.ts.take(tn as int) =~= data@.ts);
    }
    out.append("}}");
    proof {
        reveal_strlit("}}");
        assert(out@ =~= spec_json_of_data(data@)->0);
    }
    Some(out)
}

proof fn lemma_val_members_none(entries: Seq<(Seq<char>, FieldValueView)>, i: int)
    requires
        0 <= i < entries.len(),
        spec_json_of_value(entries[i].1) is None,
    ensures
        spec_json_val_members(entries) is None,
    decreases entries.len(),
{
    if i < entries.len() - 1 {
        assert(entries.drop_last()[i] == entries[i]);
        lemma_val_members_none(entries.drop_last(), i);
    }
}

proof fn lemma_ts_members_none(entries: Seq<(Seq<char>, i64)>, i: int)
    requires
        0 <= i < entries.len(),
        rfc3339_of(entries[i].1) is None,
    ensures
        spec_json_ts_members(entries) is None,
    decreases entries.len(),
{
    if i < entries.len() - 1 {
        assert(entries.drop_last()[i] == entries[i]);
        lemma_ts_members_none(entries.drop_last(), i);
    }
}

} // verus!
