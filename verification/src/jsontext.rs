//! Compact JSON text for [`JsonValue`] bodies.
//!
//! The emitted text is pinned character for character by `spec_json_text`,
//! so serialization is deterministic. Strings are escaped for the quote,
//! the backslash, and the newline, carriage-return and tab controls;
//! other characters pass through unchanged.

use vstd::prelude::*;

use crate::envelope::Envelope;
use crate::envelope::JsonValue;

verus! {

broadcast use
    vstd::seq::axiom_seq_index_decreases,
    vstd::std_specs::vec::axiom_vec_index_decreases,
    vstd::std_specs::vec::axiom_vec_decreases_to_view,
;

/// How one character appears inside a JSON string literal.
pub open spec fn spec_escape_char(c: char) -> Seq<char> {
    if c == '"' {
        seq!['\\', '"']
    } else if c == '\\' {
        seq!['\\', '\\']
    } else if c == '\n' {
        seq!['\\', 'n']
    } else if c == '\r' {
        seq!['\\', 'r']
    } else if c == '\t' {
        seq!['\\', 't']
    } else {
        seq![c]
    }
}

/// A whole string escaped.
pub open spec fn spec_escape(s: Seq<char>) -> Seq<char>
    decreases s.len(),
{
    if s.len() == 0 {
        Seq::<char>::empty()
    } else {
        spec_escape(s.drop_last()) + spec_escape_char(s.last())
    }
}

/// A quoted, escaped JSON string literal.
pub open spec fn spec_quoted(s: Seq<char>) -> Seq<char> {
    seq!['"'] + spec_escape(s) + seq!['"']
}

/// The decimal digit character of `d` (0 through 9).
pub open spec fn spec_digit_char(d: int) -> char {
    if d == 0 {
        '0'
    } else if d == 1 {
        '1'
    } else if d == 2 {
        '2'
    } else if d == 3 {
        '3'
    } else if d == 4 {
        '4'
    } else if d == 5 {
        '5'
    } else if d == 6 {
        '6'
    } else if d == 7 {
        '7'
    } else if d == 8 {
        '8'
    } else {
        '9'
    }
}

/// The decimal text of a non-negative integer.
pub open spec fn spec_nat_text(n: int) -> Seq<char>
    decreases n,
        when n >= 0
{
    if n < 10 {
        seq![spec_digit_char(n)]
    } else {
        spec_nat_text(n / 10).push(spec_digit_char(n % 10))
    }
}

/// The compact JSON text of a value.
pub open spec fn spec_json_text(v: JsonValue) -> Seq<char>
    decreases v, 0int,
{
    match v {
        JsonValue::Null => "null"@,
        JsonValue::Bool(b) => if b {
            "true"@
        } else {
            "false"@
        },
        JsonValue::UInt(n) => spec_nat_text(n as int),
        JsonValue::Text(s) => spec_quoted(s@),
        JsonValue::List(xs) => seq!['['] + spec_list_items(xs@, 0) + seq![']'],
        JsonValue::Object(es) => seq!['{'] + spec_object_items(es@, 0) + seq!['}'],
    }
}

/// The comma-separated items of a list, from position `i` on.
pub open spec fn spec_list_items(xs: Seq<JsonValue>, i: int) -> Seq<char>
    decreases xs, xs.len() - i,
        when 0 <= i
{
    if i >= xs.len() {
        Seq::<char>::empty()
    } else if i == xs.len() - 1 {
        spec_json_text(xs[i])
    } else {
        spec_json_text(xs[i]) + ","@ + spec_list_items(xs, i + 1)
    }
}

/// The comma-separated `"key":value` entries of an object, from `i` on.
pub open spec fn spec_object_items(es: Seq<(String, JsonValue)>, i: int) -> Seq<char>
    decreases es, es.len() - i,
        when 0 <= i
{
    if i >= es.len() {
        Seq::<char>::empty()
    } else if i == es.len() - 1 {
        spec_quoted(es[i].0@) + ":"@ + spec_json_text(es[i].1)
    } else {
        spec_quoted(es[i].0@) + ":"@ + spec_json_text(es[i].1) + ","@ + spec_object_items(
            es,
            i + 1,
        )
    }
}

fn escape_into(out: &mut String, s: &str)
    ensures
        final(out)@ == old(out)@ + spec_escape(s@),
{
    let n = s.unicode_len();
    let mut i: usize = 0;
    while i < n
        invariant
            i <= n,
            n == s@.len(),
            out@ == old(out)@ + spec_escape(s@.take(i as int)),
        decreases n - i,
    {
        let c = s.get_char(i);
        if c == '"' {
            out.append("\\\"");
        } else if c == '\\' {
            out.append("\\\\");
        } else if c == '\n' {
            out.append("\\n");
        } else if c == '\r' {
            out.append("\\r");
        } else if c == '\t' {
            out.append("\\t");
        } else {
            out.append(s.substring_char(i, i + 1));
        }
        proof {
            reveal_strlit("\\\"");
            reveal_strlit("\\\\");
            reveal_strlit("\\n");
            reveal_strlit("\\r");
            reveal_strlit("\\t");
            assert(s@.take(i + 1).drop_last() =~= s@.take(i as int));
            assert(s@.take(i + 1).last() == s@[i as int]);
            assert(s@.subrange(i as int, i + 1) =~= seq![s@[i as int]]);
            assert(out@ =~= old(out)@ + spec_escape(s@.take(i + 1)));
        }
        i += 1;
    }
    proof {
        assert(s@.take(n as int) =~= s@);
    }
}

fn quoted(s: &str) -> (r: String)
    ensures
        r@ == spec_quoted(s@),
{
    let mut out = String::from_str("\"");
    escape_into(&mut out, s);
    out.append("\"");
    proof {
        reveal_strlit("\"");
        assert(out@ =~= spec_quoted(s@));
    }
    out
}

fn digit_text(d: u64) -> (r: String)
    requires
        d < 10,
    ensures
        r@ == seq![spec_digit_char(d as int)],
{
    let r = if d == 0 {
        String::from_str("0")
    } else if d == 1 {
        String::from_str("1")
    } else if d == 2 {
        String::from_str("2")
    } else if d == 3 {
        String::from_str("3")
    } else if d == 4 {
        String::from_str("4")
    } else if d == 5 {
        String::from_str("5")
    } else if d == 6 {
        String::from_str("6")
    } else if d == 7 {
        String::from_str("7")
    } else if d == 8 {
        String::from_str("8")
    } else {
        String::from_str("9")
    };
    proof {
        reveal_strlit("0");
        reveal_strlit("1");
        reveal_strlit("2");
        reveal_strlit("3");
        reveal_strlit("4");
        reveal_strlit("5");
        reveal_strlit("6");
        reveal_strlit("7");
        reveal_strlit("8");
        reveal_strlit("9");
        assert(r@ =~= seq![spec_digit_char(d as int)]);
    }
    r
}

fn nat_text(n: u64) -> (r: String)
    ensures
        r@ == spec_nat_text(n as int),
    decreases n,
{
    if n < 10 {
        digit_text(n)
    } else {
        let mut s = nat_text(n / 10);
        let d = digit_text(n % 10);
        s.append(d.as_str());
        proof {
            assert(s@ =~= spec_nat_text(n as int));
        }
        s
    }
}

/// The compact JSON text of a value, as pinned by `spec_json_text`.
pub fn json_text(v: &JsonValue) -> (r: String)
    ensures
        r@ == spec_json_text(*v),
    decreases v, 0int,
{
    match v {
        JsonValue::Null => String::from_str("null"),
        JsonValue::Bool(b) => {
            if *b {
                String::from_str("true")
            } else {
                String::from_str("false")
            }
        },
        JsonValue::UInt(n) => nat_text(*n),
        JsonValue::Text(s) => quoted(s.as_str()),
        JsonValue::List(xs) => {
            let mut out = String::from_str("[");
            let items = list_items_text(xs, 0);
            out.append(items.as_str());
            out.append("]");
            proof {
                reveal_strlit("[");
                reveal_strlit("]");
                assert(out@ =~= spec_json_text(*v));
            }
            out
        },
        JsonValue::Object(es) => {
            let mut out = String::from_str("{");
            let items = object_items_text(es, 0);
            out.append(items.as_str());
            out.append("}");
            proof {
                reveal_strlit("{");
                reveal_strlit("}");
                assert(out@ =~= spec_json_text(*v));
            }
            out
        },
    }
}

fn list_items_text(xs: &Vec<JsonValue>, i: usize) -> (r: String)
    requires
        i <= xs@.len(),
    ensures
        r@ == spec_list_items(xs@, i as int),
    decreases xs@, xs@.len() - i,
{
    if i >= xs.len() {
        String::new()
    } else if i == xs.len() - 1 {
        json_text(&xs[i])
    } else {
        let mut s = json_text(&xs[i]);
        s.append(",");
        let rest = list_items_text(xs, i + 1);
        s.append(rest.as_str());
        proof {
            assert(s@ =~= spec_list_items(xs@, i as int));
        }
        s
    }
}

fn object_items_text(es: &Vec<(String, JsonValue)>, i: usize) -> (r: String)
    requires
        i <= es@.len(),
    ensures
        r@ == spec_object_items(es@, i as int),
    decreases es@, es@.len() - i,
{
    if i >= es.len() {
        String::new()
    } else {
        let e = &es[i];
        let mut s = quoted(e.0.as_str());
        s.append(":");
        let val = json_text(&e.1);
        s.append(val.as_str());
        if i == es.len() - 1 {
            proof {
                assert(s@ =~= spec_object_items(es@, i as int));
            }
            s
        } else {
            s.append(",");
            let rest = object_items_text(es, i + 1);
            s.append(rest.as_str());
            proof {
                assert(s@ =~= spec_object_items(es@, i as int));
            }
            s
        }
    }
}

/// The body of an envelope as compact JSON text.
pub fn body_text(e: &Envelope) -> (r: String)
    ensures
        r@ == spec_json_text(e.body),
{
    json_text(&e.body)
}

} // verus!
