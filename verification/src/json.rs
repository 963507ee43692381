//! JSON rendering of record snapshots for the audit trail.
//!
//! The audit log stores before/after images of employee records as JSON
//! text. The encoding is pinned down exactly: object keys in field order,
//! strings escaped with the standard two-character escapes and `\u00..`
//! for the remaining control characters, absent fields as `null`.

use vstd::prelude::*;
use crate::credential::{hex_char, spec_hex_char};
use crate::models::Employee;
use crate::text::push_char;

verus! {

/// The escape of one character inside a JSON string.
pub open spec fn esc_char(c: char) -> Seq<char> {
    if c == '"' {
        seq!['\\', '"']
    } else if c == '\\' {
        seq!['\\', '\\']
    } else if c == '\u{8}' {
        seq!['\\', 'b']
    } else if c == '\t' {
        seq!['\\', 't']
    } else if c == '\n' {
        seq!['\\', 'n']
    } else if c == '\u{c}' {
        seq!['\\', 'f']
    } else if c == '\r' {
        seq!['\\', 'r']
    } else if (c as u32) < 0x20 {
        seq!['\\', 'u', '0', '0', spec_hex_char(((c as u32) / 16) as nat), spec_hex_char(
            ((c as u32) % 16) as nat,
        )]
    } else {
        seq![c]
    }
}

/// The body of a JSON string: every character escaped.
pub open spec fn json_escaped(s: Seq<char>) -> Seq<char>
    decreases s.len(),
{
    if s.len() == 0 {
        Seq::empty()
    } else {
        esc_char(s[0]) + json_escaped(s.drop_first())
    }
}

/// A JSON string literal.
pub open spec fn json_string(s: Seq<char>) -> Seq<char> {
    seq!['"'] + json_escaped(s) + seq!['"']
}

/// An optional string: a JSON string, or `null`.
pub open spec fn json_opt(o: Option<String>) -> Seq<char> {
    match o {
        Some(s) => json_string(s@),
        None => "null"@,
    }
}

/// The JSON image of an employee record: all fields, in declaration
/// order.
pub open spec fn json_of_employee(e: Employee) -> Seq<char> {
    "{\"epf_number\":"@ + json_string(e.epf_number@) + ",\"name_with_initials\":"@ + json_string(
        e.name_with_initials@,
    ) + ",\"full_name\":"@ + json_string(e.full_name@) + ",\"dob\":"@ + json_opt(e.dob)
        + ",\"police_area\":"@ + json_opt(e.police_area) + ",\"transport_route\":"@ + json_opt(
        e.transport_route,
    ) + ",\"mobile_1\":"@ + json_opt(e.mobile_1) + ",\"mobile_2\":"@ + json_opt(e.mobile_2)
        + ",\"address\":"@ + json_opt(e.address) + ",\"date_of_join\":"@ + json_opt(e.date_of_join)
        + ",\"date_of_resign\":"@ + json_opt(e.date_of_resign) + ",\"working_status\":"@
        + json_string(e.working_status@) + ",\"marital_status\":"@ + json_opt(e.marital_status)
        + ",\"cader\":"@ + json_opt(e.cader) + ",\"designation\":"@ + json_opt(e.designation)
        + ",\"allocation\":"@ + json_opt(e.allocation) + ",\"department\":"@ + json_opt(
        e.department,
    ) + ",\"image_path\":"@ + json_opt(e.image_path) + ",\"created_at\":"@ + json_opt(e.created_at)
        + "}"@
}

fn push_escaped_char(out: &mut String, c: char)
    ensures
        final(out)@ == old(out)@ + esc_char(c),
{
    if c == '"' {
        push_char(out, '\\');
        push_char(out, '"');
    } else if c == '\\' {
        push_char(out, '\\');
        push_char(out, '\\');
    } else if c == '\u{8}' {
        push_char(out, '\\');
        push_char(out, 'b');
    } else if c == '\t' {
        push_char(out, '\\');
        push_char(out, 't');
    } else if c == '\n' {
        push_char(out, '\\');
        push_char(out, 'n');
    } else if c == '\u{c}' {
        push_char(out, '\\');
        push_char(out, 'f');
    } else if c == '\r' {
        push_char(out, '\\');
        push_char(out, 'r');
    } else if (c as u32) < 0x20 {
        push_char(out, '\\');
        push_char(out, 'u');
        push_char(out, '0');
        push_char(out, '0');
        push_char(out, hex_char(((c as u32) / 16) as u8));
        push_char(out, hex_char(((c as u32) % 16) as u8));
    } else {
        push_char(out, c);
    }
    assert(final(out)@ =~= old(out)@ + esc_char(c));
}

/// Escaping distributes over concatenation.
proof fn lemma_json_escaped_concat(a: Seq<char>, b: Seq<char>)
    ensures
        json_escaped(a + b) == json_escaped(a) + json_escaped(b),
    decreases a.len(),
{
    if a.len() == 0 {
        assert(a + b =~= b);
        assert(json_escaped(a) + json_escaped(b) =~= json_escaped(b));
    } else {
        lemma_json_escaped_concat(a.drop_first(), b);
        assert((a + b).drop_first() =~= a.drop_first() + b);
        assert(esc_char(a[0]) + (json_escaped(a.drop_first()) + json_escaped(b)) =~= (esc_char(
            a[0],
        ) + json_escaped(a.drop_first())) + json_escaped(b));
    }
}

fn append_json_string(out: &mut String, s: &str)
    ensures
        final(out)@ == old(out)@ + json_string(s@),
{
    push_char(out, '"');
    let ghost mid = out@;
    let n = s.unicode_len();
    let mut i: usize = 0;
    proof {
        assert(mid + json_escaped(s@.take(0)) =~= mid);
    }
    while i < n
        invariant
            i <= n,
            n == s@.len(),
            out@ == mid + json_escaped(s@.take(i as int)),
        decreases n - i,
    {
        push_escaped_char(out, s.get_char(i));
        proof {
            lemma_json_escaped_concat(s@.take(i as int), seq![s@[i as int]]);
            assert(s@.take(i + 1) =~= s@.take(i as int) + seq![s@[i as int]]);
            assert(seq![s@[i as int]].drop_first() =~= Seq::<char>::empty());
            assert(json_escaped(Seq::<char>::empty()) =~= Seq::<char>::empty());
            assert(json_escaped(seq![s@[i as int]]) =~= esc_char(s@[i as int]));
            assert(mid + json_escaped(s@.take(i as int)) + esc_char(s@[i as int]) =~= mid
                + json_escaped(s@.take(i + 1)));
        }
        i += 1;
    }
    proof {
        assert(s@.take(n as int) =~= s@);
    }
    push_char(out, '"');
    assert(final(out)@ =~= old(out)@ + json_string(s@));
}

fn append_json_opt(out: &mut String, o: &Option<String>)
    ensures
        final(out)@ == old(out)@ + json_opt(*o),
{
    match o {
        Some(s) => {
            append_json_string(out, s.as_str());
        },
        None => {
            out.append("null");
        },
    }
}

/// Renders the JSON image of an employee record.
pub fn employee_to_json(e: &Employee) -> (r: String)
    ensures
        r@ == json_of_employee(*e),
{
    let mut out = String::new();
    out.append("{\"epf_number\":");
    assert(out@ =~= "{\"epf_number\":"@);
    append_json_string(&mut out, e.epf_number.as_str());
    out.append(",\"name_with_initials\":");
    append_json_string(&mut out, e.name_with_initials.as_str());
    out.append(",\"full_name\":");
    append_json_string(&mut out, e.full_name.as_str());
    out.append(",\"dob\":");
    append_json_opt(&mut out, &e.dob);
    out.append(",\"police_area\":");
    append_json_opt(&mut out, &e.police_area);
    out.append(",\"transport_route\":");
    append_json_opt(&mut out, &e.transport_route);
    out.append(",\"mobile_1\":");
    append_json_opt(&mut out, &e.mobile_1);
    out.append(",\"mobile_2\":");
    append_json_opt(&mut out, &e.mobile_2);
    out.append(",\"address\":");
    append_json_opt(&mut out, &e.address);
    out.append(",\"date_of_join\":");
    append_json_opt(&mut out, &e.date_of_join);
    out.append(",\"date_of_resign\":");
    append_json_opt(&mut out, &e.date_of_resign);
    out.append(",\"working_status\":");
    append_json_string(&mut out, e.working_status.as_str());
    out.append(",\"marital_status\":");
    append_json_opt(&mut out, &e.marital_status);
    out.append(",\"cader\":");
    append_json_opt(&mut out, &e.cader);
    out.append(",\"designation\":");
    append_json_opt(&mut out, &e.designation);
    out.append(",\"allocation\":");
    append_json_opt(&mut out, &e.allocation);
    out.append(",\"department\":");
    append_json_opt(&mut out, &e.department);
    out.append(",\"image_path\":");
    append_json_opt(&mut out, &e.image_path);
    out.append(",\"created_at\":");
    append_json_opt(&mut out, &e.created_at);
    out.append("}");
    out
}

} // verus!
