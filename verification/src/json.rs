//! The JSON wire format: a snapshot is an array of card objects, and the
//! version descriptor is a small object. Both are built here character by
//! character, against a spec of the exact text.

use vstd::prelude::*;

use vstd::string::{StrSliceExecFns, StringExecFns};

use crate::card::{sex_char, NHICardBasic};
use crate::date::iso_date_chars;
use crate::text::{digit_char, digit_char_of, push_char};

verus! {

pub open spec fn hex_char(d: int) -> char {
    if d < 10 {
        digit_char(d)
    } else if d == 10 {
        'a'
    } else if d == 11 {
        'b'
    } else if d == 12 {
        'c'
    } else if d == 13 {
        'd'
    } else if d == 14 {
        'e'
    } else {
        'f'
    }
}

/// How one character appears inside a JSON string literal: quote and
/// backslash escaped, control characters as their short escapes or as
/// `\u00XX`, everything else as itself.
pub open spec fn escape_char(c: char) -> Seq<char> {
    if c == '"' {
        seq!['\\', '"']
    } else if c == '\\' {
        seq!['\\', '\\']
    } else if c == '\u{8}' {
        seq!['\\', 'b']
    } else if c == '\t' {
        seq!['\\', 't']
    } else if c == '\n' {
        seq!['\\', 'n']
    } else if c == '\u{c}' {
        seq!['\\', 'f']
    } else if c == '\r' {
        seq!['\\', 'r']
    } else if (c as int) < 32 {
        seq!['\\', 'u', '0', '0', hex_char(c as int / 16), hex_char(c as int % 16)]
    } else {
        seq![c]
    }
}

pub open spec fn escape_chars(s: Seq<char>) -> Seq<char>
    decreases s.len(),
{
    if s.len() == 0 {
        Seq::empty()
    } else {
        escape_char(s[0]) + escape_chars(s.drop_first())
    }
}

/// A JSON string literal: the escaped characters between double quotes.
pub open spec fn json_string(s: Seq<char>) -> Seq<char> {
    seq!['"'] + escape_chars(s) + seq!['"']
}

/// The decimal digits of a number, most significant first.
pub open spec fn dec_digits(n: nat) -> Seq<char>
    decreases n,
{
    if n < 10 {
        seq![digit_char(n as int)]
    } else {
        dec_digits(n / 10) + seq![digit_char(n as int % 10)]
    }
}

pub proof fn lemma_escape_chars_snoc(s: Seq<char>, c: char)
    ensures
        escape_chars(s.push(c)) == escape_chars(s) + escape_char(c),
    decreases s.len(),
{
    let t = s.push(c);
    assert(escape_chars(Seq::<char>::empty()) == Seq::<char>::empty());
    if s.len() == 0 {
        assert(t[0] == c);
        assert(t.drop_first() =~= Seq::<char>::empty());
        assert(escape_chars(t) == escape_char(c) + escape_chars(Seq::<char>::empty()));
        assert(escape_chars(t) =~= escape_chars(s) + escape_char(c));
    } else {
        assert(t[0] == s[0]);
        assert(t.drop_first() =~= s.drop_first().push(c));
        lemma_escape_chars_snoc(s.drop_first(), c);
        assert(escape_chars(t) == escape_char(s[0]) + escape_chars(s.drop_first().push(c)));
        assert(escape_chars(t) =~= escape_chars(s) + escape_char(c));
    }
}

fn push_escaped_char(out: &mut String, c: char)
    ensures
        final(out)@ == old(out)@ + escape_char(c),
{
    if c == '"' {
        push_char(out, '\\');
        push_char(out, '"');
    } else if c == '\\' {
        push_char(out, '\\');
        push_char(out, '\\');
    } else if c == '\u{8}' {
        push_char(out, '\\');
        push_char(out, 'b');
    } else if c == '\t' {
        push_char(out, '\\');
        push_char(out, 't');
    } else if c == '\n' {
        push_char(out, '\\');
        push_char(out, 'n');
    } else if c == '\u{c}' {
        push_char(out, '\\');
        push_char(out, 'f');
    } else if c == '\r' {
        push_char(out, '\\');
        push_char(out, 'r');
    } else if (c as u32) < 32 {
        let code = c as u32;
        push_char(out, '\\');
        push_char(out, 'u');
        push_char(out, '0');
        push_char(out, '0');
        let hi = (code / 16) as u8;
        let lo = (code % 16) as u8;
        push_char(out, hex_low_char(hi));
        push_char(out, hex_low_char(lo));
    } else {
        push_char(out, c);
    }
    proof {
        assert(final(out)@ =~= old(out)@ + escape_char(c));
    }
}

fn hex_low_char(d: u8) -> (c: char)
    requires
        d < 16,
    ensures
        c == hex_char(d as int),
{
    if d < 10 {
        digit_char_of(d)
    } else if d == 10 {
        'a'
    } else if d == 11 {
        'b'
    } else if d == 12 {
        'c'
    } else if d == 13 {
        'd'
    } else if d == 14 {
        'e'
    } else {
        'f'
    }
}

/// Appends the escaped body of a JSON string literal.
fn append_escaped(out: &mut String, s: &str)
    ensures
        final(out)@ == old(out)@ + escape_chars(s@),
{
    let n = s.unicode_len();
    let mut i: usize = 0;
    proof {
        assert(s@.take(0) =~= Seq::<char>::empty());
        assert(out@ =~= out@ + escape_chars(s@.take(0)));
    }
    while i < n
        invariant
            i <= n,
            n == s@.len(),
            out@ == old(out)@ + escape_chars(s@.take(i as int)),
        decreases n - i,
    {
        let c = s.get_char(i);
        push_escaped_char(out, c);
        proof {
            assert(s@.take(i + 1).drop_last() =~= s@.take(i as int));
            lemma_escape_chars_snoc(s@.take(i as int), s@[i as int]);
            assert(s@.take(i as int).push(s@[i as int]) =~= s@.take(i + 1));
        }
        i = i + 1;
    }
    proof {
        assert(s@.take(n as int) =~= s@);
    }
}

/// Appends a whole JSON string literal for `s`.
fn append_json_string(out: &mut String, s: &str)
    ensures
        final(out)@ == old(out)@ + json_string(s@),
{
    push_char(out, '"');
    append_escaped(out, s);
    push_char(out, '"');
    proof {
        assert(final(out)@ =~= old(out)@ + json_string(s@));
    }
}

/// Appends a number in decimal.
fn append_u64(out: &mut String, n: u64)
    ensures
        final(out)@ == old(out)@ + dec_digits(n as nat),
    decreases n,
{
    if n < 10 {
        push_char(out, digit_char_of(n as u8));
    } else {
        append_u64(out, n / 10);
        push_char(out, digit_char_of((n % 10) as u8));
    }
}

/// A nullable string field: `null`, or a JSON string literal.
pub open spec fn opt_string_json(o: Option<Seq<char>>) -> Seq<char> {
    match o {
        Option::None => "null"@,
        Option::Some(s) => json_string(s),
    }
}

/// A date field: the ISO text between double quotes (dates never need
/// escaping).
pub open spec fn date_json(d: crate::date::Date) -> Seq<char> {
    seq!['"'] + iso_date_chars(d) + seq!['"']
}

/// The JSON object for one card record, fields in wire order.
pub open spec fn record_json(c: NHICardBasic) -> Seq<char> {
    "{\"reader_name\":"@ + opt_string_json(
        match c.reader_name {
            Option::None => Option::None,
            Option::Some(s) => Option::Some(s@),
        },
    ) + ",\"card_no\":"@ + json_string(c.card_no@) + ",\"full_name\":"@ + json_string(c.full_name@)
        + ",\"id_no\":"@ + json_string(c.id_no@) + ",\"birth_date\":"@ + date_json(c.birth_date)
        + ",\"sex\":\""@ + seq![sex_char(c.sex)] + "\",\"issue_date\":"@ + date_json(c.issue_date)
        + "}"@
}

/// Appends a date field.
fn append_date(out: &mut String, d: &crate::date::Date)
    ensures
        final(out)@ == old(out)@ + date_json(*d),
{
    push_char(out, '"');
    let iso = d.to_iso_string();
    out.append(iso.as_str());
    push_char(out, '"');
    proof {
        assert(final(out)@ =~= old(out)@ + date_json(*d));
    }
}

/// Writes one card record as its JSON object.
pub fn record_to_json(c: &NHICardBasic) -> (r: String)
    ensures
        r@ == record_json(*c),
{
    let mut out = String::new();
    out.append("{\"reader_name\":");
    match &c.reader_name {
        Option::Some(name) => append_json_string(&mut out, name.as_str()),
        Option::None => out.append("null"),
    }
    out.append(",\"card_no\":");
    append_json_string(&mut out, c.card_no.as_str());
    out.append(",\"full_name\":");
    append_json_string(&mut out, c.full_name.as_str());
    out.append(",\"id_no\":");
    append_json_string(&mut out, c.id_no.as_str());
    out.append(",\"birth_date\":");
    append_date(&mut out, &c.birth_date);
    out.append(",\"sex\":\"");
    out.append(c.sex.as_str());
    out.append("\",\"issue_date\":");
    append_date(&mut out, &c.issue_date);
    out.append("}");
    proof {
        assert(out@ =~= record_json(*c));
    }
    out
}

/// The serialized snapshot: a JSON array of record objects in order. An
/// empty snapshot is exactly `[]`.
pub open spec fn snapshot_json(rs: Seq<NHICardBasic>) -> Seq<char> {
    if rs.len() == 0 {
        "[]"@
    } else {
        seq!['['] + records_inner(rs) + seq![']']
    }
}

pub open spec fn records_inner(rs: Seq<NHICardBasic>) -> Seq<char>
    decreases rs.len(),
{
    if rs.len() <= 1 {
        if rs.len() == 0 {
            Seq::empty()
        } else {
            record_json(rs[0])
        }
    } else {
        records_inner(rs.drop_last()) + seq![','] + record_json(rs.last())
    }
}

/// Writes a whole snapshot as its JSON array.
pub fn snapshot_to_json(records: &Vec<NHICardBasic>) -> (r: String)
    ensures
        r@ == snapshot_json(records@),
{
    if records.len() == 0 {
        let mut out = String::new();
        out.append("[]");
        return out;
    }
    let mut out = String::new();
    push_char(&mut out, '[');
    let mut i: usize = 0;
    while i < records.len()
        invariant
            1 <= records@.len(),
            i <= records@.len(),
            i >= 1 ==> out@ == seq!['['] + records_inner(records@.take(i as int)),
            i == 0 ==> out@ == seq!['['],
        decreases records@.len() - i,
    {
        if i > 0 {
            push_char(&mut out, ',');
        }
        let piece = record_to_json(&records[i]);
        out.append(piece.as_str());
        proof {
            assert(records@.take(i + 1).drop_last() =~= records@.take(i as int));
            if i == 0 {
                assert(out@ =~= seq!['['] + records_inner(records@.take(1)));
            } else {
                assert(out@ =~= seq!['['] + records_inner(records@.take(i + 1)));
            }
        }
        i = i + 1;
    }
    push_char(&mut out, ']');
    proof {
        assert(records@.take(records@.len() as int) =~= records@);
        assert(out@ =~= snapshot_json(records@));
    }
    out
}

/// The version descriptor object, fields in wire order.
pub open spec fn version_json_chars(
    text: Seq<char>,
    major: nat,
    minor: nat,
    patch: nat,
    pre: Seq<char>,
) -> Seq<char> {
    "{\"text\":"@ + json_string(text) + ",\"major\":"@ + dec_digits(major) + ",\"minor\":"@
        + dec_digits(minor) + ",\"patch\":"@ + dec_digits(patch) + ",\"pre\":"@ + json_string(pre)
        + "}"@
}

/// Writes the version descriptor served at the version endpoint.
pub fn version_json(text: &str, major: u32, minor: u32, patch: u32, pre: &str) -> (r: String)
    ensures
        r@ == version_json_chars(text@, major as nat, minor as nat, patch as nat, pre@),
{
    let mut out = String::new();
    out.append("{\"text\":");
    append_json_string(&mut out, text);
    out.append(",\"major\":");
    append_u64(&mut out, major as u64);
    out.append(",\"minor\":");
    append_u64(&mut out, minor as u64);
    out.append(",\"patch\":");
    append_u64(&mut out, patch as u64);
    out.append(",\"pre\":");
    append_json_string(&mut out, pre);
    out.append("}");
    proof {
        assert(out@ =~= version_json_chars(text@, major as nat, minor as nat, patch as nat, pre@));
    }
    out
}

} // verus!
