//! JSON text: escaped strings, members and objects, and how a reader takes
//! them apart again.

use crate::pairs;
use crate::pairs::Pair;
use crate::text;
use crate::text::join_text;
use vstd::prelude::*;
use vstd::string::*;

verus! {

// ---------------------------------------------------------------------------
// Writing
// ---------------------------------------------------------------------------

/// The lower-case hexadecimal digit that stands for `d`.
pub open spec fn hex_digit(d: nat) -> char {
    if d < 10 {
        text::digit(d)
    } else {
        (87 + d) as char
    }
}

/// How one character stands inside a JSON string.
pub open spec fn escape_char(c: char) -> Seq<char> {
    if c == '"' {
        seq!['\\', '"']
    } else if c == '\\' {
        seq!['\\', '\\']
    } else if c == '\n' {
        seq!['\\', 'n']
    } else if c == '\r' {
        seq!['\\', 'r']
    } else if c == '\t' {
        seq!['\\', 't']
    } else if ' ' > c {
        seq!['\\', 'u', '0', '0', hex_digit(c as nat / 16), hex_digit(c as nat % 16)]
    } else {
        seq![c]
    }
}

/// How a text stands inside a JSON string.
pub open spec fn escaped(s: Seq<char>) -> Seq<char>
    decreases s.len(),
{
    if s.len() == 0 {
        seq![]
    } else {
        escape_char(s[0]) + escaped(s.drop_first())
    }
}

/// A text as a JSON string.
pub open spec fn json_string(s: Seq<char>) -> Seq<char> {
    seq!['"'] + escaped(s) + seq!['"']
}

/// A member of a JSON object: its name and the text of its value.
pub open spec fn member(name: Seq<char>, value: Seq<char>) -> Seq<char> {
    json_string(name) + seq![':'] + value
}

/// A JSON object with the given members, in order.
pub open spec fn object(members: Seq<Seq<char>>) -> Seq<char> {
    seq!['{'] + text::join(members, ","@) + seq!['}']
}

/// A JSON value of the kinds that are written here.
pub enum Json {
    /// A string.
    Text(Seq<char>),
    /// A whole number.
    Number(nat),
    /// An object: names and values, in order.
    Object(Seq<(Seq<char>, Json)>),
}

/// A name and a value.
pub type Member = (Seq<char>, Json);

/// A value as JSON text.
pub open spec fn written(v: Json) -> Seq<char>
    decreases v,
{
    match v {
        Json::Text(s) => json_string(s),
        Json::Number(n) => text::decimal(n),
        Json::Object(members) => object(written_members(members)),
    }
}

/// The members of an object as JSON text, one by one.
pub open spec fn written_members(members: Seq<Member>) -> Seq<Seq<char>>
    decreases members,
{
    if members.len() == 0 {
        seq![]
    } else {
        written_members(members.drop_last()).push(
            member(members.last().0, written(members.last().1)),
        )
    }
}

/// Pairs as members whose values are strings.
pub open spec fn text_members(s: Seq<Pair>) -> Seq<Member> {
    Seq::new(s.len(), |i: int| (s[i].0, Json::Text(s[i].1)))
}

/// The members are written one by one.
pub broadcast proof fn written_members_in_order(members: Seq<Member>)
    ensures
        (#[trigger] written_members(members)).len() == members.len(),
        forall|i: int|
            0 <= i < members.len() ==> #[trigger] written_members(members)[i] == member(
                members[i].0,
                written(members[i].1),
            ),
    decreases members.len(),
{
    if members.len() > 0 {
        written_members_in_order(members.drop_last());
    }
}

proof fn escaped_grows_at_the_end(s: Seq<char>, c: char)
    ensures
        escaped(s.push(c)) == escaped(s) + escape_char(c),
    decreases s.len(),
{
    if s.len() == 0 {
        assert(s.push(c).drop_first() =~= s);
        assert(escaped(s.push(c)) =~= escaped(s) + escape_char(c));
    } else {
        escaped_grows_at_the_end(s.drop_first(), c);
        assert(s.push(c).drop_first() =~= s.drop_first().push(c));
        assert(escaped(s.push(c)) =~= escaped(s) + escape_char(c));
    }
}

fn hex_char(d: u32) -> (c: char)
    requires
        d < 16,
    ensures
        c == hex_digit(d as nat),
{
    if d < 10 {
        (48u8 + d as u8) as char
    } else {
        (87u8 + d as u8) as char
    }
}

fn escape_char_into(buf: &mut String, c: char)
    ensures
        final(buf)@ == old(buf)@ + escape_char(c),
{
    let ghost before = buf@;
    if c == '"' || c == '\\' {
        buf.push('\\');
        buf.push(c);
    } else if c == '\n' {
        buf.push('\\');
        buf.push('n');
    } else if c == '\r' {
        buf.push('\\');
        buf.push('r');
    } else if c == '\t' {
        buf.push('\\');
        buf.push('t');
    } else if ' ' > c {
        let code: u32 = c as u32;
        buf.push('\\');
        buf.push('u');
        buf.push('0');
        buf.push('0');
        buf.push(hex_char(code / 16));
        buf.push(hex_char(code % 16));
    } else {
        buf.push(c);
    }
    assert(buf@ =~= before + escape_char(c));
}

/// Append `s` as it stands inside a JSON string.
pub fn json_escape_into(buf: &mut String, s: &str)
    ensures
        final(buf)@ == old(buf)@ + escaped(s@),
{
    let ghost before = buf@;
    assert(before + escaped(s@.take(0)) =~= before);
    for c in it: s.chars()
        invariant
            it.seq() == s@,
            buf@ == before + escaped(s@.take(it.index())),
    {
        escape_char_into(buf, c);
        proof {
            let done = s@.take(it.index());
            assert(s@.take(it.index() + 1) =~= done.push(c));
            escaped_grows_at_the_end(done, c);
            assert(buf@ =~= before + escaped(done.push(c)));
        }
    }
    assert(s@.take(s@.len() as int) =~= s@);
}

/// The text as a JSON string.
pub fn json_string_text(s: &str) -> (r: String)
    ensures
        r@ == json_string(s@),
{
    let mut r = String::new();
    r.push('"');
    json_escape_into(&mut r, s);
    r.push('"');
    assert(r@ =~= json_string(s@));
    r
}

/// A member with the given name and value text.
pub fn member_text(name: &str, value: &str) -> (r: String)
    ensures
        r@ == member(name@, value@),
{
    let mut r = json_string_text(name);
    r.push(':');
    r.append(value);
    assert(r@ =~= member(name@, value@));
    r
}

/// A member whose value is a string.
pub fn string_field(name: &str, value: &str) -> (r: String)
    ensures
        r@ == member(name@, json_string(value@)),
{
    let v = json_string_text(value);
    member_text(name, v.as_str())
}

/// An object with the given members.
pub fn object_text(members: &Vec<String>) -> (r: String)
    ensures
        r@ == object(text::texts(members@)),
{
    let mut r = String::new();
    r.push('{');
    let body = join_text(members, ",");
    r.append(body.as_str());
    r.push('}');
    assert(r@ =~= object(text::texts(members@)));
    r
}

/// The members of an object whose values are all strings.
pub fn string_fields(pairs: &Vec<(String, String)>) -> (r: Vec<String>)
    ensures
        text::texts(r@) == written_members(text_members(pairs::pair_texts(pairs@))),
{
    let mut r: Vec<String> = Vec::new();
    let mut i: usize = 0;
    while i < pairs.len()
        invariant
            i <= pairs.len(),
            r.len() == i,
            forall|j: int|
                0 <= j < i ==> #[trigger] r@[j]@ == member(pairs@[j].0@, json_string(pairs@[j].1@)),
        decreases pairs.len() - i,
    {
        r.push(string_field(pairs[i].0.as_str(), pairs[i].1.as_str()));
        i = i + 1;
    }
    proof {
        written_members_in_order(text_members(pairs::pair_texts(pairs@)));
        assert(text::texts(r@) =~= written_members(text_members(pairs::pair_texts(pairs@))));
    }
    r
}

// ---------------------------------------------------------------------------
// Reading
// ---------------------------------------------------------------------------

/// The value of a hexadecimal digit.
pub open spec fn hex_value(c: char) -> Option<nat> {
    if '0' <= c <= '9' {
        Some((c as int - 48) as nat)
    } else if 'a' <= c <= 'f' {
        Some((c as int - 87) as nat)
    } else if 'A' <= c <= 'F' {
        Some((c as int - 55) as nat)
    } else {
        None
    }
}

/// The first character that the inside of a JSON string stands for, and how
/// many characters it takes there.
pub open spec fn read_char(s: Seq<char>) -> Option<(char, int)> {
    if s.len() == 0 || s[0] == '"' || ' ' > s[0] {
        None
    } else if s[0] != '\\' {
        Some((s[0], 1))
    } else if s.len() < 2 {
        None
    } else if s[1] == '"' || s[1] == '\\' || s[1] == '/' {
        Some((s[1], 2))
    } else if s[1] == 'b' {
        Some((8 as char, 2))
    } else if s[1] == 'f' {
        Some((12 as char, 2))
    } else if s[1] == 'n' {
        Some(('\n', 2))
    } else if s[1] == 'r' {
        Some(('\r', 2))
    } else if s[1] == 't' {
        Some(('\t', 2))
    } else if s[1] == 'u' && s.len() >= 6 {
        match (hex_value(s[2]), hex_value(s[3]), hex_value(s[4]), hex_value(s[5])) {
            (Some(a), Some(b), Some(c), Some(d)) => {
                let code = ((a * 16 + b) * 16 + c) * 16 + d;
                if code < 0xd800 || 0xe000 <= code {
                    Some((code as char, 6))
                } else {
                    None
                }
            },
            _ => None,
        }
    } else {
        None
    }
}

/// Read the inside of a JSON string up to its closing quote: the text it
/// stands for, and what follows the quote.
pub open spec fn read_body(s: Seq<char>) -> Option<(Seq<char>, Seq<char>)>
    decreases s.len(),
{
    if s.len() == 0 {
        None
    } else if s[0] == '"' {
        Some((seq![], s.drop_first()))
    } else {
        match read_char(s) {
            None => None,
            Some((c, n)) => match read_body(s.subrange(n, s.len() as int)) {
                None => None,
                Some((rest, after)) => Some((seq![c] + rest, after)),
            },
        }
    }
}

/// Read a JSON string: the text it stands for, and what follows it.
pub open spec fn read_string(s: Seq<char>) -> Option<(Seq<char>, Seq<char>)> {
    if s.len() > 0 && s[0] == '"' {
        read_body(s.drop_first())
    } else {
        None
    }
}

/// The character is a decimal digit.
pub open spec fn is_digit(c: char) -> bool {
    '0' <= c <= '9'
}

/// Read decimal digits behind those that gave `so_far`: the number, and what
/// follows it.
pub open spec fn read_number(s: Seq<char>, so_far: nat) -> (nat, Seq<char>)
    decreases s.len(),
{
    if s.len() > 0 && is_digit(s[0]) {
        read_number(s.drop_first(), (so_far * 10 + (s[0] as int - 48)) as nat)
    } else {
        (so_far, s)
    }
}

/// Read a value: a string, a whole number or an object.
pub open spec fn read_value(s: Seq<char>) -> Option<(Json, Seq<char>)>
    decreases s.len(),
{
    if s.len() == 0 {
        None
    } else if s[0] == '"' {
        match read_string(s) {
            None => None,
            Some((t, rest)) => Some((Json::Text(t), rest)),
        }
    } else if is_digit(s[0]) {
        let (n, rest) = read_number(s, 0);
        Some((Json::Number(n), rest))
    } else if s[0] == '{' && s.len() > 1 && s[1] == '}' {
        Some((Json::Object(seq![]), s.drop_first().drop_first()))
    } else if s[0] == '{' {
        match read_members(s.drop_first()) {
            None => None,
            Some((members, rest)) => Some((Json::Object(members), rest)),
        }
    } else {
        None
    }
}

/// Read the members of an object up to its closing brace, at least one: the
/// members, and what follows the brace.
pub open spec fn read_members(s: Seq<char>) -> Option<(Seq<Member>, Seq<char>)>
    decreases s.len(),
{
    match read_string(s) {
        None => None,
        Some((name, after)) => if 0 < after.len() <= s.len() && after[0] == ':' {
            match read_value(after.drop_first()) {
                None => None,
                Some((value, end)) => if end.len() > 0 && end[0] == '}' {
                    Some((seq![(name, value)], end.drop_first()))
                } else if 0 < end.len() <= s.len() && end[0] == ',' {
                    match read_members(end.drop_first()) {
                        None => None,
                        Some((others, rest)) => Some((seq![(name, value)] + others, rest)),
                    }
                } else {
                    None
                },
            }
        } else {
            None
        },
    }
}

/// The value of the first member with the name.
pub open spec fn field(members: Seq<Member>, name: Seq<char>) -> Option<Json>
    decreases members.len(),
{
    if members.len() == 0 {
        None
    } else if members[0].0 == name {
        Some(members[0].1)
    } else {
        field(members.drop_first(), name)
    }
}

/// An escaped character is read back as itself, whatever follows it.
pub proof fn escaped_char_reads_back(c: char, rest: Seq<char>)
    ensures
        read_char(escape_char(c) + rest) == Some((c, escape_char(c).len() as int)),
{
    let s = escape_char(c) + rest;
    assert(s[0] == escape_char(c)[0]);
    if escape_char(c).len() >= 2 {
        assert(s[1] == escape_char(c)[1]);
    }
    if escape_char(c).len() == 6 {
        let n = c as nat;
        assert(s[2] == '0' && s[3] == '0');
        assert(s[4] == hex_digit(n / 16));
        assert(s[5] == hex_digit(n % 16));
        assert(hex_value(s[4]) == Some(n / 16));
        assert(hex_value(s[5]) == Some(n % 16));
    }
}

/// A text written as the inside of a JSON string, with the closing quote
/// behind it, is read back as the same text: nothing in it ends the string
/// early, and no two texts are written alike.
pub proof fn escaped_text_reads_back(s: Seq<char>, rest: Seq<char>)
    ensures
        read_body(escaped(s) + seq!['"'] + rest) == Some((s, rest)),
    decreases s.len(),
{
    let whole = escaped(s) + seq!['"'] + rest;
    if s.len() == 0 {
        assert(whole[0] == '"');
        assert(whole.drop_first() =~= rest);
        assert(s =~= seq![]);
    } else {
        let head = escape_char(s[0]);
        let tail = escaped(s.drop_first()) + seq!['"'] + rest;
        escaped_text_reads_back(s.drop_first(), rest);
        escaped_char_reads_back(s[0], tail);
        assert(whole =~= head + tail);
        assert(whole[0] == head[0]);
        assert(whole.subrange(head.len() as int, whole.len() as int) =~= tail);
        assert(seq![s[0]] + s.drop_first() =~= s);
    }
}

/// A JSON string is read back as the text it was written from.
pub proof fn json_string_reads_back(s: Seq<char>, rest: Seq<char>)
    ensures
        read_string(json_string(s) + rest) == Some((s, rest)),
{
    let whole = json_string(s) + rest;
    escaped_text_reads_back(s, rest);
    assert(whole.drop_first() =~= escaped(s) + seq!['"'] + rest);
}

/// A number is read back as the number it was written from, and reading goes
/// on behind it.
pub proof fn decimal_reads_back(n: nat, rest: Seq<char>)
    ensures
        read_number(text::decimal(n) + rest, 0) == read_number(rest, n),
    decreases n,
{
    let whole = text::decimal(n) + rest;
    if n < 10 {
        assert(whole[0] == text::digit(n));
        assert(whole.drop_first() =~= rest);
    } else {
        let last = text::digit(n % 10);
        let tail = seq![last] + rest;
        assert(whole =~= text::decimal(n / 10) + tail);
        decimal_reads_back(n / 10, tail);
        assert(tail[0] == last);
        assert(tail.drop_first() =~= rest);
    }
}

/// Joining can start from the front: the first part, the separator, and the
/// other parts joined.
pub proof fn join_from_the_front(parts: Seq<Seq<char>>, separator: Seq<char>)
    requires
        parts.len() >= 2,
    ensures
        text::join(parts, separator) == parts[0] + separator + text::join(parts.drop_first(), separator),
    decreases parts.len(),
{
    if parts.len() == 2 {
        assert(parts.drop_last() =~= seq![parts[0]]);
        assert(parts.drop_first() =~= seq![parts[1]]);
        assert(text::join(parts.drop_last(), separator) == parts[0]);
        assert(text::join(parts.drop_first(), separator) == parts[1]);
    } else {
        join_from_the_front(parts.drop_last(), separator);
        assert(parts.drop_last().drop_first() =~= parts.drop_first().drop_last());
        assert(text::join(parts, separator) =~= parts[0] + separator + text::join(
            parts.drop_first(),
            separator,
        ));
    }
}

/// A written value is read back as the value it was written from, whatever
/// follows it that does not go on with a digit.
pub proof fn written_value_reads_back(v: Json, rest: Seq<char>)
    requires
        rest.len() > 0 ==> !is_digit(rest[0]),
    ensures
        read_value(written(v) + rest) == Some((v, rest)),
    decreases v,
{
    let whole = written(v) + rest;
    match v {
        Json::Text(s) => {
            assert(whole[0] == '"');
            json_string_reads_back(s, rest);
        },
        Json::Number(n) => {
            text::decimal_starts_with_a_digit(n);
            assert(whole[0] == text::decimal(n)[0]);
            decimal_reads_back(n, rest);
        },
        Json::Object(members) => {
            assert(whole[0] == '{');
            if members.len() == 0 {
                assert(members =~= seq![]);
                assert(whole[1] == '}');
                assert(whole.drop_first().drop_first() =~= rest);
            } else {
                let inside = text::join(written_members(members), ","@) + seq!['}'] + rest;
                assert(whole.drop_first() =~= inside);
                assert forall|i: int| 0 <= i < members.len() implies reads_back(
                    (#[trigger] members[i]).1,
                ) by {
                    assert(decreases_to!(members => members[i]));
                    assert forall|r: Seq<char>| (r.len() > 0 ==> !is_digit(r[0])) implies #[trigger] read_value(
                        written(members[i].1) + r,
                    ) == Some((members[i].1, r)) by {
                        written_value_reads_back(members[i].1, r);
                    }
                }
                written_members_read_back(members, rest);
                written_members_start_with_a_quote(members);
                assert(whole[1] == inside[0]);
            }
        },
    }
}

proof fn name_reads_back(name: Seq<char>, value: Seq<char>, end: Seq<char>)
    ensures
        ({
            let whole = member(name, value) + end;
            let after = seq![':'] + value + end;
            &&& read_string(whole) == Some((name, after))
            &&& 0 < after.len() <= whole.len()
            &&& end.len() <= whole.len()
            &&& after[0] == ':'
            &&& after.drop_first() == value + end
        }),
{
    let after = seq![':'] + value + end;
    assert(member(name, value) + end =~= json_string(name) + after);
    json_string_reads_back(name, after);
    assert(after.drop_first() =~= value + end);
}

/// The value is read back, whatever follows it that does not go on with a
/// digit.
pub open spec fn reads_back(v: Json) -> bool {
    forall|rest: Seq<char>|
        (rest.len() > 0 ==> !is_digit(rest[0])) ==> #[trigger] read_value(written(v) + rest)
            == Some((v, rest))
}

proof fn last_member_reads_back(m: Member, rest: Seq<char>)
    requires
        reads_back(m.1),
    ensures
        read_members(member(m.0, written(m.1)) + seq!['}'] + rest) == Some((seq![m], rest)),
{
    let end = seq!['}'] + rest;
    assert(member(m.0, written(m.1)) + seq!['}'] + rest =~= member(m.0, written(m.1)) + end);
    name_reads_back(m.0, written(m.1), end);
    assert(read_value(written(m.1) + end) == Some((m.1, end)));
    assert(end.drop_first() =~= rest);
}

proof fn first_member_reads_back(m: Member, inside: Seq<char>)
    requires
        reads_back(m.1),
    ensures
        read_members(member(m.0, written(m.1)) + seq![','] + inside) == match read_members(inside) {
            None => None,
            Some((others, rest)) => Some((seq![m] + others, rest)),
        },
{
    let end = seq![','] + inside;
    assert(member(m.0, written(m.1)) + seq![','] + inside =~= member(m.0, written(m.1)) + end);
    name_reads_back(m.0, written(m.1), end);
    assert(read_value(written(m.1) + end) == Some((m.1, end)));
    assert(end.drop_first() =~= inside);
}

proof fn written_members_read_back(members: Seq<Member>, rest: Seq<char>)
    requires
        members.len() > 0,
        forall|i: int| 0 <= i < members.len() ==> reads_back((#[trigger] members[i]).1),
    ensures
        read_members(text::join(written_members(members), ","@) + seq!['}'] + rest) == Some(
            (members, rest),
        ),
    decreases members.len(),
{
    let texts = written_members(members);
    let whole = text::join(texts, ","@) + seq!['}'] + rest;
    let m = members[0];
    written_members_in_order(members);
    if members.len() == 1 {
        last_member_reads_back(m, rest);
        assert(seq![m] =~= members);
    } else {
        let others = members.drop_first();
        let inside = text::join(written_members(others), ","@) + seq!['}'] + rest;
        assert(whole == member(m.0, written(m.1)) + seq![','] + inside) by {
            reveal_strlit(",");
            written_members_in_order(others);
            assert(texts.drop_first() =~= written_members(others));
            join_from_the_front(texts, ","@);
            assert(","@ =~= seq![',']);
            assert(whole =~= member(m.0, written(m.1)) + seq![','] + inside);
        }
        assert forall|i: int| 0 <= i < others.len() implies reads_back((#[trigger] others[i]).1) by {
            assert(others[i] == members[i + 1]);
        }
        first_member_reads_back(m, inside);
        written_members_read_back(others, rest);
        assert(seq![m] + others =~= members);
    }
}

proof fn written_members_start_with_a_quote(members: Seq<Member>)
    requires
        members.len() > 0,
    ensures
        text::join(written_members(members), ","@).len() > 0,
        text::join(written_members(members), ","@)[0] == '"',
    decreases members.len(),
{
    written_members_in_order(members);
    if members.len() > 1 {
        written_members_start_with_a_quote(members.drop_last());
        assert(written_members(members).drop_last() =~= written_members(members.drop_last()));
    }
}

/// In two lists of members put together, a name that stands in the first is
/// looked up there, and any other in the second.
pub proof fn field_of_both(a: Seq<Member>, b: Seq<Member>, name: Seq<char>)
    ensures
        field(a + b, name) == match field(a, name) {
            Some(v) => Some(v),
            None => field(b, name),
        },
    decreases a.len(),
{
    if a.len() == 0 {
        assert(a + b =~= b);
    } else {
        assert((a + b).drop_first() =~= a.drop_first() + b);
        field_of_both(a.drop_first(), b, name);
    }
}

/// Among members made from pairs without repeated keys, a name is looked up
/// like a key.
pub proof fn field_of_pairs(s: Seq<Pair>, name: Seq<char>)
    requires
        pairs::unique_keys(s),
    ensures
        field(text_members(s), name) == match pairs::last_value(s, name) {
            Some(v) => Some(Json::Text(v)),
            None => None,
        },
    decreases s.len(),
{
    if s.len() > 0 {
        let front = s.drop_last();
        let last = seq![s.last()];
        field_of_pairs(front, name);
        assert(text_members(s) =~= text_members(front) + text_members(last));
        field_of_both(text_members(front), text_members(last), name);
        assert(text_members(last).drop_first() =~= seq![]);
        assert(field(text_members(last).drop_first(), name) is None);
        if s.last().0 == name && pairs::last_value(front, name) is Some {
            pairs::value_is_found(front, name);
            let i = choose|i: int| 0 <= i < front.len() && #[trigger] front[i].0 == name;
            assert(s[i].0 == s[s.len() - 1].0);
        }
    }
}

proof fn escaped_char_has_no_control_characters(c: char, i: int)
    requires
        0 <= i < escape_char(c).len(),
    ensures
        escape_char(c)[i] >= ' ',
{
    if escape_char(c).len() == 6 {
        assert(hex_digit(c as nat / 16) >= ' ');
        assert(hex_digit(c as nat % 16) >= ' ');
        assert(i == 0 || i == 1 || i == 2 || i == 3 || i == 4 || i == 5);
    } else {
        assert(i == 0 || i == 1);
    }
}

/// Nothing in an escaped text is a control character.
pub proof fn escaped_text_has_no_control_characters(s: Seq<char>)
    ensures
        forall|i: int| 0 <= i < escaped(s).len() ==> #[trigger] escaped(s)[i] >= ' ',
    decreases s.len(),
{
    if s.len() > 0 {
        let head = escape_char(s[0]);
        let tail = escaped(s.drop_first());
        escaped_text_has_no_control_characters(s.drop_first());
        assert forall|i: int| 0 <= i < escaped(s).len() implies #[trigger] escaped(s)[i] >= ' ' by {
            if i < head.len() {
                escaped_char_has_no_control_characters(s[0], i);
                assert(escaped(s)[i] == head[i]);
            } else {
                assert(escaped(s)[i] == tail[i - head.len()]);
            }
        }
    }
}

// ---------------------------------------------------------------------------
// Freedom from control characters
// ---------------------------------------------------------------------------

/// No control character stands in the text.
pub open spec fn printable(s: Seq<char>) -> bool {
    forall|i: int| 0 <= i < s.len() ==> #[trigger] s[i] >= ' '
}

/// No control character stands in any of the texts.
pub open spec fn all_printable(parts: Seq<Seq<char>>) -> bool {
    forall|i: int| 0 <= i < parts.len() ==> printable(#[trigger] parts[i])
}

/// No control character stands in a written value, whatever texts it holds.
pub proof fn written_value_is_printable(v: Json)
    ensures
        printable(written(v)),
    decreases v,
{
    match v {
        Json::Text(s) => {
            escaped_text_has_no_control_characters(s);
        },
        Json::Number(n) => {
            decimal_is_printable(n);
        },
        Json::Object(members) => {
            written_members_are_printable(members);
            joined_is_printable(written_members(members));
        },
    }
}

proof fn written_members_are_printable(members: Seq<Member>)
    ensures
        all_printable(written_members(members)),
    decreases members,
{
    if members.len() > 0 {
        let last = members.last();
        assert(decreases_to!(members => members[members.len() - 1]));
        written_members_are_printable(members.drop_last());
        written_value_is_printable(last.1);
        escaped_text_has_no_control_characters(last.0);
    }
}

proof fn decimal_is_printable(n: nat)
    ensures
        printable(text::decimal(n)),
    decreases n,
{
    if n >= 10 {
        decimal_is_printable(n / 10);
    }
}

proof fn joined_is_printable(parts: Seq<Seq<char>>)
    requires
        all_printable(parts),
    ensures
        printable(text::join(parts, ","@)),
    decreases parts.len(),
{
    reveal_strlit(",");
    if parts.len() > 1 {
        assert(all_printable(parts.drop_last()));
        joined_is_printable(parts.drop_last());
        assert(printable(parts.last()));
    }
}

// ---------------------------------------------------------------------------
// Looking values up
// ---------------------------------------------------------------------------

/// All the values that stand under a name, in order.
pub open spec fn values(members: Seq<Member>, name: Seq<char>) -> Seq<Json>
    decreases members.len(),
{
    if members.len() == 0 {
        seq![]
    } else {
        let before = values(members.drop_last(), name);
        if members.last().0 == name {
            before.push(members.last().1)
        } else {
            before
        }
    }
}

/// All the values that stand under a name in a document: none unless the whole
/// document is one object.
pub open spec fn values_in(document: Seq<char>, name: Seq<char>) -> Seq<Json> {
    match read_value(document) {
        Some((Json::Object(members), rest)) => if rest.len() == 0 {
            values(members, name)
        } else {
            seq![]
        },
        _ => seq![],
    }
}

/// All the values that stand under a name inside a single object.
pub open spec fn values_inside(outer: Seq<Json>, name: Seq<char>) -> Seq<Json> {
    if outer.len() == 1 {
        match outer[0] {
            Json::Object(members) => values(members, name),
            _ => seq![],
        }
    } else {
        seq![]
    }
}

/// The one value, or none.
pub open spec fn at_most_one(value: Option<Json>) -> Seq<Json> {
    match value {
        None => seq![],
        Some(value) => seq![value],
    }
}

/// In two lists of members put together, the values of the second stand behind
/// those of the first.
pub proof fn values_of_both(a: Seq<Member>, b: Seq<Member>, name: Seq<char>)
    ensures
        values(a + b, name) == values(a, name) + values(b, name),
    decreases b.len(),
{
    if b.len() == 0 {
        assert(a + b =~= a);
        assert(values(a + b, name) =~= values(a, name) + values(b, name));
    } else {
        values_of_both(a, b.drop_last(), name);
        assert((a + b).drop_last() =~= a + b.drop_last());
        assert((a + b).last() == b.last());
        assert(values(a + b, name) =~= values(a, name) + values(b, name));
    }
}

/// A name that stands in at most one of two lists, and there once, stands once
/// in both together.
pub proof fn one_value_of_both(a: Seq<Member>, b: Seq<Member>, name: Seq<char>)
    requires
        values(a, name) == at_most_one(field(a, name)),
        values(b, name) == at_most_one(field(b, name)),
        field(a, name) is None || field(b, name) is None,
    ensures
        values(a + b, name) == at_most_one(field(a + b, name)),
{
    values_of_both(a, b, name);
    field_of_both(a, b, name);
    assert(values(a + b, name) =~= at_most_one(field(a + b, name)));
}

/// Of at most one member there is at most one value.
pub proof fn one_value_of_one(members: Seq<Member>, name: Seq<char>)
    requires
        members.len() <= 1,
    ensures
        values(members, name) == at_most_one(field(members, name)),
{
    if members.len() == 1 {
        assert(members.drop_last() =~= seq![]);
        assert(members.drop_first() =~= seq![]);
        assert(values(seq![], name) =~= seq![]);
        assert(field(seq![], name) is None);
        assert(members.last() == members[0]);
        assert(values(members, name) =~= at_most_one(field(members, name)));
    } else {
        assert(values(members, name) =~= at_most_one(field(members, name)));
    }
}

/// Members made from pairs without repeated keys have one value for each key.
pub proof fn one_value_of_pairs(s: Seq<Pair>, name: Seq<char>)
    requires
        pairs::unique_keys(s),
    ensures
        values(text_members(s), name) == match pairs::last_value(s, name) {
            None => Seq::<Json>::empty(),
            Some(value) => seq![Json::Text(value)],
        },
    decreases s.len(),
{
    if s.len() > 0 {
        let front = s.drop_last();
        one_value_of_pairs(front, name);
        assert(text_members(s).drop_last() =~= text_members(front));
        if s.last().0 == name && pairs::last_value(front, name) is Some {
            pairs::value_is_found(front, name);
            let i = choose|i: int| 0 <= i < front.len() && #[trigger] front[i].0 == name;
            assert(s[i].0 == s[s.len() - 1].0);
        }
        assert(s.last().0 == name ==> values(text_members(s), name) =~= seq![
            Json::Text(s.last().1),
        ]);
    }
}

/// A character that needs no escape stands for itself in a JSON string.
pub proof fn ordinary_characters_stand_for_themselves(c: char)
    requires
        c >= ' ',
        c != '"',
        c != '\\',
    ensures
        escape_char(c).len() == 1,
        escape_char(c)[0] == c,
{
}

} // verus!
