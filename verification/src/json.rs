//! JSON texts: strings, objects, and the members of an object.

use crate::text::{
    held_in_a_piece, holds, holds_behind, holds_end, holds_on, holds_through, join, joined,
    joined_grows, joined_holds_each, pieces, pieces_append, pieces_of_one, pieces_shape, split,
    text_of, texts,
};
use vstd::prelude::*;
use vstd::string::*;

verus! {

/// A hexadecimal digit.
pub open spec fn hex_digit(n: int) -> char {
    if n < 10 {
        ('0' as int + n) as char
    } else {
        ('a' as int + (n - 10)) as char
    }
}

/// How a character is written within a JSON string: quotation mark, backslash
/// and control characters are escaped, all others stand for themselves.
pub open spec fn escaped_char(c: char) -> Seq<char> {
    if c == '"' {
        seq!['\\', '"']
    } else if c == '\\' {
        seq!['\\', '\\']
    } else if c == '\u{8}' {
        seq!['\\', 'b']
    } else if c == '\t' {
        seq!['\\', 't']
    } else if c == '\n' {
        seq!['\\', 'n']
    } else if c == '\u{c}' {
        seq!['\\', 'f']
    } else if c == '\r' {
        seq!['\\', 'r']
    } else if (c as int) < 0x20 {
        seq!['\\', 'u', '0', '0', hex_digit((c as int) / 16), hex_digit((c as int) % 16)]
    } else {
        seq![c]
    }
}

/// How a text is written within a JSON string.
pub open spec fn escaped(s: Seq<char>) -> Seq<char>
    decreases s.len(),
{
    if s.len() == 0 {
        Seq::empty()
    } else {
        escaped(s.drop_last()) + escaped_char(s.last())
    }
}

/// A text as a JSON string.
pub open spec fn quoted(s: Seq<char>) -> Seq<char> {
    seq!['"'] + escaped(s) + seq!['"']
}

/// A text as a JSON string: `serde_json::to_string` of a `str`, which puts it
/// between quotation marks and escapes quotation marks, backslashes and control
/// characters.
#[verifier::external_body]
pub(crate) fn quote(s: &str) -> (r: String)
    ensures
        r@ == quoted(s@),
{
    serde_json::to_string(s).unwrap()
}

/// One member of an object: its name, and its value as JSON.
#[derive(Debug)]
pub struct Pair {
    pub name: String,
    pub value: String,
}

/// A member of an object under construction.
pub fn pair(name: &str, value: String) -> (r: Pair)
    ensures
        r.name@ == name@,
        r.value == value,
{
    Pair { name: name.to_owned(), value }
}

/// The name and the value of each pair.
pub open spec fn pairs_of(pairs: Seq<Pair>) -> Seq<(Seq<char>, Seq<char>)> {
    pairs.map_values(|p: Pair| (p.name@, p.value@))
}

/// Each pair on its own, with `indent` before it and `colon` in it.
pub open spec fn entries(
    pairs: Seq<(Seq<char>, Seq<char>)>,
    indent: Seq<char>,
    colon: Seq<char>,
) -> Seq<Seq<char>> {
    pairs.map_values(|p: (Seq<char>, Seq<char>)| indent + quoted(p.0) + colon + p.1)
}

/// An object on one line, its members in the given order.
pub open spec fn object_text(pairs: Seq<(Seq<char>, Seq<char>)>) -> Seq<char> {
    "{"@ + joined(entries(pairs, Seq::empty(), ":"@), ","@) + "}"@
}

/// An object with one member on each line, in the given order.
pub open spec fn object_lines(pairs: Seq<(Seq<char>, Seq<char>)>) -> Seq<char> {
    if pairs.len() == 0 {
        "{}"@
    } else {
        "{\n"@ + joined(entries(pairs, "  "@, ": "@), ",\n"@) + "\n}"@
    }
}

/// Each pair on its own.
fn make_entries(pairs: &Vec<Pair>, indent: &str, colon: &str) -> (r: Vec<String>)
    ensures
        texts(r@) == entries(pairs_of(pairs@), indent@, colon@),
{
    let mut out: Vec<String> = Vec::new();
    let mut i: usize = 0;
    while i < pairs.len()
        invariant
            i <= pairs.len(),
            out.len() == i,
            forall|j: int|
                0 <= j < i ==> #[trigger] out@[j]@ == indent@ + quoted(pairs@[j].name@) + colon@
                    + pairs@[j].value@,
        decreases pairs.len() - i,
    {
        let mut entry = indent.to_owned();
        entry.append(quote(pairs[i].name.as_str()).as_str());
        entry.append(colon);
        entry.append(pairs[i].value.as_str());
        out.push(entry);
        i += 1;
    }
    assert(texts(out@) =~= entries(pairs_of(pairs@), indent@, colon@));
    out
}

/// An object on one line.
pub fn write_object(pairs: &Vec<Pair>) -> (r: String)
    ensures
        r@ == object_text(pairs_of(pairs@)),
{
    let parts = make_entries(pairs, "", ":");
    proof {
        reveal_strlit("");
        assert(""@ =~= Seq::<char>::empty());
    }
    let mut out = "{".to_owned();
    out.append(join(&parts, ",").as_str());
    out.append("}");
    out
}

/// An object with one member on each line.
pub fn write_object_lines(pairs: &Vec<Pair>) -> (r: String)
    ensures
        r@ == object_lines(pairs_of(pairs@)),
{
    if pairs.len() == 0 {
        return "{}".to_owned();
    }
    let parts = make_entries(pairs, "  ", ": ");
    let mut out = "{\n".to_owned();
    out.append(join(&parts, ",\n").as_str());
    out.append("\n}");
    out
}

/// An indented JSON text, one level further in: what it is as the value of a
/// member or as an item.
pub open spec fn indented(json: Seq<char>) -> Seq<char> {
    joined(pieces(json, '\n'), "\n  "@)
}

/// The pairs with their values one level further in.
pub open spec fn nested(pairs: Seq<(Seq<char>, Seq<char>)>) -> Seq<(Seq<char>, Seq<char>)> {
    pairs.map_values(|p: (Seq<char>, Seq<char>)| (p.0, indented(p.1)))
}

/// An array with one item after another, each of them indented JSON.
pub open spec fn array_lines(items: Seq<Seq<char>>) -> Seq<char> {
    if items.len() == 0 {
        "[]"@
    } else {
        "[\n"@ + joined(items.map_values(|item: Seq<char>| "  "@ + indented(item)), ",\n"@)
            + "\n]"@
    }
}

/// An indented JSON text, one level further in.
pub fn indent(json: &str) -> (r: String)
    ensures
        r@ == indented(json@),
{
    join(&split(json, '\n'), "\n  ")
}

/// The pairs with their values one level further in.
pub fn nest(pairs: &Vec<Pair>) -> (r: Vec<Pair>)
    ensures
        pairs_of(r@) == nested(pairs_of(pairs@)),
{
    let mut out: Vec<Pair> = Vec::new();
    let mut i: usize = 0;
    while i < pairs.len()
        invariant
            i <= pairs.len(),
            out.len() == i,
            forall|j: int|
                0 <= j < i ==> (#[trigger] out@[j]).name@ == pairs@[j].name@ && out@[j].value@
                    == indented(pairs@[j].value@),
        decreases pairs.len() - i,
    {
        out.push(pair(pairs[i].name.as_str(), indent(pairs[i].value.as_str())));
        i += 1;
    }
    assert(pairs_of(out@) =~= nested(pairs_of(pairs@)));
    out
}

/// An array with one item after another.
pub fn write_array_lines(items: &Vec<String>) -> (r: String)
    ensures
        r@ == array_lines(texts(items@)),
{
    if items.len() == 0 {
        return "[]".to_owned();
    }
    let mut parts: Vec<String> = Vec::new();
    let mut i: usize = 0;
    while i < items.len()
        invariant
            i <= items.len(),
            parts.len() == i,
            forall|j: int|
                0 <= j < i ==> #[trigger] parts@[j]@ == "  "@ + indented(items@[j]@),
        decreases items.len() - i,
    {
        let mut part = "  ".to_owned();
        part.append(indent(items[i].as_str()).as_str());
        parts.push(part);
        i += 1;
    }
    assert(texts(parts@) =~= texts(items@).map_values(|item: Seq<char>| "  "@ + indented(item)));
    let mut out = "[\n".to_owned();
    out.append(join(&parts, ",\n").as_str());
    out.append("\n]");
    out
}

/// One member of a JSON text that was read.
#[derive(Debug)]
pub struct Member {
    pub name: String,
    /// The value, as JSON on one line.
    pub json: String,
    /// What the value holds, where it is a string.
    pub string: Option<String>,
}

/// What a [`Member`] holds.
pub struct MemberView {
    pub name: Seq<char>,
    pub json: Seq<char>,
    pub string: Option<Seq<char>>,
}

impl View for Member {
    type V = MemberView;

    open spec fn view(&self) -> MemberView {
        MemberView { name: self.name@, json: self.json@, string: text_of(self.string) }
    }
}

/// A JSON text that was read: the whole of it, and its members where it is an
/// object.
#[derive(Debug)]
pub struct Frame {
    /// The whole, as JSON on one line.
    pub json: String,
    /// The members of an object; none where it is no object.
    pub members: Vec<Member>,
}

/// What a [`Frame`] holds.
pub struct FrameView {
    pub json: Seq<char>,
    pub members: Seq<MemberView>,
}

impl View for Frame {
    type V = FrameView;

    open spec fn view(&self) -> FrameView {
        FrameView { json: self.json@, members: self.members@.map_values(|m: Member| m@) }
    }
}

/// Whether `s` holds no line break.
pub open spec fn one_line(s: Seq<char>) -> bool {
    !s.contains('\n')
}

/// Whether each JSON text in a frame stands on one line.
pub open spec fn compact(frame: FrameView) -> bool {
    one_line(frame.json) && forall|i: int|
        0 <= i < frame.members.len() ==> one_line(#[trigger] frame.members[i].json)
}

/// What a text is as JSON, or what is wrong with it.
pub uninterp spec fn json_frame(s: Seq<char>) -> Result<FrameView, Seq<char>>;

/// Reads a JSON text: `serde_json::from_str` into a `serde_json::Value`, of
/// which the members of an object are kept, each as `Value::to_string` writes it
/// and, where `Value::as_str` gives one, as a string. `Value::to_string` writes
/// without line breaks. What is accepted, and the words for the rest, are named
/// and not described here.
#[verifier::external_body]
pub(crate) fn read_frame(s: &str) -> (r: Result<Frame, String>)
    ensures
        match r {
            Ok(frame) => json_frame(s@) == Ok::<FrameView, Seq<char>>(frame@) && compact(frame@),
            Err(e) => json_frame(s@) == Err::<FrameView, Seq<char>>(e@),
        },
{
    match serde_json::from_str::<serde_json::Value>(s) {
        Ok(v) => Ok(Frame {
            json: v.to_string(),
            members: v.as_object().into_iter().flatten().map(|(name, m)| Member {
                name: name.clone(),
                json: m.to_string(),
                string: m.as_str().map(str::to_owned),
            }).collect(),
        }),
        Err(e) => Err(e.to_string()),
    }
}

/// The first member of that name.
pub open spec fn member_of(members: Seq<MemberView>, name: Seq<char>) -> Option<MemberView>
    decreases members.len(),
{
    if members.len() == 0 {
        None
    } else if members[0].name == name {
        Some(members[0])
    } else {
        member_of(members.drop_first(), name)
    }
}

/// A member that is found is one of the members.
pub proof fn member_is_there(members: Seq<MemberView>, name: Seq<char>)
    ensures
        member_of(members, name) matches Some(m) ==> m.name == name && members.contains(m),
    decreases members.len(),
{
    if members.len() > 0 && members[0].name != name {
        let rest = members.drop_first();
        member_is_there(rest, name);
        if member_of(rest, name) is Some {
            let i = choose|i: int| 0 <= i < rest.len() && rest[i] == member_of(rest, name)->0;
            assert(members[i + 1] == rest[i]);
        }
    }
}

impl Frame {
    /// The member of that name.
    pub fn member(&self, name: &str) -> (r: Option<&Member>)
        ensures
            match r {
                Some(m) => member_of(self@.members, name@) == Some(m@),
                None => member_of(self@.members, name@) is None,
            },
    {
        let wanted = name.to_owned();
        let mut i: usize = 0;
        assert(self@.members.skip(0) =~= self@.members);
        while i < self.members.len()
            invariant
                wanted@ == name@,
                i <= self.members.len(),
                member_of(self@.members.skip(i as int), name@) == member_of(
                    self@.members,
                    name@,
                ),
            decreases self.members.len() - i,
        {
            assert(self@.members.skip(i as int)[0] == self.members@[i as int]@);
            if self.members[i].name == wanted {
                return Some(&self.members[i]);
            }
            assert(self@.members.skip(i as int).drop_first() =~= self@.members.skip(i + 1));
            i += 1;
        }
        None
    }
}

/// An escaped text is the escaped beginning and the escaped rest.
pub proof fn escaped_append(a: Seq<char>, b: Seq<char>)
    ensures
        escaped(a + b) == escaped(a) + escaped(b),
    decreases b.len(),
{
    if b.len() == 0 {
        assert(a + b =~= a);
        assert(escaped(a) + escaped(b) =~= escaped(a));
    } else {
        escaped_append(a, b.drop_last());
        assert((a + b).drop_last() =~= a + b.drop_last());
        assert(escaped(a + b) =~= escaped(a) + escaped(b));
    }
}

/// No escaped character is a line break, and none is left out.
proof fn escapes_are_visible(c: char)
    ensures
        escaped_char(c).len() > 0,
        one_line(escaped_char(c)),
{
    if (c as int) < 0x20 {
        let high = (c as int) / 16;
        let low = (c as int) % 16;
        assert(0 <= high < 2 && 0 <= low < 16);
        assert(hex_digit(high) != '\n' && hex_digit(low) != '\n');
    }
    assert forall|i: int| 0 <= i < escaped_char(c).len() implies escaped_char(c)[i] != '\n' by {}
}

/// A text as a JSON string stands on one line, whatever it holds.
pub proof fn quoted_is_one_line(s: Seq<char>)
    ensures
        one_line(escaped(s)),
        one_line(quoted(s)),
    decreases s.len(),
{
    if s.len() > 0 {
        quoted_is_one_line(s.drop_last());
        escapes_are_visible(s.last());
        one_line_append(escaped(s.drop_last()), escaped_char(s.last()));
    }
    assert forall|i: int| 0 <= i < quoted(s).len() implies quoted(s)[i] != '\n' by {
        if 0 < i < quoted(s).len() - 1 {
            assert(quoted(s)[i] == escaped(s)[i - 1]);
        }
    }
}

/// Two characters are escaped in the same way only where they are the same, and
/// neither escape begins the other.
proof fn escapes_differ(c: char, d: char, more: Seq<char>, rest: Seq<char>)
    requires
        escaped_char(c) + more == escaped_char(d) + rest,
    ensures
        c == d,
        more == rest,
{
    let a = escaped_char(c) + more;
    let b = escaped_char(d) + rest;
    assert(a[0] == escaped_char(c)[0] && b[0] == escaped_char(d)[0]);
    if a[0] == '\\' {
        assert(a[1] == escaped_char(c)[1] && b[1] == escaped_char(d)[1]);
        if a[1] == 'u' {
            assert(a[4] == escaped_char(c)[4] && b[4] == escaped_char(d)[4]);
            assert(a[5] == escaped_char(c)[5] && b[5] == escaped_char(d)[5]);
        }
    }
    assert(c == d);
    assert(more =~= a.skip(escaped_char(c).len() as int));
    assert(rest =~= b.skip(escaped_char(d).len() as int));
}

/// Nothing is lost when a text is written as a JSON string: texts that differ
/// are written differently.
pub proof fn quoting_loses_nothing(s: Seq<char>, t: Seq<char>)
    requires
        quoted(s) == quoted(t),
    ensures
        s == t,
{
    assert(escaped(s) =~= quoted(s).subrange(1, quoted(s).len() - 1));
    assert(escaped(t) =~= quoted(t).subrange(1, quoted(t).len() - 1));
    escaping_loses_nothing(s, t);
}

/// Texts that differ are escaped differently.
proof fn escaping_loses_nothing(s: Seq<char>, t: Seq<char>)
    requires
        escaped(s) == escaped(t),
    ensures
        s == t,
    decreases s.len(),
{
    reveal_with_fuel(escaped, 2);
    if s.len() == 0 || t.len() == 0 {
        if s.len() > 0 {
            escapes_are_visible(s.last());
            assert(escaped(s).len() == escaped(s.drop_last()).len() + escaped_char(s.last()).len());
            assert(escaped(t).len() == 0);
        }
        if t.len() > 0 {
            escapes_are_visible(t.last());
            assert(escaped(t).len() == escaped(t.drop_last()).len() + escaped_char(t.last()).len());
            assert(escaped(s).len() == 0);
        }
        assert(s.len() == 0 && t.len() == 0);
        assert(s =~= t);
    } else {
        let head = s.take(1);
        let other = t.take(1);
        assert(s =~= head + s.skip(1));
        assert(t =~= other + t.skip(1));
        escaped_append(head, s.skip(1));
        escaped_append(other, t.skip(1));
        assert(escaped(head) =~= escaped_char(s[0]));
        assert(escaped(other) =~= escaped_char(t[0]));
        escapes_differ(s[0], t[0], escaped(s.skip(1)), escaped(t.skip(1)));
        escaping_loses_nothing(s.skip(1), t.skip(1));
        assert(head =~= other);
    }
}

/// Two texts on one line each make one line together.
pub proof fn one_line_append(a: Seq<char>, b: Seq<char>)
    requires
        one_line(a),
        one_line(b),
    ensures
        one_line(a + b),
{
    assert forall|i: int| 0 <= i < (a + b).len() implies (a + b)[i] != '\n' by {
        if i < a.len() {
            assert((a + b)[i] == a[i]);
        } else {
            assert((a + b)[i] == b[i - a.len()]);
        }
    }
}

/// Texts on one line each, joined by one, make one line together.
proof fn one_line_joined(items: Seq<Seq<char>>, sep: Seq<char>)
    requires
        forall|i: int| 0 <= i < items.len() ==> one_line(#[trigger] items[i]),
        one_line(sep),
    ensures
        one_line(joined(items, sep)),
    decreases items.len(),
{
    if items.len() > 1 {
        one_line_joined(items.drop_last(), sep);
        one_line_append(joined(items.drop_last(), sep), sep);
        assert(one_line(items[items.len() - 1]));
        one_line_append(joined(items.drop_last(), sep) + sep, items.last());
    }
}

/// An object whose values stand on one line each stands on one line.
pub proof fn object_is_one_line(pairs: Seq<(Seq<char>, Seq<char>)>)
    requires
        forall|i: int| 0 <= i < pairs.len() ==> one_line(#[trigger] pairs[i].1),
    ensures
        one_line(object_text(pairs)),
{
    reveal_strlit(":");
    reveal_strlit(",");
    reveal_strlit("{");
    reveal_strlit("}");
    let items = entries(pairs, Seq::empty(), ":"@);
    assert forall|i: int| 0 <= i < items.len() implies one_line(#[trigger] items[i]) by {
        quoted_is_one_line(pairs[i].0);
        one_line_append(Seq::empty(), quoted(pairs[i].0));
        one_line_append(Seq::empty() + quoted(pairs[i].0), ":"@);
        one_line_append(Seq::empty() + quoted(pairs[i].0) + ":"@, pairs[i].1);
    }
    one_line_joined(items, ","@);
    one_line_append("{"@, joined(items, ","@));
    one_line_append("{"@ + joined(items, ","@), "}"@);
}

// ── Laws of the writers ──────────────────────────────────────────────────

/// Whether `s` can stand in a JSON string as it is.
pub open spec fn is_plain(s: Seq<char>) -> bool {
    forall|i: int| 0 <= i < s.len() ==> #[trigger] s[i] != '"' && s[i] != '\\' && s[i] as int >= 0x20
}

/// A text that needs no escapes is written between quotation marks as it is.
pub proof fn plain_is_kept(s: Seq<char>)
    requires
        is_plain(s),
    ensures
        escaped(s) == s,
        quoted(s) == seq!['"'] + s + seq!['"'],
    decreases s.len(),
{
    if s.len() > 0 {
        let front = s.drop_last();
        assert forall|i: int| 0 <= i < front.len() implies #[trigger] front[i] != '"' && front[i]
            != '\\' && front[i] as int >= 0x20 by {
            assert(front[i] == s[i]);
        }
        plain_is_kept(front);
        assert(s[s.len() - 1] == s.last());
        assert(escaped(s) =~= s);
    } else {
        assert(s =~= Seq::empty());
    }
}

proof fn regroup(
    head: Seq<char>,
    before: Seq<char>,
    sep: Seq<char>,
    lead: Seq<char>,
    name: Seq<char>,
    colon: Seq<char>,
    value: Seq<char>,
    end: Seq<char>,
)
    ensures
        head + (before + sep + (lead + name + colon + value)) + end == (head + before) + (sep + lead)
            + name + colon + value + end,
        head + (lead + name + colon + value) + end == (head + lead) + name + colon + value + end,
        (head + before + end).take((head + before + end).len() - end.len()) == head + before,
{
    assert(head + (before + sep + (lead + name + colon + value)) + end =~= (head + before) + (sep
        + lead) + name + colon + value + end);
    assert(head + (lead + name + colon + value) + end =~= (head + lead) + name + colon + value
        + end);
    assert((head + before + end).take((head + before + end).len() - end.len()) =~= head + before);
}

proof fn punctuation()
    ensures
        "{"@ == seq!['{'],
        "}"@ == seq!['}'],
        ","@ == seq![','],
        ":"@ == seq![':'],
        ": "@ == seq![':', ' '],
        "{}"@ == seq!['{', '}'],
        "{\n"@ == seq!['{', '\n'],
        "\n}"@ == seq!['\n', '}'],
        "{\n"@ + "  "@ == seq!['{', '\n', ' ', ' '],
        ",\n"@ + "  "@ == seq![',', '\n', ' ', ' '],
        "[]"@ == seq!['[', ']'],
        "\n]"@ == seq!['\n', ']'],
        "[\n"@ + "  "@ == seq!['[', '\n', ' ', ' '],
{
    reveal_strlit("{");
    reveal_strlit("}");
    reveal_strlit(",");
    reveal_strlit(":");
    reveal_strlit(": ");
    reveal_strlit("{}");
    reveal_strlit("{\n");
    reveal_strlit("\n}");
    reveal_strlit("  ");
    reveal_strlit(",\n");
    reveal_strlit("[]");
    reveal_strlit("[\n");
    reveal_strlit("\n]");
    assert("{"@ =~= seq!['{']);
    assert("}"@ =~= seq!['}']);
    assert(","@ =~= seq![',']);
    assert(":"@ =~= seq![':']);
    assert(": "@ =~= seq![':', ' ']);
    assert("{}"@ =~= seq!['{', '}']);
    assert("{\n"@ =~= seq!['{', '\n']);
    assert("\n}"@ =~= seq!['\n', '}']);
    assert("{\n"@ + "  "@ =~= seq!['{', '\n', ' ', ' ']);
    assert(",\n"@ + "  "@ =~= seq![',', '\n', ' ', ' ']);
    assert("[]"@ =~= seq!['[', ']']);
    assert("\n]"@ =~= seq!['\n', ']']);
    assert("[\n"@ + "  "@ =~= seq!['[', '\n', ' ', ' ']);
}

/// An object on one line grows by a comma and the new member.
pub proof fn object_grows(pairs: Seq<(Seq<char>, Seq<char>)>, name: Seq<char>, value: Seq<char>)
    ensures
        object_text(Seq::empty()) == seq!['{', '}'],
        object_text(seq![(name, value)]) == seq!['{'] + quoted(name) + seq![':'] + value + seq!['}'],
        pairs.len() > 0 ==> object_text(pairs.push((name, value))) == object_text(pairs).drop_last()
            + seq![','] + quoted(name) + seq![':'] + value + seq!['}'],
{
    punctuation();
    let none = Seq::<char>::empty();
    assert(object_text(Seq::empty()) =~= seq!['{', '}']);
    let entry = none + quoted(name) + ":"@ + value;
    let before = entries(pairs, none, ":"@);
    assert(entries(seq![(name, value)], none, ":"@) =~= seq![entry]);
    assert(entries(pairs.push((name, value)), none, ":"@) =~= before.push(entry));
    joined_grows(before, entry, ","@);
    regroup("{"@, joined(before, ","@), ","@, none, quoted(name), ":"@, value, "}"@);
    assert("{"@ + none =~= "{"@);
    assert(","@ + none =~= ","@);
    assert(object_text(pairs).drop_last() == object_text(pairs).take(object_text(pairs).len() - 1));
}

/// An object in lines grows by a line with the new member.
pub proof fn object_lines_grow(
    pairs: Seq<(Seq<char>, Seq<char>)>,
    name: Seq<char>,
    value: Seq<char>,
)
    ensures
        object_lines(Seq::empty()) == seq!['{', '}'],
        object_lines(seq![(name, value)]) == seq!['{', '\n', ' ', ' '] + quoted(name) + seq![
            ':',
            ' ',
        ] + value + seq!['\n', '}'],
        pairs.len() > 0 ==> object_lines(pairs.push((name, value))) == object_lines(pairs).take(
            object_lines(pairs).len() - 2,
        ) + seq![',', '\n', ' ', ' '] + quoted(name) + seq![':', ' '] + value + seq!['\n', '}'],
{
    punctuation();
    let entry = "  "@ + quoted(name) + ": "@ + value;
    let before = entries(pairs, "  "@, ": "@);
    assert(entries(seq![(name, value)], "  "@, ": "@) =~= seq![entry]);
    assert(entries(pairs.push((name, value)), "  "@, ": "@) =~= before.push(entry));
    joined_grows(before, entry, ",\n"@);
    regroup(
        "{\n"@,
        joined(before, ",\n"@),
        ",\n"@,
        "  "@,
        quoted(name),
        ": "@,
        value,
        "\n}"@,
    );
}

/// An object holds each of its members, name and value, however it is written.
pub proof fn objects_hold_each_member(pairs: Seq<(Seq<char>, Seq<char>)>, i: int)
    requires
        0 <= i < pairs.len(),
    ensures
        holds(object_text(pairs), quoted(pairs[i].0) + seq![':'] + pairs[i].1),
        holds(object_lines(pairs), quoted(pairs[i].0) + seq![':', ' '] + pairs[i].1),
{
    reveal_strlit(":");
    reveal_strlit(": ");
    let (name, value) = pairs[i];
    let tight = entries(pairs, Seq::empty(), ":"@);
    assert(tight[i] =~= quoted(name) + seq![':'] + value);
    joined_holds_each(tight, ","@, i);
    holds_behind("{"@, joined(tight, ","@), tight[i]);
    holds_on("{"@ + joined(tight, ","@), "}"@, tight[i]);
    let loose = entries(pairs, "  "@, ": "@);
    let part = quoted(name) + seq![':', ' '] + value;
    assert(loose[i] =~= "  "@ + part);
    holds_end("  "@, part);
    joined_holds_each(loose, ",\n"@, i);
    holds_behind("{\n"@, joined(loose, ",\n"@), loose[i]);
    holds_on("{\n"@ + joined(loose, ",\n"@), "\n}"@, loose[i]);
    holds_through(object_lines(pairs), loose[i], part);
}

/// One level further in, a text that is one line stays as it is, and each
/// further line gets two spaces before it.
pub proof fn indented_grows(a: Seq<char>, b: Seq<char>)
    requires
        one_line(b),
    ensures
        indented(b) == b,
        indented(a.push('\n') + b) == indented(a) + seq!['\n', ' ', ' '] + b,
{
    reveal_strlit("\n  ");
    pieces_of_one(b, '\n');
    joined_grows(Seq::empty(), b, "\n  "@);
    pieces_append(a, '\n', b);
    pieces_shape(a, '\n');
    joined_grows(pieces(a, '\n'), b, "\n  "@);
    assert(indented(a.push('\n') + b) =~= indented(a) + seq!['\n', ' ', ' '] + b);
}

/// What stands on one line still stands there one level further in.
pub proof fn indented_keeps_lines(json: Seq<char>, part: Seq<char>)
    requires
        holds(json, part),
        one_line(part),
    ensures
        holds(indented(json), part),
{
    held_in_a_piece(json, '\n', part);
    let lines = pieces(json, '\n');
    let k = choose|k: int| 0 <= k < lines.len() && holds(#[trigger] lines[k], part);
    joined_holds_each(lines, "\n  "@, k);
    holds_through(indented(json), lines[k], part);
}

/// An array in lines grows by the new item, one level further in.
pub proof fn array_lines_grow(items: Seq<Seq<char>>, item: Seq<char>)
    ensures
        array_lines(Seq::empty()) == seq!['[', ']'],
        array_lines(seq![item]) == seq!['[', '\n', ' ', ' '] + indented(item) + seq!['\n', ']'],
        items.len() > 0 ==> array_lines(items.push(item)) == array_lines(items).take(
            array_lines(items).len() - 2,
        ) + seq![',', '\n', ' ', ' '] + indented(item) + seq!['\n', ']'],
{
    punctuation();
    let none = Seq::<char>::empty();
    let f = |item: Seq<char>| "  "@ + indented(item);
    let before = items.map_values(f);
    assert(seq![item].map_values(f) =~= seq![f(item)]);
    assert(items.push(item).map_values(f) =~= before.push(f(item)));
    joined_grows(before, f(item), ",\n"@);
    regroup("[\n"@, joined(before, ",\n"@), ",\n"@, "  "@, indented(item), none, none, "\n]"@);
    assert forall|s: Seq<char>| #[trigger] (s + none) == s by {
        assert(s + none =~= s);
    }
}

/// An array holds each of its items, one level further in.
pub proof fn array_holds_each_item(items: Seq<Seq<char>>, i: int)
    requires
        0 <= i < items.len(),
    ensures
        holds(array_lines(items), indented(items[i])),
{
    let f = |item: Seq<char>| "  "@ + indented(item);
    let lines = items.map_values(f);
    joined_holds_each(lines, ",\n"@, i);
    holds_end("  "@, indented(items[i]));
    holds_behind("[\n"@, joined(lines, ",\n"@), lines[i]);
    holds_on("[\n"@ + joined(lines, ",\n"@), "\n]"@, lines[i]);
    holds_through(array_lines(items), lines[i], indented(items[i]));
}

/// A member is found exactly where one has the name, and it is the first that
/// has.
pub proof fn first_member_is_found(members: Seq<MemberView>, name: Seq<char>)
    ensures
        member_of(members, name) is None <==> forall|i: int|
            0 <= i < members.len() ==> (#[trigger] members[i]).name != name,
        member_of(members, name) matches Some(m) ==> exists|i: int|
            0 <= i < members.len() && #[trigger] members[i] == m && m.name == name && forall|j: int|
                0 <= j < i ==> (#[trigger] members[j]).name != name,
    decreases members.len(),
{
    if members.len() > 0 && members[0].name != name {
        let rest = members.drop_first();
        first_member_is_found(rest, name);
        if let Some(m) = member_of(rest, name) {
            let k = choose|i: int|
                0 <= i < rest.len() && #[trigger] rest[i] == m && m.name == name && forall|j: int|
                    0 <= j < i ==> (#[trigger] rest[j]).name != name;
            assert(members[k + 1] == m);
            assert forall|j: int| 0 <= j < k + 1 implies (#[trigger] members[j]).name != name by {
                if j > 0 {
                    assert(rest[j - 1] == members[j]);
                }
            }
        } else {
            assert forall|i: int| 0 <= i < members.len() implies (#[trigger] members[i]).name
                != name by {
                if i > 0 {
                    assert(rest[i - 1] == members[i]);
                }
            }
        }
    } else if members.len() > 0 {
        assert(members[0].name == name);
    }
}

/// The characters that cannot stand in a JSON string as they are, and what stands
/// for each.
pub proof fn escapes_are_these(c: char)
    ensures
        escaped_char('"') == seq!['\\', '"'],
        escaped_char('\\') == seq!['\\', '\\'],
        escaped_char('\n') == seq!['\\', 'n'],
        escaped_char('\r') == seq!['\\', 'r'],
        escaped_char('\t') == seq!['\\', 't'],
        escaped_char('\u{8}') == seq!['\\', 'b'],
        escaped_char('\u{c}') == seq!['\\', 'f'],
        c as int >= 0x20 && c != '"' && c != '\\' ==> escaped_char(c) == seq![c],
        (c as int) < 0x20 ==> escaped_char(c)[0] == '\\' && (escaped_char(c).len() == 2
            || escaped_char(c).len() == 6 && escaped_char(c)[1] == 'u'),
{
}

/// A text is quoted character by character, in order.
pub proof fn quoting_goes_by_characters(s: Seq<char>, c: char)
    ensures
        quoted(Seq::empty()) == seq!['"', '"'],
        quoted(s.push(c)) == quoted(s).drop_last() + escaped_char(c) + seq!['"'],
{
    assert(s.push(c).drop_last() =~= s);
    assert(quoted(Seq::empty()) =~= seq!['"', '"']);
    assert(quoted(s).drop_last() =~= seq!['"'] + escaped(s));
    assert(quoted(s.push(c)) =~= quoted(s).drop_last() + escaped_char(c) + seq!['"']);
}

/// Pairs, members and frames are seen as they are.
pub proof fn members_are_seen_whole(pairs: Seq<Pair>, frame: Frame, i: int)
    ensures
        pairs_of(pairs).len() == pairs.len(),
        0 <= i < pairs.len() ==> pairs_of(pairs)[i] == (pairs[i].name@, pairs[i].value@),
        frame@.json == frame.json@,
        frame@.members.len() == frame.members@.len(),
        0 <= i < frame.members@.len() ==> {
            &&& frame@.members[i].name == frame.members@[i].name@
            &&& frame@.members[i].json == frame.members@[i].json@
            &&& frame@.members[i].string is Some <==> frame.members@[i].string is Some
            &&& frame.members@[i].string is Some ==> frame@.members[i].string == Some(
                frame.members@[i].string->0@,
            )
        },
{
}

/// One level further in, members keep their names and their order.
pub proof fn nesting_keeps_the_names(pairs: Seq<(Seq<char>, Seq<char>)>, i: int)
    requires
        0 <= i < pairs.len(),
    ensures
        nested(pairs).len() == pairs.len(),
        nested(pairs)[i].0 == pairs[i].0,
        nested(pairs)[i].1 == indented(pairs[i].1),
{
}

} // verus!
