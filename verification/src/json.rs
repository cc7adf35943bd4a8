//! Flat JSON objects, as the tools write them.

use vstd::prelude::*;
use vstd::string::*;

use crate::encoding::{json_contents, json_escaped, json_quoted, json_string};
use crate::text::concat3;

verus! {

/// A value of a member.
pub enum JsonValue {
    Null,
    Bool(bool),
    Text(String),
}

/// A value, in specifications.
pub enum JsonView {
    Null,
    Bool(bool),
    Text(Seq<char>),
}

impl DeepView for JsonValue {
    type V = JsonView;

    open spec fn deep_view(&self) -> JsonView {
        match self {
            JsonValue::Null => JsonView::Null,
            JsonValue::Bool(flag) => JsonView::Bool(*flag),
            JsonValue::Text(text) => JsonView::Text(text@),
        }
    }
}

/// A text that may be missing.
pub open spec fn optional_text_value(text: Option<Seq<char>>) -> JsonView {
    match text {
        Some(text) => JsonView::Text(text),
        None => JsonView::Null,
    }
}

/// A flag that may be missing.
pub open spec fn optional_flag_value(flag: Option<bool>) -> JsonView {
    match flag {
        Some(flag) => JsonView::Bool(flag),
        None => JsonView::Null,
    }
}

/// The value of a text that may be missing.
pub fn optional_text(text: &Option<String>) -> (value: JsonValue)
    ensures
        value.deep_view() == optional_text_value(text.deep_view()),
{
    match text {
        Some(text) => JsonValue::Text(text.clone()),
        None => JsonValue::Null,
    }
}

/// The value of a flag that may be missing.
pub fn optional_flag(flag: Option<bool>) -> (value: JsonValue)
    ensures
        value.deep_view() == optional_flag_value(flag),
{
    match flag {
        Some(flag) => JsonValue::Bool(flag),
        None => JsonValue::Null,
    }
}

/// How a value is written.
pub open spec fn value_text(value: JsonView) -> Seq<char> {
    match value {
        JsonView::Null => "null"@,
        JsonView::Bool(true) => "true"@,
        JsonView::Bool(false) => "false"@,
        JsonView::Text(text) => json_quoted(text),
    }
}

/// How one member is written.
pub open spec fn member_text(member: (Seq<char>, JsonView)) -> Seq<char> {
    json_quoted(member.0) + ":"@ + value_text(member.1)
}

/// How the members of an object are written, separated by commas.
pub open spec fn members_text(members: Seq<(Seq<char>, JsonView)>) -> Seq<char>
    decreases members.len(),
{
    if members.len() == 0 {
        Seq::empty()
    } else {
        let member = member_text(members.last());
        if members.len() == 1 {
            member
        } else {
            members_text(members.drop_last()) + ","@ + member
        }
    }
}

/// How an object is written: its members in their order, without white space.
pub open spec fn object_text(members: Seq<(Seq<char>, JsonView)>) -> Seq<char> {
    "{"@ + members_text(members) + "}"@
}

fn write_value(value: &JsonValue) -> (text: String)
    ensures
        text@ == value_text(value.deep_view()),
{
    match value {
        JsonValue::Null => "null".to_owned(),
        JsonValue::Bool(flag) => {
            if *flag {
                "true".to_owned()
            } else {
                "false".to_owned()
            }
        },
        JsonValue::Text(text) => json_string(text.as_str()),
    }
}

/// Adds a member at the end of a list.
pub fn push_member(members: &mut Vec<(String, JsonValue)>, key: &str, value: JsonValue)
    ensures
        final(members).deep_view() == old(members).deep_view().push((key@, value.deep_view())),
{
    let ghost before = members.deep_view();
    members.push((key.to_owned(), value));
    assert(members.deep_view() =~= before.push((key@, value.deep_view())));
}

/// Writes an object with the given members.
pub fn write_object(members: &Vec<(String, JsonValue)>) -> (text: String)
    ensures
        text@ == object_text(members.deep_view()),
{
    let mut inner: String = "".to_owned();
    let mut i: usize = 0;
    let ghost all = members.deep_view();
    proof {
        reveal_strlit("");
        assert(""@ =~= Seq::<char>::empty());
        assert(all.take(0) =~= Seq::<(Seq<char>, JsonView)>::empty());
    }
    while i < members.len()
        invariant
            i <= members.len(),
            all == members.deep_view(),
            inner@ == members_text(all.take(i as int)),
        decreases members.len() - i,
    {
        let key: String = json_string(members[i].0.as_str());
        let value: String = write_value(&members[i].1);
        let member: String = concat3(key.as_str(), ":", value.as_str());
        proof {
            assert(all.take(i + 1).drop_last() =~= all.take(i as int));
            assert(all.take(i + 1).last() == (members[i as int].0@, members[i as int].1.deep_view()));
        }
        inner = if i == 0 {
            member
        } else {
            concat3(inner.as_str(), ",", member.as_str())
        };
        i += 1;
    }
    assert(all.take(all.len() as int) =~= all);
    concat3("{", inner.as_str(), "}")
}

proof fn lemma_contents_from_the_front(text: Seq<char>)
    requires
        text.len() > 0,
    ensures
        json_contents(text) == json_escaped(text[0]) + json_contents(text.drop_first()),
    decreases text.len(),
{
    if text.len() == 1 {
        reveal_with_fuel(json_contents, 2);
        assert(text.drop_last() =~= Seq::<char>::empty());
        assert(text.drop_first() =~= Seq::<char>::empty());
        assert(json_contents(text) =~= json_escaped(text[0]) + json_contents(text.drop_first()));
    } else {
        lemma_contents_from_the_front(text.drop_last());
        assert(text.drop_last().drop_first() =~= text.drop_first().drop_last());
        assert(json_contents(text) =~= json_escaped(text[0]) + json_contents(text.drop_first()));
    }
}

proof fn lemma_escapes_differ(a: char, b: char, rest_a: Seq<char>, rest_b: Seq<char>)
    requires
        json_escaped(a) + rest_a == json_escaped(b) + rest_b,
    ensures
        a == b,
        rest_a == rest_b,
{
    let left = json_escaped(a) + rest_a;
    let right = json_escaped(b) + rest_b;
    let n = a as u32 as int;
    let m = b as u32 as int;
    assert(left[0] == right[0]);
    assert(left[0] == json_escaped(a)[0] && right[0] == json_escaped(b)[0]);
    if left[0] == '\\' {
        assert(json_escaped(a).len() >= 2 && json_escaped(b).len() >= 2);
        assert(left[1] == json_escaped(a)[1] && right[1] == json_escaped(b)[1]);
        if left[1] == 'u' {
            assert(json_escaped(a).len() == 6 && json_escaped(b).len() == 6);
            assert(left[4] == json_escaped(a)[4] && right[4] == json_escaped(b)[4]);
            assert(left[5] == json_escaped(a)[5] && right[5] == json_escaped(b)[5]);
            lemma_hex_digits_differ(n / 16, m / 16);
            lemma_hex_digits_differ(n % 16, m % 16);
            assert(n == m);
            vstd::utf8::char_u32_cast(a, b as u32);
            vstd::utf8::char_u32_cast(b, b as u32);
        } else if left[1] == '"' || left[1] == '\\' {
        } else {
            assert(n == m);
            vstd::utf8::char_u32_cast(a, b as u32);
            vstd::utf8::char_u32_cast(b, b as u32);
        }
    }
    assert(json_escaped(a) == json_escaped(b));
    let k = json_escaped(a).len() as int;
    assert(rest_a =~= left.skip(k));
    assert(rest_b =~= right.skip(k));
}

proof fn lemma_hex_digits_differ(i: int, j: int)
    requires
        0 <= i < 16,
        0 <= j < 16,
        crate::encoding::hex_digit(i) == crate::encoding::hex_digit(j),
    ensures
        i == j,
{
}

proof fn lemma_contents_end_at_the_quote(
    a: Seq<char>,
    b: Seq<char>,
    rest_a: Seq<char>,
    rest_b: Seq<char>,
)
    requires
        json_contents(a) + seq!['"'] + rest_a == json_contents(b) + seq!['"'] + rest_b,
    ensures
        a == b,
        rest_a == rest_b,
    decreases a.len(),
{
    let quote = seq!['"'];
    let left = json_contents(a) + quote + rest_a;
    let right = json_contents(b) + quote + rest_b;
    assert(left[0] == right[0]);
    if a.len() == 0 {
        if b.len() > 0 {
            lemma_contents_from_the_front(b);
            assert(right[0] == json_escaped(b[0])[0]);
            assert(left[0] == '"');
        } else {
            assert(a =~= b);
            assert(rest_a =~= left.skip(1));
            assert(rest_b =~= right.skip(1));
        }
    } else {
        lemma_contents_from_the_front(a);
        assert(left[0] == json_escaped(a[0])[0]);
        if b.len() == 0 {
            assert(right[0] == '"');
        } else {
            lemma_contents_from_the_front(b);
            let after_a = json_contents(a.drop_first()) + quote + rest_a;
            let after_b = json_contents(b.drop_first()) + quote + rest_b;
            assert(left =~= json_escaped(a[0]) + after_a);
            assert(right =~= json_escaped(b[0]) + after_b);
            lemma_escapes_differ(a[0], b[0], after_a, after_b);
            lemma_contents_end_at_the_quote(a.drop_first(), b.drop_first(), rest_a, rest_b);
            assert(a =~= seq![a[0]] + a.drop_first());
            assert(b =~= seq![b[0]] + b.drop_first());
        }
    }
}

/// A JSON string can be read back: whatever follows it, it ends at its closing quote and stands for
/// one text only.
pub proof fn lemma_a_string_reads_back(
    a: Seq<char>,
    b: Seq<char>,
    rest_a: Seq<char>,
    rest_b: Seq<char>,
)
    requires
        json_quoted(a) + rest_a == json_quoted(b) + rest_b,
    ensures
        a == b,
        rest_a == rest_b,
{
    let left = json_quoted(a) + rest_a;
    let right = json_quoted(b) + rest_b;
    assert(left.skip(1) =~= json_contents(a) + seq!['"'] + rest_a);
    assert(right.skip(1) =~= json_contents(b) + seq!['"'] + rest_b);
    lemma_contents_end_at_the_quote(a, b, rest_a, rest_b);
}

/// A value can be read back: whatever follows it, it ends in one place and is one value only.
pub proof fn lemma_a_value_reads_back(
    a: JsonView,
    b: JsonView,
    rest_a: Seq<char>,
    rest_b: Seq<char>,
)
    requires
        value_text(a) + rest_a == value_text(b) + rest_b,
    ensures
        a == b,
        rest_a == rest_b,
{
    reveal_strlit("null");
    reveal_strlit("true");
    reveal_strlit("false");
    let left = value_text(a) + rest_a;
    let right = value_text(b) + rest_b;
    assert(left[0] == right[0]);
    assert(left[0] == value_text(a)[0]);
    assert(right[0] == value_text(b)[0]);
    match (a, b) {
        (JsonView::Text(text_a), JsonView::Text(text_b)) => {
            lemma_a_string_reads_back(text_a, text_b, rest_a, rest_b);
        },
        _ => {
            assert(value_text(a) == value_text(b));
            assert(rest_a =~= left.skip(value_text(a).len() as int));
            assert(rest_b =~= right.skip(value_text(a).len() as int));
        },
    }
}

proof fn lemma_members_from_the_front(members: Seq<(Seq<char>, JsonView)>)
    requires
        members.len() > 1,
    ensures
        members_text(members) == member_text(members[0]) + ","@ + members_text(
            members.drop_first(),
        ),
    decreases members.len(),
{
    let fewer = members.drop_last();
    let rest = members.drop_first();
    assert(rest.drop_last() =~= fewer.drop_first());
    assert(rest.last() == members.last());
    if members.len() == 2 {
        assert(fewer.len() == 1 && fewer.last() == members[0]);
        assert(members_text(fewer) == member_text(members[0]));
        assert(members_text(rest) == member_text(members.last()));
    } else {
        lemma_members_from_the_front(fewer);
        assert(fewer[0] == members[0]);
    }
    assert(members_text(members) =~= member_text(members[0]) + ","@ + members_text(rest));
}

proof fn lemma_a_member_reads_back(
    a: (Seq<char>, JsonView),
    b: (Seq<char>, JsonView),
    rest_a: Seq<char>,
    rest_b: Seq<char>,
)
    requires
        member_text(a) + rest_a == member_text(b) + rest_b,
    ensures
        a == b,
        rest_a == rest_b,
{
    reveal_strlit(":");
    let tail_a = ":"@ + value_text(a.1) + rest_a;
    let tail_b = ":"@ + value_text(b.1) + rest_b;
    assert(member_text(a) + rest_a =~= json_quoted(a.0) + tail_a);
    assert(member_text(b) + rest_b =~= json_quoted(b.0) + tail_b);
    lemma_a_string_reads_back(a.0, b.0, tail_a, tail_b);
    assert(tail_a.skip(1) =~= value_text(a.1) + rest_a);
    assert(tail_b.skip(1) =~= value_text(b.1) + rest_b);
    lemma_a_value_reads_back(a.1, b.1, rest_a, rest_b);
}

proof fn lemma_members_read_back(
    a: Seq<(Seq<char>, JsonView)>,
    b: Seq<(Seq<char>, JsonView)>,
    rest_a: Seq<char>,
    rest_b: Seq<char>,
)
    requires
        members_text(a) + "}"@ + rest_a == members_text(b) + "}"@ + rest_b,
    ensures
        a == b,
        rest_a == rest_b,
    decreases a.len(),
{
    let left = members_text(a) + "}"@ + rest_a;
    let right = members_text(b) + "}"@ + rest_b;
    let next_a = lemma_first_member(a, rest_a);
    let next_b = lemma_first_member(b, rest_b);
    if a.len() == 0 || b.len() == 0 {
        assert(a.len() == 0 && b.len() == 0);
        assert(a =~= b);
        lemma_after_brace(left, rest_a, rest_b);
    } else {
        lemma_a_member_reads_back(a[0], b[0], next_a, next_b);
        if a.len() == 1 {
            assert(b.len() == 1);
            assert(a =~= b);
            lemma_after_brace(next_a, rest_a, rest_b);
        } else {
            assert(b.len() > 1);
            let more_a = members_text(a.drop_first()) + "}"@ + rest_a;
            let more_b = members_text(b.drop_first()) + "}"@ + rest_b;
            assert(more_a == more_b) by {
                reveal_strlit(",");
                assert(next_a.skip(1) =~= more_a);
                assert(next_b.skip(1) =~= more_b);
            }
            lemma_members_read_back(a.drop_first(), b.drop_first(), rest_a, rest_b);
            assert(a =~= seq![a[0]] + a.drop_first());
            assert(b =~= seq![b[0]] + b.drop_first());
        }
    }
}

proof fn lemma_after_brace(whole: Seq<char>, rest_a: Seq<char>, rest_b: Seq<char>)
    requires
        whole == "}"@ + rest_a,
        whole == "}"@ + rest_b,
    ensures
        rest_a == rest_b,
{
    reveal_strlit("}");
    assert(rest_a =~= whole.skip(1));
    assert(rest_b =~= whole.skip(1));
}

proof fn lemma_first_member(members: Seq<(Seq<char>, JsonView)>, rest: Seq<char>) -> (next: Seq<
    char,
>)
    ensures
        members.len() == 0 ==> members_text(members) + "}"@ + rest == "}"@ + rest && (members_text(
            members,
        ) + "}"@ + rest)[0] == '}',
        members.len() > 0 ==> (members_text(members) + "}"@ + rest)[0] == '"' && members_text(
            members,
        ) + "}"@ + rest == member_text(members[0]) + next,
        members.len() == 1 ==> next == "}"@ + rest && next[0] == '}',
        members.len() > 1 ==> next == ","@ + members_text(members.drop_first()) + "}"@ + rest
            && next[0] == ',',
{
    reveal_strlit("}");
    reveal_strlit(",");
    let whole = members_text(members) + "}"@ + rest;
    if members.len() == 0 {
        assert(whole =~= "}"@ + rest);
        Seq::empty()
    } else if members.len() == 1 {
        let next = "}"@ + rest;
        assert(whole =~= member_text(members[0]) + next);
        assert(whole[0] == json_quoted(members[0].0)[0]);
        next
    } else {
        lemma_members_from_the_front(members);
        let next = ","@ + members_text(members.drop_first()) + "}"@ + rest;
        assert(whole =~= member_text(members[0]) + next);
        assert(whole[0] == json_quoted(members[0].0)[0]);
        next
    }
}

/// An object can be read back: its text stands for one list of members only.
pub proof fn lemma_an_object_reads_back(
    a: Seq<(Seq<char>, JsonView)>,
    b: Seq<(Seq<char>, JsonView)>,
)
    requires
        object_text(a) == object_text(b),
    ensures
        a == b,
{
    reveal_strlit("{");
    let empty = Seq::<char>::empty();
    assert(object_text(a).skip(1) =~= members_text(a) + "}"@ + empty);
    assert(object_text(b).skip(1) =~= members_text(b) + "}"@ + empty);
    lemma_members_read_back(a, b, empty, empty);
}

/// An object with one member is the name in quotes, a colon and the value, between braces; nothing,
/// the two flags and a text are written as JSON writes them.
pub proof fn lemma_a_member_is_written(key: Seq<char>, value: JsonView)
    ensures
        object_text(seq![(key, value)]) == seq!['{'] + json_quoted(key) + seq![':'] + (match value {
            JsonView::Null => seq!['n', 'u', 'l', 'l'],
            JsonView::Bool(flag) => if flag {
                seq!['t', 'r', 'u', 'e']
            } else {
                seq!['f', 'a', 'l', 's', 'e']
            },
            JsonView::Text(text) => json_quoted(text),
        }) + seq!['}'],
        object_text(Seq::empty()) == seq!['{', '}'],
{
    reveal_strlit("null");
    reveal_strlit("true");
    reveal_strlit("false");
    reveal_strlit("{");
    reveal_strlit("}");
    reveal_strlit(":");
    assert("null"@ =~= seq!['n', 'u', 'l', 'l']);
    assert("true"@ =~= seq!['t', 'r', 'u', 'e']);
    assert("false"@ =~= seq!['f', 'a', 'l', 's', 'e']);
    assert("{"@ =~= seq!['{']);
    assert("}"@ =~= seq!['}']);
    assert(":"@ =~= seq![':']);
    assert(seq![(key, value)].last() == (key, value));
    let written = value_text(value);
    assert("{"@ + (json_quoted(key) + ":"@ + written) + "}"@ =~= seq!['{'] + json_quoted(key)
        + seq![':'] + written + seq!['}']);
    assert("{"@ + Seq::<char>::empty() + "}"@ =~= seq!['{', '}']);
}

/// The members of an object stand in their order, with a comma between two of them.
pub proof fn lemma_members_follow_each_other(
    members: Seq<(Seq<char>, JsonView)>,
    member: (Seq<char>, JsonView),
)
    requires
        members.len() > 0,
    ensures
        object_text(members.push(member)) == object_text(members).drop_last() + seq![',']
            + object_text(seq![member]).drop_first(),
{
    reveal_strlit("{");
    reveal_strlit("}");
    reveal_strlit(",");
    let more = members.push(member);
    assert(more.drop_last() =~= members);
    assert(seq![member].last() == member);
    assert(object_text(more) =~= object_text(members).drop_last() + seq![','] + object_text(
        seq![member],
    ).drop_first());
}

/// A text or a flag that is there is written, and nothing stands for one that is missing.
pub proof fn lemma_missing_values_are_null(text: Seq<char>, flag: bool)
    ensures
        optional_text_value(Some(text)) == JsonView::Text(text),
        optional_text_value(None) == JsonView::Null,
        optional_flag_value(Some(flag)) == JsonView::Bool(flag),
        optional_flag_value(None) == JsonView::Null,
{
}

} // verus!
