//! JSON documents, as the `serde_json` crate holds and writes them.

use vstd::prelude::*;

use crate::numbers;
use crate::order;
use crate::text;

verus! {

/// `serde_json::Value`, a JSON document.
#[verifier::external_type_specification]
#[verifier::external_body]
pub struct ExValue(serde_json::Value);

/// What a document holds, written as JSON without any blanks.
pub uninterp spec fn json_text(value: serde_json::Value) -> Seq<char>;

/// What the documents of a list hold.
pub open spec fn json_texts(values: Seq<serde_json::Value>) -> Seq<Seq<char>> {
    Seq::new(values.len(), |i: int| json_text(values[i]))
}

/// JSON without the blanks and line breaks outside of strings, which make no difference to what it
/// holds; `inside` says whether it starts within a string.
pub open spec fn without_blanks(text: Seq<char>, inside: bool) -> Seq<char>
    decreases text.len(),
{
    if text.len() == 0 {
        Seq::empty()
    } else if inside && text.len() > 1 && text[0] == '\\' {
        text.take(2) + without_blanks(text.skip(2), true)
    } else if text[0] == '"' {
        seq!['"'] + without_blanks(text.skip(1), !inside)
    } else if !inside && (text[0] == ' ' || text[0] == '\n') {
        without_blanks(text.skip(1), false)
    } else {
        seq![text[0]] + without_blanks(text.skip(1), inside)
    }
}

/// The text of a document without its strings; `inside` says whether it starts within one.
pub open spec fn unquoted(text: Seq<char>, inside: bool) -> Seq<char>
    decreases text.len(),
{
    if text.len() == 0 {
        Seq::empty()
    } else if inside && text.len() > 1 && text[0] == '\\' {
        unquoted(text.skip(2), true)
    } else if text[0] == '"' {
        unquoted(text.skip(1), !inside)
    } else if inside {
        unquoted(text.skip(1), true)
    } else {
        seq![text[0]] + unquoted(text.skip(1), false)
    }
}

/// How many arrays and objects are open at the end of a text without strings.
pub open spec fn open_brackets(bare: Seq<char>) -> int {
    bare.filter(|c: char| c == '[' || c == '{').len() - bare.filter(
        |c: char| c == ']' || c == '}',
    ).len()
}

/// Whether a document is one that reading gives back exactly: arrays and objects are nested less
/// than 128 deep, and no number has a fraction or an exponent.
pub open spec fn reads_back(document: Seq<char>) -> bool {
    let bare = unquoted(document, false);
    &&& forall|i: int| 0 <= i <= bare.len() ==> open_brackets(#[trigger] bare.take(i)) < 128
    &&& forall|i: int|
        0 < i < bare.len() && numbers::is_digit(bare[i - 1]) ==> #[trigger] bare[i] != '.'
            && bare[i] != 'e'
}

/// `serde_json::to_string` of a document: its JSON text, on one line and with no blanks outside of
/// strings. It fails only for types that refuse to be serialized and for maps whose keys are not
/// strings, and a document is neither.
/// `serde_json::from_str` makes the same document of it, but refuses documents that are nested too
/// deep; of numbers with a fraction or an exponent, which it may round, nothing is said.
#[verifier::external_body]
pub(crate) fn compact_json(value: &serde_json::Value) -> (r: Result<String, String>)
    ensures
        r is Ok,
        r->Ok_0@ == json_text(*value),
        !r->Ok_0@.contains('\n'),
        without_blanks(r->Ok_0@, false) == json_text(*value),
        reads_back(json_text(*value)) ==> holds_document(r->Ok_0@, json_text(*value)),
{
    serde_json::to_string(value).map_err(|e| e.to_string())
}

/// The JSON text of a document, laid out on lines by `serde_json::to_string_pretty`.
pub uninterp spec fn pretty_text(document: Seq<char>) -> Seq<char>;

/// `serde_json::to_string_pretty` of a document: its JSON text, laid out with line breaks and
/// blanks, and nothing else added. It fails only where `to_string` does. `serde_json::from_str`
/// makes the same document of it within the same limits. Arrays and objects with something in
/// them, whose JSON text is longer than two brackets, are laid out on several lines.
#[verifier::external_body]
pub(crate) fn pretty_json(value: &serde_json::Value) -> (r: Result<String, String>)
    ensures
        r is Ok,
        r->Ok_0@ == pretty_text(json_text(*value)),
        without_blanks(r->Ok_0@, false) == json_text(*value),
        is_composite(json_text(*value)) && json_text(*value).len() > 2 ==> r->Ok_0@.contains('\n'),
        reads_back(json_text(*value)) ==> holds_document(r->Ok_0@, json_text(*value)),
{
    serde_json::to_string_pretty(value).map_err(|e| e.to_string())
}

/// What `serde_json::from_str` makes of a text: a document, here as JSON without blanks, or an
/// error message.
pub uninterp spec fn parsed_json(text: Seq<char>) -> Result<Seq<char>, Seq<char>>;

/// Whether a text is JSON that holds the document.
pub open spec fn holds_document(text: Seq<char>, document: Seq<char>) -> bool {
    parsed_json(text) == Ok::<Seq<char>, Seq<char>>(document)
}

/// `serde_json::from_str`: the document that the text holds, or the message of the error.
#[verifier::external_body]
pub(crate) fn parse_json(text: &str) -> (r: Result<serde_json::Value, String>)
    ensures
        match r {
            Ok(v) => parsed_json(text@) == Ok::<Seq<char>, Seq<char>>(json_text(v)),
            Err(e) => parsed_json(text@) == Err::<Seq<char>, Seq<char>>(e@),
        },
{
    serde_json::from_str(text).map_err(|e| e.to_string())
}

/// What `serde_json::Value::pointer` finds in a document, both as JSON without blanks.
pub uninterp spec fn pointed_json(document: Seq<char>, pointer: Seq<char>) -> Option<Seq<char>>;

/// `serde_json::Value::pointer`: the part of the document that the JSON Pointer addresses, if
/// there is such a part.
#[verifier::external_body]
pub(crate) fn find_pointer<'a>(value: &'a serde_json::Value, pointer: &str) -> (r: Option<
    &'a serde_json::Value,
>)
    ensures
        match r {
            Some(v) => pointed_json(json_text(*value), pointer@) == Some(json_text(*v)),
            None => pointed_json(json_text(*value), pointer@) is None,
        },
{
    value.pointer(pointer)
}

/// A document, one level deep.
#[derive(Debug, Clone, PartialEq, Eq)]
pub enum JsonNode {
    Null,
    Bool(bool),
    /// A number, as it is written.
    Number(String),
    /// A string, without quotes and escapes.
    Text(String),
    /// An array or an object.
    Composite,
}

/// Whether a document is an array or an object.
pub open spec fn is_composite(document: Seq<char>) -> bool {
    document.len() > 0 && (document[0] == '[' || document[0] == '{')
}

/// The variants of `serde_json::Value`: `null`, `true`, `false` and numbers are given as they are
/// written in JSON, where numbers start with a digit or a minus; strings are written in quotes and
/// with escapes, and given without; arrays and objects start with a bracket or a brace.
#[verifier::external_body]
pub(crate) fn json_node(value: &serde_json::Value) -> (node: JsonNode)
    ensures
        match node {
            JsonNode::Null => json_text(*value) == "null"@,
            JsonNode::Bool(b) => json_text(*value) == if b {
                "true"@
            } else {
                "false"@
            },
            JsonNode::Number(n) => json_text(*value) == n@ && n@.len() > 0 && (n@[0] == '-'
                || numbers::is_digit(n@[0])),
            JsonNode::Text(s) => json_text(*value) == quoted_json(s@),
            JsonNode::Composite => is_composite(json_text(*value)),
        },
{
    match value {
        serde_json::Value::Null => JsonNode::Null,
        serde_json::Value::Bool(b) => JsonNode::Bool(*b),
        serde_json::Value::Number(n) => JsonNode::Number(n.to_string()),
        serde_json::Value::String(s) => JsonNode::Text(s.clone()),
        serde_json::Value::Array(_) => JsonNode::Composite,
        serde_json::Value::Object(_) => JsonNode::Composite,
    }
}

/// A hexadecimal digit.
pub open spec fn hex_digit(n: int) -> char {
    if n < 10 {
        ('0' as int + n) as char
    } else {
        ('a' as int + n - 10) as char
    }
}

/// A character as it stands in a JSON string. Quotes, backslashes and control characters are
/// escaped.
pub open spec fn escaped_char(c: char) -> Seq<char> {
    let code = c as int;
    if c == '"' || c == '\\' {
        seq!['\\', c]
    } else if code == 8 {
        seq!['\\', 'b']
    } else if c == '\t' {
        seq!['\\', 't']
    } else if c == '\n' {
        seq!['\\', 'n']
    } else if code == 12 {
        seq!['\\', 'f']
    } else if c == '\r' {
        seq!['\\', 'r']
    } else if code < 32 {
        seq!['\\', 'u', '0', '0', hex_digit(code / 16), hex_digit(code % 16)]
    } else {
        seq![c]
    }
}

/// The characters of a string as they stand in JSON.
pub open spec fn escaped_text(s: Seq<char>) -> Seq<char>
    decreases s.len(),
{
    if s.len() == 0 {
        Seq::empty()
    } else {
        escaped_char(s[0]) + escaped_text(s.skip(1))
    }
}

/// A string, quoted and escaped for JSON.
pub open spec fn quoted_json(s: Seq<char>) -> Seq<char> {
    seq!['"'] + escaped_text(s) + seq!['"']
}

/// The string that a document consists of, where it is a string.
pub open spec fn string_content(document: Seq<char>) -> Option<Seq<char>> {
    if exists|s: Seq<char>| #[trigger] quoted_json(s) == document {
        Some(choose|s: Seq<char>| #[trigger] quoted_json(s) == document)
    } else {
        None
    }
}

/// No escape is the start of another one.
proof fn lemma_escapes_differ(c: char, d: char, x: Seq<char>, y: Seq<char>)
    requires
        escaped_char(c) + x == escaped_char(d) + y,
    ensures
        c == d,
        x == y,
{
    let t = escaped_char(c) + x;
    let (a, b) = (escaped_char(c), escaped_char(d));
    assert(t[0] == a[0] && t[0] == b[0]);
    if a.len() > 1 && b.len() > 1 {
        assert(t[1] == a[1] && t[1] == b[1]);
        if a.len() == 6 && b.len() == 6 {
            assert(t[4] == a[4] && t[4] == b[4]);
            assert(t[5] == a[5] && t[5] == b[5]);
            assert(c as int == (c as int / 16) * 16 + c as int % 16);
            assert(d as int == (d as int / 16) * 16 + d as int % 16);
        }
    }
    assert(c == d);
    assert(x =~= t.skip(a.len() as int));
    assert(y =~= t.skip(b.len() as int));
}

proof fn lemma_escaped_texts_differ(a: Seq<char>, b: Seq<char>)
    requires
        escaped_text(a) == escaped_text(b),
    ensures
        a == b,
    decreases a.len(),
{
    if a.len() > 0 && b.len() > 0 {
        lemma_escapes_differ(a[0], b[0], escaped_text(a.skip(1)), escaped_text(b.skip(1)));
        lemma_escaped_texts_differ(a.skip(1), b.skip(1));
        assert(a =~= seq![a[0]] + a.skip(1));
        assert(b =~= seq![b[0]] + b.skip(1));
    } else {
        assert(a.len() > 0 ==> escaped_text(a).len() > 0);
        assert(b.len() > 0 ==> escaped_text(b).len() > 0);
        assert(a =~= b);
    }
}

/// Quoting loses nothing: the string in a quoted string is the one that was quoted.
pub proof fn law_quoting_loses_nothing(s: Seq<char>)
    ensures
        string_content(quoted_json(s)) == Some(s),
{
    let document = quoted_json(s);
    let t = choose|t: Seq<char>| #[trigger] quoted_json(t) == document;
    assert(quoted_json(t) == document);
    let n = document.len() as int;
    assert(escaped_text(s) =~= document.subrange(1, n - 1));
    assert(escaped_text(t) =~= quoted_json(t).subrange(1, n - 1));
    lemma_escaped_texts_differ(s, t);
}

/// A document that does not start with a quote is no string.
pub proof fn law_strings_start_with_a_quote(document: Seq<char>)
    requires
        string_content(document) is Some,
    ensures
        document.len() > 0,
        document[0] == '"',
{
    let s = choose|s: Seq<char>| #[trigger] quoted_json(s) == document;
    assert(quoted_json(s)[0] == '"');
}

/// `serde_json::Value::String`: the document that consists of a string, written in quotes and with
/// escapes.
#[verifier::external_body]
pub(crate) fn json_string(s: String) -> (value: serde_json::Value)
    ensures
        json_text(value) == quoted_json(s@),
{
    serde_json::Value::String(s)
}

/// `serde_json::Value::from` an unsigned number: written in decimal.
#[verifier::external_body]
pub(crate) fn json_count(n: u64) -> (value: serde_json::Value)
    ensures
        json_text(value) == numbers::decimal(n as nat),
{
    serde_json::Value::from(n)
}

/// The JSON Pointer of an item of an array.
pub open spec fn pointer_at(index: nat) -> Seq<char> {
    seq!['/'] + numbers::decimal(index)
}

/// `serde_json::Value::Array`: the documents between brackets, with commas between them. The JSON
/// Pointer of a number finds the item with that number, counted from zero, and a longer one goes
/// on from there.
#[verifier::external_body]
pub(crate) fn json_array(items: Vec<serde_json::Value>) -> (value: serde_json::Value)
    ensures
        json_text(value) == "["@ + text::joined(json_texts(items@), ","@) + "]"@,
        forall|i: nat|
            i >= items.len() ==> (#[trigger] pointed_json(json_text(value), pointer_at(i))) is None,
        forall|i: int|
            0 <= i < items.len() ==> pointed_json(json_text(value), pointer_at(i as nat)) == Some(
                json_text(#[trigger] items@[i]),
            ),
        forall|i: nat, rest: Seq<char>|
            i < items.len() && rest.len() > 0 && rest[0] == '/' ==> #[trigger] pointed_json(
                json_text(value),
                pointer_at(i) + rest,
            ) == pointed_json(json_text(items@[i as int]), rest),
{
    serde_json::Value::Array(items)
}

/// The members of an object: each key, a colon and the document.
pub open spec fn member_texts(members: Seq<(String, serde_json::Value)>) -> Seq<Seq<char>> {
    Seq::new(
        members.len(),
        |i: int| quoted_json(members[i].0@) + ":"@ + json_text(members[i].1),
    )
}

/// A key as it stands in a JSON Pointer: a tilde is written `~0`, and a slash `~1`.
pub open spec fn pointer_token(key: Seq<char>) -> Seq<char>
    decreases key.len(),
{
    if key.len() == 0 {
        Seq::empty()
    } else {
        pointer_token(key.drop_last()) + (if key.last() == '~' {
            seq!['~', '0']
        } else if key.last() == '/' {
            seq!['~', '1']
        } else {
            seq![key.last()]
        })
    }
}

/// The JSON Pointer of a top-level key.
pub open spec fn pointer_to(key: Seq<char>) -> Seq<char> {
    seq!['/'] + pointer_token(key)
}

/// Whether a key stands for itself in a JSON Pointer.
pub open spec fn is_plain_key(key: Seq<char>) -> bool {
    !key.contains('/') && !key.contains('~')
}

/// Whether the keys are in order, and thus different.
pub open spec fn keys_in_order(members: Seq<(String, serde_json::Value)>) -> bool {
    forall|i: int, j: int|
        0 <= i < j < members.len() ==> order::text_before(
            (#[trigger] members[i]).0@,
            (#[trigger] members[j]).0@,
        )
}

/// `serde_json::Map::from_iter` and `serde_json::Value::Object`: the members between braces, with
/// commas between them. A map is written in the order of its keys, or in that of their insertion;
/// the members are required to come in an order that is both. The JSON Pointer of a key finds the
/// member with that key, and a longer one goes on from there.
#[verifier::external_body]
pub(crate) fn json_object(members: Vec<(String, serde_json::Value)>) -> (value: serde_json::Value)
    requires
        keys_in_order(members@),
    ensures
        json_text(value) == "{"@ + text::joined(member_texts(members@), ","@) + "}"@,
        forall|i: int|
            0 <= i < members.len() ==> pointed_json(
                json_text(value),
                pointer_to((#[trigger] members@[i]).0@),
            ) == Some(json_text(members@[i].1)),
        forall|i: int, rest: Seq<char>|
            0 <= i < members.len() && rest.len() > 0 && rest[0] == '/' ==> #[trigger] pointed_json(
                json_text(value),
                pointer_to(members@[i].0@) + rest,
            ) == pointed_json(json_text(members@[i].1), rest),
{
    serde_json::Value::Object(serde_json::Map::from_iter(members))
}

/// Whether the same is found in two documents, except at or below one top-level key.
pub open spec fn same_but_for(before: Seq<char>, after: Seq<char>, key: Seq<char>) -> bool {
    &&& forall|other: Seq<char>|
        other != key ==> #[trigger] pointed_json(after, pointer_to(other)) == pointed_json(
            before,
            pointer_to(other),
        )
    &&& forall|other: Seq<char>, rest: Seq<char>|
        other != key && rest.len() > 0 && rest[0] == '/' ==> #[trigger] pointed_json(
            after,
            pointer_to(other) + rest,
        ) == pointed_json(before, pointer_to(other) + rest)
}

/// What a document is after `serde_json::Map::insert` has put a member into it, all as JSON
/// without blanks.
pub uninterp spec fn with_member(
    document: Seq<char>,
    key: Seq<char>,
    member: Seq<char>,
) -> Seq<char>;

/// `serde_json::Value::as_object_mut` and `serde_json::Map::insert`: puts a member into a
/// document, where the JSON Pointer of its key finds it; what is found under other keys stays. A
/// document that is not an object, which is to say that its text does not start with a brace, is
/// left as it is.
#[verifier::external_body]
pub(crate) fn insert_member(value: &mut serde_json::Value, key: &str, member: serde_json::Value)
    ensures
        json_text(*final(value)) == with_member(json_text(*old(value)), key@, json_text(member)),
        json_text(*old(value)).len() > 0 && json_text(*old(value))[0] != '{' ==> json_text(
            *final(value),
        ) == json_text(*old(value)),
        json_text(*old(value)).len() > 0 && json_text(*old(value))[0] == '{' ==> pointed_json(
            json_text(*final(value)),
            pointer_to(key@),
        ) == Some(json_text(member)),
        same_but_for(json_text(*old(value)), json_text(*final(value)), key@),
{
    if let Some(object) = value.as_object_mut() {
        object.insert(key.to_string(), member);
    }
}

/// Reads a token of a JSON Pointer: `~1` stands for a slash and `~0` for a tilde.
pub open spec fn token_key(token: Seq<char>) -> Seq<char>
    decreases token.len(),
{
    if token.len() == 0 {
        Seq::empty()
    } else if token.len() > 1 && token[token.len() - 2] == '~' {
        token_key(token.take(token.len() - 2)).push(
            if token.last() == '1' {
                '/'
            } else {
                '~'
            },
        )
    } else {
        token_key(token.drop_last()).push(token.last())
    }
}

/// A key is read back from its token, which holds no slash.
pub proof fn law_tokens_read_back(key: Seq<char>)
    ensures
        token_key(pointer_token(key)) == key,
        !pointer_token(key).contains('/'),
        pointer_token(key).len() > 0 ==> pointer_token(key).last() != '~',
    decreases key.len(),
{
    if key.len() > 0 {
        let init = key.drop_last();
        law_tokens_read_back(init);
        let (a, t) = (pointer_token(init), pointer_token(key));
        if key.last() == '~' || key.last() == '/' {
            assert(t.take(t.len() - 2) =~= a);
        } else {
            assert(t.drop_last() =~= a);
            if t.len() > 1 {
                assert(t[t.len() - 2] == a.last());
            }
        }
        assert(token_key(t) =~= key);
        assert forall|i: int| 0 <= i < t.len() implies t[i] != '/' by {
            if i < a.len() {
                assert(a.contains(a[i]));
            }
        }
    } else {
        assert(token_key(pointer_token(key)) =~= key);
    }
}

/// A quoted string holds no control characters, and is the string itself between quotes where that
/// has nothing to escape.
pub proof fn law_quoted_strings_are_printable(s: Seq<char>)
    ensures
        forall|i: int| 0 <= i < quoted_json(s).len() ==> #[trigger] quoted_json(s)[i] as int >= 32,
        (forall|i: int|
            0 <= i < s.len() ==> #[trigger] s[i] as int >= 32 && s[i] != '"' && s[i] != '\\')
            ==> quoted_json(s) == seq!['"'] + s + seq!['"'],
{
    lemma_escaped_is_printable(s);
}

proof fn lemma_escapes_are_printable(c: char)
    ensures
        forall|i: int| 0 <= i < escaped_char(c).len() ==> #[trigger] escaped_char(c)[i] as int >= 32,
{
    let code = c as int;
    let a = escaped_char(c);
    if 0 <= code < 32 {
        assert(hex_digit(code / 16) as int >= 48);
        assert(hex_digit(code % 16) as int >= 48);
    }
    assert forall|i: int| 0 <= i < a.len() implies #[trigger] a[i] as int >= 32 by {
        if a.len() == 6 {
            assert(i == 0 || i == 1 || i == 2 || i == 3 || i == 4 || i == 5);
        } else {
            assert(i == 0 || i == 1);
        }
    }
}

proof fn lemma_escaped_is_printable(s: Seq<char>)
    ensures
        forall|i: int| 0 <= i < escaped_text(s).len() ==> #[trigger] escaped_text(s)[i] as int >= 32,
        (forall|i: int|
            0 <= i < s.len() ==> #[trigger] s[i] as int >= 32 && s[i] != '"' && s[i] != '\\')
            ==> escaped_text(s) == s,
    decreases s.len(),
{
    if s.len() > 0 {
        let rest = s.skip(1);
        lemma_escaped_is_printable(rest);
        let (a, b) = (escaped_char(s[0]), escaped_text(rest));
        lemma_escapes_are_printable(s[0]);
        assert forall|i: int| 0 <= i < escaped_text(s).len() implies #[trigger] escaped_text(s)[i]
            as int >= 32 by {
            if i < a.len() {
                assert(escaped_text(s)[i] == a[i]);
            } else {
                assert(escaped_text(s)[i] == b[i - a.len()]);
            }
        }
        if forall|i: int|
            0 <= i < s.len() ==> #[trigger] s[i] as int >= 32 && s[i] != '"' && s[i] != '\\' {
            assert forall|i: int| 0 <= i < rest.len() implies #[trigger] rest[i] as int >= 32
                && rest[i] != '"' && rest[i] != '\\' by {
                assert(rest[i] == s[i + 1]);
            }
            assert(s[0] as int >= 32);
            assert(escaped_text(s) =~= s);
        }
    } else {
        assert(escaped_text(s) =~= s);
    }
}

/// A hexadecimal digit is worth its place in the row of digits and small letters.
pub proof fn law_hex_digits_are_digits_and_letters(n: int)
    ensures
        0 <= n < 10 ==> hex_digit(n) as int == '0' as int + n,
        10 <= n < 16 ==> hex_digit(n) as int == 'a' as int + (n - 10),
{
}

/// Quotes and backslashes are escaped by a backslash, the usual control characters by a letter
/// behind one, and the other control characters by their number in four digits.
pub proof fn law_escapes_of_characters(c: char)
    ensures
        c == '"' ==> escaped_char(c) == seq!['\\', '"'],
        c == '\\' ==> escaped_char(c) == seq!['\\', '\\'],
        c == '\u{8}' ==> escaped_char(c) == seq!['\\', 'b'],
        c == '\t' ==> escaped_char(c) == seq!['\\', 't'],
        c == '\n' ==> escaped_char(c) == seq!['\\', 'n'],
        c == '\u{c}' ==> escaped_char(c) == seq!['\\', 'f'],
        c == '\r' ==> escaped_char(c) == seq!['\\', 'r'],
        c != '"' && c != '\\' && c as int >= 32 ==> escaped_char(c) == seq![c],
        c as int == 11 || c as int == 14 || c as int == 15 || (c as int) < 8 ==> escaped_char(c)
            == seq!['\\', 'u', '0', '0', '0', hex_digit(c as int)],
        16 <= c as int && (c as int) < 32 ==> escaped_char(c) == seq![
            '\\',
            'u',
            '0',
            '0',
            '1',
            hex_digit(c as int - 16),
        ],
{
    let code = c as int;
    if 0 <= code < 16 {
        assert(code / 16 == 0 && code % 16 == code);
    } else if code < 32 {
        assert(code / 16 == 1 && code % 16 == code - 16);
    }
}

} // verus!
