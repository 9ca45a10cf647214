//! `--field`: one value out of a JSON document, ready for a shell variable.
//!
//! Strings, numbers, booleans and null are given raw, without quotes. Arrays and objects are given
//! as JSON. A field that is not there is an error.

use vstd::prelude::*;

use crate::error;
use crate::error::{ErrorView, NonoError};
use crate::json;
use crate::json::JsonNode;
use crate::text;

verus! {

/// The JSON Pointer that a field stands for: a field that starts with a slash is one already, and
/// any other is a top-level key.
pub open spec fn field_pointer(field: Seq<char>) -> Seq<char> {
    if field.len() > 0 && field[0] == '/' {
        field
    } else {
        json::pointer_to(field)
    }
}

/// Writes the JSON Pointer that a field stands for.
pub fn pointer_for(field: &str) -> (out: String)
    ensures
        out@ == field_pointer(field@),
{
    let chars = text::chars_of(field);
    if chars.len() > 0 && chars[0] == '/' {
        return field.to_owned();
    }
    let mut out = String::new();
    out.push('/');
    let mut i: usize = 0;
    assert(out@ =~= seq!['/'] + json::pointer_token(field@.take(0)));
    while i < chars.len()
        invariant
            chars@ == field@,
            i <= chars.len(),
            out@ == seq!['/'] + json::pointer_token(field@.take(i as int)),
        decreases chars.len() - i,
    {
        let ghost before = json::pointer_token(field@.take(i as int));
        assert(field@.take(i + 1).drop_last() =~= field@.take(i as int));
        let c = chars[i];
        if c == '~' {
            out.push('~');
            out.push('0');
            assert(out@ =~= seq!['/'] + (before + seq!['~', '0']));
        } else if c == '/' {
            out.push('~');
            out.push('1');
            assert(out@ =~= seq!['/'] + (before + seq!['~', '1']));
        } else {
            out.push(c);
            assert(out@ =~= seq!['/'] + (before + seq![c]));
        }
        i += 1;
    }
    assert(field@.take(field@.len() as int) =~= field@);
    out
}

/// What the `Debug` format of a string shows.
pub uninterp spec fn debug_text(s: Seq<char>) -> Seq<char>;

/// A character that the `Debug` format of a string shows as it is.
pub open spec fn is_word_char(c: char) -> bool {
    'a' <= c <= 'z' || 'A' <= c <= 'Z' || '0' <= c <= '9' || c == '_' || c == '-' || c == '/'
}

/// The `Debug` format of `str`: the text in double quotes, with escapes where it needs any. Of
/// text that is made of letters, digits, underscores, hyphens and slashes none needs escaping; of
/// other text the contract says only that the result depends on nothing but the text.
#[verifier::external_body]
fn debug_format(s: &str) -> (out: String)
    ensures
        out@ == debug_text(s@),
        (forall|i: int| 0 <= i < s@.len() ==> is_word_char(#[trigger] s@[i])) ==> out@ == seq!['"']
            + s@ + seq!['"'],
{
    format!("{:?}", s)
}

/// A text in double quotes, escaped where it needs to be.
pub open spec fn in_quotes(s: Seq<char>) -> Seq<char> {
    if forall|i: int| 0 <= i < s.len() ==> is_word_char(#[trigger] s[i]) {
        seq!['"'] + s + seq!['"']
    } else {
        debug_text(s)
    }
}

/// The message for a field that is not there.
pub open spec fn missing_field_text(field: Seq<char>) -> Seq<char> {
    "field "@ + in_quotes(field)
        + " not found in JSON output (use a top-level key or a JSON-Pointer path like /security/groups/0)"@
}

/// The error for a field that is not there.
pub fn missing_field(field: &str) -> (e: NonoError)
    ensures
        e@ == ErrorView::ConfigParse(missing_field_text(field@)),
{
    let mut m = "field ".to_owned();
    m.append(debug_format(field).as_str());
    m.append(
        " not found in JSON output (use a top-level key or a JSON-Pointer path like /security/groups/0)",
    );
    NonoError::ConfigParse(m)
}

/// A document for a shell: the content of a string, else its JSON text, laid out on lines where
/// it is an array or an object and the compact form is not asked for.
pub open spec fn shell_text(document: Seq<char>, compact: bool) -> Seq<char> {
    match json::string_content(document) {
        Some(s) => s,
        None => if json::is_composite(document) && !compact {
            json::pretty_text(document)
        } else {
            document
        },
    }
}

/// The value of a field, for a shell.
pub open spec fn field_output(document: Seq<char>, field: Seq<char>, compact: bool) -> Result<
    Seq<char>,
    ErrorView,
> {
    match json::pointed_json(document, field_pointer(field)) {
        Some(target) => Ok(shell_text(target, compact)),
        None => Err(ErrorView::ConfigParse(missing_field_text(field))),
    }
}

/// The raw text of a string, number, boolean or null.
pub fn primitive_text(node: JsonNode) -> (out: Option<String>)
    ensures
        match (node, out) {
            (JsonNode::Null, Some(s)) => s@ == "null"@,
            (JsonNode::Bool(b), Some(s)) => s@ == if b {
                "true"@
            } else {
                "false"@
            },
            (JsonNode::Number(n), Some(s)) => s@ == n@,
            (JsonNode::Text(t), Some(s)) => s@ == t@,
            (JsonNode::Composite, None) => true,
            _ => false,
        },
{
    match node {
        JsonNode::Null => Some("null".to_owned()),
        JsonNode::Bool(b) => Some(
            if b {
                "true".to_owned()
            } else {
                "false".to_owned()
            },
        ),
        JsonNode::Number(n) => Some(n),
        JsonNode::Text(s) => Some(s),
        JsonNode::Composite => None,
    }
}

/// The error for a document that could not be written.
pub open spec fn serialization_text(reason: Seq<char>) -> Seq<char> {
    "JSON serialization failed: "@ + reason
}

/// The error for a document that could not be written.
pub fn serialization_failed(reason: &str) -> (e: NonoError)
    ensures
        e@ == ErrorView::ConfigParse(serialization_text(reason@)),
{
    let mut m = "JSON serialization failed: ".to_owned();
    m.append(reason);
    NonoError::ConfigParse(m)
}

/// The JSON text of a document, on one line or laid out on several.
pub open spec fn document_text(document: Seq<char>, compact: bool) -> Seq<char> {
    if compact {
        document
    } else {
        json::pretty_text(document)
    }
}

/// Whether `out` is JSON that holds the document and nothing else, and is read back as the document
/// where it can be: on a single line where it is compact, and else on several, if it is an array or
/// an object with something in it.
pub open spec fn is_rendering(out: Seq<char>, document: Seq<char>, compact: bool) -> bool {
    &&& json::without_blanks(out, false) == document
    &&& json::reads_back(document) ==> json::holds_document(out, document)
    &&& compact ==> !out.contains('\n')
    &&& !compact && json::is_composite(document) && document.len() > 2 ==> out.contains('\n')
}

/// Writes a document as JSON, from which it can be read back. The compact form is a single line.
pub fn render_document(value: &serde_json::Value, compact: bool) -> (r: Result<String, NonoError>)
    ensures
        error::outcome(r) == Ok::<Seq<char>, ErrorView>(
            document_text(json::json_text(*value), compact),
        ),
        r matches Ok(out) && is_rendering(out@, json::json_text(*value), compact),
{
    let written = if compact {
        json::compact_json(value)
    } else {
        json::pretty_json(value)
    };
    match written {
        Ok(s) => Ok(s),
        Err(e) => Err(serialization_failed(e.as_str())),
    }
}

/// Takes a single field out of a JSON document, formatted for a shell.
///
/// `field` is a top-level key or a JSON Pointer that starts with a slash. `compact` matters for
/// arrays and objects only; from either form they can be read back.
pub fn extract_field_output(value: &serde_json::Value, field: &str, compact: bool) -> (r: Result<
    String,
    NonoError,
>)
    ensures
        error::outcome(r) == field_output(json::json_text(*value), field@, compact),
        match (r, json::pointed_json(json::json_text(*value), field_pointer(field@))) {
            (Ok(out), Some(target)) => json::is_composite(target) ==> is_rendering(
                out@,
                target,
                compact,
            ),
            (Err(_), None) => true,
            _ => false,
        },
{
    let pointer = pointer_for(field);
    match json::find_pointer(value, pointer.as_str()) {
        None => Err(missing_field(field)),
        Some(target) => {
            let node = json::json_node(target);
            proof {
                let document = json::json_text(*target);
                reveal_strlit("null");
                reveal_strlit("true");
                reveal_strlit("false");
                if let JsonNode::Text(s) = &node {
                    json::law_quoting_loses_nothing(s@);
                } else if json::string_content(document) is Some {
                    json::law_strings_start_with_a_quote(document);
                }
            }
            match primitive_text(node) {
                Some(s) => Ok(s),
                None => render_document(target, compact),
            }
        },
    }
}

/// What is printed for a document: one field of it, or all of it.
pub open spec fn json_output(document: Seq<char>, field: Option<Seq<char>>, compact: bool) -> Result<
    Seq<char>,
    ErrorView,
> {
    match field {
        Some(f) => field_output(document, f, compact),
        None => Ok(document_text(document, compact)),
    }
}

/// Writes a document, or one field of it.
pub fn render_json(value: &serde_json::Value, field: &Option<String>, compact: bool) -> (r: Result<
    String,
    NonoError,
>)
    ensures
        error::outcome(r) == json_output(
            json::json_text(*value),
            text::opt_text(*field),
            compact,
        ),
{
    match field {
        Some(f) => extract_field_output(value, f.as_str(), compact),
        None => render_document(value, compact),
    }
}

/// Whether two outcomes are the same text, or both an error.
pub open spec fn same_outcome(
    a: Result<Seq<char>, ErrorView>,
    b: Result<Seq<char>, ErrorView>,
) -> bool {
    match (a, b) {
        (Ok(x), Ok(y)) => x == y,
        (Err(_), Err(_)) => true,
        _ => false,
    }
}

/// A top-level key finds what its JSON Pointer finds. A key without slashes and tildes stands in
/// its pointer as it is.
pub proof fn law_key_is_a_short_pointer(document: Seq<char>, key: Seq<char>, compact: bool)
    requires
        key.len() == 0 || key[0] != '/',
    ensures
        same_outcome(
            field_output(document, key, compact),
            field_output(document, json::pointer_to(key), compact),
        ),
        json::is_plain_key(key) ==> json::pointer_to(key) == seq!['/'] + key,
{
    assert(json::pointer_to(key)[0] == '/');
    if json::is_plain_key(key) {
        lemma_plain_token(key);
    }
}

proof fn lemma_plain_token(key: Seq<char>)
    requires
        json::is_plain_key(key),
    ensures
        json::pointer_token(key) == key,
    decreases key.len(),
{
    if key.len() > 0 {
        let init = key.drop_last();
        assert(key.contains(key.last()));
        assert(json::is_plain_key(init)) by {
            assert forall|c: char| init.contains(c) implies key.contains(c) by {
                assert(key[init.index_of(c)] == c);
            }
        }
        lemma_plain_token(init);
        assert(init + seq![key.last()] =~= key);
    } else {
        assert(json::pointer_token(key) =~= key);
    }
}

/// In a pointer a tilde is always followed by a digit.
proof fn lemma_token_ends(key: Seq<char>)
    requires
        key.len() > 0,
    ensures
        json::pointer_token(key).len() > 0,
        json::pointer_token(key).last() != '~',
{
}

proof fn lemma_tokens_differ(a: Seq<char>, b: Seq<char>)
    requires
        json::pointer_token(a) == json::pointer_token(b),
    ensures
        a == b,
    decreases a.len(),
{
    let t = json::pointer_token(a);
    if a.len() > 0 {
        lemma_token_ends(a);
    }
    if b.len() > 0 {
        lemma_token_ends(b);
    }
    if a.len() > 0 && b.len() > 0 {
        let (x, y) = (a.drop_last(), b.drop_last());
        let (p, q) = (json::pointer_token(x), json::pointer_token(y));
        if x.len() > 0 {
            lemma_token_ends(x);
        }
        if y.len() > 0 {
            lemma_token_ends(y);
        }
        let escaped_a = a.last() == '~' || a.last() == '/';
        let escaped_b = b.last() == '~' || b.last() == '/';
        assert(escaped_a ==> t[t.len() - 2] == '~');
        assert(escaped_b ==> t[t.len() - 2] == '~');
        assert(!escaped_a && p.len() > 0 ==> t[t.len() - 2] == p.last());
        assert(!escaped_b && q.len() > 0 ==> t[t.len() - 2] == q.last());
        assert(escaped_a == escaped_b);
        assert(a.last() == b.last());
        assert(p =~= t.take(p.len() as int));
        assert(q =~= t.take(q.len() as int));
        lemma_tokens_differ(x, y);
        assert(a =~= x.push(a.last()));
        assert(b =~= y.push(b.last()));
    } else {
        assert(a =~= b);
    }
}

/// Different top-level keys have different JSON Pointers.
pub proof fn law_keys_have_pointers_of_their_own(a: Seq<char>, b: Seq<char>)
    requires
        json::pointer_to(a) == json::pointer_to(b),
    ensures
        a == b,
{
    assert(json::pointer_token(a) =~= json::pointer_to(a).skip(1));
    assert(json::pointer_token(b) =~= json::pointer_to(b).skip(1));
    lemma_tokens_differ(a, b);
}

/// The compact form makes no difference to strings, numbers, booleans and null.
pub proof fn law_compact_matters_for_composites_only(document: Seq<char>)
    requires
        !json::is_composite(document),
    ensures
        shell_text(document, true) == shell_text(document, false),
{
}

/// A field is found or there is an error that names it; nothing is silently left empty.
pub proof fn law_missing_field_is_named(document: Seq<char>, field: Seq<char>, compact: bool)
    requires
        json::pointed_json(document, field_pointer(field)) is None,
        forall|i: int| 0 <= i < field.len() ==> is_word_char(#[trigger] field[i]),
    ensures
        field_output(document, field, compact) matches Err(ErrorView::ConfigParse(m))
            && text::has_substring(m, field),
{
    let m = missing_field_text(field);
    reveal_strlit("field ");
    let at: int = "field "@.len() + 1int;
    assert(m.subrange(at, at + field.len()) =~= field);
}

/// What is shown of a field: the string where it is one, the JSON text of any other document, laid
/// out on lines where that is an array or an object and no compact form is asked for.
pub proof fn law_fields_are_shown_for_a_shell(
    document: Seq<char>,
    field: Seq<char>,
    target: Seq<char>,
    content: Seq<char>,
    compact: bool,
)
    requires
        json::pointed_json(document, field_pointer(field)) == Some(target),
    ensures
        target == json::quoted_json(content) ==> field_output(document, field, compact) == Ok::<
            Seq<char>,
            ErrorView,
        >(content),
        target.len() > 0 && target[0] != '"' && target[0] != '[' && target[0] != '{'
            ==> field_output(document, field, compact) == Ok::<Seq<char>, ErrorView>(target),
        target.len() > 0 && (target[0] == '[' || target[0] == '{') ==> field_output(
            document,
            field,
            true,
        ) == Ok::<Seq<char>, ErrorView>(target) && field_output(document, field, false) == Ok::<
            Seq<char>,
            ErrorView,
        >(json::pretty_text(target)),
{
    if target == json::quoted_json(content) {
        json::law_quoting_loses_nothing(content);
    }
    if json::string_content(target) is Some {
        json::law_strings_start_with_a_quote(target);
    }
}

/// A field that is not there is an error that says so; a field that is there is none.
pub proof fn law_missing_fields_are_errors(document: Seq<char>, field: Seq<char>, compact: bool)
    ensures
        field_output(document, field, compact) is Err <==> json::pointed_json(
            document,
            field_pointer(field),
        ) is None,
        field.len() > 0 && field[0] == '/' ==> field_pointer(field) == field,
        field.len() == 0 || field[0] != '/' ==> field_pointer(field) == seq!['/']
            + json::pointer_token(field),
{
}

/// Without a field the whole document is written; with one that field alone.
pub proof fn law_fields_replace_the_document(
    document: Seq<char>,
    field: Seq<char>,
    compact: bool,
)
    ensures
        json_output(document, Some(field), compact) == field_output(document, field, compact),
        json_output(document, None, true) == Ok::<Seq<char>, ErrorView>(document),
        json_output(document, None, false) == Ok::<Seq<char>, ErrorView>(
            json::pretty_text(document),
        ),
{
}

/// A field whose name is made of letters, digits, underscores, dashes and slashes stands between
/// quotes in the error that it is missing.
pub proof fn law_missing_fields_are_quoted(field: Seq<char>)
    requires
        forall|i: int|
            0 <= i < field.len() ==> {
                ||| 97 <= (#[trigger] field[i]) as int <= 122
                ||| 65 <= field[i] as int <= 90
                ||| 48 <= field[i] as int <= 57
                ||| field[i] == '_'
                ||| field[i] == '-'
                ||| field[i] == '/'
            },
    ensures
        missing_field_text(field) == "field "@ + (seq!['"'] + field + seq!['"'])
            + " not found in JSON output (use a top-level key or a JSON-Pointer path like /security/groups/0)"@,
{
    assert forall|i: int| 0 <= i < field.len() implies is_word_char(#[trigger] field[i]) by {}
}

/// What is said of a document that cannot be written holds the reason.
pub proof fn law_failures_give_the_reason(reason: Seq<char>)
    ensures
        serialization_text(reason) == "JSON serialization failed: "@ + reason,
{
}

/// A rendering of a document holds nothing else than the document, on one line where it is compact,
/// and on several where it is not and there is something to lay out.
pub proof fn law_renderings_hold_the_document(out: Seq<char>, document: Seq<char>, compact: bool)
    requires
        is_rendering(out, document, compact),
    ensures
        json::without_blanks(out, false) == document,
        compact ==> !out.contains('\n'),
        json::reads_back(document) ==> json::parsed_json(out) == Ok::<Seq<char>, Seq<char>>(
            document,
        ),
        !compact && document.len() > 2 && (document[0] == '[' || document[0] == '{')
            ==> out.contains('\n'),
{
}

/// Two outcomes are the same where both are errors, or neither is and the texts are equal.
pub proof fn law_same_outcomes_agree(
    a: Result<Seq<char>, ErrorView>,
    b: Result<Seq<char>, ErrorView>,
)
    ensures
        same_outcome(a, b) <==> (a is Ok <==> b is Ok) && (a is Ok ==> a->Ok_0 == b->Ok_0),
{
}

} // verus!
