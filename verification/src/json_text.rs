//! JSON objects as texts, by the crate `serde_json`.

use crate::text::signed_decimal;
use crate::uuid_text::hex_char;
use vstd::prelude::*;

verus! {

/// A character as it stands in a JSON string.
pub open spec fn json_char(c: char) -> Seq<char> {
    if c == '"' {
        seq!['\\', '"']
    } else if c == '\\' {
        seq!['\\', '\\']
    } else if c == '\u{8}' {
        seq!['\\', 'b']
    } else if c == '\t' {
        seq!['\\', 't']
    } else if c == '\n' {
        seq!['\\', 'n']
    } else if c == '\u{c}' {
        seq!['\\', 'f']
    } else if c == '\r' {
        seq!['\\', 'r']
    } else if c as nat <= 0x1f {
        seq!['\\', 'u', '0', '0', hex_char(c as nat / 16), hex_char(c as nat % 16)]
    } else {
        seq![c]
    }
}

/// The characters of a JSON string, without the quotes around it.
pub open spec fn json_chars(s: Seq<char>) -> Seq<char>
    decreases s.len(),
{
    if s.len() == 0 {
        Seq::empty()
    } else {
        json_chars(s.drop_last()) + json_char(s.last())
    }
}

/// A JSON string.
pub open spec fn json_string(s: Seq<char>) -> Seq<char> {
    seq!['"'] + json_chars(s) + seq!['"']
}

/// The members of a JSON object, each a name and the JSON text of its value.
pub open spec fn json_members(members: Seq<(Seq<char>, Seq<char>)>) -> Seq<char>
    decreases members.len(),
{
    if members.len() == 0 {
        Seq::empty()
    } else {
        let rest = json_members(members.drop_last());
        let (name, value) = members.last();
        let member = json_string(name) + seq![':'] + value;
        if members.len() == 1 {
            member
        } else {
            rest + seq![','] + member
        }
    }
}

/// A JSON object, without white space.
pub open spec fn json_object(members: Seq<(Seq<char>, Seq<char>)>) -> Seq<char> {
    seq!['{'] + json_members(members) + seq!['}']
}

/// A value in an object.
pub enum JsonValue {
    Text(String),
    Number(i64),
}

/// What a [`JsonValue`] says.
#[verifier::ext_equal]
pub enum JsonValueView {
    Text(Seq<char>),
    Number(i64),
}

impl View for JsonValue {
    type V = JsonValueView;

    open spec fn view(&self) -> JsonValueView {
        match *self {
            JsonValue::Text(t) => JsonValueView::Text(t@),
            JsonValue::Number(n) => JsonValueView::Number(n),
        }
    }
}

/// The JSON text of a value.
pub open spec fn json_value(v: JsonValueView) -> Seq<char> {
    match v {
        JsonValueView::Text(t) => json_string(t),
        JsonValueView::Number(n) => signed_decimal(n as int),
    }
}

/// The members that hold the given values.
pub open spec fn members_of(fields: Seq<(Seq<char>, JsonValueView)>) -> Seq<
    (Seq<char>, Seq<char>),
> {
    fields.map_values(|f: (Seq<char>, JsonValueView)| (f.0, json_value(f.1)))
}

/// The names of the given values.
pub open spec fn names_of(fields: Seq<(Seq<char>, JsonValueView)>) -> Seq<Seq<char>> {
    fields.map_values(|f: (Seq<char>, JsonValueView)| f.0)
}

/// The two texts agree up to `k`, and there the first one ends or has the lesser character.
pub open spec fn less_at(a: Seq<char>, b: Seq<char>, k: int) -> bool {
    &&& 0 <= k <= a.len()
    &&& k < b.len()
    &&& a.take(k) =~= b.take(k)
    &&& k == a.len() || a[k] < b[k]
}

/// `a` comes before `b` in the order of their characters.
pub open spec fn text_before(a: Seq<char>, b: Seq<char>) -> bool {
    exists|k: int| less_at(a, b, k)
}

/// Each name comes before the next one.
pub open spec fn ascending(names: Seq<Seq<char>>) -> bool {
    forall|i: int| 0 <= i < names.len() - 1 ==> text_before(#[trigger] names[i], names[i + 1])
}

/// What names and values say.
pub open spec fn fields_view(fields: Seq<(&'static str, JsonValue)>) -> Seq<
    (Seq<char>, JsonValueView),
> {
    fields.map_values(|f: (&'static str, JsonValue)| (f.0@, f.1@))
}

/// `Value::to_string` of an object: its compact JSON text, with the members in the order of their
/// names, which is the order in which they are given.
#[verifier::external_body]
pub(crate) fn object_text(fields: Vec<(&'static str, JsonValue)>) -> (t: String)
    requires
        ascending(names_of(fields_view(fields@))),
    ensures
        t@ == json_object(members_of(fields_view(fields@))),
{
    let values = fields.into_iter().map(|(k, v)| match v {
        JsonValue::Text(t) => (k.to_owned(), serde_json::Value::from(t)),
        JsonValue::Number(n) => (k.to_owned(), serde_json::Value::from(n)),
    });
    serde_json::Value::Object(values.collect()).to_string()
}

proof fn lemma_json_chars_len(s: Seq<char>)
    ensures
        json_chars(s).len() <= 6 * s.len(),
    decreases s.len(),
{
    if s.len() > 0 {
        lemma_json_chars_len(s.drop_last());
    }
}

/// How long the members of an object of texts can be, by how long the names and texts are.
pub proof fn lemma_members_len(fields: Seq<(Seq<char>, JsonValueView)>, name: nat, value: nat)
    requires
        forall|i: int|
            0 <= i < fields.len() ==> (#[trigger] fields[i]).0.len() <= name && (fields[i].1 matches
                JsonValueView::Text(t) && t.len() <= value),
    ensures
        json_members(members_of(fields)).len() <= fields.len() * (6 * name + 6 * value + 6),
    decreases fields.len(),
{
    if fields.len() > 0 {
        let members = members_of(fields);
        assert(members.drop_last() == members_of(fields.drop_last()));
        lemma_members_len(fields.drop_last(), name, value);
        lemma_json_chars_len(fields.last().0);
        lemma_json_chars_len(fields.last().1->Text_0);
        assert(fields.len() * (6 * name + 6 * value + 6) == (fields.len() - 1) * (6 * name + 6
            * value + 6) + (6 * name + 6 * value + 6)) by (nonlinear_arith);
    }
}

} // verus!
