//! JSON objects as the tools read them: the fields of the outermost object.
//! What is nested in a field is kept as text.
use crate::text::{hex_digit, same_text};
use vstd::prelude::*;

verus! {

/// The value of a field.
#[derive(Debug, Clone, PartialEq, Eq)]
pub enum JsonField {
    Null,
    Bool(bool),
    /// A number, as it is printed.
    Number(String),
    Text(String),
    /// An array or an object: its compact JSON, and how it is shown in messages.
    Nested { compact: String, shown: String },
}

/// A JSON document, as far as the tools look at it.
#[derive(Debug, Clone, PartialEq, Eq)]
pub enum JsonDocument {
    Object(JsonObject),
    NotAnObject,
}

/// The fields of a JSON object.
#[derive(Debug, Clone, PartialEq, Eq)]
pub struct JsonObject {
    pub fields: Vec<(String, JsonField)>,
}

// ---------------------------------------------------------------------------
// Models
// ---------------------------------------------------------------------------

pub enum FieldModel {
    Null,
    Bool(bool),
    Number(Seq<char>),
    Text(Seq<char>),
    Nested(Seq<char>, Seq<char>),
}

impl View for JsonField {
    type V = FieldModel;

    open spec fn view(&self) -> FieldModel {
        match *self {
            JsonField::Null => FieldModel::Null,
            JsonField::Bool(b) => FieldModel::Bool(b),
            JsonField::Number(n) => FieldModel::Number(n@),
            JsonField::Text(t) => FieldModel::Text(t@),
            JsonField::Nested { compact, shown } => FieldModel::Nested(compact@, shown@),
        }
    }
}

impl View for JsonObject {
    type V = Seq<(Seq<char>, FieldModel)>;

    open spec fn view(&self) -> Seq<(Seq<char>, FieldModel)> {
        self.fields@.map_values(|f: (String, JsonField)| (f.0@, f.1@))
    }
}

/// The fields of a document, if it is an object.
pub open spec fn document_fields(d: JsonDocument) -> Option<Seq<(Seq<char>, FieldModel)>> {
    match d {
        JsonDocument::Object(o) => Some(o@),
        JsonDocument::NotAnObject => None,
    }
}

/// The first field with this name.
pub open spec fn field_named(s: Seq<(Seq<char>, FieldModel)>, name: Seq<char>) -> Option<FieldModel>
    decreases s.len(),
{
    if s.len() == 0 {
        None
    } else if s[0].0 == name {
        Some(s[0].1)
    } else {
        field_named(s.skip(1), name)
    }
}

/// The fields but those with this name.
pub open spec fn fields_without(s: Seq<(Seq<char>, FieldModel)>, name: Seq<char>) -> Seq<
    (Seq<char>, FieldModel),
> {
    s.filter(|f: (Seq<char>, FieldModel)| f.0 != name)
}

/// What `serde_json` reads from a text: the fields of an object, or that it is
/// something else, or the message of the error.
pub uninterp spec fn parsed_json(text: Seq<char>) -> Result<
    Option<Seq<(Seq<char>, FieldModel)>>,
    Seq<char>,
>;

/// The fields of a `serde_json` object, in the order of their names.
pub uninterp spec fn map_fields(map: serde_json::Map<String, serde_json::Value>) -> Seq<
    (Seq<char>, FieldModel),
>;

/// The compact text `serde_json` prints for an object with these fields.
pub uninterp spec fn json_text(fields: Seq<(Seq<char>, FieldModel)>) -> Seq<char>;

/// Whether the first field goes by the name under which `serde_json` writes JSON
/// that is to be taken as it stands: an object that begins with it is not read as
/// an object, but as the JSON in the text of that field.
pub open spec fn begins_raw(fields: Seq<(Seq<char>, FieldModel)>) -> bool {
    fields.len() > 0 && fields[0].0 == "$serde_json::private::RawValue"@
}

/// Whether a value that was printed may be read like this: a number comes back as
/// one, a text, a truth value and nothing as they were. A nested value may hold
/// raw JSON, so anything may come back for it.
pub open spec fn reads_as(value: FieldModel, read: FieldModel) -> bool {
    match value {
        FieldModel::Number(_) => read is Number,
        FieldModel::Nested(_, _) => true,
        _ => read == value,
    }
}

/// Whether, if anything is read, it is these fields.
pub open spec fn reads_back(
    doc: Result<Option<Seq<(Seq<char>, FieldModel)>>, Seq<char>>,
    fields: Seq<(Seq<char>, FieldModel)>,
) -> bool {
    doc is Ok ==> {
        &&& doc matches Ok(Some(read))
        &&& read.len() == fields.len()
        &&& forall|i: int|
            0 <= i < read.len() ==> (#[trigger] read[i]).0 == fields[i].0 && reads_as(
                fields[i].1,
                read[i].1,
            )
    }
}

// ---------------------------------------------------------------------------
// Outside calls
// ---------------------------------------------------------------------------

/// Trusted: the objects of `serde_json`. What one holds is `map_fields` of it.
#[verifier::external_type_specification]
#[verifier::external_body]
#[verifier::reject_recursive_types(K)]
#[verifier::reject_recursive_types(V)]
pub struct ExJsonMap<K, V>(serde_json::Map<K, V>);

/// Trusted: the values of `serde_json`.
#[verifier::external_type_specification]
#[verifier::external_body]
pub struct ExJsonValue(serde_json::Value);

/// Trusted: `serde_json::from_str` into a `Value`. What it reads, and the
/// message of its error, depend on the text alone.
#[verifier::external_body]
pub(crate) fn read_json(text: &str) -> (r: Result<
    Option<serde_json::Map<String, serde_json::Value>>,
    String,
>)
    ensures
        match r {
            Ok(Some(map)) => parsed_json(text@) == Ok::<_, Seq<char>>(Some(map_fields(map))),
            Ok(None) => parsed_json(text@) == Ok::<Option<Seq<(Seq<char>, FieldModel)>>, Seq<char>>(
                None,
            ),
            Err(e) => parsed_json(text@) == Err::<Option<Seq<(Seq<char>, FieldModel)>>, _>(e@),
        },
{
    match serde_json::from_str::<serde_json::Value>(text) {
        Ok(serde_json::Value::Object(map)) => Ok(Some(map)),
        Ok(_) => Ok(None),
        Err(e) => Err(e.to_string()),
    }
}

/// Trusted: `Map::iter` of `serde_json`, which gives every field once, in the
/// order of their names. Numbers, arrays and objects are kept as `Display` prints
/// them, the latter two also as `Debug` does.
#[verifier::external_body]
pub(crate) fn fields_of(map: &serde_json::Map<String, serde_json::Value>) -> (r: JsonObject)
    ensures
        r@ == map_fields(*map),
{
    JsonObject {
        fields: map.iter().map(|(name, value)| (name.clone(), match value {
            serde_json::Value::Null => JsonField::Null,
            serde_json::Value::Bool(b) => JsonField::Bool(*b),
            serde_json::Value::Number(n) => JsonField::Number(n.to_string()),
            serde_json::Value::String(s) => JsonField::Text(s.clone()),
            v => JsonField::Nested { compact: v.to_string(), shown: format!("{:?}", v) },
        })).collect(),
    }
}

/// Trusted: `Map::remove` of `serde_json`. The field with this name is gone, the
/// others stay in their order.
#[verifier::external_body]
pub(crate) fn remove_field(map: &mut serde_json::Map<String, serde_json::Value>, name: &str)
    ensures
        map_fields(*final(map)) == fields_without(map_fields(*old(map)), name@),
{
    map.remove(name);
}

/// Trusted: `Value::to_string` on a `serde_json` object. What it prints depends on
/// the fields alone. Where that can be read again, it is an object with the same
/// fields, unless the first one goes by the name of raw JSON: then what is read is
/// left unsaid. So is the value that is read for a number, as a fraction may come
/// back as its neighbour, and for what is nested.
#[verifier::external_body]
pub(crate) fn print_map(map: serde_json::Map<String, serde_json::Value>) -> (r: String)
    ensures
        r@ == json_text(map_fields(map)),
        !begins_raw(map_fields(map)) ==> reads_back(parsed_json(r@), map_fields(map)),
{
    serde_json::Value::Object(map).to_string()
}

/// A character as it stands in a JSON text.
pub open spec fn json_char(c: char) -> Seq<char> {
    if c == '"' || c == '\\' {
        seq!['\\', c]
    } else if c == '\u{8}' {
        seq!['\\', 'b']
    } else if c == '\t' {
        seq!['\\', 't']
    } else if c == '\n' {
        seq!['\\', 'n']
    } else if c == '\u{c}' {
        seq!['\\', 'f']
    } else if c == '\r' {
        seq!['\\', 'r']
    } else if (c as int) < 32 {
        seq!['\\', 'u', '0', '0', hex_digit(c as int / 16), hex_digit(c as int % 16)]
    } else {
        seq![c]
    }
}

pub open spec fn json_chars(text: Seq<char>) -> Seq<char>
    decreases text.len(),
{
    if text.len() == 0 {
        Seq::empty()
    } else {
        json_char(text[0]) + json_chars(text.skip(1))
    }
}

/// A text as JSON.
pub open spec fn json_quoted(text: Seq<char>) -> Seq<char> {
    seq!['"'] + json_chars(text) + seq!['"']
}

/// Trusted: `Value::to_string` on the `serde_json` string with this text. It prints
/// the text in quotes: a quote, a backslash and the control characters below the
/// space are escaped, all else stands as it is.
#[verifier::external_body]
pub(crate) fn quote_json(text: &str) -> (r: String)
    ensures
        r@ == json_quoted(text@),
{
    serde_json::Value::String(text.to_string()).to_string()
}

// ---------------------------------------------------------------------------
// Operations
// ---------------------------------------------------------------------------

/// What is read from a text, or the message of the error.
pub(crate) fn parse_json(text: &str) -> (r: Result<JsonDocument, String>)
    ensures
        match r {
            Ok(d) => parsed_json(text@) == Ok::<_, Seq<char>>(document_fields(d)),
            Err(e) => parsed_json(text@) == Err::<Option<Seq<(Seq<char>, FieldModel)>>, _>(e@),
        },
{
    match read_json(text) {
        Ok(Some(map)) => Ok(JsonDocument::Object(fields_of(&map))),
        Ok(None) => Ok(JsonDocument::NotAnObject),
        Err(e) => Err(e),
    }
}

impl JsonField {
    pub fn copy(&self) -> (r: JsonField)
        ensures
            r == *self,
    {
        match self {
            JsonField::Null => JsonField::Null,
            JsonField::Bool(b) => JsonField::Bool(*b),
            JsonField::Number(n) => JsonField::Number(n.clone()),
            JsonField::Text(t) => JsonField::Text(t.clone()),
            JsonField::Nested { compact, shown } => JsonField::Nested {
                compact: compact.clone(),
                shown: shown.clone(),
            },
        }
    }
}

impl JsonObject {
    /// The first field with this name.
    pub fn get(&self, name: &str) -> (r: Option<&JsonField>)
        ensures
            match r {
                Some(f) => field_named(self@, name@) == Some(f@),
                None => field_named(self@, name@) is None,
            },
    {
        let n: usize = self.fields.len();
        let mut i: usize = 0;
        assert(self@.skip(0) =~= self@);
        while i < n
            invariant
                n == self.fields@.len(),
                i <= n,
                field_named(self@, name@) == field_named(self@.skip(i as int), name@),
            decreases n - i,
        {
            assert(self@.skip(i as int).skip(1) =~= self@.skip(i + 1));
            assert(self@.skip(i as int)[0] == self@[i as int]);
            if same_text(self.fields[i].0.as_str(), name) {
                return Some(&self.fields[i].1);
            }
            i = i + 1;
        }
        None
    }
}

/// A field is the first one of its name.
pub proof fn law_first_fields_count(s: Seq<(Seq<char>, FieldModel)>, name: Seq<char>)
    ensures
        match field_named(s, name) {
            Some(f) => exists|i: int|
                0 <= i < s.len() && #[trigger] s[i] == (name, f) && forall|j: int|
                    0 <= j < i ==> (#[trigger] s[j]).0 != name,
            None => forall|i: int| 0 <= i < s.len() ==> (#[trigger] s[i]).0 != name,
        },
    decreases s.len(),
{
    if s.len() > 0 {
        let t = s.skip(1);
        law_first_fields_count(t, name);
        assert forall|i: int| 1 <= i < s.len() implies #[trigger] s[i] == t[i - 1] by {}
        if s[0].0 == name {
            assert(s[0] == (name, s[0].1));
        } else if field_named(s, name) is Some {
            let f = field_named(t, name)->0;
            let i = choose|i: int|
                0 <= i < t.len() && #[trigger] t[i] == (name, f) && forall|j: int|
                    0 <= j < i ==> (#[trigger] t[j]).0 != name;
            assert(s[i + 1] == (name, f));
            assert forall|j: int| 0 <= j < i + 1 implies (#[trigger] s[j]).0 != name by {
                if j > 0 {
                    assert(t[j - 1].0 != name);
                }
            }
        }
    }
}

} // verus!
