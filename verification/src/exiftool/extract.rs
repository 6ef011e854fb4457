//! Reading ExifTool's `-json` answer: the first object of the JSON array,
//! flattened into a map from `Namespace:Key` to the text of each field.
use vstd::prelude::*;
use crate::meta_map::MetadataMap;
use crate::text::{concat_str, has_prefix, same_text, starts_with, trim, trimmed};

verus! {

#[verifier::external_type_specification]
#[verifier::external_body]
pub struct ExJsonValue(serde_json::Value);

#[verifier::external_type_specification]
#[verifier::external_body]
pub struct ExJsonError(serde_json::Error);

/// A field of a JSON object, as the metadata logic needs it.
pub enum JsonField {
    Null,
    Bool(bool),
    /// A number, as serde_json writes it.
    Number(String),
    Text(String),
    /// An array or object, serialised back to JSON text (`None` if that
    /// failed).
    Nested(Option<String>),
}

/// The mathematical value of a `JsonField`.
pub enum JsonFieldView {
    Null,
    Bool(bool),
    Number(Seq<char>),
    Text(Seq<char>),
    Nested(Option<Seq<char>>),
}

impl View for JsonField {
    type V = JsonFieldView;

    open spec fn view(&self) -> JsonFieldView {
        match self {
            JsonField::Null => JsonFieldView::Null,
            JsonField::Bool(b) => JsonFieldView::Bool(*b),
            JsonField::Number(n) => JsonFieldView::Number(n@),
            JsonField::Text(s) => JsonFieldView::Text(s@),
            JsonField::Nested(o) => JsonFieldView::Nested(
                match o {
                    Some(t) => Some(t@),
                    None => None,
                },
            ),
        }
    }
}

/// One element of the top-level JSON array: the value itself, and its
/// fields when it is an object.
pub struct JsonItem {
    pub raw: serde_json::Value,
    pub fields: Option<Vec<(String, JsonField)>>,
}

/// The fields of an object, by their views.
pub open spec fn fields_view(f: Seq<(String, JsonField)>) -> Seq<(Seq<char>, JsonFieldView)> {
    f.map_values(|p: (String, JsonField)| (p.0@, p.1@))
}

/// The object fields of each array element, by their views.
pub open spec fn items_view(items: Seq<JsonItem>) -> Seq<Option<Seq<(Seq<char>, JsonFieldView)>>> {
    items.map_values(
        |it: JsonItem|
            match it.fields {
                Some(f) => Some(fields_view(f@)),
                None => None,
            },
    )
}

/// What serde_json reads from `text` taken as a JSON array: `None` if the
/// text is not one; otherwise, for each element in order, its fields (in
/// serde_json's map order) when it is an object.
pub uninterp spec fn json_array_items(text: Seq<char>) -> Option<Seq<Option<Seq<(Seq<char>, JsonFieldView)>>>>;

/// `serde_json::from_str::<Vec<serde_json::Value>>`: parses `text` as a JSON
/// array and splits each element into its fields. Its result is named
/// `json_array_items`; numbers keep serde_json's text, nested arrays and
/// objects are serialised back with `serde_json::to_string`.
#[verifier::external_body]
fn parse_json_array(text: &str) -> (r: Result<Vec<JsonItem>, serde_json::Error>)
    ensures
        r is Ok <==> json_array_items(text@) is Some,
        r matches Ok(items) ==> json_array_items(text@) == Some(items_view(items@)),
{
    let values: Vec<serde_json::Value> = serde_json::from_str(text)?;
    Ok(values.into_iter().map(|raw| {
        let fields = raw.as_object().map(|m| m.iter().map(|(k, v)| (k.clone(), match v {
            serde_json::Value::Null => JsonField::Null,
            serde_json::Value::Bool(b) => JsonField::Bool(*b),
            serde_json::Value::Number(n) => JsonField::Number(n.to_string()),
            serde_json::Value::String(s) => JsonField::Text(s.clone()),
            _ => JsonField::Nested(serde_json::to_string(v).ok()),
        })).collect());
        JsonItem { raw, fields }
    }).collect())
}

/// The `Display` text of a serde_json error (what went wrong, with line and
/// column); nothing is stated of it.
#[verifier::external_body]
fn json_error_text(e: &serde_json::Error) -> String {
    format!("{e}")
}

/// The text that a field contributes to the metadata map: none for `null`
/// and for ExifTool's binary-data placeholders, the JSON text for nested
/// values.
pub open spec fn field_text(f: JsonFieldView) -> Option<Seq<char>> {
    match f {
        JsonFieldView::Null => None,
        JsonFieldView::Bool(b) => Some(
            if b {
                "true"@
            } else {
                "false"@
            },
        ),
        JsonFieldView::Number(t) => Some(t),
        JsonFieldView::Text(s) => if starts_with(s, "(Binary data"@) {
            None
        } else {
            Some(s)
        },
        JsonFieldView::Nested(o) => o,
    }
}

/// The metadata map built from an object's fields, in order, leaving out
/// ExifTool's synthetic `SourceFile` key.
pub open spec fn tags_of(fields: Seq<(Seq<char>, JsonFieldView)>) -> Map<Seq<char>, Option<Seq<char>>>
    decreases fields.len(),
{
    if fields.len() == 0 {
        Map::empty()
    } else {
        let m = tags_of(fields.drop_last());
        let kv = fields.last();
        if kv.0 == "SourceFile"@ {
            m
        } else {
            m.insert(kv.0, field_text(kv.1))
        }
    }
}

/// ExifTool's synthetic `SourceFile` key never becomes a tag, and a field
/// present in the object (under another key) always does.
pub proof fn lemma_source_file_never_a_tag(fields: Seq<(Seq<char>, JsonFieldView)>)
    ensures
        !tags_of(fields).contains_key("SourceFile"@),
        forall|i: int|
            0 <= i < fields.len() && (#[trigger] fields[i]).0 != "SourceFile"@ ==> tags_of(
                fields,
            ).contains_key(fields[i].0),
    decreases fields.len(),
{
    if fields.len() > 0 {
        let front = fields.drop_last();
        lemma_source_file_never_a_tag(front);
        assert forall|i: int|
            0 <= i < fields.len() && (#[trigger] fields[i]).0 != "SourceFile"@ implies tags_of(
                fields,
            ).contains_key(fields[i].0) by {
            if i < front.len() {
                assert(front[i] == fields[i]);
            }
        }
    }
}

/// A string field that starts with ExifTool's binary-data placeholder never
/// becomes text.
pub proof fn lemma_binary_placeholder_has_no_text(s: Seq<char>)
    requires
        starts_with(s, "(Binary data"@),
    ensures
        field_text(JsonFieldView::Text(s)) is None,
{
}

/// The text a field contributes: none for `null`; `true` or `false` for a
/// boolean; a number's JSON text; a string as it is unless it begins with
/// ExifTool's `(Binary data` placeholder, in which case none; and the JSON
/// text of a nested value.
pub proof fn lemma_field_text_cases(f: JsonFieldView)
    ensures
        f is Null ==> field_text(f) is None,
        f == JsonFieldView::Bool(true) ==> field_text(f) == Some("true"@),
        f == JsonFieldView::Bool(false) ==> field_text(f) == Some("false"@),
        f matches JsonFieldView::Number(t) ==> field_text(f) == Some(t),
        f matches JsonFieldView::Text(s) ==> (field_text(f) == if "(Binary data"@.is_prefix_of(s) {
            None
        } else {
            Some(s)
        }),
        f matches JsonFieldView::Nested(o) ==> field_text(f) == o,
{
    if let JsonFieldView::Text(s) = f {
        let b = "(Binary data"@;
        assert(b.is_prefix_of(s) == starts_with(s, b)) by {
            if b.is_prefix_of(s) {
                assert(s.subrange(0, b.len() as int) =~= b);
            }
            if starts_with(s, b) {
                assert forall|i: int| 0 <= i < b.len() implies b[i] == s[i] by {
                    assert(s.subrange(0, b.len() as int)[i] == s[i]);
                }
            }
        }
    }
}

/// Each key of an object other than `SourceFile` is a tag whose value is
/// the text of its last field under that key.
pub proof fn lemma_tag_value_is_last_field(fields: Seq<(Seq<char>, JsonFieldView)>, i: int)
    requires
        0 <= i < fields.len(),
        fields[i].0 != "SourceFile"@,
        forall|j: int| i < j < fields.len() ==> (#[trigger] fields[j]).0 != fields[i].0,
    ensures
        tags_of(fields).contains_key(fields[i].0),
        tags_of(fields)[fields[i].0] == field_text(fields[i].1),
    decreases fields.len(),
{
    if i < fields.len() - 1 {
        let front = fields.drop_last();
        assert forall|j: int| i < j < front.len() implies (#[trigger] front[j]).0 != front[i].0 by {
            assert(front[j] == fields[j]);
        }
        lemma_tag_value_is_last_field(front, i);
        assert(fields.last() == fields[fields.len() - 1]);
    }
}

/// The fields of the first array element, none if it is not an object.
pub open spec fn first_fields(items: Seq<Option<Seq<(Seq<char>, JsonFieldView)>>>) -> Seq<(Seq<char>, JsonFieldView)> {
    match items[0] {
        Some(f) => f,
        None => Seq::empty(),
    }
}

/// Convert a JSON field to its optional text.
fn value_to_string(val: &JsonField) -> (r: Option<String>)
    ensures
        match r {
            Some(s) => field_text(val@) == Some(s@),
            None => field_text(val@) is None,
        },
{
    match val {
        JsonField::Null => None,
        JsonField::Bool(b) => {
            let t = if *b {
                "true".to_owned()
            } else {
                "false".to_owned()
            };
            Some(t)
        },
        JsonField::Number(n) => Some(n.clone()),
        JsonField::Text(s) => {
            if has_prefix(s.as_str(), "(Binary data") {
                None
            } else {
                Some(s.clone())
            }
        },
        JsonField::Nested(o) => match o {
            Some(t) => Some(t.clone()),
            None => None,
        },
    }
}

/// Parsed metadata for a single file.
pub struct ExifData {
    pub path: String,
    pub tags: MetadataMap,
    /// Original JSON value for consumers that need the raw structure.
    pub raw: serde_json::Value,
}

/// The `ExifData` of `path` built from the parsed elements of ExifTool's
/// JSON array: the first element is used, its object fields become the
/// tags (`SourceFile` left out) and it is kept whole as the raw value; an
/// empty array is an error.
pub fn exif_data_from_items(items: Vec<JsonItem>, path: &str) -> (r: Result<ExifData, String>)
    ensures
        r is Ok <==> items.len() > 0,
        r matches Ok(d) ==> {
            &&& d.path@ == path@
            &&& d.tags@ == tags_of(first_fields(items_view(items@)))
            &&& d.raw == items@[0].raw
        },
        r matches Err(m) ==> m@ == "ExifTool returned empty array"@,
{
    let ghost parsed = items_view(items@);
    if items.len() == 0 {
        let m = "ExifTool returned empty array".to_owned();
        return Err(m);
    }
    let mut items = items;
    let first = items.remove(0);
    let mut tags = MetadataMap::new();
    let ghost fields = first_fields(parsed);
    match &first.fields {
        Some(f) => {
            assert(fields == fields_view(f@));
            let mut i: usize = 0;
            while i < f.len()
                invariant
                    i <= f.len(),
                    fields == fields_view(f@),
                    tags@ == tags_of(fields.take(i as int)),
                decreases f.len() - i,
            {
                let ghost front = fields.take(i as int);
                assert(fields.take(i + 1).drop_last() =~= front);
                assert(fields.take(i + 1).last() == (f@[i as int].0@, f@[i as int].1@));
                let key = &f[i].0;
                if !same_text(key.as_str(), "SourceFile") {
                    let v = value_to_string(&f[i].1);
                    tags.insert(key.clone(), v);
                }
                i = i + 1;
            }
            assert(fields.take(i as int) =~= fields);
        },
        None => {
            assert(fields =~= Seq::<(Seq<char>, JsonFieldView)>::empty());
        },
    }
    let p = path.to_owned();
    Ok(ExifData { path: p, tags, raw: first.raw })
}

/// Parse the JSON text returned by ExifTool `-json` into an `ExifData`.
///
/// ExifTool returns a JSON array; its first element is used. Each key is
/// already namespace-qualified (e.g. `"EXIF:Make"`).
pub fn parse_exiftool_json(json_text: &str, path: &str) -> (r: Result<ExifData, String>)
    ensures
        ({
            let parsed = json_array_items(trimmed(json_text@));
            &&& r is Ok <==> (parsed is Some && parsed->0.len() > 0)
            &&& r matches Ok(d) ==> d.path@ == path@ && d.tags@ == tags_of(first_fields(parsed->0))
            &&& (parsed is Some && parsed->0.len() == 0) ==> (r matches Err(m) && m@
                == "ExifTool returned empty array"@)
            &&& parsed is None ==> (r matches Err(m) && starts_with(m@, "JSON parse error: "@))
        }),
{
    let text = trim(json_text);
    match parse_json_array(text.as_str()) {
        Ok(items) => exif_data_from_items(items, path),
        Err(e) => {
            let detail = json_error_text(&e);
            let m = concat_str("JSON parse error: ", detail.as_str());
            assert(m@.subrange(0, "JSON parse error: "@.len() as int) =~= "JSON parse error: "@);
            Err(m)
        },
    }
}

} // verus!
