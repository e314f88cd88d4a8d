//! The structured format: all annotations as one JSON document.
//!
//! The document is an array with one object for each annotation, in the
//! order in which they were handed in. An object has the passage, the note
//! if there is one, the time and the book's title. A missing passage is
//! written as `null`; a missing note is not written at all. Texts are
//! encoded by `serde_json`, the time by `chrono` through it.

use vstd::prelude::*;
use vstd::string::*;

use crate::annotation::{Annotation, AnnotationView};
use crate::epoch::representable;

verus! {

/// `serde_json::Error`: why a value could not be written as JSON.
#[verifier::external_type_specification]
#[verifier::external_body]
pub struct ExJsonError(serde_json::Error);

/// The JSON string that `serde_json::to_string` writes for the text `text`:
/// the text between double quotes, with the characters escaped that JSON
/// does not take as they are.
pub uninterp spec fn json_string_text(text: Seq<char>) -> Seq<char>;

/// The JSON string that `serde_json::to_string` writes for the instant
/// `unix_seconds` seconds after the Unix epoch in UTC, such as
/// `"2001-01-01T00:00:00Z"`.
pub uninterp spec fn json_instant_text(unix_seconds: int) -> Seq<char>;

/// Calls `serde_json::to_string` on a text. Trusted: the call succeeds, since
/// writing a text into memory has nothing that fails, and what it writes
/// depends on the text alone.
#[verifier::external_body]
pub(crate) fn encode_string(text: &str) -> (r: Result<String, serde_json::Error>)
    ensures
        r is Ok,
        r matches Ok(json) ==> json@ == json_string_text(text@),
{
    serde_json::to_string(text)
}

/// Calls `serde_json::to_string` on the instant made by
/// `chrono::DateTime::from_timestamp`. Trusted: the call succeeds for every
/// representable instant, since `chrono` writes such an instant as RFC 3339
/// text without failing, and what it writes depends on the seconds alone.
#[verifier::external_body]
pub(crate) fn encode_instant(unix_seconds: i64) -> (r: Result<String, serde_json::Error>)
    requires
        representable(unix_seconds as int),
    ensures
        r is Ok,
        r matches Ok(json) ==> json@ == json_instant_text(unix_seconds as int),
{
    serde_json::to_string(&chrono::DateTime::from_timestamp(unix_seconds, 0).unwrap())
}

/// The fields of the object of `a`, each with its name and its value as
/// JSON, in the order in which they are written.
pub open spec fn record_fields(a: AnnotationView) -> Seq<(Seq<char>, Seq<char>)> {
    let selected_text = (
        "selected_text"@,
        match a.selected_text {
            Some(text) => json_string_text(text),
            None => "null"@,
        },
    );
    let annotation_time = ("annotation_time"@, json_instant_text(a.annotation_time));
    let book_title = ("book_title"@, json_string_text(a.book_title));
    match a.note {
        Some(note) => seq![
            selected_text,
            ("note"@, json_string_text(note)),
            annotation_time,
            book_title,
        ],
        None => seq![selected_text, annotation_time, book_title],
    }
}

/// A field as it stands in an object: its name in quotes, a colon, its value.
pub open spec fn member_text(field: (Seq<char>, Seq<char>)) -> Seq<char> {
    "\""@ + field.0 + "\":"@ + field.1
}

/// The items, with a comma between each two.
pub open spec fn comma_separated(items: Seq<Seq<char>>) -> Seq<char>
    decreases items.len(),
{
    if items.len() == 0 {
        Seq::empty()
    } else if items.len() == 1 {
        items[0]
    } else {
        comma_separated(items.drop_last()) + ","@ + items.last()
    }
}

/// The JSON object with the fields `fields`.
pub open spec fn object_text(fields: Seq<(Seq<char>, Seq<char>)>) -> Seq<char> {
    "{"@ + comma_separated(fields.map_values(|f: (Seq<char>, Seq<char>)| member_text(f))) + "}"@
}

/// The JSON object of the annotation `a`.
pub open spec fn record_text(a: AnnotationView) -> Seq<char> {
    object_text(record_fields(a))
}

/// The JSON document of `annotations`: the array of their objects.
pub open spec fn structured(annotations: Seq<AnnotationView>) -> Seq<char> {
    "["@ + comma_separated(annotations.map_values(|a: AnnotationView| record_text(a))) + "]"@
}

/// An annotation without a note has no field `note`; one with a note has the
/// field `note`, whose value is the note as a JSON string.
pub proof fn lemma_note_field(a: AnnotationView)
    ensures
        a.note is None ==> forall|i: int|
            0 <= i < record_fields(a).len() ==> (#[trigger] record_fields(a)[i]).0 != "note"@,
        a.note matches Some(note) ==> record_fields(a).contains(("note"@, json_string_text(note))),
{
    reveal_strlit("note");
    reveal_strlit("selected_text");
    reveal_strlit("annotation_time");
    reveal_strlit("book_title");
    match a.note {
        Some(note) => {
            assert(record_fields(a)[1] == ("note"@, json_string_text(note)));
        },
        None => {
            assert forall|i: int| 0 <= i < record_fields(a).len() implies (#[trigger] record_fields(
                a,
            )[i]).0 != "note"@ by {
                assert(record_fields(a)[i].0.len() != "note"@.len());
            }
        },
    }
}

/// The names and values of `fields` as sequences of characters.
pub open spec fn fields_view(fields: Seq<(String, String)>) -> Seq<(Seq<char>, Seq<char>)> {
    fields.map_values(|f: (String, String)| (f.0@, f.1@))
}

/// Joins `items` with a comma between each two.
pub fn join_with_commas(items: &Vec<String>) -> (out: String)
    ensures
        out@ == comma_separated(items.deep_view()),
{
    let ghost all = items.deep_view();
    let mut out = String::new();
    let mut i: usize = 0;
    while i < items.len()
        invariant
            i <= items.len(),
            all == items.deep_view(),
            out@ == comma_separated(all.take(i as int)),
        decreases items.len() - i,
    {
        proof {
            assert(all.take(i + 1).drop_last() =~= all.take(i as int));
            assert(all.take(i + 1).last() == items[i as int]@);
        }
        if i > 0 {
            out.append(",");
        }
        out.append(items[i].as_str());
        proof {
            if i == 0 {
                assert(out@ =~= items[0]@);
            }
        }
        i += 1;
    }
    proof {
        assert(all.take(items.len() as int) =~= all);
    }
    out
}

/// Makes a JSON object of fields whose values are JSON already.
pub fn frame_object(fields: &Vec<(String, String)>) -> (out: String)
    ensures
        out@ == object_text(fields_view(fields@)),
{
    let ghost member = |f: (Seq<char>, Seq<char>)| member_text(f);
    let ghost all = fields_view(fields@);
    let mut members: Vec<String> = Vec::new();
    let mut i: usize = 0;
    while i < fields.len()
        invariant
            i <= fields.len(),
            all == fields_view(fields@),
            member == |f: (Seq<char>, Seq<char>)| member_text(f),
            members.deep_view() =~= all.take(i as int).map_values(member),
        decreases fields.len() - i,
    {
        let mut text = String::new();
        text.append("\"");
        text.append(fields[i].0.as_str());
        text.append("\":");
        text.append(fields[i].1.as_str());
        proof {
            assert(all[i as int] == (fields[i as int].0@, fields[i as int].1@));
            assert(text@ =~= member_text(all[i as int]));
        }
        let ghost before = members.deep_view();
        members.push(text);
        proof {
            assert(members.deep_view() =~= before.push(member_text(all[i as int])));
            assert(all.take(i + 1) =~= all.take(i as int).push(all[i as int]));
        }
        i += 1;
    }
    proof {
        assert(all.take(fields.len() as int) =~= all);
    }
    let mut out = String::new();
    out.append("{");
    out.append(join_with_commas(&members).as_str());
    out.append("}");
    out
}

/// The fields of the object of `a`, each with its name and its value as JSON.
pub fn fields_of(a: &Annotation) -> (fields: Vec<(String, String)>)
    ensures
        fields_view(fields@) == record_fields(a@),
{
    let mut fields: Vec<(String, String)> = Vec::new();
    let selected_text = match &a.selected_text {
        Some(text) => encode_string(text.as_str()).unwrap(),
        None => "null".to_owned(),
    };
    fields.push(("selected_text".to_owned(), selected_text));
    match &a.note {
        Some(note) => {
            fields.push(("note".to_owned(), encode_string(note.as_str()).unwrap()));
        },
        None => {},
    }
    let annotation_time = encode_instant(a.annotation_time.unix_seconds()).unwrap();
    fields.push(("annotation_time".to_owned(), annotation_time));
    fields.push(("book_title".to_owned(), encode_string(a.book_title.as_str()).unwrap()));
    proof {
        assert(fields_view(fields@) =~= record_fields(a@));
    }
    fields
}

/// Renders `annotations` as one JSON document: an array of objects, one for
/// each annotation, in their order. The field `note` is left out of the
/// object of an annotation that has no note.
pub fn render_structured(annotations: &Vec<Annotation>) -> (out: String)
    ensures
        out@ == structured(annotations.deep_view()),
{
    let ghost record = |a: AnnotationView| record_text(a);
    let ghost all = annotations.deep_view();
    let mut records: Vec<String> = Vec::new();
    let mut i: usize = 0;
    while i < annotations.len()
        invariant
            i <= annotations.len(),
            all == annotations.deep_view(),
            record == |a: AnnotationView| record_text(a),
            records.deep_view() =~= all.take(i as int).map_values(record),
        decreases annotations.len() - i,
    {
        let fields = fields_of(&annotations[i]);
        let text = frame_object(&fields);
        proof {
            assert(all[i as int] == annotations[i as int]@);
            assert(text@ == record_text(all[i as int]));
        }
        let ghost before = records.deep_view();
        records.push(text);
        proof {
            assert(records.deep_view() =~= before.push(record_text(all[i as int])));
            assert(all.take(i + 1) =~= all.take(i as int).push(all[i as int]));
        }
        i += 1;
    }
    proof {
        assert(all.take(annotations.len() as int) =~= all);
    }
    let mut out = String::new();
    out.append("[");
    out.append(join_with_commas(&records).as_str());
    out.append("]");
    out
}

} // verus!
