//! JSON values and the task-list document shape.
//!
//! Parsing JSON text is delegated to `serde_json`; the parsed tree is carried
//! over into [`JsonValue`], a plain datatype of this library, and everything
//! that interprets the tree as a task list is verified here.

use vstd::prelude::*;
use vstd::string::*;
use crate::task_list::{Feature, FeatureModel, LoadError, Status, TaskList, TaskListModel};

verus! {

/// Declares `serde_json::Value`, the parsed JSON tree; it appears only in
/// the conversion into [`JsonValue`].
#[verifier::external_type_specification]
#[verifier::external_body]
pub struct ExSerdeValue(serde_json::Value);

/// Declares `serde_json::Number`, carried opaquely inside [`JsonValue`];
/// nothing here reads it.
#[verifier::external_type_specification]
#[verifier::external_body]
pub struct ExSerdeNumber(serde_json::Number);

/// Declares `serde_json::Error`, the parse error; it is mapped to
/// [`LoadError::Malformed`] and never inspected.
#[verifier::external_type_specification]
#[verifier::external_body]
pub struct ExSerdeError(serde_json::Error);

/// A JSON document, one variant per JSON value kind.  Numbers are carried
/// opaquely: no part of the task-list shape reads one.
pub enum JsonValue {
    Null,
    Bool(bool),
    Num(serde_json::Number),
    Str(String),
    Arr(Vec<JsonValue>),
    Obj(Vec<(String, JsonValue)>),
}

/// What `serde_json::from_str` makes of a text: `None` when the text is not
/// valid JSON, otherwise the parsed document.  Parsing depends on the text
/// alone.
pub uninterp spec fn json_parse(s: Seq<char>) -> Option<JsonValue>;

/// Relies on `serde_json::Value`: carries each variant of the parsed tree
/// over into the same-shaped variant of `JsonValue`, moving the fields.
#[verifier::external_body]
fn value_to_json(v: serde_json::Value) -> JsonValue {
    match v {
        serde_json::Value::Null => JsonValue::Null,
        serde_json::Value::Bool(b) => JsonValue::Bool(b),
        serde_json::Value::Number(n) => JsonValue::Num(n),
        serde_json::Value::String(s) => JsonValue::Str(s),
        serde_json::Value::Array(items) => JsonValue::Arr(
            items.into_iter().map(value_to_json).collect(),
        ),
        serde_json::Value::Object(entries) => JsonValue::Obj(
            entries.into_iter().map(|e| (e.0, value_to_json(e.1))).collect(),
        ),
    }
}

/// Relies on `serde_json::from_str`: succeeds exactly on valid JSON text, and
/// what it returns depends on the text alone.
#[verifier::external_body]
fn parse_json_text(s: &str) -> (r: Result<JsonValue, serde_json::Error>)
    ensures
        (r matches Ok(v) ==> json_parse(s@) == Option::Some(v)),
        r is Err ==> json_parse(s@) is None,
{
    match serde_json::from_str::<serde_json::Value>(s) {
        Ok(v) => Ok(value_to_json(v)),
        Err(e) => Err(e),
    }
}

/// First entry of `entries` whose key is `key`, if any.
pub open spec fn obj_lookup(entries: Seq<(String, JsonValue)>, key: Seq<char>) -> Option<JsonValue>
    decreases entries.len(),
{
    if entries.len() == 0 {
        Option::None
    } else if entries[0].0@ == key {
        Option::Some(entries[0].1)
    } else {
        obj_lookup(entries.drop_first(), key)
    }
}

/// The characters of a JSON string value, if the value is one.
pub open spec fn json_str_of(o: Option<JsonValue>) -> Option<Seq<char>> {
    match o {
        Option::Some(JsonValue::Str(s)) => Option::Some(s@),
        _ => Option::None,
    }
}

/// The status named by a task-list status string, if it names one.
pub open spec fn spec_status_of(s: Seq<char>) -> Option<Status> {
    if s == "pending"@ {
        Option::Some(Status::Pending)
    } else if s == "inprogress"@ {
        Option::Some(Status::InProgress)
    } else if s == "failing"@ {
        Option::Some(Status::Failing)
    } else if s == "passing"@ {
        Option::Some(Status::Passing)
    } else {
        Option::None
    }
}

/// The strings of a JSON array, provided every element is a string.
pub open spec fn string_items(items: Seq<JsonValue>) -> Option<Seq<Seq<char>>>
    decreases items.len(),
{
    if items.len() == 0 {
        Option::Some(Seq::empty())
    } else {
        match (string_items(items.drop_last()), items.last()) {
            (Option::Some(rest), JsonValue::Str(s)) => Option::Some(rest.push(s@)),
            _ => Option::None,
        }
    }
}

/// The feature a JSON value describes, if it is a well-shaped feature object:
/// string `id`; string title under `title` or, failing that, `name`;
/// optional string `description` (default empty); a known `status` string;
/// optional all-string array `acceptance_criteria` (default empty).
pub open spec fn spec_feature_of(j: JsonValue) -> Option<FeatureModel> {
    match j {
        JsonValue::Obj(entries) => {
            let id = json_str_of(obj_lookup(entries@, "id"@));
            let title = if obj_lookup(entries@, "title"@) is Some {
                json_str_of(obj_lookup(entries@, "title"@))
            } else {
                json_str_of(obj_lookup(entries@, "name"@))
            };
            let description = match obj_lookup(entries@, "description"@) {
                Option::None => Option::Some(Seq::<char>::empty()),
                o => json_str_of(o),
            };
            let status = match json_str_of(obj_lookup(entries@, "status"@)) {
                Option::Some(s) => spec_status_of(s),
                Option::None => Option::None,
            };
            let criteria = match obj_lookup(entries@, "acceptance_criteria"@) {
                Option::None => Option::Some(Seq::<Seq<char>>::empty()),
                Option::Some(JsonValue::Arr(items)) => string_items(items@),
                Option::Some(_) => Option::None,
            };
            if id is Some && title is Some && description is Some && status is Some
                && criteria is Some {
                Option::Some(FeatureModel {
                    id: id.unwrap(),
                    title: title.unwrap(),
                    description: description.unwrap(),
                    status: status.unwrap(),
                    acceptance_criteria: criteria.unwrap(),
                })
            } else {
                Option::None
            }
        },
        _ => Option::None,
    }
}

/// The features of a JSON array, provided every element is a well-shaped
/// feature object.
pub open spec fn spec_features_of(items: Seq<JsonValue>) -> Option<Seq<FeatureModel>>
    decreases items.len(),
{
    if items.len() == 0 {
        Option::Some(Seq::empty())
    } else {
        match (spec_features_of(items.drop_last()), spec_feature_of(items.last())) {
            (Option::Some(rest), Option::Some(f)) => Option::Some(rest.push(f)),
            _ => Option::None,
        }
    }
}

/// The task list a JSON value describes, if it is a well-shaped task-list
/// object: a string `project` and a `features` array of feature objects.
pub open spec fn spec_task_list_of(j: JsonValue) -> Option<TaskListModel> {
    match j {
        JsonValue::Obj(entries) => {
            let project = json_str_of(obj_lookup(entries@, "project"@));
            let features = match obj_lookup(entries@, "features"@) {
                Option::Some(JsonValue::Arr(items)) => spec_features_of(items@),
                _ => Option::None,
            };
            if project is Some && features is Some {
                Option::Some(TaskListModel { project: project.unwrap(), features: features.unwrap() })
            } else {
                Option::None
            }
        },
        _ => Option::None,
    }
}

/// The task list a text describes: the text must be valid JSON and the
/// document must be a well-shaped task-list object.
pub open spec fn spec_parse_task_list(s: Seq<char>) -> Option<TaskListModel> {
    match json_parse(s) {
        Option::Some(j) => spec_task_list_of(j),
        Option::None => Option::None,
    }
}

/// First entry with the given key, scanning in order.
fn find_entry<'a>(entries: &'a Vec<(String, JsonValue)>, key: &str) -> (r: Option<&'a JsonValue>)
    ensures
        match r {
            Option::Some(v) => obj_lookup(entries@, key@) == Option::Some(*v),
            Option::None => obj_lookup(entries@, key@) is None,
        },
{
    let owned_key = String::from_str(key);
    let n = entries.len();
    let mut i: usize = 0;
    proof {
        assert(entries@.skip(0) =~= entries@);
    }
    while i < n
        invariant
            0 <= i <= n,
            n == entries@.len(),
            owned_key@ == key@,
            obj_lookup(entries@.skip(i as int), key@) == obj_lookup(entries@, key@),
        decreases n - i,
    {
        proof {
            let rest = entries@.skip(i as int);
            assert(rest[0] == entries@[i as int]);
            assert(rest.drop_first() =~= entries@.skip(i + 1 as int));
        }
        if entries[i].0 == owned_key {
            return Option::Some(&entries[i].1);
        }
        i = i + 1;
    }
    proof {
        assert(entries@.skip(n as int) =~= Seq::<(String, JsonValue)>::empty());
    }
    Option::None
}

/// The status a status string names, if any.
pub fn status_from_string(s: &String) -> (r: Option<Status>)
    ensures
        r == spec_status_of(s@),
{
    if *s == String::from_str("pending") {
        Option::Some(Status::Pending)
    } else if *s == String::from_str("inprogress") {
        Option::Some(Status::InProgress)
    } else if *s == String::from_str("failing") {
        Option::Some(Status::Failing)
    } else if *s == String::from_str("passing") {
        Option::Some(Status::Passing)
    } else {
        Option::None
    }
}

/// If a prefix of the items already fails to be all strings, the whole
/// sequence does.
proof fn lemma_string_items_none(items: Seq<JsonValue>, i: int)
    requires
        0 <= i <= items.len(),
        string_items(items.take(i)) is None,
    ensures
        string_items(items) is None,
    decreases items.len() - i,
{
    if i == items.len() {
        assert(items.take(i) =~= items);
    } else {
        assert(items.take(i + 1).drop_last() =~= items.take(i));
        lemma_string_items_none(items, i + 1);
    }
}

/// If a prefix of the items already fails to be all features, the whole
/// sequence does.
proof fn lemma_features_none(items: Seq<JsonValue>, i: int)
    requires
        0 <= i <= items.len(),
        spec_features_of(items.take(i)) is None,
    ensures
        spec_features_of(items) is None,
    decreases items.len() - i,
{
    if i == items.len() {
        assert(items.take(i) =~= items);
    } else {
        assert(items.take(i + 1).drop_last() =~= items.take(i));
        lemma_features_none(items, i + 1);
    }
}

/// The strings of an all-string JSON array.
fn strings_from_items(items: &Vec<JsonValue>) -> (r: Option<Vec<String>>)
    ensures
        match r {
            Option::Some(v) => string_items(items@) == Option::Some(v.deep_view()),
            Option::None => string_items(items@) is None,
        },
{
    let n = items.len();
    let mut out: Vec<String> = Vec::new();
    let mut i: usize = 0;
    proof {
        assert(items@.take(0) =~= Seq::<JsonValue>::empty());
        assert(out.deep_view() =~= Seq::<Seq<char>>::empty());
    }
    while i < n
        invariant
            0 <= i <= n,
            n == items@.len(),
            string_items(items@.take(i as int)) == Option::Some(out.deep_view()),
        decreases n - i,
    {
        proof {
            assert(items@.take(i + 1 as int).drop_last() =~= items@.take(i as int));
            assert(items@.take(i + 1 as int).last() == items@[i as int]);
        }
        match &items[i] {
            JsonValue::Str(s) => {
                let ghost old_out = out.deep_view();
                out.push(s.clone());
                proof {
                    assert(out.deep_view() =~= old_out.push(items@[i as int]->Str_0@));
                }
            },
            _ => {
                proof {
                    lemma_string_items_none(items@, i + 1);
                }
                return Option::None;
            },
        }
        i = i + 1;
    }
    proof {
        assert(items@.take(n as int) =~= items@);
    }
    Option::Some(out)
}

/// The feature a JSON value describes, if it is well shaped.
pub fn feature_from_json(j: &JsonValue) -> (r: Option<Feature>)
    ensures
        match r {
            Option::Some(f) => spec_feature_of(*j) == Option::Some(f@),
            Option::None => spec_feature_of(*j) is None,
        },
{
    let entries = match j {
        JsonValue::Obj(entries) => entries,
        _ => {
            return Option::None;
        },
    };
    let id = match find_entry(entries, "id") {
        Option::Some(JsonValue::Str(s)) => s.clone(),
        _ => {
            return Option::None;
        },
    };
    let title_entry = match find_entry(entries, "title") {
        Option::Some(v) => Option::Some(v),
        Option::None => find_entry(entries, "name"),
    };
    let title = match title_entry {
        Option::Some(JsonValue::Str(s)) => s.clone(),
        _ => {
            return Option::None;
        },
    };
    let description = match find_entry(entries, "description") {
        Option::None => String::new(),
        Option::Some(JsonValue::Str(s)) => s.clone(),
        Option::Some(_) => {
            return Option::None;
        },
    };
    let status = match find_entry(entries, "status") {
        Option::Some(JsonValue::Str(s)) => match status_from_string(s) {
            Option::Some(st) => st,
            Option::None => {
                return Option::None;
            },
        },
        _ => {
            return Option::None;
        },
    };
    let acceptance_criteria = match find_entry(entries, "acceptance_criteria") {
        Option::None => Vec::new(),
        Option::Some(JsonValue::Arr(items)) => match strings_from_items(items) {
            Option::Some(v) => v,
            Option::None => {
                return Option::None;
            },
        },
        Option::Some(_) => {
            return Option::None;
        },
    };
    let f = Feature { id, title, description, status, acceptance_criteria };
    proof {
        let m = spec_feature_of(*j).unwrap();
        assert(f@.acceptance_criteria =~= m.acceptance_criteria);
        assert(f@ =~= m);
    }
    Option::Some(f)
}

/// The task list a JSON value describes, if it is well shaped.
pub fn task_list_from_json(j: &JsonValue) -> (r: Option<TaskList>)
    ensures
        match r {
            Option::Some(t) => spec_task_list_of(*j) == Option::Some(t@),
            Option::None => spec_task_list_of(*j) is None,
        },
{
    let entries = match j {
        JsonValue::Obj(entries) => entries,
        _ => {
            return Option::None;
        },
    };
    let project = match find_entry(entries, "project") {
        Option::Some(JsonValue::Str(s)) => s.clone(),
        _ => {
            return Option::None;
        },
    };
    let items_ref = match find_entry(entries, "features") {
        Option::Some(v) => v,
        Option::None => {
            return Option::None;
        },
    };
    let items = match items_ref {
        JsonValue::Arr(its) => its,
        _ => {
            return Option::None;
        },
    };
    proof {
        assert(obj_lookup(entries@, "features"@) == Option::Some(JsonValue::Arr(*items)));
    }
    let n = items.len();
    let mut features: Vec<Feature> = Vec::new();
    let mut i: usize = 0;
    proof {
        assert(items@.take(0) =~= Seq::<JsonValue>::empty());
        assert(features@.map(|k: int, f: Feature| f@) =~= Seq::<FeatureModel>::empty());
    }
    while i < n
        invariant
            0 <= i <= n,
            n == items@.len(),
            *j == JsonValue::Obj(*entries),
            obj_lookup(entries@, "features"@) == Option::Some(JsonValue::Arr(*items)),
            json_str_of(obj_lookup(entries@, "project"@)) == Option::Some(project@),
            spec_features_of(items@.take(i as int)) == Option::Some(
                features@.map(|k: int, f: Feature| f@),
            ),
        decreases n - i,
    {
        proof {
            assert(items@.take(i + 1 as int).drop_last() =~= items@.take(i as int));
            assert(items@.take(i + 1 as int).last() == items@[i as int]);
        }
        match feature_from_json(&items[i]) {
            Option::Some(f) => {
                let ghost old_fs = features@.map(|k: int, f: Feature| f@);
                let ghost fv = f@;
                features.push(f);
                proof {
                    assert(features@.map(|k: int, f: Feature| f@) =~= old_fs.push(fv));
                }
            },
            Option::None => {
                proof {
                    lemma_features_none(items@, i + 1);
                }
                return Option::None;
            },
        }
        i = i + 1;
    }
    proof {
        assert(items@.take(n as int) =~= items@);
    }
    let t = TaskList { project, features };
    proof {
        let m = spec_task_list_of(*j).unwrap();
        assert(t@.features =~= m.features);
        assert(t@ =~= m);
    }
    Option::Some(t)
}

/// Parses a task-list document from its text.  Returns `Malformed` exactly
/// when the text is not valid JSON or the document is not a well-shaped task
/// list.
pub fn parse_task_list(text: &str) -> (r: Result<TaskList, LoadError>)
    ensures
        (r matches Ok(t) ==> spec_parse_task_list(text@) == Option::Some(t@)),
        r is Err ==> spec_parse_task_list(text@) is None && (r matches Err(
            LoadError::Malformed,
        )),
{
    match parse_json_text(text) {
        Ok(j) => match task_list_from_json(&j) {
            Option::Some(t) => Ok(t),
            Option::None => Err(LoadError::Malformed),
        },
        Err(_) => Err(LoadError::Malformed),
    }
}

} // verus!
