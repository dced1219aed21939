//! JSON trees, as the server reads them in requests and builds them in answers.

use vstd::prelude::*;

use crate::text;

verus! {

/// A JSON tree. An object keeps its fields in the order in which they were written.
#[derive(Debug, PartialEq)]
pub enum Json {
    Null,
    Bool(bool),
    Int(i64),
    /// A number outside the range of `Int`, by its spelling.
    Number(String),
    Text(String),
    Array(Vec<Json>),
    Object(Vec<(String, Json)>),
}

/// The mathematical value of a [`Json`].
pub enum JsonView {
    Null,
    Bool(bool),
    Int(int),
    Number(Seq<char>),
    Text(Seq<char>),
    Array(Seq<JsonView>),
    Object(Seq<(Seq<char>, JsonView)>),
}

impl View for Json {
    type V = JsonView;

    open spec fn view(&self) -> JsonView {
        tree(*self)
    }
}

/// The value of a tree, from the values of its parts.
pub open spec fn tree(json: Json) -> JsonView
    decreases json,
{
    match json {
        Json::Null => JsonView::Null,
        Json::Bool(b) => JsonView::Bool(b),
        Json::Int(i) => JsonView::Int(i as int),
        Json::Number(t) => JsonView::Number(t@),
        Json::Text(t) => JsonView::Text(t@),
        Json::Array(v) => JsonView::Array(
            Seq::new(
                v@.len(),
                |i: int|
                    if 0 <= i < v@.len() {
                        tree(v@[i])
                    } else {
                        JsonView::Null
                    },
            ),
        ),
        Json::Object(v) => JsonView::Object(
            Seq::new(
                v@.len(),
                |i: int|
                    if 0 <= i < v@.len() {
                        (v@[i].0@, tree(v@[i].1))
                    } else {
                        (Seq::empty(), JsonView::Null)
                    },
            ),
        ),
    }
}

/// The values of fields.
pub open spec fn field_values(fields: Seq<(String, Json)>) -> Seq<(Seq<char>, JsonView)> {
    Seq::new(fields.len(), |i: int| (fields[i].0@, fields[i].1@))
}

pub proof fn lemma_array(v: Vec<Json>)
    ensures
        Json::Array(v)@ == JsonView::Array(v.deep_view()),
{
    assert(Json::Array(v)@->Array_0 =~= v.deep_view());
}

proof fn lemma_object(v: Vec<(String, Json)>)
    ensures
        Json::Object(v)@ == JsonView::Object(field_values(v@)),
{
    assert(Json::Object(v)@->Object_0 =~= field_values(v@));
}

impl Clone for Json {
    fn clone(&self) -> (r: Json)
        ensures
            r@ == self@,
    {
        self.copy()
    }
}

impl DeepView for Json {
    type V = JsonView;

    open spec fn deep_view(&self) -> JsonView {
        self@
    }
}

/// The value of the first field named `key`.
pub open spec fn field(fields: Seq<(Seq<char>, JsonView)>, key: Seq<char>) -> Option<JsonView>
    decreases fields.len(),
{
    if fields.len() == 0 {
        None
    } else if fields[0].0 == key {
        Some(fields[0].1)
    } else {
        field(fields.drop_first(), key)
    }
}

impl JsonView {
    /// The value under `key`; nothing where this is no object or has no such field.
    pub open spec fn get(self, key: Seq<char>) -> Option<JsonView> {
        match self {
            JsonView::Object(fields) => field(fields, key),
            _ => None,
        }
    }

    /// The text that this is, if it is one.
    pub open spec fn as_text(self) -> Option<Seq<char>> {
        match self {
            JsonView::Text(t) => Some(t),
            _ => None,
        }
    }

    /// The text under `key`, if there is one.
    pub open spec fn get_text(self, key: Seq<char>) -> Option<Seq<char>> {
        match self.get(key) {
            Some(v) => v.as_text(),
            None => None,
        }
    }
}

/// The fields of an object that has none.
pub open spec fn no_fields() -> Seq<(Seq<char>, JsonView)> {
    Seq::empty()
}

/// Fields of an object that is being built.
pub struct Fields {
    fields: Vec<(String, Json)>,
}

impl View for Fields {
    type V = Seq<(Seq<char>, JsonView)>;

    closed spec fn view(&self) -> Seq<(Seq<char>, JsonView)> {
        field_values(self.fields@)
    }
}

impl Fields {
    /// No fields.
    pub fn new() -> (r: Fields)
        ensures
            r@ == no_fields(),
    {
        let r = Fields { fields: Vec::new() };
        assert(r@ =~= Seq::empty());
        r
    }

    /// These fields and one more.
    pub fn with(self, key: &str, value: Json) -> (r: Fields)
        ensures
            r@ == self@.push((key@, value@)),
    {
        let ghost before = self@;
        let mut fields = self.fields;
        fields.push((key.to_owned(), value));
        let r = Fields { fields };
        assert(r@ =~= before.push((key@, value@)));
        r
    }

    /// These fields and one more that holds a text.
    pub fn with_text(self, key: &str, value: &str) -> (r: Fields)
        ensures
            r@ == self@.push((key@, JsonView::Text(value@))),
    {
        self.with(key, Json::Text(value.to_owned()))
    }

    /// The object that has these fields.
    pub fn object(self) -> (r: Json)
        ensures
            r@ == JsonView::Object(self@),
    {
        proof {
            lemma_object(self.fields);
        }
        Json::Object(self.fields)
    }
}

impl Json {
    /// The array of these items.
    pub fn array(items: Vec<Json>) -> (r: Json)
        ensures
            r@ == JsonView::Array(items.deep_view()),
    {
        proof {
            lemma_array(items);
        }
        Json::Array(items)
    }

    /// The value under `key`, where this is an object that has it.
    pub fn get(&self, key: &str) -> (r: Option<&Json>)
        ensures
            match r {
                Some(v) => self@.get(key@) == Some(v@),
                None => self@.get(key@) is None,
            },
    {
        match self {
            Json::Object(fields) => {
                let mut i: usize = 0;
                let ghost all = field_values(fields@);
                proof {
                    lemma_object(*fields);
                }
                assert(all.skip(0) =~= all);
                while i < fields.len()
                    invariant
                        i <= fields.len(),
                        all == field_values(fields@),
                        self@ == JsonView::Object(all),
                        field(all, key@) == field(all.skip(i as int), key@),
                    decreases fields.len() - i,
                {
                    assert(all.skip(i as int)[0] == all[i as int]);
                    if text::same(fields[i].0.as_str(), key) {
                        return Some(&fields[i].1);
                    }
                    assert(all.skip(i as int).drop_first() =~= all.skip(i + 1));
                    i += 1;
                }
                None
            },
            _ => None,
        }
    }

    /// The text that this is, if it is one.
    pub fn as_str(&self) -> (r: Option<&str>)
        ensures
            text::opt(r) == self@.as_text(),
    {
        match self {
            Json::Text(t) => Some(t.as_str()),
            _ => None,
        }
    }

    /// The text under `key`, if there is one.
    pub fn get_str(&self, key: &str) -> (r: Option<&str>)
        ensures
            text::opt(r) == self@.get_text(key@),
    {
        match self.get(key) {
            Some(v) => v.as_str(),
            None => None,
        }
    }

    /// A copy of the tree.
    pub fn copy(&self) -> (r: Json)
        ensures
            r@ == self@,
        decreases self,
    {
        match self {
            Json::Null => Json::Null,
            Json::Bool(b) => Json::Bool(*b),
            Json::Int(i) => Json::Int(*i),
            Json::Number(t) => Json::Number(t.clone()),
            Json::Text(t) => Json::Text(t.clone()),
            Json::Array(v) => {
                let mut items: Vec<Json> = Vec::new();
                let mut i: usize = 0;
                while i < v.len()
                    invariant
                        i <= v.len(),
                        items.len() == i,
                        *self == Json::Array(*v),
                        forall|k: int| 0 <= k < i ==> #[trigger] items@[k]@ == v@[k]@,
                    decreases v.len() - i,
                {
                    assert(decreases_to!(*self => self->Array_0));
                    items.push(v[i].copy());
                    i += 1;
                }
                proof {
                    lemma_array(items);
                    lemma_array(*v);
                    assert(items.deep_view() =~= v.deep_view());
                }
                Json::Array(items)
            },
            Json::Object(v) => {
                let mut items: Vec<(String, Json)> = Vec::new();
                let mut i: usize = 0;
                while i < v.len()
                    invariant
                        i <= v.len(),
                        items.len() == i,
                        *self == Json::Object(*v),
                        forall|k: int|
                            0 <= k < i ==> (#[trigger] items@[k]).0@ == v@[k].0@ && items@[k].1@
                                == v@[k].1@,
                    decreases v.len() - i,
                {
                    assert(decreases_to!(*self => self->Object_0));
                    items.push((v[i].0.clone(), v[i].1.copy()));
                    i += 1;
                }
                proof {
                    lemma_object(items);
                    lemma_object(*v);
                    assert(field_values(items@) =~= field_values(v@));
                }
                Json::Object(items)
            },
        }
    }
}

/// A look-up finds the first field with its key, and nothing where there is none.
pub proof fn lookups_find_the_first_field(
    fields: Seq<(Seq<char>, JsonView)>,
    key: Seq<char>,
    i: int,
)
    ensures
        0 <= i < fields.len() && fields[i].0 == key && (forall|k: int|
            0 <= k < i ==> (#[trigger] fields[k]).0 != key) ==> JsonView::Object(fields).get(key)
            == Some(fields[i].1),
        (forall|k: int| 0 <= k < fields.len() ==> (#[trigger] fields[k]).0 != key)
            ==> JsonView::Object(fields).get(key) is None,
    decreases fields.len(),
{
    if fields.len() > 0 && fields[0].0 != key {
        let rest = fields.drop_first();
        lookups_find_the_first_field(rest, key, i - 1);
        assert forall|k: int| 0 <= k < rest.len() implies #[trigger] rest[k] == fields[k + 1] by {}
    }
}

/// What is no object has nothing to look up, and only what is a text reads as one.
pub proof fn only_objects_have_fields(json: JsonView, key: Seq<char>)
    ensures
        !(json is Object) ==> json.get(key) is None,
        json.as_text() is Some <==> json is Text,
        json is Text ==> json.as_text() == Some(json->Text_0),
        json.get_text(key) is Some <==> json.get(key) is Some && json.get(key).unwrap() is Text,
        json.get_text(key) is Some ==> json.get(key) == Some(
            JsonView::Text(json.get_text(key).unwrap()),
        ),
{
}

/// Two trees of one value are of one kind, and hold the same at every place.
pub proof fn trees_of_one_value_are_alike(a: Json, b: Json, i: int)
    requires
        a@ == b@,
    ensures
        a is Null <==> b is Null,
        a is Bool ==> b is Bool && a->Bool_0 == b->Bool_0,
        a is Int ==> b is Int && a->Int_0 == b->Int_0,
        a is Number ==> b is Number && a->Number_0@ == b->Number_0@,
        a is Text ==> b is Text && a->Text_0@ == b->Text_0@,
        a is Array ==> b is Array && a->Array_0.len() == b->Array_0.len() && (0 <= i
            < a->Array_0.len() ==> a->Array_0@[i]@ == b->Array_0@[i]@),
        a is Object ==> b is Object && a->Object_0.len() == b->Object_0.len() && (0 <= i
            < a->Object_0.len() ==> a->Object_0@[i].0@ == b->Object_0@[i].0@
            && a->Object_0@[i].1@ == b->Object_0@[i].1@),
{
    if a is Array {
        lemma_array(a->Array_0);
        lemma_array(b->Array_0);
        assert(a->Array_0.deep_view().len() == b->Array_0.deep_view().len());
        if 0 <= i < a->Array_0.len() {
            assert(a->Array_0.deep_view()[i] == b->Array_0.deep_view()[i]);
        }
    }
    if a is Object {
        lemma_object(a->Object_0);
        lemma_object(b->Object_0);
        assert(field_values(a->Object_0@).len() == field_values(b->Object_0@).len());
        if 0 <= i < a->Object_0.len() {
            assert(field_values(a->Object_0@)[i] == field_values(b->Object_0@)[i]);
        }
    }
}

/// What stands under a key of an object is what was put there first under that key.
pub proof fn fields_are_found_where_they_were_put(
    fields: Seq<(Seq<char>, JsonView)>,
    key: Seq<char>,
    value: JsonView,
    other: Seq<char>,
)
    ensures
        JsonView::Object(no_fields()).get(key) is None,
        JsonView::Object(fields.push((key, value))).get(key) == match JsonView::Object(
            fields,
        ).get(key) {
            Some(v) => Some(v),
            None => Some(value),
        },
        other != key ==> JsonView::Object(fields.push((key, value))).get(other)
            == JsonView::Object(fields).get(other),
    decreases fields.len(),
{
    let more = fields.push((key, value));
    if fields.len() == 0 {
        reveal_with_fuel(field, 2);
        assert(more.drop_first() =~= Seq::empty());
    } else {
        assert(more.drop_first() =~= fields.drop_first().push((key, value)));
        fields_are_found_where_they_were_put(fields.drop_first(), key, value, other);
    }
}

/// What is found under a key of an object of up to four fields.
pub proof fn lemma_few_fields(
    a: (Seq<char>, JsonView),
    b: (Seq<char>, JsonView),
    c: (Seq<char>, JsonView),
    d: (Seq<char>, JsonView),
    key: Seq<char>,
)
    ensures
        JsonView::Object(no_fields()).get(key) is None,
        JsonView::Object(no_fields().push(a)).get(key) == if a.0 == key {
            Some(a.1)
        } else {
            None
        },
        JsonView::Object(no_fields().push(a).push(b)).get(key) == if a.0 == key {
            Some(a.1)
        } else if b.0 == key {
            Some(b.1)
        } else {
            None
        },
        JsonView::Object(no_fields().push(a).push(b).push(c)).get(key) == if a.0 == key {
            Some(a.1)
        } else if b.0 == key {
            Some(b.1)
        } else if c.0 == key {
            Some(c.1)
        } else {
            None
        },
        JsonView::Object(no_fields().push(a).push(b).push(c).push(d)).get(key) == if a.0 == key {
            Some(a.1)
        } else if b.0 == key {
            Some(b.1)
        } else if c.0 == key {
            Some(c.1)
        } else if d.0 == key {
            Some(d.1)
        } else {
            None
        },
{
    fields_are_found_where_they_were_put(no_fields(), a.0, a.1, key);
    fields_are_found_where_they_were_put(no_fields().push(a), b.0, b.1, key);
    fields_are_found_where_they_were_put(no_fields().push(a).push(b), c.0, c.1, key);
    fields_are_found_where_they_were_put(no_fields().push(a).push(b).push(c), d.0, d.1, key);
}

/// A tree is read as it is: under a key of an object stands what its first field with
/// that key holds, only a text reads as one, and a copy is alike in every place.
pub proof fn trees_are_read_as_they_are(
    json: Json,
    key: &str,
    found: Option<&Json>,
    text: Option<&str>,
    under: Option<&str>,
    copied: Json,
    cloned: Json,
    i: int,
)
    requires
        call_ensures(Json::get, (&json, key), found),
        call_ensures(Json::as_str, (&json,), text),
        call_ensures(Json::get_str, (&json, key), under),
        call_ensures(Json::copy, (&json,), copied),
        call_ensures(<Json as Clone>::clone, (&json,), cloned),
    ensures
        !(json is Object) ==> found is None,
        json is Object && 0 <= i < json->Object_0.len() && json->Object_0@[i].0@ == key@ && (forall|
            k: int,
        |
            0 <= k < i ==> (#[trigger] json->Object_0@[k]).0@ != key@) ==> found is Some
            && found.unwrap()@ == json->Object_0@[i].1@,
        json is Object && (forall|k: int|
            0 <= k < json->Object_0.len() ==> (#[trigger] json->Object_0@[k]).0@ != key@)
            ==> found is None,
        text is Some <==> json is Text,
        text is Some ==> text.unwrap()@ == json->Text_0@,
        under is Some <==> found is Some && found.unwrap()@ is Text,
        under is Some ==> JsonView::Text(under.unwrap()@) == found.unwrap()@,
        copied@ == json@,
        cloned@ == json@,
{
    if json is Object {
        let fields = field_values(json->Object_0@);
        lemma_object(json->Object_0);
        lookups_find_the_first_field(fields, key@, i);
        assert(fields.len() == json->Object_0.len());
        if 0 <= i < json->Object_0.len() && json->Object_0@[i].0@ == key@ && (forall|k: int|
            0 <= k < i ==> (#[trigger] json->Object_0@[k]).0@ != key@) {
            assert forall|k: int| 0 <= k < i implies (#[trigger] fields[k]).0 != key@ by {
                assert(json->Object_0@[k].0@ != key@);
            }
        }
        if forall|k: int|
            0 <= k < json->Object_0.len() ==> (#[trigger] json->Object_0@[k]).0@ != key@ {
            assert forall|k: int| 0 <= k < fields.len() implies (#[trigger] fields[k]).0
                != key@ by {
                assert(json->Object_0@[k].0@ != key@);
            }
        }
    }
}

/// A tree is built from what it is given: an object from its fields in order, an array
/// from its items in order.
pub proof fn trees_are_built_from_what_they_are_given(
    none: Fields,
    before: Fields,
    key: &str,
    value: Json,
    text: &str,
    with: Fields,
    with_text: Fields,
    object: Json,
    items: Vec<Json>,
    array: Json,
    i: int,
)
    requires
        call_ensures(Fields::new, (), none),
        call_ensures(Fields::with, (before, key, value), with),
        call_ensures(Fields::with_text, (before, key, text), with_text),
        call_ensures(Fields::object, (before,), object),
        call_ensures(Json::array, (items,), array),
    ensures
        none@.len() == 0,
        ({
            let n = before@.len() as int;
            &&& with@.len() == n + 1
            &&& with@[n] == (key@, value@)
            &&& 0 <= i < n ==> with@[i] == before@[i]
            &&& with_text@.len() == n + 1
            &&& with_text@[n] == (key@, JsonView::Text(text@))
            &&& 0 <= i < n ==> with_text@[i] == before@[i]
            &&& object@ is Object
            &&& object@->Object_0 == before@
        }),
        array@ is Array,
        array@->Array_0.len() == items.len(),
        0 <= i < items.len() ==> array@->Array_0[i] == items@[i]@,
{
    assert(items.deep_view().len() == items.len());
    if 0 <= i < items.len() {
        assert(items.deep_view()[i] == items@[i]@);
    }
}

} // verus!
