use vstd::prelude::*;

verus! {

broadcast use vstd::std_specs::vec::group_vec_axioms;

/// A JSON number as the document holds it: a non-negative integer, a negative integer,
/// or any other number kept as its decimal text.
pub enum JsonNumber {
    PosInt(u64),
    NegInt(i64),
    Float(String),
}

/// A JSON document tree. An object keeps its members in order; a key is looked up by
/// its first occurrence.
pub enum Json {
    Null,
    Bool(bool),
    Number(JsonNumber),
    Str(String),
    Array(Vec<Json>),
    Object(Vec<(String, Json)>),
}

pub enum NumberV {
    PosInt(u64),
    NegInt(i64),
    Float(Seq<char>),
}

/// The mathematical value of a JSON tree.
pub enum JsonV {
    Null,
    Bool(bool),
    Number(NumberV),
    Str(Seq<char>),
    Array(Seq<JsonV>),
    Object(Seq<(Seq<char>, JsonV)>),
}

pub type FieldsV = Seq<(Seq<char>, JsonV)>;

pub open spec fn number_view(n: JsonNumber) -> NumberV {
    match n {
        JsonNumber::PosInt(u) => NumberV::PosInt(u),
        JsonNumber::NegInt(i) => NumberV::NegInt(i),
        JsonNumber::Float(t) => NumberV::Float(t@),
    }
}

pub open spec fn json_view(j: Json) -> JsonV
    decreases j,
{
    match j {
        Json::Null => JsonV::Null,
        Json::Bool(b) => JsonV::Bool(b),
        Json::Number(n) => JsonV::Number(number_view(n)),
        Json::Str(s) => JsonV::Str(s@),
        Json::Array(a) => JsonV::Array(
            Seq::new(a@.len(), |i: int| if 0 <= i < a@.len() { json_view(a@[i]) } else { JsonV::Null }),
        ),
        Json::Object(o) => JsonV::Object(
            Seq::new(
                o@.len(),
                |i: int|
                    if 0 <= i < o@.len() {
                        (o@[i].0@, json_view(o@[i].1))
                    } else {
                        (Seq::empty(), JsonV::Null)
                    },
            ),
        ),
    }
}

impl View for Json {
    type V = JsonV;

    open spec fn view(&self) -> JsonV {
        json_view(*self)
    }
}

/// The values of a sequence of trees.
pub open spec fn items_view(a: Seq<Json>) -> Seq<JsonV> {
    Seq::new(a.len(), |i: int| a[i]@)
}

/// The members of an object, as key text and value.
pub open spec fn fields_view(o: Seq<(String, Json)>) -> FieldsV {
    Seq::new(o.len(), |i: int| (o[i].0@, o[i].1@))
}

pub proof fn lemma_array_view(a: Vec<Json>)
    ensures
        Json::Array(a)@ == JsonV::Array(items_view(a@)),
{
    let v = Json::Array(a)@;
    assert(items_view(a@) =~= v->Array_0);
}

pub proof fn lemma_object_view(o: Vec<(String, Json)>)
    ensures
        Json::Object(o)@ == JsonV::Object(fields_view(o@)),
{
    let v = Json::Object(o)@;
    assert(fields_view(o@) =~= v->Object_0);
}

/// Position of the first member with key `key`, or -1 where there is none.
pub open spec fn key_index(f: FieldsV, key: Seq<char>) -> int
    decreases f.len(),
{
    if f.len() == 0 {
        -1
    } else if f[0].0 == key {
        0
    } else {
        let r = key_index(f.drop_first(), key);
        if r < 0 {
            -1
        } else {
            r + 1
        }
    }
}

pub open spec fn has_key(f: FieldsV, key: Seq<char>) -> bool {
    key_index(f, key) >= 0
}

/// The value of the first member with key `key`.
pub open spec fn lookup(f: FieldsV, key: Seq<char>) -> Option<JsonV> {
    if has_key(f, key) {
        Some(f[key_index(f, key)].1)
    } else {
        None
    }
}

/// The value under `key` of an object; nothing for any other tree.
pub open spec fn member(v: JsonV, key: Seq<char>) -> Option<JsonV> {
    match v {
        JsonV::Object(f) => lookup(f, key),
        _ => None,
    }
}

/// `key` set to `v`: the first member with that key gets the value, or a member is added.
pub open spec fn put(f: FieldsV, key: Seq<char>, v: JsonV) -> FieldsV {
    if has_key(f, key) {
        f.update(key_index(f, key), (key, v))
    } else {
        f.push((key, v))
    }
}

/// `key` given the value `v` only where the object has no member with that key.
pub open spec fn with_default(f: FieldsV, key: Seq<char>, v: JsonV) -> FieldsV {
    if has_key(f, key) {
        f
    } else {
        f.push((key, v))
    }
}

pub proof fn lemma_key_index(f: FieldsV, key: Seq<char>)
    ensures
        -1 <= key_index(f, key) < f.len(),
        key_index(f, key) >= 0 ==> f[key_index(f, key)].0 == key,
        forall|j: int| 0 <= j < f.len() && j < key_index(f, key) ==> f[j].0 != key,
        key_index(f, key) < 0 ==> forall|j: int| 0 <= j < f.len() ==> f[j].0 != key,
    decreases f.len(),
{
    if f.len() > 0 && f[0].0 != key {
        lemma_key_index(f.drop_first(), key);
        assert forall|j: int| 0 < j < f.len() implies f[j].0 == f.drop_first()[j - 1].0 by {}
    }
}

/// A position whose key is `key` and that no earlier member shares is the first.
pub proof fn lemma_key_index_at(f: FieldsV, key: Seq<char>, i: int)
    requires
        0 <= i < f.len(),
        f[i].0 == key,
        forall|j: int| 0 <= j < i ==> f[j].0 != key,
    ensures
        key_index(f, key) == i,
{
    lemma_key_index(f, key);
}

/// A key that no member has has no index.
pub proof fn lemma_key_index_none(f: FieldsV, key: Seq<char>)
    requires
        forall|j: int| 0 <= j < f.len() ==> f[j].0 != key,
    ensures
        key_index(f, key) == -1,
{
    lemma_key_index(f, key);
}

/// Appending a member leaves the first position of every key it already had, and gives
/// its own key the last position where that key was missing.
pub proof fn lemma_key_index_push(f: FieldsV, p: (Seq<char>, JsonV), key: Seq<char>)
    ensures
        key_index(f.push(p), key) == (if has_key(f, key) {
            key_index(f, key)
        } else if p.0 == key {
            f.len() as int
        } else {
            -1
        }),
{
    let g = f.push(p);
    lemma_key_index(f, key);
    lemma_key_index(g, key);
    assert forall|j: int| 0 <= j < f.len() implies g[j] == f[j] by {}
    if has_key(f, key) {
        lemma_key_index_at(g, key, key_index(f, key));
    } else if p.0 == key {
        lemma_key_index_at(g, key, f.len() as int);
    } else {
        lemma_key_index_none(g, key);
    }
}

/// Changing the value of a member, its key kept, leaves every key's first position.
pub proof fn lemma_key_index_update(f: FieldsV, i: int, v: JsonV, key: Seq<char>)
    requires
        0 <= i < f.len(),
    ensures
        key_index(f.update(i, (f[i].0, v)), key) == key_index(f, key),
{
    let g = f.update(i, (f[i].0, v));
    lemma_key_index(f, key);
    lemma_key_index(g, key);
    assert forall|j: int| 0 <= j < f.len() implies g[j].0 == f[j].0 by {}
    if has_key(f, key) {
        lemma_key_index_at(g, key, key_index(f, key));
    } else {
        lemma_key_index_none(g, key);
    }
}

/// Setting a member makes the key present, with the value given, and leaves the first
/// position of every other key.
pub proof fn lemma_put(f: FieldsV, key: Seq<char>, v: JsonV, other: Seq<char>)
    requires
        other != key,
    ensures
        lookup(put(f, key, v), key) == Some(v),
        key_index(put(f, key, v), other) == key_index(f, other),
        has_key(f, other) ==> put(f, key, v)[key_index(f, other)] == f[key_index(f, other)],
{
    lemma_key_index(f, key);
    lemma_key_index(f, other);
    if has_key(f, key) {
        let i = key_index(f, key);
        assert(f.update(i, (key, v)) == f.update(i, (f[i].0, v)));
        lemma_key_index_update(f, i, v, key);
        lemma_key_index_update(f, i, v, other);
    } else {
        lemma_key_index_push(f, (key, v), key);
        lemma_key_index_push(f, (key, v), other);
    }
}

/// Giving a key a default keeps every key that was present, and makes that key present.
pub proof fn lemma_with_default_keys(f: FieldsV, key: Seq<char>, v: JsonV, other: Seq<char>)
    ensures
        has_key(with_default(f, key, v), key),
        has_key(f, other) ==> key_index(with_default(f, key, v), other) == key_index(f, other),
        has_key(f, other) ==> with_default(f, key, v)[key_index(f, other)] == f[key_index(f, other)],
        !has_key(f, key) ==> lookup(with_default(f, key, v), key) == Some(v),
{
    lemma_key_index(f, other);
    if !has_key(f, key) {
        lemma_key_index_push(f, (key, v), key);
        lemma_key_index_push(f, (key, v), other);
    }
}

/// Equality of two texts, character by character.
pub fn text_eq(a: &str, b: &str) -> (r: bool)
    ensures
        r == (a@ == b@),
{
    let n = a.unicode_len();
    if n != b.unicode_len() {
        return false;
    }
    let mut i: usize = 0;
    while i < n
        invariant
            n == a@.len(),
            n == b@.len(),
            i <= n,
            forall|j: int| 0 <= j < i ==> a@[j] == b@[j],
        decreases n - i,
    {
        if a.get_char(i) != b.get_char(i) {
            return false;
        }
        i = i + 1;
    }
    assert(a@ =~= b@);
    true
}

/// Position of the first member of `fields` whose key is `key`.
pub fn find_key(fields: &Vec<(String, Json)>, key: &str) -> (r: Option<usize>)
    ensures
        r matches Some(i) ==> i < fields@.len() && i as int == key_index(fields_view(fields@), key@),
        r is None ==> key_index(fields_view(fields@), key@) == -1,
{
    let ghost f = fields_view(fields@);
    let mut i: usize = 0;
    while i < fields.len()
        invariant
            f == fields_view(fields@),
            i <= fields.len(),
            forall|j: int| 0 <= j < i ==> f[j].0 != key@,
        decreases fields.len() - i,
    {
        if text_eq(fields[i].0.as_str(), key) {
            proof {
                lemma_key_index_at(f, key@, i as int);
            }
            return Some(i);
        }
        i = i + 1;
    }
    proof {
        lemma_key_index_none(f, key@);
    }
    None
}

/// Gives `key` the value `v` unless the object already has a member with that key.
pub fn ensure_key(fields: &mut Vec<(String, Json)>, key: &str, v: Json)
    ensures
        fields_view(final(fields)@) == with_default(fields_view(old(fields)@), key@, v@),
{
    match find_key(fields, key) {
        Some(_) => {},
        None => {
            let ghost before = fields@;
            fields.push((key.to_owned(), v));
            assert(fields_view(fields@) =~= fields_view(before).push((key@, v@)));
        },
    }
}

/// Sets `key` to `v`, in place of the first member with that key or as a new member.
pub fn put_key(fields: &mut Vec<(String, Json)>, key: &str, v: Json)
    ensures
        fields_view(final(fields)@) == put(fields_view(old(fields)@), key@, v@),
{
    let ghost before = fields@;
    match find_key(fields, key) {
        Some(i) => {
            let _ = fields.remove(i);
            fields.insert(i, (key.to_owned(), v));
            assert(fields_view(fields@) =~= fields_view(before).update(i as int, (key@, v@)));
        },
        None => {
            fields.push((key.to_owned(), v));
            assert(fields_view(fields@) =~= fields_view(before).push((key@, v@)));
        },
    }
}

/// Members equal in value to the given ones.
pub fn clone_fields(fields: &Vec<(String, Json)>) -> (r: Vec<(String, Json)>)
    ensures
        fields_view(r@) == fields_view(fields@),
{
    let mut out: Vec<(String, Json)> = Vec::new();
    let mut i: usize = 0;
    while i < fields.len()
        invariant
            i <= fields.len(),
            out@.len() == i,
            forall|j: int| 0 <= j < i ==> out@[j].0@ == fields@[j].0@ && out@[j].1@ == fields@[j].1@,
        decreases fields.len() - i,
    {
        out.push((fields[i].0.clone(), fields[i].1.deep_clone()));
        i = i + 1;
    }
    assert(fields_view(out@) =~= fields_view(fields@));
    out
}

impl Json {
    /// A tree equal in value to this one.
    pub fn deep_clone(&self) -> (r: Json)
        ensures
            r@ == self@,
        decreases self,
    {
        match self {
            Json::Null => Json::Null,
            Json::Bool(b) => Json::Bool(*b),
            Json::Number(JsonNumber::PosInt(u)) => Json::Number(JsonNumber::PosInt(*u)),
            Json::Number(JsonNumber::NegInt(i)) => Json::Number(JsonNumber::NegInt(*i)),
            Json::Number(JsonNumber::Float(t)) => Json::Number(JsonNumber::Float(t.clone())),
            Json::Str(s) => Json::Str(s.clone()),
            Json::Array(a) => {
                let mut out: Vec<Json> = Vec::new();
                let mut i: usize = 0;
                while i < a.len()
                    invariant
                        *self == Json::Array(*a),
                        i <= a.len(),
                        out@.len() == i,
                        forall|j: int| 0 <= j < i ==> out@[j]@ == a@[j]@,
                    decreases a.len() - i,
                {
                    proof {
                        assert(decreases_to!(*self => self->Array_0));
                        assert(decreases_to!(*a => a@[i as int]));
                        assert(decreases_to!(*self => a@[i as int]));
                    }
                    out.push(a[i].deep_clone());
                    i = i + 1;
                }
                proof {
                    lemma_array_view(*a);
                    lemma_array_view(out);
                    assert(items_view(out@) =~= items_view(a@));
                }
                Json::Array(out)
            },
            Json::Object(o) => {
                let mut out: Vec<(String, Json)> = Vec::new();
                let mut i: usize = 0;
                while i < o.len()
                    invariant
                        *self == Json::Object(*o),
                        i <= o.len(),
                        out@.len() == i,
                        forall|j: int| 0 <= j < i ==> out@[j].0@ == o@[j].0@ && out@[j].1@ == o@[j].1@,
                    decreases o.len() - i,
                {
                    proof {
                        assert(decreases_to!(*self => self->Object_0));
                        assert(decreases_to!(*o => o@[i as int]));
                        assert(decreases_to!(o@[i as int] => o@[i as int].1));
                        assert(decreases_to!(*self => o@[i as int].1));
                    }
                    out.push((o[i].0.clone(), o[i].1.deep_clone()));
                    i = i + 1;
                }
                proof {
                    lemma_object_view(*o);
                    lemma_object_view(out);
                    assert(fields_view(out@) =~= fields_view(o@));
                }
                Json::Object(out)
            },
        }
    }

    /// The value under `key`, where this is an object that has one.
    pub fn get(&self, key: &str) -> (r: Option<&Json>)
        ensures
            r matches Some(x) ==> member(self@, key@) == Some(x@),
            r is None ==> member(self@, key@) is None,
    {
        match self {
            Json::Object(o) => {
                proof {
                    lemma_object_view(*o);
                    lemma_key_index(fields_view(o@), key@);
                }
                match find_key(o, key) {
                    Some(i) => Some(&o[i].1),
                    None => None,
                }
            },
            _ => None,
        }
    }

    /// The number, where this is a non-negative integer.
    pub fn as_u64(&self) -> (r: Option<u64>)
        ensures
            r == (match self@ {
                JsonV::Number(NumberV::PosInt(u)) => Some(u),
                _ => None::<u64>,
            }),
    {
        match self {
            Json::Number(JsonNumber::PosInt(u)) => Some(*u),
            _ => None,
        }
    }
}

} // verus!
