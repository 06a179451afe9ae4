use vstd::prelude::*;

verus! {

/// A JSON value held as plain data: numbers are kept as the literal text
/// they were written with, and an object keeps its members in wire order.
/// Tool parameter schemas run through the library in this form.
#[derive(Debug, PartialEq)]
pub enum JsonVal {
    Null,
    Bool(bool),
    Num(String),
    Str(String),
    Arr(Vec<JsonVal>),
    Obj(Vec<(String, JsonVal)>),
}

/// Mathematical model of a [`JsonVal`].
pub enum JsonView {
    Null,
    Bool(bool),
    Num(Seq<char>),
    Str(Seq<char>),
    Arr(Seq<JsonView>),
    Obj(Seq<(Seq<char>, JsonView)>),
}

/// The model of a list of JSON values, element by element.
pub open spec fn json_view_list(items: Seq<JsonVal>) -> Seq<JsonView>
    decreases items, 0int,
{
    if items.len() == 0 {
        Seq::empty()
    } else {
        seq![json_view(items[0])] + json_view_list(items.drop_first())
    }
}

/// The model of an object's member list, member by member.
pub open spec fn json_view_members(fields: Seq<(String, JsonVal)>) -> Seq<(Seq<char>, JsonView)>
    decreases fields, 0int,
{
    if fields.len() == 0 {
        Seq::empty()
    } else {
        seq![(fields[0].0@, json_view(fields[0].1))] + json_view_members(fields.drop_first())
    }
}

/// The model of one JSON value.
pub open spec fn json_view(v: JsonVal) -> JsonView
    decreases v, 1int,
{
    match v {
        JsonVal::Null => JsonView::Null,
        JsonVal::Bool(b) => JsonView::Bool(b),
        JsonVal::Num(n) => JsonView::Num(n@),
        JsonVal::Str(s) => JsonView::Str(s@),
        JsonVal::Arr(items) => JsonView::Arr(json_view_list(items@)),
        JsonVal::Obj(fields) => JsonView::Obj(json_view_members(fields@)),
    }
}

impl DeepView for JsonVal {
    type V = JsonView;

    open spec fn deep_view(&self) -> JsonView {
        json_view(*self)
    }
}

/// A list of JSON values with each element stripped.
pub open spec fn strip_list(items: Seq<JsonView>, keys: Set<Seq<char>>) -> Seq<JsonView>
    decreases items, 0int,
{
    if items.len() == 0 {
        items
    } else {
        seq![strip_keys(items[0], keys)] + strip_list(items.drop_first(), keys)
    }
}

/// A member list after dropping every member whose name is in `keys` and
/// stripping the kept members' values.
pub open spec fn strip_members(
    fields: Seq<(Seq<char>, JsonView)>,
    keys: Set<Seq<char>>,
) -> Seq<(Seq<char>, JsonView)>
    decreases fields, 0int,
{
    if fields.len() == 0 {
        fields
    } else {
        let rest = strip_members(fields.drop_first(), keys);
        if keys.contains(fields[0].0) {
            rest
        } else {
            seq![(fields[0].0, strip_keys(fields[0].1, keys))] + rest
        }
    }
}

/// `v` after dropping every member whose name is in `keys`, at every
/// nesting depth: from `v` itself when it is an object, from every object
/// standing in member position, and from every object inside an array.
pub open spec fn strip_keys(v: JsonView, keys: Set<Seq<char>>) -> JsonView
    decreases v, 1int,
{
    match v {
        JsonView::Obj(fields) => JsonView::Obj(strip_members(fields, keys)),
        JsonView::Arr(items) => JsonView::Arr(strip_list(items, keys)),
        _ => v,
    }
}

/// Whether no member named by `keys` survives anywhere in the value:
/// neither in an object, nor in any member value, nor inside any array
/// element, at any depth.
pub open spec fn free_of_keys(v: JsonView, keys: Set<Seq<char>>) -> bool
    decreases v,
{
    match v {
        JsonView::Obj(fields) => forall|i: int|
            0 <= i < fields.len() ==> !keys.contains((#[trigger] fields[i]).0) && free_of_keys(
                fields[i].1,
                keys,
            ),
        JsonView::Arr(items) => forall|i: int|
            0 <= i < items.len() ==> free_of_keys(#[trigger] items[i], keys),
        _ => true,
    }
}

/// The model of a list is the models of its elements, in order.
pub proof fn lemma_json_view_list_index(items: Seq<JsonVal>)
    ensures
        json_view_list(items).len() == items.len(),
        forall|i: int|
            0 <= i < items.len() ==> #[trigger] json_view_list(items)[i] == json_view(items[i]),
    decreases items,
{
    if items.len() > 0 {
        lemma_json_view_list_index(items.drop_first());
    }
}

/// The model of a member list pairs each name's characters with the model
/// of its value, in order.
pub proof fn lemma_json_view_members_index(fields: Seq<(String, JsonVal)>)
    ensures
        json_view_members(fields).len() == fields.len(),
        forall|i: int|
            0 <= i < fields.len() ==> #[trigger] json_view_members(fields)[i] == (
                fields[i].0@,
                json_view(fields[i].1),
            ),
    decreases fields,
{
    if fields.len() > 0 {
        lemma_json_view_members_index(fields.drop_first());
    }
}

impl JsonVal {
    /// Duplicates a JSON value; the copy has the same model.
    pub fn clone_val(&self) -> (r: JsonVal)
        ensures
            json_view(r) == json_view(*self),
        decreases *self, 1int,
    {
        match self {
            JsonVal::Null => JsonVal::Null,
            JsonVal::Bool(b) => JsonVal::Bool(*b),
            JsonVal::Num(n) => JsonVal::Num(n.clone()),
            JsonVal::Str(s) => JsonVal::Str(s.clone()),
            JsonVal::Arr(items) => {
                proof {
                    assert(decreases_to!(*self => items@));
                }
                JsonVal::Arr(clone_json_list(items))
            },
            JsonVal::Obj(fields) => {
                proof {
                    assert(decreases_to!(*self => fields@));
                }
                JsonVal::Obj(clone_json_members(fields))
            },
        }
    }
}

fn clone_json_list(items: &Vec<JsonVal>) -> (r: Vec<JsonVal>)
    ensures
        json_view_list(r@) == json_view_list(items@),
    decreases items@, 0int,
{
    let mut r: Vec<JsonVal> = Vec::new();
    let mut i: usize = 0;
    while i < items.len()
        invariant
            i <= items.len(),
            r@.len() == i,
            forall|j: int| 0 <= j < i ==> json_view(#[trigger] r@[j]) == json_view(items@[j]),
        decreases items.len() - i,
    {
        proof {
            assert(decreases_to!(items@ => items@[i as int]));
        }
        r.push(items[i].clone_val());
        i += 1;
    }
    proof {
        lemma_json_view_list_index(r@);
        lemma_json_view_list_index(items@);
        assert(json_view_list(r@) =~= json_view_list(items@));
    }
    r
}

fn clone_json_members(fields: &Vec<(String, JsonVal)>) -> (r: Vec<(String, JsonVal)>)
    ensures
        json_view_members(r@) == json_view_members(fields@),
    decreases fields@, 0int,
{
    let mut r: Vec<(String, JsonVal)> = Vec::new();
    let mut i: usize = 0;
    while i < fields.len()
        invariant
            i <= fields.len(),
            r@.len() == i,
            forall|j: int|
                0 <= j < i ==> (#[trigger] r@[j]).0@ == fields@[j].0@ && json_view(r@[j].1)
                    == json_view(fields@[j].1),
        decreases fields.len() - i,
    {
        let pair = &fields[i];
        proof {
            assert(decreases_to!(fields@ => fields@[i as int]));
            assert(decreases_to!(fields@[i as int] => fields@[i as int].1));
        }
        r.push((pair.0.clone(), pair.1.clone_val()));
        i += 1;
    }
    proof {
        lemma_json_view_members_index(r@);
        lemma_json_view_members_index(fields@);
        assert(json_view_members(r@) =~= json_view_members(fields@));
    }
    r
}

/// Stripping removes every reachable member named by `keys`.
pub proof fn lemma_strip_keys_free(v: JsonView, keys: Set<Seq<char>>)
    ensures
        free_of_keys(strip_keys(v, keys), keys),
    decreases v, 1int,
{
    match v {
        JsonView::Obj(fields) => {
            lemma_strip_members_free(fields, keys);
            let sm = strip_members(fields, keys);
            assert(strip_keys(v, keys) == JsonView::Obj(sm));
            assert forall|i: int| 0 <= i < sm.len() implies !keys.contains(
                (#[trigger] sm[i]).0,
            ) && free_of_keys(sm[i].1, keys) by {
                assert(!keys.contains(strip_members(fields, keys)[i].0));
                assert(free_of_keys(strip_members(fields, keys)[i].1, keys));
            }
        },
        JsonView::Arr(items) => {
            lemma_strip_list_free(items, keys);
            let sl = strip_list(items, keys);
            assert(strip_keys(v, keys) == JsonView::Arr(sl));
            assert forall|i: int| 0 <= i < sl.len() implies free_of_keys(
                #[trigger] sl[i],
                keys,
            ) by {
                assert(free_of_keys(strip_list(items, keys)[i], keys));
            }
        },
        _ => {},
    }
}

/// Stripping a list strips every element.
pub proof fn lemma_strip_list_free(items: Seq<JsonView>, keys: Set<Seq<char>>)
    ensures
        forall|i: int|
            0 <= i < strip_list(items, keys).len() ==> free_of_keys(
                #[trigger] strip_list(items, keys)[i],
                keys,
            ),
    decreases items, 0int,
{
    if items.len() > 0 {
        let rest = strip_list(items.drop_first(), keys);
        lemma_strip_list_free(items.drop_first(), keys);
        lemma_strip_keys_free(items[0], keys);
        let head = strip_keys(items[0], keys);
        assert(strip_list(items, keys) == seq![head] + rest);
        assert forall|i: int| 0 <= i < strip_list(items, keys).len() implies free_of_keys(
            #[trigger] strip_list(items, keys)[i],
            keys,
        ) by {
            if i == 0 {
                assert(strip_list(items, keys)[i] == head);
            } else {
                assert(strip_list(items, keys)[i] == rest[i - 1]);
            }
        }
    }
}

/// Stripping a member list keeps no member named by `keys`, and what it
/// keeps is itself stripped.
pub proof fn lemma_strip_members_free(
    fields: Seq<(Seq<char>, JsonView)>,
    keys: Set<Seq<char>>,
)
    ensures
        forall|i: int|
            0 <= i < strip_members(fields, keys).len() ==> !keys.contains(
                (#[trigger] strip_members(fields, keys)[i]).0,
            ) && free_of_keys(strip_members(fields, keys)[i].1, keys),
    decreases fields, 0int,
{
    if fields.len() > 0 {
        let rest = strip_members(fields.drop_first(), keys);
        lemma_strip_members_free(fields.drop_first(), keys);
        if keys.contains(fields[0].0) {
            assert(strip_members(fields, keys) == rest);
        } else {
            lemma_strip_keys_free(fields[0].1, keys);
            let head = (fields[0].0, strip_keys(fields[0].1, keys));
            assert(strip_members(fields, keys) == seq![head] + rest);
            assert forall|i: int| 0 <= i < strip_members(fields, keys).len() implies !keys.contains(
                (#[trigger] strip_members(fields, keys)[i]).0,
            ) && free_of_keys(strip_members(fields, keys)[i].1, keys) by {
                if i == 0 {
                    assert(strip_members(fields, keys)[i] == head);
                } else {
                    assert(strip_members(fields, keys)[i] == rest[i - 1]);
                }
            }
        }
    }
}

} // verus!
