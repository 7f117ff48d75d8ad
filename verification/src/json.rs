//! JSON values as the shell's logic holds them, and the edits it makes to
//! them.
use vstd::prelude::*;

use crate::text::{str_eq, split_on, split_all};

verus! {

/// A JSON value. A number keeps its JSON text; an object keeps its members
/// in a list in which no key occurs twice.
#[derive(Debug, PartialEq)]
pub enum Json {
    Null,
    Bool(bool),
    Number(String),
    Str(String),
    Array(Vec<Json>),
    Object(Vec<(String, Json)>),
}

/// A JSON value in specifications, with strings as character sequences.
pub enum JsonV {
    Null,
    Bool(bool),
    Number(Seq<char>),
    Str(Seq<char>),
    Array(Seq<JsonV>),
    Object(Seq<(Seq<char>, JsonV)>),
}

/// The members of an object, in specification form.
pub open spec fn pairs_view(ps: Seq<(String, Json)>) -> Seq<(Seq<char>, JsonV)>
    decreases ps,
{
    Seq::new(
        ps.len(),
        |i: int|
            if 0 <= i < ps.len() {
                (ps[i].0@, json_view(ps[i].1))
            } else {
                (Seq::empty(), JsonV::Null)
            },
    )
}

/// The items of an array, in specification form.
pub open spec fn items_view(items: Seq<Json>) -> Seq<JsonV>
    decreases items,
{
    Seq::new(
        items.len(),
        |i: int|
            if 0 <= i < items.len() {
                json_view(items[i])
            } else {
                JsonV::Null
            },
    )
}

/// A JSON value in specification form.
pub open spec fn json_view(j: Json) -> JsonV
    decreases j,
{
    match j {
        Json::Null => JsonV::Null,
        Json::Bool(b) => JsonV::Bool(b),
        Json::Number(n) => JsonV::Number(n@),
        Json::Str(s) => JsonV::Str(s@),
        Json::Array(items) => JsonV::Array(items_view(items@)),
        Json::Object(ps) => JsonV::Object(pairs_view(ps@)),
    }
}

impl View for Json {
    type V = JsonV;

    open spec fn view(&self) -> JsonV {
        json_view(*self)
    }
}

/// Where the first member named `k` stands; `-1` when there is none.
pub open spec fn key_index(ps: Seq<(Seq<char>, JsonV)>, k: Seq<char>) -> int
    decreases ps.len(),
{
    if ps.len() == 0 {
        -1
    } else if ps[0].0 == k {
        0
    } else {
        let r = key_index(ps.drop_first(), k);
        if r < 0 {
            -1
        } else {
            r + 1
        }
    }
}

/// What `key_index` says: the first member with that key, or none at all.
pub proof fn lemma_key_index(ps: Seq<(Seq<char>, JsonV)>, k: Seq<char>)
    ensures
        -1 <= key_index(ps, k) < ps.len(),
        key_index(ps, k) >= 0 ==> ps[key_index(ps, k)].0 == k,
        forall|j: int| 0 <= j < ps.len() && (key_index(ps, k) < 0 || j < key_index(ps, k)) ==> #[trigger] ps[j].0 != k,
    decreases ps.len(),
{
    if ps.len() > 0 && ps[0].0 != k {
        lemma_key_index(ps.drop_first(), k);
        assert forall|j: int| 0 <= j < ps.len() && (key_index(ps, k) < 0 || j < key_index(ps, k)) implies #[trigger] ps[j].0 != k by {
            if j > 0 {
                assert(ps[j] == ps.drop_first()[j - 1]);
            }
        }
    }
}

/// The value of the member named `k`.
pub open spec fn member(ps: Seq<(Seq<char>, JsonV)>, k: Seq<char>) -> Option<JsonV> {
    let i = key_index(ps, k);
    if i >= 0 {
        Some(ps[i].1)
    } else {
        None
    }
}

/// The members with `k` set to `v`: in its place if present, else at the end.
pub open spec fn member_set(ps: Seq<(Seq<char>, JsonV)>, k: Seq<char>, v: JsonV) -> Seq<(Seq<char>, JsonV)> {
    let i = key_index(ps, k);
    if i >= 0 {
        ps.update(i, (k, v))
    } else {
        ps.push((k, v))
    }
}

/// The members without the one named `k`.
pub open spec fn member_remove(ps: Seq<(Seq<char>, JsonV)>, k: Seq<char>) -> Seq<(Seq<char>, JsonV)> {
    let i = key_index(ps, k);
    if i >= 0 {
        ps.remove(i)
    } else {
        ps
    }
}

impl JsonV {
    /// The member `k` of an object; `None` for other values.
    pub open spec fn get(self, k: Seq<char>) -> Option<JsonV> {
        match self {
            JsonV::Object(ps) => member(ps, k),
            _ => None,
        }
    }

    /// The members of an object; none for other values.
    pub open spec fn members(self) -> Seq<(Seq<char>, JsonV)> {
        match self {
            JsonV::Object(ps) => ps,
            _ => seq![],
        }
    }
}

/// Where the member named `key` stands in `ps`.
pub fn find_key(ps: &Vec<(String, Json)>, key: &str) -> (r: Option<usize>)
    ensures
        match r {
            Some(i) => i == key_index(pairs_view(ps@), key@) && i < ps@.len(),
            None => key_index(pairs_view(ps@), key@) == -1,
        },
{
    let ghost pv = pairs_view(ps@);
    proof {
        lemma_key_index(pv, key@);
    }
    let n = ps.len();
    for i in 0..n
        invariant
            n == ps@.len(),
            pv == pairs_view(ps@),
            -1 <= key_index(pv, key@) < pv.len(),
            key_index(pv, key@) >= 0 ==> pv[key_index(pv, key@)].0 == key@,
            forall|j: int| 0 <= j < pv.len() && (key_index(pv, key@) < 0 || j < key_index(pv, key@)) ==> #[trigger] pv[j].0 != key@,
            forall|j: int| 0 <= j < i ==> #[trigger] pv[j].0 != key@,
    {
        assert(pv[i as int].0 == ps@[i as int].0@);
        if str_eq(ps[i].0.as_str(), key) {
            return Some(i);
        }
    }
    None
}

impl Json {
    /// A copy of the value, item by item.
    pub fn copy(&self) -> (r: Json)
        ensures
            r@ == self@,
        decreases self,
    {
        match self {
            Json::Null => Json::Null,
            Json::Bool(b) => Json::Bool(*b),
            Json::Number(n) => Json::Number(n.clone()),
            Json::Str(s) => Json::Str(s.clone()),
            Json::Array(items) => {
                let mut out: Vec<Json> = Vec::new();
                let n = items.len();
                for i in 0..n
                    invariant
                        n == items@.len(),
                        *self == Json::Array(*items),
                        items_view(out@) == items_view(items@).take(i as int),
                {
                    assert((*self)->Array_0 == *items);
                    assert(decreases_to!(*self => (*self)->Array_0));
                    assert(decreases_to!(*items => items@));
                    assert(decreases_to!(items@ => items@[i as int]));
                    let c = items[i].copy();
                    let ghost before = out@;
                    out.push(c);
                    assert(items_view(out@) =~= items_view(before).push(json_view(c)));
                    assert(items_view(items@).take(i + 1) =~= items_view(items@).take(i as int).push(json_view(items@[i as int])));
                }
                assert(items_view(items@).take(n as int) =~= items_view(items@));
                Json::Array(out)
            },
            Json::Object(ps) => {
                let mut out: Vec<(String, Json)> = Vec::new();
                let n = ps.len();
                for i in 0..n
                    invariant
                        n == ps@.len(),
                        *self == Json::Object(*ps),
                        pairs_view(out@) == pairs_view(ps@).take(i as int),
                {
                    let k = ps[i].0.clone();
                    assert((*self)->Object_0 == *ps);
                    assert(decreases_to!(*self => (*self)->Object_0));
                    assert(decreases_to!(*ps => ps@));
                    assert(decreases_to!(ps@ => ps@[i as int]));
                    assert(decreases_to!(ps@[i as int] => ps@[i as int].1));
                    let c = ps[i].1.copy();
                    let ghost before = out@;
                    out.push((k, c));
                    assert(pairs_view(out@) =~= pairs_view(before).push((k@, json_view(c))));
                    assert(pairs_view(ps@).take(i + 1) =~= pairs_view(ps@).take(i as int).push((ps@[i as int].0@, json_view(ps@[i as int].1))));
                }
                assert(pairs_view(ps@).take(n as int) =~= pairs_view(ps@));
                Json::Object(out)
            },
        }
    }

    /// The member `key` of an object; `None` for other values or a missing key.
    pub fn get(&self, key: &str) -> (r: Option<&Json>)
        ensures
            match self@.get(key@) {
                None => r is None,
                Some(v) => (r matches Some(x) && x@ == v),
            },
    {
        match self {
            Json::Object(ps) => match find_key(ps, key) {
                Some(i) => Some(&ps[i].1),
                None => None,
            },
            _ => None,
        }
    }

    /// The text of a string value.
    pub fn as_str(&self) -> (r: Option<&String>)
        ensures
            match self@ {
                JsonV::Str(s) => (r matches Some(x) && x@ == s),
                _ => r is None,
            },
    {
        match self {
            Json::Str(s) => Some(s),
            _ => None,
        }
    }

    /// The value of a boolean.
    pub fn as_bool(&self) -> (r: Option<bool>)
        ensures
            match self@ {
                JsonV::Bool(b) => r == Some(b),
                _ => r is None,
            },
    {
        match self {
            Json::Bool(b) => Some(*b),
            _ => None,
        }
    }

    /// The items of an array.
    pub fn as_array(&self) -> (r: Option<&Vec<Json>>)
        ensures
            match self@ {
                JsonV::Array(items) => (r matches Some(x) && items_view(x@) == items),
                _ => r is None,
            },
    {
        match self {
            Json::Array(items) => Some(items),
            _ => None,
        }
    }

    /// A string value with the text `s`.
    pub fn str_of(s: &str) -> (r: Json)
        ensures
            r@ == JsonV::Str(s@),
    {
        Json::Str(s.to_owned())
    }

    /// A number value written `text`.
    pub fn number_of(text: &str) -> (r: Json)
        ensures
            r@ == JsonV::Number(text@),
    {
        Json::Number(text.to_owned())
    }

    /// Whether the value is `null`.
    pub fn is_null(&self) -> (r: bool)
        ensures
            r == (self@ is Null),
    {
        match self {
            Json::Null => true,
            _ => false,
        }
    }

    /// Whether the value is an object.
    pub fn is_object(&self) -> (r: bool)
        ensures
            r == (self@ is Object),
    {
        match self {
            Json::Object(_) => true,
            _ => false,
        }
    }
}

/// Sets the member `key` of the object members `ps` to `value`, in place if
/// it is there, else at the end.
pub fn set_member(ps: &mut Vec<(String, Json)>, key: String, value: Json)
    ensures
        pairs_view(final(ps)@) == member_set(pairs_view(old(ps)@), key@, value@),
{
    match find_key(ps, key.as_str()) {
        Some(i) => {
            let ghost k = key@;
            let _ = ps.remove(i);
            ps.insert(i, (key, value));
            assert(pairs_view(ps@) =~= pairs_view(old(ps)@).update(i as int, (k, value@)));
        },
        None => {
            let ghost k = key@;
            ps.push((key, value));
            assert(pairs_view(ps@) =~= pairs_view(old(ps)@).push((k, value@)));
        },
    }
}

/// Removes the member `key` from the object members `ps`.
pub fn remove_member(ps: &mut Vec<(String, Json)>, key: &str)
    ensures
        pairs_view(final(ps)@) == member_remove(pairs_view(old(ps)@), key@),
{
    match find_key(ps, key) {
        Some(i) => {
            let _ = ps.remove(i);
            assert(pairs_view(ps@) =~= pairs_view(old(ps)@).remove(i as int));
        },
        None => {},
    }
}

/// `v` placed at the path `segs` below `node`: each step makes the value
/// an object (a value that is not one is replaced by `{}`), and a missing
/// step is created as `{}`.
pub open spec fn set_path(node: JsonV, segs: Seq<Seq<char>>, v: JsonV) -> JsonV
    decreases segs.len(),
{
    let ps = node.members();
    if segs.len() <= 1 {
        JsonV::Object(member_set(ps, segs[0], v))
    } else {
        let child = match member(ps, segs[0]) {
            Some(c) => c,
            None => JsonV::Object(seq![]),
        };
        JsonV::Object(member_set(ps, segs[0], set_path(child, segs.drop_first(), v)))
    }
}

/// The value at the path `segs` below `node`, through objects.
pub open spec fn get_path(node: JsonV, segs: Seq<Seq<char>>) -> Option<JsonV>
    decreases segs.len(),
{
    if segs.len() == 0 {
        Some(node)
    } else {
        match node.get(segs[0]) {
            None => None,
            Some(c) => get_path(c, segs.drop_first()),
        }
    }
}

/// Sets `v` at the path `segs` from `i` on, below `node`.
fn set_path_from(node: Json, segs: &Vec<String>, i: usize, value: Json) -> (r: Json)
    requires
        i < segs@.len(),
    ensures
        r@ == set_path(node@, segs@.map_values(|s: String| s@).skip(i as int), value@),
    decreases segs@.len() - i,
{
    let ghost sv = segs@.map_values(|s: String| s@);
    let ghost old_node = node@;
    let mut ps: Vec<(String, Json)> = match node {
        Json::Object(ps) => ps,
        _ => Vec::new(),
    };
    assert(pairs_view(ps@) == old_node.members());
    assert(sv.skip(i as int)[0] == sv[i as int]);
    assert(segs@[i as int]@ == sv[i as int]);
    if i == segs.len() - 1 {
        let key = segs[i].clone();
        set_member(&mut ps, key, value);
    } else {
        assert(sv.skip(i as int).drop_first() == sv.skip(i + 1));
        match find_key(&ps, segs[i].as_str()) {
            Some(idx) => {
                proof {
                    lemma_key_index(pairs_view(ps@), sv[i as int]);
                }
                let ghost before = ps@;
                let (k, child) = ps.remove(idx);
                assert(json_view(child) == pairs_view(before)[idx as int].1);
                let newc = set_path_from(child, segs, i + 1, value);
                ps.insert(idx, (k, newc));
                assert(pairs_view(ps@) =~= pairs_view(before).update(
                    idx as int,
                    (sv[i as int], json_view(newc)),
                ));
            },
            None => {
                let key = segs[i].clone();
                let empty: Vec<(String, Json)> = Vec::new();
                assert(json_view(Json::Object(empty)) == JsonV::Object(seq![])) by {
                    assert(pairs_view(empty@) =~= Seq::<(Seq<char>, JsonV)>::empty());
                }
                let newc = set_path_from(Json::Object(empty), segs, i + 1, value);
                let ghost before = ps@;
                ps.push((key, newc));
                assert(pairs_view(ps@) =~= pairs_view(before).push((sv[i as int], json_view(newc))));
            },
        }
    }
    Json::Object(ps)
}

/// Sets `value` at the dotted path `path` below `root` (`"a.b"` is the
/// member `b` of the member `a`), making objects of the values on the way.
pub fn set_json_path(root: &mut Json, path: &str, value: Json)
    ensures
        final(root)@ == set_path(old(root)@, split_all(path@, '.'), value@),
{
    let segs = split_on(path, '.');
    let mut node = Json::Null;
    std::mem::swap(&mut node, root);
    assert(segs@.map_values(|s: String| s@).skip(0) == segs@.map_values(|s: String| s@));
    let r = set_path_from(node, &segs, 0, value);
    *root = r;
}

/// Setting a member and reading it back gives what was set.
pub proof fn lemma_member_set_get(ps: Seq<(Seq<char>, JsonV)>, k: Seq<char>, v: JsonV)
    ensures
        member(member_set(ps, k, v), k) == Some(v),
{
    lemma_key_index(ps, k);
    let qs = member_set(ps, k, v);
    lemma_key_index(qs, k);
    let i = key_index(ps, k);
    if i >= 0 {
        assert(qs[i].0 == k);
        if key_index(qs, k) < 0 || key_index(qs, k) > i {
            assert(qs[i].0 != k);
        }
    } else {
        assert(qs[ps.len() as int].0 == k);
        if key_index(qs, k) >= 0 && key_index(qs, k) < ps.len() {
            assert(qs[key_index(qs, k)] == ps[key_index(qs, k)]);
        }
    }
}

/// What a write at a dotted path puts there, a read along the same path
/// gives back: after `set_json_path(root, path, v)`, the value at the
/// pieces of `path` is `v`.
pub proof fn law_set_then_get_path(root: JsonV, segs: Seq<Seq<char>>, v: JsonV)
    requires
        segs.len() >= 1,
    ensures
        get_path(set_path(root, segs, v), segs) == Some(v),
    decreases segs.len(),
{
    let ps = root.members();
    if segs.len() <= 1 {
        lemma_member_set_get(ps, segs[0], v);
        assert(segs.drop_first().len() == 0);
        let r = set_path(root, segs, v);
        assert(r == JsonV::Object(member_set(ps, segs[0], v)));
        assert(r.get(segs[0]) == Some(v));
        assert(get_path(v, segs.drop_first()) == Some(v));
        assert(get_path(r, segs) == get_path(v, segs.drop_first()));
    } else {
        let child = match member(ps, segs[0]) {
            Some(c) => c,
            None => JsonV::Object(seq![]),
        };
        let newc = set_path(child, segs.drop_first(), v);
        lemma_member_set_get(ps, segs[0], newc);
        law_set_then_get_path(child, segs.drop_first(), v);
        let r = set_path(root, segs, v);
        assert(r == JsonV::Object(member_set(ps, segs[0], newc)));
        assert(r.get(segs[0]) == Some(newc));
        assert(get_path(r, segs) == get_path(newc, segs.drop_first()));
    }
}

/// The members whose values are not `null`, in order.
pub open spec fn drop_nulls(ps: Seq<(Seq<char>, JsonV)>) -> Seq<(Seq<char>, JsonV)>
    decreases ps.len(),
{
    if ps.len() == 0 {
        ps
    } else {
        let r = drop_nulls(ps.drop_last());
        if ps.last().1 is Null {
            r
        } else {
            r.push(ps.last())
        }
    }
}

/// Each member with its value pruned.
pub open spec fn pruned_members(ps: Seq<(Seq<char>, JsonV)>) -> Seq<(Seq<char>, JsonV)>
    decreases ps,
{
    Seq::new(
        ps.len(),
        |i: int|
            if 0 <= i < ps.len() {
                (ps[i].0, pruned(ps[i].1))
            } else {
                (Seq::empty(), JsonV::Null)
            },
    )
}

/// Each item pruned.
pub open spec fn pruned_items(items: Seq<JsonV>) -> Seq<JsonV>
    decreases items,
{
    Seq::new(
        items.len(),
        |i: int|
            if 0 <= i < items.len() {
                pruned(items[i])
            } else {
                JsonV::Null
            },
    )
}

/// The value with every `null` member of every object dropped, at every
/// depth; array items are kept (their contents pruned).
pub open spec fn pruned(j: JsonV) -> JsonV
    decreases j,
{
    match j {
        JsonV::Object(ps) => JsonV::Object(drop_nulls(pruned_members(ps))),
        JsonV::Array(items) => JsonV::Array(pruned_items(items)),
        _ => j,
    }
}

/// No object member anywhere in the value is `null`.
pub open spec fn no_null_members(j: JsonV) -> bool
    decreases j,
{
    match j {
        JsonV::Object(ps) => forall|i: int|
            0 <= i < ps.len() ==> !(#[trigger] ps[i].1 is Null) && no_null_members(ps[i].1),
        JsonV::Array(items) => forall|i: int| 0 <= i < items.len() ==> no_null_members(#[trigger] items[i]),
        _ => true,
    }
}

/// A pruned copy of `v`.
fn pruned_copy(v: &Json) -> (r: Json)
    ensures
        r@ == pruned(v@),
    decreases v,
{
    match v {
        Json::Object(ps) => {
            let ghost src = pairs_view(ps@);
            let ghost mapped = pruned_members(src);
            let mut out: Vec<(String, Json)> = Vec::new();
            let n = ps.len();
            for i in 0..n
                invariant
                    n == ps@.len(),
                    *v == Json::Object(*ps),
                    src == pairs_view(ps@),
                    mapped == pruned_members(src),
                    pairs_view(out@) == drop_nulls(mapped.take(i as int)),
            {
                assert((*v)->Object_0 == *ps);
                assert(decreases_to!(*v => (*v)->Object_0));
                assert(decreases_to!(*ps => ps@));
                assert(decreases_to!(ps@ => ps@[i as int]));
                assert(decreases_to!(ps@[i as int] => ps@[i as int].1));
                let c = pruned_copy(&ps[i].1);
                assert(mapped.take(i + 1).drop_last() == mapped.take(i as int));
                assert(mapped.take(i + 1).last() == mapped[i as int]);
                assert(mapped[i as int] == (ps@[i as int].0@, json_view(c)));
                if !c.is_null() {
                    let k = ps[i].0.clone();
                    let ghost before = out@;
                    out.push((k, c));
                    assert(pairs_view(out@) =~= pairs_view(before).push((k@, json_view(c))));
                }
            }
            assert(mapped.take(n as int) == mapped);
            assert(v@ == JsonV::Object(src));
            assert(pruned(JsonV::Object(src)) == JsonV::Object(drop_nulls(mapped)));
            Json::Object(out)
        },
        Json::Array(items) => {
            let mut out: Vec<Json> = Vec::new();
            let n = items.len();
            for i in 0..n
                invariant
                    n == items@.len(),
                    *v == Json::Array(*items),
                    items_view(out@) == pruned_items(items_view(items@)).take(i as int),
            {
                assert((*v)->Array_0 == *items);
                assert(decreases_to!(*v => (*v)->Array_0));
                assert(decreases_to!(*items => items@));
                assert(decreases_to!(items@ => items@[i as int]));
                let c = pruned_copy(&items[i]);
                let ghost before = out@;
                out.push(c);
                assert(items_view(out@) =~= items_view(before).push(json_view(c)));
                assert(pruned_items(items_view(items@)).take(i + 1) =~= pruned_items(items_view(items@)).take(i as int).push(json_view(c)));
            }
            assert(pruned_items(items_view(items@)).take(n as int) == pruned_items(items_view(items@)));
            Json::Array(out)
        },
        Json::Null => Json::Null,
        Json::Bool(b) => Json::Bool(*b),
        Json::Number(n) => Json::Number(n.clone()),
        Json::Str(s) => Json::Str(s.clone()),
    }
}

/// Drops every `null` member of every object in `value`, at every depth.
pub fn prune_json_nulls(value: &mut Json)
    ensures
        final(value)@ == pruned(old(value)@),
{
    let r = pruned_copy(value);
    *value = r;
}

/// Members kept by `drop_nulls` are members of the input and are not `null`.
proof fn lemma_drop_nulls(ps: Seq<(Seq<char>, JsonV)>)
    ensures
        forall|i: int| 0 <= i < drop_nulls(ps).len() ==> !(#[trigger] drop_nulls(ps)[i].1 is Null),
        forall|i: int| 0 <= i < drop_nulls(ps).len() ==> ps.contains(#[trigger] drop_nulls(ps)[i]),
    decreases ps.len(),
{
    if ps.len() > 0 {
        lemma_drop_nulls(ps.drop_last());
        let r = drop_nulls(ps.drop_last());
        assert forall|i: int| 0 <= i < drop_nulls(ps).len() implies ps.contains(#[trigger] drop_nulls(ps)[i]) by {
            if i < r.len() {
                let j = choose|j: int| 0 <= j < ps.drop_last().len() && ps.drop_last()[j] == r[i];
                assert(ps[j] == r[i]);
            } else {
                assert(ps[ps.len() - 1] == ps.last());
            }
        }
    }
}

/// After pruning, no object member anywhere is `null`.
pub proof fn law_pruned_has_no_null_members(j: JsonV)
    ensures
        no_null_members(pruned(j)),
    decreases j,
{
    match j {
        JsonV::Object(ps) => {
            let mapped = pruned_members(ps);
            lemma_drop_nulls(mapped);
            let out = drop_nulls(mapped);
            assert(pruned(j) == JsonV::Object(out));
            assert forall|i: int| 0 <= i < out.len() implies !(#[trigger] out[i].1 is Null) && no_null_members(out[i].1) by {
                assert(mapped.contains(out[i]));
                let k = choose|k: int| 0 <= k < mapped.len() && mapped[k] == out[i];
                law_pruned_has_no_null_members(ps[k].1);
            }
        },
        JsonV::Array(items) => {
            let out = pruned_items(items);
            assert forall|i: int| 0 <= i < out.len() implies no_null_members(#[trigger] out[i]) by {
                law_pruned_has_no_null_members(items[i]);
            }
        },
        _ => {},
    }
}

/// Neither path is the start of the other: they part at some step.
pub open spec fn paths_apart(a: Seq<Seq<char>>, b: Seq<Seq<char>>) -> bool {
    !a.is_prefix_of(b) && !b.is_prefix_of(a)
}

/// A member of a value that is not an object is never found.
proof fn lemma_members_get(x: JsonV, k: Seq<char>)
    ensures
        member(x.members(), k) == x.get(k),
{
    if !(x is Object) {
        assert(key_index(Seq::<(Seq<char>, JsonV)>::empty(), k) == -1);
    }
}

/// A write at one path leaves what lies at another path apart from it.
pub proof fn lemma_set_path_apart(x: JsonV, s2: Seq<Seq<char>>, v2: JsonV, s1: Seq<Seq<char>>)
    requires
        s1.len() >= 1,
        s2.len() >= 1,
        paths_apart(s1, s2),
    ensures
        get_path(set_path(x, s2, v2), s1) == get_path(x, s1),
    decreases s1.len(),
{
    let ps = x.members();
    let child = match member(ps, s2[0]) {
        Some(c) => c,
        None => JsonV::Object(seq![]),
    };
    let w = if s2.len() <= 1 { v2 } else { set_path(child, s2.drop_first(), v2) };
    let y = set_path(x, s2, v2);
    assert(y == JsonV::Object(member_set(ps, s2[0], w)));
    lemma_members_get(x, s1[0]);
    if s1[0] != s2[0] {
        lemma_member_set_other(ps, s2[0], w, s1[0]);
        assert(y.get(s1[0]) == x.get(s1[0]));
    } else {
        if s1.len() == 1 {
            assert(s1 =~= s2.subrange(0, 1));
            assert(false);
        }
        if s2.len() == 1 {
            assert(s2 =~= s1.subrange(0, 1));
            assert(false);
        }
        let (t1, t2) = (s1.drop_first(), s2.drop_first());
        assert(paths_apart(t1, t2)) by {
            if t1.is_prefix_of(t2) {
                assert forall|j: int| 0 <= j < s1.len() implies #[trigger] s1[j] == s2[j] by {
                    if j > 0 {
                        assert(s1[j] == t1[j - 1]);
                        assert(t1[j - 1] == t2.subrange(0, t1.len() as int)[j - 1]);
                        assert(s2[j] == t2[j - 1]);
                    }
                }
                assert(s1 =~= s2.subrange(0, s1.len() as int));
            }
            if t2.is_prefix_of(t1) {
                assert forall|j: int| 0 <= j < s2.len() implies #[trigger] s2[j] == s1[j] by {
                    if j > 0 {
                        assert(s2[j] == t2[j - 1]);
                        assert(t2[j - 1] == t1.subrange(0, t2.len() as int)[j - 1]);
                        assert(s1[j] == t1[j - 1]);
                    }
                }
                assert(s2 =~= s1.subrange(0, s2.len() as int));
            }
        }
        lemma_set_path_apart(child, t2, v2, t1);
        lemma_member_set_get(ps, s2[0], w);
        assert(y.get(s1[0]) == Some(w));
        assert(get_path(y, s1) == get_path(w, t1));
        if member(ps, s1[0]) is None {
            assert(key_index(Seq::<(Seq<char>, JsonV)>::empty(), t1[0]) == -1);
            assert(JsonV::Object(seq![]).get(t1[0]) is None);
        }
    }
}

/// No key occurs twice among the members.
pub open spec fn unique_keys(ps: Seq<(Seq<char>, JsonV)>) -> bool {
    forall|i: int, j: int| 0 <= i < j < ps.len() ==> #[trigger] ps[i].0 != #[trigger] ps[j].0
}

/// Setting a member leaves every other member as it was.
pub proof fn lemma_member_set_other(ps: Seq<(Seq<char>, JsonV)>, k: Seq<char>, v: JsonV, k2: Seq<char>)
    requires
        k2 != k,
    ensures
        member(member_set(ps, k, v), k2) == member(ps, k2),
{
    lemma_key_index(ps, k);
    lemma_key_index(ps, k2);
    let qs = member_set(ps, k, v);
    lemma_key_index(qs, k2);
    let a = key_index(ps, k2);
    let b = key_index(qs, k2);
    if a >= 0 {
        assert(qs[a] == ps[a] || a == key_index(ps, k));
        if a == key_index(ps, k) {
            assert(false);
        }
        if b < 0 || b > a {
            assert(qs[a].0 != k2);
        }
        if b < a {
            assert(qs[b] == ps[b] || b == key_index(ps, k));
        }
    } else {
        if b >= 0 {
            assert(qs[b] == ps[b] || qs[b].0 == k);
        }
    }
}

/// Setting a member keeps keys unique.
pub proof fn lemma_member_set_unique(ps: Seq<(Seq<char>, JsonV)>, k: Seq<char>, v: JsonV)
    requires
        unique_keys(ps),
    ensures
        unique_keys(member_set(ps, k, v)),
{
    lemma_key_index(ps, k);
    let qs = member_set(ps, k, v);
    assert forall|i: int, j: int| 0 <= i < j < qs.len() implies #[trigger] qs[i].0 != #[trigger] qs[j].0 by {
        if key_index(ps, k) < 0 && j == ps.len() {
            assert(qs[i] == ps[i]);
        } else if i == key_index(ps, k) {
            assert(qs[j] == ps[j]);
            assert(ps[i].0 != ps[j].0);
        } else if j == key_index(ps, k) {
            assert(qs[i] == ps[i]);
            assert(ps[i].0 != ps[j].0);
        } else {
            assert(qs[i] == ps[i] && qs[j] == ps[j]);
        }
    }
}

/// Removing a member keeps keys unique, and the key is gone.
pub proof fn lemma_member_remove(ps: Seq<(Seq<char>, JsonV)>, k: Seq<char>)
    requires
        unique_keys(ps),
    ensures
        unique_keys(member_remove(ps, k)),
        member(member_remove(ps, k), k) is None,
{
    lemma_key_index(ps, k);
    let qs = member_remove(ps, k);
    let i0 = key_index(ps, k);
    assert forall|i: int, j: int| 0 <= i < j < qs.len() implies #[trigger] qs[i].0 != #[trigger] qs[j].0 by {
        if i0 >= 0 {
            let a = if i < i0 { i } else { i + 1 };
            let b = if j < i0 { j } else { j + 1 };
            assert(qs[i] == ps[a] && qs[j] == ps[b]);
        } else {
            assert(qs[i] == ps[i] && qs[j] == ps[j]);
        }
    }
    lemma_key_index(qs, k);
    if key_index(qs, k) >= 0 {
        let b = key_index(qs, k);
        if i0 >= 0 {
            let a = if b < i0 { b } else { b + 1 };
            assert(qs[b] == ps[a]);
            assert(ps[a].0 == ps[i0].0);
        } else {
            assert(qs[b] == ps[b]);
        }
    }
}

/// Removing a member leaves every other member as it was.
pub proof fn lemma_member_remove_other(ps: Seq<(Seq<char>, JsonV)>, k: Seq<char>, k2: Seq<char>)
    requires
        k2 != k,
    ensures
        member(member_remove(ps, k), k2) == member(ps, k2),
{
    lemma_key_index(ps, k);
    lemma_key_index(ps, k2);
    let qs = member_remove(ps, k);
    lemma_key_index(qs, k2);
    let i0 = key_index(ps, k);
    let a = key_index(ps, k2);
    let b = key_index(qs, k2);
    if i0 >= 0 {
        if a >= 0 {
            let a2 = if a < i0 { a } else { a - 1 };
            assert(a != i0);
            assert(qs[a2] == ps[a]);
            if b < 0 || b > a2 {
                assert(qs[a2].0 == k2);
            }
            if b < a2 {
                let bb = if b < i0 { b } else { b + 1 };
                assert(qs[b] == ps[bb]);
            }
        } else if b >= 0 {
            let bb = if b < i0 { b } else { b + 1 };
            assert(qs[b] == ps[bb]);
        }
    }
}

/// A member `(key, value)` of an object.
pub fn entry(key: &str, value: Json) -> (r: (String, Json))
    ensures
        r.0@ == key@,
        r.1@ == value@,
{
    (key.to_owned(), value)
}

/// Looking a key up in members with one more at the end: the earlier
/// members decide when they hold the key.
pub proof fn lemma_member_push(r: Seq<(Seq<char>, JsonV)>, y: (Seq<char>, JsonV), k: Seq<char>)
    ensures
        member(r.push(y), k) == if member(r, k) is Some {
            member(r, k)
        } else if y.0 == k {
            Some(y.1)
        } else {
            None::<JsonV>
        },
{
    let q = r.push(y);
    lemma_key_index(r, k);
    lemma_key_index(q, k);
    let a = key_index(r, k);
    let b = key_index(q, k);
    if a >= 0 {
        assert(q[a] == r[a]);
        if b < 0 || b > a {
            assert(q[a].0 == k);
        }
        if b >= 0 && b < a {
            assert(q[b] == r[b]);
        }
    } else {
        if b >= 0 && b < r.len() {
            assert(q[b] == r[b]);
        }
        if y.0 == k && b < 0 {
            assert(q[r.len() as int].0 == k);
        }
    }
}

/// Dropping `null` members keeps the member a key finds when it is not
/// `null`, and finds nothing where there was nothing.
pub proof fn lemma_member_drop_nulls(ps: Seq<(Seq<char>, JsonV)>, k: Seq<char>)
    ensures
        member(ps, k) is None ==> member(drop_nulls(ps), k) is None,
        (member(ps, k) matches Some(x) && !(x is Null)) ==> member(drop_nulls(ps), k) == member(ps, k),
    decreases ps.len(),
{
    if ps.len() > 0 {
        let init = ps.drop_last();
        let last = ps.last();
        assert(init.push(last) == ps);
        lemma_member_drop_nulls(init, k);
        lemma_member_push(init, last, k);
        let r = drop_nulls(init);
        lemma_member_push(r, last, k);
    }
}

/// Pruning the members' values keeps the keys: a key finds the pruned
/// value of the member it found before.
pub proof fn lemma_member_pruned_members(ps: Seq<(Seq<char>, JsonV)>, k: Seq<char>)
    ensures
        member(pruned_members(ps), k) == match member(ps, k) {
            Some(x) => Some(pruned(x)),
            None => None::<JsonV>,
        },
    decreases ps.len(),
{
    let pm = pruned_members(ps);
    if ps.len() > 0 {
        assert(pm.drop_first() =~= pruned_members(ps.drop_first()));
        lemma_member_pruned_members(ps.drop_first(), k);
        lemma_key_index(ps, k);
        lemma_key_index(pm, k);
        lemma_key_index(ps.drop_first(), k);
        lemma_key_index(pm.drop_first(), k);
        assert(pm[0] == (ps[0].0, pruned(ps[0].1)));
        if ps[0].0 != k {
            let a = key_index(ps.drop_first(), k);
            if a >= 0 {
                assert(ps.drop_first()[a] == ps[a + 1]);
                assert(pm.drop_first()[a] == pm[a + 1]);
            }
        }
    }
}

/// Pruning keeps what lies along a path of objects: where `v` (not `null`)
/// was found, its pruned form is found.
pub proof fn lemma_get_path_pruned(x: JsonV, segs: Seq<Seq<char>>, v: JsonV)
    requires
        get_path(x, segs) == Some(v),
        !(v is Null),
    ensures
        get_path(pruned(x), segs) == Some(pruned(v)),
    decreases segs.len(),
{
    if segs.len() > 0 {
        let ps = x->Object_0;
        let ch = x.get(segs[0])->0;
        assert(x is Object);
        lemma_member_pruned_members(ps, segs[0]);
        let pm = pruned_members(ps);
        assert(member(pm, segs[0]) == Some(pruned(ch)));
        if segs.len() > 1 {
            assert(ch is Object) by {
                if !(ch is Object) {
                    assert(ch.get(segs.drop_first()[0]) is None);
                }
            }
        }
        assert(!(pruned(ch) is Null)) by {
            if segs.len() == 1 {
                assert(get_path(ch, segs.drop_first()) == Some(ch));
            }
        }
        lemma_member_drop_nulls(pm, segs[0]);
        lemma_get_path_pruned(ch, segs.drop_first(), v);
    }
}

} // verus!
