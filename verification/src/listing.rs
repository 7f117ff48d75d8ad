//! Listing a workspace directory for the frontend: which directory, which
//! entries, and in which order.
use vstd::prelude::*;

use crate::auth::{str_member, string_member};
use crate::header::{chars_lt, lemma_chars_lt_irreflexive, lemma_chars_lt_transitive};
use crate::json::{Json, JsonV, items_view};
use crate::messages::obj4;
use crate::text::chars_of;
use crate::paths::{path_starts_with, path_within};

verus! {

broadcast use vstd::seq_lib::group_to_multiset_ensures;

/// The name of what `str::to_lowercase` gives for a text.
pub uninterp spec fn lowercase(s: Seq<char>) -> Seq<char>;

/// `str::to_lowercase`: the text with each character mapped to lowercase
/// by Unicode's rules. Stated: the result is that mapping of the text and
/// nothing else; which characters it changes is left unsaid.
#[verifier::external_body]
fn to_lowercase(s: &str) -> (r: String)
    ensures
        r@ == lowercase(s@),
{
    s.to_lowercase()
}

/// The directory to list, below which root, and whether hidden entries
/// are listed.
#[derive(Debug, PartialEq)]
pub struct DirectoryQuery {
    pub root: String,
    pub target: String,
    pub include_hidden: bool,
}

/// What a listing request asks for: the root is `workspaceRoot`, else the
/// first workspace root (none: nothing to list); the directory is
/// `directoryPath`, else the root; hidden entries only when
/// `includeHidden` is `true`.
pub open spec fn directory_query_v(request: JsonV, first_root: Option<Seq<char>>) -> Option<
    (Seq<char>, Seq<char>, bool),
> {
    let root = match str_member(request, "workspaceRoot"@) {
        Some(r) => Some(r),
        None => first_root,
    };
    match root {
        None => None,
        Some(r) => Some(
            (
                r,
                match str_member(request, "directoryPath"@) {
                    Some(d) => d,
                    None => r,
                },
                match request.get("includeHidden"@) {
                    Some(JsonV::Bool(b)) => b,
                    _ => false,
                },
            ),
        ),
    }
}

/// What a listing request asks for, given the first workspace root.
pub fn directory_query(request: &Json, first_root: Option<&str>) -> (r: Option<DirectoryQuery>)
    ensures
        match directory_query_v(request@, match first_root { Some(f) => Some(f@), None => None }) {
            None => r is None,
            Some((root, target, hidden)) => (r matches Some(q) && q.root@ == root && q.target@ == target
                && q.include_hidden == hidden),
        },
{
    let root = match string_member(request, "workspaceRoot") {
        Some(r) => r,
        None => match first_root {
            Some(f) => f.to_owned(),
            None => {
                return None;
            },
        },
    };
    let target = match string_member(request, "directoryPath") {
        Some(d) => d,
        None => root.clone(),
    };
    let include_hidden = match request.get("includeHidden") {
        Some(v) => match v.as_bool() {
            Some(b) => b,
            None => false,
        },
        None => false,
    };
    Some(DirectoryQuery { root, target, include_hidden })
}

/// Whether the directory `target` may be listed below the workspace `root`
/// (both canonical where they could be made so): it lies within the root,
/// whole components only, and is a directory.
pub fn may_list_directory(target: &str, root: &str, target_is_dir: bool) -> (r: bool)
    ensures
        r == (path_within(target@, root@) && target_is_dir),
{
    path_starts_with(target, root) && target_is_dir
}

/// An entry of a directory: its file name, its path, and whether it is a
/// directory.
#[derive(Debug, PartialEq)]
pub struct DirItem {
    pub name: String,
    pub path: String,
    pub is_dir: bool,
}

/// An entry in specification form: name, path, and whether it is a
/// directory.
pub type ItemV = (Seq<char>, Seq<char>, bool);

/// An entry in specification form.
pub open spec fn item_v(d: DirItem) -> ItemV {
    (d.name@, d.path@, d.is_dir)
}

/// The entries in specification form.
pub open spec fn items_v(ds: Seq<DirItem>) -> Seq<ItemV> {
    ds.map_values(|d: DirItem| item_v(d))
}

/// A hidden name starts with `.`.
pub open spec fn hidden(name: Seq<char>) -> bool {
    name.len() > 0 && name[0] == '.'
}

/// Whether an entry is listed.
pub open spec fn shown(x: ItemV, include_hidden: bool) -> bool {
    include_hidden || !hidden(x.0)
}

/// The entries that are listed, in their order.
pub open spec fn visible(xs: Seq<ItemV>, include_hidden: bool) -> Seq<ItemV>
    decreases xs.len(),
{
    if xs.len() == 0 {
        seq![]
    } else if shown(xs.last(), include_hidden) {
        visible(xs.drop_last(), include_hidden).push(xs.last())
    } else {
        visible(xs.drop_last(), include_hidden)
    }
}

/// `a` may come before `b`: files come before directories, and entries of
/// one kind come by their lowercase names.
pub open spec fn item_le(a: ItemV, b: ItemV) -> bool {
    (!a.2 && b.2) || (a.2 == b.2 && !chars_lt(lowercase(b.0), lowercase(a.0)))
}

/// How many entries at the front of `s` may come before `x`: where a
/// stable insertion puts `x`.
pub open spec fn insert_pos(s: Seq<ItemV>, x: ItemV) -> int
    decreases s.len(),
{
    if s.len() == 0 {
        0
    } else if !item_le(s[0], x) {
        0
    } else {
        1 + insert_pos(s.drop_first(), x)
    }
}

/// The entries sorted by `item_le`, keeping the order of entries that tie.
pub open spec fn sorted_items(xs: Seq<ItemV>) -> Seq<ItemV>
    decreases xs.len(),
{
    if xs.len() == 0 {
        seq![]
    } else {
        let t = sorted_items(xs.drop_last());
        t.insert(insert_pos(t, xs.last()), xs.last())
    }
}

/// An entry as the frontend gets it.
pub open spec fn entry_json_v(x: ItemV) -> JsonV {
    JsonV::Object(
        seq![
            ("name"@, JsonV::Str(x.0)),
            ("path"@, JsonV::Str(x.1)),
            ("type"@, JsonV::Str(if x.2 { "directory"@ } else { "file"@ })),
            ("isHidden"@, JsonV::Bool(hidden(x.0))),
        ],
    )
}

/// The listing the frontend gets for the entries of a directory.
pub open spec fn listing_v(xs: Seq<ItemV>, include_hidden: bool) -> Seq<JsonV> {
    sorted_items(visible(xs, include_hidden)).map_values(|x: ItemV| entry_json_v(x))
}

/// Whether `a` comes strictly before `b`, character by character.
fn chars_less(a: &Vec<char>, b: &Vec<char>) -> (r: bool)
    ensures
        r == chars_lt(a@, b@),
{
    let mut i: usize = 0;
    assert(a@.skip(0) =~= a@ && b@.skip(0) =~= b@);
    while i < a.len() && i < b.len()
        invariant
            i <= a@.len(),
            i <= b@.len(),
            chars_lt(a@, b@) == chars_lt(a@.skip(i as int), b@.skip(i as int)),
        decreases a@.len() - i,
    {
        if a[i] != b[i] {
            assert(a@.skip(i as int)[0] == a@[i as int]);
            assert(b@.skip(i as int)[0] == b@[i as int]);
            return a[i] < b[i];
        }
        assert(a@.skip(i as int).drop_first() =~= a@.skip(i + 1));
        assert(b@.skip(i as int).drop_first() =~= b@.skip(i + 1));
        i = i + 1;
    }
    i < b.len()
}

/// An entry with the key it is sorted by, in specification form.
pub type KeyedV = (Seq<char>, ItemV);

/// `a` may come before `b`: files come before directories, and entries of
/// one kind come by their keys.
pub open spec fn keyed_le(a: KeyedV, b: KeyedV) -> bool {
    (!a.1.2 && b.1.2) || (a.1.2 == b.1.2 && !chars_lt(b.0, a.0))
}

/// Where a stable insertion by key puts `x` into `s`.
pub open spec fn keyed_insert_pos(s: Seq<KeyedV>, x: KeyedV) -> int
    decreases s.len(),
{
    if s.len() == 0 {
        0
    } else if !keyed_le(s[0], x) {
        0
    } else {
        1 + keyed_insert_pos(s.drop_first(), x)
    }
}

/// The keyed entries sorted by `keyed_le`, keeping the order of entries
/// that tie.
pub open spec fn sorted_keyed(xs: Seq<KeyedV>) -> Seq<KeyedV>
    decreases xs.len(),
{
    if xs.len() == 0 {
        seq![]
    } else {
        let t = sorted_keyed(xs.drop_last());
        t.insert(keyed_insert_pos(t, xs.last()), xs.last())
    }
}

/// Entries paired with their keys, in specification form.
pub open spec fn keyed_items_v(ps: Seq<(String, DirItem)>) -> Seq<KeyedV> {
    ps.map_values(|p: (String, DirItem)| (p.0@, item_v(p.1)))
}

/// The entry of a keyed entry.
pub open spec fn unkeyed(k: KeyedV) -> ItemV {
    k.1
}

/// An entry with the key by which it is sorted, as characters.
struct Keyed {
    item: DirItem,
    key: Vec<char>,
}

/// A keyed entry in specification form.
spec fn keyed_view(k: Keyed) -> KeyedV {
    (k.key@, item_v(k.item))
}

/// Keyed entries in specification form.
spec fn keyeds_view(ks: Seq<Keyed>) -> Seq<KeyedV> {
    ks.map_values(|k: Keyed| keyed_view(k))
}

/// Whether the entry `a` may come before `b`.
fn keyed_before(a: &Keyed, b: &Keyed) -> (r: bool)
    ensures
        r == keyed_le(keyed_view(*a), keyed_view(*b)),
{
    (!a.item.is_dir && b.item.is_dir) || (a.item.is_dir == b.item.is_dir && !chars_less(&b.key, &a.key))
}

/// Where a stable insertion puts `x` into `out`.
fn find_insert_pos(out: &Vec<Keyed>, x: &Keyed) -> (r: usize)
    ensures
        r == keyed_insert_pos(keyeds_view(out@), keyed_view(*x)),
        r <= out@.len(),
{
    let ghost xv = keyed_view(*x);
    let ghost ov = keyeds_view(out@);
    let mut p: usize = 0;
    assert(ov.skip(0) =~= ov);
    while p < out.len() && keyed_before(&out[p], x)
        invariant
            p <= out@.len(),
            ov == keyeds_view(out@),
            xv == keyed_view(*x),
            keyed_insert_pos(ov, xv) == p + keyed_insert_pos(ov.skip(p as int), xv),
        decreases out@.len() - p,
    {
        assert(ov.skip(p as int)[0] == ov[p as int]);
        assert(ov.skip(p as int).drop_first() =~= ov.skip(p + 1));
        p = p + 1;
    }
    if p < out.len() {
        assert(ov.skip(p as int)[0] == ov[p as int]);
    } else {
        assert(ov.skip(p as int).len() == 0);
    }
    p
}

/// Sorts entries by the keys given with them: files before directories,
/// each kind by key, entries that tie in the order given.
pub fn sort_by_keys(items: Vec<(String, DirItem)>) -> (r: Vec<DirItem>)
    ensures
        items_v(r@) == sorted_keyed(keyed_items_v(items@)).map_values(|k: KeyedV| unkeyed(k)),
{
    let ghost all = keyed_items_v(items@);
    let mut rest = items;
    let mut taken: Vec<(String, DirItem)> = Vec::new();
    let n = rest.len();
    let mut k: usize = 0;
    while k < n
        invariant
            k <= n,
            rest@.len() == n - k,
            keyed_items_v(rest@) + keyed_items_v(taken@).reverse() == all,
        decreases n - k,
    {
        let x = rest.pop().unwrap();
        let ghost before_taken = taken@;
        taken.push(x);
        proof {
            assert(keyed_items_v(taken@) =~= keyed_items_v(before_taken).push((x.0@, item_v(x.1))));
            assert(keyed_items_v(taken@).reverse() =~= seq![(x.0@, item_v(x.1))] + keyed_items_v(
                before_taken,
            ).reverse());
        }
        k = k + 1;
    }
    assert(keyed_items_v(rest@) =~= Seq::<KeyedV>::empty());
    assert(keyed_items_v(taken@).reverse() == all);
    let mut out: Vec<Keyed> = Vec::new();
    let mut i: usize = 0;
    assert(all.take(0) =~= Seq::<KeyedV>::empty());
    while i < n
        invariant
            i <= n,
            taken@.len() == n - i,
            all.len() == n,
            keyed_items_v(taken@).reverse() == all.skip(i as int),
            keyeds_view(out@) == sorted_keyed(all.take(i as int)),
        decreases n - i,
    {
        let ghost before_taken = taken@;
        let x = taken.pop().unwrap();
        proof {
            assert(keyed_items_v(before_taken) =~= keyed_items_v(taken@).push((x.0@, item_v(x.1))));
            assert(keyed_items_v(before_taken).reverse() =~= seq![(x.0@, item_v(x.1))] + keyed_items_v(
                taken@,
            ).reverse());
            assert((x.0@, item_v(x.1)) == all[i as int]) by {
                assert(keyed_items_v(before_taken).reverse()[0] == (x.0@, item_v(x.1)));
                assert(all.skip(i as int)[0] == all[i as int]);
            }
            assert(keyed_items_v(taken@).reverse() =~= keyed_items_v(before_taken).reverse().skip(1));
            assert(all.skip(i + 1) =~= all.skip(i as int).skip(1));
            assert(all.take(i + 1).drop_last() =~= all.take(i as int));
            assert(all.take(i + 1).last() == all[i as int]);
        }
        let (key, item) = x;
        let kx = Keyed { item, key: chars_of(key.as_str()) };
        let p = find_insert_pos(&out, &kx);
        let ghost before = out@;
        out.insert(p, kx);
        assert(keyeds_view(out@) =~= keyeds_view(before).insert(p as int, keyed_view(kx)));
        i = i + 1;
    }
    assert(all.take(n as int) =~= all);
    let ghost sv = keyeds_view(out@);
    let mut res: Vec<DirItem> = Vec::new();
    let m = out.len();
    for j in 0..m
        invariant
            m == out@.len(),
            sv == keyeds_view(out@),
            items_v(res@) == sv.take(j as int).map_values(|k: KeyedV| unkeyed(k)),
    {
        let e = &out[j].item;
        let d = DirItem { name: e.name.clone(), path: e.path.clone(), is_dir: e.is_dir };
        let ghost before = res@;
        res.push(d);
        proof {
            assert(sv[j as int] == keyed_view(out@[j as int]));
            assert(items_v(res@) =~= items_v(before).push(item_v(d)));
            assert(sv.take(j + 1) =~= sv.take(j as int).push(sv[j as int]));
            assert(sv.take(j + 1).map_values(|k: KeyedV| unkeyed(k)) =~= sv.take(j as int).map_values(
                |k: KeyedV| unkeyed(k),
            ).push(unkeyed(sv[j as int])));
        }
    }
    assert(sv.take(m as int) =~= sv);
    res
}

/// The entry with its lowercase name as its key.
pub open spec fn lower_keyed(x: ItemV) -> KeyedV {
    (lowercase(x.0), x)
}

/// The entries, each keyed by its lowercase name.
pub open spec fn lower_all(xs: Seq<ItemV>) -> Seq<KeyedV> {
    xs.map_values(|x: ItemV| lower_keyed(x))
}

/// Sorting entries keyed by their lowercase names is sorting them by
/// `item_le`.
proof fn lemma_sorted_keyed_lower(xs: Seq<ItemV>)
    ensures
        sorted_keyed(lower_all(xs)).map_values(|k: KeyedV| unkeyed(k)) == sorted_items(xs),
        forall|j: int|
            0 <= j < sorted_keyed(lower_all(xs)).len() ==> (#[trigger] sorted_keyed(lower_all(xs))[j]).0
                == lowercase(sorted_keyed(lower_all(xs))[j].1.0),
    decreases xs.len(),
{
    let ks = lower_all(xs);
    if xs.len() == 0 {
        assert(sorted_keyed(ks) =~= Seq::<KeyedV>::empty());
        assert(sorted_keyed(ks).map_values(|k: KeyedV| unkeyed(k)) =~= Seq::<ItemV>::empty());
    } else {
        let init = xs.drop_last();
        let x = xs.last();
        assert(ks.drop_last() =~= lower_all(init));
        assert(ks.last() == lower_keyed(x));
        lemma_sorted_keyed_lower(init);
        let kt = sorted_keyed(ks.drop_last());
        let t = sorted_items(init);
        assert(kt.map_values(|k: KeyedV| unkeyed(k)) == t);
        lemma_insert_pos_lower(kt, t, x);
        let p = keyed_insert_pos(kt, lower_keyed(x));
        assert(sorted_keyed(ks) == kt.insert(p, lower_keyed(x)));
        assert(sorted_items(xs) == t.insert(p, x));
        lemma_keyed_insert_pos_range(kt, lower_keyed(x));
        assert(kt.insert(p, lower_keyed(x)).map_values(|k: KeyedV| unkeyed(k)) =~= t.insert(p, x)) by {
            assert forall|j: int| 0 <= j < t.len() + 1 implies kt.insert(p, lower_keyed(x)).map_values(
                |k: KeyedV| unkeyed(k),
            )[j] == #[trigger] t.insert(p, x)[j] by {
                if j < p {
                    assert(kt.map_values(|k: KeyedV| unkeyed(k))[j] == t[j]);
                } else if j > p {
                    assert(kt.map_values(|k: KeyedV| unkeyed(k))[j - 1] == t[j - 1]);
                }
            }
        }
        let u = kt.insert(p, lower_keyed(x));
        assert forall|j: int| 0 <= j < u.len() implies (#[trigger] u[j]).0 == lowercase(u[j].1.0) by {
            if j < p {
                assert(u[j] == kt[j]);
            } else if j > p {
                assert(u[j] == kt[j - 1]);
            }
        }
    }
}

/// Where a stable insertion by key puts an entry: at most past the end.
proof fn lemma_keyed_insert_pos_range(s: Seq<KeyedV>, x: KeyedV)
    ensures
        0 <= keyed_insert_pos(s, x) <= s.len(),
    decreases s.len(),
{
    if s.len() > 0 && keyed_le(s[0], x) {
        lemma_keyed_insert_pos_range(s.drop_first(), x);
    }
}

/// With lowercase names as keys, the keyed insertion point is the
/// insertion point by `item_le`.
proof fn lemma_insert_pos_lower(kt: Seq<KeyedV>, t: Seq<ItemV>, x: ItemV)
    requires
        kt.map_values(|k: KeyedV| unkeyed(k)) == t,
        forall|j: int| 0 <= j < kt.len() ==> (#[trigger] kt[j]).0 == lowercase(kt[j].1.0),
    ensures
        keyed_insert_pos(kt, lower_keyed(x)) == insert_pos(t, x),
    decreases kt.len(),
{
    if kt.len() > 0 {
        assert(t.len() == kt.len());
        assert(t[0] == kt.map_values(|k: KeyedV| unkeyed(k))[0]);
        assert(kt[0].0 == lowercase(kt[0].1.0));
        assert(kt.drop_first().map_values(|k: KeyedV| unkeyed(k)) =~= t.drop_first());
        assert forall|j: int| 0 <= j < kt.drop_first().len() implies (#[trigger] kt.drop_first()[j]).0 == lowercase(
            kt.drop_first()[j].1.0,
        ) by {
            assert(kt.drop_first()[j] == kt[j + 1]);
        }
        lemma_insert_pos_lower(kt.drop_first(), t.drop_first(), x);
    } else {
        assert(t.len() == 0);
    }
}

/// The listing the frontend gets for the entries of a directory: hidden
/// entries left out unless asked for, files before directories, each kind
/// by lowercase name, ties in their order; each entry with its name, path,
/// kind and whether it is hidden.
pub fn directory_listing(items: Vec<DirItem>, include_hidden: bool) -> (r: Vec<Json>)
    ensures
        items_view(r@) == listing_v(items_v(items@), include_hidden),
{
    let ghost all = items_v(items@);
    let mut keyed: Vec<(String, DirItem)> = Vec::new();
    let n = items.len();
    assert(visible(all.take(0), include_hidden).map_values(|x: ItemV| lower_keyed(x)) =~= Seq::<KeyedV>::empty());
    for i in 0..n
        invariant
            n == items@.len(),
            all == items_v(items@),
            keyed_items_v(keyed@) == visible(all.take(i as int), include_hidden).map_values(
                |x: ItemV| lower_keyed(x),
            ),
    {
        let x = &items[i];
        proof {
            let ti = all.take(i as int);
            assert(all.take(i + 1) =~= ti.push(all[i as int]));
            assert(all.take(i + 1).drop_last() =~= ti);
            assert(all.take(i + 1).last() == all[i as int]);
            assert(all[i as int] == item_v(*x));
        }
        let name_chars = chars_of(x.name.as_str());
        let show = include_hidden || !(name_chars.len() > 0 && name_chars[0] == '.');
        if show {
            let key = to_lowercase(x.name.as_str());
            let d = DirItem { name: x.name.clone(), path: x.path.clone(), is_dir: x.is_dir };
            let ghost before = keyed@;
            keyed.push((key, d));
            proof {
                let ti = all.take(i as int);
                assert(visible(all.take(i + 1), include_hidden) =~= visible(ti, include_hidden).push(all[i as int]));
                assert(keyed_items_v(keyed@) =~= keyed_items_v(before).push(lower_keyed(all[i as int])));
                assert(visible(all.take(i + 1), include_hidden).map_values(|x: ItemV| lower_keyed(x))
                    =~= visible(ti, include_hidden).map_values(|x: ItemV| lower_keyed(x)).push(
                    lower_keyed(all[i as int]),
                ));
            }
        } else {
            proof {
                let ti = all.take(i as int);
                assert(visible(all.take(i + 1), include_hidden) =~= visible(ti, include_hidden));
            }
        }
    }
    assert(all.take(n as int) =~= all);
    let sorted = sort_by_keys(keyed);
    proof {
        lemma_sorted_keyed_lower(visible(all, include_hidden));
    }
    let ghost sv = items_v(sorted@);
    assert(sv == sorted_items(visible(all, include_hidden)));
    let mut res: Vec<Json> = Vec::new();
    let m = sorted.len();
    for j in 0..m
        invariant
            m == sorted@.len(),
            sv == items_v(sorted@),
            items_view(res@) == sv.take(j as int).map_values(|x: ItemV| entry_json_v(x)),
    {
        let e = &sorted[j];
        let cs = chars_of(e.name.as_str());
        let is_hidden = cs.len() > 0 && cs[0] == '.';
        let kind = if e.is_dir {
            Json::str_of("directory")
        } else {
            Json::str_of("file")
        };
        let obj = obj4(
            "name",
            Json::Str(e.name.clone()),
            "path",
            Json::Str(e.path.clone()),
            "type",
            kind,
            "isHidden",
            Json::Bool(is_hidden),
        );
        let ghost before = res@;
        res.push(obj);
        proof {
            assert(sv[j as int] == item_v(*e));
            assert(items_view(res@) =~= items_view(before).push(obj@));
            assert(sv.take(j + 1) =~= sv.take(j as int).push(sv[j as int]));
            assert(sv.take(j + 1).map_values(|x: ItemV| entry_json_v(x)) =~= sv.take(j as int).map_values(
                |x: ItemV| entry_json_v(x),
            ).push(entry_json_v(sv[j as int])));
        }
    }
    assert(sv.take(m as int) =~= sv);
    res
}

/// Of two texts, one comes strictly before the other, or they are equal.
pub proof fn lemma_chars_lt_total(a: Seq<char>, b: Seq<char>)
    ensures
        chars_lt(a, b) || chars_lt(b, a) || a == b,
    decreases a.len(),
{
    if a.len() > 0 && b.len() > 0 && a[0] == b[0] {
        lemma_chars_lt_total(a.drop_first(), b.drop_first());
        if a.drop_first() == b.drop_first() {
            assert(a =~= seq![a[0]] + a.drop_first());
            assert(b =~= seq![b[0]] + b.drop_first());
        }
    } else if a.len() == 0 && b.len() == 0 {
        assert(a =~= b);
    }
}

/// The order of entries is reflexive, total and transitive.
pub proof fn lemma_item_le_preorder(a: ItemV, b: ItemV, c: ItemV)
    ensures
        item_le(a, a),
        item_le(a, b) || item_le(b, a),
        item_le(a, b) && item_le(b, c) ==> item_le(a, c),
{
    let (la, lb, lc) = (lowercase(a.0), lowercase(b.0), lowercase(c.0));
    lemma_chars_lt_irreflexive(la);
    lemma_chars_lt_total(la, lb);
    lemma_chars_lt_total(lb, lc);
    lemma_chars_lt_total(la, lc);
    if chars_lt(la, lb) && chars_lt(lb, la) {
        lemma_chars_lt_transitive(la, lb, la);
    }
    if chars_lt(lc, la) && chars_lt(la, lb) {
        lemma_chars_lt_transitive(lc, la, lb);
    }
}

/// Entries in order: each may come before every later one.
pub open spec fn in_order(s: Seq<ItemV>) -> bool {
    forall|i: int, j: int| 0 <= i < j < s.len() ==> item_le(#[trigger] s[i], #[trigger] s[j])
}

/// Where a stable insertion puts `x`: after the entries that may come
/// before it, at the first that may not.
proof fn lemma_insert_pos(s: Seq<ItemV>, x: ItemV)
    ensures
        0 <= insert_pos(s, x) <= s.len(),
        forall|k: int| 0 <= k < insert_pos(s, x) ==> item_le(#[trigger] s[k], x),
        insert_pos(s, x) < s.len() ==> !item_le(s[insert_pos(s, x)], x),
    decreases s.len(),
{
    if s.len() > 0 && item_le(s[0], x) {
        lemma_insert_pos(s.drop_first(), x);
        assert forall|k: int| 0 <= k < insert_pos(s, x) implies item_le(#[trigger] s[k], x) by {
            if k > 0 {
                assert(s[k] == s.drop_first()[k - 1]);
            }
        }
    }
}

/// A stable insertion keeps entries in order.
proof fn lemma_insert_in_order(t: Seq<ItemV>, x: ItemV)
    requires
        in_order(t),
    ensures
        in_order(t.insert(insert_pos(t, x), x)),
{
    let p = insert_pos(t, x);
    lemma_insert_pos(t, x);
    let u = t.insert(p, x);
    assert forall|i: int, j: int| 0 <= i < j < u.len() implies item_le(#[trigger] u[i], #[trigger] u[j]) by {
        if j < p {
            assert(u[i] == t[i] && u[j] == t[j]);
        } else if j == p {
            assert(u[i] == t[i] && u[j] == x);
        } else if i < p {
            assert(u[i] == t[i] && u[j] == t[j - 1]);
            lemma_item_le_preorder(t[i], t[i], t[i]);
        } else if i == p {
            assert(u[i] == x && u[j] == t[j - 1]);
            lemma_item_le_preorder(t[p], x, t[j - 1]);
            lemma_item_le_preorder(x, t[p], t[j - 1]);
            lemma_item_le_preorder(t[p], t[p], t[p]);
        } else {
            assert(u[i] == t[i - 1] && u[j] == t[j - 1]);
        }
    }
}

/// The listing order: sorting puts the entries in order, and keeps each
/// entry as often as it occurs.
pub proof fn law_sorted_items(xs: Seq<ItemV>)
    ensures
        in_order(sorted_items(xs)),
        sorted_items(xs).to_multiset() == xs.to_multiset(),
    decreases xs.len(),
{
    if xs.len() > 0 {
        let t = sorted_items(xs.drop_last());
        law_sorted_items(xs.drop_last());
        lemma_insert_pos(t, xs.last());
        lemma_insert_in_order(t, xs.last());
        assert(xs.drop_last().push(xs.last()) =~= xs);
    }
}

/// A directory listing leaves out hidden entries unless they are asked
/// for, keeps every other entry once for each time it occurs, and lists
/// files before directories and each kind by lowercase name.
pub proof fn law_directory_listing(xs: Seq<ItemV>, include_hidden: bool)
    ensures
        in_order(sorted_items(visible(xs, include_hidden))),
        sorted_items(visible(xs, include_hidden)).to_multiset() == visible(xs, include_hidden).to_multiset(),
        forall|i: int|
            0 <= i < visible(xs, include_hidden).len() ==> shown(
                #[trigger] visible(xs, include_hidden)[i],
                include_hidden,
            ),
        forall|x: ItemV| shown(x, include_hidden) ==> visible(xs, include_hidden).to_multiset().count(x)
            == xs.to_multiset().count(x),
    decreases xs.len(),
{
    law_sorted_items(visible(xs, include_hidden));
    if xs.len() > 0 {
        law_directory_listing(xs.drop_last(), include_hidden);
        assert(xs.drop_last().push(xs.last()) =~= xs);
        let v = visible(xs.drop_last(), include_hidden);
        if shown(xs.last(), include_hidden) {
            assert forall|i: int| 0 <= i < visible(xs, include_hidden).len() implies shown(
                #[trigger] visible(xs, include_hidden)[i],
                include_hidden,
            ) by {
                if i < v.len() {
                    assert(visible(xs, include_hidden)[i] == v[i]);
                }
            }
        }
    }
}

} // verus!
