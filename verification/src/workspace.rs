//! The workspace roots the shell remembers: which are kept, in which order,
//! and how they are labelled.
use vstd::prelude::*;

use crate::header::join_path;
use crate::json::{Json, JsonV, pairs_view, items_view, member, member_set, lemma_member_set_get};
use crate::paths::file_name_of;
use crate::paths::file_name;
use crate::store::Store;
use crate::text::{chars_of, string_from_chars, str_eq, chars_eq};
use crate::archive::join_chars;

verus! {

/// The global-state key under which the roots are kept.
pub const WORKSPACE_ROOTS_STATE_KEY: &'static str = "native-workspace-roots";

/// The most roots kept.
pub const MAX_WORKSPACE_ROOTS: usize = 16;

/// A character that `char::is_whitespace` accepts: the Unicode
/// `White_Space` characters.
pub open spec fn is_space(c: char) -> bool {
    ||| c == '\t' || c == '\n' || c == '\x0B' || c == '\x0C' || c == '\r' || c == ' '
    ||| c == '\u{85}' || c == '\u{A0}' || c == '\u{1680}'
    ||| ('\u{2000}' <= c && c <= '\u{200A}')
    ||| c == '\u{2028}' || c == '\u{2029}' || c == '\u{202F}' || c == '\u{205F}' || c == '\u{3000}'
}

/// Whether `c` is white space, as `char::is_whitespace` says.
pub fn is_whitespace(c: char) -> (r: bool)
    ensures
        r == is_space(c),
{
    c == '\t' || c == '\n' || c == '\x0B' || c == '\x0C' || c == '\r' || c == ' ' || c == '\u{85}'
        || c == '\u{A0}' || c == '\u{1680}' || ('\u{2000}' <= c && c <= '\u{200A}') || c
        == '\u{2028}' || c == '\u{2029}' || c == '\u{202F}' || c == '\u{205F}' || c == '\u{3000}'
}

/// Where the text of `s` starts once leading white space is skipped.
pub open spec fn trim_start_index(s: Seq<char>) -> int
    decreases s.len(),
{
    if s.len() == 0 || !is_space(s[0]) {
        0
    } else {
        1 + trim_start_index(s.drop_first())
    }
}

/// Where the text of `s` ends once trailing white space is dropped.
pub open spec fn trim_end_index(s: Seq<char>) -> int
    decreases s.len(),
{
    if s.len() == 0 || !is_space(s.last()) {
        s.len() as int
    } else {
        trim_end_index(s.drop_last())
    }
}

/// `s` without leading and trailing white space, as `str::trim` gives it.
pub open spec fn trimmed(s: Seq<char>) -> Seq<char> {
    let a = trim_start_index(s);
    let b = trim_end_index(s);
    if a >= b {
        seq![]
    } else {
        s.subrange(a, b)
    }
}

/// Bounds of the trim indices.
proof fn lemma_trim_bounds(s: Seq<char>)
    ensures
        0 <= trim_start_index(s) <= s.len(),
        0 <= trim_end_index(s) <= s.len(),
        forall|i: int| 0 <= i < trim_start_index(s) ==> #[trigger] is_space(s[i]),
        trim_start_index(s) < s.len() ==> !is_space(s[trim_start_index(s)]),
        forall|i: int| trim_end_index(s) <= i < s.len() ==> #[trigger] is_space(s[i]),
        trim_end_index(s) > 0 ==> !is_space(s[trim_end_index(s) - 1]),
    decreases s.len(),
{
    if s.len() > 0 {
        lemma_trim_bounds(s.drop_first());
        lemma_trim_bounds(s.drop_last());
        if is_space(s[0]) {
            assert forall|i: int| 0 <= i < trim_start_index(s) implies #[trigger] is_space(s[i]) by {
                if i > 0 {
                    assert(s[i] == s.drop_first()[i - 1]);
                }
            }
        }
        if is_space(s.last()) {
            assert forall|i: int| trim_end_index(s) <= i < s.len() implies #[trigger] is_space(s[i]) by {
                if i < s.len() - 1 {
                    assert(s[i] == s.drop_last()[i]);
                }
            }
        }
    }
}

/// `s` without leading and trailing white space.
pub fn trim(s: &str) -> (r: Vec<char>)
    ensures
        r@ == trimmed(s@),
{
    let cs = chars_of(s);
    let n = cs.len();
    proof {
        lemma_trim_bounds(s@);
    }
    let mut a: usize = 0;
    while a < n && is_whitespace(cs[a])
        invariant
            a <= n,
            n == cs@.len(),
            cs@ == s@,
            forall|i: int| 0 <= i < a ==> #[trigger] is_space(cs@[i]),
            0 <= trim_start_index(s@) <= s@.len(),
            forall|i: int| 0 <= i < trim_start_index(s@) ==> #[trigger] is_space(s@[i]),
            trim_start_index(s@) < s@.len() ==> !is_space(s@[trim_start_index(s@)]),
            a <= trim_start_index(s@),
        decreases n - a,
    {
        a = a + 1;
    }
    let mut b: usize = n;
    while b > a && is_whitespace(cs[b - 1])
        invariant
            a <= b <= n,
            n == cs@.len(),
            cs@ == s@,
            forall|i: int| b <= i < n ==> #[trigger] is_space(cs@[i]),
            0 <= trim_end_index(s@) <= s@.len(),
            forall|i: int| trim_end_index(s@) <= i < s@.len() ==> #[trigger] is_space(s@[i]),
            trim_end_index(s@) > 0 ==> !is_space(s@[trim_end_index(s@) - 1]),
            a == trim_start_index(s@) ==> (trim_end_index(s@) <= b || trim_end_index(s@) <= a),
            a == trim_start_index(s@),
        decreases b,
    {
        b = b - 1;
    }
    let mut out: Vec<char> = Vec::new();
    let mut i = a;
    while i < b
        invariant
            a <= i <= b <= n,
            n == cs@.len(),
            out@ == cs@.subrange(a as int, i as int),
        decreases b - i,
    {
        out.push(cs[i]);
        assert(cs@.subrange(a as int, i + 1) == cs@.subrange(a as int, i as int).push(cs@[i as int]));
        i = i + 1;
    }
    proof {
        if a < b {
            assert(trim_end_index(s@) == b);
        } else {
            assert(trim_end_index(s@) <= a);
        }
    }
    out
}

/// The path a workspace root names, before the file system is asked about
/// it: white space trimmed; `~` and a leading `~/` stand for the home
/// directory; `None` for an empty text, a missing home directory, or a
/// path that is not absolute.
pub open spec fn root_candidate(root: Seq<char>, home: Option<Seq<char>>) -> Option<Seq<char>> {
    let t = trimmed(root);
    if t.len() == 0 {
        None
    } else {
        let e = if t == seq!['~'] {
            home
        } else if seq!['~', '/'].is_prefix_of(t) {
            match home {
                Some(h) => Some(join_path(h, t.skip(2))),
                None => None,
            }
        } else {
            Some(t)
        };
        match e {
            Some(p) => if p.len() > 0 && p[0] == '/' {
                Some(p)
            } else {
                None
            },
            None => None,
        }
    }
}

/// The path a workspace root names, before the file system is asked
/// whether it is a directory.
pub fn workspace_root_candidate(root: &str, home: Option<&str>) -> (r: Option<String>)
    ensures
        match root_candidate(root@, match home { Some(h) => Some(h@), None => None }) {
            None => r is None,
            Some(p) => (r matches Some(s) && s@ == p),
        },
{
    let t = trim(root);
    if t.len() == 0 {
        return None;
    }
    let expanded: Vec<char> = if t.len() == 1 && t[0] == '~' {
        assert(t@ == seq!['~']);
        match home {
            Some(h) => chars_of(h),
            None => {
                return None;
            },
        }
    } else if t.len() >= 2 && t[0] == '~' && t[1] == '/' {
        assert(seq!['~', '/'].is_prefix_of(t@));
        assert(t@ != seq!['~']);
        match home {
            Some(h) => {
                let hc = chars_of(h);
                let mut rest: Vec<char> = Vec::new();
                let mut i: usize = 2;
                while i < t.len()
                    invariant
                        2 <= i <= t@.len(),
                        rest@ == t@.subrange(2, i as int),
                    decreases t@.len() - i,
                {
                    rest.push(t[i]);
                    assert(t@.subrange(2, i + 1) == t@.subrange(2, i as int).push(t@[i as int]));
                    i = i + 1;
                }
                assert(t@.subrange(2, t@.len() as int) == t@.skip(2));
                join_chars(&hc, &rest)
            },
            None => {
                return None;
            },
        }
    } else {
        assert(!seq!['~', '/'].is_prefix_of(t@)) by {
            if seq!['~', '/'].is_prefix_of(t@) {
                assert(t@[0] == '~' && t@[1] == '/');
            }
        }
        t
    };
    if expanded.len() > 0 && expanded[0] == '/' {
        Some(string_from_chars(expanded.as_slice()))
    } else {
        None
    }
}

/// The first occurrence of each root, in order.
pub open spec fn dedup(s: Seq<Seq<char>>) -> Seq<Seq<char>>
    decreases s.len(),
{
    if s.len() == 0 {
        s
    } else {
        let r = dedup(s.drop_last());
        if r.contains(s.last()) {
            r
        } else {
            r.push(s.last())
        }
    }
}

/// The strings in `roots`, as character sequences.
pub open spec fn strings_view(roots: Seq<String>) -> Seq<Seq<char>> {
    roots.map_values(|r: String| r@)
}

/// Whether `x` is among `v`.
fn contains_string(v: &Vec<String>, x: &str) -> (r: bool)
    ensures
        r == strings_view(v@).contains(x@),
{
    let n = v.len();
    for i in 0..n
        invariant
            n == v@.len(),
            forall|j: int| 0 <= j < i ==> #[trigger] strings_view(v@)[j] != x@,
    {
        if str_eq(v[i].as_str(), x) {
            assert(strings_view(v@)[i as int] == x@);
            return true;
        }
    }
    false
}

/// The roots with each later repetition dropped.
pub fn dedup_roots(roots: &Vec<String>) -> (r: Vec<String>)
    ensures
        strings_view(r@) == dedup(strings_view(roots@)),
{
    let mut out: Vec<String> = Vec::new();
    let n = roots.len();
    for i in 0..n
        invariant
            n == roots@.len(),
            strings_view(out@) == dedup(strings_view(roots@).take(i as int)),
    {
        let ghost sv = strings_view(roots@);
        assert(sv.take(i + 1).drop_last() == sv.take(i as int));
        assert(sv.take(i + 1).last() == roots@[i as int]@);
        if !contains_string(&out, roots[i].as_str()) {
            let ghost before = out@;
            out.push(roots[i].clone());
            assert(strings_view(out@) =~= strings_view(before).push(roots@[i as int]@));
        }
    }
    assert(strings_view(roots@).take(n as int) == strings_view(roots@));
    out
}

/// `s` without any `x`.
pub open spec fn without(s: Seq<Seq<char>>, x: Seq<char>) -> Seq<Seq<char>>
    decreases s.len(),
{
    if s.len() == 0 {
        s
    } else {
        let r = without(s.drop_last(), x);
        if s.last() == x {
            r
        } else {
            r.push(s.last())
        }
    }
}

/// The roots after `root` is chosen: `root` first, then the others in
/// their order, at most sixteen.
pub open spec fn saved_roots(current: Seq<Seq<char>>, root: Seq<char>) -> Seq<Seq<char>> {
    let all = seq![root] + without(current, root);
    if all.len() > MAX_WORKSPACE_ROOTS {
        all.take(MAX_WORKSPACE_ROOTS as int)
    } else {
        all
    }
}

/// The roots as a JSON array of strings.
pub open spec fn roots_json(roots: Seq<Seq<char>>) -> JsonV {
    JsonV::Array(roots.map_values(|r: Seq<char>| JsonV::Str(r)))
}

/// The roots as a JSON array of strings.
pub fn roots_to_json(roots: &Vec<String>) -> (r: Json)
    ensures
        r@ == roots_json(strings_view(roots@)),
{
    let mut out: Vec<Json> = Vec::new();
    let n = roots.len();
    for i in 0..n
        invariant
            n == roots@.len(),
            items_view(out@) == strings_view(roots@).map_values(|r: Seq<char>| JsonV::Str(r)).take(i as int),
    {
        let ghost before = out@;
        out.push(Json::Str(roots[i].clone()));
        assert(items_view(out@) =~= items_view(before).push(JsonV::Str(roots@[i as int]@)));
        assert(strings_view(roots@).map_values(|r: Seq<char>| JsonV::Str(r)).take(i + 1)
            =~= strings_view(roots@).map_values(|r: Seq<char>| JsonV::Str(r)).take(i as int).push(
            JsonV::Str(roots@[i as int]@),
        ));
    }
    assert(strings_view(roots@).map_values(|r: Seq<char>| JsonV::Str(r)).take(n as int)
        =~= strings_view(roots@).map_values(|r: Seq<char>| JsonV::Str(r)));
    Json::Array(out)
}

/// Puts `root` first among the `current` roots (dropping it elsewhere),
/// keeps at most sixteen, stores them in the global state and gives them
/// back.
pub fn save_workspace_root(global_state: &mut Store, current: &Vec<String>, root: &str) -> (r: Vec<String>)
    requires
        old(global_state).wf(),
    ensures
        final(global_state).wf(),
        strings_view(r@) == saved_roots(strings_view(current@), root@),
        final(global_state)@ == member_set(
            old(global_state)@,
            WORKSPACE_ROOTS_STATE_KEY@,
            roots_json(saved_roots(strings_view(current@), root@)),
        ),
{
    let mut out: Vec<String> = Vec::new();
    out.push(root.to_owned());
    let ghost cv = strings_view(current@);
    assert(strings_view(out@) =~= seq![root@] + without(cv.take(0), root@));
    let n = current.len();
    for i in 0..n
        invariant
            n == current@.len(),
            cv == strings_view(current@),
            strings_view(out@) == seq![root@] + without(cv.take(i as int), root@),
    {
        assert(cv.take(i + 1).drop_last() == cv.take(i as int));
        assert(cv.take(i + 1).last() == current@[i as int]@);
        if !str_eq(current[i].as_str(), root) {
            let ghost before = out@;
            out.push(current[i].clone());
            assert(strings_view(out@) =~= strings_view(before).push(current@[i as int]@));
        }
    }
    assert(cv.take(n as int) == cv);
    out.truncate(MAX_WORKSPACE_ROOTS);
    assert(strings_view(out@) =~= saved_roots(cv, root@));
    let stored = roots_to_json(&out);
    global_state.insert(WORKSPACE_ROOTS_STATE_KEY.to_owned(), stored);
    out
}

/// The label of a root: its file name, or the root itself when it has
/// none.
pub open spec fn root_label(root: Seq<char>) -> Seq<char> {
    match file_name_of(root) {
        Some(n) => if n.len() > 0 {
            n
        } else {
            root
        },
        None => root,
    }
}

/// The labels of the roots, as object members keyed by root.
pub open spec fn labels_v(roots: Seq<Seq<char>>) -> Seq<(Seq<char>, JsonV)>
    decreases roots.len(),
{
    if roots.len() == 0 {
        seq![]
    } else {
        member_set(labels_v(roots.drop_last()), roots.last(), JsonV::Str(root_label(roots.last())))
    }
}

/// An object that maps each root to its label.
pub fn workspace_root_labels(roots: &Vec<String>) -> (r: Json)
    ensures
        r@ == JsonV::Object(labels_v(strings_view(roots@))),
{
    let mut out: Vec<(String, Json)> = Vec::new();
    let n = roots.len();
    assert(pairs_view(out@) =~= labels_v(strings_view(roots@).take(0)));
    for i in 0..n
        invariant
            n == roots@.len(),
            pairs_view(out@) == labels_v(strings_view(roots@).take(i as int)),
    {
        let ghost sv = strings_view(roots@);
        assert(sv.take(i + 1).drop_last() == sv.take(i as int));
        assert(sv.take(i + 1).last() == roots@[i as int]@);
        let label: String = match file_name(roots[i].as_str()) {
            Some(name) => if name.as_str().unicode_len() > 0 {
                name
            } else {
                roots[i].clone()
            },
            None => roots[i].clone(),
        };
        crate::json::set_member(&mut out, roots[i].clone(), Json::Str(label));
    }
    assert(strings_view(roots@).take(n as int) == strings_view(roots@));
    Json::Object(out)
}

/// The strings among JSON items, in order.
pub open spec fn string_items(items: Seq<JsonV>) -> Seq<Seq<char>>
    decreases items.len(),
{
    if items.len() == 0 {
        seq![]
    } else {
        let r = string_items(items.drop_last());
        match items.last() {
            JsonV::Str(s) => r.push(s),
            _ => r,
        }
    }
}

/// The roots as stored in the global state, before they are checked.
pub open spec fn stored_roots(state: Seq<(Seq<char>, JsonV)>) -> Seq<Seq<char>> {
    match member(state, WORKSPACE_ROOTS_STATE_KEY@) {
        Some(JsonV::Array(items)) => string_items(items),
        _ => seq![],
    }
}

/// The roots as stored in the global state, before they are checked.
pub fn stored_workspace_roots(global_state: &Store) -> (r: Vec<String>)
    ensures
        strings_view(r@) == stored_roots(global_state@),
{
    let mut out: Vec<String> = Vec::new();
    let items = match global_state.get(WORKSPACE_ROOTS_STATE_KEY) {
        Some(v) => match v.as_array() {
            Some(items) => items,
            None => {
                assert(strings_view(out@) =~= Seq::<Seq<char>>::empty());
                return out;
            },
        },
        None => {
            assert(strings_view(out@) =~= Seq::<Seq<char>>::empty());
            return out;
        },
    };
    let ghost iv = items_view(items@);
    let n = items.len();
    assert(strings_view(out@) =~= string_items(iv.take(0)));
    for i in 0..n
        invariant
            n == items@.len(),
            iv == items_view(items@),
            strings_view(out@) == string_items(iv.take(i as int)),
    {
        assert(iv.take(i + 1).drop_last() == iv.take(i as int));
        assert(iv.take(i + 1).last() == iv[i as int]);
        match items[i].as_str() {
            Some(s) => {
                let ghost before = out@;
                out.push(s.clone());
                assert(strings_view(out@) =~= strings_view(before).push(s@));
            },
            None => {},
        }
    }
    assert(iv.take(n as int) == iv);
    out
}

/// Where to look for a workspace root when none is stored: the current
/// directory unless it is `/`, then these directories below home, then
/// home itself.
pub open spec fn fallback_roots(cwd: Option<Seq<char>>, home: Option<Seq<char>>) -> Seq<Seq<char>> {
    (match cwd {
        Some(c) => if c != seq!['/'] {
            seq![c]
        } else {
            seq![]
        },
        None => seq![],
    }) + match home {
        Some(h) => seq![
            join_path(h, "Projects"@),
            join_path(h, "Code"@),
            join_path(h, "src"@),
            join_path(h, "dev"@),
            join_path(h, "Development"@),
            join_path(h, "Documents"@),
            h,
        ],
        None => seq![],
    }
}

/// `dir` joined below `home`.
fn home_join(hc: &Vec<char>, dir: &str) -> (r: String)
    ensures
        r@ == join_path(hc@, dir@),
{
    let d = chars_of(dir);
    let j = join_chars(hc, &d);
    string_from_chars(j.as_slice())
}

/// Where to look, in order, for a workspace root when none is stored.
pub fn fallback_workspace_roots(cwd: Option<&str>, home: Option<&str>) -> (r: Vec<String>)
    ensures
        strings_view(r@) == fallback_roots(
            match cwd { Some(c) => Some(c@), None => None },
            match home { Some(h) => Some(h@), None => None },
        ),
{
    let mut out: Vec<String> = Vec::new();
    let slash: Vec<char> = vec!['/'];
    assert(slash@ == seq!['/']);
    match cwd {
        Some(c) => {
            let cc = chars_of(c);
            if !chars_eq(cc.as_slice(), slash.as_slice()) {
                out.push(c.to_owned());
                assert(strings_view(out@) =~= seq![c@]);
            } else {
                assert(strings_view(out@) =~= Seq::<Seq<char>>::empty());
            }
        },
        None => {
            assert(strings_view(out@) =~= Seq::<Seq<char>>::empty());
        },
    }
    let ghost first = strings_view(out@);
    assert(first =~= match cwd {
        Some(c) => if c@ != seq!['/'] { seq![c@] } else { Seq::<Seq<char>>::empty() },
        None => Seq::<Seq<char>>::empty(),
    });
    match home {
        Some(h) => {
            let hc = chars_of(h);
            out.push(home_join(&hc, "Projects"));
            out.push(home_join(&hc, "Code"));
            out.push(home_join(&hc, "src"));
            out.push(home_join(&hc, "dev"));
            out.push(home_join(&hc, "Development"));
            out.push(home_join(&hc, "Documents"));
            out.push(h.to_owned());
            assert(strings_view(out@) =~= first + seq![
                join_path(h@, "Projects"@),
                join_path(h@, "Code"@),
                join_path(h@, "src"@),
                join_path(h@, "dev"@),
                join_path(h@, "Development"@),
                join_path(h@, "Documents"@),
                h@,
            ]);
        },
        None => {
            assert(strings_view(out@) =~= first + Seq::<Seq<char>>::empty());
        },
    }
    assert(strings_view(out@) =~= fallback_roots(
        match cwd { Some(c) => Some(c@), None => None },
        match home { Some(h) => Some(h@), None => None },
    ));
    out
}

/// What `without` keeps: members of the input other than `x`, with no new
/// repetition.
proof fn lemma_without(s: Seq<Seq<char>>, x: Seq<char>)
    ensures
        forall|i: int| 0 <= i < without(s, x).len() ==> #[trigger] without(s, x)[i] != x,
        forall|i: int| 0 <= i < without(s, x).len() ==> s.contains(#[trigger] without(s, x)[i]),
        without(s, x).len() <= s.len(),
        s.no_duplicates() ==> without(s, x).no_duplicates(),
    decreases s.len(),
{
    if s.len() > 0 {
        let init = s.drop_last();
        lemma_without(init, x);
        let r = without(init, x);
        assert forall|i: int| 0 <= i < without(s, x).len() implies s.contains(#[trigger] without(s, x)[i]) by {
            if i < r.len() {
                let j = choose|j: int| 0 <= j < init.len() && init[j] == r[i];
                assert(s[j] == init[j]);
            } else {
                assert(s[s.len() - 1] == s.last());
            }
        }
        if s.no_duplicates() && s.last() != x {
            assert(init.no_duplicates()) by {
                assert forall|a: int, b: int| 0 <= a < init.len() && 0 <= b < init.len() && a != b implies init[a] != init[b] by {
                    assert(init[a] == s[a] && init[b] == s[b]);
                }
            }
            assert(!r.contains(s.last())) by {
                if r.contains(s.last()) {
                    let i = choose|i: int| 0 <= i < r.len() && r[i] == s.last();
                    assert(init.contains(r[i]));
                    let j = choose|j: int| 0 <= j < init.len() && init[j] == r[i];
                    assert(s[j] == s[s.len() - 1]);
                }
            }
            let out = r.push(s.last());
            assert forall|a: int, b: int| 0 <= a < out.len() && 0 <= b < out.len() && a != b implies out[a] != out[b] by {
                if a < r.len() && b < r.len() {
                } else if a == r.len() {
                    assert(out[b] == r[b]);
                } else {
                    assert(out[a] == r[a]);
                }
            }
        } else if s.no_duplicates() {
            assert(init.no_duplicates()) by {
                assert forall|a: int, b: int| 0 <= a < init.len() && 0 <= b < init.len() && a != b implies init[a] != init[b] by {
                    assert(init[a] == s[a] && init[b] == s[b]);
                }
            }
        }
    }
}

/// Choosing a root puts it first, keeps no more than sixteen roots, does not
/// repeat it, and repeats no other root when none was repeated before.
pub proof fn law_saved_roots(current: Seq<Seq<char>>, root: Seq<char>)
    ensures
        saved_roots(current, root).len() >= 1,
        saved_roots(current, root).len() <= MAX_WORKSPACE_ROOTS,
        saved_roots(current, root)[0] == root,
        forall|i: int| 1 <= i < saved_roots(current, root).len() ==> #[trigger] saved_roots(current, root)[i] != root,
        current.no_duplicates() ==> saved_roots(current, root).no_duplicates(),
{
    lemma_without(current, root);
    let w = without(current, root);
    let all = seq![root] + w;
    let out = saved_roots(current, root);
    assert forall|i: int| 1 <= i < out.len() implies #[trigger] out[i] != root by {
        assert(out[i] == all[i]);
        assert(all[i] == w[i - 1]);
    }
    if current.no_duplicates() {
        assert forall|a: int, b: int| 0 <= a < out.len() && 0 <= b < out.len() && a != b implies out[a] != out[b] by {
            assert(out[a] == all[a] && out[b] == all[b]);
            if a > 0 && b > 0 {
                assert(all[a] == w[a - 1] && all[b] == w[b - 1]);
            } else if a == 0 {
                assert(all[b] == w[b - 1]);
            } else {
                assert(all[a] == w[a - 1]);
            }
        }
    }
}

/// Keeping the first occurrence of each root leaves no root repeated.
pub proof fn law_dedup_no_duplicates(s: Seq<Seq<char>>)
    ensures
        dedup(s).no_duplicates(),
        forall|i: int| 0 <= i < dedup(s).len() ==> s.contains(#[trigger] dedup(s)[i]),
    decreases s.len(),
{
    if s.len() > 0 {
        let init = s.drop_last();
        law_dedup_no_duplicates(init);
        let r = dedup(init);
        if !r.contains(s.last()) {
            let out = r.push(s.last());
            assert forall|a: int, b: int| 0 <= a < out.len() && 0 <= b < out.len() && a != b implies out[a] != out[b] by {
                if a < r.len() && b < r.len() {
                } else if a == r.len() {
                    assert(out[b] == r[b]);
                } else {
                    assert(out[a] == r[a]);
                }
            }
        }
        assert forall|i: int| 0 <= i < dedup(s).len() implies s.contains(#[trigger] dedup(s)[i]) by {
            if i < r.len() {
                let j = choose|j: int| 0 <= j < init.len() && init[j] == r[i];
                assert(s[j] == init[j]);
            } else {
                assert(s[s.len() - 1] == s.last());
            }
        }
    }
}

/// Strings written as JSON string items read back as the same strings.
pub proof fn lemma_string_items_of_strings(roots: Seq<Seq<char>>)
    ensures
        string_items(roots.map_values(|r: Seq<char>| JsonV::Str(r))) == roots,
    decreases roots.len(),
{
    if roots.len() > 0 {
        let items = roots.map_values(|r: Seq<char>| JsonV::Str(r));
        assert(items.drop_last() =~= roots.drop_last().map_values(|r: Seq<char>| JsonV::Str(r)));
        lemma_string_items_of_strings(roots.drop_last());
        assert(roots.drop_last().push(roots.last()) =~= roots);
    } else {
        assert(roots.map_values(|r: Seq<char>| JsonV::Str(r)) =~= Seq::<JsonV>::empty());
    }
}

/// The roots that choosing `root` stores are the roots read back from the
/// global state afterwards, in the same order.
pub proof fn law_saved_roots_read_back(gs: Seq<(Seq<char>, JsonV)>, current: Seq<Seq<char>>, root: Seq<char>)
    ensures
        stored_roots(
            member_set(gs, WORKSPACE_ROOTS_STATE_KEY@, roots_json(saved_roots(current, root))),
        ) == saved_roots(current, root),
{
    let saved = saved_roots(current, root);
    lemma_member_set_get(gs, WORKSPACE_ROOTS_STATE_KEY@, roots_json(saved));
    lemma_string_items_of_strings(saved);
}

} // verus!
