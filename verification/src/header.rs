//! The JSON header of an ASAR archive, as the library holds it: a tree of
//! named entries.
use vstd::prelude::*;

use crate::text::{split_scan, path_components};
use crate::paths::joined;

verus! {

/// One node of the archive's file tree.
///
/// A directory has children in `files`; a file has a `size` and an
/// `offset` (a decimal string, relative to the start of the payload).
/// Children are kept in the order of their names, and no name occurs twice
/// (see [`entries_wf`]).
#[derive(Debug, PartialEq)]
pub struct Entry {
    pub files: Vec<(String, Entry)>,
    pub offset: Option<String>,
    pub size: Option<u64>,
    pub executable: Option<bool>,
    pub unpacked: Option<bool>,
}

/// The parsed header: the top-level entries of the archive.
#[derive(Debug, PartialEq)]
pub struct Header {
    pub files: Vec<(String, Entry)>,
}

/// `a` comes strictly before `b` in the order of their characters' code
/// points (the order of `String`'s `Ord`, since UTF-8 keeps it).
pub open spec fn chars_lt(a: Seq<char>, b: Seq<char>) -> bool
    decreases a.len(),
{
    if a.len() == 0 {
        b.len() > 0
    } else if b.len() == 0 {
        false
    } else if a[0] == b[0] {
        chars_lt(a.drop_first(), b.drop_first())
    } else {
        (a[0] as int) < (b[0] as int)
    }
}

/// A list of entries as a map from name to entry keeps it: names strictly
/// increase, so none occurs twice, and so on in every directory below.
pub open spec fn entries_wf(files: Seq<(String, Entry)>) -> bool
    decreases files,
{
    &&& forall|i: int, j: int|
        0 <= i < j < files.len() ==> chars_lt(#[trigger] files[i].0@, #[trigger] files[j].0@)
    &&& forall|i: int| 0 <= i < files.len() ==> entries_wf(#[trigger] files[i].1.files@)
}

/// The first entry named `name`.
pub open spec fn lookup(files: Seq<(String, Entry)>, name: Seq<char>) -> Option<Entry>
    decreases files.len(),
{
    if files.len() == 0 {
        None
    } else if files[0].0@ == name {
        Some(files[0].1)
    } else {
        lookup(files.drop_first(), name)
    }
}

/// Walks down from `files` along the names `comps`, starting with `cur` as
/// the entry reached so far; `None` where a name is missing.
pub open spec fn walk(files: Seq<(String, Entry)>, comps: Seq<Seq<char>>, cur: Option<Entry>) -> Option<Entry>
    decreases comps.len(),
{
    if comps.len() == 0 {
        cur
    } else {
        match lookup(files, comps[0]) {
            None => None,
            Some(e) => walk(e.files@, comps.drop_first(), Some(e)),
        }
    }
}

/// The entry at the end of the names `comps`, from the top-level entries
/// `files`; `None` for no names or a missing one.
pub open spec fn resolve(files: Seq<(String, Entry)>, comps: Seq<Seq<char>>) -> Option<Entry> {
    walk(files, comps, None)
}

/// `Path::join` on Unix: an absolute `name` replaces the prefix; otherwise
/// a `/` goes between them unless the prefix is empty or ends with one.
pub open spec fn join_path(prefix: Seq<char>, name: Seq<char>) -> Seq<char> {
    if name.len() > 0 && name[0] == '/' {
        name
    } else if prefix.len() == 0 {
        name
    } else if prefix.last() == '/' {
        prefix + name
    } else {
        prefix.push('/') + name
    }
}

/// The path with every `\` turned into `/`.
pub open spec fn unix_path(p: Seq<char>) -> Seq<char> {
    p.map_values(|c: char| if c == '\\' { '/' } else { c })
}

/// The paths of the leaves below `files` (entries without children), in
/// order, each joined onto `prefix` and written with `/`.
pub open spec fn listed_paths(files: Seq<(String, Entry)>, prefix: Seq<char>) -> Seq<Seq<char>>
    decreases files,
{
    if files.len() == 0 {
        seq![]
    } else {
        let last = files.last();
        let path = join_path(prefix, last.0@);
        listed_paths(files.drop_last(), prefix) + if last.1.files@.len() == 0 {
            seq![unix_path(path)]
        } else {
            listed_paths(last.1.files@, path)
        }
    }
}

/// A name that stands for one path component: not empty, and without `/`
/// or `\\`.
pub open spec fn plain_name(name: Seq<char>) -> bool {
    &&& name.len() > 0
    &&& forall|i: int| 0 <= i < name.len() ==> #[trigger] name[i] != '/' && name[i] != '\\'
}

/// Every name in the tree below `files` is a plain name.
pub open spec fn names_plain(files: Seq<(String, Entry)>) -> bool
    decreases files,
{
    forall|i: int|
        #![trigger files[i]]
        0 <= i < files.len() ==> plain_name(files[i].0@) && names_plain(files[i].1.files@)
}

/// No character of `p` is a `\\`.
pub open spec fn no_backslash(p: Seq<char>) -> bool {
    forall|i: int| 0 <= i < p.len() ==> #[trigger] p[i] != '\\'
}

/// No name comes strictly before itself.
pub proof fn lemma_chars_lt_irreflexive(a: Seq<char>)
    ensures
        !chars_lt(a, a),
    decreases a.len(),
{
    if a.len() > 0 {
        lemma_chars_lt_irreflexive(a.drop_first());
    }
}

/// Strict character order is transitive.
pub proof fn lemma_chars_lt_transitive(a: Seq<char>, b: Seq<char>, c: Seq<char>)
    requires
        chars_lt(a, b),
        chars_lt(b, c),
    ensures
        chars_lt(a, c),
    decreases a.len(),
{
    if a.len() > 0 && a[0] == b[0] && b[0] == c[0] {
        lemma_chars_lt_transitive(a.drop_first(), b.drop_first(), c.drop_first());
    }
}

/// In a list of entries with strictly increasing names, looking up the name
/// of entry `i` finds entry `i`.
proof fn lemma_lookup_sorted(files: Seq<(String, Entry)>, i: int)
    requires
        entries_wf(files),
        0 <= i < files.len(),
    ensures
        lookup(files, files[i].0@) == Some(files[i].1),
    decreases files.len(),
{
    if i > 0 {
        assert(chars_lt(files[0].0@, files[i].0@));
        lemma_chars_lt_irreflexive(files[0].0@);
        let rest = files.drop_first();
        assert(entries_wf(rest)) by {
            assert forall|a: int, b: int| 0 <= a < b < rest.len() implies chars_lt(
                #[trigger] rest[a].0@,
                #[trigger] rest[b].0@,
            ) by {
                assert(rest[a] == files[a + 1] && rest[b] == files[b + 1]);
            }
            assert forall|a: int| 0 <= a < rest.len() implies entries_wf(
                #[trigger] rest[a].1.files@,
            ) by {
                assert(rest[a] == files[a + 1]);
            }
        }
        lemma_lookup_sorted(rest, i - 1);
        assert(rest[i - 1] == files[i]);
    }
}

/// Adding entries after a name that is found does not change what is found.
proof fn lemma_lookup_push(files: Seq<(String, Entry)>, x: (String, Entry), name: Seq<char>)
    requires
        lookup(files, name) is Some,
    ensures
        lookup(files.push(x), name) == lookup(files, name),
    decreases files.len(),
{
    if files[0].0@ != name {
        assert(files.push(x).drop_first() == files.drop_first().push(x));
        lemma_lookup_push(files.drop_first(), x, name);
    }
}

/// Scanning a text without `/` only extends the open piece.
proof fn lemma_split_scan_append(s: Seq<char>, t: Seq<char>)
    requires
        forall|i: int| 0 <= i < t.len() ==> #[trigger] t[i] != '/',
    ensures
        split_scan(s + t) == (split_scan(s).0, split_scan(s).1 + t),
    decreases t.len(),
{
    if t.len() == 0 {
        assert(s + t == s);
        assert(split_scan(s).1 + t == split_scan(s).1);
    } else {
        lemma_split_scan_append(s, t.drop_last());
        assert((s + t).drop_last() == s + t.drop_last());
        assert((s + t).last() == t.last());
        assert(split_scan(s).1 + t == (split_scan(s).1 + t.drop_last()).push(t.last()));
    }
}

/// The components of a path joined with a plain name: one more, the name.
proof fn lemma_components_join(prefix: Seq<char>, name: Seq<char>)
    requires
        plain_name(name),
    ensures
        path_components(join_path(prefix, name)) == path_components(prefix).push(name),
{
    lemma_split_scan_append(seq![], name);
    assert(seq![] + name == name);
    if prefix.len() == 0 {
        assert(split_scan(prefix) == (Seq::<Seq<char>>::empty(), Seq::<char>::empty()));
        assert(seq![].push(name) == seq![name]);
        assert(split_scan(name) == (Seq::<Seq<char>>::empty(), name));
    } else if prefix.last() == '/' {
        lemma_split_scan_append(prefix, name);
        assert(prefix.drop_last().push('/') == prefix);
        assert(split_scan(prefix).1.len() == 0);
    } else {
        lemma_split_scan_append(prefix.push('/'), name);
        assert(prefix.push('/').drop_last() == prefix);
    }
}

/// The well-formedness of a list of entries carries over to all but its
/// last entry, and to the children of its last entry.
proof fn lemma_wf_split(files: Seq<(String, Entry)>)
    requires
        entries_wf(files),
        names_plain(files),
        files.len() > 0,
    ensures
        entries_wf(files.drop_last()),
        names_plain(files.drop_last()),
        entries_wf(files.last().1.files@),
        names_plain(files.last().1.files@),
        plain_name(files.last().0@),
{
    let init = files.drop_last();
    let n = files.len() - 1;
    assert(files[n] == files.last());
    assert(plain_name(files[n].0@) && names_plain(files[n].1.files@));
    assert(entries_wf(files[n].1.files@));
    assert forall|i: int| 0 <= i < init.len() implies plain_name(#[trigger] init[i].0@)
        && names_plain(init[i].1.files@) by {
        assert(init[i] == files[i]);
        assert(plain_name(files[i].0@) && names_plain(files[i].1.files@));
    }
    assert forall|a: int, b: int| 0 <= a < b < init.len() implies chars_lt(
        #[trigger] init[a].0@,
        #[trigger] init[b].0@,
    ) by {
        assert(init[a] == files[a] && init[b] == files[b]);
    }
    assert forall|a: int| 0 <= a < init.len() implies entries_wf(#[trigger] init[a].1.files@) by {
        assert(init[a] == files[a]);
    }
}

/// Joining a plain name onto a path without `\\` gives a path without one.
proof fn lemma_join_no_backslash(prefix: Seq<char>, name: Seq<char>)
    requires
        no_backslash(prefix),
        plain_name(name),
    ensures
        no_backslash(join_path(prefix, name)),
{
    let path = join_path(prefix, name);
    assert forall|i: int| 0 <= i < path.len() implies #[trigger] path[i] != '\\' by {
        if prefix.len() == 0 {
        } else if prefix.last() == '/' {
            if i >= prefix.len() {
                assert(path[i] == name[i - prefix.len()]);
            } else {
                assert(path[i] == prefix[i]);
            }
        } else {
            if i > prefix.len() {
                assert(path[i] == name[i - prefix.len() - 1]);
            } else if i < prefix.len() {
                assert(path[i] == prefix[i]);
            }
        }
    }
}

/// A path without `\\` is written the same with `/`.
proof fn lemma_unix_path_plain(p: Seq<char>)
    requires
        no_backslash(p),
    ensures
        unix_path(p) == p,
{
    assert(unix_path(p) =~= p);
}

/// Where the leaves listed below `files` lead back to: each listed path has
/// the components of `prefix` first, and walking the rest down from `files`
/// ends on an entry without children.
proof fn lemma_listed_leaf(files: Seq<(String, Entry)>, prefix: Seq<char>, k: int, cur: Option<Entry>)
    requires
        entries_wf(files),
        names_plain(files),
        no_backslash(prefix),
        0 <= k < listed_paths(files, prefix).len(),
    ensures
        ({
            let q = listed_paths(files, prefix)[k];
            let pc = path_components(prefix);
            &&& path_components(q).len() > pc.len()
            &&& path_components(q).take(pc.len() as int) == pc
            &&& walk(files, path_components(q).skip(pc.len() as int), cur) matches Some(e)
            &&& e.files@.len() == 0
        }),
    decreases files,
{
    let last = files.last();
    let init = files.drop_last();
    let path = join_path(prefix, last.0@);
    let pc = path_components(prefix);
    let n = files.len() - 1;
    lemma_wf_split(files);
    lemma_components_join(prefix, last.0@);
    lemma_join_no_backslash(prefix, last.0@);
    let left = listed_paths(init, prefix);
    let right = if last.1.files@.len() == 0 {
        seq![unix_path(path)]
    } else {
        listed_paths(last.1.files@, path)
    };
    assert(listed_paths(files, prefix) == left + right);
    let q = listed_paths(files, prefix)[k];
    assert(files == init.push(last));
    lemma_lookup_sorted(files, n);
    if k < left.len() {
        assert(q == left[k]);
        lemma_listed_leaf(init, prefix, k, cur);
        let rest = path_components(q).skip(pc.len() as int);
        assert(lookup(init, rest[0]) is Some);
        lemma_lookup_push(init, last, rest[0]);
        assert(files == init.push(last));
        assert(walk(files, rest, cur) == walk(init, rest, cur));
    } else {
        assert(q == right[k - left.len()]);
        if last.1.files@.len() == 0 {
            lemma_unix_path_plain(path);
            assert(path_components(q) == pc.push(last.0@));
            assert(path_components(q).take(pc.len() as int) == pc);
            let rest = path_components(q).skip(pc.len() as int);
            assert(rest == seq![last.0@]);
            assert(rest.drop_first().len() == 0);
            assert(files[n] == last);
            assert(lookup(files, rest[0]) == Some(last.1));
            assert(walk(files, rest, cur) == walk(last.1.files@, rest.drop_first(), Some(last.1)));
        } else {
            lemma_listed_leaf(last.1.files@, path, k - left.len(), Some(last.1));
            let pc2 = path_components(path);
            assert(pc2 == pc.push(last.0@));
            assert(path_components(q).take(pc.len() as int) == pc2.take(pc.len() as int));
            assert(pc2.take(pc.len() as int) == pc);
            let rest = path_components(q).skip(pc.len() as int);
            assert(rest[0] == pc2[pc.len() as int]);
            assert(rest.drop_first() == path_components(q).skip(pc2.len() as int));
            assert(files[n] == last);
            assert(lookup(files, rest[0]) == Some(last.1));
            assert(walk(files, rest, cur) == walk(last.1.files@, rest.drop_first(), Some(last.1)));
        }
    }
}

/// Every path that the archive lists leads, through its components, to an
/// entry without children: what `list_files` gives, `entry` and
/// `read_file` find again. It holds where the header is a tree of maps and
/// every name is one plain path component.
pub proof fn law_listed_paths_resolve(header: Header, k: int)
    requires
        header.wf(),
        names_plain(header.files@),
        0 <= k < listed_paths(header.files@, seq![]).len(),
    ensures
        resolve(header.files@, path_components(listed_paths(header.files@, seq![])[k])) matches Some(e)
            && e.files@.len() == 0,
{
    lemma_listed_leaf(header.files@, seq![], k, None);
    let q = listed_paths(header.files@, seq![])[k];
    assert(path_components(Seq::<char>::empty()) == Seq::<Seq<char>>::empty());
    assert(path_components(q).skip(0) == path_components(q));
}

/// The chains of names from the top level down to each entry without
/// children, in the order `listed_paths` lists them.
pub open spec fn leaf_chains(files: Seq<(String, Entry)>) -> Seq<Seq<Seq<char>>>
    decreases files,
{
    if files.len() == 0 {
        seq![]
    } else {
        let last = files.last();
        leaf_chains(files.drop_last()) + if last.1.files@.len() == 0 {
            seq![seq![last.0@]]
        } else {
            prefixed(last.0@, leaf_chains(last.1.files@))
        }
    }
}

/// Each chain with `name` put in front.
pub open spec fn prefixed(name: Seq<char>, cs: Seq<Seq<Seq<char>>>) -> Seq<Seq<Seq<char>>> {
    cs.map_values(|c: Seq<Seq<char>>| seq![name] + c)
}

/// `a` comes strictly before `b`, comparing their names one by one as
/// `chars_lt` does, a chain before every longer chain it begins.
pub open spec fn chains_lt(a: Seq<Seq<char>>, b: Seq<Seq<char>>) -> bool
    decreases a.len(),
{
    if a.len() == 0 {
        b.len() > 0
    } else if b.len() == 0 {
        false
    } else if a[0] == b[0] {
        chains_lt(a.drop_first(), b.drop_first())
    } else {
        chars_lt(a[0], b[0])
    }
}

/// No chain comes strictly before itself.
pub proof fn lemma_chains_lt_irreflexive(a: Seq<Seq<char>>)
    ensures
        !chains_lt(a, a),
    decreases a.len(),
{
    if a.len() > 0 {
        lemma_chains_lt_irreflexive(a.drop_first());
    }
}

/// The tree-of-maps property carries over to all but the last entry and to
/// the children of the last entry.
proof fn lemma_wf_parts(files: Seq<(String, Entry)>)
    requires
        entries_wf(files),
        files.len() > 0,
    ensures
        entries_wf(files.drop_last()),
        entries_wf(files.last().1.files@),
{
    let init = files.drop_last();
    assert(files[files.len() - 1] == files.last());
    assert forall|a: int, b: int| 0 <= a < b < init.len() implies chars_lt(
        #[trigger] init[a].0@,
        #[trigger] init[b].0@,
    ) by {
        assert(init[a] == files[a] && init[b] == files[b]);
    }
    assert forall|a: int| 0 <= a < init.len() implies entries_wf(#[trigger] init[a].1.files@) by {
        assert(init[a] == files[a]);
    }
}

/// The components of each listed path are those of the prefix followed by
/// the chain of names down to its leaf.
proof fn lemma_listed_chains(files: Seq<(String, Entry)>, prefix: Seq<char>)
    requires
        entries_wf(files),
        names_plain(files),
        no_backslash(prefix),
    ensures
        listed_paths(files, prefix).len() == leaf_chains(files).len(),
        forall|k: int|
            0 <= k < leaf_chains(files).len() ==> path_components(#[trigger] listed_paths(files, prefix)[k])
                == path_components(prefix) + leaf_chains(files)[k],
    decreases files,
{
    if files.len() > 0 {
        let last = files.last();
        let init = files.drop_last();
        let path = join_path(prefix, last.0@);
        let pc = path_components(prefix);
        lemma_wf_split(files);
        lemma_components_join(prefix, last.0@);
        lemma_join_no_backslash(prefix, last.0@);
        lemma_listed_chains(init, prefix);
        let left = listed_paths(init, prefix);
        let lc = leaf_chains(init);
        if last.1.files@.len() == 0 {
            lemma_unix_path_plain(path);
            let right = seq![unix_path(path)];
            assert(listed_paths(files, prefix) == left + right);
            assert(leaf_chains(files) == lc + seq![seq![last.0@]]);
            assert forall|k: int| 0 <= k < leaf_chains(files).len() implies path_components(
                #[trigger] listed_paths(files, prefix)[k],
            ) == pc + leaf_chains(files)[k] by {
                if k < lc.len() {
                    assert(listed_paths(files, prefix)[k] == left[k]);
                    assert(leaf_chains(files)[k] == lc[k]);
                } else {
                    assert(listed_paths(files, prefix)[k] == path);
                    assert(leaf_chains(files)[k] == seq![last.0@]);
                    assert(pc.push(last.0@) =~= pc + seq![last.0@]);
                }
            }
        } else {
            let children = last.1.files@;
            lemma_listed_chains(children, path);
            let right = listed_paths(children, path);
            let rc = leaf_chains(children);
            assert(listed_paths(files, prefix) == left + right);
            assert(leaf_chains(files) == lc + prefixed(last.0@, rc));
            assert forall|k: int| 0 <= k < leaf_chains(files).len() implies path_components(
                #[trigger] listed_paths(files, prefix)[k],
            ) == pc + leaf_chains(files)[k] by {
                if k < lc.len() {
                    assert(listed_paths(files, prefix)[k] == left[k]);
                    assert(leaf_chains(files)[k] == lc[k]);
                } else {
                    let k2 = k - lc.len();
                    assert(listed_paths(files, prefix)[k] == right[k2]);
                    assert(leaf_chains(files)[k] == seq![last.0@] + rc[k2]);
                    assert(path_components(right[k2]) == path_components(path) + rc[k2]);
                    assert(pc.push(last.0@) + rc[k2] =~= pc + (seq![last.0@] + rc[k2]));
                }
            }
        }
    }
}

/// The chains below a tree of maps come in strictly increasing order, and
/// each begins with a name no later than the last top-level name.
proof fn lemma_chains_sorted(files: Seq<(String, Entry)>)
    requires
        entries_wf(files),
    ensures
        forall|i: int, j: int|
            0 <= i < j < leaf_chains(files).len() ==> chains_lt(
                #[trigger] leaf_chains(files)[i],
                #[trigger] leaf_chains(files)[j],
            ),
        forall|k: int|
            0 <= k < leaf_chains(files).len() ==> (#[trigger] leaf_chains(files)[k]).len() > 0 && (
            leaf_chains(files)[k][0] == files.last().0@ || chars_lt(leaf_chains(files)[k][0], files.last().0@)),
    decreases files,
{
    if files.len() > 0 {
        let last = files.last();
        let init = files.drop_last();
        let n = files.len() - 1;
        lemma_wf_parts(files);
        lemma_chains_sorted(init);
        let lc = leaf_chains(init);
        let rc: Seq<Seq<Seq<char>>> = if last.1.files@.len() == 0 {
            seq![seq![last.0@]]
        } else {
            prefixed(last.0@, leaf_chains(last.1.files@))
        };
        if last.1.files@.len() != 0 {
            lemma_chains_sorted(last.1.files@);
        }
        let all = leaf_chains(files);
        assert(all == lc + rc);
        assert forall|k: int| 0 <= k < rc.len() implies (#[trigger] rc[k]).len() > 0 && rc[k][0] == last.0@ by {
            if last.1.files@.len() != 0 {
                assert(rc[k] == seq![last.0@] + leaf_chains(last.1.files@)[k]);
            }
        }
        assert forall|k: int| 0 <= k < lc.len() implies (#[trigger] lc[k]).len() > 0 && chars_lt(lc[k][0], last.0@) by {
            assert(init.last() == files[n - 1]);
            assert(files[n] == last);
            assert(chars_lt(files[n - 1].0@, files[n].0@));
            if lc[k][0] != init.last().0@ {
                lemma_chars_lt_transitive(lc[k][0], init.last().0@, last.0@);
            }
        }
        assert forall|k: int| 0 <= k < all.len() implies (#[trigger] all[k]).len() > 0 && (all[k][0] == files.last().0@
            || chars_lt(all[k][0], files.last().0@)) by {
            if k < lc.len() {
                assert(all[k] == lc[k]);
            } else {
                assert(all[k] == rc[k - lc.len()]);
            }
        }
        assert forall|i: int, j: int| 0 <= i < j < all.len() implies chains_lt(#[trigger] all[i], #[trigger] all[j]) by {
            if j < lc.len() {
                assert(all[i] == lc[i] && all[j] == lc[j]);
            } else if i < lc.len() {
                assert(all[i] == lc[i] && all[j] == rc[j - lc.len()]);
                lemma_chars_lt_irreflexive(last.0@);
                assert(lc[i][0] != rc[j - lc.len()][0]);
            } else {
                let (i2, j2) = (i - lc.len(), j - lc.len());
                assert(all[i] == rc[i2] && all[j] == rc[j2]);
                let cc = leaf_chains(last.1.files@);
                assert(rc[i2] == seq![last.0@] + cc[i2]);
                assert(rc[j2] == seq![last.0@] + cc[j2]);
                assert(rc[i2].drop_first() =~= cc[i2]);
                assert(rc[j2].drop_first() =~= cc[j2]);
            }
        }
    }
}

/// The entry that a lookup finds stands in the list under that name.
proof fn lemma_lookup_index(files: Seq<(String, Entry)>, name: Seq<char>) -> (m: int)
    requires
        lookup(files, name) is Some,
    ensures
        0 <= m < files.len(),
        files[m].0@ == name,
        lookup(files, name) == Some(files[m].1),
    decreases files.len(),
{
    if files[0].0@ == name {
        0
    } else {
        let m = lemma_lookup_index(files.drop_first(), name);
        assert(files.drop_first()[m] == files[m + 1]);
        m + 1
    }
}

/// Where each top-level entry's chains stand among all the chains: a leaf
/// gives its own name, a directory its name before each of its chains.
proof fn lemma_leaf_chains_member(files: Seq<(String, Entry)>, m: int)
    requires
        0 <= m < files.len(),
    ensures
        files[m].1.files@.len() == 0 ==> leaf_chains(files).contains(seq![files[m].0@]),
        forall|d: Seq<Seq<char>>|
            #[trigger] leaf_chains(files[m].1.files@).contains(d) ==> leaf_chains(files).contains(
                seq![files[m].0@] + d,
            ),
    decreases files.len(),
{
    let last = files.last();
    let init = files.drop_last();
    let lc = leaf_chains(init);
    let n = files.len() - 1;
    let rc: Seq<Seq<Seq<char>>> = if last.1.files@.len() == 0 {
        seq![seq![last.0@]]
    } else {
        prefixed(last.0@, leaf_chains(last.1.files@))
    };
    assert(leaf_chains(files) == lc + rc);
    if m < n {
        assert(init[m] == files[m]);
        lemma_leaf_chains_member(init, m);
        if files[m].1.files@.len() == 0 {
            let k = choose|k: int| 0 <= k < lc.len() && lc[k] == seq![files[m].0@];
            assert((lc + rc)[k] == lc[k]);
        }
        assert forall|d: Seq<Seq<char>>| #[trigger] leaf_chains(files[m].1.files@).contains(d) implies leaf_chains(
            files,
        ).contains(seq![files[m].0@] + d) by {
            assert(lc.contains(seq![files[m].0@] + d));
            let k = choose|k: int| 0 <= k < lc.len() && lc[k] == seq![files[m].0@] + d;
            assert((lc + rc)[k] == lc[k]);
        }
    } else {
        assert(files[m] == last);
        if last.1.files@.len() == 0 {
            assert((lc + rc)[lc.len() as int] == seq![last.0@]);
        }
        assert forall|d: Seq<Seq<char>>| #[trigger] leaf_chains(files[m].1.files@).contains(d) implies leaf_chains(
            files,
        ).contains(seq![files[m].0@] + d) by {
            let cc = leaf_chains(last.1.files@);
            let k = choose|k: int| 0 <= k < cc.len() && cc[k] == d;
            assert(rc[k] == seq![last.0@] + d);
            assert((lc + rc)[lc.len() + k] == rc[k]);
        }
    }
}

/// A walk along names that ends on an entry without children follows one
/// of the chains.
proof fn lemma_walk_leaf(files: Seq<(String, Entry)>, c: Seq<Seq<char>>, cur: Option<Entry>)
    requires
        c.len() > 0,
        walk(files, c, cur) matches Some(e) && e.files@.len() == 0,
    ensures
        leaf_chains(files).contains(c),
    decreases c.len(),
{
    let m = lemma_lookup_index(files, c[0]);
    let e0 = files[m].1;
    lemma_leaf_chains_member(files, m);
    let rest = c.drop_first();
    assert(walk(files, c, cur) == walk(e0.files@, rest, Some(e0)));
    assert(c =~= seq![c[0]] + rest);
    if rest.len() == 0 {
        assert(walk(e0.files@, rest, Some(e0)) == Some(e0));
        assert(seq![c[0]] + rest =~= seq![c[0]]);
    } else {
        lemma_walk_leaf(e0.files@, rest, Some(e0));
    }
}

/// What an archive lists is exactly its leaves: a chain of plain names
/// leads to an entry without children if and only if some listed path has
/// those names as its components.
pub proof fn law_listed_paths_exact(header: Header, chain: Seq<Seq<char>>)
    requires
        header.wf(),
        names_plain(header.files@),
    ensures
        (resolve(header.files@, chain) matches Some(e) && e.files@.len() == 0) <==> exists|k: int|
            0 <= k < listed_paths(header.files@, seq![]).len() && path_components(
                #[trigger] listed_paths(header.files@, seq![])[k],
            ) == chain,
{
    let files = header.files@;
    lemma_listed_chains(files, seq![]);
    assert(path_components(Seq::<char>::empty()) == Seq::<Seq<char>>::empty());
    let lp = listed_paths(files, seq![]);
    if resolve(files, chain) matches Some(e) && e.files@.len() == 0 {
        assert(chain.len() > 0) by {
            if chain.len() == 0 {
                assert(walk(files, chain, None) is None);
            }
        }
        lemma_walk_leaf(files, chain, None);
        let k = choose|k: int| 0 <= k < leaf_chains(files).len() && leaf_chains(files)[k] == chain;
        assert(path_components(lp[k]) == Seq::<Seq<char>>::empty() + chain);
        assert(Seq::<Seq<char>>::empty() + chain =~= chain);
    }
    if exists|k: int| 0 <= k < lp.len() && path_components(#[trigger] lp[k]) == chain {
        let k = choose|k: int| 0 <= k < lp.len() && path_components(#[trigger] lp[k]) == chain;
        law_listed_paths_resolve(header, k);
    }
}

/// A path written below `prefix`: the names of `c` joined with `/`, after
/// the prefix and a `/` where the prefix is not empty.
pub open spec fn below(prefix: Seq<char>, c: Seq<Seq<char>>) -> Seq<char> {
    if prefix.len() == 0 {
        joined(c)
    } else {
        prefix.push('/') + joined(c)
    }
}

/// Joining a name in front of a chain puts a `/` after the name.
proof fn lemma_joined_front(name: Seq<char>, c: Seq<Seq<char>>)
    requires
        c.len() > 0,
    ensures
        joined(seq![name] + c) == name.push('/') + joined(c),
    decreases c.len(),
{
    let s = seq![name] + c;
    if c.len() == 1 {
        assert(s.drop_last() =~= seq![name]);
        assert(s.last() == c[0]);
        assert(joined(seq![name]) == name);
        assert(joined(c) == c[0]);
        assert(joined(s) == joined(s.drop_last()).push('/') + s.last());
    } else {
        lemma_joined_front(name, c.drop_last());
        assert(s.drop_last() =~= seq![name] + c.drop_last());
        assert(s.last() == c.last());
        assert(joined(s) == joined(s.drop_last()).push('/') + s.last());
        assert(joined(c) == joined(c.drop_last()).push('/') + c.last());
        assert((name.push('/') + joined(c.drop_last())).push('/') + c.last() =~= name.push('/') + (joined(
            c.drop_last(),
        ).push('/') + c.last()));
    }
}

/// Each listed path is the chain of names down to its leaf, joined with `/`
/// below the prefix.
proof fn lemma_listed_below(files: Seq<(String, Entry)>, prefix: Seq<char>)
    requires
        entries_wf(files),
        names_plain(files),
        no_backslash(prefix),
        prefix.len() == 0 || prefix.last() != '/',
    ensures
        listed_paths(files, prefix).len() == leaf_chains(files).len(),
        forall|k: int|
            0 <= k < leaf_chains(files).len() ==> #[trigger] listed_paths(files, prefix)[k] == below(
                prefix,
                leaf_chains(files)[k],
            ),
    decreases files,
{
    if files.len() > 0 {
        let last = files.last();
        let init = files.drop_last();
        let path = join_path(prefix, last.0@);
        lemma_wf_split(files);
        lemma_join_no_backslash(prefix, last.0@);
        lemma_listed_below(init, prefix);
        let left = listed_paths(init, prefix);
        let lc = leaf_chains(init);
        let name = last.0@;
        assert(name[name.len() - 1] != '/');
        if prefix.len() == 0 {
            assert(path == name);
        } else {
            assert(path == prefix.push('/') + name);
        }
        assert(path.len() > 0 && path.last() == name.last());
        if last.1.files@.len() == 0 {
            lemma_unix_path_plain(path);
            assert(listed_paths(files, prefix) == left + seq![unix_path(path)]);
            assert(leaf_chains(files) == lc + seq![seq![name]]);
            assert forall|k: int| 0 <= k < leaf_chains(files).len() implies #[trigger] listed_paths(files, prefix)[k]
                == below(prefix, leaf_chains(files)[k]) by {
                if k < lc.len() {
                    assert(listed_paths(files, prefix)[k] == left[k]);
                    assert(leaf_chains(files)[k] == lc[k]);
                } else {
                    assert(listed_paths(files, prefix)[k] == path);
                    assert(leaf_chains(files)[k] == seq![name]);
                    assert(joined(seq![name]) == name);
                }
            }
        } else {
            let children = last.1.files@;
            lemma_listed_below(children, path);
            lemma_chains_sorted(children);
            let right = listed_paths(children, path);
            let rc = leaf_chains(children);
            assert(listed_paths(files, prefix) == left + right);
            assert(leaf_chains(files) == lc + prefixed(name, rc));
            assert forall|k: int| 0 <= k < leaf_chains(files).len() implies #[trigger] listed_paths(files, prefix)[k]
                == below(prefix, leaf_chains(files)[k]) by {
                if k < lc.len() {
                    assert(listed_paths(files, prefix)[k] == left[k]);
                    assert(leaf_chains(files)[k] == lc[k]);
                } else {
                    let k2 = k - lc.len();
                    assert(listed_paths(files, prefix)[k] == right[k2]);
                    assert(leaf_chains(files)[k] == seq![name] + rc[k2]);
                    assert(rc[k2].len() > 0);
                    lemma_joined_front(name, rc[k2]);
                    assert(right[k2] == path.push('/') + joined(rc[k2]));
                    if prefix.len() > 0 {
                        assert((prefix.push('/') + name).push('/') + joined(rc[k2]) =~= prefix.push('/') + (
                        name.push('/') + joined(rc[k2])));
                    }
                }
            }
        }
    }
}

/// Each path that the archive lists is its names joined with `/`, and every
/// chain of names that leads to an entry without children is listed so
/// joined. It holds where the header is a tree of maps and every name is
/// one plain path component.
pub proof fn law_listed_paths_joined(header: Header, chain: Seq<Seq<char>>)
    requires
        header.wf(),
        names_plain(header.files@),
    ensures
        forall|k: int|
            0 <= k < listed_paths(header.files@, seq![]).len() ==> #[trigger] listed_paths(header.files@, seq![])[k]
                == joined(path_components(listed_paths(header.files@, seq![])[k])),
        (resolve(header.files@, chain) matches Some(e) && e.files@.len() == 0) ==> exists|k: int|
            0 <= k < listed_paths(header.files@, seq![]).len() && #[trigger] listed_paths(header.files@, seq![])[k]
                == joined(chain),
{
    let files = header.files@;
    let lp = listed_paths(files, seq![]);
    let lc = leaf_chains(files);
    lemma_listed_chains(files, seq![]);
    lemma_listed_below(files, seq![]);
    assert(path_components(Seq::<char>::empty()) == Seq::<Seq<char>>::empty());
    assert forall|k: int| 0 <= k < lp.len() implies #[trigger] lp[k] == joined(path_components(lp[k])) by {
        assert(Seq::<Seq<char>>::empty() + lc[k] =~= lc[k]);
        assert(lp[k] == below(seq![], lc[k]));
    }
    law_listed_paths_exact(header, chain);
    if resolve(files, chain) matches Some(e) && e.files@.len() == 0 {
        let k = choose|k: int| 0 <= k < lp.len() && path_components(#[trigger] lp[k]) == chain;
        assert(lp[k] == joined(path_components(lp[k])));
    }
}

/// The paths listed below a tree of maps with plain names come in strictly
/// increasing order of their components, so none is listed twice.
pub proof fn lemma_listed_paths_sorted(files: Seq<(String, Entry)>)
    requires
        entries_wf(files),
        names_plain(files),
    ensures
        forall|i: int, j: int|
            0 <= i < j < listed_paths(files, seq![]).len() ==> chains_lt(
                path_components(#[trigger] listed_paths(files, seq![])[i]),
                path_components(#[trigger] listed_paths(files, seq![])[j]),
            ),
        forall|i: int, j: int|
            0 <= i < listed_paths(files, seq![]).len() && 0 <= j < listed_paths(files, seq![]).len() && i != j
                ==> #[trigger] listed_paths(files, seq![])[i] != #[trigger] listed_paths(files, seq![])[j],
{
    lemma_listed_chains(files, seq![]);
    lemma_chains_sorted(files);
    let lp = listed_paths(files, seq![]);
    let lc = leaf_chains(files);
    assert(path_components(Seq::<char>::empty()) == Seq::<Seq<char>>::empty());
    assert forall|k: int| 0 <= k < lp.len() implies path_components(#[trigger] lp[k]) == lc[k] by {
        assert(Seq::<Seq<char>>::empty() + lc[k] =~= lc[k]);
    }
    assert forall|i: int, j: int| 0 <= i < j < lp.len() implies chains_lt(
        path_components(#[trigger] lp[i]),
        path_components(#[trigger] lp[j]),
    ) by {
        assert(path_components(lp[i]) == lc[i] && path_components(lp[j]) == lc[j]);
    }
    assert forall|i: int, j: int| 0 <= i < lp.len() && 0 <= j < lp.len() && i != j implies #[trigger] lp[i]
        != #[trigger] lp[j] by {
        assert(path_components(lp[i]) == lc[i] && path_components(lp[j]) == lc[j]);
        if lp[i] == lp[j] {
            lemma_chains_lt_irreflexive(lc[i]);
            if i < j {
                assert(chains_lt(lc[i], lc[j]));
            } else {
                assert(chains_lt(lc[j], lc[i]));
            }
        }
    }
}

impl Header {
    /// The header is a tree of maps: see [`entries_wf`].
    pub open spec fn wf(&self) -> bool {
        entries_wf(self.files@)
    }
}

} // verus!
