//! Paths as the shell serves and names them: sanitizing request paths,
//! file names, extensions and MIME types.
use vstd::prelude::*;

use crate::text::{path_components, split_components, chars_of, chars_eq, str_eq, string_from_chars};

verus! {

/// Not the one-character name `.`.
pub open spec fn not_dot(c: Seq<char>) -> bool {
    c != seq!['.']
}

/// The names that `Path::components` yields as normal components on Unix:
/// the non-empty pieces between `/` other than `.`.
pub open spec fn normal_pieces(p: Seq<char>) -> Seq<Seq<char>> {
    path_components(p).filter(|c: Seq<char>| not_dot(c))
}

/// Names joined with `/` between them, as `PathBuf::push` joins relative
/// names.
pub open spec fn joined(cs: Seq<Seq<char>>) -> Seq<char>
    decreases cs.len(),
{
    if cs.len() == 0 {
        seq![]
    } else if cs.len() == 1 {
        cs[0]
    } else {
        joined(cs.drop_last()).push('/') + cs.last()
    }
}

/// The relative path that a request may reach: `None` for an absolute
/// path or one with a `..` component; otherwise its normal components
/// joined with `/`.
pub open spec fn sanitized(p: Seq<char>) -> Option<Seq<char>> {
    if p.len() > 0 && p[0] == '/' {
        None
    } else if normal_pieces(p).contains(seq!['.', '.']) {
        None
    } else {
        Some(joined(normal_pieces(p)))
    }
}

/// Filtering a sequence with one more element at its end.
pub proof fn lemma_filter_push(s: Seq<Seq<char>>, x: Seq<char>)
    ensures
        s.push(x).filter(|c: Seq<char>| not_dot(c)) == if not_dot(x) {
            s.filter(|c: Seq<char>| not_dot(c)).push(x)
        } else {
            s.filter(|c: Seq<char>| not_dot(c))
        },
{
    reveal(Seq::filter);
    assert(s.push(x).drop_last() == s);
}

/// The relative path that `path` may reach below a root, or `None` when it
/// could leave the root: it is absolute or has a `..` component.
pub fn sanitize_relative_path(path: &str) -> (r: Option<String>)
    ensures
        match sanitized(path@) {
            None => r is None,
            Some(t) => (r matches Some(s) && s@ == t),
        },
{
    let cs = chars_of(path);
    if cs.len() > 0 && cs[0] == '/' {
        return None;
    }
    let comps = split_components(path);
    let ghost pieces = comps@.map_values(|c: String| c@);
    let dot: Vec<char> = vec!['.'];
    let dotdot: Vec<char> = vec!['.', '.'];
    let mut out: Vec<char> = Vec::new();
    let mut count: usize = 0;
    let n = comps.len();
    proof {
        reveal(Seq::filter);
        assert(pieces.take(0).filter(|c: Seq<char>| not_dot(c)) == Seq::<Seq<char>>::empty());
    }
    for i in 0..n
        invariant
            n == comps@.len(),
            pieces == comps@.map_values(|c: String| c@),
            pieces == path_components(path@),
            dot@ == seq!['.'],
            dotdot@ == seq!['.', '.'],
            !pieces.take(i as int).filter(|c: Seq<char>| not_dot(c)).contains(seq!['.', '.']),
            out@ == joined(pieces.take(i as int).filter(|c: Seq<char>| not_dot(c))),
            count == pieces.take(i as int).filter(|c: Seq<char>| not_dot(c)).len(),
            count <= i,
            !(path@.len() > 0 && path@[0] == '/'),
    {
        let c = chars_of(comps[i].as_str());
        assert(c@ == pieces[i as int]);
        assert(pieces.take(i + 1) == pieces.take(i as int).push(pieces[i as int]));
        proof {
            lemma_filter_push(pieces.take(i as int), pieces[i as int]);
        }
        let ghost before = pieces.take(i as int).filter(|c: Seq<char>| not_dot(c));
        if chars_eq(c.as_slice(), dot.as_slice()) {
        } else if chars_eq(c.as_slice(), dotdot.as_slice()) {
            proof {
                pieces.lemma_filter_contains(|c: Seq<char>| not_dot(c), i as int);
            }
            return None;
        } else {
            if count > 0 {
                out.push('/');
            }
            count = count + 1;
            let mut k: usize = 0;
            let ghost base = out@;
            while k < c.len()
                invariant
                    k <= c@.len(),
                    out@ == base + c@.take(k as int),
                decreases c@.len() - k,
            {
                out.push(c[k]);
                assert(c@.take(k + 1) == c@.take(k as int).push(c@[k as int]));
                k = k + 1;
            }
            assert(c@.take(c@.len() as int) == c@);
            proof {
                let after = before.push(c@);
                assert(after.drop_last() == before);
                if before.len() == 0 {
                    assert(after.len() == 1);
                }
                assert(!after.contains(seq!['.', '.'])) by {
                    if after.contains(seq!['.', '.']) {
                        let j = choose|j: int| 0 <= j < after.len() && after[j] == seq!['.', '.'];
                        if j < before.len() {
                            assert(before[j] == after[j]);
                        }
                    }
                }
            }
        }
    }
    assert(pieces.take(n as int) == pieces);
    Some(string_from_chars(out.as_slice()))
}

/// The last normal component of `p`, as `Path::file_name` gives it: `None`
/// when there is none or it is `..`.
pub open spec fn file_name_of(p: Seq<char>) -> Option<Seq<char>> {
    let cs = normal_pieces(p);
    if cs.len() == 0 || cs.last() == seq!['.', '.'] {
        None
    } else {
        Some(cs.last())
    }
}

/// Where the last `c` stands in `s`; `-1` when there is none.
pub open spec fn last_index_of(s: Seq<char>, c: char) -> int
    decreases s.len(),
{
    if s.len() == 0 {
        -1
    } else if s.last() == c {
        s.len() - 1
    } else {
        last_index_of(s.drop_last(), c)
    }
}

/// The extension of a file name, as `Path::extension` gives it: what
/// follows the last `.`, unless there is no `.` or the only text before it
/// is empty.
pub open spec fn extension_of(name: Seq<char>) -> Option<Seq<char>> {
    let k = last_index_of(name, '.');
    if k <= 0 {
        None
    } else {
        Some(name.skip(k + 1))
    }
}

/// The extension of the path's file name.
pub open spec fn path_extension(p: Seq<char>) -> Option<Seq<char>> {
    match file_name_of(p) {
        Some(n) => extension_of(n),
        None => None,
    }
}

/// The MIME type served for an extension.
pub open spec fn mime_for(ext: Option<Seq<char>>) -> &'static str {
    match ext {
        None => "application/octet-stream",
        Some(e) => if e == "css"@ {
            "text/css; charset=utf-8"
        } else if e == "gif"@ {
            "image/gif"
        } else if e == "html"@ {
            "text/html; charset=utf-8"
        } else if e == "ico"@ {
            "image/x-icon"
        } else if e == "jpg"@ || e == "jpeg"@ {
            "image/jpeg"
        } else if e == "js"@ {
            "text/javascript; charset=utf-8"
        } else if e == "json"@ || e == "map"@ {
            "application/json; charset=utf-8"
        } else if e == "png"@ {
            "image/png"
        } else if e == "svg"@ {
            "image/svg+xml"
        } else if e == "txt"@ {
            "text/plain; charset=utf-8"
        } else if e == "wav"@ {
            "audio/wav"
        } else if e == "webp"@ {
            "image/webp"
        } else if e == "woff"@ {
            "font/woff"
        } else if e == "woff2"@ {
            "font/woff2"
        } else {
            "application/octet-stream"
        },
    }
}

/// The file name of `path`: its last normal component, unless that is `..`.
pub fn file_name(path: &str) -> (r: Option<String>)
    ensures
        match file_name_of(path@) {
            None => r is None,
            Some(t) => (r matches Some(s) && s@ == t),
        },
{
    let comps = split_components(path);
    let ghost pieces = comps@.map_values(|c: String| c@);
    let dot: Vec<char> = vec!['.'];
    let mut last: Option<usize> = None;
    let n = comps.len();
    proof {
        reveal(Seq::filter);
        assert(pieces.take(0).filter(|c: Seq<char>| not_dot(c)) == Seq::<Seq<char>>::empty());
    }
    for i in 0..n
        invariant
            n == comps@.len(),
            pieces == comps@.map_values(|c: String| c@),
            pieces == path_components(path@),
            dot@ == seq!['.'],
            match last {
                None => pieces.take(i as int).filter(|c: Seq<char>| not_dot(c)).len() == 0,
                Some(j) => j < n && pieces.take(i as int).filter(|c: Seq<char>| not_dot(c)).len()
                    > 0 && pieces.take(i as int).filter(|c: Seq<char>| not_dot(c)).last()
                    == pieces[j as int],
            },
    {
        let c = chars_of(comps[i].as_str());
        assert(c@ == pieces[i as int]);
        assert(pieces.take(i + 1) == pieces.take(i as int).push(pieces[i as int]));
        proof {
            lemma_filter_push(pieces.take(i as int), pieces[i as int]);
        }
        if !chars_eq(c.as_slice(), dot.as_slice()) {
            last = Some(i);
        }
    }
    assert(pieces.take(n as int) == pieces);
    match last {
        None => None,
        Some(j) => {
            let c = chars_of(comps[j].as_str());
            assert(c@ == pieces[j as int]);
            if c.len() == 2 && c[0] == '.' && c[1] == '.' {
                assert(c@ == seq!['.', '.']);
                None
            } else {
                assert(c@ != seq!['.', '.']);
                Some(comps[j].clone())
            }
        },
    }
}

/// The extension of a file name: what follows its last `.`, unless there
/// is none or nothing precedes it.
pub fn extension(name: &str) -> (r: Option<Vec<char>>)
    ensures
        match extension_of(name@) {
            None => r is None,
            Some(t) => (r matches Some(s) && s@ == t),
        },
{
    let cs = chars_of(name);
    let n = cs.len();
    let mut last: Option<usize> = None;
    assert(name@.take(0) == Seq::<char>::empty());
    for i in 0..n
        invariant
            n == cs@.len(),
            cs@ == name@,
            match last {
                None => last_index_of(name@.take(i as int), '.') == -1,
                Some(j) => j < i && cs@[j as int] == '.' && last_index_of(name@.take(i as int), '.')
                    == j,
            },
    {
        assert(name@.take(i + 1).drop_last() == name@.take(i as int));
        if cs[i] == '.' {
            last = Some(i);
        }
    }
    assert(name@.take(n as int) == name@);
    let k = match last {
        None => {
            return None;
        },
        Some(j) => j,
    };
    if k == 0 {
        return None;
    }
    let mut out: Vec<char> = Vec::new();
    let mut j = k + 1;
    while j < n
        invariant
            k < j <= n,
            n == cs@.len(),
            out@ == cs@.subrange(k + 1, j as int),
        decreases n - j,
    {
        out.push(cs[j]);
        assert(cs@.subrange(k + 1, j + 1) == cs@.subrange(k + 1, j as int).push(cs@[j as int]));
        j = j + 1;
    }
    assert(cs@.subrange(k + 1, n as int) == name@.skip(k + 1));
    Some(out)
}

/// Whether the characters `e` spell `lit`.
fn ext_is(e: &Vec<char>, lit: &str) -> (r: bool)
    ensures
        r == (e@ == lit@),
{
    let l = chars_of(lit);
    chars_eq(e.as_slice(), l.as_slice())
}

/// The MIME type of a path, by the extension of its file name.
pub fn guess_mime(path: &str) -> (r: &'static str)
    ensures
        r == mime_for(path_extension(path@)),
{
    let ext = match file_name(path) {
        Some(n) => extension(n.as_str()),
        None => None,
    };
    match ext {
        None => "application/octet-stream",
        Some(e) => if ext_is(&e, "css") {
            "text/css; charset=utf-8"
        } else if ext_is(&e, "gif") {
            "image/gif"
        } else if ext_is(&e, "html") {
            "text/html; charset=utf-8"
        } else if ext_is(&e, "ico") {
            "image/x-icon"
        } else if ext_is(&e, "jpg") || ext_is(&e, "jpeg") {
            "image/jpeg"
        } else if ext_is(&e, "js") {
            "text/javascript; charset=utf-8"
        } else if ext_is(&e, "json") || ext_is(&e, "map") {
            "application/json; charset=utf-8"
        } else if ext_is(&e, "png") {
            "image/png"
        } else if ext_is(&e, "svg") {
            "image/svg+xml"
        } else if ext_is(&e, "txt") {
            "text/plain; charset=utf-8"
        } else if ext_is(&e, "wav") {
            "audio/wav"
        } else if ext_is(&e, "webp") {
            "image/webp"
        } else if ext_is(&e, "woff") {
            "font/woff"
        } else if ext_is(&e, "woff2") {
            "font/woff2"
        } else {
            "application/octet-stream"
        },
    }
}

/// The type announced for each file extension the server knows.
pub open spec fn mime_table() -> Seq<(Seq<char>, Seq<char>)> {
    seq![
        ("css"@, "text/css; charset=utf-8"@),
        ("gif"@, "image/gif"@),
        ("html"@, "text/html; charset=utf-8"@),
        ("ico"@, "image/x-icon"@),
        ("jpg"@, "image/jpeg"@),
        ("jpeg"@, "image/jpeg"@),
        ("js"@, "text/javascript; charset=utf-8"@),
        ("json"@, "application/json; charset=utf-8"@),
        ("map"@, "application/json; charset=utf-8"@),
        ("png"@, "image/png"@),
        ("svg"@, "image/svg+xml"@),
        ("txt"@, "text/plain; charset=utf-8"@),
        ("wav"@, "audio/wav"@),
        ("webp"@, "image/webp"@),
        ("woff"@, "font/woff"@),
        ("woff2"@, "font/woff2"@),
    ]
}

/// Reveals the extensions of `mime_table`.
proof fn lemma_mime_keys()
    ensures
        mime_table().len() == 16,
        mime_table()[0].0 == "css"@ && mime_table()[1].0 == "gif"@ && mime_table()[2].0 == "html"@,
        mime_table()[3].0 == "ico"@ && mime_table()[4].0 == "jpg"@ && mime_table()[5].0 == "jpeg"@,
        mime_table()[6].0 == "js"@ && mime_table()[7].0 == "json"@ && mime_table()[8].0 == "map"@,
        mime_table()[9].0 == "png"@ && mime_table()[10].0 == "svg"@ && mime_table()[11].0 == "txt"@,
        mime_table()[12].0 == "wav"@ && mime_table()[13].0 == "webp"@ && mime_table()[14].0 == "woff"@,
        mime_table()[15].0 == "woff2"@,
        forall|j: int, k: int| 0 <= j < k < 16 ==> #[trigger] mime_table()[j].0 != #[trigger] mime_table()[k].0,
{
    reveal_strlit("css");
    reveal_strlit("gif");
    reveal_strlit("html");
    reveal_strlit("ico");
    reveal_strlit("jpg");
    reveal_strlit("jpeg");
    reveal_strlit("js");
    reveal_strlit("json");
    reveal_strlit("map");
    reveal_strlit("png");
    reveal_strlit("svg");
    reveal_strlit("txt");
    reveal_strlit("wav");
    reveal_strlit("webp");
    reveal_strlit("woff");
    reveal_strlit("woff2");
    assert("gif"@[0] != "css"@[0]);
    assert("ico"@[0] != "css"@[0]);
    assert("ico"@[0] != "gif"@[0]);
    assert("jpg"@[0] != "css"@[0]);
    assert("jpg"@[0] != "gif"@[0]);
    assert("jpg"@[0] != "ico"@[0]);
    assert("jpeg"@[0] != "html"@[0]);
    assert("json"@[0] != "html"@[0]);
    assert("json"@[1] != "jpeg"@[1]);
    assert("map"@[0] != "css"@[0]);
    assert("map"@[0] != "gif"@[0]);
    assert("map"@[0] != "ico"@[0]);
    assert("map"@[0] != "jpg"@[0]);
    assert("png"@[0] != "css"@[0]);
    assert("png"@[0] != "gif"@[0]);
    assert("png"@[0] != "ico"@[0]);
    assert("png"@[0] != "jpg"@[0]);
    assert("png"@[0] != "map"@[0]);
    assert("svg"@[0] != "css"@[0]);
    assert("svg"@[0] != "gif"@[0]);
    assert("svg"@[0] != "ico"@[0]);
    assert("svg"@[0] != "jpg"@[0]);
    assert("svg"@[0] != "map"@[0]);
    assert("svg"@[0] != "png"@[0]);
    assert("txt"@[0] != "css"@[0]);
    assert("txt"@[0] != "gif"@[0]);
    assert("txt"@[0] != "ico"@[0]);
    assert("txt"@[0] != "jpg"@[0]);
    assert("txt"@[0] != "map"@[0]);
    assert("txt"@[0] != "png"@[0]);
    assert("txt"@[0] != "svg"@[0]);
    assert("wav"@[0] != "css"@[0]);
    assert("wav"@[0] != "gif"@[0]);
    assert("wav"@[0] != "ico"@[0]);
    assert("wav"@[0] != "jpg"@[0]);
    assert("wav"@[0] != "map"@[0]);
    assert("wav"@[0] != "png"@[0]);
    assert("wav"@[0] != "svg"@[0]);
    assert("wav"@[0] != "txt"@[0]);
    assert("webp"@[0] != "html"@[0]);
    assert("webp"@[0] != "jpeg"@[0]);
    assert("webp"@[0] != "json"@[0]);
    assert("woff"@[0] != "html"@[0]);
    assert("woff"@[0] != "jpeg"@[0]);
    assert("woff"@[0] != "json"@[0]);
    assert("woff"@[1] != "webp"@[1]);
    let t = mime_table();
    assert forall|j: int, k: int| 0 <= j < k < 16 implies #[trigger] t[j].0 != #[trigger] t[k].0 by {
        assert(t[j].0.len() != t[k].0.len() || t[j].0[0] != t[k].0[0] || t[j].0[1] != t[k].0[1]);
    }
}

/// A path is served with the type its file name's extension has in
/// `mime_table`: a `.js` file as JavaScript, a `.css` file as CSS, and so
/// on.
pub proof fn law_mime_by_extension(p: Seq<char>, i: int)
    requires
        0 <= i < mime_table().len(),
        path_extension(p) == Some(mime_table()[i].0),
    ensures
        mime_for(path_extension(p))@ == mime_table()[i].1,
{
    lemma_mime_keys();
    let t = mime_table();
    if i == 0 {
        assert(mime_for(Some(t[0].0))@ == t[0].1);
    } else if i == 1 {
        assert(mime_for(Some(t[1].0))@ == t[1].1);
    } else if i == 2 {
        assert(mime_for(Some(t[2].0))@ == t[2].1);
    } else if i == 3 {
        assert(mime_for(Some(t[3].0))@ == t[3].1);
    } else if i == 4 {
        assert(mime_for(Some(t[4].0))@ == t[4].1);
    } else if i == 5 {
        assert(mime_for(Some(t[5].0))@ == t[5].1);
    } else if i == 6 {
        assert(mime_for(Some(t[6].0))@ == t[6].1);
    } else if i == 7 {
        assert(mime_for(Some(t[7].0))@ == t[7].1);
    } else if i == 8 {
        assert(mime_for(Some(t[8].0))@ == t[8].1);
    } else if i == 9 {
        assert(mime_for(Some(t[9].0))@ == t[9].1);
    } else if i == 10 {
        assert(mime_for(Some(t[10].0))@ == t[10].1);
    } else if i == 11 {
        assert(mime_for(Some(t[11].0))@ == t[11].1);
    } else if i == 12 {
        assert(mime_for(Some(t[12].0))@ == t[12].1);
    } else if i == 13 {
        assert(mime_for(Some(t[13].0))@ == t[13].1);
    } else if i == 14 {
        assert(mime_for(Some(t[14].0))@ == t[14].1);
    } else if i == 15 {
        assert(mime_for(Some(t[15].0))@ == t[15].1);
    }
}

/// A path whose file name has no extension, or one `mime_table` does not
/// list, is served as `application/octet-stream`.
pub proof fn law_mime_unlisted(p: Seq<char>)
    requires
        path_extension(p) matches Some(e) ==> forall|i: int| 0 <= i < mime_table().len() ==> #[trigger] mime_table()[i].0 != e,
    ensures
        mime_for(path_extension(p))@ == "application/octet-stream"@,
{
    lemma_mime_keys();
    if let Some(e) = path_extension(p) {
        let t = mime_table();
        assert(t[0].0 != e && t[1].0 != e && t[2].0 != e && t[3].0 != e && t[4].0 != e && t[5].0 != e);
        assert(t[6].0 != e && t[7].0 != e && t[8].0 != e && t[9].0 != e && t[10].0 != e && t[11].0 != e);
        assert(t[12].0 != e && t[13].0 != e && t[14].0 != e && t[15].0 != e);
    }
}

/// The components `Path::components` yields for `p` on Unix, written as
/// text: `/` for the root, `.` for a current-directory component at the
/// start of a relative path, then the normal pieces (`..` among them).
pub open spec fn components_of(p: Seq<char>) -> Seq<Seq<char>> {
    let rooted = p.len() > 0 && p[0] == '/';
    let lead_dot = !rooted && p.len() > 0 && p[0] == '.' && (p.len() == 1 || p[1] == '/');
    (if rooted {
        seq![seq!['/']]
    } else if lead_dot {
        seq![seq!['.']]
    } else {
        seq![]
    }) + normal_pieces(p)
}

/// `path` lies within `base` as `Path::starts_with` tells: the components
/// of `base` begin those of `path`, whole components only.
pub open spec fn path_within(path: Seq<char>, base: Seq<char>) -> bool {
    components_of(base).is_prefix_of(components_of(path))
}

/// The components of `p` as `Path::components` yields them on Unix.
pub fn components(p: &str) -> (r: Vec<String>)
    ensures
        r@.map_values(|c: String| c@) == components_of(p@),
{
    let cs = chars_of(p);
    let mut out: Vec<String> = Vec::new();
    let rooted = cs.len() > 0 && cs[0] == '/';
    if rooted {
        let root = "/".to_owned();
        proof {
            reveal_strlit("/");
            assert(root@ =~= seq!['/']);
        }
        out.push(root);
        assert(out@.map_values(|c: String| c@) =~= seq![seq!['/']]);
    } else if cs.len() > 0 && cs[0] == '.' && (cs.len() == 1 || cs[1] == '/') {
        let here = ".".to_owned();
        proof {
            reveal_strlit(".");
            assert(here@ =~= seq!['.']);
        }
        out.push(here);
        assert(out@.map_values(|c: String| c@) =~= seq![seq!['.']]);
    } else {
        assert(out@.map_values(|c: String| c@) =~= Seq::<Seq<char>>::empty());
    }
    let ghost head = out@.map_values(|c: String| c@);
    assert(components_of(p@) =~= head + normal_pieces(p@));
    let comps = split_components(p);
    let ghost pieces = comps@.map_values(|c: String| c@);
    let dot: Vec<char> = vec!['.'];
    let n = comps.len();
    proof {
        reveal(Seq::filter);
        assert(pieces.take(0).filter(|c: Seq<char>| not_dot(c)) == Seq::<Seq<char>>::empty());
        assert(out@.map_values(|c: String| c@) =~= head + pieces.take(0).filter(|c: Seq<char>| not_dot(c)));
    }
    for i in 0..n
        invariant
            n == comps@.len(),
            pieces == comps@.map_values(|c: String| c@),
            pieces == path_components(p@),
            dot@ == seq!['.'],
            components_of(p@) == head + normal_pieces(p@),
            out@.map_values(|c: String| c@) == head + pieces.take(i as int).filter(|c: Seq<char>| not_dot(c)),
    {
        let c = chars_of(comps[i].as_str());
        assert(c@ == pieces[i as int]);
        assert(pieces.take(i + 1) == pieces.take(i as int).push(pieces[i as int]));
        proof {
            lemma_filter_push(pieces.take(i as int), pieces[i as int]);
        }
        if !chars_eq(c.as_slice(), dot.as_slice()) {
            let ghost before = out@;
            out.push(comps[i].clone());
            assert(out@.map_values(|c: String| c@) =~= before.map_values(|c: String| c@).push(pieces[i as int]));
        }
    }
    assert(pieces.take(n as int) == pieces);
    out
}

/// Whether `path` lies within `base`, whole components only, as
/// `Path::starts_with` tells.
pub fn path_starts_with(path: &str, base: &str) -> (r: bool)
    ensures
        r == path_within(path@, base@),
{
    let pc = components(path);
    let bc = components(base);
    let ghost pv = pc@.map_values(|c: String| c@);
    let ghost bv = bc@.map_values(|c: String| c@);
    assert(pv.len() == pc@.len() && bv.len() == bc@.len());
    if bc.len() > pc.len() {
        return false;
    }
    let n = bc.len();
    for i in 0..n
        invariant
            n == bc@.len(),
            n <= pc@.len(),
            pv == pc@.map_values(|c: String| c@),
            bv == bc@.map_values(|c: String| c@),
            pv == components_of(path@),
            bv == components_of(base@),
            forall|j: int| 0 <= j < i ==> bv[j] == pv[j],
    {
        if !str_eq(bc[i].as_str(), pc[i].as_str()) {
            assert(bv[i as int] != pv[i as int]);
            assert(pv.subrange(0, bv.len() as int)[i as int] == pv[i as int]);
            return false;
        }
    }
    assert(bv.is_prefix_of(pv)) by {
        assert(pv.subrange(0, bv.len() as int) =~= bv);
    }
    true
}

/// Whether the shell may read the file at `path` (a canonical path): it
/// lies within one of the `roots` it allows reads below.
pub fn is_allowed_file_read(path: &str, roots: &Vec<String>) -> (r: bool)
    ensures
        r == exists|i: int| 0 <= i < roots@.len() && path_within(path@, #[trigger] roots@[i]@),
{
    let n = roots.len();
    for i in 0..n
        invariant
            n == roots@.len(),
            forall|j: int| 0 <= j < i ==> !path_within(path@, #[trigger] roots@[j]@),
    {
        if path_starts_with(path, roots[i].as_str()) {
            return true;
        }
    }
    false
}

} // verus!
