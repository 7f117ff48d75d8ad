//! Character-level helpers shared by the archive and the shell logic.
use vstd::prelude::*;

verus! {

/// Appends one character to a string.
///
/// Calls `String::push`; the contract claims that the string afterwards is
/// the old one with `c` added at the end.
#[verifier::external_body]
pub(crate) fn push_char(s: &mut String, c: char)
    ensures
        final(s)@ == old(s)@.push(c),
{
    s.push(c);
}

/// The characters of `s`, in order.
pub fn chars_of(s: &str) -> (r: Vec<char>)
    ensures
        r@ == s@,
{
    let mut v: Vec<char> = Vec::new();
    for c in it: s.chars()
        invariant
            v@ == it.seq().take(it.index() as int),
    {
        v.push(c);
    }
    v
}

/// A string made of the characters of `cs`, in order.
pub fn string_from_chars(cs: &[char]) -> (r: String)
    ensures
        r@ == cs@,
{
    let mut s = String::new();
    let n = cs.len();
    for i in 0..n
        invariant
            n == cs@.len(),
            s@ == cs@.take(i as int),
    {
        push_char(&mut s, cs[i]);
        assert(cs@.take(i + 1) == cs@.take(i as int).push(cs@[i as int]));
    }
    assert(cs@.take(n as int) == cs@);
    s
}

/// Whether two character sequences are the same.
pub fn chars_eq(a: &[char], b: &[char]) -> (r: bool)
    ensures
        r == (a@ == b@),
{
    if a.len() != b.len() {
        return false;
    }
    let n = a.len();
    for i in 0..n
        invariant
            n == a@.len(),
            n == b@.len(),
            forall|j: int| 0 <= j < i ==> a@[j] == b@[j],
    {
        if a[i] != b[i] {
            return false;
        }
    }
    assert(a@ == b@);
    true
}

/// Whether two strings hold the same characters.
pub fn str_eq(a: &str, b: &str) -> (r: bool)
    ensures
        r == (a@ == b@),
{
    let x = chars_of(a);
    let y = chars_of(b);
    chars_eq(x.as_slice(), y.as_slice())
}

/// Whether `s` begins with `prefix`.
pub fn starts_with(s: &str, prefix: &str) -> (r: bool)
    ensures
        r == prefix@.is_prefix_of(s@),
{
    let x = chars_of(s);
    let p = chars_of(prefix);
    if p.len() > x.len() {
        return false;
    }
    let n = p.len();
    for i in 0..n
        invariant
            n == p@.len(),
            n <= x@.len(),
            x@ == s@,
            p@ == prefix@,
            forall|j: int| 0 <= j < i ==> p@[j] == x@[j],
    {
        if p[i] != x[i] {
            return false;
        }
    }
    true
}

/// Scans `s` from the left, splitting it at `/`: the pieces already closed
/// (empty pieces left out) and the piece still open.
pub open spec fn split_scan(s: Seq<char>) -> (Seq<Seq<char>>, Seq<char>)
    decreases s.len(),
{
    if s.len() == 0 {
        (seq![], seq![])
    } else {
        let (done, cur) = split_scan(s.drop_last());
        if s.last() == '/' {
            if cur.len() > 0 {
                (done.push(cur), seq![])
            } else {
                (done, seq![])
            }
        } else {
            (done, cur.push(s.last()))
        }
    }
}

/// The non-empty pieces of `s` between `/` separators, in order
/// (`"a//b/"` has the components `a` and `b`).
pub open spec fn path_components(s: Seq<char>) -> Seq<Seq<char>> {
    let (done, cur) = split_scan(s);
    if cur.len() > 0 {
        done.push(cur)
    } else {
        done
    }
}

/// Splits `path` at `/` and keeps the non-empty pieces.
pub fn split_components(path: &str) -> (r: Vec<String>)
    ensures
        r@.map_values(|c: String| c@) == path_components(path@),
{
    let cs = chars_of(path);
    let n = cs.len();
    let mut done: Vec<String> = Vec::new();
    let mut cur: Vec<char> = Vec::new();
    for i in 0..n
        invariant
            n == cs@.len(),
            cs@ == path@,
            split_scan(cs@.take(i as int)) == (done@.map_values(|c: String| c@), cur@),
    {
        assert(cs@.take(i + 1).drop_last() == cs@.take(i as int));
        if cs[i] == '/' {
            if cur.len() > 0 {
                let ghost before = done@;
                let piece = string_from_chars(cur.as_slice());
                done.push(piece);
                assert(done@.map_values(|c: String| c@)
                    == before.map_values(|c: String| c@).push(cur@));
            }
            cur = Vec::new();
        } else {
            cur.push(cs[i]);
        }
        assert(split_scan(cs@.take(i + 1)) == (done@.map_values(|c: String| c@), cur@));
    }
    assert(cs@.take(n as int) == cs@);
    if cur.len() > 0 {
        let ghost before = done@;
        let piece = string_from_chars(cur.as_slice());
        done.push(piece);
        assert(done@.map_values(|c: String| c@)
            == before.map_values(|c: String| c@).push(cur@));
    }
    assert(done@.map_values(|c: String| c@) == path_components(path@));
    done
}


/// An ASCII decimal digit.
pub open spec fn is_digit(c: char) -> bool {
    '0' <= c && c <= '9'
}

/// Every character of `ds` is a decimal digit.
pub open spec fn all_digits(ds: Seq<char>) -> bool {
    forall|i: int| 0 <= i < ds.len() ==> is_digit(#[trigger] ds[i])
}

/// The number that the decimal digits `ds` write.
pub open spec fn decimal_value(ds: Seq<char>) -> int
    decreases ds.len(),
{
    if ds.len() == 0 {
        0
    } else {
        decimal_value(ds.drop_last()) * 10 + (ds.last() as int - '0' as int)
    }
}

/// What `str::parse::<usize>` gives for `s`: an optional `+`, then one or
/// more decimal digits whose value fits in a `usize`.
pub open spec fn parsed_usize(s: Seq<char>) -> Option<usize> {
    let ds = if s.len() > 0 && s[0] == '+' {
        s.drop_first()
    } else {
        s
    };
    if ds.len() > 0 && all_digits(ds) && decimal_value(ds) <= usize::MAX {
        Some(decimal_value(ds) as usize)
    } else {
        None
    }
}

/// A longer run of digits never writes a smaller number.
pub proof fn lemma_decimal_prefix_le(ds: Seq<char>, k: int)
    requires
        all_digits(ds),
        0 <= k <= ds.len(),
    ensures
        0 <= decimal_value(ds.take(k)) <= decimal_value(ds),
    decreases ds.len(),
{
    if ds.len() > 0 {
        assert(all_digits(ds.drop_last()));
        if k == ds.len() {
            assert(ds.take(k) == ds);
            lemma_decimal_prefix_le(ds.drop_last(), k - 1);
            assert(ds.drop_last().take(k - 1) == ds.drop_last());
        } else {
            lemma_decimal_prefix_le(ds.drop_last(), k);
            assert(ds.drop_last().take(k) == ds.take(k));
            lemma_decimal_prefix_le(ds.drop_last(), ds.len() - 1);
            assert(ds.drop_last().take(ds.len() - 1) == ds.drop_last());
            assert(is_digit(ds[ds.len() - 1]));
        }
    }
}

/// Parses `s` as a decimal `usize`, as `str::parse::<usize>` does.
pub fn parse_usize(s: &str) -> (r: Option<usize>)
    ensures
        r == parsed_usize(s@),
{
    let cs = chars_of(s);
    let n = cs.len();
    let start: usize = if n > 0 && cs[0] == '+' {
        1
    } else {
        0
    };
    let ghost ds = if s@.len() > 0 && s@[0] == '+' {
        s@.drop_first()
    } else {
        s@
    };
    assert(ds == cs@.subrange(start as int, n as int));
    if start >= n {
        return None;
    }
    let mut v: usize = 0;
    let mut i: usize = start;
    while i < n
        invariant
            n == cs@.len(),
            cs@ == s@,
            start <= i <= n,
            ds == cs@.subrange(start as int, n as int),
            ds == (if s@.len() > 0 && s@[0] == '+' {
                s@.drop_first()
            } else {
                s@
            }),
            ds.len() > 0,
            all_digits(ds.take(i - start)),
            v == decimal_value(ds.take(i - start)),
        decreases n - i,
    {
        let c = cs[i];
        assert(ds[i - start] == c);
        if !('0' <= c && c <= '9') {
            assert(!all_digits(ds));
            return None;
        }
        let d: usize = (c as u32 - '0' as u32) as usize;
        assert(ds.take(i - start + 1).drop_last() == ds.take(i - start));
        assert(all_digits(ds.take(i - start + 1)));
        match v.checked_mul(10) {
            None => {
                proof {
                    if all_digits(ds) {
                        lemma_decimal_prefix_le(ds, i - start + 1);
                    }
                }
                return None;
            },
            Some(t) => match t.checked_add(d) {
                None => {
                    proof {
                        if all_digits(ds) {
                            lemma_decimal_prefix_le(ds, i - start + 1);
                        }
                    }
                    return None;
                },
                Some(u) => {
                    v = u;
                },
            },
        }
        i = i + 1;
    }
    assert(ds.take(n - start) == ds);
    Some(v)
}


/// Scans `s` from the left, splitting it at `sep`: the pieces already
/// closed (empty ones kept) and the piece still open.
pub open spec fn split_all_scan(s: Seq<char>, sep: char) -> (Seq<Seq<char>>, Seq<char>)
    decreases s.len(),
{
    if s.len() == 0 {
        (seq![], seq![])
    } else {
        let (done, cur) = split_all_scan(s.drop_last(), sep);
        if s.last() == sep {
            (done.push(cur), seq![])
        } else {
            (done, cur.push(s.last()))
        }
    }
}

/// The pieces of `s` between occurrences of `sep`, empty ones included, as
/// `str::split` gives them: never fewer than one.
pub open spec fn split_all(s: Seq<char>, sep: char) -> Seq<Seq<char>> {
    let (done, cur) = split_all_scan(s, sep);
    done.push(cur)
}

/// Splits `s` at every `sep`, keeping empty pieces.
pub fn split_on(s: &str, sep: char) -> (r: Vec<String>)
    ensures
        r@.map_values(|c: String| c@) == split_all(s@, sep),
{
    let cs = chars_of(s);
    let n = cs.len();
    let mut done: Vec<String> = Vec::new();
    let mut cur: Vec<char> = Vec::new();
    for i in 0..n
        invariant
            n == cs@.len(),
            cs@ == s@,
            split_all_scan(cs@.take(i as int), sep) == (done@.map_values(|c: String| c@), cur@),
    {
        assert(cs@.take(i + 1).drop_last() == cs@.take(i as int));
        if cs[i] == sep {
            let ghost before = done@;
            let piece = string_from_chars(cur.as_slice());
            done.push(piece);
            assert(done@.map_values(|c: String| c@) == before.map_values(|c: String| c@).push(cur@));
            cur = Vec::new();
        } else {
            cur.push(cs[i]);
        }
    }
    assert(cs@.take(n as int) == cs@);
    let ghost before = done@;
    let piece = string_from_chars(cur.as_slice());
    done.push(piece);
    assert(done@.map_values(|c: String| c@) == before.map_values(|c: String| c@).push(cur@));
    done
}

} // verus!
