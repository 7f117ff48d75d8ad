//! The local HTTP server that serves the frontend's assets: request lines,
//! response heads, and decimal numbers.
use vstd::prelude::*;

use crate::text::{push_char, chars_of, string_from_chars, str_eq};
use crate::workspace::{is_space, is_whitespace};
use crate::paths::{sanitize_relative_path, sanitized, file_name, file_name_of};
use vstd::string::StringSliceAdditionalSpecFns;

verus! {

/// The decimal digits of `n`, most significant first, without leading
/// zeros (`0` is written `0`).
pub open spec fn decimal(n: nat) -> Seq<char>
    decreases n,
{
    if n < 10 {
        seq![('0' as int + n) as char]
    } else {
        decimal(n / 10).push(('0' as int + n % 10) as char)
    }
}

/// The decimal text of `n`.
pub fn u64_to_decimal(n: u64) -> (r: String)
    ensures
        r@ == decimal(n as nat),
{
    let mut digits: Vec<char> = Vec::new();
    let mut m = n;
    while m >= 10
        invariant
            decimal(n as nat) == decimal(m as nat) + digits@.reverse(),
        decreases m,
    {
        let d = (m % 10) as u8;
        let c = ((48 + d) as u8) as char;
        assert(decimal(m as nat) == decimal((m / 10) as nat).push(c));
        let ghost before = digits@;
        digits.push(c);
        assert(digits@.reverse() == seq![c] + before.reverse());
        assert(decimal(n as nat) == decimal((m / 10) as nat) + digits@.reverse());
        m = m / 10;
    }
    let c0 = ((48 + (m as u8)) as u8) as char;
    let mut s = String::new();
    push_char(&mut s, c0);
    assert(s@ == decimal(m as nat));
    let mut i = digits.len();
    while i > 0
        invariant
            i <= digits@.len(),
            s@ == decimal(m as nat) + digits@.reverse().take((digits@.len() - i) as int),
        decreases i,
    {
        i = i - 1;
        let ghost before = s@;
        push_char(&mut s, digits[i]);
        assert(digits@.reverse()[(digits@.len() - i - 1) as int] == digits@[i as int]);
        assert(digits@.reverse().take((digits@.len() - i) as int) == digits@.reverse().take(
            (digits@.len() - i - 1) as int,
        ).push(digits@[i as int]));
    }
    assert(digits@.reverse().take(digits@.len() as int) == digits@.reverse());
    s
}

/// Scans `s` from the left, splitting it at white space: the words already
/// closed and the word still open.
pub open spec fn words_scan(s: Seq<char>) -> (Seq<Seq<char>>, Seq<char>)
    decreases s.len(),
{
    if s.len() == 0 {
        (seq![], seq![])
    } else {
        let (done, cur) = words_scan(s.drop_last());
        if is_space(s.last()) {
            if cur.len() > 0 {
                (done.push(cur), seq![])
            } else {
                (done, seq![])
            }
        } else {
            (done, cur.push(s.last()))
        }
    }
}

/// The words of `s`, as `str::split_whitespace` gives them.
pub open spec fn words(s: Seq<char>) -> Seq<Seq<char>> {
    let (done, cur) = words_scan(s);
    if cur.len() > 0 {
        done.push(cur)
    } else {
        done
    }
}

/// The first two words of `s`, at most.
fn first_words(s: &str) -> (r: Vec<String>)
    ensures
        r@.len() == if words(s@).len() < 2 { words(s@).len() } else { 2 },
        forall|i: int| 0 <= i < r@.len() ==> #[trigger] r@[i]@ == words(s@)[i],
{
    let cs = chars_of(s);
    let n = cs.len();
    let mut done: Vec<String> = Vec::new();
    let mut cur: Vec<char> = Vec::new();
    for i in 0..n
        invariant
            n == cs@.len(),
            cs@ == s@,
            words_scan(cs@.take(i as int)) == (done@.map_values(|c: String| c@), cur@),
    {
        assert(cs@.take(i + 1).drop_last() == cs@.take(i as int));
        if is_whitespace(cs[i]) {
            if cur.len() > 0 {
                let ghost before = done@;
                let piece = string_from_chars(cur.as_slice());
                done.push(piece);
                assert(done@.map_values(|c: String| c@) == before.map_values(|c: String| c@).push(cur@));
            }
            cur = Vec::new();
        } else {
            cur.push(cs[i]);
        }
    }
    assert(cs@.take(n as int) == cs@);
    if cur.len() > 0 {
        let ghost before = done@;
        let piece = string_from_chars(cur.as_slice());
        done.push(piece);
        assert(done@.map_values(|c: String| c@) == before.map_values(|c: String| c@).push(cur@));
    }
    assert(done@.map_values(|c: String| c@) == words(s@));
    assert(forall|i: int| 0 <= i < done@.len() ==> #[trigger] done@[i]@ == words(s@)[i]);
    done.truncate(2);
    done
}

/// The method and target of an HTTP request line; `Ok(None)` for a blank
/// line.
pub fn parse_request_line(line: &str) -> (r: Result<Option<(String, String)>, String>)
    ensures
        words(line@).len() == 0 ==> r == Ok::<Option<(String, String)>, String>(None),
        words(line@).len() == 1 ==> (r matches Err(m) && m@ == "request line missing target"@),
        words(line@).len() >= 2 ==> (r matches Ok(Some((m, t))) && m@ == words(line@)[0] && t@
            == words(line@)[1]),
{
    let mut w = first_words(line);
    if w.len() == 0 {
        return Ok(None);
    }
    if w.len() == 1 {
        return Err("request line missing target".to_owned());
    }
    let target = w.pop().unwrap();
    let method = w.pop().unwrap();
    Ok(Some((method, target)))
}

/// The part of a request target before its query.
pub open spec fn target_path(t: Seq<char>) -> Seq<char>
    decreases t.len(),
{
    if t.len() == 0 {
        t
    } else if t[0] == '?' {
        seq![]
    } else {
        seq![t[0]] + target_path(t.drop_first())
    }
}

/// `s` without the `/` it starts with, however many.
pub open spec fn trim_leading_slashes(s: Seq<char>) -> Seq<char>
    decreases s.len(),
{
    if s.len() > 0 && s[0] == '/' {
        trim_leading_slashes(s.drop_first())
    } else {
        s
    }
}

/// The asset a request path asks for: `index.html` for `/`, else the
/// path without its leading `/`.
pub open spec fn requested_asset(p: Seq<char>) -> Seq<char> {
    if p == seq!['/'] {
        "index.html"@
    } else {
        trim_leading_slashes(p)
    }
}

/// The characters of `s` from `k` on.
fn chars_from(cs: &Vec<char>, k: usize) -> (r: Vec<char>)
    requires
        k <= cs@.len(),
    ensures
        r@ == cs@.skip(k as int),
{
    let mut out: Vec<char> = Vec::new();
    let mut i = k;
    while i < cs.len()
        invariant
            k <= i <= cs@.len(),
            out@ == cs@.subrange(k as int, i as int),
        decreases cs@.len() - i,
    {
        out.push(cs[i]);
        assert(cs@.subrange(k as int, i + 1) == cs@.subrange(k as int, i as int).push(cs@[i as int]));
        i = i + 1;
    }
    out
}

/// `s` without its leading `/`.
pub fn trim_start_slashes(s: &str) -> (r: String)
    ensures
        r@ == trim_leading_slashes(s@),
{
    let cs = chars_of(s);
    let mut k: usize = 0;
    assert(cs@.skip(0) == cs@);
    while k < cs.len() && cs[k] == '/'
        invariant
            k <= cs@.len(),
            cs@ == s@,
            trim_leading_slashes(s@) == trim_leading_slashes(cs@.skip(k as int)),
        decreases cs@.len() - k,
    {
        assert(cs@.skip(k as int).drop_first() == cs@.skip(k + 1));
        k = k + 1;
    }
    let rest = chars_from(&cs, k);
    string_from_chars(rest.as_slice())
}

/// The asset a request path asks for.
pub fn request_relative_path(path: &str) -> (r: String)
    ensures
        r@ == requested_asset(path@),
{
    proof {
        reveal_strlit("/");
        assert("/"@ =~= seq!['/']);
    }
    if str_eq(path, "/") {
        let r = "index.html".to_owned();
        assert(r@ == "index.html"@);
        assert(path@ == seq!['/']);
        r
    } else {
        assert(path@ != seq!['/']);
        trim_start_slashes(path)
    }
}

/// How the local server answers a request.
#[derive(Debug, PartialEq)]
pub enum AssetRequest {
    /// Neither `GET` nor `HEAD`: 405.
    MethodNotAllowed,
    /// Serve the asset at `relative`; for `HEAD`, without the body.
    Serve { relative: String, head_only: bool },
}

/// How the local server answers a request with `method` and `target`.
pub fn asset_request(method: &str, target: &str) -> (r: AssetRequest)
    ensures
        !(method@ == "GET"@ || method@ == "HEAD"@) ==> r is MethodNotAllowed,
        (method@ == "GET"@ || method@ == "HEAD"@) ==> (r matches AssetRequest::Serve { relative, head_only }
            && relative@ == requested_asset(target_path(target@)) && head_only == (method@ == "HEAD"@)),
{
    let is_get = str_eq(method, "GET");
    let is_head = str_eq(method, "HEAD");
    if !is_get && !is_head {
        return AssetRequest::MethodNotAllowed;
    }
    let cs = chars_of(target);
    let mut k: usize = 0;
    assert(cs@.skip(0) == cs@);
    assert(cs@.take(0) + target_path(cs@) == target_path(cs@));
    while k < cs.len() && cs[k] != '?'
        invariant
            k <= cs@.len(),
            cs@ == target@,
            target_path(target@) == cs@.take(k as int) + target_path(cs@.skip(k as int)),
        decreases cs@.len() - k,
    {
        assert(cs@.skip(k as int).drop_first() == cs@.skip(k + 1));
        assert(cs@.take(k + 1) == cs@.take(k as int) + seq![cs@[k as int]]);
        k = k + 1;
    }
    assert(target_path(cs@.skip(k as int)) == Seq::<char>::empty());
    let mut p: Vec<char> = Vec::new();
    let mut i: usize = 0;
    while i < k
        invariant
            i <= k <= cs@.len(),
            p@ == cs@.take(i as int),
        decreases k - i,
    {
        p.push(cs[i]);
        assert(cs@.take(i + 1) == cs@.take(i as int).push(cs@[i as int]));
        i = i + 1;
    }
    let ps = string_from_chars(p.as_slice());
    AssetRequest::Serve { relative: request_relative_path(ps.as_str()), head_only: is_head }
}

/// The path below the web root that a request for `request_path` may read:
/// without leading `/` and an `app/` prefix, sanitized; `None` (forbidden)
/// when it could leave the root.
pub open spec fn asset_path(request_path: Seq<char>) -> Option<Seq<char>> {
    let t = trim_leading_slashes(request_path);
    let rel = if "app/"@.is_prefix_of(t) {
        t.skip(4)
    } else {
        t
    };
    sanitized(rel)
}

/// The path below the web root that a request may read, or `None` when it
/// is forbidden.
pub fn asset_relative_path(request_path: &str) -> (r: Option<String>)
    ensures
        match asset_path(request_path@) {
            None => r is None,
            Some(p) => (r matches Some(s) && s@ == p),
        },
{
    let t = trim_start_slashes(request_path);
    let tc = chars_of(t.as_str());
    let app = chars_of("app/");
    proof {
        reveal_strlit("app/");
    }
    let mut is_prefix = tc.len() >= 4;
    if is_prefix {
        let mut i: usize = 0;
        while i < 4
            invariant
                i <= 4,
                tc@.len() >= 4,
                app@ == "app/"@,
                app@.len() == 4,
                is_prefix == (forall|j: int| 0 <= j < i ==> tc@[j] == app@[j]),
            decreases 4 - i,
        {
            is_prefix = is_prefix && tc[i] == app[i];
            i = i + 1;
        }
    }
    assert(is_prefix == "app/"@.is_prefix_of(t@));
    let rel = if is_prefix {
        let rest = chars_from(&tc, 4);
        string_from_chars(rest.as_slice())
    } else {
        t
    };
    sanitize_relative_path(rel.as_str())
}

/// The status and reason of a failed asset read: 404 when the file is not
/// there, 500 otherwise.
pub fn asset_read_failure(not_found: bool) -> (r: (u32, &'static str))
    ensures
        not_found ==> r == (404u32, "Not Found"),
        !not_found ==> r == (500u32, "Internal Server Error"),
{
    if not_found {
        (404, "Not Found")
    } else {
        (500, "Internal Server Error")
    }
}

/// Why an asset could not be served: the status, its reason, and the body
/// that says what went wrong.
pub struct AssetFailure {
    pub status: u32,
    pub reason: &'static str,
    pub message: Vec<u8>,
}

/// What the local server answers: status, reason, content type and body.
pub struct HttpAnswer {
    pub status: u32,
    pub reason: &'static str,
    pub mime: &'static str,
    pub body: Vec<u8>,
}

/// The content type of the server's own messages.
pub open spec fn plain_text_v() -> Seq<char> {
    "text/plain; charset=utf-8"@
}

/// A request path that could leave the web root: 403, with the body
/// `forbidden`.
pub fn forbidden_failure() -> (r: AssetFailure)
    ensures
        r.status == 403,
        r.reason@ == "Forbidden"@,
        r.message@ == "forbidden".spec_bytes(),
{
    AssetFailure { status: 403, reason: "Forbidden", message: "forbidden".as_bytes_vec() }
}

/// A failed read of an asset: 404 when the file is not there, 500
/// otherwise, with `message` as the body.
pub fn read_failure(not_found: bool, message: Vec<u8>) -> (r: AssetFailure)
    ensures
        not_found ==> r.status == 404 && r.reason@ == "Not Found"@,
        !not_found ==> r.status == 500 && r.reason@ == "Internal Server Error"@,
        r.message@ == message@,
{
    let (status, reason) = asset_read_failure(not_found);
    AssetFailure { status, reason, message }
}

/// The answer to a method other than `GET` and `HEAD`: 405, as plain text.
pub fn method_not_allowed() -> (r: HttpAnswer)
    ensures
        r.status == 405,
        r.reason@ == "Method Not Allowed"@,
        r.mime@ == plain_text_v(),
        r.body@ == "method not allowed".spec_bytes(),
{
    HttpAnswer {
        status: 405,
        reason: "Method Not Allowed",
        mime: "text/plain; charset=utf-8",
        body: "method not allowed".as_bytes_vec(),
    }
}

/// The answer to a `GET` or `HEAD` of an asset, from what loading it gave:
/// the file's bytes with its type and 200, or the failure's status, reason
/// and message as plain text. A `HEAD` gets the same head and no body.
pub fn asset_answer(loaded: Result<(Vec<u8>, &'static str), AssetFailure>, head_only: bool) -> (r: HttpAnswer)
    ensures
        match loaded {
            Ok((bytes, mime)) => {
                &&& r.status == 200
                &&& r.reason@ == "OK"@
                &&& r.mime == mime
                &&& r.body@ == if head_only { Seq::<u8>::empty() } else { bytes@ }
            },
            Err(f) => {
                &&& r.status == f.status
                &&& r.reason == f.reason
                &&& r.mime@ == plain_text_v()
                &&& r.body@ == if head_only { Seq::<u8>::empty() } else { f.message@ }
            },
        },
{
    let (status, reason, mime, body) = match loaded {
        Ok((bytes, mime)) => (200u32, "OK", mime, bytes),
        Err(f) => (f.status, f.reason, "text/plain; charset=utf-8", f.message),
    };
    let body = if head_only { Vec::new() } else { body };
    HttpAnswer { status, reason, mime, body }
}

/// The Content-Security-Policy the app's page is served with.
pub open spec fn security_policy_v() -> Seq<char> {
    "default-src 'self' codex: data: blob: https: 'unsafe-inline' 'unsafe-eval'; img-src 'self' codex: data: blob: https:; font-src 'self' codex: data:; media-src 'self' codex: data: blob:; connect-src 'self' codex: https://ab.chatgpt.com https://cdn.openai.com https://chatgpt.com;"@
}

/// The Content-Security-Policy header a served file gets: only a file
/// named `index.html` has one.
pub fn index_security_policy(file_path: &str) -> (r: Option<&'static str>)
    ensures
        file_name_of(file_path@) == Some("index.html"@) ==> (r matches Some(p) && p@ == security_policy_v()),
        file_name_of(file_path@) != Some("index.html"@) ==> r is None,
{
    match file_name(file_path) {
        Some(name) => {
            if str_eq(name.as_str(), "index.html") {
                Some(
                    "default-src 'self' codex: data: blob: https: 'unsafe-inline' 'unsafe-eval'; img-src 'self' codex: data: blob: https:; font-src 'self' codex: data:; media-src 'self' codex: data: blob:; connect-src 'self' codex: https://ab.chatgpt.com https://cdn.openai.com https://chatgpt.com;",
                )
            } else {
                None
            }
        },
        None => None,
    }
}

/// The head of the local server's response.
pub open spec fn response_head(status: nat, reason: Seq<char>, mime: Seq<char>, len: nat) -> Seq<char> {
    "HTTP/1.1 "@ + decimal(status) + " "@ + reason + "\r\nContent-Type: "@ + mime
        + "\r\nContent-Length: "@ + decimal(len) + "\r\nCache-Control: no-store\r\nConnection: close\r\n\r\n"@
}

/// The head of the local server's response for a body of `body_len` bytes.
pub fn http_response_head(status: u32, reason: &str, mime: &str, body_len: usize) -> (r: String)
    ensures
        r@ == response_head(status as nat, reason@, mime@, body_len as nat),
{
    let mut s = "HTTP/1.1 ".to_owned();
    let st = u64_to_decimal(status as u64);
    s.append(st.as_str());
    s.append(" ");
    s.append(reason);
    s.append("\r\nContent-Type: ");
    s.append(mime);
    s.append("\r\nContent-Length: ");
    let l = u64_to_decimal(body_len as u64);
    s.append(l.as_str());
    s.append("\r\nCache-Control: no-store\r\nConnection: close\r\n\r\n");
    s
}

} // verus!
