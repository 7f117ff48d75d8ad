use codex_native::base64::{decode_base64_url, encode_base64, jwt_payload};
use codex_native::cli::{not_utf8_message, parse_command, usage_text, web_root_candidates, Command};
use codex_native::http::{
    asset_answer, asset_read_failure, asset_relative_path, asset_request, forbidden_failure, http_response_head,
    index_security_policy, method_not_allowed, parse_request_line, read_failure, request_relative_path,
    trim_start_slashes, u64_to_decimal, AssetRequest,
};
use codex_native::listing::may_list_directory;
use codex_native::paths::{
    components, extension, file_name, guess_mime, is_allowed_file_read, path_starts_with, sanitize_relative_path,
};
use codex_native::text::{chars_eq, parse_usize, split_components, split_on, starts_with, str_eq};

#[test]
fn text_helpers() {
    assert!(str_eq("abc", "abc"));
    assert!(!str_eq("abc", "abd"));
    assert!(starts_with("vscode://codex/x", "vscode://"));
    assert!(!starts_with("vs", "vscode"));
    assert!(chars_eq(&['a', 'b'], &['a', 'b']));
    assert_eq!(split_components("/a//b/"), vec!["a", "b"]);
    assert_eq!(split_on("a.b..c", '.'), vec!["a", "b", "", "c"]);
    assert_eq!(split_on("", '.'), vec![""]);
}

#[test]
fn parse_usize_accepts_only_decimal_digits() {
    assert_eq!(parse_usize("0"), Some(0));
    assert_eq!(parse_usize("1234"), Some(1234));
    assert_eq!(parse_usize(""), None);
    assert_eq!(parse_usize("12a"), None);
    assert_eq!(parse_usize("-1"), None);
    assert_eq!(parse_usize("+7"), Some(7));
    assert_eq!(parse_usize("99999999999999999999999999"), None);
}

#[test]
fn sanitize_keeps_relative_normal_components() {
    assert_eq!(sanitize_relative_path("assets/app.js"), Some("assets/app.js".to_string()));
    assert_eq!(sanitize_relative_path("./a/./b/"), Some("a/b".to_string()));
    assert_eq!(sanitize_relative_path("a/../b"), None);
    assert_eq!(sanitize_relative_path("/etc/passwd"), None);
    assert_eq!(sanitize_relative_path(""), Some("".to_string()));
}

#[test]
fn file_names_extensions_and_mime_types() {
    assert_eq!(file_name("/home/u/proj"), Some("proj".to_string()));
    assert_eq!(file_name("/"), None);
    assert_eq!(file_name("a/.."), None);
    assert_eq!(extension("app.min.js"), Some(vec!['j', 's']));
    assert_eq!(extension(".bashrc"), None);
    assert_eq!(extension("README"), None);
    assert_eq!(guess_mime("index.html"), "text/html; charset=utf-8");
    assert_eq!(guess_mime("a/b/photo.jpeg"), "image/jpeg");
    assert_eq!(guess_mime("x.map"), "application/json; charset=utf-8");
    assert_eq!(guess_mime("font.woff2"), "font/woff2");
    assert_eq!(guess_mime("archive.tar.gz"), "application/octet-stream");
    assert_eq!(guess_mime("noext"), "application/octet-stream");
}

#[test]
fn path_components_and_prefixes() {
    assert_eq!(components("/a/./b//c/"), vec!["/", "a", "b", "c"]);
    assert_eq!(components("./a"), vec![".", "a"]);
    assert_eq!(components("a/../b"), vec!["a", "..", "b"]);
    assert!(path_starts_with("/home/u/proj/file.txt", "/home/u"));
    assert!(path_starts_with("/home/u", "/home/u/"));
    assert!(!path_starts_with("/home/user", "/home/u"));
    assert!(!path_starts_with("home/u", "/home"));
    assert!(path_starts_with("/anything", ""));
}

#[test]
fn file_reads_are_allowed_below_the_roots() {
    let roots = vec!["/work".to_string(), "/tmp".to_string()];
    assert!(is_allowed_file_read("/work/src/main.rs", &roots));
    assert!(is_allowed_file_read("/tmp/x", &roots));
    assert!(!is_allowed_file_read("/etc/passwd", &roots));
    assert!(!is_allowed_file_read("/workspace/x", &roots));
    assert!(!is_allowed_file_read("/work/x", &vec![]));
}

#[test]
fn base64_encoding_pads_to_four() {
    assert_eq!(encode_base64(b""), "");
    assert_eq!(encode_base64(b"f"), "Zg==");
    assert_eq!(encode_base64(b"fo"), "Zm8=");
    assert_eq!(encode_base64(b"foo"), "Zm9v");
    assert_eq!(encode_base64(b"foobar"), "Zm9vYmFy");
    assert_eq!(encode_base64(&[0xfb, 0xff]), "+/8=");
}

#[test]
fn base64_url_decoding() {
    assert_eq!(decode_base64_url("Zm9v"), Some(b"foo".to_vec()));
    assert_eq!(decode_base64_url("Zm8"), Some(b"fo".to_vec()));
    assert_eq!(decode_base64_url("Zg=="), Some(b"f".to_vec()));
    assert_eq!(decode_base64_url("-_8"), Some(vec![0xfb, 0xff]));
    assert_eq!(decode_base64_url("Z"), None);
    assert_eq!(decode_base64_url("Zm+v"), None);
    assert_eq!(decode_base64_url(""), Some(vec![]));
}

#[test]
fn jwt_payload_decodes_the_second_piece() {
    assert_eq!(jwt_payload("eyJ4IjoxfQ.eyJlbWFpbCI6ImFAYi5jIn0.sig"), Some(b"{\"email\":\"a@b.c\"}".to_vec()));
    assert_eq!(jwt_payload("only-one-piece"), None);
    assert_eq!(jwt_payload("a.!!.c"), None);
}

#[test]
fn request_lines_and_asset_requests() {
    assert_eq!(parse_request_line("  \r\n"), Ok(None));
    assert_eq!(parse_request_line("GET\r\n"), Err("request line missing target".to_string()));
    assert_eq!(
        parse_request_line("GET /index.html HTTP/1.1\r\n"),
        Ok(Some(("GET".to_string(), "/index.html".to_string())))
    );
    assert_eq!(asset_request("POST", "/"), AssetRequest::MethodNotAllowed);
    assert_eq!(
        asset_request("GET", "/?v=1"),
        AssetRequest::Serve { relative: "index.html".to_string(), head_only: false }
    );
    assert_eq!(
        asset_request("HEAD", "//app/main.js?x"),
        AssetRequest::Serve { relative: "app/main.js".to_string(), head_only: true }
    );
    assert_eq!(request_relative_path("/"), "index.html");
    assert_eq!(trim_start_slashes("///a/b"), "a/b");
}

#[test]
fn asset_paths_are_sanitized() {
    assert_eq!(asset_relative_path("/app/assets/x.css"), Some("assets/x.css".to_string()));
    assert_eq!(asset_relative_path("index.html"), Some("index.html".to_string()));
    assert_eq!(asset_relative_path("/../secret"), None);
    assert_eq!(asset_read_failure(true), (404, "Not Found"));
    assert_eq!(asset_read_failure(false), (500, "Internal Server Error"));
}

#[test]
fn response_heads() {
    assert_eq!(u64_to_decimal(0), "0");
    assert_eq!(u64_to_decimal(18446744073709551615), "18446744073709551615");
    assert_eq!(
        http_response_head(200, "OK", "text/plain; charset=utf-8", 12),
        "HTTP/1.1 200 OK\r\nContent-Type: text/plain; charset=utf-8\r\nContent-Length: 12\r\nCache-Control: no-store\r\nConnection: close\r\n\r\n"
    );
}

#[test]
fn command_lines() {
    let args = |v: &[&str]| v.iter().map(|s| s.to_string()).collect::<Vec<String>>();
    assert_eq!(parse_command(&args(&["list-asar", "a.asar"])), Command::ListAsar { archive: "a.asar".to_string() });
    assert_eq!(
        parse_command(&args(&["extract-asar", "a.asar", "out"])),
        Command::ExtractAsar { archive: "a.asar".to_string(), output_dir: "out".to_string() }
    );
    assert_eq!(
        parse_command(&args(&["print-asar-file", "a.asar", "p.txt"])),
        Command::PrintAsarFile { archive: "a.asar".to_string(), file: "p.txt".to_string() }
    );
    assert_eq!(
        parse_command(&args(&["run-shell", "web"])),
        Command::RunShell { web_root: Some("web".to_string()) }
    );
    assert_eq!(parse_command(&args(&["run-shell"])), Command::RunShell { web_root: None });
    assert_eq!(parse_command(&args(&["list-asar"])), Command::Usage);
    assert_eq!(parse_command(&args(&["list-asar", "a", "b"])), Command::Usage);
    assert_eq!(parse_command(&args(&[])), Command::Usage);
    assert_eq!(
        usage_text("codex-native"),
        "usage:\n  codex-native list-asar <archive>\n  codex-native extract-asar <archive> <output-dir>\n  codex-native print-asar-file <archive> <path>\n  codex-native run-shell <web-root>"
    );
    assert_eq!(not_utf8_message("x.bin"), "asar entry is not valid utf-8: x.bin");
}

#[test]
fn web_root_candidates_in_order() {
    assert_eq!(
        web_root_candidates(Some("/opt/web"), Some("/usr/bin")),
        vec![
            "/opt/web",
            "/usr/bin/../share/codex-native/webview",
            "./extracted/app-asar/webview",
            "/usr/share/codex-native/webview",
            "/usr/local/share/codex-native/webview",
        ]
    );
    assert_eq!(
        web_root_candidates(None, None),
        vec!["./extracted/app-asar/webview", "/usr/share/codex-native/webview", "/usr/local/share/codex-native/webview"]
    );
}

#[test]
fn url_safe_form_of_an_encoding_decodes_back() {
    for bytes in [vec![], vec![0u8], vec![0xfb, 0xff], vec![1, 2, 3, 4, 5, 6, 7], (0u8..=255).collect::<Vec<u8>>()] {
        let url = encode_base64(&bytes).replace('+', "-").replace('/', "_");
        assert_eq!(decode_base64_url(&url), Some(bytes));
    }
}

#[test]
fn url_decoding_ignores_everything_after_the_first_pad() {
    assert_eq!(decode_base64_url("Zm8=garbage!"), decode_base64_url("Zm8"));
    assert_eq!(decode_base64_url("Zm9v=Zm9v"), Some(b"foo".to_vec()));
}

#[test]
fn method_not_allowed_answers_405_in_plain_text() {
    let a = method_not_allowed();
    assert_eq!(a.status, 405);
    assert_eq!(a.reason, "Method Not Allowed");
    assert_eq!(a.mime, "text/plain; charset=utf-8");
    assert_eq!(a.body, b"method not allowed".to_vec());
}

#[test]
fn forbidden_and_read_failures() {
    let f = forbidden_failure();
    assert_eq!((f.status, f.reason), (403, "Forbidden"));
    assert_eq!(f.message, b"forbidden".to_vec());
    let missing = read_failure(true, b"gone".to_vec());
    assert_eq!((missing.status, missing.reason), (404, "Not Found"));
    assert_eq!(missing.message, b"gone".to_vec());
    let broken = read_failure(false, b"denied".to_vec());
    assert_eq!((broken.status, broken.reason), (500, "Internal Server Error"));
    assert_eq!(broken.message, b"denied".to_vec());
}

#[test]
fn asset_answer_serves_bytes_or_the_failure() {
    let ok = asset_answer(Ok((b"<html>".to_vec(), "text/html; charset=utf-8")), false);
    assert_eq!((ok.status, ok.reason, ok.mime), (200, "OK", "text/html; charset=utf-8"));
    assert_eq!(ok.body, b"<html>".to_vec());
    let head = asset_answer(Ok((b"<html>".to_vec(), "text/html; charset=utf-8")), true);
    assert_eq!((head.status, head.reason, head.mime), (200, "OK", "text/html; charset=utf-8"));
    assert!(head.body.is_empty());
    let refused = asset_answer(Err(forbidden_failure()), false);
    assert_eq!((refused.status, refused.reason, refused.mime), (403, "Forbidden", "text/plain; charset=utf-8"));
    assert_eq!(refused.body, b"forbidden".to_vec());
    let refused_head = asset_answer(Err(read_failure(true, b"gone".to_vec())), true);
    assert_eq!((refused_head.status, refused_head.reason), (404, "Not Found"));
    assert!(refused_head.body.is_empty());
}

#[test]
fn only_index_html_gets_a_security_policy() {
    let policy = index_security_policy("/srv/web/index.html").unwrap();
    assert!(policy.starts_with("default-src 'self' codex: data: blob: https:"));
    assert!(policy.ends_with("https://chatgpt.com;"));
    assert_eq!(index_security_policy("index.html"), Some(policy));
    assert_eq!(index_security_policy("/srv/web/app.js"), None);
    assert_eq!(index_security_policy("/srv/web/index.htm"), None);
    assert_eq!(index_security_policy("/srv/index.html/.."), None);
}

#[test]
fn a_directory_is_listed_only_within_the_root() {
    assert!(may_list_directory("/work/repo/src", "/work/repo", true));
    assert!(may_list_directory("/work/repo", "/work/repo", true));
    assert!(!may_list_directory("/work/repo/src", "/work/repo", false));
    assert!(!may_list_directory("/work/repository", "/work/repo", true));
    assert!(!may_list_directory("/work", "/work/repo", true));
}
