//! The command line of the `codex-native` program: which command the
//! arguments ask for, and the usage text.
use vstd::prelude::*;

use crate::archive::join_chars;
use crate::header::join_path;
use crate::text::{chars_of, str_eq, string_from_chars};

verus! {

/// A command of the program.
#[derive(Debug, PartialEq)]
pub enum Command {
    /// Print the paths of the files in an archive.
    ListAsar { archive: String },
    /// Extract an archive into a directory.
    ExtractAsar { archive: String, output_dir: String },
    /// Print one file of an archive as text.
    PrintAsarFile { archive: String, file: String },
    /// Run the desktop shell on a web root; without one, on the first of
    /// the usual places that holds the frontend.
    RunShell { web_root: Option<String> },
    /// The arguments name no command: print the usage.
    Usage,
}

/// A command in specification form: its name and its arguments.
pub open spec fn command_view(c: Command) -> (Seq<char>, Seq<Seq<char>>) {
    match c {
        Command::ListAsar { archive } => ("list-asar"@, seq![archive@]),
        Command::ExtractAsar { archive, output_dir } => ("extract-asar"@, seq![archive@, output_dir@]),
        Command::PrintAsarFile { archive, file } => ("print-asar-file"@, seq![archive@, file@]),
        Command::RunShell { web_root } => (
            "run-shell"@,
            match web_root {
                Some(w) => seq![w@],
                None => seq![],
            },
        ),
        Command::Usage => (seq![], seq![]),
    }
}

/// The command that the arguments (the program's name left out) ask for:
/// a known command name followed by exactly its arguments (`run-shell`
/// may leave out its web root).
pub open spec fn parsed_command(args: Seq<Seq<char>>) -> (Seq<char>, Seq<Seq<char>>) {
    if args.len() == 2 && args[0] == "list-asar"@ {
        ("list-asar"@, seq![args[1]])
    } else if args.len() == 3 && args[0] == "extract-asar"@ {
        ("extract-asar"@, seq![args[1], args[2]])
    } else if args.len() == 3 && args[0] == "print-asar-file"@ {
        ("print-asar-file"@, seq![args[1], args[2]])
    } else if args.len() == 2 && args[0] == "run-shell"@ {
        ("run-shell"@, seq![args[1]])
    } else if args.len() == 1 && args[0] == "run-shell"@ {
        ("run-shell"@, seq![])
    } else {
        (seq![], seq![])
    }
}

/// The command that the arguments (the program's name left out) ask for.
pub fn parse_command(args: &Vec<String>) -> (r: Command)
    ensures
        command_view(r) == parsed_command(args@.map_values(|a: String| a@)),
{
    let ghost av = args@.map_values(|a: String| a@);
    if args.len() == 2 && str_eq(args[0].as_str(), "list-asar") {
        assert(av[1] == args@[1]@);
        Command::ListAsar { archive: args[1].clone() }
    } else if args.len() == 3 && str_eq(args[0].as_str(), "extract-asar") {
        assert(av[1] == args@[1]@ && av[2] == args@[2]@);
        Command::ExtractAsar { archive: args[1].clone(), output_dir: args[2].clone() }
    } else if args.len() == 3 && str_eq(args[0].as_str(), "print-asar-file") {
        assert(av[1] == args@[1]@ && av[2] == args@[2]@);
        Command::PrintAsarFile { archive: args[1].clone(), file: args[2].clone() }
    } else if args.len() == 2 && str_eq(args[0].as_str(), "run-shell") {
        assert(av[1] == args@[1]@);
        Command::RunShell { web_root: Some(args[1].clone()) }
    } else if args.len() == 1 && str_eq(args[0].as_str(), "run-shell") {
        Command::RunShell { web_root: None }
    } else {
        Command::Usage
    }
}

/// The usage text, with the program's name in each line.
pub open spec fn usage_v(argv0: Seq<char>) -> Seq<char> {
    "usage:\n  "@ + argv0 + " list-asar <archive>\n  "@ + argv0 + " extract-asar <archive> <output-dir>\n  "@
        + argv0 + " print-asar-file <archive> <path>\n  "@ + argv0 + " run-shell <web-root>"@
}

/// The usage text, with the program's name in each line.
pub fn usage_text(argv0: &str) -> (r: String)
    ensures
        r@ == usage_v(argv0@),
{
    let mut s = "usage:\n  ".to_owned();
    s.append(argv0);
    s.append(" list-asar <archive>\n  ");
    s.append(argv0);
    s.append(" extract-asar <archive> <output-dir>\n  ");
    s.append(argv0);
    s.append(" print-asar-file <archive> <path>\n  ");
    s.append(argv0);
    s.append(" run-shell <web-root>");
    s
}

/// The error for an archive file that is not UTF-8 text.
pub fn not_utf8_message(file: &str) -> (r: String)
    ensures
        r@ == "asar entry is not valid utf-8: "@ + file@,
{
    let mut s = "asar entry is not valid utf-8: ".to_owned();
    s.append(file);
    s
}

/// Where the shell looks for the frontend when no web root is given, in
/// order: `CODEX_NATIVE_WEB_ROOT`, `../share/codex-native/webview` beside
/// the executable, `./extracted/app-asar/webview`, then the system
/// directories.
pub open spec fn web_root_candidates_v(env_root: Option<Seq<char>>, exe_dir: Option<Seq<char>>) -> Seq<
    Seq<char>,
> {
    (match env_root {
        Some(r) => seq![r],
        None => seq![],
    }) + (match exe_dir {
        Some(d) => seq![join_path(d, "../share/codex-native/webview"@)],
        None => seq![],
    }) + seq![
        "./extracted/app-asar/webview"@,
        "/usr/share/codex-native/webview"@,
        "/usr/local/share/codex-native/webview"@,
    ]
}

/// Where the shell looks for the frontend when no web root is given, given
/// `CODEX_NATIVE_WEB_ROOT` and the executable's directory.
pub fn web_root_candidates(env_root: Option<&str>, exe_dir: Option<&str>) -> (r: Vec<String>)
    ensures
        r@.map_values(|s: String| s@) == web_root_candidates_v(
            match env_root { Some(e) => Some(e@), None => None },
            match exe_dir { Some(d) => Some(d@), None => None },
        ),
{
    let mut out: Vec<String> = Vec::new();
    match env_root {
        Some(e) => out.push(e.to_owned()),
        None => {},
    }
    match exe_dir {
        Some(d) => {
            let dc = chars_of(d);
            let rel = chars_of("../share/codex-native/webview");
            let j = join_chars(&dc, &rel);
            out.push(string_from_chars(j.as_slice()));
        },
        None => {},
    }
    out.push("./extracted/app-asar/webview".to_owned());
    out.push("/usr/share/codex-native/webview".to_owned());
    out.push("/usr/local/share/codex-native/webview".to_owned());
    assert(out@.map_values(|s: String| s@) =~= web_root_candidates_v(
        match env_root { Some(e) => Some(e@), None => None },
        match exe_dir { Some(d) => Some(d@), None => None },
    ));
    out
}

} // verus!
