//! The command line: its arguments and the messages that explain why no
//! repository could be opened.
use crate::text::{
    ascii_lowercase, chars_contains, chars_of, chars_starts_with, contains_seq, copy_str, join,
    line_spans, lines, push_char, push_chars, push_str, spans_describe, starts_with,
    string_of_range, to_ascii_lowercase, trim_prefix_all, trim_prefix_all_range,
};
use vstd::prelude::*;

verus! {

// ---------------------------------------------------------------------------
// Arguments
// ---------------------------------------------------------------------------

/// The parsed command line.
#[derive(Debug, Default)]
pub struct Args {
    pub repo: Option<String>,
    pub config: Option<String>,
    pub no_config: bool,
    pub help: bool,
    pub version: bool,
}

pub struct ArgsView {
    pub repo: Option<Seq<char>>,
    pub config: Option<Seq<char>>,
    pub no_config: bool,
    pub help: bool,
    pub version: bool,
}

pub open spec fn opt_view(o: Option<String>) -> Option<Seq<char>> {
    match o {
        Some(s) => Some(s@),
        None => None,
    }
}

impl View for Args {
    type V = ArgsView;

    open spec fn view(&self) -> ArgsView {
        ArgsView {
            repo: opt_view(self.repo),
            config: opt_view(self.config),
            no_config: self.no_config,
            help: self.help,
            version: self.version,
        }
    }
}

/// The arguments from position `i` on, read over `acc`.
pub open spec fn parse_args_from(args: Seq<Seq<char>>, i: int, acc: ArgsView) -> Result<ArgsView, Seq<char>>
    decreases args.len() - i,
{
    if i < 0 || i >= args.len() {
        Ok(acc)
    } else {
        let a = args[i];
        if a == "-h"@ || a == "--help"@ {
            parse_args_from(args, i + 1, ArgsView { help: true, ..acc })
        } else if a == "-V"@ || a == "--version"@ {
            parse_args_from(args, i + 1, ArgsView { version: true, ..acc })
        } else if a == "--repo"@ {
            if i + 1 < args.len() {
                parse_args_from(args, i + 2, ArgsView { repo: Some(args[i + 1]), ..acc })
            } else {
                Err("--repo requires a path"@)
            }
        } else if a == "--config"@ {
            if i + 1 < args.len() {
                parse_args_from(args, i + 2, ArgsView { config: Some(args[i + 1]), ..acc })
            } else {
                Err("--config requires a path"@)
            }
        } else if a == "--no-config"@ {
            parse_args_from(args, i + 1, ArgsView { no_config: true, ..acc })
        } else if starts_with(a, "--repo="@) {
            parse_args_from(args, i + 1, ArgsView { repo: Some(trim_prefix_all(a, "--repo="@)), ..acc })
        } else if starts_with(a, "--config="@) {
            parse_args_from(args, i + 1, ArgsView { config: Some(trim_prefix_all(a, "--config="@)), ..acc })
        } else {
            Err("unknown argument: "@ + a)
        }
    }
}

/// Nothing given.
pub open spec fn no_args() -> ArgsView {
    ArgsView { repo: None, config: None, no_config: false, help: false, version: false }
}

pub open spec fn strings_view(v: Seq<String>) -> Seq<Seq<char>> {
    v.map_values(|s: String| s@)
}

fn arg_is(a: &[char], lit: &str) -> (r: bool)
    ensures
        r == (a@ == lit@),
{
    let l = chars_of(lit);
    crate::text::chars_eq(a, &l)
}

/// Reads the command line (without the program name). A later option
/// overrides an earlier one.
pub fn parse_args(args: &[String]) -> (r: Result<Args, String>)
    ensures
        match parse_args_from(strings_view(args@), 0, no_args()) {
            Ok(v) => r matches Ok(a) && a@ == v,
            Err(m) => r matches Err(e) && e@ == m,
        },
{
    let ghost sv = strings_view(args@);
    let mut parsed = Args { repo: None, config: None, no_config: false, help: false, version: false };
    let mut i: usize = 0;
    while i < args.len()
        invariant
            sv == strings_view(args@),
            i <= args.len(),
            parse_args_from(sv, 0, no_args()) == parse_args_from(sv, i as int, parsed@),
        decreases args.len() - i,
    {
        let a = chars_of(args[i].as_str());
        assert(a@ == sv[i as int]);
        if arg_is(&a, "-h") || arg_is(&a, "--help") {
            parsed.help = true;
            i += 1;
        } else if arg_is(&a, "-V") || arg_is(&a, "--version") {
            parsed.version = true;
            i += 1;
        } else if arg_is(&a, "--repo") {
            if i + 1 < args.len() {
                parsed.repo = Some(args[i + 1].clone());
                i += 2;
            } else {
                return Err(copy_str("--repo requires a path"));
            }
        } else if arg_is(&a, "--config") {
            if i + 1 < args.len() {
                parsed.config = Some(args[i + 1].clone());
                i += 2;
            } else {
                return Err(copy_str("--config requires a path"));
            }
        } else if arg_is(&a, "--no-config") {
            parsed.no_config = true;
            i += 1;
        } else {
            let repo_eq = chars_of("--repo=");
            let config_eq = chars_of("--config=");
            if chars_starts_with(&a, 0, a.len(), &repo_eq) {
                assert(a@.subrange(0, a@.len() as int) =~= a@);
                let s = trim_prefix_all_range(&a, 0, a.len(), &repo_eq);
                parsed.repo = Some(string_of_range(&a, s, a.len()));
                i += 1;
            } else if chars_starts_with(&a, 0, a.len(), &config_eq) {
                assert(a@.subrange(0, a@.len() as int) =~= a@);
                let s = trim_prefix_all_range(&a, 0, a.len(), &config_eq);
                parsed.config = Some(string_of_range(&a, s, a.len()));
                i += 1;
            } else {
                assert(a@.subrange(0, a@.len() as int) =~= a@);
                let mut msg = copy_str("unknown argument: ");
                push_chars(&mut msg, &a);
                return Err(msg);
            }
        }
    }
    Ok(parsed)
}

// ---------------------------------------------------------------------------
// Messages
// ---------------------------------------------------------------------------

/// Each line of `text` indented by two spaces, joined with newlines.
pub open spec fn indent_spec(text: Seq<char>) -> Seq<char> {
    join(lines(text).map_values(|l: Seq<char>| "  "@ + l), "\n"@)
}

/// Indents every line of `text` by two spaces.
pub fn indent_block(text: &str) -> (r: String)
    ensures
        r@ == indent_spec(text@),
{
    let t = chars_of(text);
    let spans = line_spans(&t);
    let ghost ls = lines(text@);
    let ghost ind = ls.map_values(|l: Seq<char>| "  "@ + l);
    let mut out = String::new();
    let mut k: usize = 0;
    while k < spans.len()
        invariant
            t@ == text@,
            ls == lines(text@),
            ind == ls.map_values(|l: Seq<char>| "  "@ + l),
            spans_describe(t@, spans@, ls),
            k <= spans.len(),
            out@ == join(ind.take(k as int), "\n"@),
        decreases spans.len() - k,
    {
        let (a, b) = spans[k];
        if k > 0 {
            push_str(&mut out, "\n");
        }
        push_str(&mut out, "  ");
        let line = crate::text::chars_range(&t, a, b);
        push_chars(&mut out, &line);
        proof {
            let nxt = ind.take(k + 1);
            assert(nxt.drop_last() =~= ind.take(k as int));
            assert(nxt.last() == "  "@ + ls[k as int]);
            if k == 0 {
                assert(nxt.len() == 1);
            }
        }
        k += 1;
    }
    assert(ind.take(spans.len() as int) =~= ind);
    out
}

/// A character that needs no quoting in a shell argument.
pub open spec fn shell_safe(c: char) -> bool {
    ('a' <= c <= 'z') || ('A' <= c <= 'Z') || ('0' <= c <= '9') || c == '/' || c == '.' || c == '_' || c == '-'
        || c == ':'
}

/// `s` with every `'` replaced by `'\''`.
pub open spec fn escape_quotes(s: Seq<char>) -> Seq<char>
    decreases s.len(),
{
    if s.len() == 0 {
        Seq::empty()
    } else if s.last() == '\'' {
        escape_quotes(s.drop_last()) + "'\\''"@
    } else {
        escape_quotes(s.drop_last()).push(s.last())
    }
}

/// A path as a shell argument: as it is when every character is safe,
/// else in single quotes.
pub open spec fn shell_arg_spec(text: Seq<char>) -> Seq<char> {
    if forall|i: int| 0 <= i < text.len() ==> shell_safe(#[trigger] text[i]) {
        text
    } else {
        "'"@ + escape_quotes(text) + "'"@
    }
}

fn is_shell_safe(c: char) -> (r: bool)
    ensures
        r == shell_safe(c),
{
    ('a' <= c && c <= 'z') || ('A' <= c && c <= 'Z') || ('0' <= c && c <= '9') || c == '/' || c == '.' || c
        == '_' || c == '-' || c == ':'
}

/// Quotes a path for a shell command line when it needs it.
pub fn shell_arg(text: &str) -> (r: String)
    ensures
        r@ == shell_arg_spec(text@),
{
    let t = chars_of(text);
    let mut i: usize = 0;
    let mut safe = true;
    while i < t.len()
        invariant
            i <= t.len(),
            safe == forall|j: int| 0 <= j < i ==> shell_safe(#[trigger] t@[j]),
        decreases t.len() - i,
    {
        if !is_shell_safe(t[i]) {
            safe = false;
        }
        i += 1;
    }
    if safe {
        return copy_str(text);
    }
    let mut out = copy_str("'");
    let ghost head = out@;
    let mut k: usize = 0;
    while k < t.len()
        invariant
            k <= t.len(),
            out@ == head + escape_quotes(t@.take(k as int)),
        decreases t.len() - k,
    {
        proof {
            assert(t@.take(k + 1).drop_last() =~= t@.take(k as int));
            assert(t@.take(k + 1).last() == t@[k as int]);
        }
        if t[k] == '\'' {
            push_str(&mut out, "'\\''");
        } else {
            push_char(&mut out, t[k]);
        }
        k += 1;
    }
    assert(t@.take(t.len() as int) =~= t@);
    push_str(&mut out, "'");
    out
}

/// Why no repository could be opened from `start`, explained for the kind of
/// failure that Git's message `detail` reports (compared without regard to
/// ASCII case).
pub open spec fn discovery_error_spec(start: Seq<char>, detail: Seq<char>) -> Seq<char> {
    let n = ascii_lowercase(detail);
    if contains_seq(n, "not a git repository"@) || contains_seq(n, "not inside a git work tree"@) {
        "no Git repository found\n\nLooked from:\n  "@ + start
            + "\n\nRun `gack` from inside a Git worktree, or pass one explicitly:\n  gack --repo /path/to/repo\n\nIf this directory should be a new repository, initialize it first:\n  git init\n\nDetails:\n"@
            + indent_spec(detail)
    } else if contains_seq(n, "dubious ownership"@) {
        "Git refused to open this repository because of ownership checks\n\nRepository path:\n  "@ + start
            + "\n\nCheck the directory owner, or mark it safe if you trust it:\n  git config --global --add safe.directory "@
            + shell_arg_spec(start) + "\n\nDetails:\n"@ + indent_spec(detail)
    } else if contains_seq(n, "no such file or directory"@) || contains_seq(n, "os error 2"@) {
        "could not start Git\n\nGack shells out to the `git` executable. Install Git and make sure this works:\n  git --version\n\nDetails:\n"@
            + indent_spec(detail)
    } else {
        "could not open Git repository\n\nLooked from:\n  "@ + start + "\n\nDetails:\n"@ + indent_spec(detail)
    }
}

fn has(n: &[char], lit: &str) -> (r: bool)
    ensures
        r == contains_seq(n@, lit@),
{
    let l = chars_of(lit);
    chars_contains(n, &l)
}

/// The message shown when no repository could be opened from the path
/// `start` (as displayed), given Git's error `detail`.
pub fn format_repo_discovery_error(start: &str, detail: &str) -> (r: String)
    ensures
        r@ == discovery_error_spec(start@, detail@),
{
    let d = chars_of(detail);
    let n = to_ascii_lowercase(&d);
    let details = indent_block(detail);
    if has(&n, "not a git repository") || has(&n, "not inside a git work tree") {
        let mut msg = copy_str("no Git repository found\n\nLooked from:\n  ");
        push_str(&mut msg, start);
        push_str(
            &mut msg,
            "\n\nRun `gack` from inside a Git worktree, or pass one explicitly:\n  gack --repo /path/to/repo\n\nIf this directory should be a new repository, initialize it first:\n  git init\n\nDetails:\n",
        );
        push_str(&mut msg, details.as_str());
        return msg;
    }
    if has(&n, "dubious ownership") {
        let mut msg = copy_str("Git refused to open this repository because of ownership checks\n\nRepository path:\n  ");
        push_str(&mut msg, start);
        push_str(
            &mut msg,
            "\n\nCheck the directory owner, or mark it safe if you trust it:\n  git config --global --add safe.directory ",
        );
        let quoted = shell_arg(start);
        push_str(&mut msg, quoted.as_str());
        push_str(&mut msg, "\n\nDetails:\n");
        push_str(&mut msg, details.as_str());
        return msg;
    }
    if has(&n, "no such file or directory") || has(&n, "os error 2") {
        let mut msg = copy_str(
            "could not start Git\n\nGack shells out to the `git` executable. Install Git and make sure this works:\n  git --version\n\nDetails:\n",
        );
        push_str(&mut msg, details.as_str());
        return msg;
    }
    let mut msg = copy_str("could not open Git repository\n\nLooked from:\n  ");
    push_str(&mut msg, start);
    push_str(&mut msg, "\n\nDetails:\n");
    push_str(&mut msg, details.as_str());
    msg
}

/// What the file system says about the requested start path.
#[derive(Debug, Clone, PartialEq, Eq)]
pub enum PathKind {
    /// Nothing is there.
    Missing,
    /// It could not be read, for this reason.
    Unreadable(String),
    Directory,
    File,
    /// Something that is neither a directory nor a file.
    Other,
}

pub enum PathKindView {
    Missing,
    Unreadable(Seq<char>),
    Directory,
    File,
    Other,
}

impl View for PathKind {
    type V = PathKindView;

    open spec fn view(&self) -> PathKindView {
        match self {
            PathKind::Missing => PathKindView::Missing,
            PathKind::Unreadable(d) => PathKindView::Unreadable(d@),
            PathKind::Directory => PathKindView::Directory,
            PathKind::File => PathKindView::File,
            PathKind::Other => PathKindView::Other,
        }
    }
}

/// Where repository discovery starts for the requested `path` (shown as
/// given): a directory itself, a file's parent directory, else an error that
/// says what to pass instead.
pub open spec fn start_spec(path: Seq<char>, kind: PathKindView, parent: Option<Seq<char>>) -> Result<Seq<char>, Seq<char>> {
    match kind {
        PathKindView::Missing => Err(
            "repository path does not exist\n\nRequested path:\n  "@ + path
                + "\n\nPass a directory inside a Git worktree:\n  gack --repo /path/to/repo"@,
        ),
        PathKindView::Unreadable(d) => Err(
            "could not read repository path\n\nRequested path:\n  "@ + path + "\n\nDetails:\n"@ + indent_spec(d),
        ),
        PathKindView::Directory => Ok(path),
        PathKindView::File => match parent {
            Some(p) => if p.len() > 0 {
                Ok(p)
            } else {
                Err("repository path is a file with no parent directory\n\nRequested path:\n  "@ + path)
            },
            None => Err("repository path is a file with no parent directory\n\nRequested path:\n  "@ + path),
        },
        PathKindView::Other => Err(
            "repository path is not a directory or file\n\nRequested path:\n  "@ + path
                + "\n\nPass a directory inside a Git worktree:\n  gack --repo /path/to/repo"@,
        ),
    }
}

/// Resolves the start of discovery from what the file system says of
/// `path`; `parent` is the path's parent directory, where it has one.
pub fn resolve_start_path(path: &str, kind: &PathKind, parent: Option<&str>) -> (r: Result<String, String>)
    ensures
        match start_spec(
            path@,
            kind@,
            match parent {
                Some(p) => Some(p@),
                None => None,
            },
        ) {
            Ok(v) => r matches Ok(s) && s@ == v,
            Err(m) => r matches Err(e) && e@ == m,
        },
{
    match kind {
        PathKind::Missing => {
            let mut m = copy_str("repository path does not exist\n\nRequested path:\n  ");
            push_str(&mut m, path);
            push_str(&mut m, "\n\nPass a directory inside a Git worktree:\n  gack --repo /path/to/repo");
            Err(m)
        },
        PathKind::Unreadable(d) => {
            let mut m = copy_str("could not read repository path\n\nRequested path:\n  ");
            push_str(&mut m, path);
            push_str(&mut m, "\n\nDetails:\n");
            let ind = indent_block(d.as_str());
            push_str(&mut m, ind.as_str());
            Err(m)
        },
        PathKind::Directory => Ok(copy_str(path)),
        PathKind::File => {
            if let Some(p) = parent {
                if !p.is_empty() {
                    return Ok(copy_str(p));
                }
            }
            let mut m = copy_str("repository path is a file with no parent directory\n\nRequested path:\n  ");
            push_str(&mut m, path);
            Err(m)
        },
        PathKind::Other => {
            let mut m = copy_str("repository path is not a directory or file\n\nRequested path:\n  ");
            push_str(&mut m, path);
            push_str(&mut m, "\n\nPass a directory inside a Git worktree:\n  gack --repo /path/to/repo");
            Err(m)
        },
    }
}

} // verus!
