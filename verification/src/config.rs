//! Settings: their defaults, the small TOML subset that the configuration
//! files are written in, and the order in which the files are read.
use crate::text::{
    chars_eq, chars_of, copy_str, decimal, decimal_string, find_char, find_elem, line_spans, lines,
    opt_u64, parse_unsigned, parse_unsigned_range, push_chars, push_str, spans_describe, string_of_range,
    trim, trim_range,
};
use vstd::prelude::*;

verus! {

/// Whether the terminal reports mouse events to the program.
#[derive(Debug, Clone, Copy, PartialEq, Eq, Structural)]
pub enum MouseMode {
    Auto,
    Always,
    Never,
}

/// Whether the work tree is watched for changes.
#[derive(Debug, Clone, Copy, PartialEq, Eq, Structural)]
pub enum WatchMode {
    Auto,
    Always,
    Never,
}

/// The `[ui]` section.
#[derive(Debug, Clone, Copy, PartialEq, Eq, Structural)]
pub struct UiConfig {
    pub mouse: MouseMode,
}

/// The `[git]` section.
#[derive(Debug, Clone, Copy, PartialEq, Eq, Structural)]
pub struct GitConfig {
    pub auto_refresh_ms: Option<u64>,
    pub filesystem_watch: WatchMode,
}

/// All settings.
#[derive(Debug, Clone, Copy, PartialEq, Eq, Structural)]
pub struct Config {
    pub ui: UiConfig,
    pub git: GitConfig,
}

/// The settings in force when no file says otherwise.
pub open spec fn default_config() -> Config {
    Config {
        ui: UiConfig { mouse: MouseMode::Auto },
        git: GitConfig { auto_refresh_ms: Some(2500), filesystem_watch: WatchMode::Auto },
    }
}

impl Default for Config {
    fn default() -> (c: Config)
        ensures
            c == default_config(),
    {
        Config {
            ui: UiConfig { mouse: MouseMode::Auto },
            git: GitConfig { auto_refresh_ms: Some(2500), filesystem_watch: WatchMode::Auto },
        }
    }
}

// ---------------------------------------------------------------------------
// The file format
// ---------------------------------------------------------------------------

/// A raw line without its comment (from the first `#` on), trimmed.
#[verifier::opaque]
pub open spec fn config_line(raw: Seq<char>) -> Seq<char> {
    match find_elem(raw, '#') {
        Some(i) => trim(raw.take(i)),
        None => trim(raw),
    }
}

/// The contents of a double-quoted value.
pub open spec fn string_value_spec(value: Seq<char>) -> Result<Seq<char>, Seq<char>> {
    let v = trim(value);
    if v.len() >= 2 && v[0] == '"' && v.last() == '"' {
        Ok(v.subrange(1, v.len() - 1))
    } else {
        Err("expected quoted string, got "@ + v)
    }
}

/// The mode named `s`, if any.
pub open spec fn mode_named(s: Seq<char>) -> Option<u8> {
    if s == "auto"@ {
        Some(0)
    } else if s == "always"@ {
        Some(1)
    } else if s == "never"@ {
        Some(2)
    } else {
        None
    }
}

pub open spec fn mouse_of(n: u8) -> MouseMode {
    if n == 0 {
        MouseMode::Auto
    } else if n == 1 {
        MouseMode::Always
    } else {
        MouseMode::Never
    }
}

pub open spec fn watch_of(n: u8) -> WatchMode {
    if n == 0 {
        WatchMode::Auto
    } else if n == 1 {
        WatchMode::Always
    } else {
        WatchMode::Never
    }
}

/// `c` with `key = value` of `section` applied; keys this program does not
/// know are ignored.
#[verifier::opaque]
pub open spec fn apply_spec(section: Seq<char>, key: Seq<char>, value: Seq<char>, c: Config) -> Result<Config, Seq<char>> {
    if section == "ui"@ && key == "mouse"@ {
        match string_value_spec(value) {
            Err(e) => Err(e),
            Ok(s) => match mode_named(s) {
                Some(n) => Ok(Config { ui: UiConfig { mouse: mouse_of(n) }, git: c.git }),
                None => Err("unsupported mouse mode "@ + s),
            },
        }
    } else if section == "git"@ && key == "auto_refresh_ms"@ {
        if value == "false"@ || value == "0"@ {
            Ok(Config { ui: c.ui, git: GitConfig { auto_refresh_ms: None, filesystem_watch: c.git.filesystem_watch } })
        } else {
            match parse_unsigned(value, u64::MAX as int) {
                Some(n) => Ok(
                    Config {
                        ui: c.ui,
                        git: GitConfig { auto_refresh_ms: Some(n as u64), filesystem_watch: c.git.filesystem_watch },
                    },
                ),
                None => Err("invalid auto_refresh_ms"@),
            }
        }
    } else if section == "git"@ && key == "filesystem_watch"@ {
        match string_value_spec(value) {
            Err(e) => Err(e),
            Ok(s) => match mode_named(s) {
                Some(n) => Ok(
                    Config {
                        ui: c.ui,
                        git: GitConfig { auto_refresh_ms: c.git.auto_refresh_ms, filesystem_watch: watch_of(n) },
                    },
                ),
                None => Err("unsupported filesystem_watch mode "@ + s),
            },
        }
    } else {
        Ok(c)
    }
}

/// Where reading a configuration text has got to.
pub struct ConfigParse {
    pub section: Seq<char>,
    pub config: Config,
    pub error: Option<Seq<char>>,
}

/// Reading line `index` (counted from 0) of a configuration text.
pub open spec fn config_step(st: ConfigParse, raw: Seq<char>, index: int) -> ConfigParse {
    if st.error is Some {
        st
    } else {
        let line = config_line(raw);
        if line.len() == 0 {
            st
        } else if line[0] == '[' && line.last() == ']' {
            ConfigParse { section: trim(line.subrange(1, line.len() - 1)), config: st.config, error: None }
        } else {
            match find_elem(line, '=') {
                None => ConfigParse {
                    section: st.section,
                    config: st.config,
                    error: Some("line "@ + decimal((index + 1) as nat) + " is not key = value"@),
                },
                Some(eq) => match apply_spec(st.section, trim(line.take(eq)), trim(line.skip(eq + 1)), st.config) {
                    Ok(c) => ConfigParse { section: st.section, config: c, error: None },
                    Err(e) => ConfigParse { section: st.section, config: st.config, error: Some(e) },
                },
            }
        }
    }
}

/// Reading the lines `ls` over the settings `init`.
pub open spec fn config_parse(ls: Seq<Seq<char>>, init: Config) -> ConfigParse
    decreases ls.len(),
{
    if ls.len() == 0 {
        ConfigParse { section: Seq::empty(), config: init, error: None }
    } else {
        config_step(config_parse(ls.drop_last(), init), ls.last(), ls.len() - 1)
    }
}

/// The contents of a double-quoted value, or the error naming it.
pub fn string_value(value: &[char], start: usize, end: usize) -> (r: Result<String, String>)
    requires
        start <= end <= value.len(),
    ensures
        match string_value_spec(value@.subrange(start as int, end as int)) {
            Ok(s) => r matches Ok(v) && v@ == s,
            Err(m) => r matches Err(e) && e@ == m,
        },
{
    let (a, b) = trim_range(value, start, end);
    let ghost v = value@.subrange(a as int, b as int);
    if b - a >= 2 && value[a] == '"' && value[b - 1] == '"' {
        assert(v.subrange(1, v.len() - 1) =~= value@.subrange(a + 1, b - 1));
        Ok(string_of_range(value, a + 1, b - 1))
    } else {
        let mut msg = copy_str("expected quoted string, got ");
        let shown = string_of_range(value, a, b);
        push_str(&mut msg, shown.as_str());
        Err(msg)
    }
}

fn named_mode(s: &str) -> (r: Option<u8>)
    ensures
        r == mode_named(s@),
{
    let v = chars_of(s);
    let auto = chars_of("auto");
    let always = chars_of("always");
    let never = chars_of("never");
    if chars_eq(&v, &auto) {
        Some(0)
    } else if chars_eq(&v, &always) {
        Some(1)
    } else if chars_eq(&v, &never) {
        Some(2)
    } else {
        None
    }
}

fn range_is(t: &[char], a: usize, b: usize, lit: &str) -> (r: bool)
    requires
        a <= b <= t.len(),
    ensures
        r == (t@.subrange(a as int, b as int) == lit@),
{
    let piece = crate::text::chars_range(t, a, b);
    let l = chars_of(lit);
    chars_eq(&piece, &l)
}

/// Applies `key = value` (both ranges of `t`, trimmed) of `section`.
pub fn apply_config_value(section: &[char], t: &[char], key: (usize, usize), value: (usize, usize), config: &mut Config) -> (r: Result<(), String>)
    requires
        key.0 <= key.1 <= t.len(),
        value.0 <= value.1 <= t.len(),
    ensures
        match apply_spec(
            section@,
            t@.subrange(key.0 as int, key.1 as int),
            t@.subrange(value.0 as int, value.1 as int),
            *old(config),
        ) {
            Ok(c) => r is Ok && *final(config) == c,
            Err(m) => r matches Err(e) && e@ == m && *final(config) == *old(config),
        },
{
    reveal(apply_spec);
    let ui = chars_of("ui");
    let git = chars_of("git");
    let in_ui = chars_eq(section, &ui);
    let in_git = chars_eq(section, &git);
    let (ka, kb) = key;
    let (va, vb) = value;
    if in_ui && range_is(t, ka, kb, "mouse") {
        let s = match string_value(t, va, vb) {
            Ok(s) => s,
            Err(e) => return Err(e),
        };
        match named_mode(s.as_str()) {
            Some(n) => {
                config.ui.mouse = if n == 0 {
                    MouseMode::Auto
                } else if n == 1 {
                    MouseMode::Always
                } else {
                    MouseMode::Never
                };
                Ok(())
            },
            None => {
                let mut msg = copy_str("unsupported mouse mode ");
                push_str(&mut msg, s.as_str());
                Err(msg)
            },
        }
    } else if in_git && range_is(t, ka, kb, "auto_refresh_ms") {
        if range_is(t, va, vb, "false") || range_is(t, va, vb, "0") {
            config.git.auto_refresh_ms = None;
            Ok(())
        } else {
            match parse_unsigned_range(t, va, vb, 18446744073709551615u64) {
                Some(n) => {
                    config.git.auto_refresh_ms = Some(n);
                    Ok(())
                },
                None => Err(copy_str("invalid auto_refresh_ms")),
            }
        }
    } else if in_git && range_is(t, ka, kb, "filesystem_watch") {
        let s = match string_value(t, va, vb) {
            Ok(s) => s,
            Err(e) => return Err(e),
        };
        match named_mode(s.as_str()) {
            Some(n) => {
                config.git.filesystem_watch = if n == 0 {
                    WatchMode::Auto
                } else if n == 1 {
                    WatchMode::Always
                } else {
                    WatchMode::Never
                };
                Ok(())
            },
            None => {
                let mut msg = copy_str("unsupported filesystem_watch mode ");
                push_str(&mut msg, s.as_str());
                Err(msg)
            },
        }
    } else {
        Ok(())
    }
}

/// The range of `config_line(t[a..b])` in `t`.
fn config_line_range(t: &[char], a: usize, b: usize) -> (r: (usize, usize))
    requires
        a <= b <= t.len(),
    ensures
        a <= r.0 <= r.1 <= b,
        t@.subrange(r.0 as int, r.1 as int) == config_line(t@.subrange(a as int, b as int)),
{
    reveal(config_line);
    let ghost raw = t@.subrange(a as int, b as int);
    let end = match find_char(t, a, b, '#') {
        Some(i) => a + i,
        None => b,
    };
    proof {
        match find_elem(raw, '#') {
            Some(i) => {
                assert(raw.take(i) =~= t@.subrange(a as int, end as int));
            },
            None => {
                assert(raw =~= t@.subrange(a as int, end as int));
            },
        }
    }
    trim_range(t, a, end)
}

/// Reads the raw line `t[a..b]`, number `index` counted from 0.
#[verifier::spinoff_prover]
#[verifier::rlimit(50)]
fn read_config_line(
    t: &[char],
    a: usize,
    b: usize,
    index: usize,
    section: &mut Vec<char>,
    config: &mut Config,
) -> (r: Result<(), String>)
    requires
        a <= b <= t.len(),
        index < usize::MAX,
    ensures
        match config_step(
            ConfigParse { section: old(section)@, config: *old(config), error: None },
            t@.subrange(a as int, b as int),
            index as int,
        ).error {
            Some(m) => r matches Err(e) && e@ == m,
            None => r is Ok,
        },
        r is Ok ==> final(section)@ == config_step(
            ConfigParse { section: old(section)@, config: *old(config), error: None },
            t@.subrange(a as int, b as int),
            index as int,
        ).section,
        r is Err ==> *final(config) == *old(config),
        r is Ok ==> *final(config) == config_step(
            ConfigParse { section: old(section)@, config: *old(config), error: None },
            t@.subrange(a as int, b as int),
            index as int,
        ).config,
{
    let ghost raw = t@.subrange(a as int, b as int);
    let (la, lb) = config_line_range(t, a, b);
    let ghost line = t@.subrange(la as int, lb as int);
    if la == lb {
        return Ok(());
    }
    if t[la] == '[' && t[lb - 1] == ']' {
        let (sa, sb) = trim_range(t, la + 1, lb - 1);
        proof {
            assert(line.subrange(1, line.len() - 1) =~= t@.subrange(la + 1, lb - 1));
        }
        *section = crate::text::chars_range(t, sa, sb);
        return Ok(());
    }
    match find_char(t, la, lb, '=') {
        None => {
            let mut msg = copy_str("line ");
            let n = decimal_string((index + 1) as u64);
            push_str(&mut msg, n.as_str());
            push_str(&mut msg, " is not key = value");
            Err(msg)
        },
        Some(eq) => {
            let (ka, kb) = trim_range(t, la, la + eq);
            let (va, vb) = trim_range(t, la + eq + 1, lb);
            proof {
                assert(line.take(eq as int) =~= t@.subrange(la as int, la + eq));
                assert(line.skip(eq + 1) =~= t@.subrange(la + eq + 1, lb as int));
            }
            apply_config_value(section, t, (ka, kb), (va, vb), config)
        },
    }
}

/// Reads a configuration text over `config`: `[section]` headers and
/// `key = value` lines, `#` comments and blank lines ignored. On an error
/// the lines before it stay applied.
pub fn parse_config_text(text: &str, config: &mut Config) -> (r: Result<(), String>)
    ensures
        *final(config) == config_parse(lines(text@), *old(config)).config,
        match config_parse(lines(text@), *old(config)).error {
            Some(m) => r matches Err(e) && e@ == m,
            None => r is Ok,
        },
{
    let t = chars_of(text);
    let spans = line_spans(&t);
    let ghost ls = lines(text@);
    let ghost init = *config;
    let mut section: Vec<char> = Vec::new();
    let mut k: usize = 0;
    while k < spans.len()
        invariant
            t@ == text@,
            ls == lines(text@),
            init == *old(config),
            spans_describe(t@, spans@, ls),
            k <= spans.len(),
            config_parse(ls.take(k as int), init) == (ConfigParse { section: section@, config: *config, error: None }),
        decreases spans.len() - k,
    {
        let (a, b) = spans[k];
        proof {
            assert(ls.take(k + 1).drop_last() =~= ls.take(k as int));
            assert(ls.take(k + 1).last() == ls[k as int]);
        }
        assert(t@.subrange(a as int, b as int) == ls[k as int]);
        let ghost st = config_parse(ls.take(k as int), init);
        let r = read_config_line(&t, a, b, k, &mut section, config);
        proof {
            assert(config_parse(ls.take(k + 1), init) == config_step(st, ls[k as int], k as int));
        }
        if let Err(e) = r {
            proof {
                assert(config_step(st, ls[k as int], k as int).error is Some);
                assert(config_step(st, ls[k as int], k as int).config == st.config);
                lemma_config_error_stays(ls, init, k as int + 1);
                assert(config_parse(ls, init) == config_step(st, ls[k as int], k as int));
                assert(ls == lines(text@));
            }
            return Err(e);
        }
        k += 1;
    }
    proof {
        assert(ls.take(spans.len() as int) =~= ls);
    }
    Ok(())
}

/// Once reading has failed, later lines change nothing.
proof fn lemma_config_error_stays(ls: Seq<Seq<char>>, init: Config, n: int)
    requires
        0 <= n <= ls.len(),
        config_parse(ls.take(n), init).error is Some,
    ensures
        config_parse(ls, init) == config_parse(ls.take(n), init),
    decreases ls.len() - n,
{
    if n < ls.len() {
        assert(ls.take(n + 1).drop_last() =~= ls.take(n));
        lemma_config_error_stays(ls, init, n + 1);
    } else {
        assert(ls.take(n) =~= ls);
    }
}

// ---------------------------------------------------------------------------
// Which files are read
// ---------------------------------------------------------------------------

/// A configuration file as the caller found it on disk.
pub enum ConfigFile {
    /// No file at that path.
    Missing,
    /// The file exists but could not be read, for this reason.
    Unreadable(String),
    /// The file's text.
    Text(String),
}

/// A configuration file and its path as it is shown in messages.
pub struct ConfigSource {
    pub path: String,
    pub file: ConfigFile,
}

/// `c` with the file `src` read over it; a missing file is an error only
/// when `required`.
pub open spec fn source_spec(c: Config, src: ConfigSource, required: bool) -> Result<Config, Seq<char>> {
    match src.file {
        ConfigFile::Missing => if required {
            Err("config "@ + src.path@ + " does not exist"@)
        } else {
            Ok(c)
        },
        ConfigFile::Unreadable(e) => Err("could not read config "@ + src.path@ + ": "@ + e@),
        ConfigFile::Text(t) => {
            let p = config_parse(lines(t@), c);
            match p.error {
                Some(m) => Err("invalid config "@ + src.path@ + ": "@ + m),
                None => Ok(p.config),
            }
        },
    }
}

/// The settings that the command line and the files give: none are read
/// with `no_config`; otherwise the user's file (`explicit` when the command
/// line named it, which then must exist), and, when no file was named, the
/// project file `.gack.toml` of the repository over it.
pub open spec fn load_spec(
    no_config: bool,
    explicit: bool,
    user: Option<ConfigSource>,
    project: Option<ConfigSource>,
) -> Result<Config, Seq<char>> {
    if no_config {
        Ok(default_config())
    } else {
        let first = match user {
            None => Ok(default_config()),
            Some(src) => source_spec(default_config(), src, explicit),
        };
        match first {
            Err(e) => Err(e),
            Ok(c) => if explicit {
                Ok(c)
            } else {
                match project {
                    None => Ok(c),
                    Some(src) => source_spec(c, src, false),
                }
            },
        }
    }
}

fn read_source(config: &mut Config, src: &ConfigSource, required: bool) -> (r: Result<(), String>)
    ensures
        match source_spec(*old(config), *src, required) {
            Ok(c) => r is Ok && *final(config) == c,
            Err(m) => r matches Err(e) && e@ == m,
        },
{
    match &src.file {
        ConfigFile::Missing => {
            if required {
                let mut msg = copy_str("config ");
                push_str(&mut msg, src.path.as_str());
                push_str(&mut msg, " does not exist");
                Err(msg)
            } else {
                Ok(())
            }
        },
        ConfigFile::Unreadable(e) => {
            let mut msg = copy_str("could not read config ");
            push_str(&mut msg, src.path.as_str());
            push_str(&mut msg, ": ");
            push_str(&mut msg, e.as_str());
            Err(msg)
        },
        ConfigFile::Text(t) => {
            match parse_config_text(t.as_str(), config) {
                Ok(()) => Ok(()),
                Err(m) => {
                    let mut msg = copy_str("invalid config ");
                    push_str(&mut msg, src.path.as_str());
                    push_str(&mut msg, ": ");
                    push_str(&mut msg, m.as_str());
                    Err(msg)
                },
            }
        },
    }
}

impl Config {
    /// The settings: the defaults, then the files the caller found, as
    /// `load_spec` orders them. `explicit` tells that the command line named
    /// the user file.
    pub fn load(no_config: bool, explicit: bool, user: Option<ConfigSource>, project: Option<ConfigSource>) -> (r: Result<Config, String>)
        ensures
            match load_spec(no_config, explicit, user, project) {
                Ok(c) => r == Ok::<Config, String>(c),
                Err(m) => r matches Err(e) && e@ == m,
            },
    {
        let mut config = Config::default();
        if no_config {
            return Ok(config);
        }
        if let Some(src) = &user {
            if let Err(e) = read_source(&mut config, src, explicit) {
                return Err(e);
            }
        }
        if !explicit {
            if let Some(src) = &project {
                if let Err(e) = read_source(&mut config, src, false) {
                    return Err(e);
                }
            }
        }
        Ok(config)
    }
}

} // verus!
