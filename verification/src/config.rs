//! Configuration resolution.
//!
//! One effective configuration is produced from two optional sources: inline
//! command-line values and an optional configuration file, with a fixed
//! per-field precedence: command-line value over file value over built-in
//! default (a default exists only for the connection string).
//!
//! The file is a line-based table of `key = "value"` entries. Blank lines and
//! `#` comments are allowed; every entry must carry one of the four
//! recognized keys, each at most once, and anything else fails resolution —
//! the schema is strict. Reading the file from disk is the caller's business:
//! this module takes the file's text.

use crate::text::{chars_of, copy_string, eq_range};
use vstd::prelude::*;
use vstd::string::*;

verus! {

/// Horizontal white space inside a line; a carriage return before the line
/// feed is tolerated.
pub open spec fn is_space(c: char) -> bool {
    c == ' ' || c == '\t' || c == '\r'
}

/// Characters a key may consist of: ASCII letters, digits, underscore and
/// hyphen.
pub open spec fn is_key_char(c: char) -> bool {
    ||| 'a' as u32 <= c as u32 && c as u32 <= 'z' as u32
    ||| 'A' as u32 <= c as u32 && c as u32 <= 'Z' as u32
    ||| '0' as u32 <= c as u32 && c as u32 <= '9' as u32
    ||| c == '_'
    ||| c == '-'
}

/// The first position at or after `i` that does not hold white space.
pub open spec fn skip_spaces(s: Seq<char>, i: int) -> int
    decreases s.len() - i,
{
    if i < s.len() && is_space(s[i]) {
        skip_spaces(s, i + 1)
    } else {
        i
    }
}

/// The first position at or after `i` that does not hold a key character.
pub open spec fn key_end(s: Seq<char>, i: int) -> int
    decreases s.len() - i,
{
    if i < s.len() && is_key_char(s[i]) {
        key_end(s, i + 1)
    } else {
        i
    }
}

/// The position of the line feed that ends the line starting at `i`, or the
/// text's end if there is none.
pub open spec fn line_end(s: Seq<char>, i: int) -> int
    decreases s.len() - i,
{
    if i < s.len() {
        if s[i] == '\n' {
            i
        } else {
            line_end(s, i + 1)
        }
    } else {
        i
    }
}

/// The position of the quote closing a value that starts at `i`, or nothing
/// if the line or the text ends first, or an escape is met: values are taken
/// literally, with no escape sequences.
pub open spec fn quote_end(s: Seq<char>, i: int) -> Option<int>
    decreases s.len() - i,
{
    if i >= s.len() {
        None
    } else if s[i] == '"' {
        Some(i)
    } else if s[i] == '\n' || s[i] == '\\' {
        None
    } else {
        quote_end(s, i + 1)
    }
}

/// A cursor moved by `line_end` stays between its start and the text's end.
pub proof fn lemma_line_end_bounds(s: Seq<char>, i: int)
    ensures
        i <= line_end(s, i),
        i <= s.len() ==> line_end(s, i) <= s.len(),
    decreases s.len() - i,
{
    if i < s.len() && s[i] != '\n' {
        lemma_line_end_bounds(s, i + 1);
    }
}

/// What one line holds: nothing, one `key = "value"` entry, or a malformed
/// text.
pub enum LineShapeV {
    Blank,
    Entry { key: Seq<char>, value: Seq<char> },
    Malformed,
}

/// Classify the line starting at `i`: blank or comment lines hold nothing; an
/// entry is a key, an equals sign and a quoted value, each padded by optional
/// white space, followed only by white space or a comment; everything else is
/// malformed.
pub open spec fn classify_line(s: Seq<char>, i: int) -> LineShapeV {
    let j = skip_spaces(s, i);
    if j >= s.len() || s[j] == '\n' || s[j] == '#' {
        LineShapeV::Blank
    } else {
        let k = key_end(s, j);
        if k == j {
            LineShapeV::Malformed
        } else {
            let m = skip_spaces(s, k);
            if m >= s.len() || s[m] != '=' {
                LineShapeV::Malformed
            } else {
                let p = skip_spaces(s, m + 1);
                if p >= s.len() || s[p] != '"' {
                    LineShapeV::Malformed
                } else {
                    match quote_end(s, p + 1) {
                        None => LineShapeV::Malformed,
                        Some(q) => {
                            let t = skip_spaces(s, q + 1);
                            if t >= s.len() || s[t] == '\n' || s[t] == '#' {
                                LineShapeV::Entry {
                                    key: s.subrange(j, k),
                                    value: s.subrange(p + 1, q),
                                }
                            } else {
                                LineShapeV::Malformed
                            }
                        },
                    }
                }
            }
        }
    }
}

fn is_space_char(c: char) -> (r: bool)
    ensures
        r == is_space(c),
{
    c == ' ' || c == '\t' || c == '\r'
}

fn is_key_char_exec(c: char) -> (r: bool)
    ensures
        r == is_key_char(c),
{
    let u = c as u32;
    ('a' as u32 <= u && u <= 'z' as u32) || ('A' as u32 <= u && u <= 'Z' as u32) || ('0' as u32
        <= u && u <= '9' as u32) || c == '_' || c == '-'
}

fn skip_spaces_at(v: &Vec<char>, i: usize) -> (j: usize)
    requires
        i <= v@.len(),
    ensures
        i <= j <= v@.len(),
        j as int == skip_spaces(v@, i as int),
    decreases v@.len() - i,
{
    if i < v.len() && is_space_char(v[i]) {
        skip_spaces_at(v, i + 1)
    } else {
        i
    }
}

fn key_end_at(v: &Vec<char>, i: usize) -> (j: usize)
    requires
        i <= v@.len(),
    ensures
        i <= j <= v@.len(),
        j as int == key_end(v@, i as int),
    decreases v@.len() - i,
{
    if i < v.len() && is_key_char_exec(v[i]) {
        key_end_at(v, i + 1)
    } else {
        i
    }
}

fn line_end_at(v: &Vec<char>, i: usize) -> (j: usize)
    requires
        i <= v@.len(),
    ensures
        i <= j <= v@.len(),
        j as int == line_end(v@, i as int),
    decreases v@.len() - i,
{
    if i < v.len() && v[i] != '\n' {
        line_end_at(v, i + 1)
    } else {
        i
    }
}

fn quote_end_at(v: &Vec<char>, i: usize) -> (r: Option<usize>)
    requires
        i <= v@.len(),
    ensures
        r matches Some(q) ==> i <= q < v@.len() && quote_end(v@, i as int) == Some(q as int),
        r is None ==> quote_end(v@, i as int) is None,
    decreases v@.len() - i,
{
    if i >= v.len() {
        None
    } else if v[i] == '"' {
        Some(i)
    } else if v[i] == '\n' || v[i] == '\\' {
        None
    } else {
        quote_end_at(v, i + 1)
    }
}

/// The spans of one entry line: key between `ks` and `ke`, value between
/// `vs` and `ve`.
enum LineInfo {
    Blank,
    Entry { ks: usize, ke: usize, vs: usize, ve: usize },
    Malformed,
}

fn classify_at(v: &Vec<char>, i: usize) -> (c: LineInfo)
    requires
        i <= v@.len(),
    ensures
        (c is Blank) == (classify_line(v@, i as int) is Blank),
        (c is Malformed) == (classify_line(v@, i as int) is Malformed),
        c matches LineInfo::Entry { ks, ke, vs, ve } ==> {
            &&& ks <= ke <= v@.len()
            &&& vs <= ve <= v@.len()
            &&& classify_line(v@, i as int) == (LineShapeV::Entry {
                key: v@.subrange(ks as int, ke as int),
                value: v@.subrange(vs as int, ve as int),
            })
        },
{
    let j = skip_spaces_at(v, i);
    if j >= v.len() || v[j] == '\n' || v[j] == '#' {
        return LineInfo::Blank;
    }
    let k = key_end_at(v, j);
    if k == j {
        return LineInfo::Malformed;
    }
    let m = skip_spaces_at(v, k);
    if m >= v.len() || v[m] != '=' {
        return LineInfo::Malformed;
    }
    let p = skip_spaces_at(v, m + 1);
    if p >= v.len() || v[p] != '"' {
        return LineInfo::Malformed;
    }
    match quote_end_at(v, p + 1) {
        None => LineInfo::Malformed,
        Some(q) => {
            let t = skip_spaces_at(v, q + 1);
            if t >= v.len() || v[t] == '\n' || v[t] == '#' {
                LineInfo::Entry { ks: j, ke: k, vs: p + 1, ve: q }
            } else {
                LineInfo::Malformed
            }
        },
    }
}

/// The mathematical value of the optional file configuration: each
/// recognized key's value, where the file set one.
#[verifier::ext_equal]
pub struct FileConfigV {
    pub dsn: Option<Seq<char>>,
    pub log_directory: Option<Seq<char>>,
    pub loki_url: Option<Seq<char>>,
    pub prometheus_export: Option<Seq<char>>,
}

/// A file configuration that sets nothing; also what an absent file yields.
pub open spec fn empty_file_config() -> FileConfigV {
    FileConfigV { dsn: None, log_directory: None, loki_url: None, prometheus_export: None }
}

/// The settings read from the configuration file; every field is optional.
#[derive(Debug)]
pub struct FileConfig {
    pub dsn: Option<String>,
    pub log_directory: Option<String>,
    pub loki_url: Option<String>,
    pub prometheus_export: Option<String>,
}

impl View for FileConfig {
    type V = FileConfigV;

    open spec fn view(&self) -> FileConfigV {
        FileConfigV {
            dsn: match self.dsn {
                Some(s) => Some(s@),
                None => None,
            },
            log_directory: match self.log_directory {
                Some(s) => Some(s@),
                None => None,
            },
            loki_url: match self.loki_url {
                Some(s) => Some(s@),
                None => None,
            },
            prometheus_export: match self.prometheus_export {
                Some(s) => Some(s@),
                None => None,
            },
        }
    }
}

/// The mathematical value of a configuration failure: a malformed line,
/// named by the offset of its first character, or an entry with an
/// unrecognized or repeated key.
pub enum ConfigErrorV {
    Malformed { at: int },
    UnknownKey { key: Seq<char> },
    DuplicateKey { key: Seq<char> },
}

/// Why the configuration file was rejected.
#[derive(Debug, PartialEq, Eq)]
pub enum ConfigError {
    Malformed { at: usize },
    UnknownKey { key: String },
    DuplicateKey { key: String },
}

impl View for ConfigError {
    type V = ConfigErrorV;

    open spec fn view(&self) -> ConfigErrorV {
        match self {
            ConfigError::Malformed { at } => ConfigErrorV::Malformed { at: *at as int },
            ConfigError::UnknownKey { key } => ConfigErrorV::UnknownKey { key: key@ },
            ConfigError::DuplicateKey { key } => ConfigErrorV::DuplicateKey { key: key@ },
        }
    }
}

/// The four keys the file schema recognizes.
pub open spec fn known_key(k: Seq<char>) -> bool {
    k == "dsn"@ || k == "log_directory"@ || k == "loki_url"@ || k == "prometheus_export"@
}

/// Record one entry: an unrecognized key is rejected, a key set twice is
/// rejected, anything else sets its field.
pub open spec fn apply_entry(acc: FileConfigV, key: Seq<char>, value: Seq<char>) -> Result<
    FileConfigV,
    ConfigErrorV,
> {
    if key == "dsn"@ {
        if acc.dsn is Some {
            Err(ConfigErrorV::DuplicateKey { key })
        } else {
            Ok(FileConfigV { dsn: Some(value), ..acc })
        }
    } else if key == "log_directory"@ {
        if acc.log_directory is Some {
            Err(ConfigErrorV::DuplicateKey { key })
        } else {
            Ok(FileConfigV { log_directory: Some(value), ..acc })
        }
    } else if key == "loki_url"@ {
        if acc.loki_url is Some {
            Err(ConfigErrorV::DuplicateKey { key })
        } else {
            Ok(FileConfigV { loki_url: Some(value), ..acc })
        }
    } else if key == "prometheus_export"@ {
        if acc.prometheus_export is Some {
            Err(ConfigErrorV::DuplicateKey { key })
        } else {
            Ok(FileConfigV { prometheus_export: Some(value), ..acc })
        }
    } else {
        Err(ConfigErrorV::UnknownKey { key })
    }
}

/// Parse the file's text line by line from position `i` onward, folding
/// entries into `acc`; the first offending line decides the error.
pub open spec fn parse_from(s: Seq<char>, i: int, acc: FileConfigV) -> Result<
    FileConfigV,
    ConfigErrorV,
>
    decreases s.len() - i,
    via parse_from_decreases
{
    if i >= s.len() {
        Ok(acc)
    } else {
        let step = match classify_line(s, i) {
            LineShapeV::Blank => Ok(acc),
            LineShapeV::Malformed => Err(ConfigErrorV::Malformed { at: i }),
            LineShapeV::Entry { key, value } => apply_entry(acc, key, value),
        };
        match step {
            Err(err) => Err(err),
            Ok(acc2) => {
                let e = line_end(s, i);
                if e >= s.len() {
                    Ok(acc2)
                } else {
                    parse_from(s, e + 1, acc2)
                }
            },
        }
    }
}

#[via_fn]
proof fn parse_from_decreases(s: Seq<char>, i: int, acc: FileConfigV) {
    lemma_line_end_bounds(s, i);
}

/// What the whole file means: the parsed settings, or the first failure.
pub open spec fn spec_parse(s: Seq<char>) -> Result<FileConfigV, ConfigErrorV> {
    parse_from(s, 0, empty_file_config())
}

impl FileConfig {
    /// A file configuration that sets nothing.
    pub fn empty() -> (f: FileConfig)
        ensures
            f@ == empty_file_config(),
    {
        FileConfig { dsn: None, log_directory: None, loki_url: None, prometheus_export: None }
    }

    /// Parse a configuration file's text against the strict schema: blank
    /// lines and comments pass, every entry must carry one of the four
    /// recognized keys, each at most once.
    pub fn parse(text: &str) -> (r: Result<FileConfig, ConfigError>)
        ensures
            r matches Ok(f) ==> spec_parse(text@) == Ok::<FileConfigV, ConfigErrorV>(f@),
            r matches Err(e) ==> spec_parse(text@) == Err::<FileConfigV, ConfigErrorV>(e@),
    {
        let v = chars_of(text);
        let mut acc = FileConfig::empty();
        let mut i: usize = 0;
        while i < v.len()
            invariant
                i <= v@.len(),
                v@ == text@,
                parse_from(v@, i as int, acc@) == spec_parse(text@),
            decreases v@.len() - i,
        {
            match classify_at(&v, i) {
                LineInfo::Blank => {},
                LineInfo::Malformed => {
                    return Err(ConfigError::Malformed { at: i });
                },
                LineInfo::Entry { ks, ke, vs, ve } => {
                    if eq_range(&v, ks, ke, "dsn") {
                        if acc.dsn.is_some() {
                            return Err(ConfigError::DuplicateKey { key: copy_string(&v, ks, ke) });
                        }
                        acc.dsn = Some(copy_string(&v, vs, ve));
                    } else if eq_range(&v, ks, ke, "log_directory") {
                        if acc.log_directory.is_some() {
                            return Err(ConfigError::DuplicateKey { key: copy_string(&v, ks, ke) });
                        }
                        acc.log_directory = Some(copy_string(&v, vs, ve));
                    } else if eq_range(&v, ks, ke, "loki_url") {
                        if acc.loki_url.is_some() {
                            return Err(ConfigError::DuplicateKey { key: copy_string(&v, ks, ke) });
                        }
                        acc.loki_url = Some(copy_string(&v, vs, ve));
                    } else if eq_range(&v, ks, ke, "prometheus_export") {
                        if acc.prometheus_export.is_some() {
                            return Err(ConfigError::DuplicateKey { key: copy_string(&v, ks, ke) });
                        }
                        acc.prometheus_export = Some(copy_string(&v, vs, ve));
                    } else {
                        return Err(ConfigError::UnknownKey { key: copy_string(&v, ks, ke) });
                    }
                },
            }
            let e = line_end_at(&v, i);
            if e >= v.len() {
                return Ok(acc);
            }
            i = e + 1;
        }
        Ok(acc)
    }
}

/// The mathematical value of the command-line overrides.
#[verifier::ext_equal]
pub struct CliArgsV {
    pub dsn: Option<Seq<char>>,
    pub log_directory: Option<Seq<char>>,
    pub loki_url: Option<Seq<char>>,
    pub prometheus_export: Option<Seq<char>>,
}

/// The values given on the command line; every field is optional.
#[derive(Debug)]
pub struct CliArgs {
    pub dsn: Option<String>,
    pub log_directory: Option<String>,
    pub loki_url: Option<String>,
    pub prometheus_export: Option<String>,
}

impl View for CliArgs {
    type V = CliArgsV;

    open spec fn view(&self) -> CliArgsV {
        CliArgsV {
            dsn: match self.dsn {
                Some(s) => Some(s@),
                None => None,
            },
            log_directory: match self.log_directory {
                Some(s) => Some(s@),
                None => None,
            },
            loki_url: match self.loki_url {
                Some(s) => Some(s@),
                None => None,
            },
            prometheus_export: match self.prometheus_export {
                Some(s) => Some(s@),
                None => None,
            },
        }
    }
}

/// The mathematical value of the effective configuration.
#[verifier::ext_equal]
pub struct ConfigV {
    pub dsn: Seq<char>,
    pub log_directory: Option<Seq<char>>,
    pub loki_url: Option<Seq<char>>,
    pub prometheus_export: Option<Seq<char>>,
}

/// The connection string used when neither the command line nor the file
/// supplies one.
pub open spec fn default_dsn() -> Seq<char> {
    "postgresql://foobar@localhost/foobar"@
}

/// The first of two optional values that is set, if either is.
pub open spec fn first_set(a: Option<Seq<char>>, b: Option<Seq<char>>) -> Option<Seq<char>> {
    match a {
        Some(x) => Some(x),
        None => b,
    }
}

/// The effective configuration: per field, the command-line value wins over
/// the file value; the connection string falls back to the built-in default.
pub open spec fn merged(a: CliArgsV, f: FileConfigV) -> ConfigV {
    ConfigV {
        dsn: match first_set(a.dsn, f.dsn) {
            Some(d) => d,
            None => default_dsn(),
        },
        log_directory: first_set(a.log_directory, f.log_directory),
        loki_url: first_set(a.loki_url, f.loki_url),
        prometheus_export: first_set(a.prometheus_export, f.prometheus_export),
    }
}

/// The effective configuration the daemon runs with.
#[derive(Debug)]
pub struct Config {
    pub dsn: String,
    pub log_directory: Option<String>,
    pub loki_url: Option<String>,
    pub prometheus_export: Option<String>,
}

impl View for Config {
    type V = ConfigV;

    open spec fn view(&self) -> ConfigV {
        ConfigV {
            dsn: self.dsn@,
            log_directory: match self.log_directory {
                Some(s) => Some(s@),
                None => None,
            },
            loki_url: match self.loki_url {
                Some(s) => Some(s@),
                None => None,
            },
            prometheus_export: match self.prometheus_export {
                Some(s) => Some(s@),
                None => None,
            },
        }
    }
}

fn pick(a: Option<String>, b: Option<String>) -> (r: Option<String>)
    ensures
        (match r {
            Some(s) => Some(s@),
            None => None,
        }) == first_set(
            match a {
                Some(s) => Some(s@),
                None => None,
            },
            match b {
                Some(s) => Some(s@),
                None => None,
            },
        ),
{
    match a {
        Some(x) => Some(x),
        None => b,
    }
}

impl Config {
    /// Resolve the effective configuration from the command-line values and
    /// the file's settings, per field: command line over file over default.
    pub fn resolve(args: CliArgs, file: FileConfig) -> (c: Config)
        ensures
            c@ == merged(args@, file@),
    {
        let dsn = match pick(args.dsn, file.dsn) {
            Some(d) => d,
            None => String::from_str("postgresql://foobar@localhost/foobar"),
        };
        Config {
            dsn,
            log_directory: pick(args.log_directory, file.log_directory),
            loki_url: pick(args.loki_url, file.loki_url),
            prometheus_export: pick(args.prometheus_export, file.prometheus_export),
        }
    }

    /// Produce the effective configuration from the command-line values and
    /// the text of the configuration file, where one was given: the file must
    /// pass the strict schema, and the command line wins field by field.
    pub fn parse(args: CliArgs, file_text: Option<&str>) -> (r: Result<Config, ConfigError>)
        ensures
            file_text is None ==> (r matches Ok(c) && c@ == merged(args@, empty_file_config())),
            file_text matches Some(t) ==> match spec_parse(t@) {
                Ok(f) => r matches Ok(c) && c@ == merged(args@, f),
                Err(e) => r matches Err(err) && err@ == e,
            },
    {
        let file = match file_text {
            Some(t) => match FileConfig::parse(t) {
                Ok(f) => f,
                Err(e) => {
                    return Err(e);
                },
            },
            None => FileConfig::empty(),
        };
        Ok(Config::resolve(args, file))
    }
}

/// Precedence: whenever the command line sets a field, the resolved
/// configuration carries exactly that value, whatever the file holds for
/// this field or any other.
pub proof fn lemma_cli_overrides_file(a: CliArgsV, f: FileConfigV)
    ensures
        a.dsn matches Some(d) ==> merged(a, f).dsn == d,
        a.log_directory is Some ==> merged(a, f).log_directory == a.log_directory,
        a.loki_url is Some ==> merged(a, f).loki_url == a.loki_url,
        a.prometheus_export is Some ==> merged(a, f).prometheus_export == a.prometheus_export,
{
}

/// The positions at which the file's lines start, from position `i` onward.
pub open spec fn line_starts_from(s: Seq<char>, i: int) -> Seq<int>
    decreases s.len() - i,
    via line_starts_from_decreases
{
    if i >= s.len() {
        Seq::empty()
    } else {
        let e = line_end(s, i);
        if e >= s.len() {
            seq![i]
        } else {
            seq![i] + line_starts_from(s, e + 1)
        }
    }
}

#[via_fn]
proof fn line_starts_from_decreases(s: Seq<char>, i: int) {
    lemma_line_end_bounds(s, i);
}

proof fn lemma_parse_ok_keys_known(s: Seq<char>, i: int, acc: FileConfigV)
    requires
        0 <= i <= s.len(),
        parse_from(s, i, acc) is Ok,
    ensures
        forall|n: int|
            0 <= n < line_starts_from(s, i).len() ==> (classify_line(
                s,
                #[trigger] line_starts_from(s, i)[n],
            ) matches LineShapeV::Entry { key, value } ==> known_key(key)),
    decreases s.len() - i,
{
    if i < s.len() {
        lemma_line_end_bounds(s, i);
        let e = line_end(s, i);
        let starts = line_starts_from(s, i);
        match classify_line(s, i) {
            LineShapeV::Blank => {
                if e < s.len() {
                    lemma_parse_ok_keys_known(s, e + 1, acc);
                }
            },
            LineShapeV::Malformed => {
                assert(false);
            },
            LineShapeV::Entry { key, value } => {
                assert(known_key(key));
                match apply_entry(acc, key, value) {
                    Ok(acc2) => {
                        if e < s.len() {
                            lemma_parse_ok_keys_known(s, e + 1, acc2);
                        }
                    },
                    Err(_) => {
                        assert(false);
                    },
                }
            },
        }
        if e < s.len() {
            let rest = line_starts_from(s, e + 1);
            assert forall|n: int|
                0 <= n < starts.len() implies (classify_line(
                s,
                #[trigger] starts[n],
            ) matches LineShapeV::Entry { key, value } ==> known_key(key)) by {
                if n == 0 {
                    assert(starts[n] == i);
                } else {
                    assert(starts[n] == rest[n - 1]);
                }
            }
        }
    }
}

/// Strictness of the schema: a file text that parses successfully admits no
/// unrecognized field — every entry line of it carries one of the four
/// recognized keys. Equivalently, one unrecognized field anywhere makes
/// resolution fail, whatever the other lines hold.
pub proof fn lemma_strict_schema(s: Seq<char>)
    requires
        spec_parse(s) is Ok,
    ensures
        forall|n: int|
            0 <= n < line_starts_from(s, 0).len() ==> (classify_line(
                s,
                #[trigger] line_starts_from(s, 0)[n],
            ) matches LineShapeV::Entry { key, value } ==> known_key(key)),
{
    lemma_parse_ok_keys_known(s, 0, empty_file_config());
}

/// Where the command line is silent, the file's value stands, and where both
/// are silent the connection string falls back to the built-in default.
pub proof fn lemma_file_fills_gaps(a: CliArgsV, f: FileConfigV)
    requires
        a.dsn is None,
        a.log_directory is None,
        a.loki_url is None,
        a.prometheus_export is None,
    ensures
        f.dsn matches Some(d) ==> merged(a, f).dsn == d,
        f.dsn is None ==> merged(a, f).dsn == default_dsn(),
        merged(a, f).log_directory == f.log_directory,
        merged(a, f).loki_url == f.loki_url,
        merged(a, f).prometheus_export == f.prometheus_export,
{
}

} // verus!
