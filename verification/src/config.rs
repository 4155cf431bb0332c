//! Configuration bootstrap: the grammar of the configuration file, the
//! probing order over candidate locations, and the decision a
//! `create-config` command must take.
//!
//! The file format is a TOML-like subset, read line by line: blank lines;
//! comment lines starting with `#`; section headers `[name]`; and
//! assignments `key = "value"` whose values are quoted strings without
//! escape sequences.  The configuration this library needs is the `url`
//! key of the `[database]` section; other sections and keys are read past
//! and ignored.  A line of any other shape makes the whole file invalid,
//! as does a file without a database url.  When a key is assigned twice,
//! the last assignment wins.
//!
//! Reading and writing real files is the caller's I/O; everything here is
//! a function of the text and of the probe outcomes it is handed.

use crate::error::Error;
use vstd::prelude::*;
use vstd::string::*;

verus! {

/// The configuration of one process invocation, loaded once and immutable
/// for the process lifetime.
pub struct Config {
    database: Database,
}

/// The database section of the configuration.
pub struct Database {
    url: String,
}

impl Database {
    /// The configured connection string.
    pub closed spec fn spec_url(&self) -> Seq<char> {
        self.url@
    }

    pub fn url(&self) -> (r: &String)
        ensures
            r@ == self.spec_url(),
    {
        &self.url
    }
}

impl Config {
    pub closed spec fn spec_database_url(&self) -> Seq<char> {
        self.database.spec_url()
    }

    pub fn database(&self) -> (r: &Database)
        ensures
            r.spec_url() == self.spec_database_url(),
    {
        &self.database
    }
}

/// Position within the current line while scanning the file.  Spans are
/// character indices into the whole text.
pub enum LinePlace {
    /// Before anything but blanks on this line.
    AtStart,
    /// Inside a `#` comment.
    InComment,
    /// Inside `[...`, the name starting at `start`.
    InSection { start: int },
    /// After `]`; `is_db` says whether the name was `database`.
    SectionDone { is_db: bool },
    /// Inside a key, starting at `start`.
    InKey { start: int },
    /// After the key; `is_url` says whether it was `url`.
    KeyDone { is_url: bool },
    /// After `=`, before the opening quote.
    AfterEquals { is_url: bool },
    /// Inside the quoted value, its content starting at `start`.
    InValue { is_url: bool, start: int },
    /// After the closing quote; the content is `start..end`.
    ValueDone { is_url: bool, start: int, end: int },
}

/// The whole scanning state: whether the text so far is already invalid,
/// whether the current section is `[database]`, the span of the last
/// database url seen, and the position in the current line.
pub struct ScanState {
    pub bad: bool,
    pub in_db: bool,
    pub url: Option<(int, int)>,
    pub line: LinePlace,
}

/// Space, tab or carriage return.
pub open spec fn spec_is_ws(c: char) -> bool {
    c == ' ' || c == '\t' || c == '\r'
}

/// A character of a section name or key: ASCII letters, digits, `_`, `-`.
pub open spec fn spec_is_key_char(c: char) -> bool {
    ('a' <= c && c <= 'z') || ('A' <= c && c <= 'Z') || ('0' <= c && c <= '9') || c == '_' || c
        == '-'
}

pub open spec fn scan_init() -> ScanState {
    ScanState { bad: false, in_db: false, url: None, line: LinePlace::AtStart }
}

pub open spec fn scan_bad(st: ScanState) -> ScanState {
    ScanState { bad: true, ..st }
}

/// One scanning step: reading the character at `i` of `s`.
pub open spec fn scan_step(s: Seq<char>, i: int, st: ScanState) -> ScanState {
    let c = s[i];
    if st.bad {
        st
    } else {
        match st.line {
            LinePlace::AtStart => if c == '\n' {
                st
            } else if spec_is_ws(c) {
                st
            } else if c == '#' {
                ScanState { line: LinePlace::InComment, ..st }
            } else if c == '[' {
                ScanState { line: LinePlace::InSection { start: i + 1 }, ..st }
            } else if spec_is_key_char(c) {
                ScanState { line: LinePlace::InKey { start: i }, ..st }
            } else {
                scan_bad(st)
            },
            LinePlace::InComment => if c == '\n' {
                ScanState { line: LinePlace::AtStart, ..st }
            } else {
                st
            },
            LinePlace::InSection { start } => if c == ']' {
                ScanState {
                    line: LinePlace::SectionDone { is_db: s.subrange(start, i) == "database"@ },
                    ..st
                }
            } else if spec_is_key_char(c) {
                st
            } else {
                scan_bad(st)
            },
            LinePlace::SectionDone { is_db } => if c == '\n' {
                ScanState { in_db: is_db, line: LinePlace::AtStart, ..st }
            } else if spec_is_ws(c) {
                st
            } else {
                scan_bad(st)
            },
            LinePlace::InKey { start } => if c == '=' {
                ScanState {
                    line: LinePlace::AfterEquals { is_url: s.subrange(start, i) == "url"@ },
                    ..st
                }
            } else if spec_is_ws(c) {
                ScanState {
                    line: LinePlace::KeyDone { is_url: s.subrange(start, i) == "url"@ },
                    ..st
                }
            } else if spec_is_key_char(c) {
                st
            } else {
                scan_bad(st)
            },
            LinePlace::KeyDone { is_url } => if c == '=' {
                ScanState { line: LinePlace::AfterEquals { is_url }, ..st }
            } else if spec_is_ws(c) {
                st
            } else {
                scan_bad(st)
            },
            LinePlace::AfterEquals { is_url } => if c == '"' {
                ScanState { line: LinePlace::InValue { is_url, start: i + 1 }, ..st }
            } else if spec_is_ws(c) {
                st
            } else {
                scan_bad(st)
            },
            LinePlace::InValue { is_url, start } => if c == '"' {
                ScanState { line: LinePlace::ValueDone { is_url, start, end: i }, ..st }
            } else if c == '\n' || c == '\\' {
                scan_bad(st)
            } else {
                st
            },
            LinePlace::ValueDone { is_url, start, end } => if c == '\n' {
                ScanState {
                    url: if st.in_db && is_url {
                        Some((start, end))
                    } else {
                        st.url
                    },
                    line: LinePlace::AtStart,
                    ..st
                }
            } else if spec_is_ws(c) {
                st
            } else {
                scan_bad(st)
            },
        }
    }
}

/// The state after scanning the first `n` characters of `s`.
pub open spec fn scan_prefix(s: Seq<char>, n: int) -> ScanState
    decreases n,
{
    if n <= 0 {
        scan_init()
    } else {
        scan_step(s, n - 1, scan_prefix(s, n - 1))
    }
}

/// Closes the final line as an implicit end of line: a file need not end
/// with a newline.
pub open spec fn scan_finish(st: ScanState) -> Option<(int, int)> {
    if st.bad {
        None
    } else {
        match st.line {
            LinePlace::AtStart => st.url,
            LinePlace::InComment => st.url,
            LinePlace::SectionDone { .. } => st.url,
            LinePlace::ValueDone { is_url, start, end } => if st.in_db && is_url {
                Some((start, end))
            } else {
                st.url
            },
            _ => None,
        }
    }
}

/// What parsing the configuration text yields: the database url, or
/// nothing when the text is not of the grammar or carries no database
/// url.
pub open spec fn config_url(s: Seq<char>) -> Option<Seq<char>> {
    match scan_finish(scan_prefix(s, s.len() as int)) {
        Some((a, b)) => Some(s.subrange(a, b)),
        None => None,
    }
}

fn is_ws(c: char) -> (b: bool)
    ensures
        b == spec_is_ws(c),
{
    c == ' ' || c == '\t' || c == '\r'
}

fn is_key_char(c: char) -> (b: bool)
    ensures
        b == spec_is_key_char(c),
{
    ('a' <= c && c <= 'z') || ('A' <= c && c <= 'Z') || ('0' <= c && c <= '9') || c == '_' || c
        == '-'
}

/// Whether the characters `start..end` of `s` are exactly `lit`.
fn span_matches(s: &str, start: usize, end: usize, lit: &str) -> (b: bool)
    requires
        start <= end <= s@.len(),
    ensures
        b == (s@.subrange(start as int, end as int) == lit@),
{
    let lit_len = lit.unicode_len();
    if end - start != lit_len {
        proof {
            assert(s@.subrange(start as int, end as int).len() != lit@.len());
        }
        return false;
    }
    let mut j: usize = 0;
    while j < lit_len
        invariant
            j <= lit_len,
            lit_len == lit@.len(),
            end - start == lit_len,
            end <= s@.len(),
            forall|k: int| 0 <= k < j ==> s@[start + k] == lit@[k],
        decreases lit_len - j,
    {
        let cs = s.get_char(start + j);
        let cl = lit.get_char(j);
        if cs != cl {
            proof {
                if s@.subrange(start as int, end as int) == lit@ {
                    assert(s@.subrange(start as int, end as int)[j as int] == s@[start + j]);
                }
            }
            return false;
        }
        j = j + 1;
    }
    proof {
        assert(s@.subrange(start as int, end as int) =~= lit@);
    }
    true
}

enum LineCursor {
    AtStart,
    InComment,
    InSection { start: usize },
    SectionDone { is_db: bool },
    InKey { start: usize },
    KeyDone { is_url: bool },
    AfterEquals { is_url: bool },
    InValue { is_url: bool, start: usize },
    ValueDone { is_url: bool, start: usize, end: usize },
}

spec fn cursor_view(l: LineCursor) -> LinePlace {
    match l {
        LineCursor::AtStart => LinePlace::AtStart,
        LineCursor::InComment => LinePlace::InComment,
        LineCursor::InSection { start } => LinePlace::InSection { start: start as int },
        LineCursor::SectionDone { is_db } => LinePlace::SectionDone { is_db },
        LineCursor::InKey { start } => LinePlace::InKey { start: start as int },
        LineCursor::KeyDone { is_url } => LinePlace::KeyDone { is_url },
        LineCursor::AfterEquals { is_url } => LinePlace::AfterEquals { is_url },
        LineCursor::InValue { is_url, start } => LinePlace::InValue {
            is_url,
            start: start as int,
        },
        LineCursor::ValueDone { is_url, start, end } => LinePlace::ValueDone {
            is_url,
            start: start as int,
            end: end as int,
        },
    }
}

spec fn cursor_state(bad: bool, in_db: bool, url: Option<(usize, usize)>, line: LineCursor)
    -> ScanState {
    ScanState {
        bad,
        in_db,
        url: match url {
            Some((a, b)) => Some((a as int, b as int)),
            None => None,
        },
        line: cursor_view(line),
    }
}

/// Bounds every span the scanner holds at position `i`.
spec fn cursor_bounds(url: Option<(usize, usize)>, line: LineCursor, i: usize) -> bool {
    &&& match url {
        Some((a, b)) => a <= b <= i,
        None => true,
    }
    &&& match line {
        LineCursor::InSection { start } => start <= i,
        LineCursor::InKey { start } => start <= i,
        LineCursor::InValue { start, .. } => start <= i,
        LineCursor::ValueDone { start, end, .. } => start <= end <= i,
        _ => true,
    }
}

/// Parses configuration text: returns the configuration exactly when the
/// text follows the grammar and assigns a database url, and
/// `ConfigInvalid` otherwise.
pub fn parse_config_text(text: &str) -> (r: Result<Config, Error>)
    ensures
        match config_url(text@) {
            Some(u) => r matches Ok(c) && c.spec_database_url() == u,
            None => r matches Err(e) && e is ConfigInvalid,
        },
{
    let n = text.unicode_len();
    let mut bad: bool = false;
    let mut in_db: bool = false;
    let mut url_span: Option<(usize, usize)> = None;
    let mut line: LineCursor = LineCursor::AtStart;
    let mut i: usize = 0;
    while i < n
        invariant
            n == text@.len(),
            i <= n,
            cursor_state(bad, in_db, url_span, line) == scan_prefix(text@, i as int),
            cursor_bounds(url_span, line, i),
        decreases n - i,
    {
        let c = text.get_char(i);
        if !bad {
            match line {
                LineCursor::AtStart => {
                    if c == '\n' {
                    } else if is_ws(c) {
                    } else if c == '#' {
                        line = LineCursor::InComment;
                    } else if c == '[' {
                        line = LineCursor::InSection { start: i + 1 };
                    } else if is_key_char(c) {
                        line = LineCursor::InKey { start: i };
                    } else {
                        bad = true;
                    }
                },
                LineCursor::InComment => {
                    if c == '\n' {
                        line = LineCursor::AtStart;
                    }
                },
                LineCursor::InSection { start } => {
                    if c == ']' {
                        let is_db = span_matches(text, start, i, "database");
                        line = LineCursor::SectionDone { is_db };
                    } else if is_key_char(c) {
                    } else {
                        bad = true;
                    }
                },
                LineCursor::SectionDone { is_db } => {
                    if c == '\n' {
                        in_db = is_db;
                        line = LineCursor::AtStart;
                    } else if is_ws(c) {
                    } else {
                        bad = true;
                    }
                },
                LineCursor::InKey { start } => {
                    if c == '=' {
                        let is_url = span_matches(text, start, i, "url");
                        line = LineCursor::AfterEquals { is_url };
                    } else if is_ws(c) {
                        let is_url = span_matches(text, start, i, "url");
                        line = LineCursor::KeyDone { is_url };
                    } else if is_key_char(c) {
                    } else {
                        bad = true;
                    }
                },
                LineCursor::KeyDone { is_url } => {
                    if c == '=' {
                        line = LineCursor::AfterEquals { is_url };
                    } else if is_ws(c) {
                    } else {
                        bad = true;
                    }
                },
                LineCursor::AfterEquals { is_url } => {
                    if c == '"' {
                        line = LineCursor::InValue { is_url, start: i + 1 };
                    } else if is_ws(c) {
                    } else {
                        bad = true;
                    }
                },
                LineCursor::InValue { is_url, start } => {
                    if c == '"' {
                        line = LineCursor::ValueDone { is_url, start, end: i };
                    } else if c == '\n' || c == '\\' {
                        bad = true;
                    }
                },
                LineCursor::ValueDone { is_url, start, end } => {
                    if c == '\n' {
                        if in_db && is_url {
                            url_span = Some((start, end));
                        }
                        line = LineCursor::AtStart;
                    } else if is_ws(c) {
                    } else {
                        bad = true;
                    }
                },
            }
        }
        i = i + 1;
        proof {
            assert(cursor_state(bad, in_db, url_span, line) == scan_prefix(text@, i as int));
        }
    }
    let url_final: Option<(usize, usize)> = if bad {
        None
    } else {
        match line {
            LineCursor::AtStart => url_span,
            LineCursor::InComment => url_span,
            LineCursor::SectionDone { .. } => url_span,
            LineCursor::ValueDone { is_url, start, end } => if in_db && is_url {
                Some((start, end))
            } else {
                url_span
            },
            _ => None,
        }
    };
    match url_final {
        None => Err(Error::ConfigInvalid),
        Some((a, b)) => {
            let url_str = text.substring_char(a, b);
            Ok(Config { database: Database { url: url_str.to_owned() } })
        },
    }
}

/// The outcome of trying to read one candidate configuration file: its
/// text, the absence of a file, or any other read failure with its
/// message.
pub enum ReadOutcome {
    Found(String),
    NotFound,
    ReadError(String),
}

/// The first default location that exists: probing skips locations
/// without a file and stops at the first other outcome, readable or not.
pub open spec fn first_probe(outcomes: Seq<ReadOutcome>) -> Option<ReadOutcome>
    decreases outcomes.len(),
{
    if outcomes.len() == 0 {
        None
    } else {
        match outcomes[0] {
            ReadOutcome::NotFound => first_probe(outcomes.drop_first()),
            o => Some(o),
        }
    }
}

/// Which read outcome configuration resolution works from: the explicit
/// path's outcome when one was given, else the first default location
/// that exists.
pub open spec fn selected_source(explicit: Option<ReadOutcome>, defaults: Seq<ReadOutcome>)
    -> Option<ReadOutcome> {
    match explicit {
        Some(o) => Some(o),
        None => first_probe(defaults),
    }
}

fn first_probe_index(defaults: &Vec<ReadOutcome>) -> (r: Option<usize>)
    ensures
        match r {
            Some(i) => i < defaults@.len() && !(defaults@[i as int] is NotFound) && first_probe(
                defaults@,
            ) == Some(defaults@[i as int]),
            None => first_probe(defaults@) is None,
        },
{
    let mut i: usize = 0;
    proof {
        assert(defaults@.skip(0) =~= defaults@);
    }
    while i < defaults.len()
        invariant
            i <= defaults@.len(),
            first_probe(defaults@) == first_probe(defaults@.skip(i as int)),
        decreases defaults@.len() - i,
    {
        proof {
            assert(defaults@.skip(i as int)[0] == defaults@[i as int]);
            assert(defaults@.skip(i as int).drop_first() =~= defaults@.skip(i as int + 1));
        }
        match &defaults[i] {
            ReadOutcome::NotFound => {
                i = i + 1;
            },
            _ => {
                return Some(i);
            },
        }
    }
    proof {
        assert(defaults@.skip(i as int).len() == 0);
    }
    None
}

impl Config {
    /// Resolves and parses the configuration from read outcomes: the
    /// explicit path's outcome when `--config` was given (then any
    /// failure to read it is fatal), else the outcome of the first
    /// default location that exists — whether or not its text parses, no
    /// later location is consulted.  Fails with `ConfigNotFound` when no
    /// default location exists, with `ConfigIoError` when the chosen file
    /// could not be read, and with `ConfigInvalid` when its text does not
    /// yield a database url.
    pub fn parse(explicit: Option<ReadOutcome>, defaults: Vec<ReadOutcome>) -> (r: Result<
        Config,
        Error,
    >)
        ensures
            match selected_source(explicit, defaults@) {
                None => r matches Err(e) && e is ConfigNotFound,
                Some(o) => match o {
                    ReadOutcome::Found(text) => match config_url(text@) {
                        Some(u) => r matches Ok(c) && c.spec_database_url() == u,
                        None => r matches Err(e) && e is ConfigInvalid,
                    },
                    ReadOutcome::NotFound => r matches Err(e) && (e matches Error::ConfigIoError(
                        m,
                    ) && m@ == "the file was not found"@),
                    ReadOutcome::ReadError(m0) => r matches Err(e) && (e matches
                        Error::ConfigIoError(m) && m@ == m0@),
                },
            },
    {
        match explicit {
            Some(o) => match o {
                ReadOutcome::Found(text) => parse_config_text(text.as_str()),
                ReadOutcome::NotFound => Err(
                    Error::ConfigIoError(String::from_str("the file was not found")),
                ),
                ReadOutcome::ReadError(m) => Err(Error::ConfigIoError(m)),
            },
            None => match first_probe_index(&defaults) {
                None => Err(Error::ConfigNotFound),
                Some(i) => match &defaults[i] {
                    ReadOutcome::Found(text) => parse_config_text(text.as_str()),
                    ReadOutcome::NotFound => {
                        proof {
                            assert(false);
                        }
                        Err(Error::ConfigNotFound)
                    },
                    ReadOutcome::ReadError(m) => Err(Error::ConfigIoError(m.clone())),
                },
            },
        }
    }
}

/// What a `create-config` command must do to the file at its target path.
pub enum CreateAction {
    /// Write the default configuration template, replacing any file.
    WriteDefault,
    /// Leave the existing file exactly as it is and report success.
    LeaveUnchanged,
}

impl Config {
    /// Decides the `create-config` command for a target whose existence
    /// the caller has checked.  With no file present the template is
    /// written.  With a file present: no overwrite decision fails with
    /// `ConfigAlreadyExists` (and nothing may be written), an explicit
    /// `false` succeeds without touching the file, an explicit `true`
    /// replaces it.  Any I/O failure while acting on the decision is the
    /// caller's `ConfigIoError`.
    pub fn create(path: &str, file_exists: bool, overwrite: Option<bool>) -> (r: Result<
        CreateAction,
        Error,
    >)
        ensures
            !file_exists ==> (r matches Ok(a) && a is WriteDefault),
            file_exists ==> match overwrite {
                None => r matches Err(e) && (e matches Error::ConfigAlreadyExists(p) && p@
                    == path@),
                Some(false) => r matches Ok(a) && a is LeaveUnchanged,
                Some(true) => r matches Ok(a) && a is WriteDefault,
            },
    {
        if !file_exists {
            Ok(CreateAction::WriteDefault)
        } else {
            match overwrite {
                None => Err(Error::ConfigAlreadyExists(path.to_owned())),
                Some(false) => Ok(CreateAction::LeaveUnchanged),
                Some(true) => Ok(CreateAction::WriteDefault),
            }
        }
    }
}

/// The fixed default template `create-config` writes.
pub fn default_config_text() -> (r: String)
    ensures
        r@ == "[database]\nurl = \"cirrus.db\"\n"@,
{
    String::from_str("[database]\nurl = \"cirrus.db\"\n")
}

/// Law: resolution short-circuits on the first default location that
/// exists, whether or not its contents are readable or valid: the first
/// outcome, when it is not `NotFound`, decides resolution by itself, so a
/// malformed file at the first location can never fall through to a later
/// one.
pub proof fn lemma_first_found_wins(defaults: Seq<ReadOutcome>)
    requires
        defaults.len() > 0,
        !(defaults[0] is NotFound),
    ensures
        first_probe(defaults) == Some(defaults[0]),
{
}

/// Law: when no default location exists, probing finds nothing, and
/// resolution without an explicit path fails with `ConfigNotFound`.
pub proof fn lemma_no_default_found(defaults: Seq<ReadOutcome>)
    requires
        forall|i: int| 0 <= i < defaults.len() ==> defaults[i] is NotFound,
    ensures
        first_probe(defaults) is None,
    decreases defaults.len(),
{
    if defaults.len() > 0 {
        assert(defaults[0] is NotFound);
        assert forall|i: int|
            0 <= i < defaults.drop_first().len() implies defaults.drop_first()[i]
            is NotFound by {
            assert(defaults.drop_first()[i] == defaults[i + 1]);
        }
        lemma_no_default_found(defaults.drop_first());
    }
}

} // verus!
