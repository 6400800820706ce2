//! The server registry: one record per watched file, kept on disk under a
//! name derived from the file's path.
//!
//! A record lives in two files of the registry directory, both named by
//! the fingerprint of the watched path: `<fingerprint>.server` holds
//! `<port>:<pid>`, and `<fingerprint>.filepath` holds the watched path.
//! Reading and writing the files is the caller's work; which files, and
//! what stands in them, is decided here.

use vstd::prelude::*;
use crate::decimal::{decimal, law_decimal_round_trip, lemma_decimal_digits, lemma_decimal_plain, parse, parse_u16, parse_u32, push_decimal};
use crate::fingerprint::{fingerprint_chars, fingerprint_of, hex_digit, md5_digest};
use vstd::utf8::encode_utf8;
use crate::text::{chars_of, ends_with, find_char, find_char_in, has_suffix, lemma_find_char, lemma_find_char_at, lemma_find_char_none, lemma_trim_clean, push_range, split, string_of, trim, trim_bounds};

verus! {

/// What the registry holds for one watched file: the port its preview
/// server listens on and the id of the server's process.
#[derive(Clone, Copy, PartialEq, Eq, Debug, Structural)]
pub struct ServerRecord {
    pub port: u16,
    pub pid: u32,
}

/// The outcome of looking a record up.
#[derive(Clone, Copy, PartialEq, Eq, Debug, Structural)]
pub enum Lookup {
    /// No record is stored under the key.
    NotFound,
    /// Something is stored under the key, but it is no record.
    Corrupt,
    /// The record stored under the key.
    Found(ServerRecord),
}

/// What stands at the place of a record file.
#[derive(PartialEq, Eq, Debug)]
pub enum Stored {
    /// No file.
    Absent,
    /// A file that cannot be read.
    Unreadable,
    /// A file with this content.
    Content(String),
}

/// What stands at the place of a record file, as plain values.
pub enum StoredView {
    /// No file.
    Absent,
    /// A file that cannot be read.
    Unreadable,
    /// A file with this content.
    Content(Seq<char>),
}

impl View for Stored {
    type V = StoredView;

    open spec fn view(&self) -> StoredView {
        match self {
            Stored::Absent => StoredView::Absent,
            Stored::Unreadable => StoredView::Unreadable,
            Stored::Content(text) => StoredView::Content(text@),
        }
    }
}

/// Why the content of a record file is no record.
#[derive(Clone, Copy, PartialEq, Eq, Debug, Structural)]
pub enum RecordError {
    /// The content does not consist of two fields with a colon between.
    FieldCount,
    /// The first field is no port number.
    Port,
    /// The second field is no process id.
    Pid,
}

/// Why the registry directory is not known.
#[derive(Clone, Copy, PartialEq, Eq, Debug, Structural)]
pub enum ConfigError {
    /// The user's home directory cannot be determined.
    HomeUnknown,
}

/// The name of the registry directory inside the user's home directory.
pub const SERVER_INFO_DIR: &'static str = ".marv";

/// The end of the name of a record file.
pub const RECORD_SUFFIX: &'static str = ".server";

/// The end of the name of the file that holds the watched path.
pub const PATH_SUFFIX: &'static str = ".filepath";

/// The path of the entry `name` in the directory `dir`: a `/` is put
/// between the two unless `dir` is empty or ends with one.
pub open spec fn joined(dir: Seq<char>, name: Seq<char>) -> Seq<char> {
    if dir.len() == 0 || dir.last() == '/' {
        dir + name
    } else {
        dir + seq!['/'] + name
    }
}

/// The name of the record file for the watched path `input_path`: its
/// fingerprint, then `.server`.
pub open spec fn record_name(input_path: Seq<char>) -> Seq<char> {
    fingerprint_of(input_path) + RECORD_SUFFIX@
}

/// The path of the record file for the watched path `input_path` in the
/// registry directory `server_dir`.
pub open spec fn record_path(server_dir: Seq<char>, input_path: Seq<char>) -> Seq<char> {
    joined(server_dir, record_name(input_path))
}

/// Whether `name` is the name of a record file: something, then
/// `.server`.
pub open spec fn is_record_name(name: Seq<char>) -> bool {
    ends_with(name, RECORD_SUFFIX@) && name.len() > RECORD_SUFFIX@.len()
}

/// Whether `path` is the path of a record file: it ends with `.server`,
/// and what stands before that ends with the stem of a file name, that is
/// with something other than a `/` and other than the component `.`.
pub open spec fn is_record_path(path: Seq<char>) -> bool {
    let stem_end = path.len() - RECORD_SUFFIX@.len();
    &&& ends_with(path, RECORD_SUFFIX@)
    &&& stem_end > 0
    &&& path[stem_end - 1] != '/'
    &&& !(path[stem_end - 1] == '.' && (stem_end == 1 || path[stem_end - 2] == '/'))
}

/// The path of the file that holds the watched path, for the record file
/// at `record`: `.filepath` in place of `.server`. Only a record file has
/// such a companion.
pub open spec fn companion_of(record: Seq<char>) -> Option<Seq<char>> {
    if is_record_path(record) {
        Some(record.take(record.len() - RECORD_SUFFIX@.len()) + PATH_SUFFIX@)
    } else {
        None
    }
}

/// The content of the record file for `record`: port and process id in
/// decimal, with a colon between.
pub open spec fn record_text(record: ServerRecord) -> Seq<char> {
    decimal(record.port as nat) + seq![':'] + decimal(record.pid as nat)
}

/// The record that the content of a record file holds. White space around
/// the content is passed over. What is left must be two fields with one
/// colon between them, the first a numeral up to `u16::MAX`, the second a
/// numeral up to `u32::MAX`.
pub open spec fn parse_record(content: Seq<char>) -> Result<ServerRecord, RecordError> {
    let fields = split(trim(content), ':');
    if fields.len() != 2 {
        Err(RecordError::FieldCount)
    } else {
        match parse(fields[0], u16::MAX as nat) {
            None => Err(RecordError::Port),
            Some(port) => match parse(fields[1], u32::MAX as nat) {
                None => Err(RecordError::Pid),
                Some(pid) => Ok(ServerRecord { port: port as u16, pid: pid as u32 }),
            },
        }
    }
}

/// What a lookup gives for what stands at the place of the record file:
/// no file is no record; a file that cannot be read, or whose content is
/// no record, is corrupt.
pub open spec fn lookup_of(stored: StoredView) -> Lookup {
    match stored {
        StoredView::Absent => Lookup::NotFound,
        StoredView::Unreadable => Lookup::Corrupt,
        StoredView::Content(text) => match parse_record(text) {
            Ok(record) => Lookup::Found(record),
            Err(_) => Lookup::Corrupt,
        },
    }
}

/// `dirs::home_dir`: the home directory of the current user, if the
/// system tells it. It depends on the environment, so nothing is claimed
/// of it.
#[verifier::external_body]
fn home_dir() -> (home: Option<String>)
{
    match dirs::home_dir() {
        Some(path) => Some(path.to_string_lossy().into_owned()),
        None => None,
    }
}

/// Joins a directory and the name of an entry in it.
pub fn join_path(dir: &[char], name: &[char]) -> (path: Vec<char>)
    ensures
        path@ == joined(dir@, name@),
{
    let mut path: Vec<char> = Vec::new();
    push_range(&mut path, dir, 0, dir.len());
    assert(dir@.subrange(0, dir@.len() as int) == dir@);
    if dir.len() > 0 && dir[dir.len() - 1] != '/' {
        path.push('/');
    }
    push_range(&mut path, name, 0, name.len());
    assert(name@.subrange(0, name@.len() as int) == name@);
    assert(path@ =~= joined(dir@, name@));
    path
}

/// The registry directory inside the home directory `home`; an error if
/// the home directory is not known.
pub fn server_info_dir_in(home: Option<&str>) -> (dir: Result<String, ConfigError>)
    ensures
        match home {
            Some(h) => dir matches Ok(d) && d@ == joined(h@, SERVER_INFO_DIR@),
            None => dir == Err::<String, ConfigError>(ConfigError::HomeUnknown),
        },
{
    match home {
        Some(h) => {
            let home_chars = chars_of(h);
            let name = chars_of(SERVER_INFO_DIR);
            let path = join_path(home_chars.as_slice(), name.as_slice());
            Ok(string_of(path.as_slice()))
        },
        None => Err(ConfigError::HomeUnknown),
    }
}

/// The registry directory of the current user: `.marv` in the home
/// directory. Fails when the system does not tell the home directory.
pub fn get_server_info_dir() -> (dir: Result<String, ConfigError>)
    ensures
        match dir {
            Ok(d) => exists|home: Seq<char>| d@ == joined(home, SERVER_INFO_DIR@),
            Err(e) => e == ConfigError::HomeUnknown,
        },
{
    match home_dir() {
        Some(home) => {
            let dir = server_info_dir_in(Some(home.as_str()));
            assert(dir matches Ok(d) && d@ == joined(home@, SERVER_INFO_DIR@));
            dir
        },
        None => Err(ConfigError::HomeUnknown),
    }
}

/// The name of the record file for the watched path `input_path`. It is
/// the name of a record file, so a sweep of the registry directory finds
/// it.
pub fn record_file_name(input_path: &str) -> (name: Vec<char>)
    ensures
        name@ == record_name(input_path@),
        is_record_name(name@),
{
    let mut name = fingerprint_chars(input_path);
    let suffix = chars_of(RECORD_SUFFIX);
    push_range(&mut name, suffix.as_slice(), 0, suffix.len());
    assert(suffix@.subrange(0, suffix@.len() as int) == suffix@);
    assert(name@.skip(name@.len() - suffix@.len()) =~= suffix@);
    name
}

/// The path of the record file for the watched path `input_path`, in the
/// registry directory `server_dir`.
pub fn get_server_info_path(input_path: &str, server_dir: &str) -> (path: String)
    ensures
        path@ == record_path(server_dir@, input_path@),
        is_record_path(path@),
{
    let name = record_file_name(input_path);
    let dir = chars_of(server_dir);
    let path = join_path(dir.as_slice(), name.as_slice());
    proof {
        law_companion_beside_record(server_dir@, input_path@);
    }
    string_of(path.as_slice())
}

/// Tells whether `name` is the name of a record file.
pub fn is_record_file(name: &str) -> (r: bool)
    ensures
        r == is_record_name(name@),
{
    let chars = chars_of(name);
    let suffix = chars_of(RECORD_SUFFIX);
    chars.len() > suffix.len() && has_suffix(chars.as_slice(), suffix.as_slice())
}

/// The path of the file that holds the watched path, for the record file
/// at `server_info_path`; `None` if that is not the path of a record file.
pub fn companion_path(server_info_path: &str) -> (path: Option<String>)
    ensures
        match path {
            Some(p) => companion_of(server_info_path@) == Some(p@),
            None => companion_of(server_info_path@) is None,
        },
{
    let chars = chars_of(server_info_path);
    let suffix = chars_of(RECORD_SUFFIX);
    if !has_suffix(chars.as_slice(), suffix.as_slice()) || chars.len() == suffix.len() {
        return None;
    }
    let stem_end: usize = chars.len() - suffix.len();
    if chars[stem_end - 1] == '/' {
        return None;
    }
    if chars[stem_end - 1] == '.' && (stem_end == 1 || chars[stem_end - 2] == '/') {
        return None;
    }
    let mut path: Vec<char> = Vec::new();
    push_range(&mut path, chars.as_slice(), 0, stem_end);
    let tail = chars_of(PATH_SUFFIX);
    push_range(&mut path, tail.as_slice(), 0, tail.len());
    assert(tail@.subrange(0, tail@.len() as int) == tail@);
    Some(string_of(path.as_slice()))
}

/// Whether the removal of a record has succeeded, going by what became of
/// its two files: the record file must have been removed; the path
/// reference must have been removed too if it was there, and its absence
/// is no failure. `companion` is `None` for a path reference that was not
/// there, and else tells whether its removal succeeded.
pub open spec fn removed(record_removed: bool, companion: Option<bool>) -> bool {
    record_removed && companion != Some(false)
}

/// Tells whether the removal of a record has succeeded, going by what
/// became of its two files.
pub fn removal_done(record_removed: bool, companion: Option<bool>) -> (done: bool)
    ensures
        done == removed(record_removed, companion),
{
    record_removed && match companion {
        Some(companion_removed) => companion_removed,
        None => true,
    }
}

/// The content to write into the record file for a server on `port` run by
/// the process `pid`.
pub fn write_server_info(port: u16, pid: u32) -> (content: String)
    ensures
        content@ == record_text(ServerRecord { port, pid }),
{
    let mut text: Vec<char> = Vec::new();
    push_decimal(&mut text, port as u32);
    text.push(':');
    push_decimal(&mut text, pid);
    assert(text@ =~= record_text(ServerRecord { port, pid }));
    string_of(text.as_slice())
}

/// What is to be written beside a record: the file that holds the watched
/// path, and the path that goes into it.
#[derive(PartialEq, Eq, Debug)]
pub struct PathReference {
    /// Where the file goes.
    pub path: String,
    /// What the file holds.
    pub content: String,
}

/// The path reference for the record file at `server_info_path`, naming
/// the watched path `file_path`; `None` if `server_info_path` is not the
/// path of a record file.
pub fn save_file_path_in_server_info(server_info_path: &str, file_path: &str) -> (reference:
    Option<PathReference>)
    ensures
        match reference {
            Some(r) => companion_of(server_info_path@) == Some(r.path@) && r.content@ == file_path@,
            None => companion_of(server_info_path@) is None,
        },
{
    match companion_path(server_info_path) {
        Some(path) => Some(PathReference { path, content: file_path.to_owned() }),
        None => None,
    }
}

/// Reads the record out of the content of a record file.
pub fn read_server_info(content: &str) -> (record: Result<ServerRecord, RecordError>)
    ensures
        record == parse_record(content@),
{
    let chars = chars_of(content);
    let (from, to) = trim_bounds(chars.as_slice());
    let ghost line = chars@.subrange(from as int, to as int);
    proof {
        lemma_find_char(line, ':');
    }
    match find_char_in(chars.as_slice(), from, to, ':') {
        None => {
            assert(split(line, ':') == seq![line]);
            Err(RecordError::FieldCount)
        },
        Some(k) => {
            let ghost rest = line.skip(k as int + 1);
            assert(rest == chars@.subrange(from + k + 1, to as int));
            assert(line.take(k as int) == chars@.subrange(from as int, from + k));
            proof {
                lemma_find_char(rest, ':');
                lemma_split_once(line, ':');
            }
            match find_char_in(chars.as_slice(), from + k + 1, to, ':') {
                Some(_) => Err(RecordError::FieldCount),
                None => {
                    match parse_u16(chars.as_slice(), from, from + k) {
                        None => Err(RecordError::Port),
                        Some(port) => match parse_u32(chars.as_slice(), from + k + 1, to) {
                            None => Err(RecordError::Pid),
                            Some(pid) => Ok(ServerRecord { port, pid }),
                        },
                    }
                },
            }
        },
    }
}

/// Looks a record up in what stands at the place of its file.
pub fn lookup(stored: &Stored) -> (found: Lookup)
    ensures
        found == lookup_of(stored@),
{
    match stored {
        Stored::Absent => Lookup::NotFound,
        Stored::Unreadable => Lookup::Corrupt,
        Stored::Content(text) => match read_server_info(text.as_str()) {
            Ok(record) => Lookup::Found(record),
            Err(_) => Lookup::Corrupt,
        },
    }
}

/// A text with a separator splits into what stands before the first
/// separator, and the parts of the rest. It has two parts exactly when the
/// rest holds no separator.
pub proof fn lemma_split_once(s: Seq<char>, sep: char)
    requires
        find_char(s, sep) is Some,
    ensures
        ({
            let k = find_char(s, sep).unwrap();
            let rest = s.skip(k + 1);
            &&& split(s, sep)[0] == s.take(k)
            &&& split(s, sep).len() == 1 + split(rest, sep).len()
            &&& find_char(rest, sep) is None ==> split(s, sep) == seq![s.take(k), rest]
            &&& find_char(rest, sep) is Some ==> split(s, sep).len() > 2
        }),
{
    let k = find_char(s, sep).unwrap();
    let rest = s.skip(k + 1);
    lemma_find_char(s, sep);
    lemma_find_char(rest, sep);
    if find_char(rest, sep) is None {
        assert(split(rest, sep) == seq![rest]);
        assert(seq![s.take(k)] + seq![rest] =~= seq![s.take(k), rest]);
    } else {
        let j = find_char(rest, sep).unwrap();
        assert(split(rest, sep) == seq![rest.take(j)] + split(rest.skip(j + 1), sep));
        lemma_split_nonempty(rest.skip(j + 1), sep);
    }
}

/// A text has at least one part.
pub proof fn lemma_split_nonempty(s: Seq<char>, sep: char)
    ensures
        split(s, sep).len() >= 1,
    decreases s.len(),
{
    lemma_find_char(s, sep);
    match find_char(s, sep) {
        None => {},
        Some(k) => {
            lemma_split_nonempty(s.skip(k + 1), sep);
        },
    }
}

/// A record that is written and read back is the same record: the port
/// and the process id come back as they were.
pub proof fn law_record_round_trip(record: ServerRecord)
    ensures
        parse_record(record_text(record)) == Ok::<ServerRecord, RecordError>(record),
        lookup_of(StoredView::Content(record_text(record))) == Lookup::Found(record),
{
    let port = decimal(record.port as nat);
    let pid = decimal(record.pid as nat);
    let text = record_text(record);
    lemma_decimal_digits(record.port as nat);
    lemma_decimal_digits(record.pid as nat);
    lemma_decimal_plain(record.port as nat);
    lemma_decimal_plain(record.pid as nat);
    assert(text.first() == port[0]);
    assert(text.last() == pid[pid.len() - 1]);
    lemma_trim_clean(text);
    let k = port.len() as int;
    assert(text[k] == ':');
    assert forall|j: int| 0 <= j < k implies text[j] != ':' by {
        assert(text[j] == port[j]);
    }
    lemma_find_char_at(text, ':', k);
    assert(text.take(k) =~= port);
    assert(text.skip(k + 1) =~= pid);
    lemma_find_char_none(pid, ':');
    lemma_split_once(text, ':');
    law_decimal_round_trip(record.port as nat, u16::MAX as nat);
    law_decimal_round_trip(record.pid as nat, u32::MAX as nat);
}

/// A hexadecimal digit is neither a `/` nor a `.`.
proof fn lemma_hex_digit_plain(n: int)
    requires
        0 <= n < 16,
    ensures
        hex_digit(n) != '/',
        hex_digit(n) != '.',
{
}

/// The path reference of a watched path lies beside its record, under the
/// same fingerprint: the record file of a path is a record file, and its
/// companion is the file `<fingerprint>.filepath` of the registry
/// directory. (A fingerprint is never empty; that is known of each
/// fingerprint that is computed, not of the digest as such.)
pub proof fn law_companion_beside_record(dir: Seq<char>, input_path: Seq<char>)
    ensures
        fingerprint_of(input_path).len() > 0 ==> companion_of(record_path(dir, input_path))
            == Some(joined(dir, fingerprint_of(input_path) + PATH_SUFFIX@)),
{
    let print = fingerprint_of(input_path);
    if print.len() > 0 {
        let suffix = RECORD_SUFFIX@;
        let prefix = if dir.len() == 0 || dir.last() == '/' {
            dir
        } else {
            dir + seq!['/']
        };
        let record = record_path(dir, input_path);
        let stem_end = record.len() - suffix.len();
        let digest = md5_digest(encode_utf8(input_path));
        let k = print.len() - 1;
        assert(print.len() == 2 * digest.len());
        assert(0 <= k / 2 < digest.len());
        lemma_hex_digit_plain(digest[k / 2] as int / 16);
        lemma_hex_digit_plain(digest[k / 2] as int % 16);
        assert(print[k] != '/' && print[k] != '.');
        assert(record =~= prefix + print + suffix);
        assert(record[stem_end - 1] == print[k]);
        assert(record.skip(stem_end) =~= suffix);
        assert(record.take(stem_end) =~= prefix + print);
        assert(joined(dir, print + PATH_SUFFIX@) =~= prefix + print + PATH_SUFFIX@);
    }
}

/// A record whose path reference is missing is removed all the same: the
/// absence is no failure. A record file that could not be removed, or a
/// path reference that was there and could not be removed, is one.
pub proof fn law_removal_tolerates_absent_companion(record_removed: bool, companion_removed: bool)
    ensures
        removed(true, None),
        removed(record_removed, None) == record_removed,
        removed(record_removed, Some(companion_removed)) == (record_removed && companion_removed),
{
}

/// The registry holds at most one record for a watched path: the record
/// file of a path is fixed by the path's fingerprint, and two paths with
/// different fingerprints have different record files in one directory.
pub proof fn law_one_record_per_fingerprint(dir: Seq<char>, p: Seq<char>, q: Seq<char>)
    ensures
        fingerprint_of(p) == fingerprint_of(q) ==> record_path(dir, p) == record_path(dir, q),
        fingerprint_of(p) != fingerprint_of(q) ==> record_path(dir, p) != record_path(dir, q),
{
    let a = record_name(p);
    let b = record_name(q);
    if fingerprint_of(p) != fingerprint_of(q) {
        assert(a != b) by {
            if a == b {
                assert(a.len() == fingerprint_of(p).len() + RECORD_SUFFIX@.len());
                assert(b.len() == fingerprint_of(q).len() + RECORD_SUFFIX@.len());
                assert(a.take(fingerprint_of(p).len() as int) =~= fingerprint_of(p));
                assert(b.take(fingerprint_of(q).len() as int) =~= fingerprint_of(q));
            }
        }
        let prefix = if dir.len() == 0 || dir.last() == '/' {
            dir
        } else {
            dir + seq!['/']
        };
        assert(joined(dir, a) =~= prefix + a);
        assert(joined(dir, b) =~= prefix + b);
        if prefix + a == prefix + b {
            assert((prefix + a).skip(prefix.len() as int) =~= a);
            assert((prefix + b).skip(prefix.len() as int) =~= b);
        }
    }
}

} // verus!
