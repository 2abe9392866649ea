//! The log file: where it lives, how its time stamps read, and how a
//! logged line is written, one record per line of text.

use vstd::prelude::*;
use crate::paths::{data_dir, path_join, join_path, app_dir_in, APP_DIR_NAME};
use crate::text::{chars_of, decimal, push_char, push_decimal};

verus! {

pub const LOG_FILE_NAME: &'static str = "drawbridgevpn.log";

/// The log file inside a data directory.
pub open spec fn log_file_of(data_dir: Seq<char>) -> Seq<char> {
    path_join(app_dir_in(data_dir), LOG_FILE_NAME@)
}

/// Where the log goes: the application's directory, which must exist
/// before the file is opened, and the log file in it.
pub struct LogLocation {
    pub dir: String,
    pub file: String,
}

/// The log's directory and file under a data directory.
pub fn log_location_in(data_dir: &str) -> (l: LogLocation)
    ensures
        l.dir@ == app_dir_in(data_dir@),
        l.file@ == log_file_of(data_dir@),
{
    let dir = join_path(data_dir, APP_DIR_NAME);
    let file = join_path(dir.as_str(), LOG_FILE_NAME);
    LogLocation { dir, file }
}

/// The log's directory and file under the user's data directory, as the
/// platform names it; `None` when it names none.
pub fn log_location() -> (l: Option<LogLocation>)
    ensures
        l matches Some(loc) ==> exists|d: Seq<char>| loc.dir@ == app_dir_in(d) && loc.file@ == log_file_of(d),
{
    match data_dir() {
        Some(d) => Some(log_location_in(d.as_str())),
        None => None,
    }
}

/// The log file, once its directory was set up: `None` when there is no
/// data directory or its application directory could not be created.
pub fn path(location: Option<LogLocation>, dir_created: bool) -> (p: Option<String>)
    ensures
        match location {
            Some(loc) => if dir_created {
                p matches Some(f) && f@ == loc.file@
            } else {
                p is None
            },
            None => p is None,
        },
{
    match location {
        Some(loc) => if dir_created {
            Some(loc.file)
        } else {
            None
        },
        None => None,
    }
}

/// `n` spaces.
pub open spec fn spaces(n: nat) -> Seq<char> {
    Seq::new(n, |i: int| ' ')
}

/// Three digits, zeros in front, for `n < 1000`.
pub open spec fn three_digits(n: nat) -> Seq<char> {
    if n < 10 {
        seq!['0', '0'] + decimal(n)
    } else if n < 100 {
        seq!['0'] + decimal(n)
    } else {
        decimal(n)
    }
}

/// Seconds with three decimals: `{secs}.{millis}`.
pub open spec fn seconds_text(millis: nat) -> Seq<char> {
    decimal(millis / 1000) + seq!['.'] + three_digits(millis % 1000)
}

/// The stamp in front of each record: `[`, the elapsed seconds with three
/// decimals right-aligned in seven columns, `s]`.
pub open spec fn stamp_text(millis: nat) -> Seq<char> {
    let body = seconds_text(millis);
    seq!['['] + spaces(if body.len() < 7 { (7 - body.len()) as nat } else { 0 }) + body + seq!['s', ']']
}

/// The time stamp for a moment `elapsed_millis` after the log was started.
pub fn elapsed_stamp(elapsed_millis: u64) -> (s: String)
    ensures
        s@ == stamp_text(elapsed_millis as nat),
{
    let mut body = String::new();
    push_decimal(&mut body, elapsed_millis / 1000);
    push_char(&mut body, '.');
    let frac = elapsed_millis % 1000;
    if frac < 10 {
        push_char(&mut body, '0');
        push_char(&mut body, '0');
    } else if frac < 100 {
        push_char(&mut body, '0');
    }
    push_decimal(&mut body, frac);
    assert(body@ =~= seconds_text(elapsed_millis as nat));
    let n = chars_of(body.as_str()).len();
    let mut s = String::new();
    push_char(&mut s, '[');
    let mut k: usize = n;
    while k < 7
        invariant
            n <= k,
            k == n || k <= 7,
            n == body@.len(),
            s@ == seq!['['] + spaces((k - n) as nat),
        decreases 7 - k,
    {
        push_char(&mut s, ' ');
        k = k + 1;
        assert(s@ =~= seq!['['] + spaces((k - n) as nat));
    }
    assert(spaces((k - n) as nat) =~= spaces(if n < 7 { (7 - n) as nat } else { 0 }));
    s.append(body.as_str());
    push_char(&mut s, 's');
    push_char(&mut s, ']');
    assert(s@ =~= stamp_text(elapsed_millis as nat));
    s
}

/// `stamp segment\n`: one record of the log file.
pub open spec fn record(stamp: Seq<char>, segment: Seq<char>) -> Seq<char> {
    stamp + seq![' '] + segment + seq!['\n']
}

/// Reading `s` from the start: the records of the lines that a newline has
/// ended, and the line still open.
pub open spec fn record_scan(stamp: Seq<char>, s: Seq<char>) -> (Seq<char>, Seq<char>)
    decreases s.len(),
{
    if s.len() == 0 {
        (seq![], seq![])
    } else {
        let (done, open) = record_scan(stamp, s.drop_last());
        if s.last() == '\n' {
            (done + record(stamp, open), seq![])
        } else {
            (done, open.push(s.last()))
        }
    }
}

/// What logging `line` adds to the file: one record per piece of `line`
/// between newlines, the piece after the last newline (empty if the line
/// ends with one) included.
pub open spec fn log_records(stamp: Seq<char>, line: Seq<char>) -> Seq<char> {
    record_scan(stamp, line).0 + record(stamp, record_scan(stamp, line).1)
}

/// Appends to `out` the records that log `line` under `stamp`.
pub fn append_line(out: &mut String, stamp: &str, line: &str)
    ensures
        final(out)@ == old(out)@ + log_records(stamp@, line@),
{
    let chars = chars_of(line);
    let mut open = String::new();
    let mut i: usize = 0;
    while i < chars.len()
        invariant
            i <= chars@.len(),
            chars@ == line@,
            out@ == old(out)@ + record_scan(stamp@, chars@.take(i as int)).0,
            open@ == record_scan(stamp@, chars@.take(i as int)).1,
        decreases chars.len() - i,
    {
        assert(chars@.take(i + 1).drop_last() =~= chars@.take(i as int));
        let c = chars[i];
        if c == '\n' {
            let ghost before = out@;
            out.append(stamp);
            push_char(out, ' ');
            out.append(open.as_str());
            push_char(out, '\n');
            assert(out@ =~= before + record(stamp@, open@));
            open = String::new();
        } else {
            push_char(&mut open, c);
        }
        i = i + 1;
    }
    assert(chars@.take(chars@.len() as int) =~= chars@);
    let ghost before = out@;
    out.append(stamp);
    push_char(out, ' ');
    out.append(open.as_str());
    push_char(out, '\n');
    assert(out@ =~= before + record(stamp@, open@));
}

proof fn lemma_scan_without_newline(stamp: Seq<char>, line: Seq<char>)
    requires
        !line.contains('\n'),
    ensures
        record_scan(stamp, line) == (Seq::<char>::empty(), line),
    decreases line.len(),
{
    if line.len() > 0 {
        assert(line[line.len() - 1] == line.last());
        assert forall|i: int| 0 <= i < line.drop_last().len() implies line.drop_last()[i] != '\n' by {
            assert(line.drop_last()[i] == line[i]);
        }
        lemma_scan_without_newline(stamp, line.drop_last());
        assert(line.drop_last().push(line.last()) =~= line);
    }
}

/// A line without a newline is logged as exactly one record: the stamp, a
/// space, the line, a newline.
pub proof fn lemma_single_line_is_one_record(stamp: Seq<char>, line: Seq<char>)
    requires
        !line.contains('\n'),
    ensures
        log_records(stamp, line) == stamp + seq![' '] + line + seq!['\n'],
{
    lemma_scan_without_newline(stamp, line);
    assert(Seq::<char>::empty() + record(stamp, line) =~= stamp + seq![' '] + line + seq!['\n']);
}

} // verus!
