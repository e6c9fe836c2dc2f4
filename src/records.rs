//! The two line-oriented logs: how a record is written as one JSON line, and
//! how a log is read back while another process may be appending to it.

use vstd::prelude::*;
use crate::text::{chars_of, string_of};

verus! {

/// serde_json's error type, carried opaquely by the serialisation wrapper.
#[verifier::external_type_specification]
#[verifier::external_body]
pub struct ExJsonError(serde_json::Error);

/// The hexadecimal digit for `d < 16`, lower case.
pub open spec fn hex_digit(d: nat) -> char {
    if d < 10 {
        (d + 48) as char
    } else {
        (d + 87) as char
    }
}

/// How one character stands inside a JSON string literal.
pub open spec fn escape_char(c: char) -> Seq<char> {
    if c == '"' {
        seq!['\\', '"']
    } else if c == '\\' {
        seq!['\\', '\\']
    } else if c == '\x08' {
        seq!['\\', 'b']
    } else if c == '\t' {
        seq!['\\', 't']
    } else if c == '\n' {
        seq!['\\', 'n']
    } else if c == '\x0c' {
        seq!['\\', 'f']
    } else if c == '\r' {
        seq!['\\', 'r']
    } else if (c as u32) < 32 {
        seq!['\\', 'u', '0', '0', hex_digit((c as u32 / 16) as nat), hex_digit((c as u32 % 16) as nat)]
    } else {
        seq![c]
    }
}

/// The escaped characters of `s`.
pub open spec fn escaped(s: Seq<char>) -> Seq<char>
    decreases s.len(),
{
    if s.len() == 0 {
        Seq::empty()
    } else {
        escaped(s.drop_last()) + escape_char(s.last())
    }
}

/// `s` as a JSON string literal.
pub open spec fn json_quoted(s: Seq<char>) -> Seq<char> {
    seq!['"'] + escaped(s) + seq!['"']
}

/// Relies on `serde_json::to_string` on a `str`: a JSON string literal with
/// `"` and `\` escaped, the short escapes for backspace, tab, line feed,
/// form feed and carriage return, `\u00xx` (lower-case hex) for the other
/// characters below U+0020, and every other character as it is. It writes
/// into a `Vec`, which cannot fail, so the result is `Ok`.
#[verifier::external_body]
fn json_string(s: &str) -> (r: Result<String, serde_json::Error>)
    ensures
        r is Ok,
        r is Ok ==> r->Ok_0@ == json_quoted(s@),
{
    serde_json::to_string(s)
}

/// `s` as a JSON string literal.
pub fn quote(s: &str) -> (r: String)
    ensures
        r@ == json_quoted(s@),
{
    match json_string(s) {
        Ok(t) => t,
        Err(_) => String::new(),
    }
}

/// A key log record, fields in key order as serde_json writes an object.
pub open spec fn key_record(timestamp: Seq<char>, window: Seq<char>, input: Seq<char>) -> Seq<
    char,
> {
    "{\"input\":"@ + json_quoted(input) + ",\"timestamp\":"@ + json_quoted(timestamp)
        + ",\"window\":"@ + json_quoted(window) + "}"@
}

/// A window log record, fields in key order as serde_json writes an object.
pub open spec fn window_record(timestamp: Seq<char>, title: Seq<char>) -> Seq<char> {
    "{\"timestamp\":"@ + json_quoted(timestamp) + ",\"title\":"@ + json_quoted(title) + "}"@
}

/// The line (without its line break) that records typed `input` in
/// `window` at `timestamp`.
pub fn key_log_line(timestamp: &str, window: &str, input: &str) -> (r: String)
    ensures
        r@ == key_record(timestamp@, window@, input@),
{
    let mut out = String::from_str("{\"input\":");
    out.append(quote(input).as_str());
    out.append(",\"timestamp\":");
    out.append(quote(timestamp).as_str());
    out.append(",\"window\":");
    out.append(quote(window).as_str());
    out.append("}");
    out
}

/// The line (without its line break) that records a switch to the window
/// `title` at `timestamp`.
pub fn window_log_line(timestamp: &str, title: &str) -> (r: String)
    ensures
        r@ == window_record(timestamp@, title@),
{
    let mut out = String::from_str("{\"timestamp\":");
    out.append(quote(timestamp).as_str());
    out.append(",\"title\":");
    out.append(quote(title).as_str());
    out.append("}");
    out
}

/// `l` without one trailing carriage return.
pub open spec fn strip_cr(l: Seq<char>) -> Seq<char> {
    if l.len() > 0 && l.last() == '\r' {
        l.drop_last()
    } else {
        l
    }
}

/// The complete lines of `s` and the text after the last line feed.
pub open spec fn line_split(s: Seq<char>) -> (Seq<Seq<char>>, Seq<char>)
    decreases s.len(),
{
    if s.len() == 0 {
        (Seq::empty(), Seq::empty())
    } else {
        let (done, cur) = line_split(s.drop_last());
        if s.last() == '\n' {
            (done.push(strip_cr(cur)), Seq::empty())
        } else {
            (done, cur.push(s.last()))
        }
    }
}

/// The lines of `s` as `BufRead::lines` yields them: split at each line
/// feed, one carriage return before it dropped, and a last line without a
/// line feed kept when it is not empty.
pub open spec fn lines_of(s: Seq<char>) -> Seq<Seq<char>> {
    let (done, cur) = line_split(s);
    if cur.len() > 0 {
        done.push(cur)
    } else {
        done
    }
}

/// The values of a sequence of strings.
pub open spec fn strs_of(v: Seq<String>) -> Seq<Seq<char>> {
    v.map_values(|t: String| t@)
}

/// Splits a log's text into its lines.
pub fn log_lines(content: &str) -> (r: Vec<String>)
    ensures
        strs_of(r@) == lines_of(content@),
{
    let cs = chars_of(content);
    let mut done: Vec<String> = Vec::new();
    let mut cur: Vec<char> = Vec::new();
    let mut i: usize = 0;
    assert(cs@.subrange(0, 0) =~= Seq::<char>::empty());
    assert(strs_of(done@) =~= Seq::<Seq<char>>::empty());
    while i < cs.len()
        invariant
            i <= cs@.len(),
            (strs_of(done@), cur@) == line_split(cs@.subrange(0, i as int)),
        decreases cs@.len() - i,
    {
        let c = cs[i];
        assert(cs@.subrange(0, i + 1).drop_last() =~= cs@.subrange(0, i as int));
        if c == '\n' {
            let n = cur.len();
            if n > 0 && cur[n - 1] == '\r' {
                cur.pop();
            }
            let ghost before = strs_of(done@);
            done.push(string_of(&cur));
            assert(strs_of(done@) =~= before.push(cur@));
            cur = Vec::new();
        } else {
            cur.push(c);
        }
        i = i + 1;
    }
    assert(cs@.subrange(0, cs@.len() as int) =~= cs@);
    if cur.len() > 0 {
        let ghost before = strs_of(done@);
        done.push(string_of(&cur));
        assert(strs_of(done@) =~= before.push(cur@));
    }
    done
}

/// The number of lines in a log's text.
pub fn count_lines(content: &str) -> (r: usize)
    ensures
        r == lines_of(content@).len(),
{
    log_lines(content).len()
}

/// Whether serde_json accepts a text as one JSON document.
pub uninterp spec fn json_accepts(s: Seq<char>) -> bool;

/// Relies on `serde_json::from_str::<serde_json::Value>`: whether it parses
/// the text as one JSON value (white space around it allowed).
#[verifier::external_body]
fn parses_as_json(s: &str) -> (r: bool)
    ensures
        r == json_accepts(s@),
{
    serde_json::from_str::<serde_json::Value>(s).is_ok()
}

/// The lines among `ls` that parse as JSON, in order.
pub open spec fn json_only(ls: Seq<Seq<char>>) -> Seq<Seq<char>>
    decreases ls.len(),
{
    if ls.len() == 0 {
        Seq::empty()
    } else if json_accepts(ls.last()) {
        json_only(ls.drop_last()).push(ls.last())
    } else {
        json_only(ls.drop_last())
    }
}

/// The records of a log's text: the lines that parse as JSON, in order. A
/// malformed line, such as a partial last line that a writer is still
/// appending, is skipped; it never fails the whole read.
pub fn read_logs(content: &str) -> (r: Vec<String>)
    ensures
        strs_of(r@) == json_only(lines_of(content@)),
{
    let lines = log_lines(content);
    let mut out: Vec<String> = Vec::new();
    let mut i: usize = 0;
    assert(strs_of(lines@).subrange(0, 0) =~= Seq::<Seq<char>>::empty());
    assert(strs_of(out@) =~= Seq::<Seq<char>>::empty());
    while i < lines.len()
        invariant
            i <= lines@.len(),
            strs_of(lines@) == lines_of(content@),
            strs_of(out@) == json_only(strs_of(lines@).subrange(0, i as int)),
        decreases lines@.len() - i,
    {
        let ghost ls = strs_of(lines@);
        assert(ls.subrange(0, i + 1).drop_last() =~= ls.subrange(0, i as int));
        assert(ls.subrange(0, i + 1).last() == lines@[i as int]@);
        if parses_as_json(lines[i].as_str()) {
            let ghost before = strs_of(out@);
            out.push(lines[i].clone());
            assert(strs_of(out@) =~= before.push(lines@[i as int]@));
        }
        i = i + 1;
    }
    assert(strs_of(lines@).subrange(0, lines@.len() as int) =~= strs_of(lines@));
    out
}

/// What a reader gets is well-formed: every record that [`read_logs`]
/// returns parses as JSON, and none is longer than the text it came from.
pub proof fn lemma_read_logs_well_formed(ls: Seq<Seq<char>>)
    ensures
        forall|i: int| 0 <= i < json_only(ls).len() ==> json_accepts(#[trigger] json_only(ls)[i]),
        json_only(ls).len() <= ls.len(),
    decreases ls.len(),
{
    if ls.len() > 0 {
        lemma_read_logs_well_formed(ls.drop_last());
    }
}

} // verus!
