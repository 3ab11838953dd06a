//! Log line formatting: the level tag, the message, and one line feed.
//!
//! The two tags are fixed-width on purpose — `"[INFO] "` and `" [ERR] "`
//! are both seven characters — so the tags line up in a ragged-right
//! column. On the wire a line is the UTF-8 encoding of its characters.

use vstd::prelude::*;
use vstd::string::StrSliceExecFns;
use vstd::string::StringExecFns;
use vstd::utf8::encode_utf8;
use vstd::utf8::is_ascii_chars;
use vstd::utf8::is_ascii_chars_concat;
use vstd::utf8::is_ascii_chars_encode_utf8;

verus! {

/// The characters of an info line: `"[INFO] "`, the message, a line feed.
pub open spec fn info_line(msg: Seq<char>) -> Seq<char> {
    "[INFO] "@ + msg + "\n"@
}

/// The characters of an error line: `" [ERR] "`, the message, a line feed.
pub open spec fn err_line(msg: Seq<char>) -> Seq<char> {
    " [ERR] "@ + msg + "\n"@
}

/// The characters of a plain log line: `"[LOG] "`, the message, a line feed.
pub open spec fn log_line(msg: Seq<char>) -> Seq<char> {
    "[LOG] "@ + msg + "\n"@
}

/// The bytes a formatted line occupies on the destination.
pub open spec fn line_bytes(line: Seq<char>) -> Seq<u8> {
    encode_utf8(line)
}

/// A line built from an ASCII tag and an ASCII message is ASCII, and its
/// bytes on the destination are its characters, one byte each.
proof fn lemma_tagged_line_ascii(tag: Seq<char>, msg: Seq<char>)
    requires
        is_ascii_chars(tag),
        is_ascii_chars(msg),
    ensures
        is_ascii_chars(tag + msg + "\n"@),
        line_bytes(tag + msg + "\n"@).len() == (tag + msg + "\n"@).len(),
        forall|i: int|
            0 <= i < (tag + msg + "\n"@).len() ==> #[trigger] line_bytes(tag + msg + "\n"@)[i] == (
            tag + msg + "\n"@)[i] as u8,
{
    reveal_strlit("\n");
    assert(is_ascii_chars("\n"@));
    is_ascii_chars_concat(tag + msg, tag, msg);
    is_ascii_chars_concat(tag + msg + "\n"@, tag + msg, "\n"@);
    is_ascii_chars_encode_utf8(tag + msg + "\n"@);
}

/// An info line for an ASCII message lands on the destination as exactly
/// its characters — `"[INFO] "`, the message, a line feed — one byte each.
pub proof fn lemma_info_line_bytes_ascii(msg: Seq<char>)
    requires
        is_ascii_chars(msg),
    ensures
        line_bytes(info_line(msg)).len() == info_line(msg).len(),
        forall|i: int|
            0 <= i < info_line(msg).len() ==> #[trigger] line_bytes(info_line(msg))[i] == info_line(
                msg,
            )[i] as u8,
{
    reveal_strlit("[INFO] ");
    assert(is_ascii_chars("[INFO] "@));
    lemma_tagged_line_ascii("[INFO] "@, msg);
}

/// An error line for an ASCII message lands on the destination as exactly
/// its characters — `" [ERR] "`, the message, a line feed — one byte each.
pub proof fn lemma_err_line_bytes_ascii(msg: Seq<char>)
    requires
        is_ascii_chars(msg),
    ensures
        line_bytes(err_line(msg)).len() == err_line(msg).len(),
        forall|i: int|
            0 <= i < err_line(msg).len() ==> #[trigger] line_bytes(err_line(msg))[i] == err_line(
                msg,
            )[i] as u8,
{
    reveal_strlit(" [ERR] ");
    assert(is_ascii_chars(" [ERR] "@));
    lemma_tagged_line_ascii(" [ERR] "@, msg);
}

/// A plain log line for an ASCII message lands on the destination as
/// exactly its characters — `"[LOG] "`, the message, a line feed — one
/// byte each.
pub proof fn lemma_log_line_bytes_ascii(msg: Seq<char>)
    requires
        is_ascii_chars(msg),
    ensures
        line_bytes(log_line(msg)).len() == log_line(msg).len(),
        forall|i: int|
            0 <= i < log_line(msg).len() ==> #[trigger] line_bytes(log_line(msg))[i] == log_line(
                msg,
            )[i] as u8,
{
    reveal_strlit("[LOG] ");
    assert(is_ascii_chars("[LOG] "@));
    lemma_tagged_line_ascii("[LOG] "@, msg);
}

/// The bytes of each message formatted as an info line, in order.
pub open spec fn info_lines_bytes(msgs: Seq<String>) -> Seq<Seq<u8>> {
    msgs.map_values(|m: String| line_bytes(info_line(m@)))
}

/// The bytes of each message formatted as an error line, in order.
pub open spec fn err_lines_bytes(msgs: Seq<String>) -> Seq<Seq<u8>> {
    msgs.map_values(|m: String| line_bytes(err_line(m@)))
}

/// The bytes of each message formatted as a plain log line, in order.
pub open spec fn log_lines_bytes(msgs: Seq<String>) -> Seq<Seq<u8>> {
    msgs.map_values(|m: String| line_bytes(log_line(m@)))
}

/// Formats `msg` as an info line.
pub fn format_info(msg: &str) -> (r: String)
    ensures
        r@ == info_line(msg@),
{
    let mut r = String::from_str("[INFO] ");
    r.append(msg);
    r.append("\n");
    r
}

/// Formats `msg` as an error line.
pub fn format_err(msg: &str) -> (r: String)
    ensures
        r@ == err_line(msg@),
{
    let mut r = String::from_str(" [ERR] ");
    r.append(msg);
    r.append("\n");
    r
}

/// Formats `msg` as a plain log line.
pub fn format_log(msg: &str) -> (r: String)
    ensures
        r@ == log_line(msg@),
{
    let mut r = String::from_str("[LOG] ");
    r.append(msg);
    r.append("\n");
    r
}

/// The UTF-8 bytes of a string.
pub fn string_bytes(s: &String) -> (r: Vec<u8>)
    ensures
        r@ == encode_utf8(s@),
{
    s.as_str().as_bytes_vec()
}

/// The bytes of each message formatted as an info line, in order.
pub fn format_info_many(msgs: &Vec<String>) -> (r: Vec<Vec<u8>>)
    ensures
        r@.len() == msgs@.len(),
        forall|i: int|
            0 <= i < msgs@.len() ==> r@[i]@ == line_bytes(info_line(#[trigger] msgs@[i]@)),
{
    let mut r: Vec<Vec<u8>> = Vec::new();
    let mut i: usize = 0;
    while i < msgs.len()
        invariant
            i <= msgs@.len(),
            r@.len() == i,
            forall|j: int| 0 <= j < i ==> r@[j]@ == line_bytes(info_line(#[trigger] msgs@[j]@)),
        decreases msgs@.len() - i,
    {
        let line = format_info(msgs[i].as_str());
        r.push(string_bytes(&line));
        i += 1;
    }
    r
}

/// The bytes of each message formatted as an error line, in order.
pub fn format_err_many(msgs: &Vec<String>) -> (r: Vec<Vec<u8>>)
    ensures
        r@.len() == msgs@.len(),
        forall|i: int|
            0 <= i < msgs@.len() ==> r@[i]@ == line_bytes(err_line(#[trigger] msgs@[i]@)),
{
    let mut r: Vec<Vec<u8>> = Vec::new();
    let mut i: usize = 0;
    while i < msgs.len()
        invariant
            i <= msgs@.len(),
            r@.len() == i,
            forall|j: int| 0 <= j < i ==> r@[j]@ == line_bytes(err_line(#[trigger] msgs@[j]@)),
        decreases msgs@.len() - i,
    {
        let line = format_err(msgs[i].as_str());
        r.push(string_bytes(&line));
        i += 1;
    }
    r
}

/// The bytes of each message formatted as a plain log line, in order.
pub fn format_log_many(msgs: &Vec<String>) -> (r: Vec<Vec<u8>>)
    ensures
        r@.len() == msgs@.len(),
        forall|i: int|
            0 <= i < msgs@.len() ==> r@[i]@ == line_bytes(log_line(#[trigger] msgs@[i]@)),
{
    let mut r: Vec<Vec<u8>> = Vec::new();
    let mut i: usize = 0;
    while i < msgs.len()
        invariant
            i <= msgs@.len(),
            r@.len() == i,
            forall|j: int| 0 <= j < i ==> r@[j]@ == line_bytes(log_line(#[trigger] msgs@[j]@)),
        decreases msgs@.len() - i,
    {
        let line = format_log(msgs[i].as_str());
        r.push(string_bytes(&line));
        i += 1;
    }
    r
}

} // verus!
