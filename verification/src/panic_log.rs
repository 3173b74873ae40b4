//! Panic and crash report text: the panic report, the single-line log-directory footer, and
//! the message logged for a caught panic payload.

use vstd::prelude::*;
use vstd::utf8::{encode_scalar, encode_utf8};

use crate::text::push_char;

verus! {

/// Prefix of the final report line that points users to the collected logs.
pub const LOG_DIRECTORY_FOOTER_PREFIX: &'static str = "Log directory: ";

/// The footer replaces carriage returns and line feeds by spaces.
pub open spec fn footer_char(c: char) -> char {
    if c == '\r' || c == '\n' {
        ' '
    } else {
        c
    }
}

/// A displayed path turned into one physical line.
pub open spec fn sanitized_path(path: Seq<char>) -> Seq<char> {
    path.map_values(|c: char| footer_char(c))
}

/// Characters of [`LOG_DIRECTORY_FOOTER_PREFIX`].
pub open spec fn footer_prefix() -> Seq<char> {
    seq!['L', 'o', 'g', ' ', 'd', 'i', 'r', 'e', 'c', 't', 'o', 'r', 'y', ':', ' ']
}

/// The footer line for a logs root: prefix, sanitized path, line feed.
pub open spec fn footer_text(logs_root: Seq<char>) -> Seq<char> {
    footer_prefix() + sanitized_path(logs_root) + seq!['\n']
}

/// Converts a displayed path into one physical line for panic and crash footers.
pub fn sanitize_footer_path(path: &str) -> (r: String)
    ensures
        r@ == sanitized_path(path@),
{
    let mut out = String::new();
    let ghost all = path@;
    for c in it: path.chars()
        invariant
            it.seq() == all,
            out@ == sanitized_path(all.take(it.index() as int)),
    {
        let d = if c == '\r' || c == '\n' { ' ' } else { c };
        proof {
            assert(all.take(it.index() + 1) =~= all.take(it.index() as int).push(c));
        }
        push_char(&mut out, d);
    }
    proof {
        assert(all.take(all.len() as int) =~= all);
    }
    out
}

/// Formats the final single-line log-directory footer for panic and crash reports.
///
/// Line feeds and carriage returns in the displayed path become spaces, so the footer is one
/// physical line that can follow backtraces or native crash reports.
pub fn log_directory_footer(logs_root: &str) -> (r: String)
    ensures
        r@ == footer_text(logs_root@),
{
    let mut r = LOG_DIRECTORY_FOOTER_PREFIX.to_owned();
    proof {
        reveal_strlit("Log directory: ");
        assert(r@ =~= footer_prefix());
    }
    let path = sanitize_footer_path(logs_root);
    r.append(path.as_str());
    r.append("\n");
    proof {
        reveal_strlit("\n");
    }
    r
}

/// Appends the final log-directory footer to an existing panic or crash report.
pub fn append_log_directory_footer(report: &mut String, logs_root: &str)
    ensures
        final(report)@ == old(report)@ + footer_text(logs_root@),
{
    let footer = log_directory_footer(logs_root);
    report.append(footer.as_str());
}

/// Text of a panic report: the panic line, the backtrace header, the backtrace, a line feed.
pub open spec fn panic_report_text(info: Seq<char>, backtrace: Seq<char>) -> Seq<char> {
    seq!['P', 'A', 'N', 'I', 'C', ':', ' '] + info + seq!['\n'] + seq![
        'B',
        'a',
        'c',
        'k',
        't',
        'r',
        'a',
        'c',
        'e',
        ':',
        '\n',
    ] + backtrace + seq!['\n']
}

/// Formats a panic line and the captured backtrace for logging and terminal output.
///
/// `info` is the displayed panic information and `backtrace` the pretty-printed backtrace that
/// the caller captured.
pub fn panic_report(info: &str, backtrace: &str) -> (r: String)
    ensures
        r@ == panic_report_text(info@, backtrace@),
{
    let mut r = "PANIC: ".to_owned();
    r.append(info);
    r.append("\nBacktrace:\n");
    r.append(backtrace);
    r.append("\n");
    proof {
        reveal_strlit("PANIC: ");
        reveal_strlit("\nBacktrace:\n");
        reveal_strlit("\n");
        assert(r@ =~= panic_report_text(info@, backtrace@));
    }
    r
}

/// Builds the full report that a panic handler appends to the log file: the panic report
/// followed by the log-directory footer as the final line.
pub fn log_panic(info: &str, backtrace: &str, logs_root: &str) -> (r: String)
    ensures
        r@ == panic_report_text(info@, backtrace@) + footer_text(logs_root@),
{
    let mut report = panic_report(info, backtrace);
    append_log_directory_footer(&mut report, logs_root);
    report
}

/// What a caught panic payload holds, as far as the log message depends on it: the text of a
/// `String` or `&'static str` payload, or any other payload type.
pub enum PanicPayload {
    /// The payload was a `String` or a `&'static str`.
    Text(String),
    /// The payload had another type.
    Other,
}

/// Message logged for a payload that holds no text.
pub open spec fn non_string_payload_text() -> Seq<char> {
    seq![
        'p', 'a', 'n', 'i', 'c', ' ', '(', 'p', 'a', 'y', 'l', 'o', 'a', 'd', ' ', 't', 'y', 'p',
        'e', ' ', 'n', 'o', 't', ' ', 's', 't', 'r', 'i', 'n', 'g', ')',
    ]
}

/// The error line logged for a payload caught under `context`.
pub open spec fn panic_payload_line(payload: PanicPayload, context: Seq<char>) -> Seq<char> {
    context + seq![':', ' '] + match payload {
        PanicPayload::Text(s) => s@,
        PanicPayload::Other => non_string_payload_text(),
    }
}

/// Builds the error line for a payload from `catch_unwind`: `"{context}: {text}"`, or a generic
/// message when the payload holds no text. The caller hands the line to the logger.
pub fn log_panic_payload(payload: PanicPayload, context: &str) -> (r: String)
    ensures
        r@ == panic_payload_line(payload, context@),
{
    let mut r = context.to_owned();
    r.append(": ");
    proof {
        reveal_strlit(": ");
    }
    match payload {
        PanicPayload::Text(text) => {
            r.append(text.as_str());
        },
        PanicPayload::Other => {
            r.append("panic (payload type not string)");
            proof {
                reveal_strlit("panic (payload type not string)");
                assert("panic (payload type not string)"@ =~= non_string_payload_text());
            }
        },
    }
    r
}

/// Prepares the log-directory footer as bytes for a crash handler, which may run where no
/// allocation is allowed: the UTF-8 encoding of the footer line.
pub fn log_directory_footer_bytes(logs_root: &str) -> (r: Vec<u8>)
    ensures
        r@ == encode_utf8(footer_text(logs_root@)),
{
    let footer = log_directory_footer(logs_root);
    footer.as_str().as_bytes_vec()
}

/// The footer is one physical line: it starts with [`LOG_DIRECTORY_FOOTER_PREFIX`], ends with
/// its only line feed, and holds no carriage return.
pub proof fn lemma_footer_is_single_line(logs_root: Seq<char>)
    ensures
        footer_text(logs_root).len() == footer_prefix().len() + logs_root.len() + 1,
        footer_text(logs_root).take(footer_prefix().len() as int) == footer_prefix(),
        footer_text(logs_root).last() == '\n',
        forall|i: int|
            0 <= i < footer_text(logs_root).len() - 1 ==> #[trigger] footer_text(logs_root)[i]
                != '\n' && footer_text(logs_root)[i] != '\r',
{
    let f = footer_text(logs_root);
    let p = footer_prefix();
    assert(f.take(p.len() as int) =~= p);
    assert forall|i: int| 0 <= i < f.len() - 1 implies #[trigger] f[i] != '\n' && f[i] != '\r' by {
        if i >= p.len() {
            assert(f[i] == footer_char(logs_root[i - p.len()]));
        }
    }
}

/// A panic log entry ends with the footer as its own final line: the character before the
/// footer is a line feed and the footer fills the rest of the entry.
pub proof fn lemma_log_panic_footer_is_last_line(
    info: Seq<char>,
    backtrace: Seq<char>,
    logs_root: Seq<char>,
)
    ensures
        ({
            let r = panic_report_text(info, backtrace) + footer_text(logs_root);
            let start = r.len() - footer_text(logs_root).len();
            &&& start > 0
            &&& r[start - 1] == '\n'
            &&& r.skip(start) == footer_text(logs_root)
            &&& r.last() == '\n'
            &&& forall|i: int| start <= i < r.len() - 1 ==> #[trigger] r[i] != '\n'
        }),
{
    let report = panic_report_text(info, backtrace);
    let f = footer_text(logs_root);
    let r = report + f;
    lemma_footer_is_single_line(logs_root);
    assert(r.skip(report.len() as int) =~= f);
    assert(report[report.len() - 1] == '\n');
    assert forall|i: int| report.len() <= i < r.len() - 1 implies #[trigger] r[i] != '\n' by {
        assert(r[i] == f[i - report.len()]);
    }
}

/// Encoding a concatenation encodes each part.
pub proof fn lemma_encode_utf8_concat(a: Seq<char>, b: Seq<char>)
    ensures
        encode_utf8(a + b) == encode_utf8(a) + encode_utf8(b),
    decreases a.len(),
{
    if a.len() == 0 {
        assert(a + b =~= b);
    } else {
        assert((a + b).drop_first() =~= a.drop_first() + b);
        lemma_encode_utf8_concat(a.drop_first(), b);
    }
}

proof fn lemma_scalar_bytes_not_line_feed(c: char)
    requires
        c != '\n',
    ensures
        forall|j: int| 0 <= j < encode_scalar(c as u32).len() ==> #[trigger] encode_scalar(c as u32)[j] != 10u8,
{
    let v = c as u32;
    assert(c as u32 != 10u32);
    assert(v <= 0x7F ==> (v & 0x7F) as u8 != 10u8) by (bit_vector)
        requires
            v != 10u32,
    ;
    assert(forall|x: u32| #![auto] (0xC0u8 | ((x >> 6u32) & 0x1Fu32) as u8) != 10u8) by (bit_vector);
    assert(forall|x: u32| #![auto] (0xE0u8 | ((x >> 12u32) & 0x0Fu32) as u8) != 10u8) by (bit_vector);
    assert(forall|x: u32| #![auto] (0xF0u8 | ((x >> 18u32) & 0x7u32) as u8) != 10u8) by (bit_vector);
    assert(forall|x: u32| #![auto] (0x80u8 | (x & 0x3Fu32) as u8) != 10u8) by (bit_vector);
    assert(forall|x: u32| #![auto] (0x80u8 | ((x >> 6u32) & 0x3Fu32) as u8) != 10u8) by (bit_vector);
    assert(forall|x: u32| #![auto] (0x80u8 | ((x >> 12u32) & 0x3Fu32) as u8) != 10u8) by (bit_vector);
}

/// A text without line feeds encodes to bytes without the line-feed byte.
pub proof fn lemma_encode_utf8_no_line_feed(s: Seq<char>)
    requires
        forall|i: int| 0 <= i < s.len() ==> #[trigger] s[i] != '\n',
    ensures
        forall|j: int| 0 <= j < encode_utf8(s).len() ==> #[trigger] encode_utf8(s)[j] != 10u8,
    decreases s.len(),
{
    if s.len() > 0 {
        lemma_scalar_bytes_not_line_feed(s[0]);
        lemma_encode_utf8_no_line_feed(s.drop_first());
        let head = encode_scalar(s[0] as u32);
        let tail = encode_utf8(s.drop_first());
        assert forall|j: int| 0 <= j < encode_utf8(s).len() implies #[trigger] encode_utf8(s)[j] != 10u8 by {
            if j < head.len() {
                assert(encode_utf8(s)[j] == head[j]);
            } else {
                assert(encode_utf8(s)[j] == tail[j - head.len()]);
            }
        }
    }
}

/// The footer bytes for a crash handler are one line: the line-feed byte ends them and occurs
/// nowhere else.
pub proof fn lemma_footer_bytes_are_single_line(logs_root: Seq<char>)
    ensures
        ({
            let b = encode_utf8(footer_text(logs_root));
            &&& b.len() > 0
            &&& b.last() == 10u8
            &&& forall|j: int| 0 <= j < b.len() - 1 ==> #[trigger] b[j] != 10u8
        }),
{
    let body = footer_prefix() + sanitized_path(logs_root);
    lemma_footer_is_single_line(logs_root);
    assert(footer_text(logs_root) =~= body + seq!['\n']);
    assert forall|i: int| 0 <= i < body.len() implies #[trigger] body[i] != '\n' by {
        assert(body[i] == footer_text(logs_root)[i]);
    }
    lemma_encode_utf8_concat(body, seq!['\n']);
    lemma_encode_utf8_no_line_feed(body);
    let nl = seq!['\n'];
    assert(nl.drop_first() =~= Seq::<char>::empty());
    assert(encode_utf8(nl) =~= seq![10u8]) by {
        assert(encode_utf8(nl.drop_first()) =~= Seq::<u8>::empty());
        assert('\n' as u32 == 10u32);
        assert((10u32 & 0x7Fu32) as u8 == 10u8) by (bit_vector);
    }
    let b = encode_utf8(footer_text(logs_root));
    let eb = encode_utf8(body);
    assert forall|j: int| 0 <= j < b.len() - 1 implies #[trigger] b[j] != 10u8 by {
        assert(b[j] == eb[j]);
    }
}

} // verus!
