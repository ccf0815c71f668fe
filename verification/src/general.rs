//! Log access helpers: the tail window of a log file and secret redaction.
use vstd::prelude::*;
use crate::text::{chars_of, copy_range, find_str, first_occurrence, push_chars, push_str, string_of};

verus! {

/// Where reading the last `max_bytes` of a file of `len` bytes starts.
pub fn log_tail_start(len: u64, max_bytes: usize) -> (start: u64)
    ensures
        start == (if len > max_bytes { len - max_bytes } else { 0 }),
{
    if len > max_bytes as u64 {
        len - max_bytes as u64
    } else {
        0
    }
}

/// Characters that end a redacted secret: ASCII whitespace and `" ' & ; ,`.
pub open spec fn ends_secret(c: char) -> bool {
    c == ' ' || ('\t' <= c && c <= '\r') || c == '"' || c == '\'' || c == '&' || c == ';' || c == ','
}

/// A non-ASCII character one of whose UTF-8 continuation bytes is 0x85 or
/// 0xA0: read byte by byte, such a byte counts as whitespace and cuts the
/// character in two.
pub open spec fn splits_when_scanned(c: char) -> bool {
    let u = c as u32;
    let g0 = u % 64;
    let g1 = (u / 64) % 64;
    let g2 = (u / 4096) % 64;
    (u >= 0x80 && (g0 == 5 || g0 == 32))
        || (u >= 0x800 && (g1 == 5 || g1 == 32))
        || (u >= 0x10000 && (g2 == 5 || g2 == 32))
}

/// End of the secret that starts at `j`.
pub open spec fn secret_end(s: Seq<char>, j: int) -> int
    decreases s.len() - j,
{
    if j < 0 || j >= s.len() || ends_secret(s[j]) {
        j
    } else {
        secret_end(s, j + 1)
    }
}

/// Whether the secret from `j` holds no character that a byte scan would cut.
pub open spec fn secret_scannable(s: Seq<char>, j: int) -> bool
    decreases s.len() - j,
{
    if j < 0 || j >= s.len() || ends_secret(s[j]) {
        true
    } else {
        !splits_when_scanned(s[j]) && secret_scannable(s, j + 1)
    }
}

pub open spec fn redacted_word() -> Seq<char> {
    "[redacted]"@
}

/// `s[from..]` with every value that follows an occurrence of `marker`
/// replaced by `[redacted]`.
pub open spec fn redact_from(s: Seq<char>, marker: Seq<char>, from: int) -> Seq<char>
    decreases s.len() - from,
{
    if marker.len() == 0 || from < 0 || from > s.len() {
        Seq::empty()
    } else {
        match first_occurrence(s, marker, from) {
            None => s.skip(from),
            Some(start) => {
                let token_start = start + marker.len();
                if token_start <= from || token_start > s.len() {
                    Seq::empty()
                } else {
                    proof {
                        lemma_secret_end(s, token_start);
                    }
                    s.subrange(from, token_start) + redacted_word() + redact_from(s, marker, secret_end(s, token_start))
                }
            },
        }
    }
}

/// Whether every redacted value from `from` on can be scanned byte by byte.
pub open spec fn redaction_scannable(s: Seq<char>, marker: Seq<char>, from: int) -> bool
    decreases s.len() - from,
{
    if marker.len() == 0 || from < 0 || from > s.len() {
        true
    } else {
        match first_occurrence(s, marker, from) {
            None => true,
            Some(start) => {
                let token_start = start + marker.len();
                if token_start <= from || token_start > s.len() {
                    true
                } else {
                    proof {
                        lemma_secret_end(s, token_start);
                    }
                    secret_scannable(s, token_start) && redaction_scannable(s, marker, secret_end(s, token_start))
                }
            },
        }
    }
}

pub proof fn lemma_secret_end(s: Seq<char>, j: int)
    requires
        0 <= j <= s.len(),
    ensures
        j <= secret_end(s, j) <= s.len(),
    decreases s.len() - j,
{
    if j < s.len() && !ends_secret(s[j]) {
        lemma_secret_end(s, j + 1);
    }
}

/// What ends a secret in a log: ASCII whitespace (space, tab, line feed,
/// vertical tab, form feed, carriage return) and the characters `" ' & ; ,`.
pub open spec fn log_delimiter(c: char) -> bool {
    c == ' ' || c == '\t' || c == '\n' || c == '\u{0B}' || c == '\u{0C}' || c == '\r'
        || c == '"' || c == '\'' || c == '&' || c == ';' || c == ','
}

/// A secret runs from its start up to the first delimiter: no character it
/// covers is a delimiter (so it never crosses a space or a line break), and
/// it stops at a delimiter or at the end of the text.
pub proof fn secrets_stop_at_the_first_delimiter(s: Seq<char>, j: int)
    requires
        0 <= j <= s.len(),
    ensures
        j <= secret_end(s, j) <= s.len(),
        forall|k: int| j <= k < secret_end(s, j) ==> !log_delimiter(#[trigger] s[k]),
        secret_end(s, j) < s.len() ==> log_delimiter(s[secret_end(s, j)]),
    decreases s.len() - j,
{
    if j < s.len() && !ends_secret(s[j]) {
        secrets_stop_at_the_first_delimiter(s, j + 1);
    }
}

proof fn lemma_secret_run(s: Seq<char>, j: int, e: int)
    requires
        0 <= j <= e <= s.len(),
        forall|k: int| j <= k < e ==> !log_delimiter(#[trigger] s[k]),
        e == s.len() || log_delimiter(s[e]),
    ensures
        secret_end(s, j) == e,
    decreases e - j,
{
    if j < e {
        assert(!log_delimiter(s[j]));
        lemma_secret_run(s, j + 1, e);
    }
}

/// A text holding one occurrence of the marker, followed by a value that runs
/// up to a delimiter (or the end): the value alone is replaced by
/// `[redacted]`; the text before it, the delimiter and everything after it
/// (such as the next log line) are kept as they are.
pub proof fn only_the_value_after_a_marker_is_redacted(pre: Seq<char>, marker: Seq<char>, value: Seq<char>, rest: Seq<char>)
    requires
        marker.len() > 0,
        first_occurrence(pre + marker + value + rest, marker, 0) == Some(pre.len() as int),
        forall|k: int| 0 <= k < value.len() ==> !log_delimiter(#[trigger] value[k]),
        rest.len() == 0 || log_delimiter(rest[0]),
        first_occurrence(pre + marker + value + rest, marker, (pre.len() + marker.len() + value.len()) as int) is None,
    ensures
        redact_from(pre + marker + value + rest, marker, 0) == pre + marker + "[redacted]"@ + rest,
{
    let s = pre + marker + value + rest;
    let ts = (pre.len() + marker.len()) as int;
    let e = ts + value.len();
    assert forall|k: int| ts <= k < e implies !log_delimiter(#[trigger] s[k]) by {
        assert(s[k] == value[k - ts]);
    }
    if rest.len() > 0 {
        assert(s[e] == rest[0]);
    }
    lemma_secret_run(s, ts, e);
    lemma_secret_end(s, ts);
    assert(s.subrange(0, ts) =~= pre + marker);
    assert(s.skip(e) =~= rest);
    assert(redact_from(s, marker, e) == s.skip(e));
    assert(redact_from(s, marker, 0) == s.subrange(0, ts) + redacted_word() + redact_from(s, marker, secret_end(s, ts)));
}

fn scan_secret(s: &[char], j: usize) -> (e: usize)
    requires
        j <= s@.len(),
    ensures
        e as int == secret_end(s@, j as int),
        j <= e <= s@.len(),
    decreases s@.len() - j,
{
    if j >= s.len() {
        return j;
    }
    let c = s[j];
    if c == ' ' || ('\t' <= c && c <= '\r') || c == '"' || c == '\'' || c == '&' || c == ';' || c == ',' {
        j
    } else {
        scan_secret(s, j + 1)
    }
}

/// Replaces the value after each occurrence of `marker` with `[redacted]`.
pub fn redact_after_marker(input: &str, marker: &str) -> (r: String)
    requires
        marker@.len() > 0,
        redaction_scannable(input@, marker@, 0),
    ensures
        r@ == redact_from(input@, marker@, 0),
{
    let s = chars_of(input);
    let m = chars_of(marker);
    let mut out: Vec<char> = Vec::new();
    let mut idx: usize = 0;
    let ghost total = redact_from(s@, m@, 0);
    while idx <= s.len()
        invariant
            s@ == input@,
            m@ == marker@,
            m@.len() > 0,
            idx <= s@.len(),
            total == redact_from(s@, m@, 0),
            total == out@ + redact_from(s@, m@, idx as int),
        decreases s@.len() - idx,
    {
        match find_str(s.as_slice(), m.as_slice(), idx) {
            None => {
                let rest = copy_range(s.as_slice(), idx, s.len());
                push_chars(&mut out, rest.as_slice());
                assert(rest@ =~= s@.skip(idx as int));
                return string_of(out.as_slice());
            },
            Some(start) => {
                let token_start = start + m.len();
                let piece = copy_range(s.as_slice(), idx, token_start);
                push_chars(&mut out, piece.as_slice());
                push_str(&mut out, "[redacted]");
                let end = scan_secret(s.as_slice(), token_start);
                idx = end;
            },
        }
    }
    string_of(out.as_slice())
}


/// The markers after which log content is redacted, in the order applied.
pub open spec fn log_markers() -> Seq<Seq<char>> {
    seq!["Bearer "@, "access_token="@, "refresh_token="@, "api_key="@, "token="@, "password="@, "secret="@]
}

/// Log content after the first `k` markers have been applied.
pub open spec fn redact_markers(s: Seq<char>, k: nat) -> Seq<char>
    decreases k,
{
    if k == 0 {
        s
    } else {
        let prev = redact_markers(s, (k - 1) as nat);
        redact_from(prev, log_markers()[k - 1], 0)
    }
}

/// Whether every marker pass over the content can scan its values.
pub open spec fn log_redaction_scannable(s: Seq<char>) -> bool {
    forall|k: nat| k < 7 ==> #[trigger] redaction_scannable(redact_markers(s, k), log_markers()[k as int], 0)
}

/// Redacts bearer tokens, access and refresh tokens, API keys, tokens,
/// passwords and secrets from log content.
pub fn redact_log_content(content: &str) -> (r: String)
    requires
        log_redaction_scannable(content@),
    ensures
        r@ == redact_markers(content@, 7),
{
    proof {
        reveal_strlit("Bearer ");
        reveal_strlit("access_token=");
        reveal_strlit("refresh_token=");
        reveal_strlit("api_key=");
        reveal_strlit("token=");
        reveal_strlit("password=");
        reveal_strlit("secret=");
    }
    let mut redacted = string_of(chars_of(content).as_slice());
    assert(redacted@ == redact_markers(content@, 0));
    assert(redaction_scannable(redact_markers(content@, 0), log_markers()[0], 0));
    redacted = redact_after_marker(redacted.as_str(), "Bearer ");
    assert(redaction_scannable(redact_markers(content@, 1), log_markers()[1], 0));
    redacted = redact_after_marker(redacted.as_str(), "access_token=");
    assert(redaction_scannable(redact_markers(content@, 2), log_markers()[2], 0));
    redacted = redact_after_marker(redacted.as_str(), "refresh_token=");
    assert(redaction_scannable(redact_markers(content@, 3), log_markers()[3], 0));
    redacted = redact_after_marker(redacted.as_str(), "api_key=");
    assert(redaction_scannable(redact_markers(content@, 4), log_markers()[4], 0));
    redacted = redact_after_marker(redacted.as_str(), "token=");
    assert(redaction_scannable(redact_markers(content@, 5), log_markers()[5], 0));
    redacted = redact_after_marker(redacted.as_str(), "password=");
    assert(redaction_scannable(redact_markers(content@, 6), log_markers()[6], 0));
    redacted = redact_after_marker(redacted.as_str(), "secret=");
    redacted
}

fn splits_when_scanned_exec(c: char) -> (b: bool)
    ensures
        b == splits_when_scanned(c),
{
    let u = c as u32;
    let g0 = u % 64;
    let g1 = (u / 64) % 64;
    let g2 = (u / 4096) % 64;
    (u >= 0x80 && (g0 == 5 || g0 == 32))
        || (u >= 0x800 && (g1 == 5 || g1 == 32))
        || (u >= 0x10000 && (g2 == 5 || g2 == 32))
}

fn secret_scannable_exec(s: &[char], j: usize) -> (b: bool)
    requires
        j <= s@.len(),
    ensures
        b == secret_scannable(s@, j as int),
    decreases s@.len() - j,
{
    if j >= s.len() {
        return true;
    }
    let c = s[j];
    if c == ' ' || ('\t' <= c && c <= '\r') || c == '"' || c == '\'' || c == '&' || c == ';' || c == ',' {
        true
    } else if splits_when_scanned_exec(c) {
        false
    } else {
        secret_scannable_exec(s, j + 1)
    }
}

/// Whether every value that follows `marker` in `input` can be scanned byte
/// by byte without cutting a character.
fn redaction_scannable_exec(input: &str, marker: &str) -> (b: bool)
    requires
        marker@.len() > 0,
    ensures
        b == redaction_scannable(input@, marker@, 0),
{
    let s = chars_of(input);
    let m = chars_of(marker);
    let mut idx: usize = 0;
    while idx <= s.len()
        invariant
            s@ == input@,
            m@ == marker@,
            m@.len() > 0,
            idx <= s@.len(),
            redaction_scannable(s@, m@, 0) == redaction_scannable(s@, m@, idx as int),
        decreases s@.len() - idx,
    {
        match find_str(s.as_slice(), m.as_slice(), idx) {
            None => return true,
            Some(start) => {
                let token_start = start + m.len();
                if !secret_scannable_exec(s.as_slice(), token_start) {
                    return false;
                }
                idx = scan_secret(s.as_slice(), token_start);
            },
        }
    }
    true
}

/// Log redaction that refuses, with `None`, content in which a redacted value
/// would be cut inside a character; otherwise the same redaction as
/// `redact_log_content`.
pub fn redact_log_content_checked(content: &str) -> (r: Option<String>)
    ensures
        r is Some <==> log_redaction_scannable(content@),
        r matches Some(t) ==> t@ == redact_markers(content@, 7),
{
    proof {
        reveal_strlit("Bearer ");
        reveal_strlit("access_token=");
        reveal_strlit("refresh_token=");
        reveal_strlit("api_key=");
        reveal_strlit("token=");
        reveal_strlit("password=");
        reveal_strlit("secret=");
    }
    let markers = ["Bearer ", "access_token=", "refresh_token=", "api_key=", "token=", "password=", "secret="];
    assert(markers@.map_values(|m: &str| m@) =~= log_markers());
    assert(forall|t: int| 0 <= t < 7 ==> (#[trigger] log_markers()[t]).len() > 0);
    let mut redacted = string_of(chars_of(content).as_slice());
    let mut k: usize = 0;
    while k < 7
        invariant
            k <= 7,
            markers@.map_values(|m: &str| m@) == log_markers(),
            forall|t: int| 0 <= t < 7 ==> (#[trigger] log_markers()[t]).len() > 0,
            redacted@ == redact_markers(content@, k as nat),
            forall|t: nat| t < k ==> #[trigger] redaction_scannable(redact_markers(content@, t), log_markers()[t as int], 0),
        decreases 7 - k,
    {
        let marker = markers[k];
        assert(marker@ == log_markers()[k as int]);
        if !redaction_scannable_exec(redacted.as_str(), marker) {
            assert(!redaction_scannable(redact_markers(content@, k as nat), log_markers()[k as int], 0));
            return None;
        }
        redacted = redact_after_marker(redacted.as_str(), marker);
        k = k + 1;
    }
    Some(redacted)
}

} // verus!
