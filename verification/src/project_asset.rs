use vstd::prelude::*;
use crate::text::{
    eq_str, push_decimal, decimal, push_str, string_of, str_equal,
    chars_of, contains_char, find_char, first_index_of, has_char, lemma_first_char_window,
    matches_at, parse_u64, parse_u64_spec, trim, trim_bounds,
};

verus! {

/// Inclusive byte range chosen by an `offset` / `limit` query pair.
pub open spec fn spec_offset_limit_range(file_size: u64, offset: u64, limit: Option<u64>) -> Result<(u64, u64), ()> {
    let end_exclusive: int = match limit {
        Some(l) => if offset + l < file_size { offset + l } else { file_size as int },
        None => file_size as int,
    };
    if file_size == 0 || offset >= file_size || end_exclusive <= offset {
        Err(())
    } else {
        Ok((offset, (end_exclusive - 1) as u64))
    }
}

pub fn offset_limit_range(file_size: u64, offset: u64, limit: Option<u64>) -> (r: Result<(u64, u64), ()>)
    ensures
        r == spec_offset_limit_range(file_size, offset, limit),
        r matches Ok((s, e)) ==> s == offset && s <= e < file_size,
        r matches Ok((s, e)) ==> (limit matches Some(l) ==> e - s < l),
        r is Err <==> (file_size == 0 || offset >= file_size || limit == Some(0u64)),
{
    if file_size == 0 || offset >= file_size {
        return Err(());
    }
    let end_exclusive = match limit {
        Some(l) => {
            let s = offset.saturating_add(l);
            if s < file_size { s } else { file_size }
        },
        None => file_size,
    };
    if end_exclusive <= offset {
        return Err(());
    }
    Ok((offset, end_exclusive - 1))
}

pub open spec fn bytes_unit() -> Seq<char> {
    seq!['b', 'y', 't', 'e', 's', '=']
}

/// The inclusive range named by a `Range` header, once its two sides are split.
pub open spec fn range_from_sides(start_s: Seq<char>, end_s: Seq<char>, file_size: u64) -> Result<(u64, u64), ()> {
    if start_s.len() == 0 && end_s.len() == 0 {
        Err(())
    } else if start_s.len() == 0 {
        match parse_u64_spec(end_s) {
            None => Err(()),
            Some(suffix) => if suffix == 0 {
                Err(())
            } else {
                let take = if suffix < file_size { suffix } else { file_size };
                let start = (file_size - take) as u64;
                let end = (file_size - 1) as u64;
                if start > end || start >= file_size { Err(()) } else { Ok((start, end)) }
            },
        }
    } else {
        match parse_u64_spec(start_s) {
            None => Err(()),
            Some(start) => {
                let end_raw: Option<u64> = if end_s.len() == 0 { Some((file_size - 1) as u64) } else { parse_u64_spec(end_s) };
                match end_raw {
                    None => Err(()),
                    Some(e) => {
                        let end = if e < file_size - 1 { e } else { (file_size - 1) as u64 };
                        if start > end || start >= file_size { Err(()) } else { Ok((start, end)) }
                    },
                }
            },
        }
    }
}

/// A single-range `Range: bytes=...` header resolved against a file of `file_size` bytes.
pub open spec fn spec_parse_range_header(value: Seq<char>, file_size: u64) -> Result<(u64, u64), ()> {
    let t = trim(value);
    if !(t.len() >= 6 && t.take(6) == bytes_unit()) {
        Err(())
    } else {
        let ranges = t.skip(6);
        if has_char(ranges, ',') || file_size == 0 {
            Err(())
        } else {
            spec_range_spec_part(trim(ranges), file_size)
        }
    }
}

/// `start-end` after the unit prefix, split at the first `-`.
pub open spec fn spec_range_spec_part(r: Seq<char>, file_size: u64) -> Result<(u64, u64), ()> {
    match first_index_of(r, '-') {
        None => Err(()),
        Some(k) => range_from_sides(trim(r.take(k)), trim(r.skip(k + 1)), file_size),
    }
}

fn resolve_sides(v: &[char], a: usize, b: usize, c: usize, d: usize, file_size: u64) -> (r: Result<(u64, u64), ()>)
    requires
        a <= b <= v@.len(),
        c <= d <= v@.len(),
        file_size > 0,
    ensures
        r == range_from_sides(v@.subrange(a as int, b as int), v@.subrange(c as int, d as int), file_size),
{
    if a == b && c == d {
        return Err(());
    }
    let (start, end) = if a == b {
        let suffix = match parse_u64(v, c, d) {
            None => return Err(()),
            Some(x) => x,
        };
        if suffix == 0 {
            return Err(());
        }
        let take = if suffix < file_size { suffix } else { file_size };
        (file_size - take, file_size - 1)
    } else {
        let start = match parse_u64(v, a, b) {
            None => return Err(()),
            Some(x) => x,
        };
        let end = if c == d {
            file_size - 1
        } else {
            match parse_u64(v, c, d) {
                None => return Err(()),
                Some(x) => x,
            }
        };
        (start, if end < file_size - 1 { end } else { file_size - 1 })
    };
    if start > end || start >= file_size {
        return Err(());
    }
    Ok((start, end))
}

/// Resolves a `Range` header value to an inclusive byte range of a file;
/// only a single `bytes=` range is accepted.
pub fn parse_range_header(value: &str, file_size: u64) -> (r: Result<(u64, u64), ()>)
    ensures
        r == spec_parse_range_header(value@, file_size),
        r matches Ok((s, e)) ==> s <= e < file_size,
{
    let v = chars_of(value);
    let ghost vs = v@;
    let (t0, t1) = trim_bounds(v.as_slice(), 0, v.len());
    let ghost t = trim(vs);
    assert(vs.subrange(0, vs.len() as int) =~= vs);
    let prefix = ['b', 'y', 't', 'e', 's', '='];
    if t1 - t0 < 6 || !matches_at(v.as_slice(), prefix.as_slice(), t0) {
        proof {
            if t.len() >= 6 && t.take(6) == bytes_unit() {
                assert(prefix@ =~= bytes_unit());
                assert(vs.subrange(t0 as int, t0 + 6) =~= t.take(6));
            }
        }
        return Err(());
    }
    proof {
        assert(prefix@ =~= bytes_unit());
        assert(vs.subrange(t0 as int, t0 + 6) =~= t.take(6));
    }
    let r0 = t0 + 6;
    let ghost ranges = t.skip(6);
    assert(ranges =~= vs.subrange(r0 as int, t1 as int));
    if contains_char(v.as_slice(), ',', r0, t1) || file_size == 0 {
        return Err(());
    }
    range_spec_part(v.as_slice(), r0, t1, file_size)
}

fn range_spec_part(v: &[char], r0: usize, t1: usize, file_size: u64) -> (res: Result<(u64, u64), ()>)
    requires
        r0 <= t1 <= v@.len(),
        file_size > 0,
    ensures
        res == spec_range_spec_part(trim(v@.subrange(r0 as int, t1 as int)), file_size),
{
    let ghost vs = v@;
    let (u0, u1) = trim_bounds(v, r0, t1);
    let ghost r = trim(vs.subrange(r0 as int, t1 as int));
    assert(r =~= vs.subrange(u0 as int, u1 as int));
    proof {
        lemma_first_char_window(vs, '-', u0 as int, u0 as int, u1 as int);
    }
    match find_char(v, '-', u0, u1) {
        None => Err(()),
        Some(m) => {
            let ghost k = m - u0;
            let (a, b) = trim_bounds(v, u0, m);
            let (c, d) = trim_bounds(v, m + 1, u1);
            assert(r.take(k) =~= vs.subrange(u0 as int, m as int));
            assert(r.skip(k + 1) =~= vs.subrange(m + 1, u1 as int));
            resolve_sides(v, a, b, c, d, file_size)
        },
    }
}

/// Whether a browser may show a MIME type inline: images, text, audio, video,
/// and JavaScript, JSON, WebAssembly and XHTML applications.
pub open spec fn spec_mime_allows_inline(mime_type: Seq<char>, subtype: Seq<char>) -> bool {
    mime_type == "image"@ || mime_type == "text"@ || mime_type == "audio"@ || mime_type == "video"@
        || (mime_type == "application"@ && (subtype == "javascript"@ || subtype == "json"@
        || subtype == "wasm"@ || subtype == "xhtml+xml"@))
}

pub fn mime_allows_inline(mime_type: &str, subtype: &str) -> (b: bool)
    ensures
        b == spec_mime_allows_inline(mime_type@, subtype@),
{
    if str_equal(mime_type, "image") || str_equal(mime_type, "text") || str_equal(mime_type, "audio")
        || str_equal(mime_type, "video") {
        return true;
    }
    str_equal(mime_type, "application") && (str_equal(subtype, "javascript") || str_equal(subtype, "json")
        || str_equal(subtype, "wasm") || str_equal(subtype, "xhtml+xml"))
}

/// The MIME type and subtype that `mime_guess` assigns to a path's extension.
pub uninterp spec fn guessed_mime_type(path: Seq<char>) -> Seq<char>;

pub uninterp spec fn guessed_mime_subtype(path: Seq<char>) -> Seq<char>;

/// `mime_guess::from_path(path).first_or_octet_stream()` split into type and subtype.
#[verifier::external_body]
pub(crate) fn guess_mime(path: &str) -> (r: (String, String))
    ensures
        r.0@ == guessed_mime_type(path@),
        r.1@ == guessed_mime_subtype(path@),
{
    let mime = mime_guess::from_path(path).first_or_octet_stream();
    (mime.type_().as_str().to_string(), mime.subtype().as_str().to_string())
}

/// `bytes */<size>`: the `Content-Range` of a refused range.
pub open spec fn unsatisfied_range(file_size: u64) -> Seq<char> {
    "bytes */"@ + decimal(file_size as nat)
}

/// `bytes <start>-<end>/<size>`: the `Content-Range` of a partial response.
pub open spec fn partial_range(start: u64, end: u64, file_size: u64) -> Seq<char> {
    "bytes "@ + decimal(start as nat) + "-"@ + decimal(end as nat) + "/"@ + decimal(file_size as nat)
}

/// The `Content-Range` header value of a refused range.
pub fn range_not_satisfiable(file_size: u64) -> (r: String)
    ensures
        r@ == unsatisfied_range(file_size),
{
    let mut v: Vec<char> = Vec::new();
    push_str(&mut v, "bytes */");
    push_decimal(&mut v, file_size);
    string_of(v.as_slice())
}

fn partial_range_header(start: u64, end: u64, file_size: u64) -> (r: String)
    ensures
        r@ == partial_range(start, end, file_size),
{
    let mut v: Vec<char> = Vec::new();
    push_str(&mut v, "bytes ");
    push_decimal(&mut v, start);
    push_str(&mut v, "-");
    push_decimal(&mut v, end);
    push_str(&mut v, "/");
    push_decimal(&mut v, file_size);
    assert(v@ =~= partial_range(start, end, file_size));
    string_of(v.as_slice())
}

/// How a project asset is answered.
#[derive(Debug, Clone, PartialEq, Eq)]
pub enum ResponsePlan {
    /// 416, with the given `Content-Range`.
    RangeNotSatisfiable { content_range: String },
    /// 400: the `Range` header is not visible ASCII.
    InvalidRangeHeader,
    /// 200 or 206: `length` bytes from `offset`; `content_range` only for a
    /// partial answer; `attachment` unless the browser may show it inline.
    Stream { partial: bool, offset: u64, length: u64, content_range: Option<String>, attachment: bool },
}

/// The answer for an asset of `plaintext_len` bytes: an `offset`/`limit` query
/// takes precedence over a `Range` header (`Some(None)` is a header that is not
/// visible ASCII).
pub fn plan_response(
    plaintext_len: u64,
    query_range: Option<(u64, Option<u64>)>,
    range_header: Option<Option<&str>>,
    force_download: bool,
    mime_type: &str,
    mime_subtype: &str,
) -> (r: ResponsePlan)
    ensures
        ({
            let requested: Option<Result<(u64, u64), ()>> = match query_range {
                Some((o, l)) => Some(spec_offset_limit_range(plaintext_len, o, l)),
                None => match range_header {
                    Some(Some(h)) => Some(spec_parse_range_header(h@, plaintext_len)),
                    _ => None,
                },
            };
            let attachment = force_download || !spec_mime_allows_inline(mime_type@, mime_subtype@);
            if query_range is None && range_header matches Some(None) {
                r == ResponsePlan::InvalidRangeHeader
            } else {
                match requested {
                    Some(Err(())) => r matches ResponsePlan::RangeNotSatisfiable { content_range } && content_range@ == unsatisfied_range(plaintext_len),
                    Some(Ok((s, e))) => r matches ResponsePlan::Stream { partial, offset, length, content_range, attachment: a }
                        && partial && offset == s && length == e - s + 1 && a == attachment
                        && (content_range matches Some(cr) && cr@ == partial_range(s, e, plaintext_len)),
                    None => r matches ResponsePlan::Stream { partial, offset, length, content_range, attachment: a }
                        && !partial && offset == 0 && length == plaintext_len && a == attachment && content_range is None,
                }
            }
        }),
{
    let requested = match query_range {
        Some((o, l)) => Some(offset_limit_range(plaintext_len, o, l)),
        None => match range_header {
            Some(Some(h)) => Some(parse_range_header(h, plaintext_len)),
            Some(None) => return ResponsePlan::InvalidRangeHeader,
            None => None,
        },
    };
    let attachment = force_download || !mime_allows_inline(mime_type, mime_subtype);
    match requested {
        Some(Err(())) => ResponsePlan::RangeNotSatisfiable { content_range: range_not_satisfiable(plaintext_len) },
        Some(Ok((s, e))) => ResponsePlan::Stream {
            partial: true,
            offset: s,
            length: e - s + 1,
            content_range: Some(partial_range_header(s, e, plaintext_len)),
            attachment,
        },
        None => ResponsePlan::Stream { partial: false, offset: 0, length: plaintext_len, content_range: None, attachment },
    }
}

/// A project asset opened for reading: `reader` yields its plaintext, and the
/// path is kept only for naming and MIME metadata.
pub struct OpenedProjectAsset<R> {
    reader: R,
    plaintext_len: u64,
    logical_path: String,
}

impl<R> OpenedProjectAsset<R> {
    pub closed spec fn spec_len(&self) -> u64 {
        self.plaintext_len
    }

    pub closed spec fn spec_path(&self) -> Seq<char> {
        self.logical_path@
    }

    pub closed spec fn spec_reader(&self) -> R {
        self.reader
    }

    pub fn new(reader: R, plaintext_len: u64, logical_path: String) -> (a: Self)
        ensures
            a.spec_len() == plaintext_len,
            a.spec_path() == logical_path@,
            a.spec_reader() == reader,
    {
        OpenedProjectAsset { reader, plaintext_len, logical_path }
    }

    pub fn into_reader(self) -> (r: R)
        ensures
            r == self.spec_reader(),
    {
        self.reader
    }

    pub fn plaintext_len(&self) -> (n: u64)
        ensures
            n == self.spec_len(),
    {
        self.plaintext_len
    }

    pub fn logical_path(&self) -> (p: &str)
        ensures
            p@ == self.spec_path(),
    {
        self.logical_path.as_str()
    }

    /// Whether a bounded read must be refused before reading: the declared
    /// plaintext is longer than `max_bytes`.
    pub fn exceeds_read_limit(&self, max_bytes: usize) -> (b: bool)
        ensures
            b == (self.spec_len() > max_bytes),
    {
        self.plaintext_len > max_bytes as u64
    }

    /// The answer for this asset, its MIME type guessed from its path.
    pub fn response_plan(&self, query_range: Option<(u64, Option<u64>)>, range_header: Option<Option<&str>>, force_download: bool) -> (r: ResponsePlan)
        ensures
            ({
                let attachment = force_download || !spec_mime_allows_inline(guessed_mime_type(self.spec_path()), guessed_mime_subtype(self.spec_path()));
                match query_range {
                    Some((o, l)) => match spec_offset_limit_range(self.spec_len(), o, l) {
                        Err(()) => r matches ResponsePlan::RangeNotSatisfiable { content_range } && content_range@ == unsatisfied_range(self.spec_len()),
                        Ok((s, e)) => r matches ResponsePlan::Stream { partial, offset, length, content_range, attachment: a }
                            && partial && offset == s && length == e - s + 1 && a == attachment
                            && (content_range matches Some(cr) && cr@ == partial_range(s, e, self.spec_len())),
                    },
                    None => match range_header {
                        Some(None) => r == ResponsePlan::InvalidRangeHeader,
                        Some(Some(h)) => match spec_parse_range_header(h@, self.spec_len()) {
                            Err(()) => r matches ResponsePlan::RangeNotSatisfiable { content_range } && content_range@ == unsatisfied_range(self.spec_len()),
                            Ok((s, e)) => r matches ResponsePlan::Stream { partial, offset, length, content_range, attachment: a }
                                && partial && offset == s && length == e - s + 1 && a == attachment
                                && (content_range matches Some(cr) && cr@ == partial_range(s, e, self.spec_len())),
                        },
                        None => r matches ResponsePlan::Stream { partial, offset, length, content_range, attachment: a }
                            && !partial && offset == 0 && length == self.spec_len() && a == attachment && content_range is None,
                    },
                }
            }),
    {
        let (t, st) = guess_mime(self.logical_path.as_str());
        plan_response(self.plaintext_len, query_range, range_header, force_download, t.as_str(), st.as_str())
    }
}

} // verus!
