//! Share links: range requests on shared assets, link URLs, asset routing and
//! the share card's HTML escaping.
use vstd::prelude::*;
use crate::text::{
    chars_of, copy_range, decimal, find_char, first_index_of, join_path, lemma_first_char_window, parse_u64, path_join, str_equal,
    parse_u64_spec, push_chars, push_decimal, push_str, starts_with, string_of, trim, trim_bounds,
    trim_start_all, trim_start_matches_from, window_starts_with,
};

verus! {

pub open spec fn bytes_unit() -> Seq<char> {
    seq!['b', 'y', 't', 'e', 's', '=']
}

pub open spec fn sat_sub(a: u64, b: u64) -> u64 {
    if a >= b { (a - b) as u64 } else { 0 }
}

/// The two sides of the first range, resolved against the file size.
pub open spec fn share_range_from_sides(start_s: Seq<char>, end_s: Seq<char>, file_size: u64) -> Result<(u64, u64), ()> {
    if start_s.len() == 0 && end_s.len() == 0 {
        Err(())
    } else {
        let parsed: Option<(u64, u64)> = if start_s.len() == 0 {
            match parse_u64_spec(end_s) {
                None => None,
                Some(suffix) => if suffix == 0 { None } else { Some((sat_sub(file_size, suffix), sat_sub(file_size, 1))) },
            }
        } else {
            match parse_u64_spec(start_s) {
                None => None,
                Some(start) => if end_s.len() == 0 {
                    Some((start, sat_sub(file_size, 1)))
                } else {
                    match parse_u64_spec(end_s) {
                        None => None,
                        Some(end) => Some((start, end)),
                    }
                },
            }
        };
        match parsed {
            None => Err(()),
            Some((start, end)) => if start > end || start >= file_size {
                Err(())
            } else {
                Ok((start, if end < sat_sub(file_size, 1) { end } else { sat_sub(file_size, 1) }))
            },
        }
    }
}

/// A share `Range` header: after `bytes=` (repeated prefixes dropped) only the
/// first comma-separated range counts, split at its first `-`.
pub open spec fn spec_share_range(value: Seq<char>, file_size: u64) -> Result<(u64, u64), ()> {
    let t = trim(value);
    if !starts_with(t, bytes_unit()) {
        Err(())
    } else {
        let ranges = trim_start_all(t, bytes_unit());
        let first = match first_index_of(ranges, ',') {
            Some(k) => trim(ranges.take(k)),
            None => trim(ranges),
        };
        match first_index_of(first, '-') {
            Some(k) => share_range_from_sides(trim(first.take(k)), trim(first.skip(k + 1)), file_size),
            None => share_range_from_sides(trim(first), Seq::empty(), file_size),
        }
    }
}

fn share_sides(v: &[char], a: usize, b: usize, c: usize, d: usize, file_size: u64) -> (r: Result<(u64, u64), ()>)
    requires
        a <= b <= v@.len(),
        c <= d <= v@.len(),
    ensures
        r == share_range_from_sides(v@.subrange(a as int, b as int), v@.subrange(c as int, d as int), file_size),
{
    if a == b && c == d {
        return Err(());
    }
    let last = if file_size >= 1 { file_size - 1 } else { 0 };
    let (start, end) = if a == b {
        let suffix = match parse_u64(v, c, d) {
            None => return Err(()),
            Some(x) => x,
        };
        if suffix == 0 {
            return Err(());
        }
        (if file_size >= suffix { file_size - suffix } else { 0 }, last)
    } else {
        let start = match parse_u64(v, a, b) {
            None => return Err(()),
            Some(x) => x,
        };
        if c == d {
            (start, last)
        } else {
            match parse_u64(v, c, d) {
                None => return Err(()),
                Some(x) => (start, x),
            }
        }
    };
    if start > end || start >= file_size {
        return Err(());
    }
    Ok((start, if end < last { end } else { last }))
}

/// Resolves a share `Range` header to an inclusive byte range.
pub fn parse_range_header(value: &str, file_size: u64) -> (r: Result<(u64, u64), ()>)
    ensures
        r == spec_share_range(value@, file_size),
        r matches Ok((s, e)) ==> s <= e < file_size,
{
    let v = chars_of(value);
    let ghost vs = v@;
    assert(vs.subrange(0, vs.len() as int) =~= vs);
    let (t0, t1) = trim_bounds(v.as_slice(), 0, v.len());
    let unit = ['b', 'y', 't', 'e', 's', '='];
    assert(unit@ =~= bytes_unit());
    if !window_starts_with(v.as_slice(), t0, t1, unit.as_slice()) {
        return Err(());
    }
    let r0 = trim_start_matches_from(v.as_slice(), unit.as_slice(), t0, t1);
    let ghost ranges = vs.subrange(r0 as int, t1 as int);
    proof {
        lemma_first_char_window(vs, ',', r0 as int, r0 as int, t1 as int);
    }
    let comma = find_char(v.as_slice(), ',', r0, t1);
    let seg_end = match comma {
        Some(k) => k,
        None => t1,
    };
    assert(ranges.take(seg_end - r0) =~= vs.subrange(r0 as int, seg_end as int));
    let (f0, f1) = trim_bounds(v.as_slice(), r0, seg_end);
    let ghost first = vs.subrange(f0 as int, f1 as int);
    proof {
        lemma_first_char_window(vs, '-', f0 as int, f0 as int, f1 as int);
    }
    match find_char(v.as_slice(), '-', f0, f1) {
        Some(m) => {
            let (a, b) = trim_bounds(v.as_slice(), f0, m);
            let (c, d) = trim_bounds(v.as_slice(), m + 1, f1);
            assert(first.take(m - f0) =~= vs.subrange(f0 as int, m as int));
            assert(first.skip(m - f0 + 1) =~= vs.subrange(m + 1, f1 as int));
            share_sides(v.as_slice(), a, b, c, d, file_size)
        },
        None => {
            let (a, b) = trim_bounds(v.as_slice(), f0, f1);
            assert(vs.subrange(a as int, b as int) == trim(first));
            assert(vs.subrange(0, 0) =~= Seq::<char>::empty());
            share_sides(v.as_slice(), a, b, 0, 0, file_size)
        },
    }
}

/// The HTML entity (or the character itself) that escapes `c`.
pub open spec fn html_escape_char(c: char) -> Seq<char> {
    if c == '&' {
        "&amp;"@
    } else if c == '<' {
        "&lt;"@
    } else if c == '>' {
        "&gt;"@
    } else if c == '"' {
        "&quot;"@
    } else if c == '\'' {
        "&#39;"@
    } else {
        seq![c]
    }
}

pub open spec fn html_escaped(s: Seq<char>) -> Seq<char>
    decreases s.len(),
{
    if s.len() == 0 {
        Seq::empty()
    } else {
        html_escaped(s.drop_last()) + html_escape_char(s.last())
    }
}

/// Escapes `& < > " '` for HTML text and attribute values.
pub fn escape_html(value: &str) -> (r: String)
    ensures
        r@ == html_escaped(value@),
{
    let v = chars_of(value);
    let mut out: Vec<char> = Vec::new();
    let mut i: usize = 0;
    while i < v.len()
        invariant
            i <= v@.len(),
            v@ == value@,
            out@ == html_escaped(v@.take(i as int)),
        decreases v@.len() - i,
    {
        let c = v[i];
        if c == '&' {
            push_str(&mut out, "&amp;");
        } else if c == '<' {
            push_str(&mut out, "&lt;");
        } else if c == '>' {
            push_str(&mut out, "&gt;");
        } else if c == '"' {
            push_str(&mut out, "&quot;");
        } else if c == '\'' {
            push_str(&mut out, "&#39;");
        } else {
            out.push(c);
        }
        assert(v@.take(i + 1).drop_last() =~= v@.take(i as int));
        i = i + 1;
    }
    assert(v@.take(v@.len() as int) =~= v@);
    string_of(out.as_slice())
}

/// No character that HTML treats as markup survives escaping.
pub proof fn escaped_html_has_no_markup(s: Seq<char>)
    ensures
        forall|i: int| 0 <= i < html_escaped(s).len() ==> {
            let c = #[trigger] html_escaped(s)[i];
            c != '<' && c != '>' && c != '"' && c != '\''
        },
    decreases s.len(),
{
    reveal_strlit("&amp;");
    reveal_strlit("&lt;");
    reveal_strlit("&gt;");
    reveal_strlit("&quot;");
    reveal_strlit("&#39;");
    if s.len() > 0 {
        escaped_html_has_no_markup(s.drop_last());
        let a = html_escaped(s.drop_last());
        let b = html_escape_char(s.last());
        assert forall|i: int| 0 <= i < html_escaped(s).len() implies {
            let c = #[trigger] html_escaped(s)[i];
            c != '<' && c != '>' && c != '"' && c != '\''
        } by {
            if i < a.len() {
                assert(html_escaped(s)[i] == a[i]);
            } else {
                assert(html_escaped(s)[i] == b[i - a.len()]);
            }
        }
    }
}

/// The base URL that links are built on: the configured public URL, else the
/// request's scheme and host.
pub open spec fn spec_public_base(configured: Option<Seq<char>>, scheme: Seq<char>, host: Seq<char>) -> Seq<char> {
    match configured {
        Some(b) => b,
        None => scheme + "://"@ + host,
    }
}

fn public_base(configured: Option<&str>, scheme: &str, host: &str) -> (r: Vec<char>)
    ensures
        r@ == spec_public_base(match configured { Some(c) => Some(c@), None => None }, scheme@, host@),
{
    match configured {
        Some(b) => chars_of(b),
        None => {
            let mut v = chars_of(scheme);
            push_str(&mut v, "://");
            push_str(&mut v, host);
            v
        },
    }
}

pub open spec fn opt_view(o: Option<&str>) -> Option<Seq<char>> {
    match o {
        Some(c) => Some(c@),
        None => None,
    }
}

/// The asset, download and viewer URLs of a share token; the viewer lives on
/// the frontend, which defaults to the public base.
pub fn share_urls(public_base_url: Option<&str>, frontend_base_url: Option<&str>, scheme: &str, host: &str, token: &str) -> (r: (String, String, String))
    ensures
        ({
            let base = spec_public_base(opt_view(public_base_url), scheme@, host@);
            let front = match frontend_base_url { Some(f) => f@, None => base };
            &&& r.0@ == base + "/api/share/"@ + token@ + "/asset"@
            &&& r.1@ == base + "/api/share/"@ + token@ + "/asset?download=true"@
            &&& r.2@ == front + "/share/"@ + token@
        }),
{
    let base = public_base(public_base_url, scheme, host);
    let front = match frontend_base_url {
        Some(f) => chars_of(f),
        None => copy_range(base.as_slice(), 0, base.len()),
    };
    assert(base@.subrange(0, base@.len() as int) =~= base@);
    let mut asset: Vec<char> = Vec::new();
    push_chars(&mut asset, base.as_slice());
    push_str(&mut asset, "/api/share/");
    push_str(&mut asset, token);
    push_str(&mut asset, "/asset");
    let mut download: Vec<char> = Vec::new();
    push_chars(&mut download, base.as_slice());
    push_str(&mut download, "/api/share/");
    push_str(&mut download, token);
    push_str(&mut download, "/asset?download=true");
    let mut viewer: Vec<char> = Vec::new();
    push_chars(&mut viewer, front.as_slice());
    push_str(&mut viewer, "/share/");
    push_str(&mut viewer, token);
    (string_of(asset.as_slice()), string_of(download.as_slice()), string_of(viewer.as_slice()))
}

/// `<public base>/share/<token>/card`.
pub fn share_card_url(public_base_url: Option<&str>, scheme: &str, host: &str, token: &str) -> (r: String)
    ensures
        r@ == spec_public_base(opt_view(public_base_url), scheme@, host@) + "/share/"@ + token@ + "/card"@,
{
    let mut v = public_base(public_base_url, scheme, host);
    push_str(&mut v, "/share/");
    push_str(&mut v, token);
    push_str(&mut v, "/card");
    string_of(v.as_slice())
}

/// `<public base>/s/<code>`.
pub fn share_short_url(public_base_url: Option<&str>, scheme: &str, host: &str, code: &str) -> (r: String)
    ensures
        r@ == spec_public_base(opt_view(public_base_url), scheme@, host@) + "/s/"@ + code@,
{
    let mut v = public_base(public_base_url, scheme, host);
    push_str(&mut v, "/s/");
    push_str(&mut v, code);
    string_of(v.as_slice())
}

/// The project directory a shared asset lives in.
#[derive(Debug, Clone, Copy, PartialEq, Eq, Structural)]
pub enum ShareRoot {
    Output,
    Processed,
}

/// The directory and relative path of a shared asset: leading `/` are dropped,
/// then the path must begin with `output/` or `processed/`.
pub fn split_share_asset_path(asset_path: &str) -> (r: Option<(ShareRoot, String)>)
    ensures
        ({
            let n = trim_start_all(asset_path@, seq!['/']);
            match r {
                Some((ShareRoot::Output, rest)) => starts_with(n, "output/"@) && rest@ == n.skip(7),
                Some((ShareRoot::Processed, rest)) => !starts_with(n, "output/"@) && starts_with(n, "processed/"@) && rest@ == n.skip(10),
                None => !starts_with(n, "output/"@) && !starts_with(n, "processed/"@),
            }
        }),
{
    proof {
        reveal_strlit("output/");
        reveal_strlit("processed/");
    }
    let v = chars_of(asset_path);
    assert(v@.subrange(0, v@.len() as int) =~= v@);
    let slash = ['/'];
    assert(slash@ =~= seq!['/']);
    let n0 = trim_start_matches_from(v.as_slice(), slash.as_slice(), 0, v.len());
    let out = chars_of("output/");
    let processed = chars_of("processed/");
    if window_starts_with(v.as_slice(), n0, v.len(), out.as_slice()) {
        let rest = copy_range(v.as_slice(), n0 + 7, v.len());
        assert(rest@ =~= v@.subrange(n0 as int, v@.len() as int).skip(7));
        return Some((ShareRoot::Output, string_of(rest.as_slice())));
    }
    if window_starts_with(v.as_slice(), n0, v.len(), processed.as_slice()) {
        let rest = copy_range(v.as_slice(), n0 + 10, v.len());
        assert(rest@ =~= v@.subrange(n0 as int, v@.len() as int).skip(10));
        return Some((ShareRoot::Processed, string_of(rest.as_slice())));
    }
    None
}

/// The file names tried for level `lod` of an asset with the given stem and
/// extension: `<stem>.lod<n>.<ext>` then `<stem>_lod<n>.<ext>` (no `.<ext>`
/// when the extension is empty).
pub fn lod_candidates(stem: &str, ext: &str, lod: u8) -> (r: Vec<String>)
    ensures
        r@.len() == 2,
        ext@.len() == 0 ==> r@[0]@ == stem@ + ".lod"@ + decimal(lod as nat) && r@[1]@ == stem@ + "_lod"@ + decimal(lod as nat),
        ext@.len() > 0 ==> r@[0]@ == stem@ + ".lod"@ + decimal(lod as nat) + "."@ + ext@
            && r@[1]@ == stem@ + "_lod"@ + decimal(lod as nat) + "."@ + ext@,
{
    let e = chars_of(ext);
    let mut a = chars_of(stem);
    push_str(&mut a, ".lod");
    push_decimal(&mut a, lod as u64);
    let mut b = chars_of(stem);
    push_str(&mut b, "_lod");
    push_decimal(&mut b, lod as u64);
    if e.len() > 0 {
        push_str(&mut a, ".");
        push_chars(&mut a, e.as_slice());
        push_str(&mut b, ".");
        push_chars(&mut b, e.as_slice());
    }
    let mut r: Vec<String> = Vec::new();
    r.push(string_of(a.as_slice()));
    r.push(string_of(b.as_slice()));
    r
}

/// The levels of detail to make from the rounded element targets of the
/// configured ratios, in order: level `i + 1` for target `i` when it is below
/// the asset's `base` count and at least `min_target` (4 faces, or 50
/// vertices for point clouds).
pub open spec fn lod_plan(base: usize, targets: Seq<usize>, min_target: usize, from: int) -> Seq<(u8, usize)>
    decreases targets.len() - from,
{
    if from < 0 || from >= targets.len() {
        Seq::empty()
    } else if targets[from] >= base || targets[from] < min_target {
        lod_plan(base, targets, min_target, from + 1)
    } else {
        seq![((from + 1) as u8, targets[from])] + lod_plan(base, targets, min_target, from + 1)
    }
}

pub fn lod_levels(base: usize, targets: &[usize], min_target: usize) -> (r: Vec<(u8, usize)>)
    requires
        targets@.len() < 255,
    ensures
        r@ == lod_plan(base, targets@, min_target, 0),
{
    let mut out: Vec<(u8, usize)> = Vec::new();
    let mut i: usize = 0;
    while i < targets.len()
        invariant
            i <= targets@.len(),
            targets@.len() < 255,
            lod_plan(base, targets@, min_target, 0) == out@ + lod_plan(base, targets@, min_target, i as int),
        decreases targets@.len() - i,
    {
        let t = targets[i];
        if t < base && t >= min_target {
            let ghost before = out@;
            out.push(((i + 1) as u8, t));
            assert(before + lod_plan(base, targets@, min_target, i as int)
                =~= out@ + lod_plan(base, targets@, min_target, i + 1));
        }
        i = i + 1;
    }
    assert(out@ + lod_plan(base, targets@, min_target, i as int) =~= out@);
    out
}

/// The element count that levels of detail are made from, and the smallest
/// level allowed, by the asset's lower-cased extension: OBJ and GLB meshes
/// by faces (at least one face is counted) with 4 at least; PLY files by
/// faces when they have any, else by vertices with 50 at least (none without
/// vertices); no levels for any other extension.
pub open spec fn spec_lod_basis(ext_lower: Seq<char>, faces: usize, vertices: usize) -> Option<(usize, usize)> {
    if ext_lower == "obj"@ || ext_lower == "glb"@ {
        Some((if faces == 0 { 1usize } else { faces }, 4usize))
    } else if ext_lower == "ply"@ {
        if faces > 0 { Some((faces, 4usize)) } else if vertices > 0 { Some((vertices, 50usize)) } else { None }
    } else {
        None
    }
}

pub fn lod_basis(ext_lower: &str, faces: usize, vertices: usize) -> (r: Option<(usize, usize)>)
    ensures
        r == spec_lod_basis(ext_lower@, faces, vertices),
{
    if str_equal(ext_lower, "obj") || str_equal(ext_lower, "glb") {
        Some((if faces == 0 { 1 } else { faces }, 4))
    } else if str_equal(ext_lower, "ply") {
        if faces > 0 { Some((faces, 4)) } else if vertices > 0 { Some((vertices, 50)) } else { None }
    } else {
        None
    }
}

/// The file of level `level` of an asset: `<stem>.lod<level>.<ext>` in the
/// asset's directory.
pub open spec fn spec_lod_path(dir: Seq<char>, stem: Seq<char>, ext_lower: Seq<char>, level: u8) -> Seq<char> {
    path_join(dir, stem + ".lod"@ + decimal(level as nat) + "."@ + ext_lower)
}

/// The levels of detail of a shared asset, with their element targets and
/// files, in increasing level: the levels that `lod_plan` keeps over the
/// asset's basis; none when its extension has no basis.
pub fn share_lod_paths(
    dir: &str,
    stem: &str,
    ext_lower: &str,
    faces: usize,
    vertices: usize,
    targets: &[usize],
) -> (r: Vec<(u8, usize, String)>)
    requires
        targets@.len() < 255,
    ensures
        spec_lod_basis(ext_lower@, faces, vertices) is None ==> r@.len() == 0,
        spec_lod_basis(ext_lower@, faces, vertices) matches Some((base, min_target)) ==> {
            let plan = lod_plan(base, targets@, min_target, 0);
            &&& r@.len() == plan.len()
            &&& forall|i: int| 0 <= i < r@.len() ==> {
                &&& (#[trigger] r@[i]).0 == plan[i].0
                &&& r@[i].1 == plan[i].1
                &&& r@[i].2@ == spec_lod_path(dir@, stem@, ext_lower@, plan[i].0)
            }
        },
{
    let mut out: Vec<(u8, usize, String)> = Vec::new();
    let (base, min_target) = match lod_basis(ext_lower, faces, vertices) {
        Some(b) => b,
        None => return out,
    };
    let levels = lod_levels(base, targets, min_target);
    let d = chars_of(dir);
    let mut i: usize = 0;
    while i < levels.len()
        invariant
            i <= levels@.len(),
            d@ == dir@,
            out@.len() == i,
            forall|a: int| 0 <= a < i ==> {
                &&& (#[trigger] out@[a]).0 == levels@[a].0
                &&& out@[a].1 == levels@[a].1
                &&& out@[a].2@ == spec_lod_path(dir@, stem@, ext_lower@, levels@[a].0)
            },
        decreases levels@.len() - i,
    {
        let (level, target) = levels[i];
        let mut name = chars_of(stem);
        push_str(&mut name, ".lod");
        push_decimal(&mut name, level as u64);
        push_str(&mut name, ".");
        push_str(&mut name, ext_lower);
        let full = join_path(d.as_slice(), name.as_slice());
        out.push((level, target, string_of(full.as_slice())));
        i = i + 1;
    }
    out
}

/// Whether share LODs are generated: on unless the setting is present and is
/// none of `1`, `true`, `yes` (the last two in any ASCII case).
pub fn should_generate_lods(setting: Option<&str>) -> (b: bool)
    ensures
        b == match setting {
            None => true,
            Some(v) => v@ == "1"@ || crate::text::eq_ignore_ascii_case_spec(v@, "true"@)
                || crate::text::eq_ignore_ascii_case_spec(v@, "yes"@),
        },
{
    match setting {
        None => true,
        Some(v) => crate::text::str_equal(v, "1") || crate::text::str_eq_ignore_ascii_case(v, "true")
            || crate::text::str_eq_ignore_ascii_case(v, "yes"),
    }
}


/// The preview page of a share: title and description escaped, and a
/// redirect to the viewer.
pub open spec fn card_html(t: Seq<char>, d: Seq<char>, v: Seq<char>, img: Seq<char>) -> Seq<char> {
    "<!doctype html>\n<html lang=\"en\">\n<head>\n  <meta charset=\"utf-8\">\n  <meta name=\"viewport\" content=\"width=device-width, initial-scale=1\">\n  <title>"@
        + t
        + "</title>\n  <meta property=\"og:title\" content=\""@
        + t
        + "\">\n  <meta property=\"og:description\" content=\""@
        + d
        + "\">\n  <meta property=\"og:type\" content=\"website\">\n  <meta property=\"og:url\" content=\""@
        + v
        + "\">\n  <meta property=\"og:image\" content=\""@
        + img
        + "\">\n  <meta name=\"twitter:card\" content=\"summary_large_image\">\n  <meta name=\"twitter:title\" content=\""@
        + t
        + "\">\n  <meta name=\"twitter:description\" content=\""@
        + d
        + "\">\n  <meta name=\"twitter:image\" content=\""@
        + img
        + "\">\n  <meta http-equiv=\"refresh\" content=\"0; url="@
        + v
        + "\">\n  <style>\n    body {\n      font-family: system-ui, -apple-system, sans-serif;\n      background: #0b0d12;\n      color: #e6e9ef;\n      display: flex;\n      align-items: center;\n      justify-content: center;\n      min-height: 100vh;\n      margin: 0;\n    }\n    .card {\n      border: 1px solid rgba(255,255,255,0.08);\n      border-radius: 16px;\n      padding: 24px 32px;\n      background: rgba(255,255,255,0.04);\n    }\n    a {\n      color: #7dd3fc;\n      text-decoration: none;\n    }\n  </style>\n</head>\n<body>\n    <div class=\"card\">\n    <div style=\"font-size: 18px; font-weight: 600; margin-bottom: 8px;\">"@
        + t
        + "</div>\n    <div style=\"font-size: 14px; opacity: 0.7; margin-bottom: 16px;\">"@
        + d
        + "</div>\n    <a href=\""@
        + v
        + "\">Open share</a>\n  </div>\n</body>\n</html>"@
}

/// The default title of a share preview.
pub open spec fn default_card_title(asset_path: Seq<char>) -> Seq<char> {
    "TrueShot Share • "@ + asset_path
}

/// The preview page of a share link: the public title and description when
/// they are set, else a title naming the asset and a generic description;
/// both escaped for HTML.
pub fn share_card_html(
    asset_path: &str,
    public_title: Option<&str>,
    public_description: Option<&str>,
    viewer_url: &str,
    card_image: &str,
) -> (r: String)
    ensures
        r@ == card_html(
            html_escaped(match public_title { Some(t) => t@, None => default_card_title(asset_path@) }),
            html_escaped(match public_description { Some(d) => d@, None => "Shared 3D asset"@ }),
            viewer_url@,
            card_image@,
        ),
{
    let mut t: Vec<char> = Vec::new();
    match public_title {
        Some(x) => push_str(&mut t, x),
        None => {
            push_str(&mut t, "TrueShot Share • ");
            push_str(&mut t, asset_path);
        },
    }
    let mut dv: Vec<char> = Vec::new();
    match public_description {
        Some(x) => push_str(&mut dv, x),
        None => push_str(&mut dv, "Shared 3D asset"),
    }
    let title = chars_of(escape_html(string_of(t.as_slice()).as_str()).as_str());
    let description = chars_of(escape_html(string_of(dv.as_slice()).as_str()).as_str());
    let viewer_url = chars_of(viewer_url);
    let card_image = chars_of(card_image);
    let mut out: Vec<char> = Vec::new();
    push_str(&mut out, "<!doctype html>\n<html lang=\"en\">\n<head>\n  <meta charset=\"utf-8\">\n  <meta name=\"viewport\" content=\"width=device-width, initial-scale=1\">\n  <title>");
    push_chars(&mut out, title.as_slice());
    push_str(&mut out, "</title>\n  <meta property=\"og:title\" content=\"");
    push_chars(&mut out, title.as_slice());
    push_str(&mut out, "\">\n  <meta property=\"og:description\" content=\"");
    push_chars(&mut out, description.as_slice());
    push_str(&mut out, "\">\n  <meta property=\"og:type\" content=\"website\">\n  <meta property=\"og:url\" content=\"");
    push_chars(&mut out, viewer_url.as_slice());
    push_str(&mut out, "\">\n  <meta property=\"og:image\" content=\"");
    push_chars(&mut out, card_image.as_slice());
    push_str(&mut out, "\">\n  <meta name=\"twitter:card\" content=\"summary_large_image\">\n  <meta name=\"twitter:title\" content=\"");
    push_chars(&mut out, title.as_slice());
    push_str(&mut out, "\">\n  <meta name=\"twitter:description\" content=\"");
    push_chars(&mut out, description.as_slice());
    push_str(&mut out, "\">\n  <meta name=\"twitter:image\" content=\"");
    push_chars(&mut out, card_image.as_slice());
    push_str(&mut out, "\">\n  <meta http-equiv=\"refresh\" content=\"0; url=");
    push_chars(&mut out, viewer_url.as_slice());
    push_str(&mut out, "\">\n  <style>\n    body {\n      font-family: system-ui, -apple-system, sans-serif;\n      background: #0b0d12;\n      color: #e6e9ef;\n      display: flex;\n      align-items: center;\n      justify-content: center;\n      min-height: 100vh;\n      margin: 0;\n    }\n    .card {\n      border: 1px solid rgba(255,255,255,0.08);\n      border-radius: 16px;\n      padding: 24px 32px;\n      background: rgba(255,255,255,0.04);\n    }\n    a {\n      color: #7dd3fc;\n      text-decoration: none;\n    }\n  </style>\n</head>\n<body>\n    <div class=\"card\">\n    <div style=\"font-size: 18px; font-weight: 600; margin-bottom: 8px;\">");
    push_chars(&mut out, title.as_slice());
    push_str(&mut out, "</div>\n    <div style=\"font-size: 14px; opacity: 0.7; margin-bottom: 16px;\">");
    push_chars(&mut out, description.as_slice());
    push_str(&mut out, "</div>\n    <a href=\"");
    push_chars(&mut out, viewer_url.as_slice());
    push_str(&mut out, "\">Open share</a>\n  </div>\n</body>\n</html>");
    string_of(out.as_slice())
}

/// `<public base>/assets/share-card.svg`.
pub fn share_card_image(public_base_url: Option<&str>, scheme: &str, host: &str) -> (r: String)
    ensures
        r@ == spec_public_base(opt_view(public_base_url), scheme@, host@) + "/assets/share-card.svg"@,
{
    let mut v = public_base(public_base_url, scheme, host);
    push_str(&mut v, "/assets/share-card.svg");
    string_of(v.as_slice())
}

/// A request to share a project asset.
#[derive(Debug, Clone, PartialEq, Eq)]
pub struct CreateShareRequest {
    pub project_id: String,
    pub asset_path: String,
    pub expires_in_seconds: Option<u64>,
    pub max_uses: Option<u64>,
    pub allow_download: Option<bool>,
    pub allow_embed: Option<bool>,
    pub public: Option<bool>,
    pub title: Option<String>,
    pub description: Option<String>,
    pub tags: Option<Vec<String>>,
    pub short_code: Option<String>,
    pub cover_path: Option<String>,
}

/// What a share link is created with: the trimmed project and asset, its
/// lifetime in seconds (a week by default), and whether downloads and embeds
/// are allowed (both by default).
#[derive(Debug, Clone, PartialEq, Eq)]
pub struct ShareLinkTerms {
    pub project_id: String,
    pub asset_path: String,
    pub ttl_seconds: u64,
    pub allow_download: bool,
    pub allow_embed: bool,
}

pub fn share_link_terms(request: &CreateShareRequest) -> (r: Result<ShareLinkTerms, &'static str>)
    ensures
        (trim(request.project_id@).len() == 0 || trim(request.asset_path@).len() == 0)
            ==> (r matches Err(e) && e@ == "Missing project_id or asset_path"@),
        !(trim(request.project_id@).len() == 0 || trim(request.asset_path@).len() == 0) ==> (r matches Ok(t) && {
            &&& t.project_id@ == trim(request.project_id@)
            &&& t.asset_path@ == trim(request.asset_path@)
            &&& t.ttl_seconds == (match request.expires_in_seconds { Some(v) => v, None => 604800 })
            &&& t.allow_download == (match request.allow_download { Some(b) => b, None => true })
            &&& t.allow_embed == (match request.allow_embed { Some(b) => b, None => true })
        }),
{
    let pv = chars_of(request.project_id.as_str());
    let av = chars_of(request.asset_path.as_str());
    let (p0, p1) = trim_bounds(pv.as_slice(), 0, pv.len());
    let (a0, a1) = trim_bounds(av.as_slice(), 0, av.len());
    assert(pv@.subrange(0, pv@.len() as int) =~= pv@);
    assert(av@.subrange(0, av@.len() as int) =~= av@);
    if p0 == p1 || a0 == a1 {
        return Err("Missing project_id or asset_path");
    }
    let project = copy_range(pv.as_slice(), p0, p1);
    let asset = copy_range(av.as_slice(), a0, a1);
    Ok(ShareLinkTerms {
        project_id: string_of(project.as_slice()),
        asset_path: string_of(asset.as_slice()),
        ttl_seconds: match request.expires_in_seconds { Some(v) => v, None => 604800 },
        allow_download: match request.allow_download { Some(b) => b, None => true },
        allow_embed: match request.allow_embed { Some(b) => b, None => true },
    })
}

/// Uses left of a limited link: `max - uses`, saturating.
pub fn remaining_uses(max_uses: Option<i64>, uses: i64) -> (r: Option<i64>)
    ensures
        r == (match max_uses {
            Some(m) => Some(if m - uses > i64::MAX { i64::MAX } else if m - uses < i64::MIN { i64::MIN } else { (m - uses) as i64 }),
            None => None,
        }),
{
    match max_uses {
        Some(m) => {
            let d: i128 = m as i128 - uses as i128;
            Some(if d > i64::MAX as i128 { i64::MAX } else if d < i64::MIN as i128 { i64::MIN } else { d as i64 })
        },
        None => None,
    }
}

/// How a shared asset is requested.
#[derive(Debug, Clone, Copy, PartialEq, Eq, Structural)]
pub struct ShareAssetQuery {
    pub download: Option<bool>,
    pub lod: Option<u8>,
    pub offset: Option<u64>,
    pub limit: Option<u64>,
}

/// Whether a request downloads the asset, or why it is refused: downloads
/// and embeds each need the link's permission.
pub fn share_asset_mode(query: ShareAssetQuery, allow_download: bool, allow_embed: bool) -> (r: Result<bool, &'static str>)
    ensures
        ({
            let download = match query.download { Some(b) => b, None => false };
            &&& (download && !allow_download) ==> (r matches Err(e) && e@ == "Downloads disabled"@)
            &&& (!download && !allow_embed) ==> (r matches Err(e) && e@ == "Embeds disabled"@)
            &&& ((download && allow_download) || (!download && allow_embed)) ==> r == Ok::<bool, &'static str>(download)
        }),
{
    let download = match query.download { Some(b) => b, None => false };
    if download && !allow_download {
        return Err("Downloads disabled");
    }
    if !download && !allow_embed {
        return Err("Embeds disabled");
    }
    Ok(download)
}

/// The byte window a query asks for, if it asks for one: its offset (0 by
/// default) and its limit when positive.
pub fn share_query_window(query: ShareAssetQuery) -> (r: Option<(u64, Option<u64>)>)
    ensures
        ({
            let offset = match query.offset { Some(o) => o, None => 0 };
            let limit = match query.limit { Some(l) => if l > 0 { Some(l) } else { None }, None => None };
            &&& (offset > 0 || limit is Some) ==> r == Some((offset, limit))
            &&& !(offset > 0 || limit is Some) ==> r is None
        }),
{
    let offset = match query.offset { Some(o) => o, None => 0 };
    let limit = match query.limit { Some(l) => if l > 0 { Some(l) } else { None }, None => None };
    if offset > 0 || limit.is_some() {
        Some((offset, limit))
    } else {
        None
    }
}

/// The length of an inclusive byte range, saturating.
pub fn range_length(start: u64, end: u64) -> (r: u64)
    ensures
        r == sat_sub(end, start) + 1 || (sat_sub(end, start) == u64::MAX && r == u64::MAX),
        sat_sub(end, start) < u64::MAX ==> r == sat_sub(end, start) + 1,
{
    end.saturating_sub(start).saturating_add(1)
}

/// A level of detail of a shared asset.
#[derive(Debug, Clone, PartialEq, Eq)]
pub struct ShareAssetLod {
    pub level: u8,
    pub asset_url: String,
    pub bytes: u64,
}

/// The URL of a level of detail: `<public base>/api/share/<token>/asset?lod=<level>`.
pub open spec fn spec_lod_url(base: Seq<char>, token: Seq<char>, level: u8) -> Seq<char> {
    base + "/api/share/"@ + token + "/asset?lod="@ + decimal(level as nat)
}

/// The levels of detail that exist, in increasing level: `found[l]` holds the
/// size of level `l` when one of its files exists.
pub fn share_lod_entries(
    public_base_url: Option<&str>,
    scheme: &str,
    host: &str,
    token: &str,
    found: &Vec<Option<u64>>,
) -> (r: Vec<ShareAssetLod>)
    requires
        found@.len() <= 5,
    ensures
        forall|i: int, j: int| 0 <= i < j < r@.len() ==> r@[i].level < r@[j].level,
        forall|i: int| 0 <= i < r@.len() ==> {
            &&& (#[trigger] r@[i]).level < found@.len()
            &&& found@[r@[i].level as int] == Some(r@[i].bytes)
            &&& r@[i].asset_url@ == spec_lod_url(spec_public_base(opt_view(public_base_url), scheme@, host@), token@, r@[i].level)
        },
        forall|l: int| 0 <= l < found@.len() && (#[trigger] found@[l]) is Some ==> exists|i: int| 0 <= i < r@.len() && r@[i].level == l,
{
    let base = public_base(public_base_url, scheme, host);
    let mut out: Vec<ShareAssetLod> = Vec::new();
    let mut level: u8 = 0;
    while (level as usize) < found.len()
        invariant
            level as int <= found@.len() <= 5,
            base@ == spec_public_base(opt_view(public_base_url), scheme@, host@),
            forall|i: int, j: int| 0 <= i < j < out@.len() ==> out@[i].level < out@[j].level,
            forall|i: int| 0 <= i < out@.len() ==> (#[trigger] out@[i]).level < level,
            forall|i: int| 0 <= i < out@.len() ==> {
                &&& (#[trigger] out@[i]).level < found@.len()
                &&& found@[out@[i].level as int] == Some(out@[i].bytes)
                &&& out@[i].asset_url@ == spec_lod_url(base@, token@, out@[i].level)
            },
            forall|l: int| 0 <= l < level && (#[trigger] found@[l]) is Some ==> exists|i: int| 0 <= i < out@.len() && out@[i].level == l,
        decreases found@.len() - level,
    {
        let ghost before = out@;
        match found[level as usize] {
            Some(bytes) => {
                let mut url: Vec<char> = Vec::new();
                push_chars(&mut url, base.as_slice());
                push_str(&mut url, "/api/share/");
                push_str(&mut url, token);
                push_str(&mut url, "/asset?lod=");
                push_decimal(&mut url, level as u64);
                out.push(ShareAssetLod { level, asset_url: string_of(url.as_slice()), bytes });
                assert forall|l: int| 0 <= l < level + 1 && (#[trigger] found@[l]) is Some implies exists|i: int| 0 <= i < out@.len() && out@[i].level == l by {
                    if l < level {
                        let i = choose|i: int| 0 <= i < before.len() && before[i].level == l;
                        assert(out@[i] == before[i]);
                    } else {
                        assert(out@[out@.len() - 1].level == l);
                    }
                }
                assert forall|i: int| 0 <= i < out@.len() implies (#[trigger] out@[i]).level < level + 1 by {
                    if i < before.len() { assert(out@[i] == before[i]); }
                }
            },
            None => {},
        }
        level = level + 1;
    }
    out
}

/// A referring site and how often it sent visitors.
#[derive(Debug, Clone, PartialEq, Eq)]
pub struct ShareReferrerEntry {
    pub referrer: String,
    pub count: i64,
}

/// What a share link was used for.
#[derive(Debug, Clone, PartialEq, Eq)]
pub struct ShareAnalyticsResponse {
    pub views: i64,
    pub asset_requests: i64,
    pub downloads: i64,
    pub embeds: i64,
    pub last_access: Option<i64>,
    pub top_referrers: Vec<ShareReferrerEntry>,
}

/// The last access of a share: the analytics' own, else the link's.
pub fn share_last_access(analytics: Option<i64>, link: Option<i64>) -> (r: Option<i64>)
    ensures
        r == (match analytics { Some(a) => Some(a), None => link }),
{
    match analytics {
        Some(a) => Some(a),
        None => link,
    }
}

/// Publishes or withdraws a share.
#[derive(Debug, Clone, PartialEq, Eq)]
pub struct SharePublicRequest {
    pub public: bool,
    pub title: Option<String>,
    pub description: Option<String>,
    pub tags: Option<Vec<String>>,
    pub short_code: Option<String>,
    pub cover_path: Option<String>,
}

/// The public side of a share.
#[derive(Debug, Clone, PartialEq, Eq)]
pub struct SharePublicResponse {
    pub public: bool,
    pub short_url: Option<String>,
    pub card_url: String,
    pub viewer_url: String,
    pub title: Option<String>,
    pub description: Option<String>,
    pub tags: Vec<String>,
    pub cover_path: Option<String>,
    pub created_at: i64,
    pub updated_at: i64,
}

/// A published share as listed in the gallery.
#[derive(Debug, Clone, PartialEq, Eq)]
pub struct PublicShareSummary {
    pub token: String,
    pub short_code: String,
    pub short_url: String,
    pub viewer_url: String,
    pub card_url: String,
    pub asset_url: String,
    pub download_url: String,
    pub title: Option<String>,
    pub description: Option<String>,
    pub tags: Vec<String>,
    pub cover_path: Option<String>,
    pub created_at: i64,
    pub updated_at: i64,
    pub views: i64,
}

/// A page of the public gallery.
#[derive(Debug, Clone, PartialEq, Eq)]
pub struct PublicShareQuery {
    pub limit: Option<i64>,
    pub offset: Option<i64>,
    pub tag: Option<String>,
    pub sort: Option<String>,
}

/// The gallery page: 24 entries by default, within 1 ..= 100, from a
/// non-negative offset.
pub fn public_share_page(query: &PublicShareQuery) -> (r: (i64, i64))
    ensures
        r.0 == ({
            let l = match query.limit { Some(v) => v, None => 24 };
            if l < 1 { 1 } else if l > 100 { 100 } else { l }
        }),
        r.1 == ({
            let o = match query.offset { Some(v) => v, None => 0 };
            if o < 0 { 0 } else { o }
        }),
{
    let l = match query.limit { Some(v) => v, None => 24 };
    let o = match query.offset { Some(v) => v, None => 0 };
    (if l < 1 { 1 } else if l > 100 { 100 } else { l }, if o < 0 { 0 } else { o })
}

/// A published share as the gallery lists it.
#[derive(Debug, Clone, PartialEq, Eq)]
pub struct PublicShareRecord {
    pub public_token: String,
    pub short_code: String,
    pub title: Option<String>,
    pub description: Option<String>,
    pub tags: Vec<String>,
    pub cover_path: Option<String>,
    pub created_at: i64,
    pub updated_at: i64,
    pub views: i64,
}

/// A gallery entry with the share's URLs: asset and download and short URLs
/// on the public base, the viewer on the frontend (which defaults to the
/// public base), and the card on the public base.
pub fn public_share_summary(
    record: PublicShareRecord,
    public_base_url: Option<&str>,
    frontend_base_url: Option<&str>,
    scheme: &str,
    host: &str,
) -> (r: PublicShareSummary)
    ensures
        ({
            let base = spec_public_base(opt_view(public_base_url), scheme@, host@);
            let front = match frontend_base_url { Some(f) => f@, None => base };
            let token = record.public_token@;
            &&& r.token == record.public_token
            &&& r.short_code == record.short_code
            &&& r.asset_url@ == base + "/api/share/"@ + token + "/asset"@
            &&& r.download_url@ == base + "/api/share/"@ + token + "/asset?download=true"@
            &&& r.viewer_url@ == front + "/share/"@ + token
            &&& r.short_url@ == base + "/s/"@ + record.short_code@
            &&& r.card_url@ == base + "/share/"@ + token + "/card"@
            &&& r.title == record.title
            &&& r.description == record.description
            &&& r.tags == record.tags
            &&& r.cover_path == record.cover_path
            &&& r.created_at == record.created_at
            &&& r.updated_at == record.updated_at
            &&& r.views == record.views
        }),
{
    let (asset_url, download_url, viewer_url) = share_urls(public_base_url, frontend_base_url, scheme, host, record.public_token.as_str());
    let short_url = share_short_url(public_base_url, scheme, host, record.short_code.as_str());
    let card_url = share_card_url(public_base_url, scheme, host, record.public_token.as_str());
    PublicShareSummary {
        token: record.public_token,
        short_code: record.short_code,
        short_url,
        viewer_url,
        card_url,
        asset_url,
        download_url,
        title: record.title,
        description: record.description,
        tags: record.tags,
        cover_path: record.cover_path,
        created_at: record.created_at,
        updated_at: record.updated_at,
        views: record.views,
    }
}

/// Which annotations of a share are read.
#[derive(Debug, Clone, PartialEq, Eq)]
pub struct ShareAnnotationQuery {
    pub layer: Option<String>,
    pub asset_path: Option<String>,
}

/// The layer and asset whose annotations a share shows: embeds must be
/// allowed, and only the shared asset's annotations are shown.
pub fn share_annotation_target(query: &ShareAnnotationQuery, link_asset_path: &str, allow_embed: bool) -> (r: Result<(String, String), &'static str>)
    ensures
        !allow_embed ==> (r matches Err(e) && e@ == "Embeds disabled"@),
        allow_embed && (query.asset_path matches Some(a) && a@ != link_asset_path@) ==> (r matches Err(e) && e@ == "Asset mismatch"@),
        allow_embed && !(query.asset_path matches Some(a) && a@ != link_asset_path@) ==> (r matches Ok((layer, asset)) && {
            &&& layer@ == (match query.layer { Some(l) => l@, None => "default"@ })
            &&& asset@ == link_asset_path@
        }),
{
    if !allow_embed {
        return Err("Embeds disabled");
    }
    let layer = match &query.layer { Some(l) => l.clone(), None => "default".to_string() };
    match &query.asset_path {
        Some(a) => if !crate::text::str_equal(a.as_str(), link_asset_path) {
            return Err("Asset mismatch");
        },
        None => {},
    }
    Ok((layer, link_asset_path.to_string()))
}

/// What a share link is shown with.
#[derive(Debug, Clone, PartialEq, Eq)]
pub struct ShareLinkMetadata {
    pub asset_url: String,
    pub download_url: String,
    pub viewer_url: String,
    pub short_url: Option<String>,
    pub card_url: String,
    pub lods: Vec<ShareAssetLod>,
    pub expires_at: i64,
    pub max_uses: Option<i64>,
    pub remaining_uses: Option<i64>,
    pub allow_download: bool,
    pub allow_embed: bool,
    pub project_id: String,
    pub asset_path: String,
    pub public: Option<bool>,
}

/// A created share link, with its token.
#[derive(Debug, Clone, PartialEq, Eq)]
pub struct ShareLinkResponse {
    pub token: String,
    pub asset_url: String,
    pub download_url: String,
    pub viewer_url: String,
    pub short_url: Option<String>,
    pub card_url: String,
    pub lods: Vec<ShareAssetLod>,
    pub expires_at: i64,
    pub max_uses: Option<i64>,
    pub remaining_uses: Option<i64>,
    pub allow_download: bool,
    pub allow_embed: bool,
    pub project_id: String,
    pub asset_path: String,
    pub public: Option<bool>,
}

/// A published share's short URL; none while it is not public.
pub fn public_short_url(is_public: bool, public_base_url: Option<&str>, scheme: &str, host: &str, code: &str) -> (r: Option<String>)
    ensures
        !is_public ==> r is None,
        is_public ==> (r matches Some(u) && u@ == spec_public_base(opt_view(public_base_url), scheme@, host@) + "/s/"@ + code@),
{
    if is_public {
        Some(share_short_url(public_base_url, scheme, host, code))
    } else {
        None
    }
}
} // verus!
