//! Project files: upload allow-lists, fusion artifact allow-lists, and the
//! checks that a fusion provenance report must pass before it is shown.
use vstd::prelude::*;
use crate::text::{
    chars_of, copy_range, ends_with, eq_ignore_ascii_case_spec, has_char, has_suffix, lower_seq,
    lowercase_chars, name_extension, path_join, push_chars, push_str, starts_with, str_equal,
    str_eq_ignore_ascii_case, string_of, file_extension, join_path, contains_char, eq_str,
    first_occurrence, find_str, replace_all, replace_str,
};
use crate::text::string_views;
use crate::listing::{candidate_index, merge_candidate, merged_candidates, FusionCandidate};

verus! {

/// The file name `Path::file_name` gives for a path.
pub uninterp spec fn std_file_name(path: Seq<char>) -> Option<Seq<char>>;

/// The parent `Path::parent` gives for a path.
pub uninterp spec fn std_parent(path: Seq<char>) -> Option<Seq<char>>;

pub open spec fn opt_seq(o: Option<String>) -> Option<Seq<char>> {
    match o {
        Some(s) => Some(s@),
        None => None,
    }
}

/// `Path::new(path).file_name()` as text (std). As documented, the file name
/// is the final component unless that is `..`; a non-empty path that holds
/// no slash, backslash or colon is a single normal component on every platform (no
/// separator, root or prefix can start in it), so unless it is `.` or `..`
/// it is its own file name.
#[verifier::external_body]
pub(crate) fn path_file_name(path: &str) -> (r: Option<String>)
    ensures
        opt_seq(r) == std_file_name(path@),
        (path@.len() > 0 && !has_char(path@, '/') && !has_char(path@, '\\') && !has_char(path@, ':')
            && path@ != "."@ && path@ != ".."@) ==> opt_seq(r) == Some(path@),
{
    std::path::Path::new(path).file_name().map(|n| n.to_string_lossy().into_owned())
}

/// `Path::new(path).parent()` as text (std).
#[verifier::external_body]
pub(crate) fn path_parent(path: &str) -> (r: Option<String>)
    ensures
        opt_seq(r) == std_parent(path@),
{
    std::path::Path::new(path).parent().map(|n| n.to_string_lossy().into_owned())
}

/// A fusion artifact name that is safe on every platform: a non-empty PNG
/// file name of at most 255 bytes, with no separator and no leading dot, that
/// names itself as a path.
pub open spec fn spec_portable_png(name: Seq<char>, byte_len: nat) -> bool {
    &&& name.len() > 0
    &&& byte_len <= 255
    &&& !has_char(name, '/')
    &&& !has_char(name, '\\')
    &&& name[0] != '.'
    &&& ends_with(lower_seq(name), ".png"@)
    &&& std_file_name(name) == Some(name)
}

pub fn is_portable_png_filename(filename: &str) -> (b: bool)
    ensures
        b == spec_portable_png(filename@, crate::text::utf8_len(filename@)),
        !has_char(filename@, ':') ==> b == {
            let name = filename@;
            &&& name.len() > 0
            &&& crate::text::utf8_len(name) <= 255
            &&& !has_char(name, '/')
            &&& !has_char(name, '\\')
            &&& name[0] != '.'
            &&& ends_with(lower_seq(name), ".png"@)
        },
{
    let v = chars_of(filename);
    if v.len() == 0 || !crate::text::utf8_len_at_most(v.as_slice(), 255) {
        return false;
    }
    assert(v@.subrange(0, v@.len() as int) =~= v@);
    if contains_char(v.as_slice(), '/', 0, v.len()) || contains_char(v.as_slice(), '\\', 0, v.len()) {
        return false;
    }
    if v[0] == '.' {
        return false;
    }
    let lower = lowercase_chars(v.as_slice());
    if !has_suffix(lower.as_slice(), chars_of(".png").as_slice()) {
        return false;
    }
    proof {
        reveal_strlit(".");
        reveal_strlit("..");
        assert(filename@ != "."@ && filename@ != ".."@);
    }
    match path_file_name(filename) {
        Some(n) => str_equal(n.as_str(), filename),
        None => false,
    }
}

pub open spec fn fusion_artifact_suffixes() -> Seq<Seq<char>> {
    seq![
        "_source_map.png"@,
        "_detail_source_map.png"@,
        "_fusion_flags.png"@,
        "_frequency_flags.png"@,
        "_sensor_correction_map.png"@,
        "_glare_map.png"@,
        "_boundary_trimap.png"@,
        "_fusion_overlay.png"@,
    ]
}

/// Only the eight fusion map images may be downloaded: the path, ASCII
/// lower-cased, must end with one of their suffixes.
pub open spec fn spec_allowed_fusion_artifact(path: Seq<char>) -> bool {
    exists|i: int| 0 <= i < 8 && ends_with(lower_seq(path), #[trigger] fusion_artifact_suffixes()[i])
}

pub fn is_allowed_fusion_artifact(path: &str) -> (b: bool)
    ensures
        b == spec_allowed_fusion_artifact(path@),
{
    let lower = lowercase_chars(chars_of(path).as_slice());
    let suffixes = [
        "_source_map.png",
        "_detail_source_map.png",
        "_fusion_flags.png",
        "_frequency_flags.png",
        "_sensor_correction_map.png",
        "_glare_map.png",
        "_boundary_trimap.png",
        "_fusion_overlay.png",
    ];
    assert(suffixes@.map_values(|s: &str| s@) =~= fusion_artifact_suffixes());
    let mut i: usize = 0;
    while i < 8
        invariant
            i <= 8,
            suffixes@.map_values(|s: &str| s@) == fusion_artifact_suffixes(),
            lower@ == lower_seq(path@),
            forall|j: int| 0 <= j < i ==> !ends_with(lower_seq(path@), #[trigger] fusion_artifact_suffixes()[j]),
        decreases 8 - i,
    {
        assert(fusion_artifact_suffixes()[i as int] == suffixes@[i as int]@);
        if has_suffix(lower.as_slice(), chars_of(suffixes[i]).as_slice()) {
            return true;
        }
        i = i + 1;
    }
    false
}

pub open spec fn model_extensions() -> Seq<Seq<char>> {
    seq!["ply"@, "obj"@, "gltf"@, "glb"@, "usdz"@, "usd"@]
}

/// The extension `Path::extension` gives: that of the path's file name.
pub open spec fn path_extension(path: Seq<char>) -> Option<Seq<char>> {
    match std_file_name(path) {
        Some(n) => name_extension(n),
        None => None,
    }
}

/// Uploaded models must have a PLY, OBJ, glTF, GLB, USDZ or USD extension
/// (in any ASCII case).
pub open spec fn spec_allowed_model_extension(name: Seq<char>) -> bool {
    match path_extension(name) {
        Some(e) => exists|i: int| 0 <= i < 6 && eq_ignore_ascii_case_spec(#[trigger] model_extensions()[i], e),
        None => false,
    }
}

pub fn is_allowed_model_extension(name: &str) -> (b: bool)
    ensures
        b == spec_allowed_model_extension(name@),
{
    let file = match path_file_name(name) {
        Some(f) => f,
        None => return false,
    };
    let fv = chars_of(file.as_str());
    let ext = match file_extension(fv.as_slice()) {
        Some(e) => e,
        None => return false,
    };
    let e = string_of(ext.as_slice());
    let allowed = ["ply", "obj", "gltf", "glb", "usdz", "usd"];
    assert(allowed@.map_values(|s: &str| s@) =~= model_extensions());
    let mut i: usize = 0;
    while i < 6
        invariant
            i <= 6,
            allowed@.map_values(|s: &str| s@) == model_extensions(),
            path_extension(name@) == Some(e@),
            forall|j: int| 0 <= j < i ==> !eq_ignore_ascii_case_spec(#[trigger] model_extensions()[j], e@),
        decreases 6 - i,
    {
        assert(model_extensions()[i as int] == allowed@[i as int]@);
        if str_eq_ignore_ascii_case(allowed[i], e.as_str()) {
            return true;
        }
        i = i + 1;
    }
    false
}

/// The MIME types accepted for a model extension; a generic binary upload is
/// always accepted.
pub open spec fn spec_mime_for_extension(ext: Seq<char>, mime: Seq<char>) -> bool {
    let m = lower_seq(mime);
    if m == "application/octet-stream"@ {
        true
    } else if ext == "glb"@ {
        m == "model/gltf-binary"@
    } else if ext == "gltf"@ {
        m == "model/gltf+json"@ || m == "application/json"@ || m == "text/plain"@
    } else if ext == "obj"@ {
        m == "text/plain"@
    } else if ext == "ply"@ {
        m == "text/plain"@
    } else if ext == "usdz"@ {
        m == "model/vnd.usdz+zip"@ || m == "application/zip"@
    } else if ext == "usd"@ {
        m == "model/vnd.usd"@ || m == "text/plain"@
    } else {
        false
    }
}

pub fn is_allowed_mime_for_extension(ext: &str, mime: &str) -> (b: bool)
    ensures
        b == spec_mime_for_extension(ext@, mime@),
{
    let m = lowercase_chars(chars_of(mime).as_slice());
    if eq_str(m.as_slice(), "application/octet-stream") {
        return true;
    }
    if str_equal(ext, "glb") {
        eq_str(m.as_slice(), "model/gltf-binary")
    } else if str_equal(ext, "gltf") {
        eq_str(m.as_slice(), "model/gltf+json") || eq_str(m.as_slice(), "application/json") || eq_str(m.as_slice(), "text/plain")
    } else if str_equal(ext, "obj") {
        eq_str(m.as_slice(), "text/plain")
    } else if str_equal(ext, "ply") {
        eq_str(m.as_slice(), "text/plain")
    } else if str_equal(ext, "usdz") {
        eq_str(m.as_slice(), "model/vnd.usdz+zip") || eq_str(m.as_slice(), "application/zip")
    } else if str_equal(ext, "usd") {
        eq_str(m.as_slice(), "model/vnd.usd") || eq_str(m.as_slice(), "text/plain")
    } else {
        false
    }
}

/// Text fields of a report are accepted only up to `max` UTF-8 bytes.
pub open spec fn spec_bounded(v: Option<Seq<char>>, max: nat) -> Option<Seq<char>> {
    match v {
        Some(t) => if crate::text::utf8_len(t) <= max { Some(t) } else { None },
        None => None,
    }
}

pub fn bounded_string(value: &Option<String>, max_len: usize) -> (r: Option<String>)
    ensures
        opt_seq(r) == spec_bounded(opt_seq(*value), max_len as nat),
{
    match value {
        Some(t) => {
            let v = chars_of(t.as_str());
            if crate::text::utf8_len_at_most(v.as_slice(), max_len) {
                Some(string_of(v.as_slice()))
            } else {
                None
            }
        },
        None => None,
    }
}

/// Image dimensions of a report: 1 ..= 200000.
pub open spec fn spec_bounded_dimension(v: Option<u64>) -> Option<u32> {
    match v {
        Some(d) => if 0 < d && d <= 200000 { Some(d as u32) } else { None },
        None => None,
    }
}

pub fn bounded_dimension(value: Option<u64>) -> (r: Option<u32>)
    ensures
        r == spec_bounded_dimension(value),
{
    match value {
        Some(d) => if 0 < d && d <= 200000 { Some(d as u32) } else { None },
        None => None,
    }
}

/// A flag of the fusion flag legend: its bit and the number of flagged pixels.
#[derive(Debug, Clone, Copy, PartialEq, Eq, Structural)]
pub struct FusionFlagSummary {
    pub bit: u8,
    pub pixels: u64,
}

/// One entry of a flag legend as read from the report: its name, whether it
/// is an object, and its `bit` and `pixels` numbers.
#[derive(Debug, Clone, PartialEq, Eq)]
pub struct FlagLegendEntry {
    pub name: String,
    pub is_object: bool,
    pub bit: Option<u64>,
    pub pixels: Option<u64>,
}

/// A legend entry counts when it is an object whose bit fits a byte and that
/// counts pixels.
pub open spec fn legend_flag(e: FlagLegendEntry) -> Option<(Seq<char>, FusionFlagSummary)> {
    if e.is_object && e.bit is Some && e.bit->0 <= 255 && e.pixels is Some {
        Some((e.name@, FusionFlagSummary { bit: e.bit->0 as u8, pixels: e.pixels->0 }))
    } else {
        None
    }
}

pub open spec fn flag_views(s: Seq<(String, FusionFlagSummary)>) -> Seq<(Seq<char>, FusionFlagSummary)> {
    Seq::new(s.len(), |i: int| (s[i].0@, s[i].1))
}

/// The usable flags of a legend: object entries whose bit fits a byte and
/// that count pixels, in order.
/// The names of a JSON object's entries, as a legend holds them, are distinct.
pub open spec fn distinct_legend_names(entries: Seq<FlagLegendEntry>) -> bool {
    forall|a: int, b: int| 0 <= a < b < entries.len() ==> entries[a].name@ != entries[b].name@
}

/// No name occurs twice among the kept pairs.
pub open spec fn distinct_pair_names<T>(s: Seq<(String, T)>) -> bool {
    forall|a: int, b: int| 0 <= a < b < s.len() ==> s[a].0@ != s[b].0@
}

pub fn parse_flag_legend(entries: &Vec<FlagLegendEntry>) -> (r: Vec<(String, FusionFlagSummary)>)
    requires
        distinct_legend_names(entries@),
    ensures
        flag_views(r@) == entries@.filter_map(|e: FlagLegendEntry| legend_flag(e)),
        distinct_pair_names(r@),
{
    let mut out: Vec<(String, FusionFlagSummary)> = Vec::new();
    let mut i: usize = 0;
    while i < entries.len()
        invariant
            i <= entries@.len(),
            distinct_legend_names(entries@),
            flag_views(out@) == entries@.take(i as int).filter_map(|e: FlagLegendEntry| legend_flag(e)),
            distinct_pair_names(out@),
            forall|a: int| 0 <= a < out@.len() ==> exists|k: int| 0 <= k < i && (#[trigger] out@[a]).0@ == entries@[k].name@,
        decreases entries@.len() - i,
    {
        let e = &entries[i];
        assert(entries@.take(i + 1).drop_last() =~= entries@.take(i as int));
        assert(entries@.take(i + 1).last() == *e);
        let ghost before = out@;
        let mut pushed = false;
        if e.is_object {
            match (e.bit, e.pixels) {
                (Some(b), Some(p)) => {
                    if b <= 255 {
                        out.push((e.name.clone(), FusionFlagSummary { bit: b as u8, pixels: p }));
                        assert(flag_views(out@) =~= flag_views(before).push((e.name@, FusionFlagSummary { bit: b as u8, pixels: p })));
                        proof {
                            assert forall|a: int| 0 <= a < before.len() implies (#[trigger] before[a]).0@ != e.name@ by {
                                let k = choose|k: int| 0 <= k < i && before[a].0@ == entries@[k].name@;
                            }
                            assert(out@[out@.len() - 1].0@ == entries@[i as int].name@);
                        }
                        pushed = true;
                    }
                },
                _ => {},
            }
        }
        if !pushed {
            assert(legend_flag(*e) is None);
        }
        i = i + 1;
    }
    assert(entries@.take(entries@.len() as int) =~= entries@);
    out
}

pub open spec fn byte_entry(e: (String, Option<u64>)) -> Option<(Seq<char>, u8)> {
    if e.1 is Some && e.1->0 <= 255 { Some((e.0@, e.1->0 as u8)) } else { None }
}

pub open spec fn byte_views(s: Seq<(String, u8)>) -> Seq<(Seq<char>, u8)> {
    Seq::new(s.len(), |i: int| (s[i].0@, s[i].1))
}

/// The usable entries of a byte legend: numbers that fit a byte, in order.
pub fn parse_u8_legend(entries: &Vec<(String, Option<u64>)>) -> (r: Vec<(String, u8)>)
    requires
        distinct_pair_names(entries@),
    ensures
        byte_views(r@) == entries@.filter_map(|e: (String, Option<u64>)| byte_entry(e)),
        distinct_pair_names(r@),
{
    let mut out: Vec<(String, u8)> = Vec::new();
    let mut i: usize = 0;
    while i < entries.len()
        invariant
            i <= entries@.len(),
            distinct_pair_names(entries@),
            byte_views(out@) == entries@.take(i as int).filter_map(|e: (String, Option<u64>)| byte_entry(e)),
            distinct_pair_names(out@),
            forall|a: int| 0 <= a < out@.len() ==> exists|k: int| 0 <= k < i && (#[trigger] out@[a]).0@ == entries@[k].0@,
        decreases entries@.len() - i,
    {
        assert(entries@.take(i + 1).drop_last() =~= entries@.take(i as int));
        assert(entries@.take(i + 1).last() == entries@[i as int]);
        let ghost before = out@;
        match entries[i].1 {
            Some(v) => {
                if v <= 255 {
                    out.push((entries[i].0.clone(), v as u8));
                    assert(byte_views(out@) =~= byte_views(before).push((entries@[i as int].0@, v as u8)));
                    proof {
                        assert forall|a: int| 0 <= a < before.len() implies (#[trigger] before[a]).0@ != entries@[i as int].0@ by {
                            let k = choose|k: int| 0 <= k < i && before[a].0@ == entries@[k].0@;
                        }
                        assert(out@[out@.len() - 1].0@ == entries@[i as int].0@);
                    }
                }
            },
            None => {},
        }
        i = i + 1;
    }
    assert(entries@.take(entries@.len() as int) =~= entries@);
    out
}

/// The plain values of a fusion report that the inspection reads (absent when
/// the field is missing or of another JSON type).
#[derive(Debug, Clone, PartialEq, Eq)]
pub struct FusionReportFields {
    pub schema: Option<String>,
    pub width: Option<u64>,
    pub height: Option<u64>,
    pub archival_policy: Option<String>,
    pub demosaic_generative_reconstruction: Option<bool>,
    pub demosaic_fallback: Option<bool>,
    pub demosaic_backend: Option<String>,
    pub demosaic_adapter: Option<String>,
    /// The eight artifact file names, in the order of `fusion_artifact_keys`.
    pub artifact_files: Vec<Option<String>>,
    pub noise_model_calibrated: Option<bool>,
    pub lens_psf_calibrated: Option<bool>,
    /// The eleven pixel and cell counts, in the order of `fusion_metric_names`.
    pub metrics: Vec<Option<u64>>,
    pub physical_focus_policy: Option<String>,
    pub boundary_policy: Option<String>,
    pub glare_policy: Option<String>,
    pub frequency_policy: Option<String>,
    pub sensor_correction_id: Option<String>,
    pub lens_psf_calibration_id: Option<String>,
}

pub open spec fn fusion_artifact_key_names() -> Seq<Seq<char>> {
    seq!["source"@, "detail_source"@, "flags"@, "frequency_flags"@, "sensor_correction"@, "glare"@, "boundary"@, "overlay"@]
}

pub open spec fn fusion_metric_name_list() -> Seq<Seq<char>> {
    seq![
        "defect_repaired_pixels"@, "depth_refusion_pixels"@, "visibility_adjusted_pixels"@,
        "mixed_boundary_pixels"@, "boundary_source_fallback_pixels"@, "glare_affected_pixels"@,
        "local_aligned_cells"@, "disoccluded_cells"@, "frequency_separated_pixels"@,
        "detail_single_source_pixels"@, "detail_reference_pixels"@,
    ]
}

/// The keys under which the eight fusion artifacts are reported.
pub fn fusion_artifact_keys() -> (r: [&'static str; 8])
    ensures
        r@.map_values(|s: &str| s@) == fusion_artifact_key_names(),
{
    let r = ["source", "detail_source", "flags", "frequency_flags", "sensor_correction", "glare", "boundary", "overlay"];
    assert(r@.map_values(|s: &str| s@) =~= fusion_artifact_key_names());
    r
}

/// The names of the eleven reported counts.
pub fn fusion_metric_names() -> (r: [&'static str; 11])
    ensures
        r@.map_values(|s: &str| s@) == fusion_metric_name_list(),
{
    let r = [
        "defect_repaired_pixels", "depth_refusion_pixels", "visibility_adjusted_pixels",
        "mixed_boundary_pixels", "boundary_source_fallback_pixels", "glare_affected_pixels",
        "local_aligned_cells", "disoccluded_cells", "frequency_separated_pixels",
        "detail_single_source_pixels", "detail_reference_pixels",
    ];
    assert(r@.map_values(|s: &str| s@) =~= fusion_metric_name_list());
    r
}

/// `p` has a `..` component starting at `i`.
pub open spec fn parent_component_at(p: Seq<char>, i: int) -> bool {
    &&& 0 <= i && i + 2 <= p.len()
    &&& p[i] == '.' && p[i + 1] == '.'
    &&& (i == 0 || p[i - 1] == '/')
    &&& (i + 2 == p.len() || p[i + 2] == '/')
}

/// Whether a report path is relative and free of `..` components.
pub open spec fn spec_safe_relative_path(p: Seq<char>) -> bool {
    !(p.len() > 0 && p[0] == '/') && !(exists|i: int| parent_component_at(p, i))
}

pub fn is_safe_relative_path(p: &str) -> (b: bool)
    ensures
        b == spec_safe_relative_path(p@),
{
    let v = chars_of(p);
    if v.len() > 0 && v[0] == '/' {
        return false;
    }
    let n = v.len();
    let mut i: usize = 0;
    while n >= 2 && i <= n - 2
        invariant
            i <= n,
            n == v@.len(),
            v@ == p@,
            forall|j: int| 0 <= j < i ==> !parent_component_at(v@, j),
        decreases n - i,
    {
        if v[i] == '.' && v[i + 1] == '.' && (i == 0 || v[i - 1] == '/') && (i + 2 == n || v[i + 2] == '/') {
            assert(parent_component_at(v@, i as int));
            return false;
        }
        i = i + 1;
    }
    assert forall|j: int| !parent_component_at(v@, j) by {}
    true
}

/// Why a fusion report is not shown.
pub type FusionRejection = &'static str;

/// What a valid report header gives, with the report-relative artifact paths.
#[derive(Debug, Clone, PartialEq, Eq)]
pub struct FusionReportPlan {
    pub schema: String,
    pub width: u32,
    pub height: u32,
    pub archival: String,
    pub artifact_paths: Vec<String>,
}

/// `\` written as `/`.
pub open spec fn portable(s: Seq<char>) -> Seq<char> {
    Seq::new(s.len(), |i: int| if s[i] == '\\' { '/' } else { s[i] })
}

fn portable_chars(s: &[char]) -> (r: Vec<char>)
    ensures
        r@ == portable(s@),
{
    let mut r: Vec<char> = Vec::new();
    let mut i: usize = 0;
    while i < s.len()
        invariant
            i <= s@.len(),
            r@ =~= portable(s@).take(i as int),
        decreases s@.len() - i,
    {
        r.push(if s[i] == '\\' { '/' } else { s[i] });
        i = i + 1;
    }
    assert(portable(s@).take(s@.len() as int) =~= portable(s@));
    r
}

/// The directory of a report, as its artifacts are resolved against.
pub open spec fn report_directory(logical_path: Seq<char>) -> Seq<char> {
    match std_parent(logical_path) { Some(d) => d, None => Seq::empty() }
}

/// The first check a report fails, if any, in the order the inspection makes
/// them.
pub open spec fn spec_fusion_rejection(f: FusionReportFields, logical_path: Seq<char>) -> Option<Seq<char>> {
    let schema = spec_bounded(opt_seq(f.schema), 80);
    let width = spec_bounded_dimension(f.width);
    let height = spec_bounded_dimension(f.height);
    let archival = spec_bounded(opt_seq(f.archival_policy), 160);
    if schema is None { Some("Missing fusion schema"@) }
    else if schema->0 != "trueshot.fusion.provenance.v2"@ { Some("Unsupported fusion schema"@) }
    else if width is None { Some("Invalid fusion width"@) }
    else if height is None { Some("Invalid fusion height"@) }
    else if width->0 * height->0 > u32::MAX { Some("Fusion dimensions exceed supported pixel count"@) }
    else if archival is None { Some("Missing archival policy"@) }
    else if archival->0 != "measured_sources_only_no_generative_reconstruction"@ { Some("Fusion report is not measurement-only"@) }
    else if f.demosaic_generative_reconstruction is None { Some("Missing generative reconstruction policy"@) }
    else if f.demosaic_generative_reconstruction == Some(true) { Some("Generative fusion reports are excluded from archival inspection"@) }
    else if !spec_safe_relative_path(logical_path) { Some("Invalid fusion report path"@) }
    else { artifact_rejection(f.artifact_files@, 0) }
}

/// The first artifact name from `i` on that is missing or not a portable PNG.
pub open spec fn artifact_rejection(files: Seq<Option<String>>, i: int) -> Option<Seq<char>>
    decreases files.len() - i,
{
    if i < 0 || i >= files.len() {
        None
    } else {
        let name = spec_bounded(opt_seq(files[i]), 255);
        if name is None {
            Some("Missing fusion artifact"@)
        } else if !spec_portable_png(name->0, crate::text::utf8_len(name->0)) {
            Some("Fusion artifact must be a portable PNG filename"@)
        } else {
            artifact_rejection(files, i + 1)
        }
    }
}

proof fn lemma_no_artifact_rejection(files: Seq<Option<String>>, i: int)
    requires
        0 <= i,
        artifact_rejection(files, i) is None,
    ensures
        forall|t: int| i <= t < files.len() ==> (#[trigger] files[t]) is Some
            && spec_portable_png(files[t]->0@, crate::text::utf8_len(files[t]->0@)),
    decreases files.len() - i,
{
    if i < files.len() {
        lemma_no_artifact_rejection(files, i + 1);
    }
}

/// A fusion report that passes inspection has a safe relative path, claims no
/// generative reconstruction, keeps to the measurement-only policy, and names
/// only portable PNG artifacts: file names with no separator and no leading
/// dot, so that none of them reaches outside the report's directory.
pub proof fn accepted_reports_name_only_portable_pngs(f: FusionReportFields, logical_path: Seq<char>)
    requires
        spec_fusion_rejection(f, logical_path) is None,
    ensures
        spec_safe_relative_path(logical_path),
        f.demosaic_generative_reconstruction == Some(false),
        f.archival_policy matches Some(a) && a@ == "measured_sources_only_no_generative_reconstruction"@,
        forall|i: int| 0 <= i < f.artifact_files@.len() ==> (#[trigger] f.artifact_files@[i]) is Some
            && spec_portable_png(f.artifact_files@[i]->0@, crate::text::utf8_len(f.artifact_files@[i]->0@)),
        forall|i: int| 0 <= i < f.artifact_files@.len() ==> !has_char((#[trigger] f.artifact_files@[i])->0@, '/')
            && !has_char(f.artifact_files@[i]->0@, '\\'),
{
    lemma_no_artifact_rejection(f.artifact_files@, 0);
}

/// Checks a fusion report's header and artifact names, and resolves the
/// artifacts against the report's directory.
pub fn validate_fusion_report(fields: &FusionReportFields, logical_path: &str) -> (r: Result<FusionReportPlan, FusionRejection>)
    requires
        fields.artifact_files@.len() == 8,
    ensures
        match r {
            Err(e) => spec_fusion_rejection(*fields, logical_path@) == Some(e@),
            Ok(plan) => {
                &&& spec_fusion_rejection(*fields, logical_path@) is None
                &&& plan.schema@ == "trueshot.fusion.provenance.v2"@
                &&& Some(plan.width) == spec_bounded_dimension(fields.width)
                &&& Some(plan.height) == spec_bounded_dimension(fields.height)
                &&& plan.archival@ == "measured_sources_only_no_generative_reconstruction"@
                &&& plan.artifact_paths@.len() == 8
                &&& forall|i: int| 0 <= i < 8 ==> (#[trigger] plan.artifact_paths@[i])@
                    == portable(path_join(report_directory(logical_path@), fields.artifact_files@[i]->0@))
            },
        },
{
    let schema = match bounded_string(&fields.schema, 80) {
        Some(s) => s,
        None => return Err("Missing fusion schema"),
    };
    if !str_equal(schema.as_str(), "trueshot.fusion.provenance.v2") {
        return Err("Unsupported fusion schema");
    }
    let width = match bounded_dimension(fields.width) { Some(w) => w, None => return Err("Invalid fusion width") };
    let height = match bounded_dimension(fields.height) { Some(h) => h, None => return Err("Invalid fusion height") };
    assert((width as int) * (height as int) <= 200000 * 200000) by (nonlinear_arith)
        requires width <= 200000, height <= 200000;
    if (width as u64) * (height as u64) > u32::MAX as u64 {
        return Err("Fusion dimensions exceed supported pixel count");
    }
    let archival = match bounded_string(&fields.archival_policy, 160) {
        Some(a) => a,
        None => return Err("Missing archival policy"),
    };
    if !str_equal(archival.as_str(), "measured_sources_only_no_generative_reconstruction") {
        return Err("Fusion report is not measurement-only");
    }
    match fields.demosaic_generative_reconstruction {
        None => return Err("Missing generative reconstruction policy"),
        Some(true) => return Err("Generative fusion reports are excluded from archival inspection"),
        Some(false) => {},
    }
    if !is_safe_relative_path(logical_path) {
        return Err("Invalid fusion report path");
    }
    let dir = match path_parent(logical_path) { Some(d) => chars_of(d.as_str()), None => Vec::new() };
    let mut paths: Vec<String> = Vec::new();
    let mut i: usize = 0;
    while i < 8
        invariant
            i <= 8,
            fields.artifact_files@.len() == 8,
            dir@ == report_directory(logical_path@),
            spec_fusion_rejection(*fields, logical_path@) == artifact_rejection(fields.artifact_files@, 0),
            artifact_rejection(fields.artifact_files@, 0) == artifact_rejection(fields.artifact_files@, i as int),
            paths@.len() == i,
            forall|j: int| 0 <= j < i ==> (#[trigger] paths@[j])@
                == portable(path_join(report_directory(logical_path@), fields.artifact_files@[j]->0@)),
        decreases 8 - i,
    {
        let name = match bounded_string(&fields.artifact_files[i], 255) {
            Some(n) => n,
            None => return Err("Missing fusion artifact"),
        };
        if !is_portable_png_filename(name.as_str()) {
            return Err("Fusion artifact must be a portable PNG filename");
        }
        let joined = join_path(dir.as_slice(), chars_of(name.as_str()).as_slice());
        let p = portable_chars(joined.as_slice());
        let ghost before = paths@;
        paths.push(string_of(p.as_slice()));
        assert forall|j: int| 0 <= j < i + 1 implies (#[trigger] paths@[j])@
            == portable(path_join(report_directory(logical_path@), fields.artifact_files@[j]->0@)) by {
            if j < i {
                assert(paths@[j] == before[j]);
            }
        }
        i = i + 1;
    }
    Ok(FusionReportPlan { schema, width, height, archival, artifact_paths: paths })
}


/// An artifact of a report: its report-relative path, whether a safe file is
/// there (plain or encrypted), and its size when known.
#[derive(Debug, Clone, PartialEq, Eq)]
pub struct FusionArtifactRef {
    pub path: String,
    pub present: bool,
    pub bytes: Option<u64>,
}

/// The processing policies a report declares; `unreported` where absent.
#[derive(Debug, Clone, PartialEq, Eq)]
pub struct FusionPolicySummary {
    pub archival: String,
    pub focus: String,
    pub boundary: String,
    pub glare: String,
    pub frequency: String,
}

#[derive(Debug, Clone, PartialEq, Eq)]
pub struct FusionCalibrationSummary {
    pub noise_model_calibrated: bool,
    pub lens_psf_calibrated: bool,
    pub sensor_correction_id: Option<String>,
    pub lens_psf_calibration_id: Option<String>,
}

#[derive(Debug, Clone, PartialEq, Eq)]
pub struct FusionDemosaicSummary {
    pub backend: Option<String>,
    pub adapter: Option<String>,
    pub fallback: bool,
    pub generative_reconstruction: bool,
}

/// What the inspection shows of an accepted report (besides its legends,
/// timings and modification time).
#[derive(Debug, Clone, PartialEq, Eq)]
pub struct FusionReportOverview {
    pub report_path: String,
    pub label: String,
    pub schema: String,
    pub width: u32,
    pub height: u32,
    pub integrity_complete: bool,
    pub warnings: Vec<String>,
    /// The eight artifacts, keyed as in `fusion_artifact_keys`, in that order.
    pub artifacts: Vec<(String, FusionArtifactRef)>,
    /// The reported counts, in the order of `fusion_metric_names`.
    pub metrics: Vec<(String, u64)>,
    pub policy: FusionPolicySummary,
    pub calibration: FusionCalibrationSummary,
    pub demosaic: FusionDemosaicSummary,
}

pub open spec fn missing_artifact_warning(key: Seq<char>, path: Seq<char>) -> Seq<char> {
    "Missing "@ + key + " artifact: "@ + path
}

/// The warnings for the first `n` artifacts that were not found.
pub open spec fn missing_warnings(paths: Seq<String>, found: Seq<(bool, Option<u64>)>, n: nat) -> Seq<Seq<char>>
    decreases n,
{
    if n == 0 {
        Seq::empty()
    } else {
        let before = missing_warnings(paths, found, (n - 1) as nat);
        if found[n - 1].0 {
            before
        } else {
            before.push(missing_artifact_warning(fusion_artifact_key_names()[n - 1], paths[n - 1]@))
        }
    }
}

pub open spec fn noise_warning() -> Seq<char> {
    "Noise model is uncalibrated; uncertainty is fallback-qualified."@
}

pub open spec fn lens_warning() -> Seq<char> {
    "Lens PSF is uncalibrated; physical focus uses ideal fallback."@
}

pub open spec fn demosaic_fallback_warning() -> Seq<char> {
    "Demosaic backend used a reported fallback."@
}

/// All warnings of a report, in the order they are listed.
pub open spec fn report_warnings(paths: Seq<String>, found: Seq<(bool, Option<u64>)>, f: FusionReportFields) -> Seq<Seq<char>> {
    let w = missing_warnings(paths, found, 8);
    let w = if f.noise_model_calibrated == Some(true) { w } else { w.push(noise_warning()) };
    let w = if f.lens_psf_calibrated == Some(true) { w } else { w.push(lens_warning()) };
    if f.demosaic_fallback == Some(true) { w.push(demosaic_fallback_warning()) } else { w }
}

/// The label of a report: its file name without `_fusion_report.json`.
pub open spec fn report_label(logical_path: Seq<char>) -> Seq<char> {
    match std_file_name(logical_path) {
        Some(n) => if ends_with(n, "_fusion_report.json"@) {
            n.take(n.len() - "_fusion_report.json"@.len())
        } else {
            "Fusion result"@
        },
        None => "Fusion result"@,
    }
}

pub open spec fn policy_or_unreported(v: Option<String>) -> Seq<char> {
    match spec_bounded(opt_seq(v), 160) {
        Some(t) => t,
        None => "unreported"@,
    }
}

/// The counts that are reported, with their names, in order.
pub open spec fn reported_metrics(values: Seq<Option<u64>>, n: nat) -> Seq<(Seq<char>, u64)>
    decreases n,
{
    if n == 0 {
        Seq::empty()
    } else {
        let before = reported_metrics(values, (n - 1) as nat);
        match values[n - 1] {
            Some(v) => before.push((fusion_metric_name_list()[n - 1], v)),
            None => before,
        }
    }
}

pub open spec fn metric_views(s: Seq<(String, u64)>) -> Seq<(Seq<char>, u64)> {
    Seq::new(s.len(), |i: int| (s[i].0@, s[i].1))
}

fn label_for(logical_path: &str) -> (r: String)
    ensures
        r@ == report_label(logical_path@),
{
    let suffix = chars_of("_fusion_report.json");
    match path_file_name(logical_path) {
        Some(name) => {
            let n = chars_of(name.as_str());
            if has_suffix(n.as_slice(), suffix.as_slice()) {
                let cut = copy_range(n.as_slice(), 0, n.len() - suffix.len());
                assert(cut@ =~= n@.take(n@.len() - suffix@.len()));
                string_of(cut.as_slice())
            } else {
                "Fusion result".to_string()
            }
        },
        None => "Fusion result".to_string(),
    }
}

fn policy_text(v: &Option<String>) -> (r: String)
    ensures
        r@ == policy_or_unreported(*v),
{
    match bounded_string(v, 160) {
        Some(t) => t,
        None => "unreported".to_string(),
    }
}

/// Builds the overview of a report that `validate_fusion_report` accepted,
/// from what was found of each artifact on disk (`(present, bytes)`, in the
/// order of `fusion_artifact_keys`).
pub fn finish_fusion_report(
    plan: FusionReportPlan,
    fields: &FusionReportFields,
    logical_path: &str,
    found: &Vec<(bool, Option<u64>)>,
) -> (r: FusionReportOverview)
    requires
        plan.artifact_paths@.len() == 8,
        found@.len() == 8,
        fields.metrics@.len() == 11,
    ensures
        r.report_path@ == logical_path@,
        r.label@ == report_label(logical_path@),
        r.schema == plan.schema,
        r.width == plan.width,
        r.height == plan.height,
        r.integrity_complete == (forall|i: int| 0 <= i < 8 ==> (#[trigger] found@[i]).0),
        string_views(r.warnings@) == report_warnings(plan.artifact_paths@, found@, *fields),
        r.artifacts@.len() == 8,
        forall|i: int| 0 <= i < 8 ==> {
            &&& (#[trigger] r.artifacts@[i]).0@ == fusion_artifact_key_names()[i]
            &&& r.artifacts@[i].1.path == plan.artifact_paths@[i]
            &&& r.artifacts@[i].1.present == found@[i].0
            &&& r.artifacts@[i].1.bytes == found@[i].1
        },
        metric_views(r.metrics@) == reported_metrics(fields.metrics@, 11),
        r.policy.archival == plan.archival,
        r.policy.focus@ == policy_or_unreported(fields.physical_focus_policy),
        r.policy.boundary@ == policy_or_unreported(fields.boundary_policy),
        r.policy.glare@ == policy_or_unreported(fields.glare_policy),
        r.policy.frequency@ == policy_or_unreported(fields.frequency_policy),
        r.calibration.noise_model_calibrated == (fields.noise_model_calibrated == Some(true)),
        r.calibration.lens_psf_calibrated == (fields.lens_psf_calibrated == Some(true)),
        opt_seq(r.calibration.sensor_correction_id) == spec_bounded(opt_seq(fields.sensor_correction_id), 256),
        opt_seq(r.calibration.lens_psf_calibration_id) == spec_bounded(opt_seq(fields.lens_psf_calibration_id), 256),
        opt_seq(r.demosaic.backend) == spec_bounded(opt_seq(fields.demosaic_backend), 80),
        opt_seq(r.demosaic.adapter) == spec_bounded(opt_seq(fields.demosaic_adapter), 160),
        r.demosaic.fallback == (fields.demosaic_fallback == Some(true)),
        !r.demosaic.generative_reconstruction,
{
    let keys = fusion_artifact_keys();
    let mut artifacts: Vec<(String, FusionArtifactRef)> = Vec::new();
    let mut warnings: Vec<String> = Vec::new();
    let mut complete = true;
    let mut i: usize = 0;
    while i < 8
        invariant
            i <= 8,
            plan.artifact_paths@.len() == 8,
            found@.len() == 8,
            keys@.map_values(|s: &str| s@) == fusion_artifact_key_names(),
            complete == (forall|j: int| 0 <= j < i ==> (#[trigger] found@[j]).0),
            string_views(warnings@) == missing_warnings(plan.artifact_paths@, found@, i as nat),
            artifacts@.len() == i,
            forall|j: int| 0 <= j < i ==> {
                &&& (#[trigger] artifacts@[j]).0@ == fusion_artifact_key_names()[j]
                &&& artifacts@[j].1.path == plan.artifact_paths@[j]
                &&& artifacts@[j].1.present == found@[j].0
                &&& artifacts@[j].1.bytes == found@[j].1
            },
        decreases 8 - i,
    {
        let key = keys[i];
        assert(key@ == fusion_artifact_key_names()[i as int]);
        let path = plan.artifact_paths[i].clone();
        let (present, bytes) = found[i];
        if !present {
            let mut w: Vec<char> = Vec::new();
            push_str(&mut w, "Missing ");
            push_str(&mut w, key);
            push_str(&mut w, " artifact: ");
            push_str(&mut w, path.as_str());
            let ghost before = warnings@;
            warnings.push(string_of(w.as_slice()));
            assert(string_views(warnings@) =~= string_views(before).push(missing_artifact_warning(key@, path@)));
            complete = false;
        }
        let ghost before_a = artifacts@;
        artifacts.push((key.to_string(), FusionArtifactRef { path, present, bytes }));
        assert forall|j: int| 0 <= j < i + 1 implies {
            &&& (#[trigger] artifacts@[j]).0@ == fusion_artifact_key_names()[j]
            &&& artifacts@[j].1.path == plan.artifact_paths@[j]
            &&& artifacts@[j].1.present == found@[j].0
            &&& artifacts@[j].1.bytes == found@[j].1
        } by {
            if j < i {
                assert(artifacts@[j] == before_a[j]);
            }
        }
        i = i + 1;
    }
    let noise = match fields.noise_model_calibrated { Some(b) => b, None => false };
    let lens = match fields.lens_psf_calibrated { Some(b) => b, None => false };
    let fallback = match fields.demosaic_fallback { Some(b) => b, None => false };
    let ghost w0 = warnings@;
    if !noise {
        warnings.push("Noise model is uncalibrated; uncertainty is fallback-qualified.".to_string());
    }
    let ghost w1 = warnings@;
    if !lens {
        warnings.push("Lens PSF is uncalibrated; physical focus uses ideal fallback.".to_string());
    }
    let ghost w2 = warnings@;
    if fallback {
        warnings.push("Demosaic backend used a reported fallback.".to_string());
    }
    proof {
        let m = missing_warnings(plan.artifact_paths@, found@, 8);
        let a = if fields.noise_model_calibrated == Some(true) { m } else { m.push(noise_warning()) };
        assert(string_views(w1) =~= a);
        let b = if fields.lens_psf_calibrated == Some(true) { a } else { a.push(lens_warning()) };
        assert(string_views(w2) =~= b);
        assert(string_views(warnings@) =~= report_warnings(plan.artifact_paths@, found@, *fields));
    }

    let names = fusion_metric_names();
    let mut metrics: Vec<(String, u64)> = Vec::new();
    let mut k: usize = 0;
    while k < 11
        invariant
            k <= 11,
            fields.metrics@.len() == 11,
            names@.map_values(|s: &str| s@) == fusion_metric_name_list(),
            metric_views(metrics@) == reported_metrics(fields.metrics@, k as nat),
        decreases 11 - k,
    {
        match fields.metrics[k] {
            Some(v) => {
                let name = names[k];
                assert(name@ == fusion_metric_name_list()[k as int]);
                let ghost before = metrics@;
                metrics.push((name.to_string(), v));
                assert(metric_views(metrics@) =~= metric_views(before).push((name@, v)));
            },
            None => {},
        }
        k = k + 1;
    }

    let policy = FusionPolicySummary {
        archival: plan.archival,
        focus: policy_text(&fields.physical_focus_policy),
        boundary: policy_text(&fields.boundary_policy),
        glare: policy_text(&fields.glare_policy),
        frequency: policy_text(&fields.frequency_policy),
    };
    let calibration = FusionCalibrationSummary {
        noise_model_calibrated: noise,
        lens_psf_calibrated: lens,
        sensor_correction_id: bounded_string(&fields.sensor_correction_id, 256),
        lens_psf_calibration_id: bounded_string(&fields.lens_psf_calibration_id, 256),
    };
    let demosaic = FusionDemosaicSummary {
        backend: bounded_string(&fields.demosaic_backend, 80),
        adapter: bounded_string(&fields.demosaic_adapter, 160),
        fallback,
        generative_reconstruction: false,
    };
    FusionReportOverview {
        report_path: logical_path.to_string(),
        label: label_for(logical_path),
        schema: plan.schema,
        width: plan.width,
        height: plan.height,
        integrity_complete: complete,
        warnings,
        artifacts,
        metrics,
        policy,
        calibration,
        demosaic,
    }
}

/// A request to create a project.
#[derive(Debug, Clone, PartialEq, Eq)]
pub struct CreateProjectRequest {
    pub name: String,
    pub description: Option<String>,
}

/// Which files of a project to list, and how many.
#[derive(Debug, Clone, PartialEq, Eq)]
pub struct ProjectAssetsQuery {
    pub scope: Option<String>,
    pub limit: Option<usize>,
}

/// A listed project file: its scope-prefixed path, size and modification time.
#[derive(Debug, Clone, PartialEq, Eq)]
pub struct ProjectAsset {
    pub path: String,
    pub bytes: u64,
    pub modified_at: Option<String>,
}

/// The directories an asset listing walks, by scope name.
pub open spec fn spec_asset_scopes(scope: Seq<char>) -> Option<Seq<Seq<char>>> {
    if scope == "output"@ {
        Some(seq!["output"@])
    } else if scope == "processed"@ {
        Some(seq!["processed"@])
    } else if scope == "all"@ {
        Some(seq!["output"@, "processed"@])
    } else {
        None
    }
}

pub open spec fn query_scope(query: ProjectAssetsQuery) -> Seq<char> {
    match query.scope {
        Some(s) => s@,
        None => "output"@,
    }
}

/// The project subdirectories to list (`output` when no scope is given), or
/// the refusal for an unknown scope.
pub fn asset_scopes(query: &ProjectAssetsQuery) -> (r: Result<Vec<&'static str>, &'static str>)
    ensures
        match r {
            Ok(v) => spec_asset_scopes(query_scope(*query)) == Some(v@.map_values(|s: &str| s@)),
            Err(e) => spec_asset_scopes(query_scope(*query)) is None
                && e@ == "scope must be output, processed, or all"@,
        },
{
    let scope: &str = match &query.scope {
        Some(s) => s.as_str(),
        None => "output",
    };
    if str_equal(scope, "output") {
        let v = vec!["output"];
        assert(v@.map_values(|s: &str| s@) =~= seq!["output"@]);
        Ok(v)
    } else if str_equal(scope, "processed") {
        let v = vec!["processed"];
        assert(v@.map_values(|s: &str| s@) =~= seq!["processed"@]);
        Ok(v)
    } else if str_equal(scope, "all") {
        let v = vec!["output", "processed"];
        assert(v@.map_values(|s: &str| s@) =~= seq!["output"@, "processed"@]);
        Ok(v)
    } else {
        Err("scope must be output, processed, or all")
    }
}

/// `value.unwrap_or(default).clamp(lo, hi)`.
pub open spec fn clamp_default(value: Option<usize>, default: usize, lo: usize, hi: usize) -> usize {
    let v = match value { Some(v) => v, None => default };
    if v < lo { lo } else if v > hi { hi } else { v }
}

fn clamp_or(value: Option<usize>, default: usize, lo: usize, hi: usize) -> (r: usize)
    requires
        lo <= hi,
    ensures
        r == clamp_default(value, default, lo, hi),
{
    let v = match value { Some(v) => v, None => default };
    if v < lo { lo } else if v > hi { hi } else { v }
}

/// How many assets a listing returns: 500 by default, within 1 ..= 5000.
pub fn asset_limit(query: &ProjectAssetsQuery) -> (r: usize)
    ensures
        r == clamp_default(query.limit, 500, 1, 5000),
        1 <= r <= 5000,
{
    clamp_or(query.limit, 500, 1, 5000)
}

/// The listed path of a file: the scope, `/`, and its path below the scope
/// directory with `\` written as `/`.
pub fn asset_path(prefix: &str, relative: &str) -> (r: String)
    ensures
        r@ == prefix@ + seq!['/'] + portable(relative@),
{
    let mut out: Vec<char> = Vec::new();
    push_str(&mut out, prefix);
    out.push('/');
    let rel = chars_of(relative);
    let p = portable_chars(rel.as_slice());
    push_chars(&mut out, p.as_slice());
    string_of(out.as_slice())
}

/// How many fusion reports to inspect.
#[derive(Debug, Clone, Copy, PartialEq, Eq, Structural)]
pub struct FusionReportQuery {
    pub limit: Option<usize>,
}

/// How many reports an inspection reads: 32 by default, within 1 ..= 128.
pub fn fusion_report_limit(query: FusionReportQuery) -> (r: usize)
    ensures
        r == clamp_default(query.limit, 32, 1, 128),
        1 <= r <= 128,
{
    clamp_or(query.limit, 32, 1, 128)
}

/// A file below the output directory is a fusion report candidate when its
/// path, without one trailing `.enc`, ends in `_fusion_report.json`; the
/// candidate is that logical path and whether the file is encrypted.
pub open spec fn spec_report_candidate(relative: Seq<char>) -> Option<(Seq<char>, bool)> {
    let encrypted = ends_with(relative, ".enc"@);
    let logical = if encrypted { relative.take(relative.len() - 4) } else { relative };
    if ends_with(logical, "_fusion_report.json"@) { Some((logical, encrypted)) } else { None }
}

pub fn fusion_report_candidate(relative: &str) -> (r: Option<(String, bool)>)
    ensures
        match r {
            Some((l, e)) => spec_report_candidate(relative@) == Some((l@, e)),
            None => spec_report_candidate(relative@) is None,
        },
{
    let v = chars_of(relative);
    let enc = chars_of(".enc");
    proof { reveal_strlit(".enc"); }
    let encrypted = has_suffix(v.as_slice(), enc.as_slice());
    let logical = if encrypted { copy_range(v.as_slice(), 0, v.len() - 4) } else { copy_range(v.as_slice(), 0, v.len()) };
    assert(encrypted ==> logical@ =~= v@.take(v@.len() - 4));
    assert(!encrypted ==> logical@ =~= v@);
    let suffix = chars_of("_fusion_report.json");
    if has_suffix(logical.as_slice(), suffix.as_slice()) {
        Some((string_of(logical.as_slice()), encrypted))
    } else {
        None
    }
}

/// One entry of the walk below a project's output directory: whether it is
/// a regular file, its path below the output directory, its modification
/// time in seconds (0 when unknown) and that time as RFC 3339 text.
#[derive(Debug, Clone, PartialEq, Eq)]
pub struct WalkedFile {
    pub is_file: bool,
    pub relative: String,
    pub modified_at: i64,
    pub modified_label: Option<String>,
}

/// A candidate as plain values: logical path, encrypted, modified, label.
pub type CandidateView = (Seq<char>, bool, i64, Option<Seq<char>>);

pub open spec fn candidate_view(c: FusionCandidate) -> CandidateView {
    (c.logical@, c.encrypted, c.modified, match c.modified_label { Some(l) => Some(l@), None => None })
}

pub open spec fn candidate_views(s: Seq<FusionCandidate>) -> Seq<CandidateView> {
    s.map_values(|c: FusionCandidate| candidate_view(c))
}

pub open spec fn view_index(s: Seq<CandidateView>, logical: Seq<char>, from: int) -> Option<int>
    decreases s.len() - from,
{
    if from < 0 || from >= s.len() {
        None
    } else if s[from].0 == logical {
        Some(from)
    } else {
        view_index(s, logical, from + 1)
    }
}

/// `merged_candidates` over plain values.
pub open spec fn merged_views(s: Seq<CandidateView>, c: CandidateView) -> Seq<CandidateView> {
    match view_index(s, c.0, 0) {
        Some(i) => if (s[i].1 && !c.1) || c.2 > s[i].2 { s.update(i, c) } else { s },
        None => s.push(c),
    }
}

proof fn lemma_index_views(s: Seq<FusionCandidate>, logical: Seq<char>, from: int)
    ensures
        view_index(candidate_views(s), logical, from) == candidate_index(s, logical, from),
    decreases s.len() - from,
{
    if 0 <= from < s.len() {
        lemma_index_views(s, logical, from + 1);
    }
}

proof fn lemma_merged_views(s: Seq<FusionCandidate>, c: FusionCandidate)
    ensures
        candidate_views(merged_candidates(s, c)) == merged_views(candidate_views(s), candidate_view(c)),
{
    lemma_index_views(s, c.logical@, 0);
    match candidate_index(s, c.logical@, 0) {
        Some(i) => {
            lemma_candidate_index_range(s, c.logical@, 0);
            assert(candidate_views(s.update(i, c)) =~= candidate_views(s).update(i, candidate_view(c)));
        },
        None => {
            assert(candidate_views(s.push(c)) =~= candidate_views(s).push(candidate_view(c)));
        },
    }
}

proof fn lemma_candidate_index_range(s: Seq<FusionCandidate>, logical: Seq<char>, from: int)
    ensures
        candidate_index(s, logical, from) matches Some(i) ==> from <= i < s.len(),
    decreases s.len() - from,
{
    if 0 <= from < s.len() {
        lemma_candidate_index_range(s, logical, from + 1);
    }
}

/// The reports found by a walk and how many files it counted: every regular
/// file is counted; the walk stops once more than 20000 files were counted;
/// a file whose path, with each backslash written `/`, names a fusion report is merged
/// into the candidates.
pub open spec fn walk_fold(entries: Seq<WalkedFile>) -> (Seq<CandidateView>, nat)
    decreases entries.len(),
{
    if entries.len() == 0 {
        (Seq::empty(), 0)
    } else {
        let (cands, visited) = walk_fold(entries.drop_last());
        let e = entries.last();
        if visited > 20000 || !e.is_file {
            (cands, visited)
        } else if visited + 1 > 20000 {
            (cands, visited + 1)
        } else {
            match spec_report_candidate(replace_all(e.relative@, seq!['\\'], seq!['/'])) {
                None => (cands, visited + 1),
                Some((logical, encrypted)) => (merged_views(cands, (logical, encrypted, e.modified_at,
                    match e.modified_label { Some(l) => Some(l@), None => None })), visited + 1),
            }
        }
    }
}

/// Walks the entries below the output directory, in order: the fusion report
/// candidates found and the number of files counted.
pub fn collect_fusion_candidates(entries: &Vec<WalkedFile>) -> (r: (Vec<FusionCandidate>, usize))
    ensures
        candidate_views(r.0@) == walk_fold(entries@).0,
        r.1 == walk_fold(entries@).1,
{
    let mut cands: Vec<FusionCandidate> = Vec::new();
    let mut visited: usize = 0;
    let mut i: usize = 0;
    let back = ['\\'];
    let slash = ['/'];
    assert(back@ =~= seq!['\\']);
    assert(slash@ =~= seq!['/']);
    while i < entries.len()
        invariant
            i <= entries@.len(),
            back@ == seq!['\\'],
            slash@ == seq!['/'],
            candidate_views(cands@) == walk_fold(entries@.take(i as int)).0,
            visited == walk_fold(entries@.take(i as int)).1,
            visited <= 20001,
        decreases entries@.len() - i,
    {
        assert(entries@.take(i + 1).drop_last() =~= entries@.take(i as int));
        assert(entries@.take(i + 1).last() == entries@[i as int]);
        let e = &entries[i];
        if visited <= 20000 && e.is_file {
            visited = visited + 1;
            if visited <= 20000 {
                let rel = replace_str(chars_of(e.relative.as_str()).as_slice(), back.as_slice(), slash.as_slice());
                let rel_text = string_of(rel.as_slice());
                match fusion_report_candidate(rel_text.as_str()) {
                    Some((logical, encrypted)) => {
                        let c = FusionCandidate {
                            logical,
                            encrypted,
                            modified: e.modified_at,
                            modified_label: e.modified_label.clone(),
                        };
                        proof { lemma_merged_views(cands@, c); }
                        merge_candidate(&mut cands, c);
                    },
                    None => {},
                }
            }
        }
        i = i + 1;
    }
    assert(entries@.take(entries@.len() as int) =~= entries@);
    (cands, visited)
}

/// How many inspected reports were rejected: one per `false` in `accepted`.
pub fn rejected_reports(accepted: &Vec<bool>) -> (r: usize)
    ensures
        r == accepted@.filter(|a: bool| !a).len(),
{
    let mut n: usize = 0;
    let mut i: usize = 0;
    while i < accepted.len()
        invariant
            i <= accepted@.len(),
            n == accepted@.take(i as int).filter(|a: bool| !a).len(),
            n <= i,
        decreases accepted@.len() - i,
    {
        assert(accepted@.take(i + 1).drop_last() =~= accepted@.take(i as int));
        reveal(Seq::filter);
        if !accepted[i] {
            n = n + 1;
        }
        i = i + 1;
    }
    assert(accepted@.take(accepted@.len() as int) =~= accepted@);
    n
}

/// Of two files for one logical report, the later one replaces the kept one
/// when the kept one is encrypted and the later is not, or when the later was
/// modified more recently.
pub fn replaces_candidate(kept_encrypted: bool, kept_modified: i64, new_encrypted: bool, new_modified: i64) -> (r: bool)
    ensures
        r == ((kept_encrypted && !new_encrypted) || new_modified > kept_modified),
{
    (kept_encrypted && !new_encrypted) || new_modified > kept_modified
}

/// The licence terms of a project.
#[derive(Debug, Clone, PartialEq, Eq, Default)]
pub struct ProjectLicense {
    pub title: Option<String>,
    pub url: Option<String>,
    pub data_ownership: Option<String>,
    pub export_rights: Option<String>,
    pub updated_at: Option<String>,
}

/// The configured legal terms as a project licence, stamped `now`; none when
/// no term is configured.
pub fn license_from_legal(
    title: Option<String>,
    url: Option<String>,
    data_ownership: Option<String>,
    export_rights: Option<String>,
    now: String,
) -> (r: Option<ProjectLicense>)
    ensures
        (title is None && url is None && data_ownership is None && export_rights is None) <==> r is None,
        r matches Some(l) ==> l.title == title && l.url == url && l.data_ownership == data_ownership
            && l.export_rights == export_rights && l.updated_at == Some(now),
{
    if title.is_none() && url.is_none() && data_ownership.is_none() && export_rights.is_none() {
        return None;
    }
    Some(ProjectLicense { title, url, data_ownership, export_rights, updated_at: Some(now) })
}

/// The licence shown for a project: the stored one, else the configured one,
/// else empty terms.
pub fn license_response(stored: Option<ProjectLicense>, configured: Option<ProjectLicense>) -> (r: ProjectLicense)
    ensures
        match (stored, configured) {
            (Some(s), _) => r == s,
            (None, Some(c)) => r == c,
            (None, None) => r == (ProjectLicense { title: None, url: None, data_ownership: None, export_rights: None, updated_at: None }),
        },
{
    match stored {
        Some(s) => s,
        None => match configured {
            Some(c) => c,
            None => ProjectLicense { title: None, url: None, data_ownership: None, export_rights: None, updated_at: None },
        },
    }
}

/// An update of a project licence keeps the given terms and stamps `now`.
pub fn stamp_license(update: ProjectLicense, now: String) -> (r: ProjectLicense)
    ensures
        r == (ProjectLicense { updated_at: Some(now), ..update }),
{
    ProjectLicense { updated_at: Some(now), ..update }
}

/// The scopes of a project to encrypt or decrypt.
#[derive(Debug, Clone, PartialEq, Eq)]
pub struct EncryptionRequest {
    pub scopes: Option<Vec<String>>,
}

pub open spec fn default_scope_names() -> Seq<Seq<char>> {
    seq!["raw"@, "processed"@, "output"@]
}

/// The requested scopes, or `raw`, `processed` and `output`.
pub fn requested_scopes(payload: Option<&EncryptionRequest>) -> (r: Vec<String>)
    ensures
        match payload {
            Some(EncryptionRequest { scopes: Some(v) }) => r@ == v@,
            _ => string_views(r@) == default_scope_names(),
        },
{
    match payload {
        Some(p) => match &p.scopes {
            Some(v) => return v.clone(),
            None => {},
        },
        None => {},
    }
    let r = vec!["raw".to_string(), "processed".to_string(), "output".to_string()];
    assert(string_views(r@) =~= default_scope_names());
    r
}

/// The arguments of the configured antivirus command for a file: each
/// argument holding `{path}` has it replaced by the path; when none does,
/// the path is appended.
pub open spec fn spec_antivirus_args(args: Seq<Seq<char>>, path: Seq<char>) -> Seq<Seq<char>> {
    let replaced = Seq::new(args.len(), |i: int| replace_all(args[i], "{path}"@, path));
    if exists|i: int| 0 <= i < args.len() && first_occurrence(args[i], "{path}"@, 0) is Some {
        replaced
    } else {
        replaced.push(path)
    }
}

pub fn antivirus_arguments(args: Option<&Vec<String>>, path: &str) -> (r: Vec<String>)
    ensures
        string_views(r@) == spec_antivirus_args(match args { Some(a) => string_views(a@), None => Seq::empty() }, path@),
{
    let ghost spec_args = match args { Some(a) => string_views(a@), None => Seq::<Seq<char>>::empty() };
    let marker = chars_of("{path}");
    let pv = chars_of(path);
    let mut out: Vec<String> = Vec::new();
    let mut used = false;
    match args {
        Some(a) => {
            let mut i: usize = 0;
            while i < a.len()
                invariant
                    i <= a@.len(),
                    spec_args == string_views(a@),
                    marker@ == "{path}"@,
                    pv@ == path@,
                    out@.len() == i,
                    forall|j: int| 0 <= j < i ==> (#[trigger] out@[j])@ == replace_all(a@[j]@, "{path}"@, path@),
                    used == (exists|j: int| 0 <= j < i && first_occurrence(a@[j]@, "{path}"@, 0) is Some),
                decreases a@.len() - i,
            {
                let arg = chars_of(a[i].as_str());
                let found = find_str(arg.as_slice(), marker.as_slice(), 0);
                if found.is_some() {
                    used = true;
                }
                let replaced = replace_str(arg.as_slice(), marker.as_slice(), pv.as_slice());
                let ghost before = out@;
                out.push(string_of(replaced.as_slice()));
                assert forall|j: int| 0 <= j < i + 1 implies (#[trigger] out@[j])@ == replace_all(a@[j]@, "{path}"@, path@) by {
                    if j < i { assert(out@[j] == before[j]); }
                }
                i = i + 1;
            }
            proof {
                assert forall|j: int| 0 <= j < a@.len() implies spec_args[j] == (#[trigger] a@[j])@ by {}
                if used {
                    let j = choose|j: int| 0 <= j < i && first_occurrence(a@[j]@, "{path}"@, 0) is Some;
                    assert(spec_args[j] == a@[j]@);
                } else {
                    assert forall|j: int| 0 <= j < spec_args.len() implies !(first_occurrence(#[trigger] spec_args[j], "{path}"@, 0) is Some) by {
                        assert(spec_args[j] == a@[j]@);
                    }
                }
            }
        },
        None => {},
    }
    let ghost replaced = Seq::new(spec_args.len(), |i: int| replace_all(spec_args[i], "{path}"@, path@));
    assert(string_views(out@) =~= replaced);
    if !used {
        out.push(path.to_string());
        assert(string_views(out@) =~= replaced.push(path@));
    }
    out
}

/// Default limits of an upload: 10 GiB per request and 100 GiB per project.
pub open spec fn spec_upload_limits(max_upload: Option<u64>, max_project: Option<u64>) -> (u64, u64) {
    (
        match max_upload { Some(v) => v, None => 10737418240 },
        match max_project { Some(v) => v, None => 107374182400 },
    )
}

/// What an upload has taken in so far.
#[derive(Debug, Clone, Copy, PartialEq, Eq, Structural)]
pub struct UploadProgress {
    /// Bytes of the whole request.
    pub total_written: u64,
    /// Bytes of the current file.
    pub file_written: u64,
    /// Bytes of the current file kept for type sniffing (at most 8192).
    pub sniff_len: usize,
}

/// Why an upload stopped.
#[derive(Debug, Clone, Copy, PartialEq, Eq, Structural)]
pub enum UploadRefusal {
    /// "Upload exceeded max size"
    UploadTooLarge,
    /// "Project quota exceeded"
    ProjectQuotaExceeded,
}

pub fn upload_limits(max_upload: Option<u64>, max_project: Option<u64>) -> (r: (u64, u64))
    ensures
        r == spec_upload_limits(max_upload, max_project),
{
    (
        match max_upload { Some(v) => v, None => 10737418240 },
        match max_project { Some(v) => v, None => 107374182400 },
    )
}

pub open spec fn sat_add(a: u64, b: u64) -> u64 {
    if a + b > u64::MAX { u64::MAX } else { (a + b) as u64 }
}

/// Takes one received chunk of `chunk_len` bytes: the counts grow (saturating),
/// the request limit and then the project quota are checked, and the part of
/// the chunk to keep for sniffing is returned with the new progress.
pub fn accept_upload_chunk(
    progress: UploadProgress,
    chunk_len: usize,
    max_upload: u64,
    max_project: u64,
    existing_size: u64,
) -> (r: Result<(UploadProgress, usize), UploadRefusal>)
    requires
        progress.sniff_len <= 8192,
    ensures
        ({
            let total = sat_add(progress.total_written, chunk_len as u64);
            let file = sat_add(progress.file_written, chunk_len as u64);
            match r {
                Err(UploadRefusal::UploadTooLarge) => total > max_upload,
                Err(UploadRefusal::ProjectQuotaExceeded) => total <= max_upload && sat_add(existing_size, total) > max_project,
                Ok((p, take)) => {
                    &&& total <= max_upload
                    &&& sat_add(existing_size, total) <= max_project
                    &&& p.total_written == total
                    &&& p.file_written == file
                    &&& take == (if progress.sniff_len < 8192 {
                            if 8192 - progress.sniff_len < chunk_len { 8192 - progress.sniff_len } else { chunk_len as int }
                        } else { 0 })
                    &&& p.sniff_len == progress.sniff_len + take
                    &&& p.sniff_len <= 8192
                },
            }
        }),
{
    let total = progress.total_written.saturating_add(chunk_len as u64);
    let file = progress.file_written.saturating_add(chunk_len as u64);
    if total > max_upload {
        return Err(UploadRefusal::UploadTooLarge);
    }
    if existing_size.saturating_add(total) > max_project {
        return Err(UploadRefusal::ProjectQuotaExceeded);
    }
    let take: usize = if progress.sniff_len < 8192 {
        let remaining = 8192 - progress.sniff_len;
        if remaining < chunk_len { remaining } else { chunk_len }
    } else {
        0
    };
    Ok((UploadProgress { total_written: total, file_written: file, sniff_len: progress.sniff_len + take }, take))
}

/// The MIME type that the `infer` matchers recognise from the leading bytes
/// of a file, if any.
pub uninterp spec fn sniffed_mime_type(bytes: Seq<u8>) -> Option<Seq<char>>;

/// `infer::get` (infer): the MIME type of the first matcher that recognises
/// `buf`; which matcher that is depends on the bytes alone.
#[verifier::external_body]
fn sniff_mime(buf: &[u8]) -> (r: Option<String>)
    ensures
        opt_seq(r) == sniffed_mime_type(buf@),
{
    match infer::get(buf) {
        Some(kind) => Some(kind.mime_type().to_string()),
        None => None,
    }
}

/// The head of an uploaded file held for sniffing, and the type found so far.
#[derive(Debug, Clone, PartialEq, Eq)]
pub struct UploadSniff {
    pub held: Vec<u8>,
    pub mime: Option<String>,
}

/// How many bytes of a chunk of `chunk` bytes are held when `held` are held.
pub open spec fn sniff_take(held: nat, chunk: nat) -> nat {
    if held >= 8192 {
        0
    } else if 8192 - held < chunk {
        (8192 - held) as nat
    } else {
        chunk
    }
}

/// Holds the head of each received chunk until 8192 bytes are held; while
/// the holding goes on and no type is known, the held bytes are sniffed once
/// at least 16 of them are there.
pub fn sniff_chunk(sniff: &mut UploadSniff, data: &[u8])
    ensures
        old(sniff).held@.len() <= 8192 ==> final(sniff).held@.len() <= 8192,
        old(sniff).held@.len() >= 8192 ==> *final(sniff) == *old(sniff),
        old(sniff).held@.len() < 8192 ==> {
            &&& final(sniff).held@ == old(sniff).held@ + data@.take(sniff_take(old(sniff).held@.len(), data@.len()) as int)
            &&& opt_seq(final(sniff).mime) == if old(sniff).mime is Some || final(sniff).held@.len() < 16 {
                    opt_seq(old(sniff).mime)
                } else {
                    sniffed_mime_type(final(sniff).held@)
                }
        },
{
    if sniff.held.len() >= 8192 {
        return;
    }
    let remaining = 8192 - sniff.held.len();
    let take = if remaining < data.len() { remaining } else { data.len() };
    let ghost before = sniff.held@;
    let mut i: usize = 0;
    while i < take
        invariant
            i <= take,
            take <= data@.len(),
            take == sniff_take(before.len(), data@.len()),
            sniff.held@ == before + data@.take(i as int),
            sniff.mime == old(sniff).mime,
            before == old(sniff).held@,
        decreases take - i,
    {
        sniff.held.push(data[i]);
        assert(data@.take(i + 1) =~= data@.take(i as int).push(data@[i as int]));
        i = i + 1;
    }
    if sniff.mime.is_none() && sniff.held.len() >= 16 {
        sniff.mime = sniff_mime(sniff.held.as_slice());
    }
}

/// After the last chunk: the held bytes are sniffed when no type is known.
pub fn finish_sniff(sniff: UploadSniff) -> (r: Option<String>)
    ensures
        opt_seq(r) == if sniff.mime is Some { opt_seq(sniff.mime) } else { sniffed_mime_type(sniff.held@) },
{
    match sniff.mime {
        Some(m) => Some(m),
        None => sniff_mime(sniff.held.as_slice()),
    }
}

/// The extension of an uploaded file's name, ASCII lower-cased (empty when it
/// has none).
pub open spec fn upload_extension(filename: Seq<char>) -> Seq<char> {
    match path_extension(filename) {
        Some(e) => lower_seq(e),
        None => Seq::empty(),
    }
}

/// An uploaded model is kept when its sniffed type, if one was found, suits
/// its extension.
pub fn upload_mime_allowed(filename: &str, sniffed: &Option<String>) -> (b: bool)
    ensures
        b == match sniffed {
            None => true,
            Some(m) => spec_mime_for_extension(upload_extension(filename@), m@),
        },
{
    let mime = match sniffed {
        None => return true,
        Some(m) => m,
    };
    let ext: Vec<char> = match path_file_name(filename) {
        None => Vec::new(),
        Some(f) => match file_extension(chars_of(f.as_str()).as_slice()) {
            Some(e) => lowercase_chars(e.as_slice()),
            None => Vec::new(),
        },
    };
    assert(ext@ =~= upload_extension(filename@));
    is_allowed_mime_for_extension(string_of(ext.as_slice()).as_str(), mime.as_str())
}

/// The `limit` most recently modified assets, newest first (assets of equal
/// age in the order they were found).
pub fn newest_assets(assets: Vec<(i64, ProjectAsset)>, limit: usize) -> (r: Vec<ProjectAsset>)
    ensures
        r@ == crate::listing::newest_first_order(assets@)
            .take(if assets@.len() < limit { assets@.len() as int } else { limit as int })
            .map_values(|p: (i64, ProjectAsset)| p.1),
{
    let ghost all = assets@;
    let mut sorted = crate::listing::sort_newest_first(assets);
    proof { crate::listing::lemma_newest_first_order(all); }
    sorted.truncate(limit);
    assert(sorted@ =~= crate::listing::newest_first_order(all).take(if all.len() < limit { all.len() as int } else { limit as int }));
    crate::listing::values_of(sorted)
}
} // verus!
