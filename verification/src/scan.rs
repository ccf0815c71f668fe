//! The scan wizard's integer logic: camera guidance, where adaptive views go
//! in a plan, the time a plan needs, the foreground box of a mask, and the
//! capture settings read from the environment.
use vstd::prelude::*;
use crate::text::{chars_of, push_str, push_decimal, push_signed_decimal, decimal, signed_decimal, starts_with, string_of, str_equal};
use crate::hardware::parse_usize_str;
use crate::crypto::{hex_encode, hex_lower, sha256_of_utf8, sha256_text};
use crate::text::string_views;

verus! {

/// The guidance shown for a camera elevation in degrees.
pub open spec fn spec_camera_instruction(elevation: int) -> Seq<char> {
    if elevation < 0 {
        "Move camera LOW ("@ + decimal((-elevation) as nat) + "° below eye level)"@
    } else if elevation == 0 {
        "Position camera at EYE LEVEL with object"@
    } else if elevation <= 30 {
        "Move camera MEDIUM height ("@ + decimal(elevation as nat) + "° above)"@
    } else if elevation <= 45 {
        "Move camera HIGH ("@ + decimal(elevation as nat) + "° above, looking down)"@
    } else {
        "Position camera OVERHEAD ("@ + decimal(elevation as nat) + "° from above)"@
    }
}

/// Which instruction an elevation gets: below eye level LOW, at 0 EYE LEVEL,
/// up to 30 degrees MEDIUM, from 31 to 45 degrees HIGH, and above 45 degrees
/// OVERHEAD; HIGH and OVERHEAD are given for no other elevations.
pub proof fn camera_instructions_follow_the_elevation(elevation: int)
    ensures
        elevation < 0 ==> starts_with(spec_camera_instruction(elevation), "Move camera LOW ("@),
        elevation == 0 ==> spec_camera_instruction(elevation) == "Position camera at EYE LEVEL with object"@,
        1 <= elevation <= 30 ==> starts_with(spec_camera_instruction(elevation), "Move camera MEDIUM height ("@),
        starts_with(spec_camera_instruction(elevation), "Move camera HIGH ("@) <==> 31 <= elevation <= 45,
        starts_with(spec_camera_instruction(elevation), "Position camera OVERHEAD ("@) <==> elevation > 45,
{
    reveal_strlit("Move camera LOW (");
    reveal_strlit("Position camera at EYE LEVEL with object");
    reveal_strlit("Move camera MEDIUM height (");
    reveal_strlit("Move camera HIGH (");
    reveal_strlit("Position camera OVERHEAD (");
    let r = spec_camera_instruction(elevation);
    let low = "Move camera LOW ("@;
    let eye = "Position camera at EYE LEVEL with object"@;
    let med = "Move camera MEDIUM height ("@;
    let high = "Move camera HIGH ("@;
    let over = "Position camera OVERHEAD ("@;
    assert(low[12] == 'L' && med[12] == 'M' && high[12] == 'H' && high[0] == 'M' && over[0] == 'P' && eye[0] == 'P');
    assert(eye[16] == 'a' && over[16] == 'O' && high.len() == 18 && over.len() == 26);
    if elevation < 0 {
        let tail = decimal((-elevation) as nat) + "° below eye level)"@;
        assert(r == low + tail);
        assert(r.take(low.len() as int) =~= low);
        assert(r[12] == 'L' && r[0] == 'M');
        assert(starts_with(r, high) ==> r.take(high.len() as int)[12] == r[12]);
        assert(starts_with(r, over) ==> r.take(over.len() as int)[0] == r[0]);
    } else if elevation == 0 {
        assert(r == eye);
        assert(starts_with(r, high) ==> r.take(high.len() as int)[0] == r[0]);
        assert(starts_with(r, over) ==> r.take(over.len() as int)[16] == r[16]);
    } else if elevation <= 30 {
        let tail = decimal(elevation as nat) + "° above)"@;
        assert(r == med + tail);
        assert(r.take(med.len() as int) =~= med);
        assert(r[12] == 'M' && r[0] == 'M');
        assert(starts_with(r, high) ==> r.take(high.len() as int)[12] == r[12]);
        assert(starts_with(r, over) ==> r.take(over.len() as int)[0] == r[0]);
    } else if elevation <= 45 {
        let tail = decimal(elevation as nat) + "° above, looking down)"@;
        assert(r == high + tail);
        assert(r.take(high.len() as int) =~= high);
        assert(r[0] == 'M');
        assert(starts_with(r, over) ==> r.take(over.len() as int)[0] == r[0]);
    } else {
        let tail = decimal(elevation as nat) + "° from above)"@;
        assert(r == over + tail);
        assert(r.take(over.len() as int) =~= over);
        assert(r[0] == 'P');
        assert(starts_with(r, high) ==> r.take(high.len() as int)[0] == r[0]);
    }
}

pub fn get_camera_instruction(elevation: i32) -> (r: String)
    requires
        elevation != i32::MIN,
    ensures
        r@ == spec_camera_instruction(elevation as int),
{
    if elevation == 0 {
        return "Position camera at EYE LEVEL with object".to_string();
    }
    let mut out: Vec<char> = Vec::new();
    if elevation < 0 {
        push_str(&mut out, "Move camera LOW (");
        push_decimal(&mut out, (-elevation) as u64);
        push_str(&mut out, "° below eye level)");
    } else if elevation <= 30 {
        push_str(&mut out, "Move camera MEDIUM height (");
        push_decimal(&mut out, elevation as u64);
        push_str(&mut out, "° above)");
    } else if elevation <= 45 {
        push_str(&mut out, "Move camera HIGH (");
        push_decimal(&mut out, elevation as u64);
        push_str(&mut out, "° above, looking down)");
    } else {
        push_str(&mut out, "Position camera OVERHEAD (");
        push_decimal(&mut out, elevation as u64);
        push_str(&mut out, "° from above)");
    }
    string_of(out.as_slice())
}

/// What the insertion of adaptive views reads of a plan step.
#[derive(Debug, Clone, Copy, PartialEq, Eq, Structural)]
pub struct PlanStepPlace {
    /// Whether the step is a capture (`step_type == "capture"`).
    pub is_capture: bool,
    pub camera_position: Option<u32>,
    pub object_orientation: Option<u32>,
}

/// A step continues the current run of captures at this camera position and
/// object orientation.
pub open spec fn continues_run(s: PlanStepPlace, camera_position: u32, orientation: u32) -> bool {
    s.is_capture && s.camera_position == Some(camera_position) && s.object_orientation == Some(orientation)
}

/// The index after the run of such captures that follows `current_idx`:
/// where new views for the same position and orientation are inserted.
pub fn find_insertion_index(steps: &[PlanStepPlace], current_idx: usize, camera_position: u32, orientation: u32) -> (r: usize)
    requires
        current_idx < usize::MAX,
    ensures
        r >= current_idx + 1,
        forall|j: int| current_idx + 1 <= j < r ==> continues_run(#[trigger] steps@[j], camera_position, orientation),
        r < steps@.len() ==> !continues_run(steps@[r as int], camera_position, orientation),
        r > current_idx + 1 ==> r <= steps@.len(),
{
    let mut idx = current_idx + 1;
    while idx < steps.len() && step_continues(&steps[idx], camera_position, orientation)
        invariant
            idx >= current_idx + 1,
            idx > current_idx + 1 ==> idx <= steps@.len(),
            forall|j: int| current_idx + 1 <= j < idx ==> continues_run(#[trigger] steps@[j], camera_position, orientation),
        decreases steps@.len() - idx,
    {
        idx = idx + 1;
    }
    idx
}

fn step_continues(step: &PlanStepPlace, camera_position: u32, orientation: u32) -> (r: bool)
    ensures
        r == continues_run(*step, camera_position, orientation),
{
    step.is_capture && step.camera_position == Some(camera_position) && step.object_orientation == Some(orientation)
}

/// Seconds to set a plan up: 30 per object orientation and 15 per camera
/// position of each orientation (each at least one).
pub open spec fn spec_setup_time(orientations: u32, camera_positions: u32) -> int {
    let o = if orientations < 1 { 1 } else { orientations as int };
    let c = if camera_positions < 1 { 1 } else { camera_positions as int };
    o * 30 + c * o * 15
}

pub fn estimate_setup_time(object_orientations: u32, camera_positions_per_orientation: u32) -> (r: u32)
    requires
        spec_setup_time(object_orientations, camera_positions_per_orientation) <= u32::MAX,
    ensures
        r == spec_setup_time(object_orientations, camera_positions_per_orientation),
{
    let o: u32 = if object_orientations < 1 { 1 } else { object_orientations };
    let c: u32 = if camera_positions_per_orientation < 1 { 1 } else { camera_positions_per_orientation };
    assert(c * o >= 0 && c * o * 15 <= u32::MAX && o * 30 <= u32::MAX) by (nonlinear_arith)
        requires
            o >= 1, c >= 1, o * 30 + c * o * 15 <= u32::MAX;
    (o * 30) + (c * o * 15)
}

/// The pixel at column `x` and row `y` of a `width`-wide mask is foreground.
pub open spec fn is_fg(mask: Seq<u8>, width: int, x: int, y: int) -> bool {
    mask[y * width + x] > 0
}

/// The foreground's bounding box in pixels: `(min_x, min_y, w, h)`, where the
/// extent is the distance between the extreme foreground pixels, at least 1.
pub open spec fn is_mask_box(mask: Seq<u8>, width: int, height: int, b: (u32, u32, u32, u32), max_x: int, max_y: int) -> bool {
    &&& forall|x: int, y: int| 0 <= x < width && 0 <= y < height && #[trigger] is_fg(mask, width, x, y)
        ==> b.0 <= x <= max_x && b.1 <= y <= max_y
    &&& exists|y: int| 0 <= y < height && #[trigger] is_fg(mask, width, b.0 as int, y)
    &&& exists|x: int| 0 <= x < width && #[trigger] is_fg(mask, width, x, b.1 as int)
    &&& exists|y: int| 0 <= y < height && #[trigger] is_fg(mask, width, max_x, y)
    &&& exists|x: int| 0 <= x < width && #[trigger] is_fg(mask, width, x, max_y)
    &&& b.2 == (if max_x - b.0 < 1 { 1 } else { max_x - b.0 })
    &&& b.3 == (if max_y - b.1 < 1 { 1 } else { max_y - b.1 })
}

/// The bounding box of a mask's foreground in pixels, or `None` when it has
/// none.
pub fn mask_pixel_box(mask: &[u8], width: u32, height: u32) -> (r: Option<(u32, u32, u32, u32)>)
    requires
        width as int * height as int <= u32::MAX,
        mask@.len() >= width as int * height as int,
    ensures
        r is None <==> !(exists|x: int, y: int| 0 <= x < width && 0 <= y < height && #[trigger] is_fg(mask@, width as int, x, y)),
        r matches Some(b) ==> exists|max_x: int, max_y: int| #[trigger] is_mask_box(mask@, width as int, height as int, b, max_x, max_y),
{
    let mut min_x = width;
    let mut min_y = height;
    let mut max_x: u32 = 0;
    let mut max_y: u32 = 0;
    let mut found = false;
    let mut y: u32 = 0;
    let ghost mut wy: int = 0;
    let ghost mut ax: int = 0;
    let ghost mut ay: int = 0;
    let ghost mut by: int = 0;
    let ghost mut cx: int = 0;
    let ghost mut cy: int = 0;
    while y < height
        invariant
            y <= height,
            width as int * height as int <= u32::MAX,
            mask@.len() >= width as int * height as int,
            found == (exists|x: int, yy: int| 0 <= x < width && 0 <= yy < y && #[trigger] is_fg(mask@, width as int, x, yy)),
            found ==> {
                &&& forall|x: int, yy: int| 0 <= x < width && 0 <= yy < y && #[trigger] is_fg(mask@, width as int, x, yy)
                    ==> min_x <= x <= max_x && min_y <= yy <= max_y
                &&& 0 <= wy < height && is_fg(mask@, width as int, min_x as int, wy)
                &&& 0 <= ax < width && is_fg(mask@, width as int, ax, min_y as int)
                &&& 0 <= by < height && is_fg(mask@, width as int, max_x as int, by)
                &&& 0 <= cx < width && is_fg(mask@, width as int, cx, max_y as int)
            },
        decreases height - y,
    {
        let mut x: u32 = 0;
        while x < width
            invariant
                x <= width,
                y < height,
                width as int * height as int <= u32::MAX,
                mask@.len() >= width as int * height as int,
                found == (exists|xx: int, yy: int| 0 <= xx < width && 0 <= yy < height
                    && (yy < y || (yy == y && xx < x)) && #[trigger] is_fg(mask@, width as int, xx, yy)),
                found ==> {
                    &&& forall|xx: int, yy: int| 0 <= xx < width && 0 <= yy < height
                        && (yy < y || (yy == y && xx < x)) && #[trigger] is_fg(mask@, width as int, xx, yy)
                        ==> min_x <= xx <= max_x && min_y <= yy <= max_y
                    &&& 0 <= wy < height && is_fg(mask@, width as int, min_x as int, wy)
                    &&& 0 <= ax < width && is_fg(mask@, width as int, ax, min_y as int)
                    &&& 0 <= by < height && is_fg(mask@, width as int, max_x as int, by)
                    &&& 0 <= cx < width && is_fg(mask@, width as int, cx, max_y as int)
                },
            decreases width - x,
        {
            assert(y as int * width as int + x < width as int * height as int) by (nonlinear_arith)
                requires x < width, y < height;
            assert(y as int * width as int == width as int * y as int) by (nonlinear_arith);
            let idx = (y * width + x) as usize;
            if mask[idx] > 0 {
                assert(is_fg(mask@, width as int, x as int, y as int));
                if !found {
                    min_x = x;
                    max_x = x;
                    min_y = y;
                    max_y = y;
                    proof {
                        wy = y as int;
                        ax = x as int;
                        by = y as int;
                        cx = x as int;
                    }
                } else {
                    if x < min_x {
                        min_x = x;
                        proof { wy = y as int; }
                    }
                    if y < min_y {
                        min_y = y;
                        proof { ax = x as int; }
                    }
                    if x > max_x {
                        max_x = x;
                        proof { by = y as int; }
                    }
                    if y > max_y {
                        max_y = y;
                        proof { cx = x as int; }
                    }
                }
                found = true;
            }
            x = x + 1;
        }
        y = y + 1;
    }
    if !found {
        return None;
    }
    let w: u32 = if max_x >= min_x && max_x - min_x >= 1 { max_x - min_x } else { 1 };
    let h: u32 = if max_y >= min_y && max_y - min_y >= 1 { max_y - min_y } else { 1 };
    let b = (min_x, min_y, w, h);
    assert(min_x <= max_x && min_y <= max_y);
    assert(forall|x: int, yy: int| 0 <= x < width && 0 <= yy < height && #[trigger] is_fg(mask@, width as int, x, yy)
        ==> min_x <= x <= max_x && min_y <= yy <= max_y);
    assert(exists|yy: int| 0 <= yy < height && #[trigger] is_fg(mask@, width as int, min_x as int, yy));
    assert(exists|xx: int| 0 <= xx < width && #[trigger] is_fg(mask@, width as int, xx, min_y as int));
    assert(exists|yy: int| 0 <= yy < height && #[trigger] is_fg(mask@, width as int, max_x as int, yy));
    assert(exists|xx: int| 0 <= xx < width && #[trigger] is_fg(mask@, width as int, xx, max_y as int));
    assert(b.2 == (if max_x - b.0 < 1 { 1 } else { max_x - b.0 }));
    assert(b.3 == (if max_y - b.1 < 1 { 1 } else { max_y - b.1 }));
    assert(is_mask_box(mask@, width as int, height as int, b, max_x as int, max_y as int));
    let r = Some(b);
    assert(r matches Some(bb) ==> exists|mx: int, my: int| #[trigger] is_mask_box(mask@, width as int, height as int, bb, mx, my)) by {
        assert(is_mask_box(mask@, width as int, height as int, r->0, max_x as int, max_y as int));
    }
    r
}

/// Defects the quality analyser reports.
#[derive(Debug, Clone, Copy, PartialEq, Eq, Structural)]
pub enum QualityDefect {
    EdgeBanding,
    BackgroundLeak,
    ObjectErosion,
    Blur,
    Overexposure,
    ColorCast,
    BlackDots,
    RawUnderexposed,
}

/// The advice given for a defect.
pub fn defect_action(defect: QualityDefect) -> (r: &'static str)
    ensures
        r@ == (match defect {
            QualityDefect::EdgeBanding => "Reduce edge sharpening or increase sampling coverage."@,
            QualityDefect::BackgroundLeak => "Improve background separation or recapture background."@,
            QualityDefect::ObjectErosion => "Increase foreground contrast or adjust masking."@,
            QualityDefect::Blur => "Stabilize camera and increase shutter speed."@,
            QualityDefect::Overexposure => "Lower exposure or reduce lighting intensity."@,
            QualityDefect::ColorCast => "Rebalance white balance or adjust lighting."@,
            QualityDefect::BlackDots => "Clean lens/sensor and reduce noise."@,
            QualityDefect::RawUnderexposed => "Increase exposure or ISO to lift shadows."@,
        }),
{
    match defect {
        QualityDefect::EdgeBanding => "Reduce edge sharpening or increase sampling coverage.",
        QualityDefect::BackgroundLeak => "Improve background separation or recapture background.",
        QualityDefect::ObjectErosion => "Increase foreground contrast or adjust masking.",
        QualityDefect::Blur => "Stabilize camera and increase shutter speed.",
        QualityDefect::Overexposure => "Lower exposure or reduce lighting intensity.",
        QualityDefect::ColorCast => "Rebalance white balance or adjust lighting.",
        QualityDefect::BlackDots => "Clean lens/sensor and reduce noise.",
        QualityDefect::RawUnderexposed => "Increase exposure or ISO to lift shadows.",
    }
}

/// Frames per capture burst: the configured count (3 when unset or not a
/// number), within 1 ..= 10.
pub fn capture_burst_count(configured: Option<&str>) -> (r: usize)
    ensures
        r == ({
            let v = match configured {
                Some(t) => match crate::text::parse_usize_spec(t@) { Some(n) => n, None => 3 },
                None => 3,
            };
            if v < 1 { 1 } else if v > 10 { 10 } else { v }
        }),
        1 <= r <= 10,
{
    let v = match configured {
        Some(t) => match parse_usize_str(t) { Some(n) => n, None => 3 },
        None => 3,
    };
    if v < 1 { 1 } else if v > 10 { 10 } else { v }
}

/// The texts that switch a flag on.
pub open spec fn is_true_word(v: Seq<char>) -> bool {
    v == "1"@ || v == "true"@ || v == "TRUE"@ || v == "yes"@ || v == "YES"@
}

/// Whether every frame of a burst is kept.
pub fn capture_burst_keep_all(configured: Option<&str>) -> (r: bool)
    ensures
        r == (configured matches Some(v) && is_true_word(v@)),
{
    match configured {
        Some(v) => str_equal(v, "1") || str_equal(v, "true") || str_equal(v, "TRUE")
            || str_equal(v, "yes") || str_equal(v, "YES"),
        None => false,
    }
}

/// A camera id as a file name: every character other than ASCII letters,
/// digits, `-` and `_` written as `_`.
pub open spec fn spec_sanitize_camera_id(value: Seq<char>) -> Seq<char> {
    Seq::new(value.len(), |i: int| if crate::calibration::id_char_kept(value[i]) { value[i] } else { '_' })
}

pub fn sanitize_camera_id(value: &str) -> (r: String)
    ensures
        r@ == spec_sanitize_camera_id(value@),
{
    let v = chars_of(value);
    let mut out: Vec<char> = Vec::new();
    let mut i: usize = 0;
    while i < v.len()
        invariant
            i <= v@.len(),
            v@ == value@,
            out@ =~= Seq::new(i as nat, |k: int| if crate::calibration::id_char_kept(v@[k]) { v@[k] } else { '_' }),
        decreases v@.len() - i,
    {
        let c = v[i];
        let keep = ('a' <= c && c <= 'z') || ('A' <= c && c <= 'Z') || ('0' <= c && c <= '9') || c == '-' || c == '_';
        out.push(if keep { c } else { '_' });
        i = i + 1;
    }
    string_of(out.as_slice())
}

/// The operating systems the server knows removable media mounts for.
#[derive(Debug, Clone, Copy, PartialEq, Eq, Structural)]
pub enum HostOs {
    MacOs,
    Linux,
    Windows,
}

pub open spec fn windows_drive_roots() -> Seq<Seq<char>> {
    Seq::new(23, |i: int| seq![(('D' as u32) + i) as char, ':', '\\'])
}

/// Where memory cards are mounted: `/Volumes` on macOS; `/media`,
/// `/run/media` and `/mnt` on Linux; drives `D:\` to `Z:\` on Windows.
pub open spec fn spec_sdcard_mount_roots(os: HostOs) -> Seq<Seq<char>> {
    match os {
        HostOs::MacOs => seq!["/Volumes"@],
        HostOs::Linux => seq!["/media"@, "/run/media"@, "/mnt"@],
        HostOs::Windows => windows_drive_roots(),
    }
}

pub fn sdcard_mount_roots(os: HostOs) -> (r: Vec<String>)
    ensures
        string_views(r@) == spec_sdcard_mount_roots(os),
{
    match os {
        HostOs::MacOs => {
            let r = vec!["/Volumes".to_string()];
            assert(string_views(r@) =~= seq!["/Volumes"@]);
            r
        },
        HostOs::Linux => {
            let r = vec!["/media".to_string(), "/run/media".to_string(), "/mnt".to_string()];
            assert(string_views(r@) =~= seq!["/media"@, "/run/media"@, "/mnt"@]);
            r
        },
        HostOs::Windows => {
            let mut r: Vec<String> = Vec::new();
            let mut d: u8 = 68;
            while d <= 90
                invariant
                    68 <= d <= 91,
                    r@.len() == d - 68,
                    forall|k: int| 0 <= k < r@.len() ==> (#[trigger] r@[k])@ == windows_drive_roots()[k],
                decreases 91 - d,
            {
                let letter = d as char;
                let mut v: Vec<char> = Vec::new();
                v.push(letter);
                v.push(':');
                v.push('\\');
                let ghost before = r@;
                r.push(string_of(v.as_slice()));
                assert(v@ =~= windows_drive_roots()[d - 68]);
                assert forall|k: int| 0 <= k < r@.len() implies (#[trigger] r@[k])@ == windows_drive_roots()[k] by {
                    if k < before.len() { assert(r@[k] == before[k]); }
                }
                d = d + 1;
            }
            assert(string_views(r@) =~= windows_drive_roots());
            r
        },
    }
}

pub open spec fn media_extensions() -> Seq<Seq<char>> {
    seq![
        "jpg"@, "jpeg"@, "png"@, "tif"@, "tiff"@, "heic"@, "heif"@, "bmp"@, "raw"@,
        "dng"@, "cr2"@, "cr3"@, "nef"@, "arw"@, "raf"@, "orf"@, "rw2"@, "srw"@,
    ]
}

/// Whether a (lower-case) file extension names a photo or raw image.
pub fn is_media_extension(ext: &str) -> (r: bool)
    ensures
        r == media_extensions().contains(ext@),
{
    let list: [&str; 18] = [
        "jpg", "jpeg", "png", "tif", "tiff", "heic", "heif", "bmp", "raw",
        "dng", "cr2", "cr3", "nef", "arw", "raf", "orf", "rw2", "srw",
    ];
    let ghost names = list@.map_values(|s: &str| s@);
    assert(names =~= media_extensions());
    let mut i: usize = 0;
    while i < 18
        invariant
            i <= 18,
            names == list@.map_values(|s: &str| s@),
            names == media_extensions(),
            forall|j: int| 0 <= j < i ==> names[j] != ext@,
        decreases 18 - i,
    {
        if str_equal(list[i], ext) {
            assert(names[i as int] == ext@);
            return true;
        }
        i = i + 1;
    }
    false
}

/// A request to start a scan.
#[derive(Debug, Clone, Copy, PartialEq, Eq, Structural)]
pub struct StartScanRequest {
    pub auto_capture: Option<bool>,
}

/// Scans capture on their own unless the request turns it off.
pub fn auto_capture(request: Option<StartScanRequest>) -> (r: bool)
    ensures
        r == (match request {
            Some(StartScanRequest { auto_capture: Some(b) }) => b,
            _ => true,
        }),
{
    match request {
        Some(req) => match req.auto_capture { Some(b) => b, None => true },
        None => true,
    }
}

/// A scan may start unless one is capturing or paused.
pub fn scan_may_start(current_status: Option<&str>) -> (r: bool)
    ensures
        r == !(current_status matches Some(s) && (s@ == "capturing"@ || s@ == "paused"@)),
{
    match current_status {
        Some(s) => !(str_equal(s, "capturing") || str_equal(s, "paused")),
        None => true,
    }
}

/// What the scan runner does at the step it has reached.
#[derive(Debug, Clone, Copy, PartialEq, Eq, Structural)]
pub enum ScanStepAction {
    /// Every step is done: status `complete`.
    Complete,
    /// The scan was cancelled: status `stopped`.
    Stop,
    /// Wait for the operator at this step: status `paused`.
    Wait,
    /// Pass the quality gate, then capture at this step.
    Capture,
    /// Nothing to do here: go on to the next step.
    Next,
}

/// The runner's decision at step `idx` of a plan of `step_count` steps, and
/// the manual capture step it leaves: positioning steps wait for the
/// operator; a capture step waits too unless the scan captures on its own or
/// the operator confirmed this very step, which the capture then uses up.
pub fn scan_step_action(
    idx: usize,
    step_count: usize,
    step_type: &str,
    cancelled: bool,
    auto_capture: bool,
    manual_capture_step: Option<usize>,
) -> (r: (ScanStepAction, Option<usize>))
    ensures
        idx >= step_count ==> r == (ScanStepAction::Complete, manual_capture_step),
        idx < step_count && cancelled ==> r == (ScanStepAction::Stop, manual_capture_step),
        idx < step_count && !cancelled && (step_type@ == "camera_position"@ || step_type@ == "object_orientation"@)
            ==> r == (ScanStepAction::Wait, manual_capture_step),
        idx < step_count && !cancelled && step_type@ == "capture"@ ==> r == (
            if !auto_capture && manual_capture_step != Some(idx) {
                (ScanStepAction::Wait, manual_capture_step)
            } else if manual_capture_step == Some(idx) {
                (ScanStepAction::Capture, None)
            } else {
                (ScanStepAction::Capture, manual_capture_step)
            }),
        idx < step_count && !cancelled && step_type@ != "camera_position"@ && step_type@ != "object_orientation"@
            && step_type@ != "capture"@ ==> r == (ScanStepAction::Next, manual_capture_step),
{
    proof {
        reveal_strlit("capture");
        reveal_strlit("camera_position");
        reveal_strlit("object_orientation");
        assert("capture"@.len() != "camera_position"@.len());
        assert("capture"@.len() != "object_orientation"@.len());
    }
    if idx >= step_count {
        return (ScanStepAction::Complete, manual_capture_step);
    }
    if cancelled {
        return (ScanStepAction::Stop, manual_capture_step);
    }
    if str_equal(step_type, "camera_position") || str_equal(step_type, "object_orientation") {
        return (ScanStepAction::Wait, manual_capture_step);
    }
    if !str_equal(step_type, "capture") {
        return (ScanStepAction::Next, manual_capture_step);
    }
    let confirmed = match manual_capture_step { Some(m) => m == idx, None => false };
    if !auto_capture && !confirmed {
        (ScanStepAction::Wait, manual_capture_step)
    } else if confirmed {
        (ScanStepAction::Capture, None)
    } else {
        (ScanStepAction::Capture, manual_capture_step)
    }
}

/// The runner's state after the operator confirms a step.
#[derive(Debug, Clone, Copy, PartialEq, Eq, Structural)]
pub struct StepConfirmation {
    /// Where the runner resumes.
    pub next_step: usize,
    /// The capture step the operator confirmed, if any.
    pub manual_capture_step: Option<usize>,
    /// Whether the runner was waiting on that step (otherwise the request is
    /// refused with "Step is not awaiting confirmation").
    pub accepted: bool,
}

/// Confirming step `step_index`: a capture step is captured by hand and the
/// runner resumes there; any other step is passed. The confirmation counts
/// only when the runner waits on that very step, though a capture step is
/// marked as confirmed either way.
pub fn confirm_step(step_index: u32, step_is_capture: bool, waiting_step: Option<usize>, manual_capture_step: Option<usize>) -> (r: StepConfirmation)
    requires
        step_index as int + 1 <= usize::MAX,
    ensures
        r.next_step == (if step_is_capture { step_index as int } else { step_index as int + 1 }),
        r.manual_capture_step == (if step_is_capture { Some(step_index as usize) } else { manual_capture_step }),
        r.accepted == (waiting_step == Some(step_index as usize)),
{
    let idx = step_index as usize;
    let next_step = if step_is_capture { idx } else { idx + 1 };
    let manual = if step_is_capture { Some(idx) } else { manual_capture_step };
    let accepted = match waiting_step { Some(w) => w == idx, None => false };
    StepConfirmation { next_step, manual_capture_step: manual, accepted }
}

/// The first enabled camera whose last resolution has a side above the
/// licensed maximum, with that side; `None` when there is no maximum.
pub fn resolution_violation(max_resolution: Option<u32>, cameras: &[(bool, Option<(u32, u32)>)]) -> (r: Option<(usize, u32)>)
    ensures
        max_resolution is None ==> r is None,
        max_resolution matches Some(m) ==> match r {
            None => forall|i: int| 0 <= i < cameras@.len() ==> !exceeds(#[trigger] cameras@[i], m),
            Some((k, d)) => {
                &&& k < cameras@.len()
                &&& exceeds(cameras@[k as int], m)
                &&& cameras@[k as int].1 matches Some((w, h)) && d == (if w > h { w } else { h })
                &&& forall|i: int| 0 <= i < k ==> !exceeds(#[trigger] cameras@[i], m)
            },
        },
{
    let m = match max_resolution { Some(m) => m, None => return None };
    let mut i: usize = 0;
    while i < cameras.len()
        invariant
            i <= cameras@.len(),
            max_resolution == Some(m),
            forall|j: int| 0 <= j < i ==> !exceeds(#[trigger] cameras@[j], m),
        decreases cameras@.len() - i,
    {
        let (enabled, resolution) = cameras[i];
        if enabled {
            if let Some((w, h)) = resolution {
                let d = if w > h { w } else { h };
                if d > m {
                    return Some((i, d));
                }
            }
        }
        i = i + 1;
    }
    None
}

/// An enabled camera whose last resolution has a side above `max`.
pub open spec fn exceeds(camera: (bool, Option<(u32, u32)>), max: u32) -> bool {
    camera.0 && (camera.1 matches Some((w, h)) && (if w > h { w } else { h }) > max)
}

/// The name a burst frame is kept under in the session directory:
/// `<camera>__<millis>_b<index>__<camera file name>`, the camera id sanitized.
pub open spec fn spec_burst_file_name(camera_id: Seq<char>, millis: int, burst_index: nat, file_name: Seq<char>) -> Seq<char> {
    spec_sanitize_camera_id(camera_id) + "__"@ + signed_decimal(millis) + "_b"@ + decimal(burst_index) + "__"@ + file_name
}

pub fn burst_file_name(camera_id: &str, millis: i64, burst_index: usize, file_name: &str) -> (r: String)
    ensures
        r@ == spec_burst_file_name(camera_id@, millis as int, burst_index as nat, file_name@),
{
    let id = sanitize_camera_id(camera_id);
    let mut out: Vec<char> = chars_of(id.as_str());
    push_str(&mut out, "__");
    push_signed_decimal(&mut out, millis);
    push_str(&mut out, "_b");
    push_decimal(&mut out, burst_index as u64);
    push_str(&mut out, "__");
    push_str(&mut out, file_name);
    string_of(out.as_slice())
}

/// A capture counts only when every active camera's best frame was verified.
pub fn capture_verification(expected: usize, verified: usize) -> (r: Result<(), String>)
    ensures
        r is Ok <==> verified >= expected,
        r matches Err(m) ==> m@ == "Capture verification incomplete: expected "@ + decimal(expected as nat)
            + ", verified "@ + decimal(verified as nat),
{
    if verified >= expected {
        return Ok(());
    }
    let mut out: Vec<char> = Vec::new();
    push_str(&mut out, "Capture verification incomplete: expected ");
    push_decimal(&mut out, expected as u64);
    push_str(&mut out, ", verified ");
    push_decimal(&mut out, verified as u64);
    Err(string_of(out.as_slice()))
}

/// Texts written one after another.
pub open spec fn concat_texts(texts: Seq<String>) -> Seq<char>
    decreases texts.len(),
{
    if texts.len() == 0 {
        Seq::empty()
    } else {
        concat_texts(texts.drop_last()) + texts.last()@
    }
}

/// The manifest hash of an SD card import: the hex SHA-256 of the files' hex
/// hashes, in order, one after another.
pub fn sdcard_manifest_hash(hashes: &Vec<String>) -> (r: String)
    ensures
        r@ == hex_lower(sha256_of_utf8(concat_texts(hashes@))),
{
    let mut all: Vec<char> = Vec::new();
    let mut i: usize = 0;
    while i < hashes.len()
        invariant
            i <= hashes@.len(),
            all@ == concat_texts(hashes@.take(i as int)),
        decreases hashes@.len() - i,
    {
        push_str(&mut all, hashes[i].as_str());
        assert(hashes@.take(i + 1).drop_last() =~= hashes@.take(i as int));
        i = i + 1;
    }
    assert(hashes@.take(hashes@.len() as int) =~= hashes@);
    let text = string_of(all.as_slice());
    let digest = sha256_text(text.as_str());
    hex_encode(digest.as_slice())
}

/// Why an SD card import is refused.
#[derive(Debug, Clone, Copy, PartialEq, Eq, Structural)]
pub enum SdImportRefusal {
    /// "Insufficient disk space for SD card import"
    InsufficientStorage,
    /// "SD card import exceeds max upload size"
    ExceedsMaxUpload,
    /// "Project quota exceeded"
    ProjectQuotaExceeded,
}

pub open spec fn sat_sum(a: u64, b: u64) -> int {
    if a + b > u64::MAX { u64::MAX as int } else { a + b }
}

/// Whether `total_bytes` from the card may be imported into a session
/// directory that holds `existing_size` bytes: enough free space must stay
/// (2 GiB by default, when the free space is known and a reserve is set),
/// then the upload limit (10 GiB) and the project quota (100 GiB) must hold.
pub fn sdcard_import_admission(
    total_bytes: u64,
    existing_size: u64,
    max_upload: Option<u64>,
    max_project: Option<u64>,
    min_free: Option<u64>,
    available: Option<u64>,
) -> (r: Result<(), SdImportRefusal>)
    ensures
        ({
            let reserve = match min_free { Some(m) => m, None => 2147483648u64 };
            let upload = match max_upload { Some(m) => m, None => 10737418240u64 };
            let quota = match max_project { Some(m) => m, None => 107374182400u64 };
            let short = reserve > 0 && (available matches Some(a) && a < sat_sum(reserve, total_bytes));
            &&& short ==> r == Err::<(), SdImportRefusal>(SdImportRefusal::InsufficientStorage)
            &&& !short && total_bytes > upload ==> r == Err::<(), SdImportRefusal>(SdImportRefusal::ExceedsMaxUpload)
            &&& !short && total_bytes <= upload && sat_sum(existing_size, total_bytes) > quota
                ==> r == Err::<(), SdImportRefusal>(SdImportRefusal::ProjectQuotaExceeded)
            &&& r is Ok <==> (!short && total_bytes <= upload && sat_sum(existing_size, total_bytes) <= quota)
        }),
{
    let reserve = match min_free { Some(m) => m, None => 2147483648u64 };
    let upload = match max_upload { Some(m) => m, None => 10737418240u64 };
    let quota = match max_project { Some(m) => m, None => 107374182400u64 };
    if reserve > 0 {
        if let Some(a) = available {
            if a < reserve.saturating_add(total_bytes) {
                return Err(SdImportRefusal::InsufficientStorage);
            }
        }
    }
    if total_bytes > upload {
        return Err(SdImportRefusal::ExceedsMaxUpload);
    }
    if existing_size.saturating_add(total_bytes) > quota {
        return Err(SdImportRefusal::ProjectQuotaExceeded);
    }
    Ok(())
}

/// How many of the values are at most `v`.
pub open spec fn count_at_most(s: Seq<u8>, v: int) -> nat
    decreases s.len(),
{
    if s.len() == 0 {
        0
    } else {
        count_at_most(s.drop_last(), v) + (if s.last() <= v { 1nat } else { 0nat })
    }
}

/// How many of the values equal `v`.
pub open spec fn count_equal(s: Seq<u8>, v: int) -> nat
    decreases s.len(),
{
    if s.len() == 0 {
        0
    } else {
        count_equal(s.drop_last(), v) + (if s.last() == v { 1nat } else { 0nat })
    }
}

/// `m` is the value at index `len / 2` of the values in sorted order: at
/// most `len / 2` values lie below it and more than that are at most it.
pub open spec fn is_median(s: Seq<u8>, m: u8) -> bool {
    count_at_most(s, m - 1) <= s.len() / 2 < count_at_most(s, m as int)
}

proof fn lemma_count_split(s: Seq<u8>, v: int)
    ensures
        count_at_most(s, v) == count_at_most(s, v - 1) + count_equal(s, v),
        count_at_most(s, v) <= s.len(),
    decreases s.len(),
{
    if s.len() > 0 {
        lemma_count_split(s.drop_last(), v);
    }
}

proof fn lemma_count_all(s: Seq<u8>)
    ensures
        count_at_most(s, 255) == s.len(),
        count_at_most(s, -1) == 0,
    decreases s.len(),
{
    if s.len() > 0 {
        lemma_count_all(s.drop_last());
    }
}

/// The median of the values (the one at index `len / 2` once sorted).
pub fn median_u8(values: &[u8]) -> (m: u8)
    requires
        values@.len() > 0,
    ensures
        is_median(values@, m),
{
    let mut hist: Vec<usize> = Vec::new();
    let mut v: usize = 0;
    while v < 256
        invariant
            v <= 256,
            hist@.len() == v,
            forall|k: int| 0 <= k < v ==> hist@[k] == 0,
        decreases 256 - v,
    {
        hist.push(0);
        v = v + 1;
    }
    let mut i: usize = 0;
    while i < values.len()
        invariant
            i <= values@.len(),
            hist@.len() == 256,
            forall|k: int| 0 <= k < 256 ==> #[trigger] hist@[k] == count_equal(values@.take(i as int), k) && hist@[k] <= i,
        decreases values@.len() - i,
    {
        let x = values[i] as usize;
        let ghost pre = values@.take(i as int);
        let ghost post = values@.take(i + 1);
        assert(post.drop_last() =~= pre);
        assert(post.last() == values@[i as int]);
        assert(hist@[x as int] == count_equal(pre, x as int));
        hist.set(x, hist[x] + 1);
        assert forall|k: int| 0 <= k < 256 implies #[trigger] hist@[k] == count_equal(post, k) && hist@[k] <= i + 1 by {
            if k != x {
                assert(hist@[k] == count_equal(pre, k));
            }
        }
        i = i + 1;
    }
    assert(values@.take(values@.len() as int) =~= values@);
    let mid = values.len() / 2;
    let mut cum: usize = 0;
    let mut w: usize = 0;
    proof { lemma_count_all(values@); }
    while w < 256
        invariant
            w <= 256,
            hist@.len() == 256,
            forall|k: int| 0 <= k < 256 ==> #[trigger] hist@[k] == count_equal(values@, k),
            cum == count_at_most(values@, w - 1),
            cum <= mid,
            mid == values@.len() / 2,
            values@.len() <= usize::MAX,
            count_at_most(values@, 255) == values@.len(),
        decreases 256 - w,
    {
        proof { lemma_count_split(values@, w as int); }
        assert(hist@[w as int] == count_equal(values@, w as int));
        cum = cum + hist[w];
        if cum > mid {
            return w as u8;
        }
        w = w + 1;
    }
    proof { lemma_count_split(values@, 255); }
    assert(false);
    0
}

/// The per-position median of equally long frames: each byte of the result
/// is the median of the bytes at that position (how a background plate is
/// made from a turntable sweep).
pub fn median_stack(frames: &Vec<Vec<u8>>) -> (r: Option<Vec<u8>>)
    requires
        forall|k: int| 0 <= k < frames@.len() ==> (#[trigger] frames@[k])@.len() == frames@[0]@.len(),
    ensures
        frames@.len() == 0 <==> r is None,
        r matches Some(out) ==> {
            &&& out@.len() == frames@[0]@.len()
            &&& forall|p: int| 0 <= p < out@.len() ==>
                is_median(Seq::new(frames@.len(), |k: int| frames@[k]@[p]), #[trigger] out@[p])
        },
{
    if frames.len() == 0 {
        return None;
    }
    let len = frames[0].len();
    let mut out: Vec<u8> = Vec::new();
    let mut p: usize = 0;
    while p < len
        invariant
            p <= len,
            len == frames@[0]@.len(),
            frames@.len() > 0,
            forall|k: int| 0 <= k < frames@.len() ==> (#[trigger] frames@[k])@.len() == frames@[0]@.len(),
            out@.len() == p,
            forall|q: int| 0 <= q < p ==> is_median(Seq::new(frames@.len(), |k: int| frames@[k]@[q]), #[trigger] out@[q]),
        decreases len - p,
    {
        let mut column: Vec<u8> = Vec::new();
        let mut k: usize = 0;
        while k < frames.len()
            invariant
                k <= frames@.len(),
                p < len,
                len == frames@[0]@.len(),
                forall|j: int| 0 <= j < frames@.len() ==> (#[trigger] frames@[j])@.len() == frames@[0]@.len(),
                column@ =~= Seq::new(k as nat, |j: int| frames@[j]@[p as int]),
            decreases frames@.len() - k,
        {
            assert(frames@[k as int]@.len() == len);
            column.push(frames[k][p]);
            k = k + 1;
        }
        assert(column@ =~= Seq::new(frames@.len(), |j: int| frames@[j]@[p as int]));
        let m = median_u8(column.as_slice());
        out.push(m);
        p = p + 1;
    }
    Some(out)
}

} // verus!
