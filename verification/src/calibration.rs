//! Lens and colour calibration sessions: which camera a session belongs to,
//! where its frames go, and the limits a session must stay within.
use vstd::prelude::*;
use crate::text::{chars_of, path_join, join_path, push_str, push_decimal, decimal, string_of, str_equal};

verus! {

/// A character that may stand in a camera id used as a directory name.
pub open spec fn id_char_kept(c: char) -> bool {
    ('a' <= c && c <= 'z') || ('A' <= c && c <= 'Z') || ('0' <= c && c <= '9') || c == '-' || c == '_'
}

/// `value` with every other character written as `_`; `_` when empty.
pub open spec fn spec_sanitize_id(value: Seq<char>) -> Seq<char> {
    if value.len() == 0 {
        seq!['_']
    } else {
        Seq::new(value.len(), |i: int| if id_char_kept(value[i]) { value[i] } else { '_' })
    }
}

/// A sanitized id is one safe path component: never empty, and made only of
/// ASCII letters, digits, `-` and `_`, so that it holds no separator and no
/// `.`; sanitizing it again changes nothing.
pub proof fn sanitized_ids_are_single_components(value: Seq<char>)
    ensures
        spec_sanitize_id(value).len() > 0,
        forall|i: int| 0 <= i < spec_sanitize_id(value).len() ==> id_char_kept(#[trigger] spec_sanitize_id(value)[i]),
        forall|i: int| 0 <= i < spec_sanitize_id(value).len() ==> {
            let c = #[trigger] spec_sanitize_id(value)[i];
            c != '/' && c != '\\' && c != '.'
        },
        spec_sanitize_id(spec_sanitize_id(value)) == spec_sanitize_id(value),
{
    assert(spec_sanitize_id(spec_sanitize_id(value)) =~= spec_sanitize_id(value));
}

pub fn sanitize_id(value: &str) -> (r: String)
    ensures
        r@ == spec_sanitize_id(value@),
{
    let v = chars_of(value);
    if v.len() == 0 {
        let r = "_".to_string();
        proof { reveal_strlit("_"); }
        assert(r@ =~= seq!['_']);
        return r;
    }
    let mut out: Vec<char> = Vec::new();
    let mut i: usize = 0;
    while i < v.len()
        invariant
            i <= v@.len(),
            v@ == value@,
            out@ =~= Seq::new(i as nat, |k: int| if id_char_kept(v@[k]) { v@[k] } else { '_' }),
        decreases v@.len() - i,
    {
        let c = v[i];
        let keep = ('a' <= c && c <= 'z') || ('A' <= c && c <= 'Z') || ('0' <= c && c <= '9') || c == '-' || c == '_';
        out.push(if keep { c } else { '_' });
        i = i + 1;
    }
    string_of(out.as_slice())
}

/// The directory of a camera's calibration frames.
pub open spec fn spec_calibration_dir(projects_dir: Seq<char>, camera_id: Seq<char>) -> Seq<char> {
    path_join(path_join(projects_dir, "_calibration"@), spec_sanitize_id(camera_id))
}

pub fn calibration_dir(projects_dir: &str, camera_id: &str) -> (r: String)
    ensures
        r@ == spec_calibration_dir(projects_dir@, camera_id@),
{
    let root = chars_of(projects_dir);
    let sub = chars_of("_calibration");
    let base = join_path(root.as_slice(), sub.as_slice());
    let id = sanitize_id(camera_id);
    let idv = chars_of(id.as_str());
    let full = join_path(base.as_slice(), idv.as_slice());
    string_of(full.as_slice())
}

/// The frames captured for the current calibration and the camera they
/// belong to.
#[derive(Debug, Clone, PartialEq, Eq)]
pub struct CalibrationSession {
    pub camera_id: Option<String>,
    pub captured_frames: Vec<String>,
}

pub open spec fn session_camera_is(session: CalibrationSession, camera_id: Seq<char>) -> bool {
    session.camera_id matches Some(c) && c@ == camera_id
}

/// Starts a new session when frames of another camera (or none) are held:
/// the held frames are returned for removal and the session names the camera.
pub fn reset_session_if_needed(session: &mut CalibrationSession, camera_id: &str) -> (dropped: Vec<String>)
    ensures
        session_camera_is(*old(session), camera_id@) ==> *final(session) == *old(session) && dropped@.len() == 0,
        !session_camera_is(*old(session), camera_id@) ==> {
            &&& dropped@ == old(session).captured_frames@
            &&& final(session).captured_frames@.len() == 0
            &&& session_camera_is(*final(session), camera_id@)
        },
{
    let same = match &session.camera_id {
        Some(c) => str_equal(c.as_str(), camera_id),
        None => false,
    };
    if same {
        return Vec::new();
    }
    let mut dropped: Vec<String> = Vec::new();
    std::mem::swap(&mut dropped, &mut session.captured_frames);
    session.camera_id = Some(camera_id.to_string());
    dropped
}

/// Ends a calibration session: the held frames are returned for removal and
/// the session names no camera.
pub fn clear_session_frames(session: &mut CalibrationSession) -> (dropped: Vec<String>)
    ensures
        dropped@ == old(session).captured_frames@,
        final(session).captured_frames@.len() == 0,
        final(session).camera_id is None,
{
    let mut dropped: Vec<String> = Vec::new();
    std::mem::swap(&mut dropped, &mut session.captured_frames);
    session.camera_id = None;
    dropped
}

/// The index the next frame of a session gets, unless the session already
/// holds the 64 frames it may.
pub fn next_frame_slot(session: &CalibrationSession) -> (r: Option<usize>)
    ensures
        r is None <==> session.captured_frames@.len() >= 64,
        r matches Some(i) ==> i == session.captured_frames@.len(),
{
    if session.captured_frames.len() >= 64 {
        None
    } else {
        Some(session.captured_frames.len())
    }
}

/// The file name of a calibration frame: `calib_<id>_<index>.jpg`.
pub open spec fn spec_frame_name(camera_id: Seq<char>, frame_id: nat) -> Seq<char> {
    "calib_"@ + spec_sanitize_id(camera_id) + seq!['_'] + decimal(frame_id) + ".jpg"@
}

pub fn calibration_frame_name(camera_id: &str, frame_id: usize) -> (r: String)
    ensures
        r@ == spec_frame_name(camera_id@, frame_id as nat),
{
    let mut out: Vec<char> = Vec::new();
    push_str(&mut out, "calib_");
    let id = sanitize_id(camera_id);
    push_str(&mut out, id.as_str());
    out.push('_');
    push_decimal(&mut out, frame_id as u64);
    push_str(&mut out, ".jpg");
    string_of(out.as_slice())
}

/// Records a stored frame of the session's camera.
pub fn record_calibration_frame(session: &mut CalibrationSession, path: String, camera_id: &str)
    ensures
        final(session).captured_frames@ == old(session).captured_frames@.push(path),
        session_camera_is(*final(session), camera_id@),
{
    session.captured_frames.push(path);
    session.camera_id = Some(camera_id.to_string());
}

/// Why a calibration cannot be computed from the session.
#[derive(Debug, Clone, PartialEq, Eq)]
pub enum CalibrationRefusal {
    /// Fewer than five frames were captured (the count is given).
    NeedFrames(usize),
    /// No frame was captured (colour calibration).
    NoFrames,
    /// Neither the request nor the session names a camera.
    MissingCamera,
    /// The colour calibration names no camera.
    MissingColorCamera,
}

impl CalibrationRefusal {
    pub open spec fn spec_message(self) -> Seq<char> {
        match self {
            CalibrationRefusal::NeedFrames(n) => "Need at least 5 frames, have "@ + decimal(n as nat),
            CalibrationRefusal::NoFrames => "No calibration frames captured"@,
            CalibrationRefusal::MissingCamera => "Missing camera_id for calibration"@,
            CalibrationRefusal::MissingColorCamera => "Missing camera_id for color calibration"@,
        }
    }

    /// The text the refusal is answered with.
    pub fn message(&self) -> (r: String)
        ensures
            r@ == self.spec_message(),
    {
        match self {
            CalibrationRefusal::NeedFrames(n) => {
                let mut out: Vec<char> = Vec::new();
                push_str(&mut out, "Need at least 5 frames, have ");
                push_decimal(&mut out, *n as u64);
                string_of(out.as_slice())
            },
            CalibrationRefusal::NoFrames => "No calibration frames captured".to_string(),
            CalibrationRefusal::MissingCamera => "Missing camera_id for calibration".to_string(),
            CalibrationRefusal::MissingColorCamera => "Missing camera_id for color calibration".to_string(),
        }
    }
}

/// The camera a calibration is computed for: the requested one, else the
/// session's.
pub open spec fn spec_calibration_camera(requested: Option<String>, session: CalibrationSession) -> Option<String> {
    match requested {
        Some(c) => Some(c),
        None => session.camera_id,
    }
}

/// A checkerboard calibration needs five frames and a camera.
pub fn checkerboard_gate(requested: Option<String>, session: &CalibrationSession) -> (r: Result<String, CalibrationRefusal>)
    ensures
        session.captured_frames@.len() < 5 ==> r == Err::<String, CalibrationRefusal>(CalibrationRefusal::NeedFrames(session.captured_frames@.len() as usize)),
        session.captured_frames@.len() >= 5 ==> match spec_calibration_camera(requested, *session) {
            Some(c) => r == Ok::<String, CalibrationRefusal>(c),
            None => r == Err::<String, CalibrationRefusal>(CalibrationRefusal::MissingCamera),
        },
{
    if session.captured_frames.len() < 5 {
        return Err(CalibrationRefusal::NeedFrames(session.captured_frames.len()));
    }
    match requested {
        Some(c) => Ok(c),
        None => match &session.camera_id {
            Some(c) => Ok(c.clone()),
            None => Err(CalibrationRefusal::MissingCamera),
        },
    }
}

/// The checkerboard's inner corners: 9 rows and 6 columns unless given.
pub fn checkerboard_dims(rows: Option<i32>, cols: Option<i32>) -> (r: (i32, i32))
    ensures
        r.0 == (match rows { Some(v) => v, None => 9 }),
        r.1 == (match cols { Some(v) => v, None => 6 }),
{
    (match rows { Some(v) => v, None => 9 }, match cols { Some(v) => v, None => 6 })
}

/// Why a session's frames are too large to calibrate from.
#[derive(Debug, Clone, Copy, PartialEq, Eq, Structural)]
pub enum FrameSizeRefusal {
    /// A frame is empty or over 128 MiB.
    Frame,
    /// The frames together are over 2 GiB.
    Session,
}

/// Adds a frame of `bytes` to the session total.
pub fn add_frame_bytes(total: u64, bytes: u64) -> (r: Result<u64, FrameSizeRefusal>)
    ensures
        (bytes == 0 || bytes > 134217728) ==> r == Err::<u64, FrameSizeRefusal>(FrameSizeRefusal::Frame),
        !(bytes == 0 || bytes > 134217728) && total + bytes > 2147483648 ==> r == Err::<u64, FrameSizeRefusal>(FrameSizeRefusal::Session),
        !(bytes == 0 || bytes > 134217728) && total + bytes <= 2147483648 ==> r == Ok::<u64, FrameSizeRefusal>((total + bytes) as u64),
{
    if bytes == 0 || bytes > 134217728 {
        return Err(FrameSizeRefusal::Frame);
    }
    match total.checked_add(bytes) {
        Some(t) => if t <= 2147483648 { Ok(t) } else { Err(FrameSizeRefusal::Session) },
        None => Err(FrameSizeRefusal::Session),
    }
}

/// The frame a colour calibration reads: the requested index when it is held,
/// else the last frame.
pub fn color_frame_index(requested: Option<usize>, frames: usize) -> (r: Option<usize>)
    ensures
        frames == 0 ==> r is None,
        frames > 0 ==> r == Some(match requested {
            Some(i) => if i < frames { i } else { (frames - 1) as usize },
            None => (frames - 1) as usize,
        }),
{
    if frames == 0 {
        return None;
    }
    let idx = match requested { Some(i) => i, None => frames - 1 };
    if idx < frames { Some(idx) } else { Some(frames - 1) }
}

/// A colour calibration needs a frame and a camera.
pub fn color_calibration_gate(
    requested_camera: Option<String>,
    requested_frame: Option<usize>,
    session: &CalibrationSession,
) -> (r: Result<(usize, String), CalibrationRefusal>)
    ensures
        session.captured_frames@.len() == 0 ==> r == Err::<(usize, String), CalibrationRefusal>(CalibrationRefusal::NoFrames),
        session.captured_frames@.len() > 0 ==> match spec_calibration_camera(requested_camera, *session) {
            Some(c) => r matches Ok((i, c2)) && c2 == c && Some(i) == (match requested_frame {
                Some(k) => if k < session.captured_frames@.len() { Some(k) } else { Some((session.captured_frames@.len() - 1) as usize) },
                None => Some((session.captured_frames@.len() - 1) as usize),
            }),
            None => r == Err::<(usize, String), CalibrationRefusal>(CalibrationRefusal::MissingColorCamera),
        },
{
    let idx = match color_frame_index(requested_frame, session.captured_frames.len()) {
        Some(i) => i,
        None => return Err(CalibrationRefusal::NoFrames),
    };
    match requested_camera {
        Some(c) => Ok((idx, c)),
        None => match &session.camera_id {
            Some(c) => Ok((idx, c.clone())),
            None => Err(CalibrationRefusal::MissingColorCamera),
        },
    }
}

/// Why no camera could be chosen for a calibration frame.
#[derive(Debug, Clone, PartialEq, Eq)]
pub enum CameraChoiceError {
    /// "No cameras available"
    NoCameras,
    /// "Camera <id> not found"
    NotFound(String),
    /// "Camera index <i> out of range"
    IndexOutOfRange(usize),
}

/// The camera a frame is captured with: the one with the requested id, else
/// the one at the requested index, else the first.
pub fn choose_camera(ids: &Vec<String>, camera_id: Option<&str>, camera_index: Option<usize>) -> (r: Result<usize, CameraChoiceError>)
    ensures
        ids@.len() == 0 ==> r == Err::<usize, CameraChoiceError>(CameraChoiceError::NoCameras),
        ids@.len() > 0 && camera_id is Some ==> match r {
            Ok(i) => i < ids@.len() && ids@[i as int]@ == camera_id->0@
                && forall|j: int| 0 <= j < i ==> ids@[j]@ != camera_id->0@,
            Err(e) => (e matches CameraChoiceError::NotFound(s) && s@ == camera_id->0@)
                && forall|j: int| 0 <= j < ids@.len() ==> ids@[j]@ != camera_id->0@,
        },
        ids@.len() > 0 && camera_id is None ==> match camera_index {
            Some(k) => if k < ids@.len() { r == Ok::<usize, CameraChoiceError>(k) } else { r == Err::<usize, CameraChoiceError>(CameraChoiceError::IndexOutOfRange(k)) },
            None => r == Ok::<usize, CameraChoiceError>(0),
        },
{
    if ids.len() == 0 {
        return Err(CameraChoiceError::NoCameras);
    }
    match camera_id {
        Some(id) => {
            let mut i: usize = 0;
            while i < ids.len()
                invariant
                    i <= ids@.len(),
                    ids@.len() > 0,
                    camera_id == Some(id),
                    forall|j: int| 0 <= j < i ==> ids@[j]@ != id@,
                decreases ids@.len() - i,
            {
                if str_equal(ids[i].as_str(), id) {
                    return Ok(i);
                }
                i = i + 1;
            }
            Err(CameraChoiceError::NotFound(id.to_string()))
        },
        None => match camera_index {
            Some(k) => if k < ids.len() { Ok(k) } else { Err(CameraChoiceError::IndexOutOfRange(k)) },
            None => Ok(0),
        },
    }
}

impl CameraChoiceError {
    pub open spec fn spec_message(self) -> Seq<char> {
        match self {
            CameraChoiceError::NoCameras => "No cameras available"@,
            CameraChoiceError::NotFound(id) => "Camera "@ + id@ + " not found"@,
            CameraChoiceError::IndexOutOfRange(i) => "Camera index "@ + decimal(i as nat) + " out of range"@,
        }
    }

    pub fn message(&self) -> (r: String)
        ensures
            r@ == self.spec_message(),
    {
        match self {
            CameraChoiceError::NoCameras => "No cameras available".to_string(),
            CameraChoiceError::NotFound(id) => {
                let mut out: Vec<char> = Vec::new();
                push_str(&mut out, "Camera ");
                push_str(&mut out, id.as_str());
                push_str(&mut out, " not found");
                string_of(out.as_slice())
            },
            CameraChoiceError::IndexOutOfRange(i) => {
                let mut out: Vec<char> = Vec::new();
                push_str(&mut out, "Camera index ");
                push_decimal(&mut out, *i as u64);
                push_str(&mut out, " out of range");
                string_of(out.as_slice())
            },
        }
    }
}

} // verus!
