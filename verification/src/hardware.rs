//! Camera control helpers: HDR bracket planning, stream limits, stream access
//! checks.
use vstd::prelude::*;
use crate::text::{
    chars_of, chars_eq, copy_range, eq_str, parse_u64, parse_u64_spec, starts_with, str_equal, string_of,
    trim, trim_bounds, window_starts_with,
};

verus! {

/// Roles of an authenticated caller.
#[derive(Debug, Clone, Copy, PartialEq, Eq, Structural)]
pub enum Role {
    Admin,
    Guest,
}

/// The authenticated caller of a request.
#[derive(Debug, Clone)]
pub struct AuthContext {
    pub sub: String,
    pub role: Role,
    pub scopes: Vec<String>,
}

/// Whether a scope list grants `scope` (exactly or by `*`).
pub open spec fn scopes_grant(scopes: Seq<String>, scope: Seq<char>) -> bool {
    exists|i: int| 0 <= i < scopes.len() && (scopes[i]@ == "*"@ || scopes[i]@ == scope)
}

/// Admins may do anything; others need the scope or `*`.
pub fn scopes_allow(ctx: &AuthContext, scope: &str) -> (b: bool)
    ensures
        b == (ctx.role == Role::Admin || scopes_grant(ctx.scopes@, scope@)),
{
    if ctx.role == Role::Admin {
        return true;
    }
    let mut i: usize = 0;
    while i < ctx.scopes.len()
        invariant
            i <= ctx.scopes@.len(),
            ctx.role != Role::Admin,
            forall|j: int| 0 <= j < i ==> !(ctx.scopes@[j]@ == "*"@ || ctx.scopes@[j]@ == scope@),
        decreases ctx.scopes@.len() - i,
    {
        if str_equal(ctx.scopes[i].as_str(), "*") || str_equal(ctx.scopes[i].as_str(), scope) {
            return true;
        }
        i = i + 1;
    }
    false
}

pub open spec fn list_contains(list: Seq<String>, s: Seq<char>) -> bool {
    exists|i: int| 0 <= i < list.len() && list[i]@ == s
}

pub fn contains_string(list: &Vec<String>, s: &str) -> (b: bool)
    ensures
        b == list_contains(list@, s@),
{
    let mut i: usize = 0;
    while i < list.len()
        invariant
            i <= list@.len(),
            forall|j: int| 0 <= j < i ==> list@[j]@ != s@,
        decreases list@.len() - i,
    {
        if str_equal(list[i].as_str(), s) {
            return true;
        }
        i = i + 1;
    }
    false
}

/// A stream request is allowed when no origin list is configured, when it
/// names no (readable) `Origin`, or when its origin is listed.
pub fn origin_allowed(origin: Option<&str>, allowed: &Option<Vec<String>>) -> (b: bool)
    ensures
        b == match allowed {
            None => true,
            Some(list) => match origin {
                None => true,
                Some(o) => list_contains(list@, o@),
            },
        },
{
    match allowed {
        None => true,
        Some(list) => match origin {
            None => true,
            Some(o) => contains_string(list, o),
        },
    }
}

/// The token of an `Authorization: Bearer <token>` header, trimmed; `None`
/// without the prefix or when the token is blank.
pub fn extract_bearer(header: Option<&str>) -> (r: Option<String>)
    ensures
        match header {
            None => r is None,
            Some(h) => if starts_with(h@, "Bearer "@) && trim(h@.skip(7)).len() > 0 {
                r matches Some(t) && t@ == trim(h@.skip(7))
            } else {
                r is None
            },
        },
{
    proof { reveal_strlit("Bearer "); }
    match header {
        None => None,
        Some(h) => {
            let v = chars_of(h);
            let p = chars_of("Bearer ");
            assert(v@.subrange(0, v@.len() as int) =~= v@);
            if !window_starts_with(v.as_slice(), 0, v.len(), p.as_slice()) {
                return None;
            }
            let (a, b) = trim_bounds(v.as_slice(), 7, v.len());
            assert(v@.subrange(7, v@.len() as int) =~= v@.skip(7));
            if a == b {
                return None;
            }
            Some(string_of(copy_range(v.as_slice(), a, b).as_slice()))
        },
    }
}

/// `<u32 as FromStr>::from_str`.
pub open spec fn parse_u32_spec(s: Seq<char>) -> Option<u32> {
    match parse_u64_spec(s) {
        Some(v) => if v <= u32::MAX { Some(v as u32) } else { None },
        None => None,
    }
}

pub fn parse_u32_str(s: &str) -> (r: Option<u32>)
    ensures
        r == parse_u32_spec(s@),
{
    let v = chars_of(s);
    assert(v@.subrange(0, v@.len() as int) =~= v@);
    match parse_u64(v.as_slice(), 0, v.len()) {
        Some(x) => if x <= u32::MAX as u64 { Some(x as u32) } else { None },
        None => None,
    }
}

pub fn parse_u64_str(s: &str) -> (r: Option<u64>)
    ensures
        r == parse_u64_spec(s@),
{
    let v = chars_of(s);
    assert(v@.subrange(0, v@.len() as int) =~= v@);
    parse_u64(v.as_slice(), 0, v.len())
}

/// `<usize as FromStr>::from_str` on a whole string.
pub fn parse_usize_str(s: &str) -> (r: Option<usize>)
    ensures
        r == crate::text::parse_usize_spec(s@),
{
    let v = chars_of(s);
    assert(v@.subrange(0, v@.len() as int) =~= v@);
    crate::text::parse_usize(v.as_slice(), 0, v.len())
}

/// Limits of a live camera stream.
#[derive(Debug, Clone, Copy, PartialEq, Eq, Structural)]
pub struct StreamLimits {
    pub max_fps: u32,
    pub max_frame_bytes: usize,
    pub max_bytes_per_sec: usize,
    pub idle_timeout_seconds: u64,
}

pub open spec fn clamp_u32(v: u32, lo: u32, hi: u32) -> u32 {
    if v < lo { lo } else if v > hi { hi } else { v }
}

pub open spec fn opt_parse_u32(s: Option<Seq<char>>) -> Option<u32> {
    match s { Some(t) => parse_u32_spec(t), None => None }
}

pub open spec fn opt_parse_usize(s: Option<Seq<char>>) -> Option<usize> {
    match s { Some(t) => crate::text::parse_usize_spec(t), None => None }
}

pub open spec fn opt_parse_u64(s: Option<Seq<char>>) -> Option<u64> {
    match s { Some(t) => parse_u64_spec(t), None => None }
}

pub open spec fn opt_str(s: Option<&str>) -> Option<Seq<char>> {
    match s { Some(t) => Some(t@), None => None }
}

/// Stream limits from their settings: 30 fps clamped to 5..=120, 4 MiB
/// frames, 8 MiB per second, and an idle timeout of 30 seconds but no less
/// than 5; an unreadable setting counts as absent.
pub fn load_stream_limits(fps: Option<&str>, frame_bytes: Option<&str>, bytes_per_sec: Option<&str>, idle_seconds: Option<&str>) -> (r: StreamLimits)
    ensures
        r.max_fps == clamp_u32(match opt_parse_u32(opt_str(fps)) { Some(v) => v, None => 30u32 }, 5, 120),
        r.max_frame_bytes == match opt_parse_usize(opt_str(frame_bytes)) { Some(v) => v, None => 4194304usize },
        r.max_bytes_per_sec == match opt_parse_usize(opt_str(bytes_per_sec)) { Some(v) => v, None => 8388608usize },
        r.idle_timeout_seconds == ({
            let i = match opt_parse_u64(opt_str(idle_seconds)) { Some(v) => v, None => 30u64 };
            if i < 5 { 5u64 } else { i }
        }),
{
    let f = match fps { Some(s) => match parse_u32_str(s) { Some(v) => v, None => 30 }, None => 30 };
    let max_fps = if f < 5 { 5 } else if f > 120 { 120 } else { f };
    let max_frame_bytes = match frame_bytes { Some(s) => match parse_usize_str(s) { Some(v) => v, None => 4194304 }, None => 4194304 };
    let max_bytes_per_sec = match bytes_per_sec { Some(s) => match parse_usize_str(s) { Some(v) => v, None => 8388608 }, None => 8388608 };
    let i = match idle_seconds { Some(s) => match parse_u64_str(s) { Some(v) => v, None => 30 }, None => 30 };
    StreamLimits { max_fps, max_frame_bytes, max_bytes_per_sec, idle_timeout_seconds: if i < 5 { 5 } else { i } }
}

/// Index of the first option equal to `value`.
pub open spec fn position_of(options: Seq<String>, value: Seq<char>) -> Option<int>
    decreases options.len(),
{
    if options.len() == 0 {
        None
    } else {
        match position_of(options.drop_last(), value) {
            Some(i) => Some(i),
            None => if options.last()@ == value { Some(options.len() - 1) } else { None },
        }
    }
}

fn find_option(options: &[String], value: &str) -> (r: Option<usize>)
    ensures
        match r {
            Some(i) => position_of(options@, value@) == Some(i as int) && i < options@.len(),
            None => position_of(options@, value@) is None,
        },
{
    let mut i: usize = 0;
    while i < options.len()
        invariant
            i <= options@.len(),
            position_of(options@.take(i as int), value@) is None,
        decreases options@.len() - i,
    {
        assert(options@.take(i + 1).drop_last() =~= options@.take(i as int));
        if str_equal(options[i].as_str(), value) {
            proof { lemma_position_prefix(options@, value@, i as int + 1); }
            return Some(i);
        }
        i = i + 1;
    }
    assert(options@.take(options@.len() as int) =~= options@);
    None
}

proof fn lemma_position_prefix(options: Seq<String>, value: Seq<char>, k: int)
    requires
        0 <= k <= options.len(),
        position_of(options.take(k), value) is Some,
    ensures
        position_of(options, value) == position_of(options.take(k), value),
    decreases options.len() - k,
{
    if k < options.len() {
        assert(options.take(k + 1).drop_last() =~= options.take(k));
        lemma_position_prefix(options, value, k + 1);
    } else {
        assert(options.take(k) =~= options);
    }
}

pub open spec fn clamp_int(v: int, lo: int, hi: int) -> int {
    if v < lo { lo } else if v > hi { hi } else { v }
}

/// The exposure for each shot of an HDR bracket: centred on the base shutter
/// (or the middle option), stepping `ev_spacing` options per shot and held
/// at the ends of the list; with no options every shot keeps the base.
pub open spec fn spec_hdr_sequence(options: Seq<String>, base: Option<Seq<char>>, bracket_count: u8, ev_spacing: u8) -> Seq<Option<Seq<char>>> {
    if bracket_count == 0 {
        Seq::empty()
    } else if options.len() == 0 {
        Seq::new(bracket_count as nat, |i: int| base)
    } else {
        let base_idx: int = match base {
            Some(b) => match position_of(options, b) { Some(i) => i, None => (options.len() / 2) as int },
            None => (options.len() / 2) as int,
        };
        let half = bracket_count / 2;
        Seq::new(bracket_count as nat, |i: int| Some(options[clamp_int(base_idx + (i - half) * ev_spacing, 0, options.len() - 1)]@))
    }
}

proof fn lemma_position_of_absent(options: Seq<String>, value: Seq<char>)
    requires
        forall|i: int| 0 <= i < options.len() ==> (#[trigger] options[i])@ != value,
    ensures
        position_of(options, value) is None,
    decreases options.len(),
{
    if options.len() > 0 {
        let d = options.drop_last();
        assert forall|i: int| 0 <= i < d.len() implies (#[trigger] d[i])@ != value by {
            assert(d[i] == options[i]);
        }
        lemma_position_of_absent(d, value);
        assert(options.last() == options[options.len() - 1]);
    }
}

proof fn lemma_position_of_first(options: Seq<String>, value: Seq<char>, p: int)
    requires
        0 <= p < options.len(),
        options[p]@ == value,
        forall|i: int| 0 <= i < p ==> (#[trigger] options[i])@ != value,
    ensures
        position_of(options, value) == Some(p),
    decreases options.len(),
{
    let d = options.drop_last();
    if p < options.len() - 1 {
        assert(d[p] == options[p]);
        assert forall|i: int| 0 <= i < p implies (#[trigger] d[i])@ != value by {
            assert(d[i] == options[i]);
        }
        lemma_position_of_first(d, value, p);
    } else {
        assert forall|i: int| 0 <= i < d.len() implies (#[trigger] d[i])@ != value by {
            assert(d[i] == options[i]);
        }
        lemma_position_of_absent(d, value);
        assert(options.last() == options[p]);
    }
}

/// An HDR bracket over a non-empty option list is centred on the base
/// shutter's first place in the list, or on the middle option (`len / 2`)
/// when no base is known or the base is not among the options: the middle
/// shot is that option, and shot `i` is the option `(i - count / 2)` steps
/// of `ev_spacing` away from it whenever that place is in the list.
pub proof fn hdr_brackets_are_centred_on_the_base(
    options: Seq<String>,
    base: Option<Seq<char>>,
    bracket_count: u8,
    ev_spacing: u8,
    centre: int,
)
    requires
        options.len() > 0,
        bracket_count > 0,
        match base {
            None => centre == options.len() / 2,
            Some(b) => if forall|i: int| 0 <= i < options.len() ==> (#[trigger] options[i])@ != b {
                centre == options.len() / 2
            } else {
                0 <= centre < options.len() && options[centre]@ == b
                    && forall|i: int| 0 <= i < centre ==> (#[trigger] options[i])@ != b
            },
        },
    ensures
        spec_hdr_sequence(options, base, bracket_count, ev_spacing).len() == bracket_count,
        spec_hdr_sequence(options, base, bracket_count, ev_spacing)[(bracket_count / 2) as int] == Some(options[centre]@),
        forall|i: int| 0 <= i < bracket_count && 0 <= centre + (i - bracket_count / 2) * ev_spacing < options.len()
            ==> #[trigger] spec_hdr_sequence(options, base, bracket_count, ev_spacing)[i]
                == Some(options[centre + (i - bracket_count / 2) * ev_spacing]@),
        forall|i: int| 0 <= i < bracket_count && centre + (i - bracket_count / 2) * ev_spacing < 0
            ==> #[trigger] spec_hdr_sequence(options, base, bracket_count, ev_spacing)[i] == Some(options[0]@),
        forall|i: int| 0 <= i < bracket_count && centre + (i - bracket_count / 2) * ev_spacing >= options.len()
            ==> #[trigger] spec_hdr_sequence(options, base, bracket_count, ev_spacing)[i]
                == Some(options[options.len() - 1]@),
{
    match base {
        None => {},
        Some(b) => {
            if forall|i: int| 0 <= i < options.len() ==> (#[trigger] options[i])@ != b {
                lemma_position_of_absent(options, b);
            } else {
                lemma_position_of_first(options, b, centre);
            }
        },
    }
    let half = bracket_count / 2;
    assert((half - half) * ev_spacing == 0) by (nonlinear_arith);
}

/// Without shutter options every shot of a bracket keeps the base shutter.
pub proof fn hdr_brackets_without_options_keep_the_base(base: Option<Seq<char>>, bracket_count: u8, ev_spacing: u8)
    ensures
        spec_hdr_sequence(Seq::empty(), base, bracket_count, ev_spacing).len() == bracket_count,
        forall|i: int| 0 <= i < bracket_count ==> #[trigger] spec_hdr_sequence(Seq::empty(), base, bracket_count, ev_spacing)[i] == base,
{
}

pub open spec fn opt_string_views(v: Seq<Option<String>>) -> Seq<Option<Seq<char>>> {
    v.map_values(|o: Option<String>| match o { Some(s) => Some(s@), None => None })
}

pub fn build_hdr_sequence(options: &[String], base_shutter: Option<&String>, bracket_count: u8, ev_spacing: u8) -> (r: Vec<Option<String>>)
    requires
        options@.len() < 0x7fff0000,
    ensures
        opt_string_views(r@) == spec_hdr_sequence(options@, match base_shutter { Some(b) => Some(b@), None => None }, bracket_count, ev_spacing),
{
    let ghost base = match base_shutter { Some(b) => Some(b@), None => None };
    let ghost spec = spec_hdr_sequence(options@, base, bracket_count, ev_spacing);
    let mut sequence: Vec<Option<String>> = Vec::new();
    if bracket_count == 0 {
        assert(opt_string_views(sequence@) =~= spec);
        return sequence;
    }
    if options.len() == 0 {
        let mut i: u8 = 0;
        while i < bracket_count
            invariant
                i <= bracket_count,
                spec == Seq::new(bracket_count as nat, |k: int| base),
                base == match base_shutter { Some(b) => Some(b@), None => None },
                opt_string_views(sequence@) =~= Seq::new(i as nat, |k: int| base),
            decreases bracket_count - i,
        {
            let item = match base_shutter {
                Some(b) => {
                    let c = b.clone();
                    assert(c@ == b@);
                    Some(c)
                },
                None => None,
            };
            assert(match item { Some(s) => Some(s@), None => None } == base);
            let ghost before = sequence@;
            sequence.push(item);
            assert(opt_string_views(sequence@) =~= opt_string_views(before).push(base));
            assert(Seq::new(i as nat, |k: int| base).push(base) =~= Seq::new((i + 1) as nat, |k: int| base));
            i = i + 1;
        }
        return sequence;
    }
    let base_idx: i32 = match base_shutter {
        Some(b) => match find_option(options, b.as_str()) { Some(p) => p as i32, None => (options.len() / 2) as i32 },
        None => (options.len() / 2) as i32,
    };
    let half: i32 = (bracket_count as i32) / 2;
    let step: i32 = ev_spacing as i32;
    let last: i32 = (options.len() - 1) as i32;
    let mut idx: u8 = 0;
    while idx < bracket_count
        invariant
            idx <= bracket_count,
            options@.len() > 0,
            options@.len() < 0x7fff0000,
            last == options@.len() - 1,
            0 <= base_idx < options@.len(),
            half == bracket_count / 2,
            step == ev_spacing,
            base == match base_shutter { Some(b) => Some(b@), None => None },
            base_idx == match base { Some(b) => match position_of(options@, b) { Some(i) => i, None => (options@.len() / 2) as int }, None => (options@.len() / 2) as int },
            spec == spec_hdr_sequence(options@, base, bracket_count, ev_spacing),
            opt_string_views(sequence@) =~= spec.take(idx as int),
        decreases bracket_count - idx,
    {
        let offset: i32 = idx as i32 - half;
        assert(-32640 <= offset * step <= 65025) by (nonlinear_arith)
            requires
                -128 <= offset <= 255,
                0 <= step <= 255,
        {
        }
        let raw: i32 = base_idx + offset * step;
        let target: i32 = if raw < 0 { 0 } else if raw > last { last } else { raw };
        assert(target == clamp_int(base_idx + (idx - half) * ev_spacing, 0, options@.len() - 1));
        let item = options[target as usize].clone();
        assert(item@ == options@[target as int]@);
        assert(spec[idx as int] == Some(item@));
        let ghost before = sequence@;
        sequence.push(Some(item));
        assert(opt_string_views(sequence@) =~= opt_string_views(before).push(Some(item@)));
        idx = idx + 1;
        assert(opt_string_views(sequence@) =~= spec.take(idx as int));
    }
    assert(spec.take(bracket_count as int) =~= spec);
    sequence
}


/// A camera's new display name.
#[derive(Debug, Clone, PartialEq, Eq)]
pub struct NicknameUpdate {
    pub nickname: String,
}

/// Camera settings to apply.
#[derive(Debug, Clone, PartialEq, Eq)]
pub struct ConfigRequest {
    pub iso: Option<String>,
    pub shutter_speed: Option<String>,
    pub aperture: Option<String>,
    pub wb: Option<String>,
    pub capture_target: Option<String>,
}

/// Turns a camera on or off.
#[derive(Debug, Clone, Copy, PartialEq, Eq, Structural)]
pub struct EnabledRequest {
    pub enabled: bool,
}

/// Moves the focus motor by a number of steps.
#[derive(Debug, Clone, Copy, PartialEq, Eq, Structural)]
pub struct DriveFocusRequest {
    pub step: i32,
}

/// The token a signed stream URL may carry.
#[derive(Debug, Clone, PartialEq, Eq)]
pub struct StreamQuery {
    pub token: Option<String>,
}

/// The shots of a capture sequence.
#[derive(Debug, Clone, PartialEq, Eq)]
pub struct CaptureSequenceResult {
    pub status: String,
    pub shots: Vec<String>,
}

impl CaptureSequenceResult {
    /// A finished sequence: status `captured` with its shots.
    pub fn captured(shots: Vec<String>) -> (r: Self)
        ensures
            r.status@ == "captured"@,
            r.shots == shots,
    {
        CaptureSequenceResult { status: "captured".to_string(), shots }
    }
}

/// An exposure bracket.
#[derive(Debug, Clone, PartialEq, Eq)]
pub struct HdrBracketRequest {
    pub bracket_count: u8,
    pub ev_spacing: u8,
    pub base_shutter: Option<String>,
    pub capture_target: Option<String>,
}

/// A focus stack.
#[derive(Debug, Clone, PartialEq, Eq)]
pub struct FocusStackRequest {
    pub slice_count: u32,
    pub step_size: i32,
    pub direction: String,
    pub capture_target: Option<String>,
}

/// A focus stack with an exposure bracket at each slice.
#[derive(Debug, Clone, PartialEq, Eq)]
pub struct HdrFocusStackRequest {
    pub bracket_count: u8,
    pub ev_spacing: u8,
    pub base_shutter: Option<String>,
    pub slice_count: u32,
    pub step_size: i32,
    pub direction: String,
    pub capture_target: Option<String>,
}

/// Settings an intervalometer moves between over its frames.
#[derive(Debug, Clone, PartialEq, Eq)]
pub struct IntervalometerRamp {
    pub shutter_start: Option<String>,
    pub shutter_end: Option<String>,
    pub iso_start: Option<String>,
    pub iso_end: Option<String>,
}

/// A timed series of captures.
#[derive(Debug, Clone, PartialEq, Eq)]
pub struct IntervalometerStartRequest {
    pub interval_ms: u64,
    pub total_frames: Option<u32>,
    pub ramp: Option<IntervalometerRamp>,
    pub capture_target: Option<String>,
}

/// A bracket has an odd number of at least three shots, at least one EV
/// apart.
pub fn validate_bracket(bracket_count: u8, ev_spacing: u8) -> (r: Result<(), &'static str>)
    ensures
        (bracket_count < 3 || bracket_count % 2 == 0) ==> (r matches Err(e) && e@ == "bracket_count must be an odd number >= 3"@),
        !(bracket_count < 3 || bracket_count % 2 == 0) && ev_spacing == 0 ==> (r matches Err(e) && e@ == "ev_spacing must be >= 1"@),
        !(bracket_count < 3 || bracket_count % 2 == 0) && ev_spacing != 0 ==> r is Ok,
{
    if bracket_count < 3 || bracket_count % 2 == 0 {
        return Err("bracket_count must be an odd number >= 3");
    }
    if ev_spacing == 0 {
        return Err("ev_spacing must be >= 1");
    }
    Ok(())
}

/// The focus motor step between slices: `|step_size|` within 1 ..= 200,
/// towards the camera for `near` and away for `far` (either in any case).
pub open spec fn spec_focus_step(slice_count: u32, step_size: i32, direction: Seq<char>) -> Result<int, Seq<char>> {
    let mag = if step_size < 0 { -step_size } else { step_size as int };
    let step = if mag < 1 { 1 } else if mag > 200 { 200 } else { mag };
    if slice_count < 2 {
        Err("slice_count must be >= 2"@)
    } else if crate::text::eq_ignore_ascii_case_spec(direction, "near"@) {
        Ok(step)
    } else if crate::text::eq_ignore_ascii_case_spec(direction, "far"@) {
        Ok(-step)
    } else {
        Err("direction must be 'near' or 'far'"@)
    }
}

pub fn focus_step(slice_count: u32, step_size: i32, direction: &str) -> (r: Result<i32, &'static str>)
    requires
        step_size != i32::MIN,
    ensures
        match r {
            Ok(v) => spec_focus_step(slice_count, step_size, direction@) == Ok::<int, Seq<char>>(v as int),
            Err(e) => spec_focus_step(slice_count, step_size, direction@) == Err::<int, Seq<char>>(e@),
        },
{
    if slice_count < 2 {
        return Err("slice_count must be >= 2");
    }
    let mag: i32 = if step_size < 0 { -step_size } else { step_size };
    let step: i32 = if mag < 1 { 1 } else if mag > 200 { 200 } else { mag };
    if crate::text::str_eq_ignore_ascii_case(direction, "near") {
        Ok(step)
    } else if crate::text::str_eq_ignore_ascii_case(direction, "far") {
        Ok(-step)
    } else {
        Err("direction must be 'near' or 'far'")
    }
}

/// An HDR focus stack is checked as a bracket, then as a focus stack.
pub fn hdr_focus_stack_step(request: &HdrFocusStackRequest) -> (r: Result<i32, &'static str>)
    requires
        request.step_size != i32::MIN,
    ensures
        match validate_bracket_spec(request.bracket_count, request.ev_spacing) {
            Some(e) => r matches Err(m) && m@ == e,
            None => match r {
                Ok(v) => spec_focus_step(request.slice_count, request.step_size, request.direction@) == Ok::<int, Seq<char>>(v as int),
                Err(m) => spec_focus_step(request.slice_count, request.step_size, request.direction@) == Err::<int, Seq<char>>(m@),
            },
        },
{
    match validate_bracket(request.bracket_count, request.ev_spacing) {
        Err(e) => Err(e),
        Ok(()) => focus_step(request.slice_count, request.step_size, request.direction.as_str()),
    }
}

/// The refusal of a bracket, if any.
pub open spec fn validate_bracket_spec(bracket_count: u8, ev_spacing: u8) -> Option<Seq<char>> {
    if bracket_count < 3 || bracket_count % 2 == 0 {
        Some("bracket_count must be an odd number >= 3"@)
    } else if ev_spacing == 0 {
        Some("ev_spacing must be >= 1"@)
    } else {
        None
    }
}

/// The shutter a bracket is centred on: the requested one, else the camera's
/// last used one.
pub fn bracket_base_shutter(requested: Option<String>, last_used: Option<String>) -> (r: Option<String>)
    ensures
        r == (match requested { Some(s) => Some(s), None => last_used }),
{
    match requested {
        Some(s) => Some(s),
        None => last_used,
    }
}

/// Intervals shorter than 200 ms are refused.
pub fn validate_interval(interval_ms: u64) -> (r: Result<(), &'static str>)
    ensures
        interval_ms < 200 ==> (r matches Err(e) && e@ == "interval_ms must be >= 200"@),
        interval_ms >= 200 ==> r is Ok,
{
    if interval_ms < 200 {
        Err("interval_ms must be >= 200")
    } else {
        Ok(())
    }
}

/// An intervalometer with a frame count stops once that many were captured.
pub fn intervalometer_finished(total_frames: Option<u32>, captured: u32) -> (r: bool)
    ensures
        r == (total_frames matches Some(t) && captured >= t),
{
    match total_frames {
        Some(t) => captured >= t,
        None => false,
    }
}

/// The token of a stream request: from the URL, else the bearer header,
/// else the session cookie.
pub fn stream_token(query: &StreamQuery, bearer: Option<String>, cookie: Option<String>) -> (r: Option<String>)
    ensures
        r == (match query.token {
            Some(t) => Some(t),
            None => match bearer { Some(b) => Some(b), None => cookie },
        }),
{
    match &query.token {
        Some(t) => Some(t.clone()),
        None => match bearer {
            Some(b) => Some(b),
            None => cookie,
        },
    }
}

/// Milliseconds between stream frames: `1000 / max_fps`, at least 5.
pub fn stream_interval_ms(limits: StreamLimits) -> (r: u64)
    requires
        limits.max_fps >= 1,
    ensures
        r == (if 1000int / (limits.max_fps as int) < 5 { 5 } else { 1000int / (limits.max_fps as int) }),
{
    let ms = 1000u64 / (limits.max_fps as u64);
    if ms < 5 { 5 } else { ms }
}

/// What is done with a grabbed frame.
#[derive(Debug, Clone, Copy, PartialEq, Eq, Structural)]
pub enum FrameDecision {
    /// Over the frame size limit.
    TooLarge,
    /// Over what is left of this second's byte budget.
    OverBudget,
    Send,
}

/// A frame is sent when it is within the frame limit and the byte budget.
pub fn stream_frame_decision(budget: i64, frame_len: usize, max_frame_bytes: usize) -> (r: FrameDecision)
    ensures
        frame_len > max_frame_bytes ==> r == FrameDecision::TooLarge,
        frame_len <= max_frame_bytes && budget < frame_len ==> r == FrameDecision::OverBudget,
        frame_len <= max_frame_bytes && budget >= frame_len ==> r == FrameDecision::Send,
{
    if frame_len > max_frame_bytes {
        FrameDecision::TooLarge
    } else if (budget as i128) < (frame_len as i128) {
        FrameDecision::OverBudget
    } else {
        FrameDecision::Send
    }
}

/// The part header that precedes a JPEG frame of `len` bytes.
pub open spec fn spec_frame_header(len: nat) -> Seq<char> {
    "--frame\r\nContent-Type: image/jpeg\r\nContent-Length: "@ + crate::text::decimal(len) + "\r\n\r\n"@
}

pub fn frame_header(len: usize) -> (r: String)
    ensures
        r@ == spec_frame_header(len as nat),
{
    let mut out: Vec<char> = Vec::new();
    crate::text::push_str(&mut out, "--frame\r\nContent-Type: image/jpeg\r\nContent-Length: ");
    crate::text::push_decimal(&mut out, len as u64);
    crate::text::push_str(&mut out, "\r\n\r\n");
    string_of(out.as_slice())
}
} // verus!
