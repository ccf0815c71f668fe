//! Mesh and splat edits: what an edit request must name, where its output
//! goes, and what is answered.
use vstd::prelude::*;
use crate::text::{chars_of, copy_range, is_digit, push_str, str_eq_ignore_ascii_case, string_of, trim, trim_bounds};

verus! {

/// The shape of a `%Y%m%dT%H%M%SZ` stamp: the year (four digits, or a sign
/// and at least four digits outside 0 ..= 9999), month and day as two digits
/// each, `T`, hour, minute and second as two digits each, then `Z`.
pub open spec fn is_compact_utc_stamp(s: Seq<char>) -> bool {
    &&& s.len() >= 16
    &&& s[s.len() - 1] == 'Z'
    &&& s[s.len() - 8] == 'T'
    &&& forall|i: int| 1 <= i < s.len() - 1 && i != s.len() - 8 ==> is_digit(#[trigger] s[i])
    &&& (is_digit(s[0]) || ((s[0] == '+' || s[0] == '-') && s.len() >= 17))
    &&& is_digit(s[0]) ==> s.len() == 16
}

/// `chrono::Utc::now().format("%Y%m%dT%H%M%SZ")` as text. As chrono's
/// formatter writes it, the year is four digits for 0 ..= 9999 and otherwise
/// a sign and at least four digits; the other fields are two digits each.
/// The clock's value is not stated.
#[verifier::external_body]
fn utc_compact_stamp() -> (r: String)
    ensures
        is_compact_utc_stamp(r@),
{
    chrono::Utc::now().format("%Y%m%dT%H%M%SZ").to_string()
}

/// The input of an edit, trimmed; it must not be empty.
pub fn edit_input(input_path: &str) -> (r: Result<String, &'static str>)
    ensures
        trim(input_path@).len() == 0 ==> (r matches Err(e) && e@ == "Missing input_path"@),
        trim(input_path@).len() > 0 ==> (r matches Ok(t) && t@ == trim(input_path@)),
{
    let v = chars_of(input_path);
    let (a, b) = trim_bounds(v.as_slice(), 0, v.len());
    assert(v@.subrange(0, v@.len() as int) =~= v@);
    if a == b {
        return Err("Missing input_path");
    }
    Ok(string_of(copy_range(v.as_slice(), a, b).as_slice()))
}

/// Mesh edits are written as PLY only (the format named in any case).
pub fn check_mesh_output_format(format: Option<&str>) -> (r: Result<(), &'static str>)
    ensures
        (format is None || crate::text::eq_ignore_ascii_case_spec(format->0@, "ply"@)) ==> r is Ok,
        !(format is None || crate::text::eq_ignore_ascii_case_spec(format->0@, "ply"@))
            ==> (r matches Err(e) && e@ == "Only ply output_format is supported"@),
{
    match format {
        None => Ok(()),
        Some(f) => if str_eq_ignore_ascii_case(f, "ply") {
            Ok(())
        } else {
            Err("Only ply output_format is supported")
        },
    }
}

/// The directory of an edit made at the given UTC time stamp: `edits/<stamp>`.
pub fn edit_group_at(stamp: &str) -> (r: String)
    ensures
        r@ == "edits/"@ + stamp@,
{
    let mut v: Vec<char> = Vec::new();
    push_str(&mut v, "edits/");
    push_str(&mut v, stamp);
    string_of(v.as_slice())
}

/// The directory of an edit made now: `edits/<UTC time>` (the clock's time,
/// written `%Y%m%dT%H%M%SZ`).
pub fn edit_group() -> (r: String)
    ensures
        exists|stamp: Seq<char>| is_compact_utc_stamp(stamp) && r@ == "edits/"@ + stamp,
{
    let stamp = utc_compact_stamp();
    let r = edit_group_at(stamp.as_str());
    assert(is_compact_utc_stamp(stamp@) && r@ == "edits/"@ + stamp@);
    r
}

/// The kind of asset an edit writes.
#[derive(Debug, Clone, Copy, PartialEq, Eq, Structural)]
pub enum EditKind {
    Mesh,
    Splat,
}

/// The file an edit writes: the requested name, else a name made from the
/// given fresh id (`mesh_edit_<id>.ply` or `splat_edit_<id>.splat`).
pub fn edit_output_name_with(kind: EditKind, requested: Option<String>, fresh_id: &str) -> (r: String)
    ensures
        requested matches Some(n) ==> r == n,
        requested is None ==> r@ == (match kind {
            EditKind::Mesh => "mesh_edit_"@ + fresh_id@ + ".ply"@,
            EditKind::Splat => "splat_edit_"@ + fresh_id@ + ".splat"@,
        }),
{
    match requested {
        Some(n) => n,
        None => {
            let mut v: Vec<char> = Vec::new();
            match kind {
                EditKind::Mesh => {
                    push_str(&mut v, "mesh_edit_");
                    push_str(&mut v, fresh_id);
                    push_str(&mut v, ".ply");
                },
                EditKind::Splat => {
                    push_str(&mut v, "splat_edit_");
                    push_str(&mut v, fresh_id);
                    push_str(&mut v, ".splat");
                },
            }
            string_of(v.as_slice())
        },
    }
}

/// The file an edit writes: the requested name, else a name with a random
/// version 4 UUID.
pub fn edit_output_name(kind: EditKind, requested: Option<String>) -> (r: String)
    ensures
        requested matches Some(n) ==> r == n,
        requested is None ==> exists|id: Seq<char>| crate::crypto::is_uuid_v4_text(id) && r@ == (match kind {
            EditKind::Mesh => "mesh_edit_"@ + id + ".ply"@,
            EditKind::Splat => "splat_edit_"@ + id + ".splat"@,
        }),
{
    match requested {
        Some(n) => n,
        None => {
            let id = crate::crypto::random_uuid();
            let r = edit_output_name_with(kind, None, id.as_str());
            assert(crate::crypto::is_uuid_v4_text(id@));
            r
        },
    }
}

/// Splat edits also write an SPZ file unless told not to.
pub fn writes_spz(requested: Option<bool>) -> (r: bool)
    ensures
        r == (match requested { Some(b) => b, None => true }),
{
    match requested {
        Some(b) => b,
        None => true,
    }
}

/// Where the edit history lives below the project.
pub fn edit_history_path() -> (r: &'static str)
    ensures
        r@ == "output/edits/history.json"@,
{
    "output/edits/history.json"
}

/// What an applied edit answers.
#[derive(Debug, Clone, PartialEq, Eq)]
pub struct EditResponse {
    pub id: String,
    pub output_path: String,
    pub history_path: String,
}

/// The answer to an applied edit: a new id, the output's path
/// `output/<group>/<name>`, and the history's path.
pub fn edit_response(edit_group: &str, output_name: &str, history_path: String) -> (r: EditResponse)
    ensures
        crate::crypto::is_uuid_v4_text(r.id@),
        r.output_path@ == "output/"@ + edit_group@ + seq!['/'] + output_name@,
        r.history_path == history_path,
{
    let mut v: Vec<char> = Vec::new();
    push_str(&mut v, "output/");
    push_str(&mut v, edit_group);
    v.push('/');
    push_str(&mut v, output_name);
    EditResponse { id: crate::crypto::random_uuid(), output_path: string_of(v.as_slice()), history_path }
}

/// The history's record of where an edit went: `output/edits/<dir>/<name>`.
pub fn edit_history_output(group_dir_name: &str, output_name: &str) -> (r: String)
    ensures
        r@ == "output/edits/"@ + group_dir_name@ + seq!['/'] + output_name@,
{
    let mut v: Vec<char> = Vec::new();
    push_str(&mut v, "output/edits/");
    push_str(&mut v, group_dir_name);
    v.push('/');
    push_str(&mut v, output_name);
    string_of(v.as_slice())
}

} // verus!
