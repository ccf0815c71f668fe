//! The ASCII PLY header and face records read when share LODs are built.
use vstd::prelude::*;
use crate::text::{
    chars_eq, chars_of, copy_range, eq_str, find_str, first_occurrence, parse_usize, parse_usize_spec,
    split_whitespace, starts_with, trim, trim_bounds, window_starts_with, words,
};
use crate::text::string_views;

verus! {

/// Why a PLY file cannot be used.
#[derive(Debug, Clone, Copy, PartialEq, Eq, Structural)]
pub enum PlyError {
    NotAscii,
    NonVertexElements,
    HeaderInvalid,
    MissingX,
    MissingY,
    MissingZ,
}

pub open spec fn count_or_zero(s: Seq<char>) -> nat {
    match parse_usize_spec(s) {
        Some(v) => v as nat,
        None => 0,
    }
}

/// One header line read while counting vertices: `Ok(None)` stops at
/// `end_header`; the state is (ASCII format seen, vertex count, elements seen).
pub open spec fn count_step(st: (bool, nat, nat), line: Seq<char>) -> Result<Option<(bool, nat, nat)>, PlyError> {
    let t = trim(line);
    if starts_with(t, "format "@) {
        if first_occurrence(t, "ascii"@, 0) is Some {
            Ok(Some((true, st.1, st.2)))
        } else {
            Err(PlyError::NotAscii)
        }
    } else if starts_with(t, "element "@) {
        let w = words(t);
        if w.len() >= 3 {
            if w[1] == "vertex"@ {
                Ok(Some((st.0, count_or_zero(w[2]), st.2 + 1)))
            } else if count_or_zero(w[2]) > 0 {
                Err(PlyError::NonVertexElements)
            } else {
                Ok(Some((st.0, st.1, st.2 + 1)))
            }
        } else {
            Ok(Some((st.0, st.1, st.2 + 1)))
        }
    } else if t == "end_header"@ {
        Ok(None)
    } else {
        Ok(Some(st))
    }
}

pub open spec fn count_lines(lines: Seq<Seq<char>>, i: int, st: (bool, nat, nat)) -> Result<(bool, nat, nat), PlyError>
    decreases lines.len() - i,
{
    if i < 0 || i >= lines.len() {
        Ok(st)
    } else {
        match count_step(st, lines[i]) {
            Err(e) => Err(e),
            Ok(None) => Ok(st),
            Ok(Some(next)) => count_lines(lines, i + 1, next),
        }
    }
}

/// The vertex count declared by an ASCII PLY header given as its lines.
pub open spec fn spec_ply_vertex_count(lines: Seq<Seq<char>>) -> Result<usize, PlyError> {
    match count_lines(lines, 0, (false, 0, 0)) {
        Err(e) => Err(e),
        Ok((ascii, count, depth)) => if depth == 0 || !ascii { Err(PlyError::HeaderInvalid) } else { Ok(count as usize) },
    }
}

/// The trimmed window of a line, as characters.
fn trimmed_line(line: &str) -> (r: Vec<char>)
    ensures
        r@ == trim(line@),
{
    let v = chars_of(line);
    let (a, b) = trim_bounds(v.as_slice(), 0, v.len());
    assert(v@.subrange(0, v@.len() as int) =~= v@);
    copy_range(v.as_slice(), a, b)
}

fn starts(t: &Vec<char>, p: &str) -> (b: bool)
    ensures
        b == starts_with(t@, p@),
{
    let pv = chars_of(p);
    let b = window_starts_with(t.as_slice(), 0, t.len(), pv.as_slice());
    assert(t@.subrange(0, t@.len() as int) =~= t@);
    b
}

fn word_of(t: &Vec<char>, bounds: &Vec<(usize, usize)>, k: usize) -> (w: Vec<char>)
    requires
        k < bounds@.len(),
        bounds@[k as int].0 <= bounds@[k as int].1 <= t@.len(),
    ensures
        w@ == t@.subrange(bounds@[k as int].0 as int, bounds@[k as int].1 as int),
{
    let (a, b) = bounds[k];
    copy_range(t.as_slice(), a, b)
}

fn count_of(t: &Vec<char>, bounds: &Vec<(usize, usize)>, k: usize) -> (n: usize)
    requires
        k < bounds@.len(),
        bounds@[k as int].0 <= bounds@[k as int].1 <= t@.len(),
    ensures
        n == count_or_zero(t@.subrange(bounds@[k as int].0 as int, bounds@[k as int].1 as int)),
{
    let (a, b) = bounds[k];
    match parse_usize(t.as_slice(), a, b) {
        Some(n) => n,
        None => 0,
    }
}

fn count_step_exec(st: (bool, usize, usize), line: &str) -> (r: Result<Option<(bool, usize, usize)>, PlyError>)
    requires
        st.2 < usize::MAX,
    ensures
        match r {
            Err(e) => count_step((st.0, st.1 as nat, st.2 as nat), line@) == Err::<Option<(bool, nat, nat)>, PlyError>(e),
            Ok(None) => count_step((st.0, st.1 as nat, st.2 as nat), line@) == Ok::<Option<(bool, nat, nat)>, PlyError>(None),
            Ok(Some(n)) => count_step((st.0, st.1 as nat, st.2 as nat), line@) == Ok::<Option<(bool, nat, nat)>, PlyError>(Some((n.0, n.1 as nat, n.2 as nat))),
        },
{
    let t = trimmed_line(line);
    if starts(&t, "format ") {
        let ascii = chars_of("ascii");
        if find_str(t.as_slice(), ascii.as_slice(), 0).is_some() {
            Ok(Some((true, st.1, st.2)))
        } else {
            Err(PlyError::NotAscii)
        }
    } else if starts(&t, "element ") {
        let bounds = split_whitespace(t.as_slice());
        if bounds.len() >= 3 {
            let name = word_of(&t, &bounds, 1);
            let count = count_of(&t, &bounds, 2);
            if eq_str(name.as_slice(), "vertex") {
                Ok(Some((st.0, count, st.2 + 1)))
            } else if count > 0 {
                Err(PlyError::NonVertexElements)
            } else {
                Ok(Some((st.0, st.1, st.2 + 1)))
            }
        } else {
            Ok(Some((st.0, st.1, st.2 + 1)))
        }
    } else if eq_str(t.as_slice(), "end_header") {
        Ok(None)
    } else {
        Ok(Some(st))
    }
}

/// The vertex count of an ASCII PLY file whose only populated element is
/// `vertex`, read from its header lines (the header ends at `end_header`).
pub fn ply_vertex_count(lines: &[String]) -> (r: Result<usize, PlyError>)
    ensures
        r == spec_ply_vertex_count(string_views(lines@)),
{
    let ghost lv = string_views(lines@);
    let ghost total = count_lines(lv, 0, (false, 0, 0));
    let mut st: (bool, usize, usize) = (false, 0, 0);
    let mut i: usize = 0;
    while i < lines.len()
        invariant
            i <= lines@.len(),
            st.2 <= i,
            lv == string_views(lines@),
            total == count_lines(lv, 0, (false, 0, 0)),
            total == count_lines(lv, i as int, (st.0, st.1 as nat, st.2 as nat)),
        ensures
            total == Ok::<(bool, nat, nat), PlyError>((st.0, st.1 as nat, st.2 as nat)),
        decreases lines@.len() - i,
    {
        assert(lv[i as int] == lines@[i as int]@);
        match count_step_exec(st, lines[i].as_str()) {
            Err(e) => return Err(e),
            Ok(None) => break,
            Ok(Some(n)) => {
                st = n;
            },
        }
        i = i + 1;
    }
    if st.2 == 0 || !st.0 {
        return Err(PlyError::HeaderInvalid);
    }
    Ok(st.1)
}

/// Position of the first property with the given name.
pub open spec fn property_index(props: Seq<Seq<char>>, name: Seq<char>) -> Option<int>
    decreases props.len(),
{
    if props.len() == 0 {
        None
    } else {
        match property_index(props.drop_last(), name) {
            Some(i) => Some(i),
            None => if props.last() == name { Some(props.len() - 1) } else { None },
        }
    }
}

fn find_property(props: &Vec<Vec<char>>, name: &str) -> (r: Option<usize>)
    ensures
        match r {
            Some(i) => property_index(props@.map_values(|p: Vec<char>| p@), name@) == Some(i as int),
            None => property_index(props@.map_values(|p: Vec<char>| p@), name@) is None,
        },
{
    let ghost pv = props@.map_values(|p: Vec<char>| p@);
    let mut i: usize = 0;
    while i < props.len()
        invariant
            i <= props@.len(),
            pv == props@.map_values(|p: Vec<char>| p@),
            property_index(pv.take(i as int), name@) is None,
        decreases props@.len() - i,
    {
        assert(pv.take(i + 1).drop_last() =~= pv.take(i as int));
        if eq_str(props[i].as_slice(), name) {
            assert(property_index(pv.take(i + 1), name@) == Some(i as int));
            proof {
                lemma_property_index_extend(pv, i as int + 1);
            }
            return Some(i);
        }
        i = i + 1;
    }
    assert(pv.take(props@.len() as int) =~= pv);
    None
}

proof fn lemma_property_index_extend(pv: Seq<Seq<char>>, k: int)
    requires
        0 <= k <= pv.len(),
    ensures
        forall|name: Seq<char>| property_index(pv.take(k), name) is Some ==> property_index(pv, name) == property_index(pv.take(k), name),
    decreases pv.len() - k,
{
    if k < pv.len() {
        lemma_property_index_extend(pv, k + 1);
        assert(pv.take(k + 1).drop_last() =~= pv.take(k));
    } else {
        assert(pv.take(k) =~= pv);
    }
}

/// Where the vertex attributes sit on each vertex line, with the element counts.
#[derive(Debug, Clone, Copy, PartialEq, Eq)]
pub struct PlyLayout {
    pub vertex_count: usize,
    pub face_count: usize,
    pub x: usize,
    pub y: usize,
    pub z: usize,
    pub normal: Option<(usize, usize, usize)>,
    pub uv: Option<(usize, usize)>,
    pub color: Option<(usize, usize, usize)>,
}

/// One header line read for a mesh: the state is (ASCII format seen, vertex
/// count, face count, current element, vertex property names); `Ok(None)`
/// stops at `end_header`.
pub open spec fn mesh_step(
    st: (bool, nat, nat, Option<Seq<char>>, Seq<Seq<char>>),
    line: Seq<char>,
) -> Result<Option<(bool, nat, nat, Option<Seq<char>>, Seq<Seq<char>>)>, PlyError> {
    let t = trim(line);
    if starts_with(t, "format "@) {
        if first_occurrence(t, "ascii"@, 0) is Some {
            Ok(Some((true, st.1, st.2, st.3, st.4)))
        } else {
            Err(PlyError::NotAscii)
        }
    } else if starts_with(t, "element "@) {
        let w = words(t);
        if w.len() >= 3 {
            let c = count_or_zero(w[2]);
            if w[1] == "vertex"@ {
                Ok(Some((st.0, c, st.2, Some(w[1]), st.4)))
            } else if w[1] == "face"@ {
                Ok(Some((st.0, st.1, c, Some(w[1]), st.4)))
            } else {
                Ok(Some((st.0, st.1, st.2, Some(w[1]), st.4)))
            }
        } else {
            Ok(Some(st))
        }
    } else if starts_with(t, "property "@) {
        if st.3 == Some("vertex"@) && words(t).len() > 0 {
            Ok(Some((st.0, st.1, st.2, st.3, st.4.push(words(t).last()))))
        } else {
            Ok(Some(st))
        }
    } else if t == "end_header"@ {
        Ok(None)
    } else {
        Ok(Some(st))
    }
}

pub open spec fn mesh_lines(
    lines: Seq<Seq<char>>,
    i: int,
    st: (bool, nat, nat, Option<Seq<char>>, Seq<Seq<char>>),
) -> Result<(bool, nat, nat, Option<Seq<char>>, Seq<Seq<char>>), PlyError>
    decreases lines.len() - i,
{
    if i < 0 || i >= lines.len() {
        Ok(st)
    } else {
        match mesh_step(st, lines[i]) {
            Err(e) => Err(e),
            Ok(None) => Ok(st),
            Ok(Some(next)) => mesh_lines(lines, i + 1, next),
        }
    }
}

pub open spec fn opt_nat(o: Option<int>) -> Option<usize> {
    match o {
        Some(i) => Some(i as usize),
        None => None,
    }
}

/// The layout an ASCII PLY mesh header declares: it must be ASCII, declare
/// vertices, and name `x`, `y` and `z`; normals, texture coordinates (`s`/`u`,
/// `t`/`v`) and colours are used when all their properties are present.
pub open spec fn spec_ply_layout(lines: Seq<Seq<char>>) -> Result<PlyLayout, PlyError> {
    match mesh_lines(lines, 0, (false, 0, 0, None, Seq::empty())) {
        Err(e) => Err(e),
        Ok((ascii, vc, fc, _cur, props)) => if !ascii || vc == 0 {
            Err(PlyError::HeaderInvalid)
        } else {
            let x = property_index(props, "x"@);
            let y = property_index(props, "y"@);
            let z = property_index(props, "z"@);
            if x is None { Err(PlyError::MissingX) }
            else if y is None { Err(PlyError::MissingY) }
            else if z is None { Err(PlyError::MissingZ) }
            else {
                let nx = property_index(props, "nx"@);
                let ny = property_index(props, "ny"@);
                let nz = property_index(props, "nz"@);
                let u = match property_index(props, "s"@) { Some(i) => Some(i), None => property_index(props, "u"@) };
                let v = match property_index(props, "t"@) { Some(i) => Some(i), None => property_index(props, "v"@) };
                let r = property_index(props, "red"@);
                let g = property_index(props, "green"@);
                let b = property_index(props, "blue"@);
                Ok(PlyLayout {
                    vertex_count: vc as usize,
                    face_count: fc as usize,
                    x: x->0 as usize,
                    y: y->0 as usize,
                    z: z->0 as usize,
                    normal: if nx is Some && ny is Some && nz is Some { Some((nx->0 as usize, ny->0 as usize, nz->0 as usize)) } else { None },
                    uv: if u is Some && v is Some { Some((u->0 as usize, v->0 as usize)) } else { None },
                    color: if r is Some && g is Some && b is Some { Some((r->0 as usize, g->0 as usize, b->0 as usize)) } else { None },
                })
            }
        },
    }
}

pub open spec fn props_view(p: Seq<Vec<char>>) -> Seq<Seq<char>> {
    p.map_values(|x: Vec<char>| x@)
}

pub open spec fn opt_chars(o: Option<Vec<char>>) -> Option<Seq<char>> {
    match o {
        Some(v) => Some(v@),
        None => None,
    }
}

/// Header state while reading a mesh: ASCII seen, vertex count, face count,
/// current element, vertex property names.
pub struct MeshHeaderState {
    pub ascii: bool,
    pub vertex_count: usize,
    pub face_count: usize,
    pub current: Option<Vec<char>>,
    pub props: Vec<Vec<char>>,
}

pub open spec fn mesh_view(m: &MeshHeaderState) -> (bool, nat, nat, Option<Seq<char>>, Seq<Seq<char>>) {
    (m.ascii, m.vertex_count as nat, m.face_count as nat, opt_chars(m.current), props_view(m.props@))
}

fn mesh_step_exec(st: &mut MeshHeaderState, line: &str) -> (r: Result<bool, PlyError>)
    ensures
        match r {
            Err(e) => mesh_step(mesh_view(old(st)), line@) == Err::<Option<(bool, nat, nat, Option<Seq<char>>, Seq<Seq<char>>)>, PlyError>(e),
            Ok(false) => mesh_step(mesh_view(old(st)), line@) == Ok::<Option<(bool, nat, nat, Option<Seq<char>>, Seq<Seq<char>>)>, PlyError>(None)
                && mesh_view(final(st)) == mesh_view(old(st)),
            Ok(true) => mesh_step(mesh_view(old(st)), line@) == Ok::<Option<(bool, nat, nat, Option<Seq<char>>, Seq<Seq<char>>)>, PlyError>(Some(mesh_view(final(st)))),
        },
{
    let t = trimmed_line(line);
    if starts(&t, "format ") {
        let ascii = chars_of("ascii");
        if find_str(t.as_slice(), ascii.as_slice(), 0).is_some() {
            st.ascii = true;
            Ok(true)
        } else {
            Err(PlyError::NotAscii)
        }
    } else if starts(&t, "element ") {
        let bounds = split_whitespace(t.as_slice());
        if bounds.len() >= 3 {
            let name = word_of(&t, &bounds, 1);
            let count = count_of(&t, &bounds, 2);
            if eq_str(name.as_slice(), "vertex") {
                st.vertex_count = count;
            } else if eq_str(name.as_slice(), "face") {
                st.face_count = count;
            }
            st.current = Some(name);
            Ok(true)
        } else {
            Ok(true)
        }
    } else if starts(&t, "property ") {
        let is_vertex = match &st.current {
            Some(c) => eq_str(c.as_slice(), "vertex"),
            None => false,
        };
        let bounds = split_whitespace(t.as_slice());
        if is_vertex && bounds.len() > 0 {
            let last = word_of(&t, &bounds, bounds.len() - 1);
            let ghost before = st.props@;
            st.props.push(last);
            assert(props_view(st.props@) =~= props_view(before).push(words(t@).last()));
            Ok(true)
        } else {
            proof {
                if st.current is Some && opt_chars(st.current) == Some("vertex"@) {
                    assert(st.current->0@ == "vertex"@);
                }
            }
            Ok(true)
        }
    } else if eq_str(t.as_slice(), "end_header") {
        Ok(false)
    } else {
        Ok(true)
    }
}

fn find_prop(props: &Vec<Vec<char>>, name: &str) -> (r: Option<usize>)
    ensures
        opt_nat(property_index(props_view(props@), name@)) == r,
        r matches Some(i) ==> property_index(props_view(props@), name@) == Some(i as int),
{
    find_property(props, name)
}

/// The attribute layout of an ASCII PLY mesh, read from its header lines.
pub fn ply_layout(lines: &[String]) -> (r: Result<PlyLayout, PlyError>)
    ensures
        r == spec_ply_layout(string_views(lines@)),
{
    let ghost lv = string_views(lines@);
    let ghost total = mesh_lines(lv, 0, (false, 0, 0, None, Seq::empty()));
    let mut st = MeshHeaderState { ascii: false, vertex_count: 0, face_count: 0, current: None, props: Vec::new() };
    assert(props_view(st.props@) =~= Seq::<Seq<char>>::empty());
    let mut i: usize = 0;
    while i < lines.len()
        invariant
            i <= lines@.len(),
            lv == string_views(lines@),
            total == mesh_lines(lv, 0, (false, 0, 0, None, Seq::empty())),
            total == mesh_lines(lv, i as int, mesh_view(&st)),
        ensures
            total == Ok::<(bool, nat, nat, Option<Seq<char>>, Seq<Seq<char>>), PlyError>(mesh_view(&st)),
        decreases lines@.len() - i,
    {
        assert(lv[i as int] == lines@[i as int]@);
        match mesh_step_exec(&mut st, lines[i].as_str()) {
            Err(e) => return Err(e),
            Ok(false) => break,
            Ok(true) => {},
        }
        i = i + 1;
    }
    if !st.ascii || st.vertex_count == 0 {
        return Err(PlyError::HeaderInvalid);
    }
    let x = match find_prop(&st.props, "x") { Some(i) => i, None => return Err(PlyError::MissingX) };
    let y = match find_prop(&st.props, "y") { Some(i) => i, None => return Err(PlyError::MissingY) };
    let z = match find_prop(&st.props, "z") { Some(i) => i, None => return Err(PlyError::MissingZ) };
    let nx = find_prop(&st.props, "nx");
    let ny = find_prop(&st.props, "ny");
    let nz = find_prop(&st.props, "nz");
    let u = match find_prop(&st.props, "s") { Some(i) => Some(i), None => find_prop(&st.props, "u") };
    let v = match find_prop(&st.props, "t") { Some(i) => Some(i), None => find_prop(&st.props, "v") };
    let red = find_prop(&st.props, "red");
    let green = find_prop(&st.props, "green");
    let blue = find_prop(&st.props, "blue");
    let normal = match (nx, ny, nz) { (Some(a), Some(b), Some(c)) => Some((a, b, c)), _ => None };
    let uv = match (u, v) { (Some(a), Some(b)) => Some((a, b)), _ => None };
    let color = match (red, green, blue) { (Some(a), Some(b), Some(c)) => Some((a, b, c)), _ => None };
    Ok(PlyLayout { vertex_count: st.vertex_count, face_count: st.face_count, x, y, z, normal, uv, color })
}

/// The triangles of one face record, fanned from its first vertex: a record is
/// its vertex count then that many indices (an unreadable index counts as 0);
/// records with fewer than three vertices or missing indices give none.
pub open spec fn spec_face_triangles(w: Seq<Seq<char>>) -> Seq<(usize, usize, usize)> {
    if w.len() < 4 {
        Seq::empty()
    } else {
        let count = count_or_zero(w[0]);
        if count < 3 || w.len() < count + 1 {
            Seq::empty()
        } else {
            Seq::new((count - 2) as nat, |t: int| (
                count_or_zero(w[1]) as usize,
                count_or_zero(w[t + 2]) as usize,
                count_or_zero(w[t + 3]) as usize,
            ))
        }
    }
}

/// A face record that gives its vertex count `n >= 3` and then at least `n`
/// readable indices `i1 .. in` is cut into `n - 2` triangles, triangle `t`
/// being `(i1, i(t+2), i(t+3))`.
pub proof fn faces_fan_from_their_first_vertex(w: Seq<Seq<char>>, n: usize, idx: Seq<usize>)
    requires
        n >= 3,
        w.len() >= n + 1,
        parse_usize_spec(w[0]) == Some(n),
        idx.len() == n,
        forall|j: int| 1 <= j <= n ==> parse_usize_spec(#[trigger] w[j]) == Some(idx[j - 1]),
    ensures
        spec_face_triangles(w).len() == n - 2,
        forall|t: int| 0 <= t < n - 2 ==> #[trigger] spec_face_triangles(w)[t] == (idx[0], idx[t + 1], idx[t + 2]),
{
    assert(parse_usize_spec(w[1]) == Some(idx[0]));
    assert forall|t: int| 0 <= t < n - 2 implies #[trigger] spec_face_triangles(w)[t] == (idx[0], idx[t + 1], idx[t + 2]) by {
        let a = t + 2;
        let b = t + 3;
        assert(parse_usize_spec(w[a]) == Some(idx[a - 1]));
        assert(parse_usize_spec(w[b]) == Some(idx[b - 1]));
    }
}

/// A face record of fewer than three vertices, or one that lists fewer
/// indices than it announces, gives no triangle.
pub proof fn short_face_records_give_no_triangles(w: Seq<Seq<char>>, n: usize)
    requires
        w.len() > 0,
        parse_usize_spec(w[0]) == Some(n),
        n < 3 || w.len() < n + 1,
    ensures
        spec_face_triangles(w).len() == 0,
{
}

/// The triangles of one face line.
pub fn face_triangles(line: &str) -> (r: Vec<(usize, usize, usize)>)
    requires
        words(line@).len() == 0 || parse_usize_spec(words(line@)[0]) != Some(usize::MAX),
    ensures
        r@ == spec_face_triangles(words(line@)),
{
    let t = chars_of(line);
    let bounds = split_whitespace(t.as_slice());
    let ghost w = words(t@);
    let mut out: Vec<(usize, usize, usize)> = Vec::new();
    if bounds.len() < 4 {
        return out;
    }
    let count = count_of(&t, &bounds, 0);
    if count < 3 || bounds.len() < count + 1 {
        return out;
    }
    let first = count_of(&t, &bounds, 1);
    let mut k: usize = 0;
    while k < count - 2
        invariant
            w == words(t@),
            t@ == line@,
            bounds@.len() == w.len(),
            forall|j: int| 0 <= j < bounds@.len() ==> {
                &&& (#[trigger] bounds@[j]).0 <= bounds@[j].1 <= t@.len()
                &&& t@.subrange(bounds@[j].0 as int, bounds@[j].1 as int) == w[j]
            },
            count == count_or_zero(w[0]),
            3 <= count,
            count + 1 <= bounds@.len(),
            first == count_or_zero(w[1]),
            k <= count - 2,
            out@ =~= Seq::new(k as nat, |j: int| (first, count_or_zero(w[j + 2]) as usize, count_or_zero(w[j + 3]) as usize)),
        decreases count - 2 - k,
    {
        let a = count_of(&t, &bounds, k + 2);
        let b = count_of(&t, &bounds, k + 3);
        out.push((first, a, b));
        k = k + 1;
    }
    out
}

/// The index just after the `end_header` line (all lines when there is none).
pub open spec fn header_end(lines: Seq<Seq<char>>, i: int) -> int
    decreases lines.len() - i,
{
    if i < 0 || i >= lines.len() {
        lines.len() as int
    } else if trim(lines[i]) == "end_header"@ {
        i + 1
    } else {
        header_end(lines, i + 1)
    }
}

/// A header line of a thinned cloud: the vertex element declares `target`.
pub open spec fn lod_header_line(line: Seq<char>, target: nat) -> Seq<char> {
    if starts_with(crate::text::trim_start(line), "element vertex "@) {
        "element vertex "@ + crate::text::decimal(target) + seq!['\n']
    } else {
        line
    }
}

/// The vertex lines kept from index `idx` on: every `step`-th of the `n`
/// declared (as far as the file goes), at most `target` in all.
pub open spec fn lod_vertex_lines(lines: Seq<Seq<char>>, h: int, n: nat, step: nat, target: nat, idx: nat, written: nat) -> Seq<Seq<char>>
    decreases n - idx,
{
    if idx >= n || h + idx >= lines.len() || step == 0 {
        Seq::empty()
    } else if idx % step == 0 && written < target {
        seq![lines[h + idx]] + lod_vertex_lines(lines, h, n, step, target, idx + 1, written + 1)
    } else {
        lod_vertex_lines(lines, h, n, step, target, idx + 1, written)
    }
}

/// How many vertices a thinned cloud keeps: the wanted count, at most the
/// declared count, and at least 10.
pub open spec fn lod_target(target_vertices: nat, n: nat) -> nat {
    let t = if target_vertices < n { target_vertices } else { n };
    if t < 10 { 10 } else { t }
}

/// An ASCII PLY point cloud (given as its lines, each with its line ending)
/// thinned to about `target_vertices` vertices: the header with the vertex
/// count rewritten, then every `step`-th vertex line (the step is the declared
/// count divided by the target, rounded up), at most the target of them.
/// `None` when the file is not ASCII, has another populated element, or
/// declares no vertex.
pub open spec fn spec_ply_lod_lines(lines: Seq<Seq<char>>, target_vertices: nat) -> Option<Seq<Seq<char>>> {
    match count_lines(lines, 0, (false, 0, 0)) {
        Err(_) => None,
        Ok((ascii, n, _)) => if !ascii || n == 0 {
            None
        } else {
            let target = lod_target(target_vertices, n);
            let step = (n + target - 1) / (target as int);
            let h = header_end(lines, 0);
            Some(Seq::new(h as nat, |i: int| lod_header_line(lines[i], target))
                + lod_vertex_lines(lines, h, n, step as nat, target, 0, 0))
        },
    }
}

proof fn lemma_stop_is_end_header(st: (bool, nat, nat), line: Seq<char>)
    requires
        count_step(st, line) == Ok::<Option<(bool, nat, nat)>, PlyError>(None),
    ensures
        trim(line) == "end_header"@,
{
}

proof fn lemma_end_header_stops(st: (bool, nat, nat), line: Seq<char>)
    requires
        trim(line) == "end_header"@,
    ensures
        count_step(st, line) == Ok::<Option<(bool, nat, nat)>, PlyError>(None),
{
    reveal_strlit("end_header");
    reveal_strlit("format ");
    reveal_strlit("element ");
    let t = trim(line);
    assert(t[1] == 'n');
    assert(t[0] == 'e');
    if starts_with(t, "element "@) {
        assert(t.take(8)[1] == t[1]);
        assert("element "@[1] == 'l');
    }
    if starts_with(t, "format "@) {
        assert(t.take(7)[0] == t[0]);
        assert("format "@[0] == 'f');
    }
}

fn lod_header_line_exec(line: &str, target: usize) -> (r: String)
    ensures
        r@ == lod_header_line(line@, target as nat),
{
    let v = chars_of(line);
    let mut a: usize = 0;
    while a < v.len() && crate::text::is_whitespace(v[a])
        invariant
            a <= v@.len(),
            forall|j: int| 0 <= j < a ==> crate::text::is_ws(#[trigger] v@[j]),
        decreases v@.len() - a,
    {
        a = a + 1;
    }
    proof { crate::text::lemma_lead_ws_unique(v@, a as int); }
    let rest = copy_range(v.as_slice(), a, v.len());
    assert(rest@ =~= crate::text::trim_start(line@));
    if starts(&rest, "element vertex ") {
        let mut out: Vec<char> = Vec::new();
        crate::text::push_str(&mut out, "element vertex ");
        crate::text::push_decimal(&mut out, target as u64);
        out.push('\n');
        crate::text::string_of(out.as_slice())
    } else {
        crate::text::string_of(v.as_slice())
    }
}

pub fn ply_lod_lines(lines: &[String], target_vertices: usize) -> (r: Option<Vec<String>>)
    ensures
        match r {
            None => spec_ply_lod_lines(string_views(lines@), target_vertices as nat) is None,
            Some(out) => spec_ply_lod_lines(string_views(lines@), target_vertices as nat) == Some(string_views(out@)),
        },
{
    let ghost lv = string_views(lines@);
    let ghost total = count_lines(lv, 0, (false, 0, 0));
    let mut st: (bool, usize, usize) = (false, 0, 0);
    let mut i: usize = 0;
    let mut h: usize = lines.len();
    while i < lines.len()
        invariant_except_break
            h == lines@.len(),
        invariant
            i <= lines@.len(),
            st.2 <= i,
            lv == string_views(lines@),
            total == count_lines(lv, 0, (false, 0, 0)),
            total == count_lines(lv, i as int, (st.0, st.1 as nat, st.2 as nat)),
            header_end(lv, 0) == header_end(lv, i as int),
        ensures
            total == Ok::<(bool, nat, nat), PlyError>((st.0, st.1 as nat, st.2 as nat)),
            h <= lines@.len(),
            header_end(lv, 0) == h,
        decreases lines@.len() - i,
    {
        assert(lv[i as int] == lines@[i as int]@);
        match count_step_exec(st, lines[i].as_str()) {
            Err(_) => return None,
            Ok(None) => {
                proof { lemma_stop_is_end_header((st.0, st.1 as nat, st.2 as nat), lv[i as int]); }
                h = i + 1;
                break;
            },
            Ok(Some(n)) => {
                proof {
                    if trim(lv[i as int]) == "end_header"@ {
                        lemma_end_header_stops((st.0, st.1 as nat, st.2 as nat), lv[i as int]);
                    }
                }
                st = n;
            },
        }
        i = i + 1;
    }
    if !st.0 || st.1 == 0 {
        return None;
    }
    let n = st.1;
    let t0 = if target_vertices < n { target_vertices } else { n };
    let target = if t0 < 10 { 10 } else { t0 };
    assert(n / target < usize::MAX) by (nonlinear_arith)
        requires target >= 10;
    let step = n / target + if n % target != 0 { 1 } else { 0 };
    assert(step > 0) by (nonlinear_arith)
        requires n > 0, target > 0, step as int == n / target + if n % target != 0 { 1int } else { 0int };
    assert(step as int == (n + target - 1) / (target as int)) by (nonlinear_arith)
        requires target > 0, step as int == n / target + if n % target != 0 { 1int } else { 0int };
    let mut out: Vec<String> = Vec::new();
    let mut k: usize = 0;
    while k < h
        invariant
            k <= h,
            h <= lines@.len(),
            lv == string_views(lines@),
            string_views(out@) =~= Seq::new(k as nat, |j: int| lod_header_line(lv[j], target as nat)),
        decreases h - k,
    {
        assert(lv[k as int] == lines@[k as int]@);
        let ghost before = string_views(out@);
        let line = lod_header_line_exec(lines[k].as_str(), target);
        out.push(line);
        assert(string_views(out@) =~= before.push(lod_header_line(lv[k as int], target as nat)));
        k = k + 1;
    }
    let ghost head = string_views(out@);
    let mut idx: usize = 0;
    let mut written: usize = 0;
    while idx < n && idx < lines.len() - h
        invariant
            h <= lines@.len(),
            step > 0,
            lv == string_views(lines@),
            written <= idx,
            head + lod_vertex_lines(lv, h as int, n as nat, step as nat, target as nat, 0, 0)
                == string_views(out@) + lod_vertex_lines(lv, h as int, n as nat, step as nat, target as nat, idx as nat, written as nat),
        decreases n - idx,
    {
        if idx % step == 0 && written < target {
            let ghost before = string_views(out@);
            assert(lv[h + idx] == lines@[(h + idx) as int]@);
            out.push(crate::text::string_of(chars_of(lines[h + idx].as_str()).as_slice()));
            assert(string_views(out@) =~= before.push(lv[h + idx]));
            assert(before + lod_vertex_lines(lv, h as int, n as nat, step as nat, target as nat, idx as nat, written as nat)
                =~= string_views(out@) + lod_vertex_lines(lv, h as int, n as nat, step as nat, target as nat, idx as nat + 1, written as nat + 1));
            written = written + 1;
        }
        idx = idx + 1;
    }
    assert(string_views(out@) + lod_vertex_lines(lv, h as int, n as nat, step as nat, target as nat, idx as nat, written as nat)
        =~= string_views(out@));
    Some(out)
}

} // verus!
