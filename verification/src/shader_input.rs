//! Reading a shader's input types off its source text.
//!
//! WGSL shaders declare their inputs in `struct VertexInput { .. }`: the
//! per-vertex fields first, then an empty line, then the per-instance
//! fields. Older GLSL vertex shaders declare them as `in` variables, the
//! per-instance block separated from the per-vertex one by an empty line.

use vstd::prelude::*;
use crate::text::{chars_eq, chars_of, copy_range, find, find_chars, find_from, lines, lines_of, rfind, rfind_char, trim_start, trim_start_chars};
use crate::vertex_input::{Type, spec_glsl_type, parse_glsl_type};

verus! {

/// Why a shader's inputs could not be read.
#[derive(Clone, Copy, Debug, PartialEq, Eq, Structural)]
pub enum ShaderInputError {
    /// A WGSL field line holds no space, so it names no type.
    FieldWithoutType,
    /// A field or variable has a type that is not a float vector.
    UnknownType,
    /// The WGSL source has no complete `VertexInput` struct.
    UnfinishedInput,
    /// A GLSL `in` variable has no name after its type; the line number
    /// counts from 1.
    VarWithoutType(usize),
}

/// Where the scan of a WGSL `VertexInput` struct stands.
#[derive(Clone, Copy, Debug, PartialEq, Eq, Structural)]
pub enum ScanState {
    Searching,
    Vertex,
    Instance,
    Finished,
}

/// The WGSL spelling of each input type.
pub open spec fn spec_wgsl_type(s: Seq<char>) -> Option<Type> {
    if s == "f32"@ {
        Some(Type::Float)
    } else if s == "vec2<f32>"@ {
        Some(Type::Vec2)
    } else if s == "vec3<f32>"@ {
        Some(Type::Vec3)
    } else if s == "vec4<f32>"@ {
        Some(Type::Vec4)
    } else {
        None
    }
}

/// The type part of a WGSL field line: what follows its last space, without
/// a trailing comma. A line without a space has none.
pub open spec fn spec_field_token(field: Seq<char>) -> Option<Seq<char>> {
    match rfind(field, ' ') {
        None => None,
        Some(p) => Some(
            field.subrange(p + 1, field.len() - (if field.last() == ',' { 1int } else { 0int })),
        ),
    }
}

/// The input type of a WGSL field line.
pub open spec fn spec_field_type(field: Seq<char>) -> Result<Type, ShaderInputError> {
    match spec_field_token(field) {
        None => Err(ShaderInputError::FieldWithoutType),
        Some(token) => match spec_wgsl_type(token) {
            Some(t) => Ok(t),
            None => Err(ShaderInputError::UnknownType),
        },
    }
}

/// The scan of WGSL source lines from line `i` on, in state `state`, with
/// the types found so far.
pub open spec fn spec_wgsl_scan(
    lines: Seq<Seq<char>>,
    i: int,
    state: ScanState,
    vertex: Seq<Type>,
    instance: Seq<Type>,
) -> Result<(Seq<Type>, Seq<Type>), ShaderInputError>
    decreases lines.len() - i,
{
    if i < 0 || i >= lines.len() || state == ScanState::Finished {
        if state == ScanState::Finished {
            Ok((vertex, instance))
        } else {
            Err(ShaderInputError::UnfinishedInput)
        }
    } else {
        let line = lines[i];
        match state {
            ScanState::Searching => if line == "struct VertexInput {"@ {
                spec_wgsl_scan(lines, i + 1, ScanState::Vertex, vertex, instance)
            } else {
                spec_wgsl_scan(lines, i + 1, ScanState::Searching, vertex, instance)
            },
            ScanState::Vertex => if line.len() == 0 {
                spec_wgsl_scan(lines, i + 1, ScanState::Instance, vertex, instance)
            } else {
                match spec_field_type(line) {
                    Ok(t) => spec_wgsl_scan(lines, i + 1, ScanState::Vertex, vertex.push(t), instance),
                    Err(e) => Err(e),
                }
            },
            _ => if line == "}"@ {
                spec_wgsl_scan(lines, i + 1, ScanState::Finished, vertex, instance)
            } else {
                match spec_field_type(line) {
                    Ok(t) => spec_wgsl_scan(lines, i + 1, ScanState::Instance, vertex, instance.push(t)),
                    Err(e) => Err(e),
                }
            },
        }
    }
}

/// The input types a WGSL source declares: per-vertex, then per-instance.
pub open spec fn spec_wgsl_input_types(code: Seq<char>) -> Result<(Seq<Type>, Seq<Type>), ShaderInputError> {
    spec_wgsl_scan(lines_of(code), 0, ScanState::Searching, Seq::empty(), Seq::empty())
}

/// The type named by a GLSL `in` line, if the line declares one: the word
/// after the first ` in `, up to the next space.
pub open spec fn spec_glsl_var_type(line: Seq<char>) -> Option<Option<Seq<char>>> {
    match find(line, " in "@) {
        None => None,
        Some(left) => {
            let var = trim_start(line.skip(left + 4));
            match find(var, " "@) {
                None => Some(None),
                Some(right) => Some(Some(var.take(right))),
            }
        },
    }
}

/// The scan of GLSL source lines from line `i` on. `found_in` tells whether
/// an input was seen, `found_nl` whether the empty line after the vertex
/// inputs was.
pub open spec fn spec_glsl_scan(
    lines: Seq<Seq<char>>,
    i: int,
    found_in: bool,
    found_nl: bool,
    vertex: Seq<Type>,
    instance: Seq<Type>,
) -> Result<(Seq<Type>, Seq<Type>), ShaderInputError>
    decreases lines.len() - i,
{
    if i < 0 || i >= lines.len() {
        Ok((vertex, instance))
    } else {
        let line = lines[i];
        let blank = found_in && line.len() == 0;
        if blank && found_nl {
            Ok((vertex, instance))
        } else {
            let nl = found_nl || blank;
            match spec_glsl_var_type(line) {
                None => spec_glsl_scan(lines, i + 1, found_in, nl, vertex, instance),
                Some(None) => Err(ShaderInputError::VarWithoutType((i + 1) as usize)),
                Some(Some(token)) => match spec_glsl_type(token) {
                    None => Err(ShaderInputError::UnknownType),
                    Some(t) => if nl {
                        spec_glsl_scan(lines, i + 1, true, nl, vertex, instance.push(t))
                    } else {
                        spec_glsl_scan(lines, i + 1, true, nl, vertex.push(t), instance)
                    },
                },
            }
        }
    }
}

/// The input types a GLSL vertex shader source declares.
pub open spec fn spec_glsl_input_types(code: Seq<char>) -> Result<(Seq<Type>, Seq<Type>), ShaderInputError> {
    spec_glsl_scan(lines_of(code), 0, false, false, Seq::empty(), Seq::empty())
}

/// Whether the scan result `r` is the one `spec` describes.
pub open spec fn scan_matches(
    r: Result<(Vec<Type>, Vec<Type>), ShaderInputError>,
    spec: Result<(Seq<Type>, Seq<Type>), ShaderInputError>,
) -> bool {
    match r {
        Ok((v, i)) => spec == Ok::<(Seq<Type>, Seq<Type>), ShaderInputError>((v@, i@)),
        Err(e) => spec == Err::<(Seq<Type>, Seq<Type>), ShaderInputError>(e),
    }
}

/// The input type a WGSL type name stands for, if any.
pub fn parse_wgsl_type(s: &[char]) -> (r: Option<Type>)
    ensures
        r == spec_wgsl_type(s@),
{
    if chars_eq(s, chars_of("f32").as_slice()) {
        Some(Type::Float)
    } else if chars_eq(s, chars_of("vec2<f32>").as_slice()) {
        Some(Type::Vec2)
    } else if chars_eq(s, chars_of("vec3<f32>").as_slice()) {
        Some(Type::Vec3)
    } else if chars_eq(s, chars_of("vec4<f32>").as_slice()) {
        Some(Type::Vec4)
    } else {
        None
    }
}

/// The input type of a WGSL field line, or why it has none.
pub fn field_type(field: &[char]) -> (r: Result<Type, ShaderInputError>)
    ensures
        r == spec_field_type(field@),
{
    match rfind_char(field, ' ') {
        None => Err(ShaderInputError::FieldWithoutType),
        Some(p) => {
            proof {
                lemma_rfind_bounds(field@, ' ');
            }
            let n = field.len();
            let end: usize = if field[n - 1] == ',' { n - 1 } else { n };
            let token = copy_range(field, p + 1, end);
            match parse_wgsl_type(token.as_slice()) {
                Some(t) => Ok(t),
                None => Err(ShaderInputError::UnknownType),
            }
        },
    }
}

/// `rfind` reports an index holding the character, inside the sequence.
pub proof fn lemma_rfind_bounds(s: Seq<char>, c: char)
    ensures
        rfind(s, c) matches Some(p) ==> 0 <= p < s.len() && s[p] == c,
    decreases s.len(),
{
    if s.len() > 0 && s.last() != c {
        lemma_rfind_bounds(s.drop_last(), c);
    }
}

/// The input type of a WGSL field line such as `    position: vec3<f32>,`.
/// A line without a space is an error; a type other than a float vector is
/// not accepted.
pub fn wgsl_field_to_type(field: &str) -> (r: Result<Type, ShaderInputError>)
    requires
        spec_field_token(field@) matches Some(t) ==> spec_wgsl_type(t) is Some,
    ensures
        r == (match spec_field_token(field@) {
            None => Err(ShaderInputError::FieldWithoutType),
            Some(t) => Ok(spec_wgsl_type(t).unwrap()),
        }),
{
    let chars = chars_of(field);
    field_type(chars.as_slice())
}

/// Whether the characters of `line` are those of `lit`.
fn line_is(line: &Vec<char>, lit: &str) -> (r: bool)
    ensures
        r == (line@ == lit@),
{
    chars_eq(line.as_slice(), chars_of(lit).as_slice())
}

/// The input types declared by the `VertexInput` struct of a WGSL source:
/// the fields before its empty line are per-vertex, those after it
/// per-instance. Errors: a field line without a type, a field of a type
/// that is not a float vector, or no complete struct.
fn scan_wgsl(code: &str) -> (r: Result<(Vec<Type>, Vec<Type>), ShaderInputError>)
    ensures
        scan_matches(r, spec_wgsl_input_types(code@)),
{
    let chars = chars_of(code);
    let lines = lines(chars.as_slice());
    let ghost ls = lines_of(code@);
    let mut vertex_types: Vec<Type> = Vec::new();
    let mut instance_types: Vec<Type> = Vec::new();
    let mut state = ScanState::Searching;
    let mut i: usize = 0;
    while i < lines.len() && state != ScanState::Finished
        invariant
            lines@.len() == ls.len(),
            forall|j: int| 0 <= j < lines@.len() ==> #[trigger] lines@[j]@ == ls[j],
            i <= lines@.len(),
            spec_wgsl_input_types(code@) == spec_wgsl_scan(ls, i as int, state, vertex_types@, instance_types@),
        decreases lines@.len() - i,
    {
        let line = &lines[i];
        assert(line@ == ls[i as int]);
        match state {
            ScanState::Searching => {
                if line_is(line, "struct VertexInput {") {
                    state = ScanState::Vertex;
                }
            },
            ScanState::Vertex => {
                if line.len() == 0 {
                    state = ScanState::Instance;
                } else {
                    match field_type(line.as_slice()) {
                        Ok(t) => vertex_types.push(t),
                        Err(e) => return Err(e),
                    }
                }
            },
            ScanState::Instance => {
                if line_is(line, "}") {
                    state = ScanState::Finished;
                } else {
                    match field_type(line.as_slice()) {
                        Ok(t) => instance_types.push(t),
                        Err(e) => return Err(e),
                    }
                }
            },
            ScanState::Finished => {},
        }
        i = i + 1;
    }
    match state {
        ScanState::Finished => Ok((vertex_types, instance_types)),
        _ => Err(ShaderInputError::UnfinishedInput),
    }
}

/// The `in` variables of a GLSL vertex shader: those before the first empty
/// line that follows an input are per-vertex, those after it per-instance,
/// and a second such empty line ends the scan. Errors: a variable without a
/// name after its type (with its line number), or a type that is not a
/// float vector.
fn scan_glsl(code: &str) -> (r: Result<(Vec<Type>, Vec<Type>), ShaderInputError>)
    ensures
        scan_matches(r, spec_glsl_input_types(code@)),
{
    let chars = chars_of(code);
    let lines = lines(chars.as_slice());
    let ghost ls = lines_of(code@);
    let in_ = chars_of(" in ");
    let space = chars_of(" ");
    let mut vertex_info: Vec<Type> = Vec::new();
    let mut instance_info: Vec<Type> = Vec::new();
    let mut found_in = false;
    let mut found_nl = false;
    let mut done = false;
    let mut i: usize = 0;
    while i < lines.len() && !done
        invariant
            lines@.len() == ls.len(),
            forall|j: int| 0 <= j < lines@.len() ==> #[trigger] lines@[j]@ == ls[j],
            i <= lines@.len(),
            in_@ == " in "@,
            space@ == " "@,
            done ==> spec_glsl_input_types(code@) == Ok::<(Seq<Type>, Seq<Type>), ShaderInputError>((vertex_info@, instance_info@)),
            !done ==> spec_glsl_input_types(code@) == spec_glsl_scan(ls, i as int, found_in, found_nl, vertex_info@, instance_info@),
        decreases lines@.len() - i + (if done { 0int } else { 1int }),
    {
        let line = &lines[i];
        assert(line@ == ls[i as int]);
        if found_in && line.len() == 0 {
            if found_nl {
                done = true;
                continue;
            }
            found_nl = true;
        }
        match find_chars(line.as_slice(), in_.as_slice()) {
            None => {},
            Some(left) => {
                proof {
                    reveal_strlit(" in ");
                    lemma_find_bounds(line@, " in "@, 0);
                }
                let rest = copy_range(line.as_slice(), left + 4, line.len());
                assert(rest@ =~= line@.skip(left + 4));
                let var = trim_start_chars(rest.as_slice());
                match find_chars(var.as_slice(), space.as_slice()) {
                    Some(right) => {
                        proof {
                            reveal_strlit(" ");
                            lemma_find_bounds(var@, " "@, 0);
                        }
                        let token = copy_range(var.as_slice(), 0, right);
                        assert(token@ =~= var@.take(right as int));
                        match parse_glsl_type(token.as_slice()) {
                            None => return Err(ShaderInputError::UnknownType),
                            Some(kind) => {
                                found_in = true;
                                if found_nl {
                                    instance_info.push(kind);
                                } else {
                                    vertex_info.push(kind);
                                }
                            },
                        }
                    },
                    None => {
                        return Err(ShaderInputError::VarWithoutType(i + 1));
                    },
                }
            },
        }
        i = i + 1;
    }
    Ok((vertex_info, instance_info))
}

/// Whether the input types of WGSL source `code` can be read: its scan
/// meets no field of an unknown type and finds a complete struct. A field
/// line without a type is an error the scan reports.
pub open spec fn wgsl_input_readable(code: Seq<char>) -> bool {
    &&& !(spec_wgsl_input_types(code) matches Err(ShaderInputError::UnknownType))
    &&& !(spec_wgsl_input_types(code) matches Err(ShaderInputError::UnfinishedInput))
}

/// Whether the input types of WGSL source `code` can be read.
pub fn wgsl_input_is_readable(code: &str) -> (r: bool)
    ensures
        r == wgsl_input_readable(code@),
{
    match scan_wgsl(code) {
        Err(ShaderInputError::UnknownType) => false,
        Err(ShaderInputError::UnfinishedInput) => false,
        _ => true,
    }
}

/// The input types declared by the `VertexInput` struct of a WGSL source
/// whose inputs can be read: the fields before its empty line are
/// per-vertex, those after it per-instance. A field line without a type is
/// an error.
pub fn scan_wgsl_input_types(code: &str) -> (r: Result<(Vec<Type>, Vec<Type>), ShaderInputError>)
    requires
        wgsl_input_readable(code@),
    ensures
        scan_matches(r, spec_wgsl_input_types(code@)),
{
    scan_wgsl(code)
}

/// Whether the input types of GLSL source `code` can be read: its scan
/// meets no variable of an unknown type. A variable without a name is an
/// error the scan reports.
pub open spec fn glsl_input_readable(code: Seq<char>) -> bool {
    !(spec_glsl_input_types(code) matches Err(ShaderInputError::UnknownType))
}

/// Whether the input types of GLSL source `code` can be read.
pub fn glsl_input_is_readable(code: &str) -> (r: bool)
    ensures
        r == glsl_input_readable(code@),
{
    match scan_glsl(code) {
        Err(ShaderInputError::UnknownType) => false,
        _ => true,
    }
}

/// The `in` variables of a GLSL vertex shader whose inputs can be read:
/// those before the first empty line that follows an input are per-vertex,
/// those after it per-instance, and a second such empty line ends the scan.
/// A variable without a name after its type is an error, with its line
/// number.
pub fn scan_glsl_input_types(code: &str) -> (r: Result<(Vec<Type>, Vec<Type>), ShaderInputError>)
    requires
        glsl_input_readable(code@),
    ensures
        scan_matches(r, spec_glsl_input_types(code@)),
{
    scan_glsl(code)
}

/// An index `find_from` reports is where the needle occurs.
pub proof fn lemma_find_bounds(hay: Seq<char>, needle: Seq<char>, from: int)
    ensures
        find_from(hay, needle, from) matches Some(p) ==> from <= p && p + needle.len() <= hay.len()
            && hay.subrange(p, p + needle.len()) == needle,
    decreases hay.len() + 1 - from,
{
    if from >= 0 && from + needle.len() <= hay.len() && hay.subrange(from, from + needle.len()) != needle {
        lemma_find_bounds(hay, needle, from + 1);
    }
}

/// The instance part of a WGSL scan: from line `i` on, every line up to the
/// closing `}` is a field whose type is appended, in line order.
proof fn lemma_wgsl_instance_fields(ls: Seq<Seq<char>>, i: int, v: Seq<Type>, ins: Seq<Type>) -> (c: int)
    requires
        0 <= i,
        spec_wgsl_scan(ls, i, ScanState::Instance, v, ins) is Ok,
    ensures
        ({
            let (v2, ins2) = spec_wgsl_scan(ls, i, ScanState::Instance, v, ins).unwrap();
            &&& v2 == v
            &&& i <= c < ls.len()
            &&& ls[c] == "}"@
            &&& ins2.len() == ins.len() + (c - i)
            &&& forall|k: int| 0 <= k < ins.len() ==> #[trigger] ins2[k] == ins[k]
            &&& forall|k: int| 0 <= k < c - i ==> spec_field_type(#[trigger] ls[i + k]) == Ok::<Type, ShaderInputError>(ins2[ins.len() + k])
        }),
    decreases ls.len() - i,
{
    assert(i < ls.len());
    let line = ls[i];
    if line == "}"@ {
        assert(spec_wgsl_scan(ls, i + 1, ScanState::Finished, v, ins) == Ok::<(Seq<Type>, Seq<Type>), ShaderInputError>((v, ins)));
        assert(ins.len() + (i - i) == ins.len());
        i
    } else {
        let t = spec_field_type(line)->Ok_0;
        let c = lemma_wgsl_instance_fields(ls, i + 1, v, ins.push(t));
        let (v2, ins2) = spec_wgsl_scan(ls, i, ScanState::Instance, v, ins).unwrap();
        assert forall|k: int| 0 <= k < c - i implies spec_field_type(#[trigger] ls[i + k]) == Ok::<Type, ShaderInputError>(ins2[ins.len() + k]) by {
            if k == 0 {
                assert(ins2[ins.len() as int] == ins.push(t)[ins.len() as int]);
            } else {
                assert(ls[i + k] == ls[(i + 1) + (k - 1)]);
            }
        }
        assert forall|k: int| 0 <= k < ins.len() implies #[trigger] ins2[k] == ins[k] by {
            assert(ins2[k] == ins.push(t)[k]);
        }
        c
    }
}

/// The vertex part of a WGSL scan: from line `i` on, every line up to the
/// first empty one is a field whose type is appended, in line order; the
/// instance part follows up to the closing `}`.
proof fn lemma_wgsl_vertex_fields(ls: Seq<Seq<char>>, i: int, v: Seq<Type>, ins: Seq<Type>) -> (bc: (int, int))
    requires
        0 <= i,
        spec_wgsl_scan(ls, i, ScanState::Vertex, v, ins) is Ok,
    ensures
        ({
            let (v2, ins2) = spec_wgsl_scan(ls, i, ScanState::Vertex, v, ins).unwrap();
            let (b, c) = bc;
            &&& i <= b < c < ls.len()
            &&& ls[b].len() == 0
            &&& ls[c] == "}"@
            &&& v2.len() == v.len() + (b - i)
            &&& forall|k: int| 0 <= k < v.len() ==> #[trigger] v2[k] == v[k]
            &&& forall|k: int| 0 <= k < b - i ==> spec_field_type(#[trigger] ls[i + k]) == Ok::<Type, ShaderInputError>(v2[v.len() + k])
            &&& ins2.len() == ins.len() + (c - b - 1)
            &&& forall|k: int| 0 <= k < ins.len() ==> #[trigger] ins2[k] == ins[k]
            &&& forall|k: int| 0 <= k < c - b - 1 ==> spec_field_type(#[trigger] ls[b + 1 + k]) == Ok::<Type, ShaderInputError>(ins2[ins.len() + k])
        }),
    decreases ls.len() - i,
{
    let line = ls[i];
    if line.len() == 0 {
        let c = lemma_wgsl_instance_fields(ls, i + 1, v, ins);
        let (v2, ins2) = spec_wgsl_scan(ls, i, ScanState::Vertex, v, ins).unwrap();
        assert forall|k: int| 0 <= k < c - i - 1 implies spec_field_type(#[trigger] ls[i + 1 + k]) == Ok::<Type, ShaderInputError>(ins2[ins.len() + k]) by {
            assert(ls[i + 1 + k] == ls[(i + 1) + k]);
        }
        (i, c)
    } else {
        let t = spec_field_type(line)->Ok_0;
        let (b, c) = lemma_wgsl_vertex_fields(ls, i + 1, v.push(t), ins);
        let (v2, ins2) = spec_wgsl_scan(ls, i, ScanState::Vertex, v, ins).unwrap();
        assert forall|k: int| 0 <= k < b - i implies spec_field_type(#[trigger] ls[i + k]) == Ok::<Type, ShaderInputError>(v2[v.len() + k]) by {
            if k == 0 {
                assert(v2[v.len() as int] == v.push(t)[v.len() as int]);
            } else {
                assert(ls[i + k] == ls[(i + 1) + (k - 1)]);
            }
        }
        assert forall|k: int| 0 <= k < v.len() implies #[trigger] v2[k] == v[k] by {
            assert(v2[k] == v.push(t)[k]);
        }
        (b, c)
    }
}

/// The search part of a WGSL scan: from line `i` on, the first
/// `struct VertexInput {` line opens the vertex fields.
proof fn lemma_wgsl_search(ls: Seq<Seq<char>>, i: int) -> (hbc: (int, int, int))
    requires
        0 <= i,
        spec_wgsl_scan(ls, i, ScanState::Searching, Seq::empty(), Seq::empty()) is Ok,
    ensures
        ({
            let (v, ins) = spec_wgsl_scan(ls, i, ScanState::Searching, Seq::empty(), Seq::empty()).unwrap();
            let (h, b, c) = hbc;
            &&& i <= h < b < c < ls.len()
            &&& ls[h] == "struct VertexInput {"@
            &&& forall|j: int| i <= j < h ==> #[trigger] ls[j] != "struct VertexInput {"@
            &&& ls[b].len() == 0
            &&& ls[c] == "}"@
            &&& v.len() == b - h - 1
            &&& ins.len() == c - b - 1
            &&& forall|k: int| 0 <= k < v.len() ==> spec_field_type(#[trigger] ls[h + 1 + k]) == Ok::<Type, ShaderInputError>(v[k])
            &&& forall|k: int| 0 <= k < ins.len() ==> spec_field_type(#[trigger] ls[b + 1 + k]) == Ok::<Type, ShaderInputError>(ins[k])
        }),
    decreases ls.len() - i,
{
    let e = Seq::<Type>::empty();
    if ls[i] == "struct VertexInput {"@ {
        let (b, c) = lemma_wgsl_vertex_fields(ls, i + 1, e, e);
        let (v, ins) = spec_wgsl_scan(ls, i, ScanState::Searching, e, e).unwrap();
        assert forall|k: int| 0 <= k < v.len() implies spec_field_type(#[trigger] ls[i + 1 + k]) == Ok::<Type, ShaderInputError>(v[k]) by {
            assert(ls[i + 1 + k] == ls[(i + 1) + k]);
            assert(v[e.len() + k] == v[k]);
        }
        assert forall|k: int| 0 <= k < ins.len() implies spec_field_type(#[trigger] ls[b + 1 + k]) == Ok::<Type, ShaderInputError>(ins[k]) by {
            assert(ins[e.len() + k] == ins[k]);
        }
        (i, b, c)
    } else {
        lemma_wgsl_search(ls, i + 1)
    }
}

/// The input types a WGSL source declares are its `VertexInput` fields in
/// line order: after the first `struct VertexInput {` line at `h`, the
/// `k`-th per-vertex type is the type of line `h + 1 + k`, up to the empty
/// line at `b`; the `k`-th per-instance type is the type of line
/// `b + 1 + k`, up to the closing `}` at `c`.
pub proof fn lemma_wgsl_inputs_in_field_order(code: Seq<char>) -> (hbc: (int, int, int))
    requires
        spec_wgsl_input_types(code) is Ok,
    ensures
        ({
            let ls = lines_of(code);
            let (v, ins) = spec_wgsl_input_types(code).unwrap();
            let (h, b, c) = hbc;
            &&& 0 <= h < b < c < ls.len()
            &&& ls[h] == "struct VertexInput {"@
            &&& forall|j: int| 0 <= j < h ==> #[trigger] ls[j] != "struct VertexInput {"@
            &&& ls[b].len() == 0
            &&& ls[c] == "}"@
            &&& v.len() == b - h - 1
            &&& ins.len() == c - b - 1
            &&& forall|k: int| 0 <= k < v.len() ==> spec_field_type(#[trigger] ls[h + 1 + k]) == Ok::<Type, ShaderInputError>(v[k])
            &&& forall|k: int| 0 <= k < ins.len() ==> spec_field_type(#[trigger] ls[b + 1 + k]) == Ok::<Type, ShaderInputError>(ins[k])
        }),
{
    lemma_wgsl_search(lines_of(code), 0)
}

/// The type a GLSL line declares an input of, if it declares one of a
/// known type.
pub open spec fn glsl_line_type(line: Seq<char>) -> Option<Type> {
    match spec_glsl_var_type(line) {
        Some(Some(token)) => spec_glsl_type(token),
        _ => None,
    }
}

/// The positions `p` are in increasing order.
pub open spec fn increasing(p: Seq<int>) -> bool {
    forall|a: int, b: int| 0 <= a < b < p.len() ==> #[trigger] p[a] < #[trigger] p[b]
}

/// The GLSL scan from line `i` on: the types it appends are those of the
/// input lines at increasing positions `pv` (per-vertex) and `pi`
/// (per-instance), every per-vertex line before every per-instance one, and
/// no input line before the line `e` where the scan ends is left out.
proof fn lemma_glsl_scan_positions(
    ls: Seq<Seq<char>>,
    i: int,
    found_in: bool,
    found_nl: bool,
    v: Seq<Type>,
    ins: Seq<Type>,
) -> (r: (Seq<int>, Seq<int>, int))
    requires
        0 <= i <= ls.len(),
        spec_glsl_scan(ls, i, found_in, found_nl, v, ins) is Ok,
    ensures
        ({
            let (v2, ins2) = spec_glsl_scan(ls, i, found_in, found_nl, v, ins).unwrap();
            let (pv, pi, e) = r;
            &&& i <= e <= ls.len()
            &&& increasing(pv) && increasing(pi)
            &&& forall|k: int| 0 <= k < pv.len() ==> i <= #[trigger] pv[k] < e
            &&& forall|k: int| 0 <= k < pi.len() ==> i <= #[trigger] pi[k] < e
            &&& forall|a: int, b: int| 0 <= a < pv.len() && 0 <= b < pi.len() ==> #[trigger] pv[a] < #[trigger] pi[b]
            &&& found_nl ==> pv.len() == 0
            &&& v2.len() == v.len() + pv.len()
            &&& forall|k: int| 0 <= k < v.len() ==> #[trigger] v2[k] == v[k]
            &&& forall|k: int| 0 <= k < pv.len() ==> glsl_line_type(ls[#[trigger] pv[k]]) == Some(v2[v.len() + k])
            &&& ins2.len() == ins.len() + pi.len()
            &&& forall|k: int| 0 <= k < ins.len() ==> #[trigger] ins2[k] == ins[k]
            &&& forall|k: int| 0 <= k < pi.len() ==> glsl_line_type(ls[#[trigger] pi[k]]) == Some(ins2[ins.len() + k])
            &&& forall|j: int| i <= j < e && (#[trigger] glsl_line_type(ls[j])) is Some ==> pv.contains(j) || pi.contains(j)
        }),
    decreases ls.len() - i,
{
    let e0 = Seq::<int>::empty();
    if i >= ls.len() {
        (e0, e0, i)
    } else {
        let line = ls[i];
        let blank = found_in && line.len() == 0;
        if blank && found_nl {
            (e0, e0, i)
        } else {
            let nl = found_nl || blank;
            match spec_glsl_var_type(line) {
                None => {
                    let (pv, pi, e) = lemma_glsl_scan_positions(ls, i + 1, found_in, nl, v, ins);
                    assert(glsl_line_type(ls[i]) is None);
                    (pv, pi, e)
                },
                Some(None) => {
                    assert(false);
                    (e0, e0, i)
                },
                Some(Some(token)) => {
                    let t = spec_glsl_type(token).unwrap();
                    if nl {
                        let (pv, pi, e) = lemma_glsl_scan_positions(ls, i + 1, true, nl, v, ins.push(t));
                        let (v2, ins2) = spec_glsl_scan(ls, i, found_in, found_nl, v, ins).unwrap();
                        let pi2 = seq![i] + pi;
                        assert(increasing(pi2)) by {
                            assert forall|a: int, b: int| 0 <= a < b < pi2.len() implies #[trigger] pi2[a] < #[trigger] pi2[b] by {
                                if a == 0 {
                                    assert(pi2[b] == pi[b - 1]);
                                } else {
                                    assert(pi2[a] == pi[a - 1] && pi2[b] == pi[b - 1]);
                                }
                            }
                        }
                        assert forall|k: int| 0 <= k < pi2.len() implies glsl_line_type(ls[#[trigger] pi2[k]]) == Some(ins2[ins.len() + k]) by {
                            if k == 0 {
                                assert(ins2[ins.len() as int] == ins.push(t)[ins.len() as int]);
                            } else {
                                assert(pi2[k] == pi[k - 1]);
                                assert(ins.push(t).len() + (k - 1) == ins.len() + k);
                            }
                        }
                        assert forall|k: int| 0 <= k < ins.len() implies #[trigger] ins2[k] == ins[k] by {
                            assert(ins2[k] == ins.push(t)[k]);
                        }
                        assert forall|k: int| 0 <= k < pi2.len() implies i <= #[trigger] pi2[k] < e by {
                            if k > 0 {
                                assert(pi2[k] == pi[k - 1]);
                            }
                        }
                        assert forall|j: int| i <= j < e && (#[trigger] glsl_line_type(ls[j])) is Some implies pv.contains(j)
                            || pi2.contains(j) by {
                            if j == i {
                                assert(pi2[0] == i);
                            } else {
                                if pi.contains(j) {
                                    let k = choose|k: int| 0 <= k < pi.len() && pi[k] == j;
                                    assert(pi2[k + 1] == j);
                                }
                            }
                        }
                        (pv, pi2, e)
                    } else {
                        let (pv, pi, e) = lemma_glsl_scan_positions(ls, i + 1, true, nl, v.push(t), ins);
                        let (v2, ins2) = spec_glsl_scan(ls, i, found_in, found_nl, v, ins).unwrap();
                        let pv2 = seq![i] + pv;
                        assert(increasing(pv2)) by {
                            assert forall|a: int, b: int| 0 <= a < b < pv2.len() implies #[trigger] pv2[a] < #[trigger] pv2[b] by {
                                if a == 0 {
                                    assert(pv2[b] == pv[b - 1]);
                                } else {
                                    assert(pv2[a] == pv[a - 1] && pv2[b] == pv[b - 1]);
                                }
                            }
                        }
                        assert forall|k: int| 0 <= k < pv2.len() implies glsl_line_type(ls[#[trigger] pv2[k]]) == Some(v2[v.len() + k]) by {
                            if k == 0 {
                                assert(v2[v.len() as int] == v.push(t)[v.len() as int]);
                            } else {
                                assert(pv2[k] == pv[k - 1]);
                                assert(v.push(t).len() + (k - 1) == v.len() + k);
                            }
                        }
                        assert forall|k: int| 0 <= k < v.len() implies #[trigger] v2[k] == v[k] by {
                            assert(v2[k] == v.push(t)[k]);
                        }
                        assert forall|k: int| 0 <= k < pv2.len() implies i <= #[trigger] pv2[k] < e by {
                            if k > 0 {
                                assert(pv2[k] == pv[k - 1]);
                            }
                        }
                        assert forall|a: int, b: int| 0 <= a < pv2.len() && 0 <= b < pi.len() implies #[trigger] pv2[a] < #[trigger] pi[b] by {
                            if a > 0 {
                                assert(pv2[a] == pv[a - 1]);
                            }
                        }
                        assert forall|j: int| i <= j < e && (#[trigger] glsl_line_type(ls[j])) is Some implies pv2.contains(j)
                            || pi.contains(j) by {
                            if j == i {
                                assert(pv2[0] == i);
                            } else {
                                if pv.contains(j) {
                                    let k = choose|k: int| 0 <= k < pv.len() && pv[k] == j;
                                    assert(pv2[k + 1] == j);
                                }
                            }
                        }
                        (pv2, pi, e)
                    }
                },
            }
        }
    }
}

/// The input types a GLSL vertex shader declares are its `in` lines in
/// line order: the `k`-th per-vertex type is the type of the `k`-th of the
/// increasing lines `pv`, the `k`-th per-instance type that of the `k`-th
/// of the increasing lines `pi`, every per-vertex line comes before every
/// per-instance one, and no input line before the line `e` where the scan
/// ends is left out.
pub proof fn lemma_glsl_inputs_in_line_order(code: Seq<char>) -> (r: (Seq<int>, Seq<int>, int))
    requires
        spec_glsl_input_types(code) is Ok,
    ensures
        ({
            let ls = lines_of(code);
            let (v, ins) = spec_glsl_input_types(code).unwrap();
            let (pv, pi, e) = r;
            &&& 0 <= e <= ls.len()
            &&& increasing(pv) && increasing(pi)
            &&& pv.len() == v.len() && pi.len() == ins.len()
            &&& forall|k: int| 0 <= k < pv.len() ==> 0 <= #[trigger] pv[k] < e
            &&& forall|k: int| 0 <= k < pi.len() ==> 0 <= #[trigger] pi[k] < e
            &&& forall|a: int, b: int| 0 <= a < pv.len() && 0 <= b < pi.len() ==> #[trigger] pv[a] < #[trigger] pi[b]
            &&& forall|k: int| 0 <= k < v.len() ==> glsl_line_type(ls[#[trigger] pv[k]]) == Some(v[k])
            &&& forall|k: int| 0 <= k < ins.len() ==> glsl_line_type(ls[#[trigger] pi[k]]) == Some(ins[k])
            &&& forall|j: int| 0 <= j < e && (#[trigger] glsl_line_type(ls[j])) is Some ==> pv.contains(j) || pi.contains(j)
        }),
{
    let ls = lines_of(code);
    let e = Seq::<Type>::empty();
    let r = lemma_glsl_scan_positions(ls, 0, false, false, e, e);
    let (v, ins) = spec_glsl_input_types(code).unwrap();
    let (pv, pi, _) = r;
    assert forall|k: int| 0 <= k < v.len() implies glsl_line_type(ls[#[trigger] pv[k]]) == Some(v[k]) by {
        assert(e.len() + k == k);
    }
    assert forall|k: int| 0 <= k < ins.len() implies glsl_line_type(ls[#[trigger] pi[k]]) == Some(ins[k]) by {
        assert(e.len() + k == k);
    }
    r
}

} // verus!
