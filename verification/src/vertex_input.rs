//! Vertex input layouts: the attribute and binding descriptions a graphics
//! pipeline is built with, derived from the list of input types a shader
//! declares.

use vstd::prelude::*;
use crate::text::{chars_eq, chars_of};

verus! {

/// Type of one shader input.
#[derive(Clone, Copy, Debug, PartialEq, Eq, Structural)]
pub enum Type {
    Float,
    Vec2,
    Vec3,
    Vec4,
}

/// Format of one vertex attribute: one to four 32-bit floats.
#[derive(Clone, Copy, Debug, PartialEq, Eq, Structural)]
pub enum VertexFormat {
    R32Sfloat,
    R32G32Sfloat,
    R32G32B32Sfloat,
    R32G32B32A32Sfloat,
}

/// Whether a binding advances per vertex or per instance.
#[derive(Clone, Copy, Debug, PartialEq, Eq, Structural)]
pub enum InputRate {
    Vertex,
    Instance,
}

/// Where one shader input lives in a vertex buffer binding.
#[derive(Clone, Copy, Debug, PartialEq, Eq, Structural)]
pub struct AttributeDescription {
    pub binding: u32,
    pub location: u32,
    pub format: VertexFormat,
    pub offset: u32,
}

/// One vertex buffer binding: its number, stride and step rate.
#[derive(Clone, Copy, Debug, PartialEq, Eq, Structural)]
pub struct BindingDescription {
    pub binding: u32,
    pub stride: u32,
    pub input_rate: InputRate,
}

/// Format and byte size of an input type.
#[derive(Clone, Copy, Debug, PartialEq, Eq, Structural)]
pub struct TypeInfo {
    pub format: VertexFormat,
    pub size: u32,
}

/// What a pipeline needs to know of its shader.
pub struct ShaderInfo {
    pub name: String,
    /// Raw value of the cull mode flags.
    pub cull_mode: u32,
    /// Raw value of the polygon mode.
    pub polygon_mode: i32,
    pub vertex_info: Vec<Type>,
    pub instance_info: Vec<Type>,
    /// Number of floats one instance takes.
    pub instance_size: usize,
}

/// Number of 32-bit floats in a value of type `t`.
pub open spec fn components(t: Type) -> nat {
    match t {
        Type::Float => 1,
        Type::Vec2 => 2,
        Type::Vec3 => 3,
        Type::Vec4 => 4,
    }
}

/// Byte size of a value of type `t`.
pub open spec fn type_size(t: Type) -> nat {
    4 * components(t)
}

/// Attribute format of a value of type `t`.
pub open spec fn type_format(t: Type) -> VertexFormat {
    match t {
        Type::Float => VertexFormat::R32Sfloat,
        Type::Vec2 => VertexFormat::R32G32Sfloat,
        Type::Vec3 => VertexFormat::R32G32B32Sfloat,
        Type::Vec4 => VertexFormat::R32G32B32A32Sfloat,
    }
}

/// Byte width of one attribute of format `f`: four bytes per 32-bit float
/// it holds (`R32` one, `R32G32` two, `R32G32B32` three, `R32G32B32A32`
/// four).
pub open spec fn format_width(f: VertexFormat) -> nat {
    match f {
        VertexFormat::R32Sfloat => 4,
        VertexFormat::R32G32Sfloat => 8,
        VertexFormat::R32G32B32Sfloat => 12,
        VertexFormat::R32G32B32A32Sfloat => 16,
    }
}

/// Total byte size of the types in `s`, laid out back to back.
pub open spec fn types_size(s: Seq<Type>) -> nat
    decreases s.len(),
{
    if s.len() == 0 {
        0
    } else {
        types_size(s.drop_last()) + type_size(s.last())
    }
}

/// The attribute for input `k` of `info` in binding `binding`, whose first
/// input sits at location `first_location`.
pub open spec fn spec_attribute(info: Seq<Type>, binding: u32, first_location: u32, k: int) -> AttributeDescription {
    AttributeDescription {
        binding,
        location: (first_location + k) as u32,
        format: type_format(info[k]),
        offset: types_size(info.take(k)) as u32,
    }
}

/// The attributes of all inputs of `info`, in order.
pub open spec fn spec_attributes(info: Seq<Type>, binding: u32, first_location: u32) -> Seq<AttributeDescription> {
    Seq::new(info.len(), |k: int| spec_attribute(info, binding, first_location, k))
}

/// The binding whose stride is the whole of `info`.
pub open spec fn spec_binding(info: Seq<Type>, binding: u32, input_rate: InputRate) -> BindingDescription {
    BindingDescription { binding, stride: types_size(info) as u32, input_rate }
}

/// Per-vertex inputs use binding 0 and start at location 0; the third part
/// is the first location left free.
pub open spec fn spec_vertex_descriptions(info: Seq<Type>) -> (BindingDescription, Seq<AttributeDescription>, u32) {
    (spec_binding(info, 0, InputRate::Vertex), spec_attributes(info, 0, 0), info.len() as u32)
}

/// Per-instance inputs use binding 1 and start at `first_location`.
pub open spec fn spec_instance_descriptions(info: Seq<Type>, first_location: u32) -> (BindingDescription, Seq<AttributeDescription>) {
    (spec_binding(info, 1, InputRate::Instance), spec_attributes(info, 1, first_location))
}

/// The GLSL spelling of each input type.
pub open spec fn spec_glsl_type(s: Seq<char>) -> Option<Type> {
    if s == "float"@ {
        Some(Type::Float)
    } else if s == "vec2"@ {
        Some(Type::Vec2)
    } else if s == "vec3"@ {
        Some(Type::Vec3)
    } else if s == "vec4"@ {
        Some(Type::Vec4)
    } else {
        None
    }
}

/// The size of a prefix never exceeds the size of the whole.
pub proof fn lemma_types_size_prefix(s: Seq<Type>, k: int)
    requires
        0 <= k <= s.len(),
    ensures
        types_size(s.take(k)) <= types_size(s),
    decreases s.len(),
{
    if k < s.len() {
        assert(s.drop_last().take(k) =~= s.take(k));
        lemma_types_size_prefix(s.drop_last(), k);
    } else {
        assert(s.take(k) =~= s);
    }
}

/// The size of inputs laid out one list after another is the sum of the
/// two lists' sizes; so the size does not depend on which list comes first.
pub proof fn lemma_types_size_concat(a: Seq<Type>, b: Seq<Type>)
    ensures
        types_size(a + b) == types_size(a) + types_size(b),
        types_size(a + b) == types_size(b + a),
{
    lemma_types_size_append(a, b);
    lemma_types_size_append(b, a);
}

proof fn lemma_types_size_append(a: Seq<Type>, b: Seq<Type>)
    ensures
        types_size(a + b) == types_size(a) + types_size(b),
    decreases b.len(),
{
    if b.len() == 0 {
        assert(a + b =~= a);
    } else {
        assert((a + b).drop_last() =~= a + b.drop_last());
        lemma_types_size_append(a, b.drop_last());
    }
}

/// Each input takes four bytes per component, so no input takes more than
/// sixteen bytes.
pub proof fn lemma_types_size_bound(s: Seq<Type>)
    ensures
        types_size(s) <= 16 * s.len(),
        types_size(s) % 4 == 0,
    decreases s.len(),
{
    if s.len() > 0 {
        lemma_types_size_bound(s.drop_last());
    }
}

/// An input's attribute format holds exactly its floats: the format's width
/// is the input's size, so a float input is `R32Sfloat` and a `vec4` input
/// `R32G32B32A32Sfloat`.
pub proof fn lemma_format_fits_type(t: Type)
    ensures
        format_width(type_format(t)) == type_size(t),
        t == Type::Float ==> type_format(t) == VertexFormat::R32Sfloat,
        type_size(t) == 4 * components(t),
{
}

/// Every attribute of a binding has the format of its input's width, and
/// each one starts where the one before it ends by that width.
pub proof fn lemma_attribute_formats_fit(info: Seq<Type>, binding: u32, first_location: u32)
    requires
        types_size(info) <= u32::MAX,
        first_location + info.len() <= u32::MAX,
    ensures
        ({
            let a = spec_attributes(info, binding, first_location);
            &&& forall|k: int| 0 <= k < info.len() ==> format_width(#[trigger] a[k].format) == type_size(info[k])
            &&& forall|k: int| 0 <= k < info.len() - 1 ==>
                #[trigger] a[k + 1].offset == a[k].offset + format_width(a[k].format)
        }),
{
    let a = spec_attributes(info, binding, first_location);
    assert forall|k: int| 0 <= k < info.len() - 1 implies #[trigger] a[k + 1].offset == a[k].offset
        + format_width(a[k].format) by {
        lemma_types_size_step(info, k);
        lemma_types_size_prefix(info, k + 1);
    }
}

/// Growing a prefix by one input adds that input's size.
pub proof fn lemma_types_size_step(s: Seq<Type>, k: int)
    requires
        0 <= k < s.len(),
    ensures
        types_size(s.take(k + 1)) == types_size(s.take(k)) + type_size(s[k]),
{
    assert(s.take(k + 1).drop_last() =~= s.take(k));
}

impl TypeInfo {
    pub fn new(format: VertexFormat, size: u32) -> (r: Self)
        ensures
            r.format == format,
            r.size == size,
    {
        TypeInfo { format, size }
    }
}

/// Format and byte size of `kind`.
pub fn type_info(kind: Type) -> (r: TypeInfo)
    ensures
        r.format == type_format(kind),
        r.size == type_size(kind),
        format_width(r.format) == r.size,
{
    match kind {
        Type::Float => TypeInfo::new(VertexFormat::R32Sfloat, 4),
        Type::Vec2 => TypeInfo::new(VertexFormat::R32G32Sfloat, 8),
        Type::Vec3 => TypeInfo::new(VertexFormat::R32G32B32Sfloat, 12),
        Type::Vec4 => TypeInfo::new(VertexFormat::R32G32B32A32Sfloat, 16),
    }
}

/// The input type a GLSL type name stands for, if any.
pub fn parse_glsl_type(s: &[char]) -> (r: Option<Type>)
    ensures
        r == spec_glsl_type(s@),
{
    if chars_eq(s, chars_of("float").as_slice()) {
        Some(Type::Float)
    } else if chars_eq(s, chars_of("vec2").as_slice()) {
        Some(Type::Vec2)
    } else if chars_eq(s, chars_of("vec3").as_slice()) {
        Some(Type::Vec3)
    } else if chars_eq(s, chars_of("vec4").as_slice()) {
        Some(Type::Vec4)
    } else {
        None
    }
}

/// The input type of a GLSL type name; other names are not accepted.
pub fn str_to_type(string: &str) -> (r: Type)
    requires
        spec_glsl_type(string@) is Some,
    ensures
        r == spec_glsl_type(string@).unwrap(),
{
    let chars = chars_of(string);
    match parse_glsl_type(chars.as_slice()) {
        Some(kind) => kind,
        None => Type::Float,
    }
}

/// Byte size of the inputs of `info` laid out back to back.
pub fn size_of_types(info: &[Type]) -> (size: usize)
    requires
        types_size(info@) <= usize::MAX,
    ensures
        size == types_size(info@),
{
    let mut size: usize = 0;
    let mut i: usize = 0;
    assert(info@.take(0) =~= Seq::<Type>::empty());
    while i < info.len()
        invariant
            i <= info@.len(),
            types_size(info@) <= usize::MAX,
            size == types_size(info@.take(i as int)),
        decreases info@.len() - i,
    {
        proof {
            lemma_types_size_step(info@, i as int);
            lemma_types_size_prefix(info@, i + 1);
        }
        size = size + type_info(info[i]).size as usize;
        i = i + 1;
    }
    assert(info@.take(i as int) =~= info@);
    size
}

/// Attributes of `info` in binding `binding` from location `first_location`,
/// and the binding itself.
fn descriptions(info: &[Type], binding: u32, first_location: u32, input_rate: InputRate) -> (r: (
    BindingDescription,
    Vec<AttributeDescription>,
    u32,
))
    requires
        types_size(info@) <= u32::MAX,
        first_location + info@.len() <= u32::MAX,
    ensures
        r.0 == spec_binding(info@, binding, input_rate),
        r.1@ == spec_attributes(info@, binding, first_location),
        r.2 == first_location + info@.len(),
{
    let mut attribute_descriptions: Vec<AttributeDescription> = Vec::new();
    let mut location: u32 = first_location;
    let mut offset: u32 = 0;
    let mut i: usize = 0;
    assert(info@.take(0) =~= Seq::<Type>::empty());
    while i < info.len()
        invariant
            i <= info@.len(),
            types_size(info@) <= u32::MAX,
            first_location + info@.len() <= u32::MAX,
            location == first_location + i,
            offset == types_size(info@.take(i as int)),
            attribute_descriptions@ =~= spec_attributes(info@, binding, first_location).take(i as int),
        decreases info@.len() - i,
    {
        let kind_info = type_info(info[i]);
        let attribute_description = AttributeDescription {
            binding,
            location,
            format: kind_info.format,
            offset,
        };
        proof {
            lemma_types_size_step(info@, i as int);
            lemma_types_size_prefix(info@, i + 1);
        }
        location = location + 1;
        offset = offset + kind_info.size;
        attribute_descriptions.push(attribute_description);
        i = i + 1;
    }
    assert(info@.take(i as int) =~= info@);
    let binding_description = BindingDescription { binding, stride: offset, input_rate };
    (binding_description, attribute_descriptions, location)
}

/// Descriptions of the per-vertex inputs: binding 0 with the inputs at
/// locations `0..info.len()` packed back to back, and the first free
/// location.
pub fn vertex_descriptions(info: &[Type]) -> (r: (BindingDescription, Vec<AttributeDescription>, u32))
    requires
        types_size(info@) <= u32::MAX,
        info@.len() <= u32::MAX,
    ensures
        r.0 == spec_vertex_descriptions(info@).0,
        r.1@ == spec_vertex_descriptions(info@).1,
        r.2 == spec_vertex_descriptions(info@).2,
{
    descriptions(info, 0, 0, InputRate::Vertex)
}

/// Descriptions of the per-instance inputs: binding 1 with the inputs at
/// the locations that follow `vertex_last_location`.
pub fn instance_descriptions(info: &[Type], vertex_last_location: u32) -> (r: (BindingDescription, Vec<AttributeDescription>))
    requires
        types_size(info@) <= u32::MAX,
        vertex_last_location + info@.len() <= u32::MAX,
    ensures
        r.0 == spec_instance_descriptions(info@, vertex_last_location).0,
        r.1@ == spec_instance_descriptions(info@, vertex_last_location).1,
{
    let (binding, attributes, _) = descriptions(info, 1, vertex_last_location, InputRate::Instance);
    (binding, attributes)
}

/// The attribute format for a value of `size` bytes made of 32-bit floats.
pub fn format_from_size(size: usize) -> (r: VertexFormat)
    requires
        4 <= size < 20,
    ensures
        r == (if size < 8 {
            VertexFormat::R32Sfloat
        } else if size < 12 {
            VertexFormat::R32G32Sfloat
        } else if size < 16 {
            VertexFormat::R32G32B32Sfloat
        } else {
            VertexFormat::R32G32B32A32Sfloat
        }),
{
    let index = size / 4 - 1;
    if index == 0 {
        VertexFormat::R32Sfloat
    } else if index == 1 {
        VertexFormat::R32G32Sfloat
    } else if index == 2 {
        VertexFormat::R32G32B32Sfloat
    } else {
        VertexFormat::R32G32B32A32Sfloat
    }
}

/// The attributes of a binding tile its stride: the first starts at 0, each
/// one starts where the one before it ends, the last ends at the stride
/// (which is what `size_of_types` reports), and locations are consecutive.
pub proof fn lemma_attributes_tile(info: Seq<Type>, binding: u32, first_location: u32)
    requires
        types_size(info) <= u32::MAX,
        first_location + info.len() <= u32::MAX,
    ensures
        ({
            let a = spec_attributes(info, binding, first_location);
            &&& a.len() == info.len()
            &&& info.len() > 0 ==> a[0].offset == 0 && a[0].location == first_location
            &&& forall|k: int| 0 <= k < info.len() - 1 ==>
                a[k + 1].offset == a[k].offset + type_size(info[k])
                && a[k + 1].location == a[k].location + 1
            &&& info.len() > 0 ==> a[info.len() - 1].offset + type_size(info.last())
                == spec_binding(info, binding, InputRate::Vertex).stride
        }),
{
    let a = spec_attributes(info, binding, first_location);
    if info.len() > 0 {
        assert(info.take(0) =~= Seq::<Type>::empty());
    }
    assert forall|k: int| 0 <= k < info.len() - 1 implies
        a[k + 1].offset == a[k].offset + type_size(info[k])
        && a[k + 1].location == a[k].location + 1 by {
        lemma_types_size_step(info, k);
        lemma_types_size_prefix(info, k + 1);
    }
    if info.len() > 0 {
        let n = info.len() - 1;
        lemma_types_size_step(info, n);
        assert(info.take(n + 1) =~= info);
        lemma_types_size_prefix(info, n);
    }
}

/// Per-instance inputs take the locations right after the per-vertex ones:
/// the location `vertex_descriptions` reports is the first instance
/// location, and the vertex stride is what `size_of_types` reports.
pub proof fn lemma_vertex_then_instance_locations(vertex_info: Seq<Type>, instance_info: Seq<Type>)
    requires
        types_size(vertex_info) <= u32::MAX,
        types_size(instance_info) <= u32::MAX,
        vertex_info.len() + instance_info.len() <= u32::MAX,
    ensures
        ({
            let (vb, va, last) = spec_vertex_descriptions(vertex_info);
            let (ib, ia) = spec_instance_descriptions(instance_info, last);
            &&& vb.stride == types_size(vertex_info)
            &&& ib.stride == types_size(instance_info)
            &&& forall|k: int| 0 <= k < va.len() ==> #[trigger] va[k].location == k
            &&& forall|k: int| 0 <= k < ia.len() ==> #[trigger] ia[k].location == vertex_info.len() + k
        }),
{
}

} // verus!
