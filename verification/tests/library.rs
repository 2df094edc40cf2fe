use dacho::commands::{build_commands, plan_recording, unknown_pipeline_bind, replace_draw, update_instances, Command, CommandError, Geometry, RecordError, Step, UpdateError};
use dacho::debug::{mark_spec_statement, message_level, message_source, severity_label, type_label, LogLevel};
use dacho::frames::{next_image, swapchain_image_count, FrameRing};
use dacho::buffers::{IndexBuffer, StagingBuffer, VertexBuffer};
use dacho::geometry::{index_count, instance_count, shader_info, CountError};
use dacho::image::{is_supported_transition, layout_transition, sampler_address_mode_v, Access, AddressMode, ImageLayout, Stage};
use dacho::memory::{find_memory_type, has_memory_type};
use dacho::order::{first_occurrences, sort_order};
use dacho::primitive::{Corner, CubeIndices, CubeVertices, Quad, Triangle};
use dacho::shader_input::{glsl_input_is_readable, scan_glsl_input_types, scan_wgsl_input_types, wgsl_input_is_readable, wgsl_field_to_type, ShaderInputError};
use dacho::spirv::{byte_order_of, bytes_to_words, cached_spirv_path, compile_wgsl, compile_wgsl_in, failed_count, native_byte_order, shader_file_name, spirv_output_path, words_to_bytes, ByteOrder, CompileError};
use dacho::text::{chars_of, lines};
use dacho::vertex_input::{
    format_from_size, instance_descriptions, size_of_types, str_to_type, vertex_descriptions, AttributeDescription,
    BindingDescription, InputRate, Type, VertexFormat,
};

fn geometry(id: u32, shader: &str, base: u64) -> Geometry {
    Geometry {
        id,
        shader: shader.to_string(),
        vertex_buffer: base,
        instance_buffer: base + 1,
        index_buffer: base + 2,
        index_count: 36,
        instance_count: id + 1,
    }
}

fn draw(base: u64, instances: u32) -> Vec<Command> {
    vec![
        Command::BindVertexBuffers(base, base + 1),
        Command::BindIndexBuffer(base + 2),
        Command::DrawIndexed(36, instances),
    ]
}

#[test]
fn triangle_and_quad() {
    assert_eq!(Triangle::new(4, 5, 6), (4, 5, 6));
    assert_eq!(Quad::new(0, 1, 2, 3), ((0, 1, 2), (2, 3, 0)));
}

#[test]
fn cube_indices_first_cube() {
    let c = CubeIndices::new(0);
    assert_eq!(c.0, ((0, 1, 2), (2, 3, 0)));
    assert_eq!(c.1, ((7, 6, 5), (5, 4, 7)));
    assert_eq!(c.2, ((8, 9, 10), (10, 11, 8)));
    assert_eq!(c.3, ((15, 14, 13), (13, 12, 15)));
    assert_eq!(c.4, ((19, 18, 17), (17, 16, 19)));
    assert_eq!(c.5, ((20, 21, 22), (22, 23, 20)));
}

#[test]
fn cube_indices_stay_in_their_block() {
    let c = CubeIndices::new(2);
    assert_eq!(c.0, ((48, 49, 50), (50, 51, 48)));
    assert_eq!(c.5, ((68, 69, 70), (70, 71, 68)));
    let last = CubeIndices::new(2729);
    assert_eq!(last.5, ((65516, 65517, 65518), (65518, 65519, 65516)));
}

#[test]
fn glsl_type_names() {
    assert_eq!(str_to_type("float"), Type::Float);
    assert_eq!(str_to_type("vec2"), Type::Vec2);
    assert_eq!(str_to_type("vec3"), Type::Vec3);
    assert_eq!(str_to_type("vec4"), Type::Vec4);
}

#[test]
fn sizes_of_types() {
    assert_eq!(size_of_types(&[]), 0);
    assert_eq!(size_of_types(&[Type::Float, Type::Vec3, Type::Vec4]), 32);
    assert_eq!(size_of_types(&[Type::Vec2]), 8);
}

#[test]
fn sizes_add_up_over_concatenation() {
    let a = [Type::Vec3, Type::Float];
    let b = [Type::Vec4, Type::Vec2, Type::Float];
    let ab = [a.as_slice(), b.as_slice()].concat();
    let ba = [b.as_slice(), a.as_slice()].concat();
    assert_eq!(size_of_types(&ab), size_of_types(&a) + size_of_types(&b));
    assert_eq!(size_of_types(&ab), size_of_types(&ba));
    assert_eq!(size_of_types(&ab), 44);
}

#[test]
fn vertex_descriptions_pack_inputs() {
    let (binding, attributes, last) = vertex_descriptions(&[Type::Vec3, Type::Vec2]);
    assert_eq!(binding, BindingDescription { binding: 0, stride: 20, input_rate: InputRate::Vertex });
    assert_eq!(
        attributes,
        vec![
            AttributeDescription { binding: 0, location: 0, format: VertexFormat::R32G32B32Sfloat, offset: 0 },
            AttributeDescription { binding: 0, location: 1, format: VertexFormat::R32G32Sfloat, offset: 12 },
        ]
    );
    assert_eq!(last, 2);
    assert_eq!(binding.stride as usize, size_of_types(&[Type::Vec3, Type::Vec2]));
}

#[test]
fn instance_descriptions_follow_vertex_locations() {
    let (binding, attributes) = instance_descriptions(&[Type::Vec4, Type::Vec4, Type::Vec4, Type::Vec4], 2);
    assert_eq!(binding, BindingDescription { binding: 1, stride: 64, input_rate: InputRate::Instance });
    assert_eq!(attributes.len(), 4);
    for (k, a) in attributes.iter().enumerate() {
        assert_eq!(a.binding, 1);
        assert_eq!(a.location, 2 + k as u32);
        assert_eq!(a.offset, 16 * k as u32);
        assert_eq!(a.format, VertexFormat::R32G32B32A32Sfloat);
    }
    let (empty, none) = instance_descriptions(&[], 7);
    assert_eq!(empty.stride, 0);
    assert!(none.is_empty());
}

#[test]
fn formats_from_sizes() {
    assert_eq!(format_from_size(4), VertexFormat::R32Sfloat);
    assert_eq!(format_from_size(8), VertexFormat::R32G32Sfloat);
    assert_eq!(format_from_size(12), VertexFormat::R32G32B32Sfloat);
    assert_eq!(format_from_size(16), VertexFormat::R32G32B32A32Sfloat);
}

#[test]
fn line_splitting_follows_str_lines() {
    for text in ["a\nb", "a\r\nb\n", "\n\nx\r", "", "one", "a\n\nb\n\n"] {
        let expected: Vec<Vec<char>> = text.lines().map(|l| l.chars().collect()).collect();
        assert_eq!(lines(&chars_of(text)), expected);
    }
}

#[test]
fn wgsl_fields() {
    assert_eq!(wgsl_field_to_type("    @location(0) position: vec3<f32>,"), Ok(Type::Vec3));
    assert_eq!(wgsl_field_to_type("    @location(3) time: f32"), Ok(Type::Float));
    assert_eq!(wgsl_field_to_type("    uv: vec2<f32>,"), Ok(Type::Vec2));
    assert_eq!(wgsl_field_to_type("x: vec4<f32>"), Ok(Type::Vec4));
    assert_eq!(wgsl_field_to_type("nospace"), Err(ShaderInputError::FieldWithoutType));
}

const WGSL: &str = "struct Camera {\n    view: mat4x4<f32>,\n}\n\nstruct VertexInput {\n    @location(0) position: vec3<f32>,\n    @location(1) normal: vec3<f32>,\n\n    @location(2) model_0: vec4<f32>,\n    @location(3) model_1: vec4<f32>,\n}\n\nstruct VertexOutput {\n    @builtin(position) position: vec4<f32>,\n}\n";

#[test]
fn wgsl_input_types() {
    assert_eq!(
        scan_wgsl_input_types(WGSL),
        Ok((vec![Type::Vec3, Type::Vec3], vec![Type::Vec4, Type::Vec4]))
    );
    let crlf = WGSL.replace('\n', "\r\n");
    assert_eq!(
        scan_wgsl_input_types(&crlf),
        Ok((vec![Type::Vec3, Type::Vec3], vec![Type::Vec4, Type::Vec4]))
    );
}

#[test]
fn wgsl_input_errors() {
    assert!(!wgsl_input_is_readable("struct VertexInput {\n    a: f32,\n"));
    assert!(!wgsl_input_is_readable("fn main() {}\n"));
    assert!(!wgsl_input_is_readable("struct VertexInput {\n    m: mat4x4<f32>,\n\n}\n"));
    assert!(wgsl_input_is_readable("struct VertexInput {\nbroken\n\n}\n"));
    assert!(wgsl_input_is_readable(WGSL));
    assert_eq!(
        scan_wgsl_input_types("struct VertexInput {\nbroken\n\n}\n"),
        Err(ShaderInputError::FieldWithoutType)
    );
    assert_eq!(scan_wgsl_input_types("struct VertexInput {\n\n}\n"), Ok((vec![], vec![])));
}

const GLSL: &str = "#version 450\n\nlayout(location = 0) in vec3 position;\nlayout(location = 1) in  vec3 normal;\n\nlayout(location = 2) in vec4 model;\nlayout(location = 3) in float scale;\n\nlayout(location = 4) in vec2 ignored;\n";

#[test]
fn glsl_input_types() {
    assert_eq!(
        scan_glsl_input_types(GLSL),
        Ok((vec![Type::Vec3, Type::Vec3], vec![Type::Vec4, Type::Float]))
    );
    assert_eq!(
        scan_glsl_input_types("\nlayout(location = 0) in vec3;\n"),
        Err(ShaderInputError::VarWithoutType(2))
    );
    assert!(!glsl_input_is_readable("layout(location = 0) in mat4 m;\n"));
    assert!(glsl_input_is_readable("\nlayout(location = 0) in vec3;\n"));
    assert!(glsl_input_is_readable(GLSL));
    assert_eq!(scan_glsl_input_types("void main() {}\n"), Ok((vec![], vec![])));
}

#[test]
fn geometry_draw_commands() {
    assert_eq!(geometry(4, "mesh", 10).draw(), draw(10, 5));
}

#[test]
fn command_list_binds_pipelines_and_descriptor_set() {
    let gs = vec![geometry(0, "a", 10), geometry(1, "a", 20), geometry(2, "b", 30)];
    let (commands, index) = build_commands(&gs);
    let mut expected = vec![
        Command::BeginRenderPass,
        Command::BindPipeline("a".to_string()),
        Command::BindDescriptorSets,
    ];
    expected.extend(draw(10, 1));
    expected.extend(draw(20, 2));
    expected.push(Command::BindPipeline("b".to_string()));
    expected.extend(draw(30, 3));
    assert_eq!(commands, expected);
    assert_eq!(index.len(), 3);
    assert_eq!(index[&0], 3);
    assert_eq!(index[&1], 6);
    assert_eq!(index[&2], 10);
}

#[test]
fn command_list_of_nothing_is_empty() {
    let (commands, index) = build_commands(&[]);
    assert!(commands.is_empty());
    assert!(index.is_empty());
}

#[test]
fn replacing_a_draw_matches_a_rebuild() {
    let mut gs = vec![geometry(0, "a", 10), geometry(1, "a", 20), geometry(2, "b", 30)];
    let (mut commands, index) = build_commands(&gs);
    let updated = Geometry { instance_buffer: 99, instance_count: 7, ..geometry(1, "a", 20) };
    assert_eq!(replace_draw(&mut commands, &index, &updated), Ok(()));
    gs[1] = Geometry { instance_buffer: 99, instance_count: 7, ..geometry(1, "a", 20) };
    let (rebuilt, rebuilt_index) = build_commands(&gs);
    assert_eq!(commands, rebuilt);
    assert_eq!(index, rebuilt_index);
}

#[test]
fn replacing_an_unknown_mesh_fails() {
    let gs = vec![geometry(0, "a", 10)];
    let (mut commands, index) = build_commands(&gs);
    let before = commands.clone();
    assert_eq!(replace_draw(&mut commands, &index, &geometry(5, "a", 50)), Err(CommandError::MissingDrawCommands));
    assert_eq!(commands, before);
}

#[test]
fn recording_plan_resolves_pipelines() {
    let gs = vec![geometry(0, "a", 10), geometry(1, "b", 20)];
    let (commands, _) = build_commands(&gs);
    let pipelines = vec!["b".to_string(), "a".to_string()];
    let steps = plan_recording(&commands, &pipelines).unwrap();
    assert_eq!(
        steps,
        vec![
            Step::BeginRenderPass,
            Step::BindPipeline(1),
            Step::BindDescriptorSets(1),
            Step::BindVertexBuffers(10, 11),
            Step::BindIndexBuffer(12),
            Step::DrawIndexed(36, 1),
            Step::BindPipeline(0),
            Step::BindVertexBuffers(20, 21),
            Step::BindIndexBuffer(22),
            Step::DrawIndexed(36, 2),
        ]
    );
}

#[test]
fn recording_plan_errors() {
    let pipelines = vec!["a".to_string()];
    assert_eq!(
        plan_recording(&[Command::BeginRenderPass, Command::BindDescriptorSets], &pipelines),
        Err(RecordError::NoLastPipeline)
    );
    assert_eq!(unknown_pipeline_bind(&[Command::BeginRenderPass, Command::BindPipeline("z".to_string())], &pipelines), Some(1));
    assert_eq!(unknown_pipeline_bind(&[Command::BindPipeline("a".to_string())], &pipelines), None);
    assert_eq!(
        unknown_pipeline_bind(&[Command::BindDescriptorSets, Command::BindPipeline("z".to_string())], &pipelines),
        None
    );
    assert_eq!(
        plan_recording(&[Command::BindDescriptorSets, Command::BindPipeline("z".to_string())], &pipelines),
        Err(RecordError::NoLastPipeline)
    );
}

#[test]
fn meshes_sorted_stably_by_id() {
    assert_eq!(sort_order(&[3, 1, 3, 0]), vec![3, 1, 0, 2]);
    assert_eq!(sort_order(&[]), Vec::<usize>::new());
    assert_eq!(sort_order(&[2, 2, 2]), vec![0, 1, 2]);
}

#[test]
fn first_geometry_of_each_shader() {
    let shaders: Vec<String> = ["a", "b", "a", "c", "b"].iter().map(|s| s.to_string()).collect();
    assert_eq!(first_occurrences(&shaders), vec![0, 1, 0, 3, 1]);
    assert_eq!(first_occurrences(&[]), Vec::<usize>::new());
}

#[test]
fn memory_type_choice() {
    assert_eq!(find_memory_type(0b110, &[1, 6, 6], 6), 1);
    assert_eq!(find_memory_type(0b100, &[1, 6, 6], 2), 2);
    assert!(has_memory_type(0b110, &[1, 6, 6], 6));
    assert!(!has_memory_type(0b001, &[1, 6, 6], 2));
    assert!(!has_memory_type(u32::MAX, &[], 0));
}

#[test]
fn texture_layout_transitions() {
    let first = layout_transition(ImageLayout::Undefined, ImageLayout::TransferDstOptimal);
    assert_eq!(first.src_access, Access::NoAccess);
    assert_eq!(first.dst_access, Access::TransferWrite);
    assert_eq!(first.src_stage, Stage::TopOfPipe);
    assert_eq!(first.dst_stage, Stage::Transfer);
    let second = layout_transition(ImageLayout::TransferDstOptimal, ImageLayout::ShaderReadOnlyOptimal);
    assert_eq!(second.src_access, Access::TransferWrite);
    assert_eq!(second.dst_access, Access::ShaderRead);
    assert_eq!(second.src_stage, Stage::Transfer);
    assert_eq!(second.dst_stage, Stage::FragmentShader);
    assert!(is_supported_transition(ImageLayout::Undefined, ImageLayout::TransferDstOptimal));
    assert!(!is_supported_transition(ImageLayout::Undefined, ImageLayout::ShaderReadOnlyOptimal));
    assert!(!is_supported_transition(ImageLayout::Other, ImageLayout::Other));
    assert_eq!(sampler_address_mode_v(true), AddressMode::ClampToEdge);
    assert_eq!(sampler_address_mode_v(false), AddressMode::Repeat);
}

#[test]
fn frames_cycle_through_images() {
    let mut ring = FrameRing::new(3);
    let mut seen = vec![];
    for _ in 0..7 {
        seen.push(ring.current_image());
        ring.advance();
    }
    assert_eq!(seen, vec![0, 1, 2, 0, 1, 2, 0]);
    assert_eq!(ring.image_count(), 3);
    assert_eq!(next_image(4, 5), 0);
    assert_eq!(swapchain_image_count(2), 3);
}

#[test]
fn validation_message_reporting() {
    assert_eq!(message_level(0x1), LogLevel::Debug);
    assert_eq!(message_level(0x10), LogLevel::Info);
    assert_eq!(message_level(0x100), LogLevel::Warning);
    assert_eq!(message_level(0x1000), LogLevel::Error);
    assert_eq!(message_level(0x1100), LogLevel::Error);
    assert_eq!(message_source(0x1), "vulkan::general");
    assert_eq!(message_source(0x2), "vulkan::validation");
    assert_eq!(message_source(0x4), "vulkan::performance");
    assert_eq!(message_source(0x8), "vulkan::DAB");
    assert_eq!(message_source(0x3), "vulkan::unknown");
    assert_eq!(severity_label(0x100), "\x1b[33;1m[Warning]");
    assert_eq!(type_label(0x2), "\x1b[31;1m[Validation]");
    assert_eq!(
        mark_spec_statement("bad call. The Vulkan spec states: x"),
        "bad call. \n\x1b[35;1m->\x1b[0m The Vulkan spec states: x"
    );
    assert_eq!(mark_spec_statement("no quote"), "no quote");
}

#[test]
fn geometry_counts() {
    assert_eq!(index_count(36), Ok(36));
    assert_eq!(instance_count(35, 16), Ok(2));
    assert_eq!(instance_count(0, 16), Ok(0));
    assert_eq!(index_count(usize::MAX), Err(CountError::TooLarge));
    assert_eq!(VertexBuffer::buffer_size(10), 40);
    assert_eq!(IndexBuffer::buffer_size(36), 144);
    assert_eq!(StagingBuffer::byte_count(144), Ok(144));
    let info = shader_info("mesh".to_string(), 2, 0, vec![Type::Vec3], vec![Type::Vec4, Type::Vec4, Type::Vec4, Type::Vec4]);
    assert_eq!(info.instance_size, 16);
    assert_eq!(info.name, "mesh");
}

const SHADER: &str = "struct VertexInput {\n    @location(0) position: vec3<f32>,\n\n}\n\n@vertex\nfn vertex(in: VertexInput) -> @builtin(position) vec4<f32> {\n    return vec4<f32>(in.position, 1.0);\n}\n\n@fragment\nfn fragment() -> @location(0) vec4<f32> {\n    return vec4<f32>(1.0, 0.0, 0.0, 1.0);\n}\n";

#[test]
fn compiles_wgsl_to_spirv() {
    let bytes = compile_wgsl(SHADER).unwrap();
    assert_eq!(bytes.len() % 4, 0);
    let words = bytes_to_words(&bytes, native_byte_order());
    assert_eq!(words[0], 0x0723_0203);
    assert_eq!(words_to_bytes(&words, native_byte_order()), bytes);
    let parse = compile_wgsl("fn broken( {").unwrap_err();
    assert_eq!(parse.stage, CompileError::Parse);
    assert!(!parse.message.is_empty());
    let validation = compile_wgsl("fn f() -> f32 { return true; }").unwrap_err();
    assert_eq!(validation.stage, CompileError::Validation);
    assert!(!validation.message.is_empty());
    for order in [ByteOrder::Little, ByteOrder::Big] {
        let bytes = compile_wgsl_in(SHADER, order).unwrap();
        assert_eq!(bytes_to_words(&bytes, order)[0], 0x0723_0203);
    }
    let little = compile_wgsl_in(SHADER, ByteOrder::Little).unwrap();
    assert_eq!(&little[..4], &[0x03, 0x02, 0x23, 0x07]);
}

#[test]
fn byte_order_from_stored_probe() {
    assert_eq!(byte_order_of([4, 3, 2, 1]), ByteOrder::Little);
    assert_eq!(byte_order_of([1, 2, 3, 4]), ByteOrder::Big);
    let expected = if 1u32.to_ne_bytes()[0] == 1 { ByteOrder::Little } else { ByteOrder::Big };
    assert_eq!(native_byte_order(), expected);
}

#[test]
fn words_and_bytes() {
    let order = native_byte_order();
    assert_eq!(words_to_bytes(&[0x0102_0304], order), 0x0102_0304u32.to_ne_bytes().to_vec());
    assert_eq!(bytes_to_words(&[1, 2, 3, 4, 5], order), vec![u32::from_ne_bytes([1, 2, 3, 4])]);
    assert_eq!(words_to_bytes(&[0x0102_0304, 7], ByteOrder::Little), vec![4, 3, 2, 1, 7, 0, 0, 0]);
    assert_eq!(words_to_bytes(&[0x0102_0304], ByteOrder::Big), vec![1, 2, 3, 4]);
    assert_eq!(bytes_to_words(&[4, 3, 2, 1, 9], ByteOrder::Little), vec![0x0102_0304]);
    assert_eq!(bytes_to_words(&[1, 2, 3, 4], ByteOrder::Big), vec![0x0102_0304]);
    let words = vec![0xdead_beef, 0, u32::MAX, 0x0723_0203];
    for order in [ByteOrder::Little, ByteOrder::Big] {
        assert_eq!(bytes_to_words(&words_to_bytes(&words, order), order), words);
    }
}

#[test]
fn shader_paths() {
    assert_eq!(shader_file_name("assets/shaders/mesh.wgsl"), Some("mesh.wgsl"));
    assert_eq!(shader_file_name("mesh.wgsl"), None);
    assert_eq!(spirv_output_path("mesh.wgsl"), "target/dacho/shaders/mesh.wgsl.spv");
    assert_eq!(cached_spirv_path("mesh"), "assets/.cache/shaders.mesh.wgsl.spv");
    assert_eq!(failed_count(&[true, false, true, false]), 2);
}

#[test]
fn cube_corners_match_faces() {
    let corners = CubeVertices::corners();
    assert_eq!(corners.len(), 24);
    assert_eq!(corners[0], Corner { dx: -1, dy: 1, dz: -1, face: 0 });
    assert_eq!(corners[23], Corner { dx: -1, dy: 1, dz: -1, face: 5 });
    let c = CubeIndices::new(0);
    let quads = [c.0, c.1, c.2, c.3, c.4, c.5];
    for (face, q) in quads.iter().enumerate() {
        for v in [q.0 .0, q.0 .1, q.0 .2, q.1 .0, q.1 .1, q.1 .2] {
            assert_eq!(corners[v as usize].face, face as u32);
        }
    }
}

#[test]
fn updating_instances_redraws_the_mesh() {
    let mut gs = vec![geometry(0, "a", 10), geometry(1, "a", 20)];
    let (mut commands, index) = build_commands(&gs);
    assert_eq!(update_instances(&mut gs[1], 77, 35, &mut commands, &index), Ok(()));
    assert_eq!(gs[1].instance_buffer, 77);
    assert_eq!(gs[1].instance_count, 2);
    let (rebuilt, _) = build_commands(&gs);
    assert_eq!(commands, rebuilt);
    let mut stranger = geometry(9, "a", 90);
    let before = commands.clone();
    assert_eq!(update_instances(&mut stranger, 5, 16, &mut commands, &index), Err(UpdateError::MissingDrawCommands));
    assert_eq!(stranger.instance_buffer, 5);
    assert_eq!(stranger.instance_count, 1);
    assert_eq!(commands, before);
}
