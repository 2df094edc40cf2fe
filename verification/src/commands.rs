//! The list of commands each frame's command buffer is recorded from, and
//! how it is kept up to date when a mesh's instances change.

use vstd::prelude::*;
use std::collections::HashMap;
use crate::geometry::{DEFAULT_INSTANCE_SIZE, instance_count};

verus! {

/// Identifier of a mesh.
pub type Id = u32;

/// One recorded command. Buffers are given by their raw Vulkan handles,
/// pipelines by the name of their shader.
#[derive(Clone, Debug, PartialEq, Eq)]
pub enum Command {
    BeginRenderPass,
    BindPipeline(String),
    BindVertexBuffers(u64, u64),
    BindIndexBuffer(u64),
    BindDescriptorSets,
    DrawIndexed(u32, u32),
}

/// A command with its pipeline name as a character sequence.
pub enum CommandView {
    BeginRenderPass,
    BindPipeline(Seq<char>),
    BindVertexBuffers(u64, u64),
    BindIndexBuffer(u64),
    BindDescriptorSets,
    DrawIndexed(u32, u32),
}

impl View for Command {
    type V = CommandView;

    open spec fn view(&self) -> CommandView {
        match self {
            Command::BeginRenderPass => CommandView::BeginRenderPass,
            Command::BindPipeline(name) => CommandView::BindPipeline(name@),
            Command::BindVertexBuffers(v, i) => CommandView::BindVertexBuffers(*v, *i),
            Command::BindIndexBuffer(b) => CommandView::BindIndexBuffer(*b),
            Command::BindDescriptorSets => CommandView::BindDescriptorSets,
            Command::DrawIndexed(c, n) => CommandView::DrawIndexed(*c, *n),
        }
    }
}

/// What the command list needs of one mesh's geometry: its buffers by raw
/// handle, its counts and the shader it is drawn with.
pub struct Geometry {
    pub id: Id,
    pub shader: String,
    pub vertex_buffer: u64,
    pub instance_buffer: u64,
    pub index_buffer: u64,
    pub index_count: u32,
    pub instance_count: u32,
}

/// A geometry with its shader name as a character sequence.
pub struct GeometryView {
    pub id: Id,
    pub shader: Seq<char>,
    pub vertex_buffer: u64,
    pub instance_buffer: u64,
    pub index_buffer: u64,
    pub index_count: u32,
    pub instance_count: u32,
}

impl View for Geometry {
    type V = GeometryView;

    open spec fn view(&self) -> GeometryView {
        GeometryView {
            id: self.id,
            shader: self.shader@,
            vertex_buffer: self.vertex_buffer,
            instance_buffer: self.instance_buffer,
            index_buffer: self.index_buffer,
            index_count: self.index_count,
            instance_count: self.instance_count,
        }
    }
}

/// The views of a list of commands.
pub open spec fn views(cs: Seq<Command>) -> Seq<CommandView> {
    cs.map_values(|c: Command| c@)
}

/// The views of a list of geometries.
pub open spec fn geometry_views(gs: Seq<Geometry>) -> Seq<GeometryView> {
    gs.map_values(|g: Geometry| g@)
}

/// The three commands that draw a geometry.
pub open spec fn spec_draw(g: GeometryView) -> Seq<CommandView> {
    seq![
        CommandView::BindVertexBuffers(g.vertex_buffer, g.instance_buffer),
        CommandView::BindIndexBuffer(g.index_buffer),
        CommandView::DrawIndexed(g.index_count, g.instance_count),
    ]
}

/// The pipeline bound when geometry `n` comes up: that of the geometry
/// before it, or the empty name before the first.
pub open spec fn last_shader(gs: Seq<GeometryView>, n: int) -> Seq<char> {
    if n <= 0 {
        Seq::empty()
    } else {
        gs[n - 1].shader
    }
}

/// The commands that come before geometry `n`'s draw: a pipeline bind when
/// its shader differs from the last one, and for the first geometry the
/// descriptor set bind.
pub open spec fn spec_header(gs: Seq<GeometryView>, n: int) -> Seq<CommandView> {
    (if gs[n].shader != last_shader(gs, n) {
        seq![CommandView::BindPipeline(gs[n].shader)]
    } else {
        Seq::empty()
    }) + (if n == 0 {
        seq![CommandView::BindDescriptorSets]
    } else {
        Seq::empty()
    })
}

/// The command list for the first `n` geometries.
pub open spec fn spec_commands_upto(gs: Seq<GeometryView>, n: int) -> Seq<CommandView>
    decreases n,
{
    if n <= 0 {
        seq![CommandView::BeginRenderPass]
    } else {
        spec_commands_upto(gs, n - 1) + spec_header(gs, n - 1) + spec_draw(gs[n - 1])
    }
}

/// The command list for all geometries, in order; with no geometry there
/// is nothing to record.
pub open spec fn spec_commands(gs: Seq<GeometryView>) -> Seq<CommandView> {
    if gs.len() == 0 {
        Seq::empty()
    } else {
        spec_commands_upto(gs, gs.len() as int)
    }
}

/// Index of geometry `n`'s first draw command in the list.
pub open spec fn spec_draw_position(gs: Seq<GeometryView>, n: int) -> int {
    (spec_commands_upto(gs, n).len() + spec_header(gs, n).len()) as int
}

/// Where each mesh's draw commands start, for the first `n` geometries; a
/// mesh that appears twice keeps its later position.
pub open spec fn spec_index_map_upto(gs: Seq<GeometryView>, n: int) -> Map<Id, usize>
    decreases n,
{
    if n <= 0 {
        Map::empty()
    } else {
        spec_index_map_upto(gs, n - 1).insert(gs[n - 1].id, spec_draw_position(gs, n - 1) as usize)
    }
}

/// Where each mesh's draw commands start.
pub open spec fn spec_index_map(gs: Seq<GeometryView>) -> Map<Id, usize> {
    spec_index_map_upto(gs, gs.len() as int)
}

/// Name of the pipeline the last bind in `cs` binds, or the empty name.
pub open spec fn current_pipeline(cs: Seq<CommandView>) -> Seq<char>
    decreases cs.len(),
{
    if cs.len() == 0 {
        Seq::empty()
    } else {
        match cs.last() {
            CommandView::BindPipeline(name) => name,
            _ => current_pipeline(cs.drop_last()),
        }
    }
}

/// `cs` holds no pipeline bind.
pub open spec fn binds_no_pipeline(cs: Seq<CommandView>) -> bool {
    forall|k: int| 0 <= k < cs.len() ==> !(#[trigger] cs[k] is BindPipeline)
}

/// Whether `cs` holds the descriptor set bind.
pub open spec fn binds_descriptor_sets(cs: Seq<CommandView>) -> bool {
    exists|k: int| 0 <= k < cs.len() && #[trigger] cs[k] is BindDescriptorSets
}

impl Geometry {
    /// The three commands that draw this geometry: bind its vertex and
    /// instance buffers, bind its index buffer, draw.
    pub fn draw(&self) -> (r: Vec<Command>)
        ensures
            views(r@) == spec_draw(self@),
    {
        let r = vec![
            Command::BindVertexBuffers(self.vertex_buffer, self.instance_buffer),
            Command::BindIndexBuffer(self.index_buffer),
            Command::DrawIndexed(self.index_count, self.instance_count),
        ];
        assert(views(r@) =~= spec_draw(self@));
        r
    }
}

/// Appends `extra` to `commands`.
fn append_commands(commands: &mut Vec<Command>, extra: Vec<Command>)
    ensures
        views(final(commands)@) == views(old(commands)@) + views(extra@),
{
    let mut extra = extra;
    let ghost added = extra@;
    commands.append(&mut extra);
    assert(views(commands@) =~= views(old(commands)@) + views(added));
}


/// The command list for `geometries`, drawn in the order given, and where
/// each mesh's draw commands start in it. The list opens the render pass,
/// binds a geometry's pipeline whenever its shader differs from the one
/// before, binds the descriptor set once after the first pipeline, and
/// draws each geometry. With no geometry both are empty.
pub fn build_commands(geometries: &[Geometry]) -> (r: (Vec<Command>, HashMap<Id, usize>))
    ensures
        views(r.0@) == spec_commands(geometry_views(geometries@)),
        r.1@ == spec_index_map(geometry_views(geometries@)),
{
    broadcast use vstd::std_specs::hash::group_hash_axioms;
    let ghost gs = geometry_views(geometries@);
    let mut commands: Vec<Command> = Vec::new();
    let mut mesh_id_commands_i: HashMap<Id, usize> = HashMap::new();
    if geometries.len() == 0 {
        assert(views(commands@) =~= Seq::<CommandView>::empty());
        return (commands, mesh_id_commands_i);
    }
    let mut last_pipeline = String::new();
    let mut first_iter = true;
    commands.push(Command::BeginRenderPass);
    assert(views(commands@) =~= seq![CommandView::BeginRenderPass]);
    let mut i: usize = 0;
    while i < geometries.len()
        invariant
            gs == geometry_views(geometries@),
            i <= geometries@.len(),
            views(commands@) == spec_commands_upto(gs, i as int),
            last_pipeline@ == last_shader(gs, i as int),
            first_iter == (i == 0),
            mesh_id_commands_i@ == spec_index_map_upto(gs, i as int),
        decreases geometries@.len() - i,
    {
        let geometry = &geometries[i];
        assert(gs[i as int] == geometry@);
        let ghost before = views(commands@);
        if !(geometry.shader == last_pipeline) {
            commands.push(Command::BindPipeline(geometry.shader.clone()));
            last_pipeline = geometry.shader.clone();
        }
        if first_iter {
            commands.push(Command::BindDescriptorSets);
            first_iter = false;
        }
        assert(views(commands@) =~= before + spec_header(gs, i as int));
        mesh_id_commands_i.insert(geometry.id, commands.len());
        append_commands(&mut commands, geometry.draw());
        i = i + 1;
    }
    (commands, mesh_id_commands_i)
}


/// Why a mesh's draw commands could not be replaced.
#[derive(Clone, Copy, Debug, PartialEq, Eq, Structural)]
pub enum CommandError {
    /// The mesh has no draw commands in the list.
    MissingDrawCommands,
}

/// Replaces the draw commands of `geometry`'s mesh, found through
/// `index_map`, with the draw commands of `geometry`; every other command
/// stays as it was. A mesh the map does not know is an error, and the list
/// is then left untouched.
pub fn replace_draw(commands: &mut Vec<Command>, index_map: &HashMap<Id, usize>, geometry: &Geometry) -> (r: Result<(), CommandError>)
    requires
        index_map@.contains_key(geometry.id) ==> index_map@[geometry.id] + 3 <= old(commands)@.len(),
    ensures
        index_map@.contains_key(geometry.id) ==> {
            let i = index_map@[geometry.id] as int;
            &&& r is Ok
            &&& views(final(commands)@) == views(old(commands)@).take(i) + spec_draw(geometry@)
                + views(old(commands)@).skip(i + 3)
        },
        !index_map@.contains_key(geometry.id) ==> r == Err::<(), CommandError>(CommandError::MissingDrawCommands)
            && final(commands)@ == old(commands)@,
{
    broadcast use vstd::std_specs::hash::group_hash_axioms;
    match index_map.get(&geometry.id) {
        None => Err(CommandError::MissingDrawCommands),
        Some(i) => {
            let i = *i;
            assert(index_map@.contains_key(geometry.id));
            assert(i == index_map@[geometry.id]);
            let n = commands.len();
            assert(i + 3 <= n);
            let ghost before = views(commands@);
            let mut tail = commands.split_off(i + 3);
            commands.truncate(i);
            let ghost head = commands@;
            append_commands(commands, geometry.draw());
            let ghost moved = tail@;
            commands.append(&mut tail);
            assert(views(commands@) =~= before.take(i as int) + spec_draw(geometry@) + before.skip(i + 3)) by {
                assert(views(head) =~= before.take(i as int));
                assert(views(moved) =~= before.skip(i + 3));
            }
            Ok(())
        },
    }
}

/// `current_pipeline` ignores commands that bind no pipeline.
pub proof fn lemma_current_pipeline_append(a: Seq<CommandView>, b: Seq<CommandView>)
    requires
        binds_no_pipeline(b),
    ensures
        current_pipeline(a + b) == current_pipeline(a),
    decreases b.len(),
{
    if b.len() > 0 {
        assert((a + b).drop_last() =~= a + b.drop_last());
        assert(!(b[b.len() - 1] is BindPipeline));
        lemma_current_pipeline_append(a, b.drop_last());
    } else {
        assert(a + b =~= a);
    }
}

/// Draw commands bind no pipeline.
proof fn lemma_draw_binds_no_pipeline(g: GeometryView)
    ensures
        binds_no_pipeline(spec_draw(g)),
{
}

/// After a geometry's header the bound pipeline is that geometry's shader,
/// and after the first `n` geometries it is `last_shader(gs, n)`.
proof fn lemma_current_pipeline_upto(gs: Seq<GeometryView>, n: int)
    requires
        0 <= n <= gs.len(),
    ensures
        current_pipeline(spec_commands_upto(gs, n)) == last_shader(gs, n),
        n < gs.len() ==> current_pipeline(spec_commands_upto(gs, n) + spec_header(gs, n)) == gs[n].shader,
    decreases n,
{
    let c = spec_commands_upto(gs, n);
    if n == 0 {
        assert(c =~= seq![CommandView::BeginRenderPass]);
        assert(c.drop_last() =~= Seq::<CommandView>::empty());
        assert(current_pipeline(Seq::<CommandView>::empty()) == Seq::<char>::empty());
        assert(current_pipeline(c) == current_pipeline(c.drop_last()));
    } else {
        lemma_current_pipeline_upto(gs, n - 1);
        let prev = spec_commands_upto(gs, n - 1) + spec_header(gs, n - 1);
        assert(c == prev + spec_draw(gs[n - 1]));
        lemma_draw_binds_no_pipeline(gs[n - 1]);
        lemma_current_pipeline_append(prev, spec_draw(gs[n - 1]));
    }
    if n < gs.len() {
        let h = spec_header(gs, n);
        let ds: Seq<CommandView> = if n == 0 { seq![CommandView::BindDescriptorSets] } else { Seq::empty() };
        assert(binds_no_pipeline(ds)) by {
            assert forall|k: int| 0 <= k < ds.len() implies !(#[trigger] ds[k] is BindPipeline) by {
                assert(ds[k] is BindDescriptorSets);
            }
        }
        if gs[n].shader != last_shader(gs, n) {
            let b = c + seq![CommandView::BindPipeline(gs[n].shader)];
            assert(h =~= seq![CommandView::BindPipeline(gs[n].shader)] + ds);
            assert(c + h =~= b + ds);
            lemma_current_pipeline_append(b, ds);
            assert(b.last() == CommandView::BindPipeline(gs[n].shader));
        } else {
            assert(h =~= ds);
            lemma_current_pipeline_append(c, h);
        }
    }
}

/// The command list for fewer geometries is a prefix of the one for more.
proof fn lemma_upto_prefix(gs: Seq<GeometryView>, m: int, n: int)
    requires
        0 <= m <= n,
    ensures
        spec_commands_upto(gs, m).len() <= spec_commands_upto(gs, n).len(),
        spec_commands_upto(gs, n).take(spec_commands_upto(gs, m).len() as int) == spec_commands_upto(gs, m),
    decreases n,
{
    if m < n {
        lemma_upto_prefix(gs, m, n - 1);
        let a = spec_commands_upto(gs, n - 1);
        let c = spec_commands_upto(gs, n);
        let k = spec_commands_upto(gs, m).len() as int;
        assert(c.take(k) =~= a.take(k));
    } else {
        assert(spec_commands_upto(gs, n).take(spec_commands_upto(gs, n).len() as int) =~= spec_commands_upto(gs, n));
    }
}

/// What the command list promises: it opens the render pass; each
/// geometry's three draw commands stand at its draw position, with that
/// geometry's shader as the pipeline bound there; and the descriptor set is
/// bound before the first draw.
pub proof fn lemma_command_list(gs: Seq<GeometryView>)
    requires
        gs.len() > 0,
    ensures
        spec_commands(gs)[0] == CommandView::BeginRenderPass,
        forall|n: int| 0 <= n < gs.len() ==> {
            let p = #[trigger] spec_draw_position(gs, n);
            &&& 0 < p && p + 3 <= spec_commands(gs).len()
            &&& spec_commands(gs).subrange(p, p + 3) == spec_draw(gs[n])
            &&& current_pipeline(spec_commands(gs).take(p)) == gs[n].shader
        },
        binds_descriptor_sets(spec_commands(gs).take(spec_draw_position(gs, 0))),
{
    let cs = spec_commands(gs);
    let len = gs.len() as int;
    assert forall|n: int| 0 <= n < gs.len() implies {
        let p = #[trigger] spec_draw_position(gs, n);
        &&& 0 < p && p + 3 <= spec_commands(gs).len()
        &&& spec_commands(gs).subrange(p, p + 3) == spec_draw(gs[n])
        &&& current_pipeline(spec_commands(gs).take(p)) == gs[n].shader
    } by {
        let p = spec_draw_position(gs, n);
        let before = spec_commands_upto(gs, n) + spec_header(gs, n);
        let up = spec_commands_upto(gs, n + 1);
        assert(up =~= before + spec_draw(gs[n]));
        lemma_upto_prefix(gs, 0, n);
        lemma_upto_prefix(gs, n + 1, len);
        assert(cs.take(up.len() as int) == up);
        assert(cs.subrange(p, p + 3) =~= up.subrange(p, p + 3));
        assert(up.subrange(p, p + 3) =~= spec_draw(gs[n]));
        assert(cs.take(p) =~= before);
        lemma_current_pipeline_upto(gs, n);
    }
    lemma_upto_prefix(gs, 1, len);
    lemma_upto_prefix(gs, 0, len);
    assert(spec_commands_upto(gs, 0) =~= seq![CommandView::BeginRenderPass]);
    assert(cs.take(1)[0] == cs[0]);
    let first = spec_commands_upto(gs, 1);
    let p0 = spec_draw_position(gs, 0);
    assert(cs.take(first.len() as int) == first);
    let h = spec_header(gs, 0);
    let k = (1 + h.len() - 1) as int;
    assert(h[h.len() - 1] is BindDescriptorSets);
    assert(cs.take(p0)[k] == first[k]);
    assert(cs.take(p0)[k] is BindDescriptorSets);
}

/// Where each mesh's draw commands start: every mesh of the list has an
/// entry, and the entry of a mesh is the draw position of its last
/// geometry.
pub proof fn lemma_index_map(gs: Seq<GeometryView>)
    ensures
        forall|id: Id| #[trigger] spec_index_map(gs).contains_key(id) <==> exists|n: int| 0 <= n < gs.len() && gs[n].id == id,
        forall|id: Id| #[trigger] spec_index_map(gs).contains_key(id) ==> exists|n: int|
            0 <= n < gs.len() && gs[n].id == id && spec_index_map(gs)[id] == spec_draw_position(gs, n) as usize
            && forall|m: int| n < m < gs.len() ==> gs[m].id != id,
{
    lemma_index_map_upto(gs, gs.len() as int);
}

proof fn lemma_index_map_upto(gs: Seq<GeometryView>, u: int)
    requires
        0 <= u <= gs.len(),
    ensures
        forall|id: Id| #[trigger] spec_index_map_upto(gs, u).contains_key(id) <==> exists|n: int| 0 <= n < u && gs[n].id == id,
        forall|id: Id| #[trigger] spec_index_map_upto(gs, u).contains_key(id) ==> exists|n: int|
            0 <= n < u && gs[n].id == id && spec_index_map_upto(gs, u)[id] == spec_draw_position(gs, n) as usize
            && forall|m: int| n < m < u ==> gs[m].id != id,
    decreases u,
{
    if u > 0 {
        lemma_index_map_upto(gs, u - 1);
        let m = spec_index_map_upto(gs, u);
        assert forall|id: Id| #[trigger] m.contains_key(id) implies exists|n: int|
            0 <= n < u && gs[n].id == id && m[id] == spec_draw_position(gs, n) as usize
            && forall|k: int| n < k < u ==> gs[k].id != id by {
            if id == gs[u - 1].id {
                assert(gs[u - 1].id == id);
            } else {
                let prev = spec_index_map_upto(gs, u - 1);
                assert(prev.contains_key(id));
                let n = choose|n: int| 0 <= n < u - 1 && gs[n].id == id && prev[id] == spec_draw_position(gs, n) as usize
                    && forall|k: int| n < k < u - 1 ==> gs[k].id != id;
                assert(forall|k: int| n < k < u ==> gs[k].id != id);
            }
        }
        assert forall|id: Id| #[trigger] m.contains_key(id) <== exists|n: int| 0 <= n < u && gs[n].id == id by {
            if exists|n: int| 0 <= n < u && gs[n].id == id {
                let n = choose|n: int| 0 <= n < u && gs[n].id == id;
                if n < u - 1 {
                    assert(spec_index_map_upto(gs, u - 1).contains_key(id));
                }
            }
        }
    }
}


/// Changing one geometry but not its shader changes no header.
proof fn lemma_headers_same(gs: Seq<GeometryView>, n: int, g2: GeometryView, m: int)
    requires
        0 <= n < gs.len(),
        0 <= m < gs.len(),
        g2.shader == gs[n].shader,
    ensures
        spec_header(gs.update(n, g2), m) == spec_header(gs, m),
        last_shader(gs.update(n, g2), m) == last_shader(gs, m),
{
    let gs2 = gs.update(n, g2);
    assert(gs2[m].shader == gs[m].shader);
    if m > 0 {
        assert(gs2[m - 1].shader == gs[m - 1].shader);
    }
}

/// Changing one geometry but not its shader changes the command list only
/// in that geometry's draw commands.
proof fn lemma_upto_update(gs: Seq<GeometryView>, n: int, g2: GeometryView, m: int)
    requires
        0 <= n < gs.len(),
        0 <= m <= gs.len(),
        g2.shader == gs[n].shader,
    ensures
        spec_commands_upto(gs.update(n, g2), m).len() == spec_commands_upto(gs, m).len(),
        m <= n ==> spec_commands_upto(gs.update(n, g2), m) == spec_commands_upto(gs, m),
        m > n ==> spec_commands_upto(gs.update(n, g2), m) == spec_commands_upto(gs, m).take(
            spec_draw_position(gs, n),
        ) + spec_draw(g2) + spec_commands_upto(gs, m).skip(spec_draw_position(gs, n) + 3),
    decreases m,
{
    let gs2 = gs.update(n, g2);
    if m > 0 {
        lemma_upto_update(gs, n, g2, m - 1);
        lemma_headers_same(gs, n, g2, m - 1);
        let a = spec_commands_upto(gs, m - 1);
        let a2 = spec_commands_upto(gs2, m - 1);
        let h = spec_header(gs, m - 1);
        let p = spec_draw_position(gs, n);
        if m - 1 < n {
            assert(gs2[m - 1] == gs[m - 1]);
        } else if m - 1 == n {
            assert(p == a.len() + h.len());
            let c = spec_commands_upto(gs, m);
            assert(c.take(p) =~= a + h);
            assert(c.skip(p + 3) =~= Seq::<CommandView>::empty());
            assert(spec_commands_upto(gs2, m) =~= c.take(p) + spec_draw(g2) + c.skip(p + 3));
        } else {
            assert(gs2[m - 1] == gs[m - 1]);
            let c = spec_commands_upto(gs, m);
            lemma_upto_prefix(gs, n + 1, m - 1);
            assert(spec_commands_upto(gs, n + 1) =~= spec_commands_upto(gs, n) + spec_header(gs, n) + spec_draw(gs[n]));
            assert(p + 3 <= a.len());
            assert(c.take(p) =~= a.take(p));
            assert(c.skip(p + 3) =~= a.skip(p + 3) + h + spec_draw(gs[m - 1]));
            assert(spec_commands_upto(gs2, m) =~= c.take(p) + spec_draw(g2) + c.skip(p + 3));
        }
    }
}

/// Changing one geometry but not its shader moves no draw position.
proof fn lemma_positions_same(gs: Seq<GeometryView>, n: int, g2: GeometryView, m: int)
    requires
        0 <= n < gs.len(),
        0 <= m < gs.len(),
        g2.shader == gs[n].shader,
    ensures
        spec_draw_position(gs.update(n, g2), m) == spec_draw_position(gs, m),
{
    lemma_upto_update(gs, n, g2, m);
    lemma_headers_same(gs, n, g2, m);
}

proof fn lemma_index_map_update(gs: Seq<GeometryView>, n: int, g2: GeometryView, u: int)
    requires
        0 <= n < gs.len(),
        0 <= u <= gs.len(),
        g2.shader == gs[n].shader,
        g2.id == gs[n].id,
    ensures
        spec_index_map_upto(gs.update(n, g2), u) == spec_index_map_upto(gs, u),
    decreases u,
{
    if u > 0 {
        lemma_index_map_update(gs, n, g2, u - 1);
        lemma_positions_same(gs, n, g2, u - 1);
        assert(gs.update(n, g2)[u - 1].id == gs[u - 1].id);
    }
}

/// Updating a mesh in place is a rebuild: when geometry `n` is replaced by
/// `g2` with the same mesh and shader, and no later geometry shares its
/// mesh, the index map still sends the mesh to geometry `n`'s draw
/// position, and replacing the three commands there with `g2`'s gives the
/// very list, and the very index map, that building from the updated
/// geometries gives.
pub proof fn lemma_replace_draw_is_rebuild(gs: Seq<GeometryView>, n: int, g2: GeometryView)
    requires
        0 <= n < gs.len(),
        g2.id == gs[n].id,
        g2.shader == gs[n].shader,
        forall|m: int| n < m < gs.len() ==> gs[m].id != gs[n].id,
    ensures
        spec_index_map(gs)[gs[n].id] == spec_draw_position(gs, n) as usize,
        ({
            let p = spec_draw_position(gs, n);
            spec_commands(gs.update(n, g2)) == spec_commands(gs).take(p) + spec_draw(g2)
                + spec_commands(gs).skip(p + 3)
        }),
        spec_index_map(gs.update(n, g2)) == spec_index_map(gs),
{
    let len = gs.len() as int;
    lemma_upto_update(gs, n, g2, len);
    lemma_index_map_update(gs, n, g2, len);
    lemma_index_map_last(gs, n, len);
}

/// The entry of the last geometry of a mesh is that geometry's position.
proof fn lemma_index_map_last(gs: Seq<GeometryView>, n: int, u: int)
    requires
        0 <= n < u <= gs.len(),
        forall|m: int| n < m < u ==> gs[m].id != gs[n].id,
    ensures
        spec_index_map_upto(gs, u).contains_key(gs[n].id),
        spec_index_map_upto(gs, u)[gs[n].id] == spec_draw_position(gs, n) as usize,
    decreases u,
{
    if u - 1 > n {
        lemma_index_map_last(gs, n, u - 1);
        assert(gs[u - 1].id != gs[n].id);
    }
}


/// One call a command buffer records: a command with its pipeline resolved
/// to an index into the list of pipelines.
#[derive(Clone, Copy, Debug, PartialEq, Eq, Structural)]
pub enum Step {
    BeginRenderPass,
    /// Bind pipeline number `p`.
    BindPipeline(usize),
    BindVertexBuffers(u64, u64),
    BindIndexBuffer(u64),
    /// Bind the descriptor set with the layout of pipeline number `p`.
    BindDescriptorSets(usize),
    DrawIndexed(u32, u32),
}

/// Why a command list cannot be recorded.
#[derive(Clone, Copy, Debug, PartialEq, Eq, Structural)]
pub enum RecordError {
    /// The descriptor set is bound before any pipeline.
    NoLastPipeline,
}

/// Index of the first pipeline named `name`, from `from` on.
pub open spec fn pipeline_from(names: Seq<Seq<char>>, name: Seq<char>, from: int) -> Option<usize>
    decreases names.len() - from,
{
    if from < 0 || from >= names.len() {
        None
    } else if names[from] == name {
        Some(from as usize)
    } else {
        pipeline_from(names, name, from + 1)
    }
}

/// Index of the first pipeline named `name`.
pub open spec fn pipeline_of(names: Seq<Seq<char>>, name: Seq<char>) -> Option<usize> {
    pipeline_from(names, name, 0)
}

/// Position of the last pipeline bind before position `k`.
pub open spec fn last_bind_before(cs: Seq<CommandView>, k: int) -> Option<int>
    decreases k,
{
    if k <= 0 {
        None
    } else if cs[k - 1] is BindPipeline {
        Some(k - 1)
    } else {
        last_bind_before(cs, k - 1)
    }
}

/// Name bound by the pipeline bind at position `j`.
pub open spec fn bound_name(cs: Seq<CommandView>, j: int) -> Seq<char> {
    match cs[j] {
        CommandView::BindPipeline(name) => name,
        _ => Seq::empty(),
    }
}

/// Whether command `k` can be recorded: its pipeline exists, or for the
/// descriptor set bind, a pipeline was bound before it.
pub open spec fn step_ok(cs: Seq<CommandView>, names: Seq<Seq<char>>, k: int) -> bool {
    match cs[k] {
        CommandView::BindPipeline(name) => pipeline_of(names, name) is Some,
        CommandView::BindDescriptorSets => last_bind_before(cs, k) is Some,
        _ => true,
    }
}

/// Every pipeline bind that names no pipeline comes after a command that
/// cannot be recorded.
pub open spec fn records_known(cs: Seq<CommandView>, names: Seq<Seq<char>>) -> bool {
    forall|k: int|
        0 <= k < cs.len() && !#[trigger] step_ok(cs, names, k) && cs[k] is BindPipeline ==> exists|j: int|
            0 <= j < k && !step_ok(cs, names, j)
}

/// The call recorded for command `k`.
pub open spec fn spec_step(cs: Seq<CommandView>, names: Seq<Seq<char>>, k: int) -> Step {
    match cs[k] {
        CommandView::BeginRenderPass => Step::BeginRenderPass,
        CommandView::BindPipeline(name) => Step::BindPipeline(pipeline_of(names, name).unwrap()),
        CommandView::BindVertexBuffers(v, i) => Step::BindVertexBuffers(v, i),
        CommandView::BindIndexBuffer(b) => Step::BindIndexBuffer(b),
        CommandView::BindDescriptorSets => Step::BindDescriptorSets(
            pipeline_of(names, bound_name(cs, last_bind_before(cs, k).unwrap())).unwrap(),
        ),
        CommandView::DrawIndexed(c, n) => Step::DrawIndexed(c, n),
    }
}

/// The views of a list of pipeline names.
pub open spec fn name_views(names: Seq<String>) -> Seq<Seq<char>> {
    names.map_values(|n: String| n@)
}

/// Index of the first pipeline named `name`.
fn find_pipeline(pipelines: &[String], name: &String) -> (r: Option<usize>)
    ensures
        r == pipeline_of(name_views(pipelines@), name@),
{
    let ghost names = name_views(pipelines@);
    let mut i: usize = 0;
    while i < pipelines.len()
        invariant
            names == name_views(pipelines@),
            i <= pipelines@.len(),
            pipeline_of(names, name@) == pipeline_from(names, name@, i as int),
        decreases pipelines@.len() - i,
    {
        if pipelines[i] == *name {
            return Some(i);
        }
        i = i + 1;
    }
    None
}

/// The calls each command buffer records for `commands`, given the names
/// of the pipelines that exist; or the position of the first command that
/// cannot be recorded.
fn plan_steps(commands: &[Command], pipelines: &[String]) -> (r: Result<Vec<Step>, usize>)
    ensures
        ({
            let cs = views(commands@);
            let names = name_views(pipelines@);
            match r {
                Ok(steps) => {
                    &&& forall|k: int| 0 <= k < cs.len() ==> #[trigger] step_ok(cs, names, k)
                    &&& steps@ == Seq::new(cs.len(), |k: int| spec_step(cs, names, k))
                },
                Err(k) => {
                    &&& k < cs.len()
                    &&& !step_ok(cs, names, k as int)
                    &&& forall|j: int| 0 <= j < k ==> #[trigger] step_ok(cs, names, j)
                },
            }
        }),
{
    let ghost cs = views(commands@);
    let ghost names = name_views(pipelines@);
    let mut steps: Vec<Step> = Vec::new();
    let mut last_pipeline: Option<usize> = None;
    let mut i: usize = 0;
    while i < commands.len()
        invariant
            cs == views(commands@),
            names == name_views(pipelines@),
            i <= commands@.len(),
            forall|k: int| 0 <= k < i ==> #[trigger] step_ok(cs, names, k),
            steps@ == Seq::new(i as nat, |k: int| spec_step(cs, names, k)),
            match last_bind_before(cs, i as int) {
                None => last_pipeline is None,
                Some(j) => last_pipeline == pipeline_of(names, bound_name(cs, j)) && last_pipeline is Some,
            },
        decreases commands@.len() - i,
    {
        assert(cs[i as int] == commands@[i as int]@);
        let step = match &commands[i] {
            Command::BeginRenderPass => Step::BeginRenderPass,
            Command::BindPipeline(name) => {
                match find_pipeline(pipelines, name) {
                    None => {
                        assert(!step_ok(cs, names, i as int));
                        return Err(i);
                    },
                    Some(p) => {
                        last_pipeline = Some(p);
                        Step::BindPipeline(p)
                    },
                }
            },
            Command::BindVertexBuffers(v, n) => Step::BindVertexBuffers(*v, *n),
            Command::BindIndexBuffer(b) => Step::BindIndexBuffer(*b),
            Command::BindDescriptorSets => {
                match last_pipeline {
                    None => {
                        assert(!step_ok(cs, names, i as int));
                        return Err(i);
                    },
                    Some(p) => Step::BindDescriptorSets(p),
                }
            },
            Command::DrawIndexed(c, n) => Step::DrawIndexed(*c, *n),
        };
        assert(step_ok(cs, names, i as int));
        steps.push(step);
        i = i + 1;
        assert(steps@ =~= Seq::new(i as nat, |k: int| spec_step(cs, names, k)));
    }
    Ok(steps)
}


/// The first pipeline bind of `commands` that names none of `pipelines`,
/// when it comes before any other command that cannot be recorded.
pub fn unknown_pipeline_bind(commands: &[Command], pipelines: &[String]) -> (r: Option<usize>)
    ensures
        r is None <==> records_known(views(commands@), name_views(pipelines@)),
        r matches Some(k) ==> {
            let cs = views(commands@);
            let names = name_views(pipelines@);
            &&& k < cs.len()
            &&& cs[k as int] is BindPipeline
            &&& !step_ok(cs, names, k as int)
            &&& forall|j: int| 0 <= j < k ==> step_ok(cs, names, j)
        },
{
    let ghost cs = views(commands@);
    let ghost names = name_views(pipelines@);
    match plan_steps(commands, pipelines) {
        Ok(_) => None,
        Err(k) => {
            assert(cs[k as int] == commands@[k as int]@);
            match &commands[k] {
                Command::BindPipeline(_) => {
                    assert(!records_known(cs, names)) by {
                        if records_known(cs, names) {
                            assert(!step_ok(cs, names, k as int));
                        }
                    }
                    Some(k)
                },
                _ => {
                    assert forall|m: int|
                        0 <= m < cs.len() && !#[trigger] step_ok(cs, names, m) && cs[m] is BindPipeline implies exists|j: int|
                        0 <= j < m && !step_ok(cs, names, j) by {
                        if m < k {
                            assert(step_ok(cs, names, m));
                        } else if m > k {
                            assert(0 <= k < m && !step_ok(cs, names, k as int));
                        }
                    }
                    None
                },
            }
        },
    }
}

/// The calls each command buffer records for `commands`, given the names
/// of the pipelines that exist, where no pipeline bind names a pipeline
/// that does not exist before a command that cannot be recorded: each
/// pipeline bind is resolved to its pipeline, and the descriptor set bind
/// to the pipeline bound last before it. A descriptor set bound before any
/// pipeline is an error.
pub fn plan_recording(commands: &[Command], pipelines: &[String]) -> (r: Result<Vec<Step>, RecordError>)
    requires
        records_known(views(commands@), name_views(pipelines@)),
    ensures
        ({
            let cs = views(commands@);
            let names = name_views(pipelines@);
            match r {
                Ok(steps) => {
                    &&& forall|k: int| 0 <= k < cs.len() ==> #[trigger] step_ok(cs, names, k)
                    &&& steps@ == Seq::new(cs.len(), |k: int| spec_step(cs, names, k))
                },
                Err(e) => e == RecordError::NoLastPipeline && exists|k: int|
                    0 <= k < cs.len() && !#[trigger] step_ok(cs, names, k) && cs[k] is BindDescriptorSets
                        && forall|j: int| 0 <= j < k ==> step_ok(cs, names, j),
            }
        }),
{
    let ghost cs = views(commands@);
    let ghost names = name_views(pipelines@);
    match plan_steps(commands, pipelines) {
        Ok(steps) => Ok(steps),
        Err(k) => {
            assert(cs[k as int] == commands@[k as int]@);
            assert(!step_ok(cs, names, k as int));
            assert(cs[k as int] is BindDescriptorSets);
            Err(RecordError::NoLastPipeline)
        },
    }
}

/// The last pipeline bind before `k` only depends on the commands before `k`.
proof fn lemma_last_bind_prefix(a: Seq<CommandView>, b: Seq<CommandView>, k: int)
    requires
        0 <= k <= a.len(),
        a.len() <= b.len(),
        b.take(a.len() as int) == a,
    ensures
        last_bind_before(a, k) == last_bind_before(b, k),
    decreases k,
{
    if k > 0 {
        assert(a[k - 1] == b.take(a.len() as int)[k - 1]);
        lemma_last_bind_prefix(a, b, k - 1);
    }
}

/// Every command of the list for the first `m` geometries can be recorded.
proof fn lemma_upto_records(gs: Seq<GeometryView>, names: Seq<Seq<char>>, m: int)
    requires
        0 <= m <= gs.len(),
        gs.len() > 0,
        gs[0].shader.len() > 0,
        forall|n: int| 0 <= n < gs.len() ==> (#[trigger] pipeline_of(names, gs[n].shader)) is Some,
    ensures
        forall|k: int| 0 <= k < spec_commands_upto(gs, m).len() ==> #[trigger] step_ok(spec_commands_upto(gs, m), names, k),
    decreases m,
{
    let c = spec_commands_upto(gs, m);
    if m > 0 {
        lemma_upto_records(gs, names, m - 1);
        let a = spec_commands_upto(gs, m - 1);
        let h = spec_header(gs, m - 1);
        let d = spec_draw(gs[m - 1]);
        assert(c == a + h + d);
        assert(c.take(a.len() as int) =~= a);
        assert forall|k: int| 0 <= k < c.len() implies #[trigger] step_ok(c, names, k) by {
            if k < a.len() {
                assert(c[k] == a[k]);
                lemma_last_bind_prefix(a, c, k);
                assert(step_ok(a, names, k));
            } else if k < a.len() + h.len() {
                if m - 1 == 0 {
                    assert(a =~= seq![CommandView::BeginRenderPass]);
                    assert(gs[0].shader != last_shader(gs, 0));
                    assert(h =~= seq![CommandView::BindPipeline(gs[0].shader), CommandView::BindDescriptorSets]);
                    if k == 2 {
                        assert(c[1] is BindPipeline);
                        assert(last_bind_before(c, 2) == Some(1int));
                    } else {
                        assert(c[k] == CommandView::BindPipeline(gs[0].shader));
                    }
                } else {
                    assert(h.len() > 0 ==> h =~= seq![CommandView::BindPipeline(gs[m - 1].shader)]);
                    assert(c[k] == CommandView::BindPipeline(gs[m - 1].shader));
                }
            } else {
                assert(c[k] == d[k - a.len() - h.len()]);
            }
        }
    } else {
        assert(c =~= seq![CommandView::BeginRenderPass]);
    }
}

/// A command list built from geometries can always be recorded when every
/// shader has its pipeline and the first shader has a name.
pub proof fn lemma_built_list_records(gs: Seq<GeometryView>, names: Seq<Seq<char>>)
    requires
        gs.len() > 0,
        gs[0].shader.len() > 0,
        forall|n: int| 0 <= n < gs.len() ==> (#[trigger] pipeline_of(names, gs[n].shader)) is Some,
    ensures
        forall|k: int| 0 <= k < spec_commands(gs).len() ==> #[trigger] step_ok(spec_commands(gs), names, k),
{
    lemma_upto_records(gs, names, gs.len() as int);
}


/// Why a mesh's instances could not be updated.
#[derive(Clone, Copy, Debug, PartialEq, Eq, Structural)]
pub enum UpdateError {
    /// More instances than a draw call can take.
    TooManyInstances,
    /// The mesh has no draw commands in the list.
    MissingDrawCommands,
}

/// Gives `geometry` its new instance buffer, holding `instances_len`
/// floats of default-shader instances, and redraws it with them in
/// `commands`. The buffer is taken first; an instance count that does not
/// fit a draw call then stops the update, as does a mesh without draw
/// commands; in both cases the command list is left as it was.
pub fn update_instances(
    geometry: &mut Geometry,
    instance_buffer: u64,
    instances_len: usize,
    commands: &mut Vec<Command>,
    index_map: &HashMap<Id, usize>,
) -> (r: Result<(), UpdateError>)
    requires
        index_map@.contains_key(old(geometry).id) ==> index_map@[old(geometry).id] + 3 <= old(commands)@.len(),
    ensures
        final(geometry)@ == (GeometryView {
            instance_buffer,
            instance_count: final(geometry).instance_count,
            ..old(geometry)@
        }),
        instances_len / DEFAULT_INSTANCE_SIZE > u32::MAX ==> {
            &&& r == Err::<(), UpdateError>(UpdateError::TooManyInstances)
            &&& final(geometry).instance_count == old(geometry).instance_count
            &&& final(commands)@ == old(commands)@
        },
        instances_len / DEFAULT_INSTANCE_SIZE <= u32::MAX ==> {
            &&& final(geometry).instance_count == instances_len / DEFAULT_INSTANCE_SIZE
            &&& index_map@.contains_key(old(geometry).id) ==> {
                let i = index_map@[old(geometry).id] as int;
                &&& r is Ok
                &&& views(final(commands)@) == views(old(commands)@).take(i) + spec_draw(final(geometry)@)
                    + views(old(commands)@).skip(i + 3)
            }
            &&& !index_map@.contains_key(old(geometry).id) ==> r == Err::<(), UpdateError>(
                UpdateError::MissingDrawCommands,
            ) && final(commands)@ == old(commands)@
        },
{
    geometry.instance_buffer = instance_buffer;
    match instance_count(instances_len, DEFAULT_INSTANCE_SIZE) {
        Err(_) => Err(UpdateError::TooManyInstances),
        Ok(count) => {
            geometry.instance_count = count;
            match replace_draw(commands, index_map, geometry) {
                Ok(()) => Ok(()),
                Err(_) => Err(UpdateError::MissingDrawCommands),
            }
        },
    }
}

} // verus!
