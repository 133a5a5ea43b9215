use crate::circuit_states::CircuitStates;
use crate::codec::{
    color_payload, construct_vertex_data, handle_color_solid, handle_normal, handle_pos,
    lemma_color_payload, normal_faults, normal_level, packed_color, payload_high, payload_low,
    position_faults, position_level, Diagnostic, Point3, Rgba,
};
use crate::error::ChunkError;
use crate::texture::{rasterize, select_texture_tier, StateTexture};
use vstd::prelude::*;

verus! {

/// A vertex as the builder takes it.
#[derive(Clone, Copy, Debug, PartialEq, Eq, Structural)]
pub enum Vertex {
    /// A vertex of a face of one color.
    Solid { pos: Point3, normal: Point3, color: Rgba },
}

/// The geometry of a finished chunk: two vertex streams that run in
/// parallel, and a list of triangles by vertex index.
#[derive(Debug)]
pub struct ChunkGeometry {
    /// Per vertex: the packed position and the payload's upper sixteen bits.
    pub data1: Vec<[u16; 4]>,
    /// Per vertex: the packed normal and the payload's lower eight bits.
    pub data2: Vec<[u8; 4]>,
    /// Three vertex indices per triangle.
    pub indices: Vec<u32>,
}

/// Collects the faces of a chunk, and turns them and the cell states into
/// geometry and a state texture.
///
/// A builder accumulates until it is built, once; from then on it refuses
/// every mutation.
pub struct ComponentChunkBuilder {
    data1: Vec<[u16; 4]>,
    data2: Vec<[u8; 4]>,
    indices: Vec<u32>,
    states: CircuitStates,
    diagnostics: Vec<Diagnostic>,
    finalized: bool,
}

/// What a builder holds.
pub struct BuilderView {
    /// The first vertex stream.
    pub stream_a: Seq<[u16; 4]>,
    /// The second vertex stream.
    pub stream_b: Seq<[u8; 4]>,
    /// The triangle list.
    pub indices: Seq<u32>,
    /// The cell states.
    pub states: CircuitStates,
    /// The reports of out-of-range input so far, oldest first.
    pub diagnostics: Seq<Diagnostic>,
    /// Whether the builder has been built.
    pub finalized: bool,
}

/// The offsets of the six indices of a rectangle from its first vertex: the
/// triangles (0, 1, 2) and (2, 3, 0).
pub open spec fn corner(k: int) -> int {
    if k == 0 {
        0
    } else if k == 1 {
        1
    } else if k == 2 {
        2
    } else if k == 3 {
        2
    } else if k == 4 {
        3
    } else {
        0
    }
}

/// The six indices of a rectangle whose first vertex has index `base`.
pub open spec fn rectangle_indices(base: int) -> Seq<u32> {
    Seq::new(6, |k: int| (base + corner(k)) as u32)
}

impl Vertex {
    /// The vertex's entry in the first stream.
    pub open spec fn entry_a(self) -> [u16; 4] {
        match self {
            Vertex::Solid { pos, normal, color } => [
                position_level(pos.x) as u16,
                position_level(pos.y) as u16,
                position_level(pos.z) as u16,
                payload_high(color_payload(packed_color(color))),
            ],
        }
    }

    /// The vertex's entry in the second stream.
    pub open spec fn entry_b(self) -> [u8; 4] {
        match self {
            Vertex::Solid { pos, normal, color } => [
                normal_level(normal.x) as u8,
                normal_level(normal.y) as u8,
                normal_level(normal.z) as u8,
                payload_low(color_payload(packed_color(color))),
            ],
        }
    }

    /// The reports that encoding the vertex leaves: those of its position,
    /// then those of its normal. A color leaves none.
    pub open spec fn faults(self) -> Seq<Diagnostic> {
        match self {
            Vertex::Solid { pos, normal, color } => position_faults(pos) + normal_faults(normal),
        }
    }
}

impl ChunkGeometry {
    /// The streams are as long as each other, the indices come in triangles,
    /// and each index names a vertex.
    pub open spec fn wf(&self) -> bool {
        &&& self.data1@.len() == self.data2@.len()
        &&& self.indices@.len() % 3 == 0
        &&& forall|i: int| 0 <= i < self.indices@.len() ==> self.indices@[i] < self.data1@.len()
    }
}

impl BuilderView {
    /// A builder that holds `states` and nothing else.
    pub open spec fn fresh(states: CircuitStates) -> BuilderView {
        BuilderView {
            stream_a: Seq::empty(),
            stream_b: Seq::empty(),
            indices: Seq::empty(),
            states,
            diagnostics: Seq::empty(),
            finalized: false,
        }
    }

    /// The number of rectangles held.
    pub open spec fn rectangle_count(self) -> int {
        self.stream_a.len() as int / 4
    }

    /// Every rectangle has four vertices in each stream and six indices, the
    /// six indices of a rectangle are those of its own four vertices, and the
    /// vertex count fits an index.
    pub open spec fn wf(self) -> bool {
        &&& self.stream_a.len() == self.stream_b.len()
        &&& self.stream_a.len() % 4 == 0
        &&& self.stream_a.len() <= u32::MAX
        &&& self.indices.len() == 6 * self.rectangle_count()
        &&& forall|i: int|
            0 <= i < self.indices.len() ==> #[trigger] self.indices[i] == 4 * (i / 6) + corner(
                i % 6,
            )
    }

    /// The builder after one more vertex.
    pub open spec fn with_vertex(self, vertex: Vertex) -> BuilderView {
        BuilderView {
            stream_a: self.stream_a.push(vertex.entry_a()),
            stream_b: self.stream_b.push(vertex.entry_b()),
            diagnostics: self.diagnostics + vertex.faults(),
            ..self
        }
    }

    /// The builder after one more rectangle: a vertex per corner in the
    /// order given, all of one color and one normal, and six indices that
    /// count from the rectangle's first vertex.
    pub open spec fn with_rectangle(self, pos: [Point3; 4], color: Rgba, normal: Point3)
        -> BuilderView {
        let vertices = self.with_vertex(Vertex::Solid { pos: pos[0], normal, color }).with_vertex(
            Vertex::Solid { pos: pos[1], normal, color },
        ).with_vertex(Vertex::Solid { pos: pos[2], normal, color }).with_vertex(
            Vertex::Solid { pos: pos[3], normal, color },
        );
        BuilderView {
            indices: self.indices + rectangle_indices(self.stream_a.len() as int),
            ..vertices
        }
    }

    /// The builder after the rectangles of `faces`, first to last, starting
    /// from `self`.
    pub open spec fn with_rectangles(self, faces: Seq<([Point3; 4], Rgba, Point3)>) -> BuilderView
        decreases faces.len(),
    {
        if faces.len() == 0 {
            self
        } else {
            let last = faces.last();
            self.with_rectangles(faces.drop_last()).with_rectangle(last.0, last.1, last.2)
        }
    }

    /// The builder once built: the geometry handed over, everything else kept.
    pub open spec fn built(self) -> BuilderView {
        BuilderView {
            stream_a: Seq::empty(),
            stream_b: Seq::empty(),
            indices: Seq::empty(),
            finalized: true,
            ..self
        }
    }
}

/// The counts of well-formed geometry: `k` rectangles are `4k` entries in
/// each stream and `6k` indices, all below `4k`.
pub proof fn lemma_geometry_counts(view: BuilderView)
    requires
        view.wf(),
    ensures
        view.stream_a.len() == 4 * view.rectangle_count(),
        view.stream_b.len() == 4 * view.rectangle_count(),
        view.indices.len() == 6 * view.rectangle_count(),
        view.indices.len() % 3 == 0,
        forall|i: int|
            0 <= i < view.indices.len() ==> (#[trigger] view.indices[i]) < 4
                * view.rectangle_count(),
{
}

/// What one more rectangle changes: four entries at the end of each stream
/// and six indices at the end of the list.
proof fn lemma_rectangle_shape(view: BuilderView, pos: [Point3; 4], color: Rgba, normal: Point3)
    ensures
        view.with_rectangle(pos, color, normal).stream_a.len() == view.stream_a.len() + 4,
        view.with_rectangle(pos, color, normal).stream_b.len() == view.stream_b.len() + 4,
        view.with_rectangle(pos, color, normal).indices == view.indices + rectangle_indices(
            view.stream_a.len() as int,
        ),
        view.with_rectangle(pos, color, normal).states == view.states,
        view.with_rectangle(pos, color, normal).finalized == view.finalized,
{
}

/// Six more indices over four new vertices continue the pattern of the list.
proof fn lemma_indices_step(indices: Seq<u32>, count: int)
    requires
        0 <= count,
        4 * count + 4 <= u32::MAX,
        indices.len() == 6 * count,
        forall|i: int|
            0 <= i < indices.len() ==> #[trigger] indices[i] == 4 * (i / 6) + corner(i % 6),
    ensures
        forall|i: int|
            0 <= i < 6 * count + 6 ==> #[trigger] (indices + rectangle_indices(4 * count))[i] == 4
                * (i / 6) + corner(i % 6),
{
    let added = rectangle_indices(4 * count);
    let next = indices + added;
    assert forall|i: int| 0 <= i < 6 * count + 6 implies #[trigger] next[i] == 4 * (i / 6)
        + corner(i % 6) by {
        if i < 6 * count {
            assert(next[i] == indices[i]);
        } else {
            let k = i - 6 * count;
            assert(next[i] == added[k]);
            assert(i / 6 == count);
            assert(i % 6 == k);
            assert(added[k] == (4 * count + corner(k)) as u32);
        }
    }
}

/// One more rectangle keeps the geometry well formed and adds one to the
/// count, as long as the new vertices can still be indexed.
pub proof fn lemma_rectangle_step(view: BuilderView, pos: [Point3; 4], color: Rgba, normal: Point3)
    requires
        view.wf(),
        view.stream_a.len() + 4 <= u32::MAX,
    ensures
        view.with_rectangle(pos, color, normal).wf(),
        view.with_rectangle(pos, color, normal).rectangle_count() == view.rectangle_count() + 1,
        view.with_rectangle(pos, color, normal).states == view.states,
        view.with_rectangle(pos, color, normal).finalized == view.finalized,
{
    lemma_rectangle_shape(view, pos, color, normal);
    lemma_indices_step(view.indices, view.rectangle_count());
}

/// After `k` rectangles a fresh builder holds `4k` entries in each stream
/// and `6k` indices, every one of them below `4k`.
pub proof fn lemma_geometry_after_rectangles(
    states: CircuitStates,
    faces: Seq<([Point3; 4], Rgba, Point3)>,
)
    requires
        4 * faces.len() <= u32::MAX,
    ensures
        ({
            let view = BuilderView::fresh(states).with_rectangles(faces);
            &&& view.wf()
            &&& view.rectangle_count() == faces.len()
            &&& view.stream_a.len() == 4 * faces.len()
            &&& view.stream_b.len() == 4 * faces.len()
            &&& view.indices.len() == 6 * faces.len()
            &&& forall|i: int|
                0 <= i < view.indices.len() ==> (#[trigger] view.indices[i]) < 4 * faces.len()
            &&& view.states == states
            &&& !view.finalized
        }),
    decreases faces.len(),
{
    let start = BuilderView::fresh(states);
    if faces.len() == 0 {
        assert(start.with_rectangles(faces) == start);
    } else {
        let last = faces.last();
        let before = start.with_rectangles(faces.drop_last());
        lemma_geometry_after_rectangles(states, faces.drop_last());
        lemma_rectangle_step(before, last.0, last.1, last.2);
        lemma_geometry_counts(before.with_rectangle(last.0, last.1, last.2));
    }
}

impl View for ComponentChunkBuilder {
    type V = BuilderView;

    closed spec fn view(&self) -> BuilderView {
        BuilderView {
            stream_a: self.data1@,
            stream_b: self.data2@,
            indices: self.indices@,
            states: self.states,
            diagnostics: self.diagnostics@,
            finalized: self.finalized,
        }
    }
}

impl ComponentChunkBuilder {
    /// The validity of a builder: that of what it holds.
    pub open spec fn wf(&self) -> bool {
        self@.wf()
    }

    /// Starts a chunk over `states`, with no geometry and no reports.
    pub fn new(states: CircuitStates) -> (builder: Self)
        ensures
            builder.wf(),
            builder@ == BuilderView::fresh(states),
    {
        Self {
            data1: Vec::new(),
            data2: Vec::new(),
            indices: Vec::new(),
            states,
            diagnostics: Vec::new(),
            finalized: false,
        }
    }

    /// Encodes one vertex and appends it to both streams, with its reports.
    fn vertex(&mut self, vertex: Vertex)
        ensures
            final(self)@ == old(self)@.with_vertex(vertex),
    {
        match vertex {
            Vertex::Solid { pos, normal, color } => {
                let ghost log = self.diagnostics@;
                let pos = handle_pos(pos, &mut self.diagnostics);
                let normal = handle_normal(normal, &mut self.diagnostics);
                let color = handle_color_solid(color);
                proof {
                    lemma_color_payload(color);
                }
                let (data1, data2) = construct_vertex_data(
                    pos,
                    normal,
                    color << 2,
                    &mut self.diagnostics,
                );
                self.data1.push(data1);
                self.data2.push(data2);
                proof {
                    assert(data1 =~= vertex.entry_a());
                    assert(data2 =~= vertex.entry_b());
                    assert(self.diagnostics@ =~= log + vertex.faults());
                }
            },
        }
    }

    /// Appends a rectangle: one vertex per corner, in the order given, all
    /// with the same color and normal, and the two triangles (0, 1, 2) and
    /// (2, 3, 0) over them. The corners need not lie in a plane.
    ///
    /// Input out of range is confined and reported, never refused. Fails
    /// with `AlreadyFinalized`, changing nothing, once the builder is built.
    pub fn rectangle(&mut self, pos: [Point3; 4], color: Rgba, normal: Point3) -> (result: Result<
        (),
        ChunkError,
    >)
        requires
            old(self).wf(),
            old(self)@.stream_a.len() + 4 <= u32::MAX,
        ensures
            final(self).wf(),
            old(self)@.finalized ==> result == Err::<(), ChunkError>(ChunkError::AlreadyFinalized)
                && final(self)@ == old(self)@,
            !old(self)@.finalized ==> result == Ok::<(), ChunkError>(()) && final(self)@ == old(
                self,
            )@.with_rectangle(pos, color, normal) && final(self)@.rectangle_count() == old(
                self,
            )@.rectangle_count() + 1,
    {
        if self.finalized {
            return Err(ChunkError::AlreadyFinalized);
        }
        let base: u32 = self.data1.len() as u32;
        self.vertex(Vertex::Solid { pos: pos[0], normal, color });
        self.vertex(Vertex::Solid { pos: pos[1], normal, color });
        self.vertex(Vertex::Solid { pos: pos[2], normal, color });
        self.vertex(Vertex::Solid { pos: pos[3], normal, color });
        self.indices.push(base);
        self.indices.push(base + 1);
        self.indices.push(base + 2);
        self.indices.push(base + 2);
        self.indices.push(base + 3);
        self.indices.push(base);
        proof {
            assert(self.indices@ =~= old(self).indices@ + rectangle_indices(base as int));
            lemma_rectangle_step(old(self)@, pos, color, normal);
        }
        Ok(())
    }

    /// Writes the state of cell `id`.
    ///
    /// Fails with `AlreadyFinalized` once the builder is built, and with
    /// `OutOfRange` where `id` is at or beyond the capacity of the cell states;
    /// either way nothing changes.
    pub fn set_state(&mut self, id: usize, state: bool) -> (result: Result<(), ChunkError>)
        requires
            old(self).wf(),
        ensures
            final(self).wf(),
            old(self)@.finalized ==> result == Err::<(), ChunkError>(ChunkError::AlreadyFinalized)
                && final(self)@ == old(self)@,
            !old(self)@.finalized && id >= old(self)@.states.capacity() ==> result == Err::<
                (),
                ChunkError,
            >(ChunkError::OutOfRange) && final(self)@ == old(self)@,
            !old(self)@.finalized && id < old(self)@.states.capacity() ==> result == Ok::<
                (),
                ChunkError,
            >(()) && final(self)@.states@ == old(self)@.states@.update(id as int, state)
                && final(self)@.states.capacity() == old(self)@.states.capacity() && final(self)@
                == (BuilderView { states: final(self)@.states, ..old(self)@ }),
    {
        if self.finalized {
            return Err(ChunkError::AlreadyFinalized);
        }
        self.states.set(id, state)
    }

    /// Finishes the chunk: hands over the geometry, and draws the cell
    /// states into a texture of the smallest tier that holds them all.
    ///
    /// Fails with `AlreadyFinalized` once the builder is built, and with
    /// `CapacityExceeded` where the cell states need more texels than the
    /// largest tier has; either way nothing changes.
    pub fn build(&mut self) -> (result: Result<(ChunkGeometry, StateTexture), ChunkError>)
        requires
            old(self).wf(),
        ensures
            final(self).wf(),
            old(self)@.finalized ==> result == Err::<(ChunkGeometry, StateTexture), ChunkError>(
                ChunkError::AlreadyFinalized,
            ) && final(self)@ == old(self)@,
            !old(self)@.finalized && old(self)@.states.capacity() > 65536 ==> result == Err::<
                (ChunkGeometry, StateTexture),
                ChunkError,
            >(ChunkError::CapacityExceeded) && final(self)@ == old(self)@,
            !old(self)@.finalized && old(self)@.states.capacity() <= 65536 ==> final(self)@ == old(
                self,
            )@.built() && (result matches Ok(chunk) && built_from(
                chunk.0,
                chunk.1,
                old(self)@,
                old(self)@.states.capacity() as int,
            )),
    {
        if self.finalized {
            return Err(ChunkError::AlreadyFinalized);
        }
        match self.states.capacity_bits() {
            Some(bits) => self.build_with_capacity(bits),
            None => Err(ChunkError::CapacityExceeded),
        }
    }

    /// Finishes the chunk as `build` does, with a texture sized for
    /// `capacity_bits` state bits in place of the capacity of the cell
    /// states. Cells at and beyond the texture's texel count are not drawn.
    ///
    /// Fails with `AlreadyFinalized` once the builder is built, and with
    /// `CapacityExceeded` where `capacity_bits` is more than the largest
    /// tier holds; either way nothing changes.
    pub fn build_with_capacity(&mut self, capacity_bits: usize) -> (result: Result<
        (ChunkGeometry, StateTexture),
        ChunkError,
    >)
        requires
            old(self).wf(),
        ensures
            final(self).wf(),
            old(self)@.finalized ==> result == Err::<(ChunkGeometry, StateTexture), ChunkError>(
                ChunkError::AlreadyFinalized,
            ) && final(self)@ == old(self)@,
            !old(self)@.finalized && capacity_bits > 65536 ==> result == Err::<
                (ChunkGeometry, StateTexture),
                ChunkError,
            >(ChunkError::CapacityExceeded) && final(self)@ == old(self)@,
            !old(self)@.finalized && capacity_bits <= 65536 ==> final(self)@ == old(self)@.built()
                && (result matches Ok(chunk) && built_from(
                chunk.0,
                chunk.1,
                old(self)@,
                capacity_bits as int,
            )),
    {
        if self.finalized {
            return Err(ChunkError::AlreadyFinalized);
        }
        let tier = match select_texture_tier(capacity_bits) {
            Ok(tier) => tier,
            Err(error) => {
                return Err(error);
            },
        };
        let texture = rasterize(&self.states, tier);
        let mut geometry = ChunkGeometry {
            data1: Vec::new(),
            data2: Vec::new(),
            indices: Vec::new(),
        };
        std::mem::swap(&mut geometry.data1, &mut self.data1);
        std::mem::swap(&mut geometry.data2, &mut self.data2);
        std::mem::swap(&mut geometry.indices, &mut self.indices);
        self.finalized = true;
        proof {
            lemma_geometry_counts(old(self)@);
        }
        Ok((geometry, texture))
    }

    /// The cell states.
    pub fn states(&self) -> (states: &CircuitStates)
        ensures
            *states == self@.states,
    {
        &self.states
    }

    /// Gives up the builder for its cell states.
    pub fn into_states(self) -> (states: CircuitStates)
        ensures
            states == self@.states,
    {
        self.states
    }

    /// The reports of out-of-range input so far, oldest first.
    pub fn diagnostics(&self) -> (log: &Vec<Diagnostic>)
        ensures
            log@ == self@.diagnostics,
    {
        &self.diagnostics
    }

    /// The number of vertices held.
    pub fn vertex_count(&self) -> (count: usize)
        ensures
            count == self@.stream_a.len(),
    {
        self.data1.len()
    }

    /// Whether the builder has been built.
    pub fn is_finalized(&self) -> (finalized: bool)
        ensures
            finalized == self@.finalized,
    {
        self.finalized
    }
}

/// Whether `geometry` and `texture` are what building a builder that held
/// `view` gives, with a texture sized for `bits` state bits: the builder's
/// streams and indices as they stood, valid as geometry, and the image of
/// its cell states at the tier chosen for `bits`.
pub open spec fn built_from(
    geometry: ChunkGeometry,
    texture: StateTexture,
    view: BuilderView,
    bits: int,
) -> bool {
    &&& geometry.data1@ == view.stream_a
    &&& geometry.data2@ == view.stream_b
    &&& geometry.indices@ == view.indices
    &&& geometry.wf()
    &&& texture.shows(view.states, bits)
}

} // verus!
