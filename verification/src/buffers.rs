//! The buffers of the two compute passes: which exist in which mode, how
//! large each is, what it may be used for, and the order in which the passes
//! bind them.

use crate::volume::{lemma_descriptor_sizes, VolumeDescriptor};
use vstd::prelude::*;

verus! {

/// Bytes of a uniform block and of the indirect parameter block: four words.
pub const BLOCK_BYTES: u64 = 16;

/// Bytes of one palette colour: four single-precision components.
pub const COLOR_BYTES: u64 = 16;

/// Bytes of one metaball record: position, radius, strength, subtract and
/// two words of padding.
pub const RECORD_BYTES: u64 = 32;

/// Bytes of the table buffer: 256 edge masks and 256 rows of 16 entries.
pub const TABLE_BYTES: u64 = 17408;

/// Most colours a palette may hold.
pub const MAX_PALETTE: u32 = 256;

/// Metaballs of the metaball program unless told otherwise.
pub const DEFAULT_BALL_COUNT: u32 = 200;

/// Which scalar field the field pass evaluates.
#[derive(Clone, Copy, Debug, PartialEq, Eq, Structural)]
pub enum Mode {
    /// One of the analytic surfaces; workgroups are 8 samples wide.
    Implicit,
    /// A sum of radial contributions; workgroups are 4 samples wide.
    Metaball,
}

/// The buffers that the compute passes bind.
#[derive(Clone, Copy, Debug, PartialEq, Eq, Structural)]
pub enum BufferId {
    Value,
    Position,
    Normal,
    Color,
    Index,
    Tables,
    Colormap,
    FieldInts,
    FieldFloats,
    Metaballs,
    ExtractInts,
    ExtractFloats,
    Indirect,
}

/// What a buffer may be used for.
#[derive(Clone, Copy, Debug, PartialEq, Eq, Structural)]
pub struct Usage {
    pub storage: bool,
    pub uniform: bool,
    pub vertex: bool,
    pub index: bool,
    pub indirect: bool,
    pub copy_dst: bool,
}

/// How a pass sees a bound buffer.
#[derive(Clone, Copy, Debug, PartialEq, Eq, Structural)]
pub enum BindingKind {
    StorageReadOnly,
    StorageReadWrite,
    Uniform,
}

/// One entry of a bind group: the binding number, the buffer behind it and
/// the access the pass has to it.
#[derive(Clone, Copy, Debug, PartialEq, Eq, Structural)]
pub struct Binding {
    pub binding: u32,
    pub buffer: BufferId,
    pub kind: BindingKind,
}

/// One buffer to allocate.
#[derive(Clone, Copy, Debug, PartialEq, Eq, Structural)]
pub struct BufferSpec {
    pub id: BufferId,
    pub size: u64,
    pub usage: Usage,
}

/// Why a buffer plan was refused.
#[derive(Clone, Copy, Debug, PartialEq, Eq, Structural)]
pub enum PlanError {
    /// The palette holds no colour or more than `MAX_PALETTE`.
    PaletteSize,
    /// The palette is in order, the mode is metaball and there is no ball.
    NoMetaballs,
}

/// Side of the workgroup tile of a mode.
pub open spec fn tile_of(mode: Mode) -> int {
    match mode {
        Mode::Implicit => 8,
        Mode::Metaball => 4,
    }
}

/// A storage buffer that the host fills.
pub open spec fn storage_usage() -> Usage {
    Usage {
        storage: true,
        uniform: false,
        vertex: false,
        index: false,
        indirect: false,
        copy_dst: true,
    }
}

/// A uniform buffer that the host fills.
pub open spec fn uniform_usage() -> Usage {
    Usage {
        storage: false,
        uniform: true,
        vertex: false,
        index: false,
        indirect: false,
        copy_dst: true,
    }
}

/// What each buffer may be used for.
pub open spec fn usage_of(id: BufferId) -> Usage {
    match id {
        BufferId::Value | BufferId::Tables | BufferId::Colormap | BufferId::Metaballs => {
            storage_usage()
        },
        BufferId::Position | BufferId::Normal | BufferId::Color => Usage {
            vertex: true,
            ..storage_usage()
        },
        BufferId::Index => Usage { index: true, ..storage_usage() },
        BufferId::Indirect => Usage { indirect: true, ..storage_usage() },
        BufferId::FieldInts | BufferId::FieldFloats | BufferId::ExtractInts
        | BufferId::ExtractFloats => uniform_usage(),
    }
}

/// Bytes of each buffer for a lattice, a palette of `colors` colours and
/// `balls` metaballs.
pub open spec fn size_of(id: BufferId, d: VolumeDescriptor, colors: int, balls: int) -> int {
    match id {
        BufferId::Value => 4 * (d.samples() as int),
        BufferId::Position | BufferId::Normal | BufferId::Color => 4 * 3 * 12 * (d.m() as int) * 4,
        BufferId::Index => 4 * 15 * (d.m() as int),
        BufferId::Tables => 4 * (256 + 4096int),
        BufferId::Colormap => 16 * colors,
        BufferId::Metaballs => 32 * balls,
        BufferId::FieldInts | BufferId::FieldFloats | BufferId::ExtractInts
        | BufferId::ExtractFloats | BufferId::Indirect => 16int,
    }
}

/// The third buffer of the field pass: the float uniform of the implicit
/// surfaces, or the record array of the metaballs.
pub open spec fn field_parameters(mode: Mode) -> BufferId {
    match mode {
        Mode::Implicit => BufferId::FieldFloats,
        Mode::Metaball => BufferId::Metaballs,
    }
}

/// The buffers of a mode, in allocation order.
pub open spec fn buffers_of(mode: Mode) -> Seq<BufferId> {
    seq![
        BufferId::Value,
        BufferId::Position,
        BufferId::Normal,
        BufferId::Color,
        BufferId::Index,
        BufferId::Tables,
        BufferId::Colormap,
        BufferId::FieldInts,
        field_parameters(mode),
        BufferId::ExtractInts,
        BufferId::ExtractFloats,
        BufferId::Indirect,
    ]
}

/// The bind group of the field pass.
pub open spec fn field_bindings(mode: Mode) -> Seq<Binding> {
    seq![
        Binding { binding: 0, buffer: BufferId::Value, kind: BindingKind::StorageReadWrite },
        Binding { binding: 1, buffer: BufferId::FieldInts, kind: BindingKind::Uniform },
        Binding {
            binding: 2,
            buffer: field_parameters(mode),
            kind: match mode {
                Mode::Implicit => BindingKind::Uniform,
                Mode::Metaball => BindingKind::StorageReadOnly,
            },
        },
    ]
}

/// The bind group of the extraction pass.
pub open spec fn extract_bindings() -> Seq<Binding> {
    seq![
        Binding { binding: 0, buffer: BufferId::Tables, kind: BindingKind::StorageReadOnly },
        Binding { binding: 1, buffer: BufferId::Value, kind: BindingKind::StorageReadOnly },
        Binding { binding: 2, buffer: BufferId::Position, kind: BindingKind::StorageReadWrite },
        Binding { binding: 3, buffer: BufferId::Normal, kind: BindingKind::StorageReadWrite },
        Binding { binding: 4, buffer: BufferId::Color, kind: BindingKind::StorageReadWrite },
        Binding { binding: 5, buffer: BufferId::Index, kind: BindingKind::StorageReadWrite },
        Binding { binding: 6, buffer: BufferId::Indirect, kind: BindingKind::StorageReadWrite },
        Binding { binding: 7, buffer: BufferId::Colormap, kind: BindingKind::StorageReadOnly },
        Binding { binding: 8, buffer: BufferId::ExtractInts, kind: BindingKind::Uniform },
        Binding { binding: 9, buffer: BufferId::ExtractFloats, kind: BindingKind::Uniform },
    ]
}

/// Whether a buffer with this usage may be bound in this way.
pub open spec fn bindable(usage: Usage, kind: BindingKind) -> bool {
    match kind {
        BindingKind::Uniform => usage.uniform,
        BindingKind::StorageReadOnly | BindingKind::StorageReadWrite => usage.storage,
    }
}

/// Both bind groups number their entries from zero without a gap, name only
/// buffers that the mode allocates, and bind each buffer in a way that its
/// usage allows.
pub proof fn lemma_bindings_are_consistent(mode: Mode, i: int)
    ensures
        field_bindings(mode).len() == 3,
        extract_bindings().len() == 10,
        0 <= i < 3 ==> {
            let b = field_bindings(mode)[i];
            &&& b.binding == i
            &&& buffers_of(mode).contains(b.buffer)
            &&& bindable(usage_of(b.buffer), b.kind)
        },
        0 <= i < 10 ==> {
            let b = extract_bindings()[i];
            &&& b.binding == i
            &&& buffers_of(mode).contains(b.buffer)
            &&& bindable(usage_of(b.buffer), b.kind)
        },
{
    let ids = buffers_of(mode);
    assert(ids[0] == BufferId::Value);
    assert(ids[1] == BufferId::Position);
    assert(ids[2] == BufferId::Normal);
    assert(ids[3] == BufferId::Color);
    assert(ids[4] == BufferId::Index);
    assert(ids[5] == BufferId::Tables);
    assert(ids[6] == BufferId::Colormap);
    assert(ids[7] == BufferId::FieldInts);
    assert(ids[8] == field_parameters(mode));
    assert(ids[9] == BufferId::ExtractInts);
    assert(ids[10] == BufferId::ExtractFloats);
    assert(ids[11] == BufferId::Indirect);
}

impl Mode {
    /// Side of the workgroup tile.
    pub fn tile(self) -> (r: u32)
        ensures
            r == tile_of(self),
            r >= 1,
    {
        match self {
            Mode::Implicit => 8,
            Mode::Metaball => 4,
        }
    }

    /// Invocations in one workgroup: 512 for the implicit surfaces, 64 for
    /// the metaballs.
    pub fn workgroup_size(self) -> (r: u32)
        ensures
            r == tile_of(self) * tile_of(self) * tile_of(self),
    {
        match self {
            Mode::Implicit => 512,
            Mode::Metaball => 64,
        }
    }

    /// The third buffer of the field pass.
    pub fn parameters(self) -> (r: BufferId)
        ensures
            r == field_parameters(self),
    {
        match self {
            Mode::Implicit => BufferId::FieldFloats,
            Mode::Metaball => BufferId::Metaballs,
        }
    }
}

/// What a buffer may be used for.
pub fn usage(id: BufferId) -> (r: Usage)
    ensures
        r == usage_of(id),
{
    let storage = Usage {
        storage: true,
        uniform: false,
        vertex: false,
        index: false,
        indirect: false,
        copy_dst: true,
    };
    match id {
        BufferId::Value | BufferId::Tables | BufferId::Colormap | BufferId::Metaballs => storage,
        BufferId::Position | BufferId::Normal | BufferId::Color => Usage {
            vertex: true,
            ..storage
        },
        BufferId::Index => Usage { index: true, ..storage },
        BufferId::Indirect => Usage { indirect: true, ..storage },
        BufferId::FieldInts | BufferId::FieldFloats | BufferId::ExtractInts
        | BufferId::ExtractFloats => Usage { storage: false, uniform: true, ..storage },
    }
}

/// Bytes of a buffer.
pub fn buffer_size(id: BufferId, d: &VolumeDescriptor, colors: u32, balls: u32) -> (r: u64)
    ensures
        r == size_of(id, *d, colors as int, balls as int),
{
    match id {
        BufferId::Value => d.value_buffer_bytes(),
        BufferId::Position | BufferId::Normal | BufferId::Color => d.vertex_buffer_bytes(),
        BufferId::Index => d.index_buffer_bytes(),
        BufferId::Tables => TABLE_BYTES,
        BufferId::Colormap => COLOR_BYTES * (colors as u64),
        BufferId::Metaballs => RECORD_BYTES * (balls as u64),
        BufferId::FieldInts | BufferId::FieldFloats | BufferId::ExtractInts
        | BufferId::ExtractFloats | BufferId::Indirect => BLOCK_BYTES,
    }
}

/// The bind group of the field pass, in binding order.
pub fn field_layout(mode: Mode) -> (r: Vec<Binding>)
    ensures
        r@ == field_bindings(mode),
{
    let third: BindingKind = match mode {
        Mode::Implicit => BindingKind::Uniform,
        Mode::Metaball => BindingKind::StorageReadOnly,
    };
    let mut out: Vec<Binding> = Vec::new();
    out.push(Binding { binding: 0, buffer: BufferId::Value, kind: BindingKind::StorageReadWrite });
    out.push(Binding { binding: 1, buffer: BufferId::FieldInts, kind: BindingKind::Uniform });
    out.push(Binding { binding: 2, buffer: mode.parameters(), kind: third });
    proof {
        assert(out@ =~= field_bindings(mode));
    }
    out
}

/// The bind group of the extraction pass, in binding order.
pub fn extract_layout() -> (r: Vec<Binding>)
    ensures
        r@ == extract_bindings(),
{
    let mut out: Vec<Binding> = Vec::new();
    out.push(Binding { binding: 0, buffer: BufferId::Tables, kind: BindingKind::StorageReadOnly });
    out.push(Binding { binding: 1, buffer: BufferId::Value, kind: BindingKind::StorageReadOnly });
    out.push(
        Binding { binding: 2, buffer: BufferId::Position, kind: BindingKind::StorageReadWrite },
    );
    out.push(Binding { binding: 3, buffer: BufferId::Normal, kind: BindingKind::StorageReadWrite });
    out.push(Binding { binding: 4, buffer: BufferId::Color, kind: BindingKind::StorageReadWrite });
    out.push(Binding { binding: 5, buffer: BufferId::Index, kind: BindingKind::StorageReadWrite });
    out.push(
        Binding { binding: 6, buffer: BufferId::Indirect, kind: BindingKind::StorageReadWrite },
    );
    out.push(
        Binding { binding: 7, buffer: BufferId::Colormap, kind: BindingKind::StorageReadOnly },
    );
    out.push(Binding { binding: 8, buffer: BufferId::ExtractInts, kind: BindingKind::Uniform });
    out.push(Binding { binding: 9, buffer: BufferId::ExtractFloats, kind: BindingKind::Uniform });
    proof {
        assert(out@ =~= extract_bindings());
    }
    out
}

/// The buffer that entry `i` of a plan describes.
pub open spec fn planned(
    mode: Mode,
    d: VolumeDescriptor,
    colors: int,
    balls: int,
    i: int,
) -> BufferSpec {
    let id = buffers_of(mode)[i];
    BufferSpec { id, size: size_of(id, d, colors, balls) as u64, usage: usage_of(id) }
}

/// Whether a palette and a ball count can be planned for.
pub open spec fn plannable(mode: Mode, colors: int, balls: int) -> bool {
    &&& 1 <= colors <= MAX_PALETTE
    &&& mode == Mode::Metaball ==> balls >= 1
}

/// Every buffer of a plan has the byte size that its rule gives, and that
/// size fits in 64 bits.
pub proof fn lemma_planned_sizes(mode: Mode, d: VolumeDescriptor, colors: int, balls: int, i: int)
    requires
        d.wf(),
        0 <= colors <= u32::MAX,
        0 <= balls <= u32::MAX,
        0 <= i < 12,
    ensures
        buffers_of(mode).len() == 12,
        planned(mode, d, colors, balls, i).size == size_of(
            buffers_of(mode)[i],
            d,
            colors,
            balls,
        ),
        planned(mode, d, colors, balls, i).usage == usage_of(buffers_of(mode)[i]),
{
    lemma_descriptor_sizes(d);
    d.lemma_bounds();
}

/// The buffers to allocate for a mode, each with its size and usage, in
/// allocation order.
pub fn plan(mode: Mode, d: &VolumeDescriptor, colors: u32, balls: u32) -> (r: Result<
    Vec<BufferSpec>,
    PlanError,
>)
    ensures
        match r {
            Ok(v) => {
                &&& plannable(mode, colors as int, balls as int)
                &&& v.len() == 12
                &&& forall|i: int|
                    0 <= i < 12 ==> v[i] == planned(mode, *d, colors as int, balls as int, i)
            },
            Err(PlanError::PaletteSize) => colors < 1 || colors > MAX_PALETTE,
            Err(PlanError::NoMetaballs) => 1 <= colors <= MAX_PALETTE && mode == Mode::Metaball
                && balls == 0,
        },
{
    if colors < 1 || colors > MAX_PALETTE {
        return Err(PlanError::PaletteSize);
    }
    if mode == Mode::Metaball && balls == 0 {
        return Err(PlanError::NoMetaballs);
    }
    let ids: [BufferId; 12] = [
        BufferId::Value,
        BufferId::Position,
        BufferId::Normal,
        BufferId::Color,
        BufferId::Index,
        BufferId::Tables,
        BufferId::Colormap,
        BufferId::FieldInts,
        mode.parameters(),
        BufferId::ExtractInts,
        BufferId::ExtractFloats,
        BufferId::Indirect,
    ];
    proof {
        assert(ids@ =~= buffers_of(mode));
    }
    let mut out: Vec<BufferSpec> = Vec::new();
    let mut i: usize = 0;
    while i < 12
        invariant
            i <= 12,
            ids@ == buffers_of(mode),
            out.len() == i,
            forall|x: int| 0 <= x < i ==> out[x] == planned(mode, *d, colors as int, balls as int, x),
        decreases 12 - i,
    {
        let id: BufferId = ids[i];
        out.push(BufferSpec { id, size: buffer_size(id, d, colors, balls), usage: usage(id) });
        i = i + 1;
    }
    Ok(out)
}

/// The uniform buffers of the graphics stage.
#[derive(Clone, Copy, Debug, PartialEq, Eq, Structural)]
pub enum GraphicsBuffer {
    /// View-projection, model and normal matrix for the vertex stage.
    Vertex,
    /// Light direction, eye position and specular colour.
    Light,
    /// The four material parameters.
    Material,
}

/// What the host writes into the uniform buffers of the graphics stage.
#[derive(Clone, Copy, Debug, PartialEq, Eq, Structural)]
pub enum GraphicsField {
    ViewProjection,
    Model,
    NormalMatrix,
    LightDirection,
    EyePosition,
    SpecularColor,
    Material,
}

/// Where a field lies: its buffer, the offset of its first byte and the
/// bytes written there.
#[derive(Clone, Copy, Debug, PartialEq, Eq, Structural)]
pub struct Place {
    pub buffer: GraphicsBuffer,
    pub offset: u64,
    pub bytes: u64,
}

/// Bytes between two vertices in each of the three vertex buffers.
pub const VERTEX_STRIDE: u64 = 16;

/// Bytes of each uniform buffer of the graphics stage.
pub open spec fn graphics_size_of(buffer: GraphicsBuffer) -> int {
    match buffer {
        GraphicsBuffer::Vertex => 192,
        GraphicsBuffer::Light => 48,
        GraphicsBuffer::Material => 16,
    }
}

/// Where each field lies. A matrix takes 64 bytes, a vector of three
/// components takes 12 and starts on a multiple of 16.
pub open spec fn place_of(field: GraphicsField) -> Place {
    match field {
        GraphicsField::ViewProjection => Place {
            buffer: GraphicsBuffer::Vertex,
            offset: 0,
            bytes: 64,
        },
        GraphicsField::Model => Place { buffer: GraphicsBuffer::Vertex, offset: 64, bytes: 64 },
        GraphicsField::NormalMatrix => Place {
            buffer: GraphicsBuffer::Vertex,
            offset: 128,
            bytes: 64,
        },
        GraphicsField::LightDirection => Place {
            buffer: GraphicsBuffer::Light,
            offset: 0,
            bytes: 12,
        },
        GraphicsField::EyePosition => Place { buffer: GraphicsBuffer::Light, offset: 16, bytes: 12 },
        GraphicsField::SpecularColor => Place {
            buffer: GraphicsBuffer::Light,
            offset: 32,
            bytes: 12,
        },
        GraphicsField::Material => Place { buffer: GraphicsBuffer::Material, offset: 0, bytes: 16 },
    }
}

/// Every field lies inside its buffer on a multiple of 16, and two fields
/// of one buffer share no byte.
pub proof fn lemma_graphics_fields_fit(a: GraphicsField, b: GraphicsField)
    ensures
        place_of(a).offset % 16 == 0,
        place_of(a).offset + place_of(a).bytes <= graphics_size_of(place_of(a).buffer),
        a != b && place_of(a).buffer == place_of(b).buffer ==> place_of(a).offset + place_of(
            a,
        ).bytes <= place_of(b).offset || place_of(b).offset + place_of(b).bytes <= place_of(
            a,
        ).offset,
{
}

/// Bytes of a uniform buffer of the graphics stage.
pub fn graphics_buffer_size(buffer: GraphicsBuffer) -> (r: u64)
    ensures
        r == graphics_size_of(buffer),
{
    match buffer {
        GraphicsBuffer::Vertex => 192,
        GraphicsBuffer::Light => 48,
        GraphicsBuffer::Material => 16,
    }
}

/// Where a field lies.
pub fn place(field: GraphicsField) -> (r: Place)
    ensures
        r == place_of(field),
{
    match field {
        GraphicsField::ViewProjection => Place {
            buffer: GraphicsBuffer::Vertex,
            offset: 0,
            bytes: 64,
        },
        GraphicsField::Model => Place { buffer: GraphicsBuffer::Vertex, offset: 64, bytes: 64 },
        GraphicsField::NormalMatrix => Place {
            buffer: GraphicsBuffer::Vertex,
            offset: 128,
            bytes: 64,
        },
        GraphicsField::LightDirection => Place {
            buffer: GraphicsBuffer::Light,
            offset: 0,
            bytes: 12,
        },
        GraphicsField::EyePosition => Place { buffer: GraphicsBuffer::Light, offset: 16, bytes: 12 },
        GraphicsField::SpecularColor => Place {
            buffer: GraphicsBuffer::Light,
            offset: 32,
            bytes: 12,
        },
        GraphicsField::Material => Place { buffer: GraphicsBuffer::Material, offset: 0, bytes: 16 },
    }
}

} // verus!
