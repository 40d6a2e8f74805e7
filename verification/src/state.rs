//! The host's side of a frame: the settings that keys and timers change,
//! the words they put into the uniform blocks, the commands of one frame in
//! their order, and what to do when the window is resized or the surface
//! fails.

use crate::buffers::{tile_of, Mode, DEFAULT_BALL_COUNT};
use crate::uniforms::{extract_uniform, field_uniform, indirect_block};
use crate::volume::{cube, round_up, VolumeDescriptor, VolumeError, DEFAULT_CEILING};
use rand::Rng;
use vstd::prelude::*;

verus! {

/// Surfaces that the field pass knows, numbered from zero.
pub const SURFACE_COUNT: u32 = 11;

/// Last surface of the cycle unless told otherwise: the cycle leaves out the
/// two surfaces after it.
pub const DEFAULT_SURFACE_LIMIT: u32 = 8;

/// Surface shown first.
pub const INITIAL_SURFACE: u32 = 2;

/// Colormap direction chosen first: along the second axis.
pub const INITIAL_DIRECTION: u32 = 1;

/// Directions a colormap can follow: the three axes and the radius.
pub const DIRECTION_COUNT: u32 = 4;

/// Speeds are counted in tenths; both start at one.
pub const INITIAL_SPEED_TENTHS: u32 = 10;

/// Milliseconds between two automatic changes.
pub const CHANGE_PERIOD_MS: u64 = 5000;

/// First word of the indirect parameter block.
pub const INDIRECT_SEED: u32 = 500;

/// Samples per pixel unless told otherwise.
pub const DEFAULT_SAMPLE_COUNT: u32 = 1;

/// Requested resolution unless told otherwise.
pub const DEFAULT_RESOLUTION: u32 = 192;

/// The keys that the programs bind.
#[derive(Clone, Copy, Debug, PartialEq, Eq, Structural)]
pub enum Key {
    Space,
    LControl,
    LShift,
    LAlt,
    Q,
    A,
    W,
    S,
    Escape,
    Other,
}

/// What can go wrong before or during a frame.
#[derive(Clone, Copy, Debug, PartialEq, Eq, Structural)]
pub enum Fault {
    Configuration,
    DeviceAcquisition,
    AllocationFailed,
    SurfaceLost,
    SurfaceTimeout,
    SurfaceOutdated,
    OutOfMemory,
    OtherSurface,
}

/// What the frame loop does about a fault.
#[derive(Clone, Copy, Debug, PartialEq, Eq, Structural)]
pub enum Recovery {
    /// Leave the loop after one log line.
    Abort,
    /// Rebuild the views that depend on the swapchain, keep every storage
    /// buffer, go on.
    RebuildViews,
    /// Drop this frame, go on with the next.
    SkipFrame,
    /// Log the fault, go on.
    LogAndContinue,
}

/// The steps of one frame.
#[derive(Clone, Copy, Debug, PartialEq, Eq, Structural)]
pub enum Phase {
    UpdateUniforms,
    Encode,
    Submit,
    Present,
    RebuildViews,
}

/// The two compute passes.
#[derive(Clone, Copy, Debug, PartialEq, Eq, Structural)]
pub enum Pass {
    Field,
    Extract,
}

/// One command of a frame.
#[derive(Clone, Copy, Debug, PartialEq, Eq, Structural)]
pub enum Command {
    /// A compute pass with the pipeline and bind group of `pass`, dispatched
    /// over `groups` workgroups along each axis.
    Compute { pass: Pass, groups: u32 },
    /// The render pass: an indexed draw of `index_count` indices, resolved
    /// from a multisampled target if `multisampled`.
    Draw { index_count: u64, multisampled: bool },
    /// Hand the recorded commands to the queue.
    Submit,
    /// Show the frame.
    Present,
}

/// What to rebuild after a resize.
#[derive(Clone, Copy, Debug, PartialEq, Eq, Structural)]
pub struct Rebuild {
    pub width: u32,
    pub height: u32,
    /// The multisampled colour view is rebuilt too.
    pub multisampled: bool,
}

/// The settings that keys and timers change.
#[derive(Clone, Copy, Debug, PartialEq, Eq, Structural)]
pub struct Controls {
    pub surface_type: u32,
    pub surface_limit: u32,
    pub colormap_direction: u32,
    pub colormap_reverse: u32,
    pub random_shape_change: u32,
    pub animation_tenths: u32,
    pub rotation_tenths: u32,
}

/// The words to upload before a frame, and whether the automatic change
/// took place in this update.
#[derive(Clone, Copy, Debug)]
pub struct FrameUniforms {
    pub field_ints: [u32; 4],
    pub extract_ints: [u32; 4],
    pub indirect: [u32; 4],
    pub changed: bool,
}

/// What a `State` holds.
pub struct StateView {
    pub mode: Mode,
    pub descriptor: VolumeDescriptor,
    pub sample_count: u32,
    pub width: u32,
    pub height: u32,
    pub ball_count: u32,
    pub controls: Controls,
    pub changed_at_ms: u64,
}

/// The host's state between frames.
#[derive(Debug)]
pub struct State {
    mode: Mode,
    descriptor: VolumeDescriptor,
    sample_count: u32,
    width: u32,
    height: u32,
    ball_count: u32,
    controls: Controls,
    changed_at_ms: u64,
}

/// Name of a surface, empty for a number that names none.
pub open spec fn name_of(surface: int) -> Seq<char> {
    if surface == 0 {
        "Sphere"@
    } else if surface == 1 {
        "Schwartz"@
    } else if surface == 2 {
        "Blobs"@
    } else if surface == 3 {
        "Klein"@
    } else if surface == 4 {
        "Torus"@
    } else if surface == 5 {
        "Chmutov"@
    } else if surface == 6 {
        "Gyroid"@
    } else if surface == 7 {
        "CubeSphere"@
    } else if surface == 8 {
        "OrthoCircle"@
    } else if surface == 9 {
        "SpiderCage"@
    } else if surface == 10 {
        "BarthSextic"@
    } else {
        ""@
    }
}

/// Whether the programs of a mode bind a key.
pub open spec fn handles(mode: Mode, key: Key) -> bool {
    match mode {
        Mode::Implicit => key != Key::Escape && key != Key::Other,
        Mode::Metaball => key == Key::Space || key == Key::LControl,
    }
}

/// A speed one tenth higher, as far as the counter goes.
pub open spec fn faster(tenths: u32) -> u32 {
    if tenths < u32::MAX {
        (tenths + 1) as u32
    } else {
        tenths
    }
}

/// A speed one tenth lower, never below zero.
pub open spec fn slower(tenths: u32) -> u32 {
    if tenths > 0 {
        (tenths - 1) as u32
    } else {
        0
    }
}

/// The other of the two values of a switch.
pub open spec fn toggled(switch: u32) -> u32 {
    if switch == 0 {
        1
    } else {
        0
    }
}

/// The surface after the one shown: the next of the cycle, or the first
/// after the last.
pub open spec fn next_surface(c: Controls) -> u32 {
    if c.surface_type < c.surface_limit {
        (c.surface_type + 1) as u32
    } else {
        0
    }
}

/// The settings after a key was pressed.
pub open spec fn after_key(mode: Mode, c: Controls, key: Key) -> Controls {
    let next_direction = ((c.colormap_direction + 1) % 4) as u32;
    match mode {
        Mode::Implicit => match key {
            Key::Space => Controls { surface_type: next_surface(c), ..c },
            Key::LControl => Controls { colormap_direction: next_direction, ..c },
            Key::LShift => Controls { random_shape_change: toggled(c.random_shape_change), ..c },
            Key::LAlt => Controls { colormap_reverse: toggled(c.colormap_reverse), ..c },
            Key::Q => Controls { animation_tenths: faster(c.animation_tenths), ..c },
            Key::A => Controls { animation_tenths: slower(c.animation_tenths), ..c },
            Key::W => Controls { rotation_tenths: faster(c.rotation_tenths), ..c },
            Key::S => Controls { rotation_tenths: slower(c.rotation_tenths), ..c },
            Key::Escape | Key::Other => c,
        },
        Mode::Metaball => match key {
            Key::Space => Controls { colormap_direction: next_direction, ..c },
            Key::LControl => Controls { colormap_reverse: toggled(c.colormap_reverse), ..c },
            _ => c,
        },
    }
}

/// What the frame loop does about each fault.
pub open spec fn policy(fault: Fault) -> Recovery {
    match fault {
        Fault::Configuration | Fault::DeviceAcquisition | Fault::AllocationFailed
        | Fault::OutOfMemory => Recovery::Abort,
        Fault::SurfaceLost => Recovery::RebuildViews,
        Fault::SurfaceTimeout | Fault::SurfaceOutdated => Recovery::SkipFrame,
        Fault::OtherSurface => Recovery::LogAndContinue,
    }
}

/// The step after `phase`; views are rebuilt after a frame was shown if a
/// resize came in meanwhile.
pub open spec fn phase_after(phase: Phase, resized: bool) -> Phase {
    match phase {
        Phase::UpdateUniforms => Phase::Encode,
        Phase::Encode => Phase::Submit,
        Phase::Submit => Phase::Present,
        Phase::Present => if resized {
            Phase::RebuildViews
        } else {
            Phase::UpdateUniforms
        },
        Phase::RebuildViews => Phase::UpdateUniforms,
    }
}

impl StateView {
    /// The settings are in range and the lattice is aligned to the tile of
    /// the mode.
    pub open spec fn valid(self) -> bool {
        &&& self.descriptor.wf()
        &&& self.descriptor.tile_side() == tile_of(self.mode)
        &&& self.controls.surface_limit < SURFACE_COUNT
        &&& self.controls.surface_type <= self.controls.surface_limit
        &&& self.controls.colormap_direction < DIRECTION_COUNT
        &&& self.controls.colormap_reverse <= 1
        &&& self.controls.random_shape_change <= 1
    }

    /// Whether the automatic change is due at `now_ms`: the period has
    /// passed since the last change and, for the implicit surfaces, the
    /// change is switched on.
    pub open spec fn change_due(self, now_ms: u64) -> bool {
        &&& now_ms >= self.changed_at_ms
        &&& now_ms - self.changed_at_ms >= CHANGE_PERIOD_MS
        &&& self.mode == Mode::Implicit ==> self.controls.random_shape_change == 0
    }

    /// The state after an update at `now_ms`, where `drawn` is the surface
    /// to show if the change is due.
    pub open spec fn advanced(self, now_ms: u64, drawn: u32) -> StateView {
        if self.change_due(now_ms) {
            StateView {
                changed_at_ms: now_ms,
                controls: match self.mode {
                    Mode::Implicit => Controls { surface_type: drawn, ..self.controls },
                    Mode::Metaball => self.controls,
                },
                ..self
            }
        } else {
            self
        }
    }

    /// Second word of both integer uniforms: the surface type, or the number
    /// of metaballs.
    pub open spec fn selector(self) -> u32 {
        match self.mode {
            Mode::Implicit => self.controls.surface_type,
            Mode::Metaball => self.ball_count,
        }
    }

    /// The integer uniform of the field pass.
    pub open spec fn field_words(self) -> Seq<u32> {
        seq![self.descriptor.n() as u32, self.selector(), 0u32, 0u32]
    }

    /// The integer uniform of the extraction pass.
    pub open spec fn extract_words(self) -> Seq<u32> {
        seq![
            self.descriptor.n() as u32,
            self.selector(),
            self.controls.colormap_direction,
            self.controls.colormap_reverse,
        ]
    }

    /// The state after the window took a new size: unchanged if either side
    /// is zero.
    pub open spec fn resized(self, width: u32, height: u32) -> StateView {
        if width > 0 && height > 0 {
            StateView { width, height, ..self }
        } else {
            self
        }
    }

    /// The commands of one frame: the field pass, the extraction pass and
    /// the draw in one command buffer, then its submission, then the
    /// presentation.
    pub open spec fn commands(self) -> Seq<Command> {
        let groups = (self.descriptor.n() / self.descriptor.tile_side()) as u32;
        seq![
            Command::Compute { pass: Pass::Field, groups },
            Command::Compute { pass: Pass::Extract, groups },
            Command::Draw {
                index_count: (15 * self.descriptor.m()) as u64,
                multisampled: self.sample_count > 1,
            },
            Command::Submit,
            Command::Present,
        ]
    }
}

/// Pressing a key keeps the settings in range.
pub proof fn lemma_keys_keep_settings_valid(s: StateView, key: Key)
    requires
        s.valid(),
    ensures
        (StateView { controls: after_key(s.mode, s.controls, key), ..s }).valid(),
        !handles(s.mode, key) ==> after_key(s.mode, s.controls, key) == s.controls,
{
}

/// Resizing to another size and back gives the state that was there before:
/// the same width and height, hence the same aspect for the projection.
pub proof fn lemma_resize_round_trip(s: StateView, width: u32, height: u32)
    requires
        s.width > 0,
        s.height > 0,
    ensures
        s.resized(width, height).resized(s.width, s.height) == s,
        s.resized(width, height).descriptor == s.descriptor,
        s.resized(width, height).controls == s.controls,
        s.resized(s.width, s.height) == s,
{
}

/// An update changes nothing but the surface and the time of the last
/// change, and only when the change is due; the surface stays in the cycle.
pub proof fn lemma_update_is_local(s: StateView, now_ms: u64, drawn: u32)
    requires
        s.valid(),
        drawn <= s.controls.surface_limit,
    ensures
        s.advanced(now_ms, drawn).valid(),
        !s.change_due(now_ms) ==> s.advanced(now_ms, drawn) == s,
        s.advanced(now_ms, drawn).descriptor == s.descriptor,
        s.advanced(now_ms, drawn).width == s.width,
        s.advanced(now_ms, drawn).height == s.height,
        !s.advanced(now_ms, drawn).change_due(now_ms) || !s.change_due(now_ms),
{
}

/// What the frame loop does about a fault.
pub fn recover(fault: Fault) -> (r: Recovery)
    ensures
        r == policy(fault),
{
    match fault {
        Fault::Configuration | Fault::DeviceAcquisition | Fault::AllocationFailed
        | Fault::OutOfMemory => Recovery::Abort,
        Fault::SurfaceLost => Recovery::RebuildViews,
        Fault::SurfaceTimeout | Fault::SurfaceOutdated => Recovery::SkipFrame,
        Fault::OtherSurface => Recovery::LogAndContinue,
    }
}

/// The step after `phase`.
pub fn next_phase(phase: Phase, resized: bool) -> (r: Phase)
    ensures
        r == phase_after(phase, resized),
{
    match phase {
        Phase::UpdateUniforms => Phase::Encode,
        Phase::Encode => Phase::Submit,
        Phase::Submit => Phase::Present,
        Phase::Present => if resized {
            Phase::RebuildViews
        } else {
            Phase::UpdateUniforms
        },
        Phase::RebuildViews => Phase::UpdateUniforms,
    }
}

/// Name of a surface, empty for a number that names none.
pub fn surface_name(surface: u32) -> (r: &'static str)
    ensures
        r@ == name_of(surface as int),
{
    match surface {
        0 => "Sphere",
        1 => "Schwartz",
        2 => "Blobs",
        3 => "Klein",
        4 => "Torus",
        5 => "Chmutov",
        6 => "Gyroid",
        7 => "CubeSphere",
        8 => "OrthoCircle",
        9 => "SpiderCage",
        10 => "BarthSextic",
        _ => "",
    }
}

/// A surface for the automatic change, drawn at random.
///
/// Calls `rand::thread_rng` and `Rng::gen_range` on the range from zero to
/// `high`, both ends included. The range is never empty, so the call cannot
/// fail for its argument; the generator seeds itself from the operating
/// system on first use, and of a machine that offers no such source nothing
/// is claimed. The contract says what holds of every draw: the result lies
/// in the range.
#[verifier::external_body]
fn draw_up_to(high: u32) -> (r: u32)
    ensures
        r <= high,
{
    rand::thread_rng().gen_range(0..=high)
}

impl View for State {
    type V = StateView;

    closed spec fn view(&self) -> StateView {
        StateView {
            mode: self.mode,
            descriptor: self.descriptor,
            sample_count: self.sample_count,
            width: self.width,
            height: self.height,
            ball_count: self.ball_count,
            controls: self.controls,
            changed_at_ms: self.changed_at_ms,
        }
    }
}

impl State {
    /// What every state satisfies.
    #[verifier::type_invariant]
    pub closed spec fn wf(self) -> bool {
        self@.valid()
    }

    /// The state at start-up: the third surface, colours along the second
    /// axis, both speeds at one, the automatic change switched on and the
    /// clock of the change started at `now_ms`.
    pub open spec fn initial(
        mode: Mode,
        descriptor: VolumeDescriptor,
        sample_count: u32,
        width: u32,
        height: u32,
        now_ms: u64,
    ) -> StateView {
        StateView {
            mode,
            descriptor,
            sample_count,
            width,
            height,
            ball_count: DEFAULT_BALL_COUNT,
            controls: Controls {
                surface_type: INITIAL_SURFACE,
                surface_limit: DEFAULT_SURFACE_LIMIT,
                colormap_direction: INITIAL_DIRECTION,
                colormap_reverse: 0,
                random_shape_change: 0,
                animation_tenths: INITIAL_SPEED_TENTHS,
                rotation_tenths: INITIAL_SPEED_TENTHS,
            },
            changed_at_ms: now_ms,
        }
    }

    /// Sets up the host's state for a window of `width` by `height` pixels
    /// and a lattice of `resolution` samples per axis, rounded up to the
    /// tile of the mode.
    pub fn new(
        mode: Mode,
        sample_count: u32,
        resolution: u32,
        width: u32,
        height: u32,
        now_ms: u64,
    ) -> (r: Result<State, VolumeError>)
        ensures
            match r {
                Ok(s) => {
                    &&& resolution >= 2
                    &&& cube(round_up(resolution as int, tile_of(mode))) <= DEFAULT_CEILING
                    &&& s@.valid()
                    &&& s@.descriptor.n() == round_up(resolution as int, tile_of(mode))
                    &&& s@ == State::initial(mode, s@.descriptor, sample_count, width, height, now_ms)
                },
                Err(e) => {
                    &&& e == VolumeError::InvalidResolution
                    &&& (resolution < 2 || cube(round_up(resolution as int, tile_of(mode)))
                        > DEFAULT_CEILING)
                },
            },
    {
        let descriptor = match VolumeDescriptor::new(resolution, mode.tile()) {
            Ok(d) => d,
            Err(e) => {
                return Err(e);
            },
        };
        Ok(
            State {
                mode,
                descriptor,
                sample_count,
                width,
                height,
                ball_count: DEFAULT_BALL_COUNT,
                controls: Controls {
                    surface_type: INITIAL_SURFACE,
                    surface_limit: DEFAULT_SURFACE_LIMIT,
                    colormap_direction: INITIAL_DIRECTION,
                    colormap_reverse: 0,
                    random_shape_change: 0,
                    animation_tenths: INITIAL_SPEED_TENTHS,
                    rotation_tenths: INITIAL_SPEED_TENTHS,
                },
                changed_at_ms: now_ms,
            },
        )
    }

    /// The settings as they stand.
    pub fn controls(&self) -> (r: Controls)
        ensures
            r == self@.controls,
            self@.valid(),
    {
        proof {
            use_type_invariant(self);
        }
        self.controls
    }

    /// The lattice.
    pub fn descriptor(&self) -> (r: VolumeDescriptor)
        ensures
            r == self@.descriptor,
            r.wf(),
    {
        proof {
            use_type_invariant(self);
        }
        self.descriptor
    }

    /// The mode.
    pub fn mode(&self) -> (r: Mode)
        ensures
            r == self@.mode,
    {
        self.mode
    }

    /// The number of metaballs.
    pub fn ball_count(&self) -> (r: u32)
        ensures
            r == self@.ball_count,
    {
        self.ball_count
    }

    /// Samples per pixel.
    pub fn sample_count(&self) -> (r: u32)
        ensures
            r == self@.sample_count,
    {
        self.sample_count
    }

    /// Width and height of the window as last accepted.
    pub fn size(&self) -> (r: (u32, u32))
        ensures
            r.0 == self@.width,
            r.1 == self@.height,
    {
        (self.width, self.height)
    }

    /// Sets the last surface of the cycle, for the keys and for the
    /// automatic change alike. A surface beyond the new end falls back to
    /// the first. Returns whether the limit names a surface; if it does not,
    /// nothing changes.
    pub fn set_surface_limit(&mut self, limit: u32) -> (r: bool)
        ensures
            r == (limit < SURFACE_COUNT),
            !r ==> final(self)@ == old(self)@,
            r ==> final(self)@ == (StateView {
                controls: Controls {
                    surface_limit: limit,
                    surface_type: if old(self)@.controls.surface_type <= limit {
                        old(self)@.controls.surface_type
                    } else {
                        0
                    },
                    ..old(self)@.controls
                },
                ..old(self)@
            }),
    {
        proof {
            use_type_invariant(&*self);
        }
        if limit >= SURFACE_COUNT {
            return false;
        }
        let surface_type: u32 = if self.controls.surface_type <= limit {
            self.controls.surface_type
        } else {
            0
        };
        self.controls = Controls { surface_limit: limit, surface_type, ..self.controls };
        true
    }

    /// Sets the number of metaballs. Returns whether there is at least one;
    /// if there is none, nothing changes.
    pub fn set_ball_count(&mut self, count: u32) -> (r: bool)
        ensures
            r == (count >= 1),
            !r ==> final(self)@ == old(self)@,
            r ==> final(self)@ == (StateView { ball_count: count, ..old(self)@ }),
    {
        proof {
            use_type_invariant(&*self);
        }
        if count == 0 {
            return false;
        }
        self.ball_count = count;
        true
    }

    /// Reacts to a pressed key and says whether the key was one of those
    /// that the mode binds.
    pub fn input(&mut self, key: Key) -> (r: bool)
        ensures
            r == handles(old(self)@.mode, key),
            final(self)@ == (StateView {
                controls: after_key(old(self)@.mode, old(self)@.controls, key),
                ..old(self)@
            }),
    {
        proof {
            use_type_invariant(&*self);
        }
        let c: Controls = self.controls;
        let next_direction: u32 = (c.colormap_direction + 1) % 4;
        let flipped: u32 = if c.colormap_reverse == 0 {
            1
        } else {
            0
        };
        match self.mode {
            Mode::Implicit => match key {
                Key::Space => {
                    let next: u32 = if c.surface_type < c.surface_limit {
                        c.surface_type + 1
                    } else {
                        0
                    };
                    self.controls = Controls { surface_type: next, ..c };
                    true
                },
                Key::LControl => {
                    self.controls = Controls { colormap_direction: next_direction, ..c };
                    true
                },
                Key::LShift => {
                    let switched: u32 = if c.random_shape_change == 0 {
                        1
                    } else {
                        0
                    };
                    self.controls = Controls { random_shape_change: switched, ..c };
                    true
                },
                Key::LAlt => {
                    self.controls = Controls { colormap_reverse: flipped, ..c };
                    true
                },
                Key::Q => {
                    self.controls = Controls {
                        animation_tenths: c.animation_tenths.saturating_add(1),
                        ..c
                    };
                    true
                },
                Key::A => {
                    self.controls = Controls {
                        animation_tenths: c.animation_tenths.saturating_sub(1),
                        ..c
                    };
                    true
                },
                Key::W => {
                    self.controls = Controls {
                        rotation_tenths: c.rotation_tenths.saturating_add(1),
                        ..c
                    };
                    true
                },
                Key::S => {
                    self.controls = Controls {
                        rotation_tenths: c.rotation_tenths.saturating_sub(1),
                        ..c
                    };
                    true
                },
                Key::Escape | Key::Other => false,
            },
            Mode::Metaball => match key {
                Key::Space => {
                    self.controls = Controls { colormap_direction: next_direction, ..c };
                    true
                },
                Key::LControl => {
                    self.controls = Controls { colormap_reverse: flipped, ..c };
                    true
                },
                _ => false,
            },
        }
    }

    /// Whether the automatic change is due at `now_ms`.
    pub fn change_is_due(&self, now_ms: u64) -> (r: bool)
        ensures
            r == self@.change_due(now_ms),
    {
        if now_ms < self.changed_at_ms || now_ms - self.changed_at_ms < CHANGE_PERIOD_MS {
            return false;
        }
        match self.mode {
            Mode::Implicit => self.controls.random_shape_change == 0,
            Mode::Metaball => true,
        }
    }

    /// The words to upload for the state as it stands.
    pub fn uniforms(&self, changed: bool) -> (r: FrameUniforms)
        ensures
            r.field_ints@ == self@.field_words(),
            r.extract_ints@ == self@.extract_words(),
            r.indirect@ == seq![INDIRECT_SEED, 0u32, 0u32, 0u32],
            r.changed == changed,
    {
        let resolution: u32 = self.descriptor.resolution();
        let selector: u32 = match self.mode {
            Mode::Implicit => self.controls.surface_type,
            Mode::Metaball => self.ball_count,
        };
        FrameUniforms {
            field_ints: field_uniform(resolution, selector),
            extract_ints: extract_uniform(
                resolution,
                selector,
                self.controls.colormap_direction,
                self.controls.colormap_reverse,
            ),
            indirect: indirect_block(INDIRECT_SEED, 0, 0, 0),
            changed,
        }
    }

    /// Advances the state to `now_ms` with `drawn` as the surface to show
    /// if the automatic change is due, and gives the words to upload.
    pub fn advance(&mut self, now_ms: u64, drawn: u32) -> (r: FrameUniforms)
        requires
            drawn <= old(self)@.controls.surface_limit,
        ensures
            final(self)@ == old(self)@.advanced(now_ms, drawn),
            r.changed == old(self)@.change_due(now_ms),
            r.field_ints@ == final(self)@.field_words(),
            r.extract_ints@ == final(self)@.extract_words(),
            r.indirect@ == seq![INDIRECT_SEED, 0u32, 0u32, 0u32],
    {
        proof {
            use_type_invariant(&*self);
        }
        let due: bool = self.change_is_due(now_ms);
        if due {
            self.changed_at_ms = now_ms;
            match self.mode {
                Mode::Implicit => {
                    self.controls = Controls { surface_type: drawn, ..self.controls };
                },
                Mode::Metaball => {},
            }
        }
        self.uniforms(due)
    }

    /// Advances the state to `now_ms`, drawing the next surface at random
    /// from the cycle if the automatic change is due, and gives the words to
    /// upload. Whatever was drawn, the state is the one that `advance`
    /// reaches with the surface that is now shown.
    pub fn update(&mut self, now_ms: u64) -> (r: FrameUniforms)
        ensures
            final(self)@.controls.surface_type <= old(self)@.controls.surface_limit,
            final(self)@ == old(self)@.advanced(now_ms, final(self)@.controls.surface_type),
            r.changed == old(self)@.change_due(now_ms),
            r.field_ints@ == final(self)@.field_words(),
            r.extract_ints@ == final(self)@.extract_words(),
            r.indirect@ == seq![INDIRECT_SEED, 0u32, 0u32, 0u32],
    {
        proof {
            use_type_invariant(&*self);
        }
        let drawn: u32 = if self.change_is_due(now_ms) {
            draw_up_to(self.controls.surface_limit)
        } else {
            self.controls.surface_type
        };
        self.advance(now_ms, drawn)
    }

    /// Takes a new window size. A size with a zero side is ignored;
    /// otherwise the size is kept and the views to rebuild are named. The
    /// lattice and the settings are never touched.
    pub fn resize(&mut self, width: u32, height: u32) -> (r: Option<Rebuild>)
        ensures
            final(self)@ == old(self)@.resized(width, height),
            match r {
                Some(b) => {
                    &&& width > 0
                    &&& height > 0
                    &&& b.width == width
                    &&& b.height == height
                    &&& b.multisampled == (old(self)@.sample_count > 1)
                },
                None => width == 0 || height == 0,
            },
    {
        proof {
            use_type_invariant(&*self);
        }
        if width > 0 && height > 0 {
            self.width = width;
            self.height = height;
            Some(Rebuild { width, height, multisampled: self.sample_count > 1 })
        } else {
            None
        }
    }

    /// The commands of one frame, in their order.
    pub fn render(&self) -> (r: Vec<Command>)
        ensures
            r@ == self@.commands(),
    {
        let groups: u32 = self.descriptor.workgroups_per_axis();
        let mut out: Vec<Command> = Vec::new();
        out.push(Command::Compute { pass: Pass::Field, groups });
        out.push(Command::Compute { pass: Pass::Extract, groups });
        out.push(
            Command::Draw {
                index_count: self.descriptor.index_count(),
                multisampled: self.sample_count > 1,
            },
        );
        out.push(Command::Submit);
        out.push(Command::Present);
        proof {
            assert(out@ =~= self@.commands());
        }
        out
    }
}

} // verus!
