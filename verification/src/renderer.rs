//! The frame sequencer: when a frame is drawn, in which order its passes
//! run, and what a resize does.
//!
//! The sequencer decides; the application acts. It hands the pending event
//! to [`Renderer::run`], carries out the action that comes back, and keeps
//! the event that comes back for the next round.

use crate::error::RenderError;
use vstd::prelude::*;

verus! {

/// Width and height of the presentation surface in pixels.
#[derive(Clone, Copy, Debug, PartialEq, Eq, Structural)]
pub struct SurfaceSize {
    pub width: u32,
    pub height: u32,
}

/// What is pending for the renderer.
#[derive(Clone, Copy, Debug, PartialEq, Eq, Structural)]
pub enum RendererEvent {
    /// A frame was requested.
    Render,
    /// The window changed its size.
    Resize(SurfaceSize),
    /// Nothing is pending.
    Nothing,
}

/// What the application has to do for the event it handed in.
#[derive(Clone, Copy, Debug, PartialEq, Eq, Structural)]
pub enum FrameAction {
    /// Nothing.
    Idle,
    /// Configure the presentation surface with this size. The targets of
    /// the passes are not part of this: they keep the size they were made
    /// with.
    Configure(SurfaceSize),
    /// Run the passes of `frame_passes`, in that order, and present.
    Draw,
}

/// The passes of a frame.
#[derive(Clone, Copy, Debug, PartialEq, Eq, Structural)]
pub enum Pass {
    /// Draws the batches into albedo, position, normal and depth.
    Geometry,
    /// Computes the occlusion texture from the G-buffer.
    Ssao,
    /// Draws the depth of the scene as the light sees it.
    Shadow,
    /// Resolves lighting onto the presentation surface.
    Composition,
}

/// The albedo target of the geometry pass.
pub const ALBEDO: u8 = 1;

/// The position target of the geometry pass.
pub const POSITION: u8 = 2;

/// The normal target of the geometry pass.
pub const NORMAL: u8 = 4;

/// The depth target of the geometry pass.
pub const GEOMETRY_DEPTH: u8 = 8;

/// The occlusion texture.
pub const OCCLUSION: u8 = 16;

/// The shadow depth texture.
pub const SHADOW_DEPTH: u8 = 32;

/// The frame of the presentation surface.
pub const SURFACE: u8 = 64;

/// The targets that a pass reads, as a set of bits.
pub open spec fn reads_of(pass: Pass) -> u8 {
    match pass {
        Pass::Geometry => 0,
        Pass::Ssao => ALBEDO | POSITION | NORMAL,
        Pass::Shadow => 0,
        Pass::Composition => ALBEDO | POSITION | NORMAL | OCCLUSION | SHADOW_DEPTH,
    }
}

/// The targets that a pass writes, as a set of bits.
pub open spec fn writes_of(pass: Pass) -> u8 {
    match pass {
        Pass::Geometry => ALBEDO | POSITION | NORMAL | GEOMETRY_DEPTH,
        Pass::Ssao => OCCLUSION,
        Pass::Shadow => SHADOW_DEPTH,
        Pass::Composition => SURFACE,
    }
}

/// The targets that the first `count` passes of `order` have written.
pub open spec fn written_by(order: Seq<Pass>, count: nat) -> u8
    decreases count,
{
    if count == 0 || count > order.len() {
        0
    } else {
        written_by(order, (count - 1) as nat) | writes_of(order[count - 1])
    }
}

/// Every pass reads only what an earlier pass of the frame has written: no
/// pass reads a target of the frame before.
pub open spec fn order_is_sound(order: Seq<Pass>) -> bool {
    forall|i: int|
        0 <= i < order.len() ==> reads_of(#[trigger] order[i]) & !written_by(order, i as nat) == 0
}

/// The targets that a pass reads: `ALBEDO`, `POSITION` and so on, or-ed
/// together.
pub fn pass_reads(pass: Pass) -> (targets: u8)
    ensures
        targets == reads_of(pass),
{
    match pass {
        Pass::Geometry => 0,
        Pass::Ssao => ALBEDO | POSITION | NORMAL,
        Pass::Shadow => 0,
        Pass::Composition => ALBEDO | POSITION | NORMAL | OCCLUSION | SHADOW_DEPTH,
    }
}

/// The targets that a pass writes.
pub fn pass_writes(pass: Pass) -> (targets: u8)
    ensures
        targets == writes_of(pass),
{
    match pass {
        Pass::Geometry => ALBEDO | POSITION | NORMAL | GEOMETRY_DEPTH,
        Pass::Ssao => OCCLUSION,
        Pass::Shadow => SHADOW_DEPTH,
        Pass::Composition => SURFACE,
    }
}

/// Whether the passes can run in the given order: whether each of them
/// finds written what it reads.
pub fn check_order(order: &[Pass]) -> (sound: bool)
    ensures
        sound == order_is_sound(order@),
{
    let mut written: u8 = 0;
    let mut i: usize = 0;
    while i < order.len()
        invariant
            i <= order.len(),
            written == written_by(order@, i as nat),
            forall|j: int|
                0 <= j < i ==> reads_of(#[trigger] order@[j]) & !written_by(order@, j as nat) == 0,
        decreases order.len() - i,
    {
        if pass_reads(order[i]) & !written != 0 {
            return false;
        }
        written = written | pass_writes(order[i]);
        i += 1;
    }
    true
}

/// The order of the passes of a frame.
pub open spec fn frame_order() -> Seq<Pass> {
    seq![Pass::Geometry, Pass::Ssao, Pass::Shadow, Pass::Composition]
}

/// The order in which the passes of a frame run does not let any pass read
/// a target before it is written.
pub proof fn lemma_frame_order_is_sound()
    ensures
        order_is_sound(frame_order()),
{
    let order = frame_order();
    reveal_with_fuel(written_by, 5);
    let geometry = writes_of(Pass::Geometry);
    let ssao = writes_of(Pass::Ssao);
    let shadow = writes_of(Pass::Shadow);
    assert(written_by(order, 0) == 0);
    assert(written_by(order, 1) == 0u8 | geometry);
    assert(written_by(order, 2) == (0u8 | geometry) | ssao);
    assert(written_by(order, 3) == ((0u8 | geometry) | ssao) | shadow);
    assert(0u8 & !0u8 == 0) by (bit_vector);
    assert((1u8 | 2u8 | 4u8) & !(0u8 | geometry) == 0) by (bit_vector)
        requires
            geometry == 1u8 | 2u8 | 4u8 | 8u8,
    ;
    assert(0u8 & !((0u8 | geometry) | ssao) == 0) by (bit_vector);
    assert((1u8 | 2u8 | 4u8 | 16u8 | 32u8) & !(((0u8 | geometry) | ssao) | shadow) == 0)
        by (bit_vector)
        requires
            geometry == 1u8 | 2u8 | 4u8 | 8u8,
            ssao == 16u8,
            shadow == 32u8,
    ;
    assert forall|i: int| 0 <= i < order.len() implies reads_of(#[trigger] order[i]) & !written_by(
        order,
        i as nat,
    ) == 0 by {
        if i == 0 {
        } else if i == 1 {
        } else if i == 2 {
        } else {
            assert(i == 3);
        }
    }
}

/// The passes of a frame, in the order in which they run.
pub fn frame_passes() -> (passes: Vec<Pass>)
    ensures
        passes@ == frame_order(),
        order_is_sound(passes@),
{
    proof {
        lemma_frame_order_is_sound();
    }
    let passes = vec![Pass::Geometry, Pass::Ssao, Pass::Shadow, Pass::Composition];
    assert(passes@ =~= frame_order());
    passes
}

/// A [`Renderer`] as a mathematical value.
pub struct RendererView {
    /// The size with which the surface was last configured, or is to be
    /// configured first.
    pub config: SurfaceSize,
    /// Whether the surface has been configured at least once.
    pub is_surface_ready: bool,
}

/// The state of the frame sequencer.
pub struct Renderer {
    config: SurfaceSize,
    is_surface_ready: bool,
}

impl View for Renderer {
    type V = RendererView;

    closed spec fn view(&self) -> RendererView {
        RendererView { config: self.config, is_surface_ready: self.is_surface_ready }
    }
}

/// A size that a surface can be configured with: neither side is zero.
pub open spec fn can_configure(size: SurfaceSize) -> bool {
    size.width > 0 && size.height > 0
}

/// The state after a resize to `new_size`.
pub open spec fn resized(state: RendererView, new_size: SurfaceSize) -> RendererView {
    if can_configure(new_size) {
        RendererView { config: new_size, is_surface_ready: true }
    } else {
        state
    }
}

/// The event that is pending after `event` was handled in `state`.
pub open spec fn next_event(state: RendererView, event: RendererEvent) -> RendererEvent {
    match event {
        RendererEvent::Render => if state.is_surface_ready {
            RendererEvent::Nothing
        } else {
            RendererEvent::Render
        },
        RendererEvent::Resize(_) => RendererEvent::Nothing,
        RendererEvent::Nothing => RendererEvent::Nothing,
    }
}

/// What is to be done for `event` in `state`.
pub open spec fn action_for(state: RendererView, event: RendererEvent) -> FrameAction {
    match event {
        RendererEvent::Render => if state.is_surface_ready {
            FrameAction::Draw
        } else {
            FrameAction::Idle
        },
        RendererEvent::Resize(size) => if can_configure(size) {
            FrameAction::Configure(size)
        } else {
            FrameAction::Idle
        },
        RendererEvent::Nothing => FrameAction::Idle,
    }
}

/// The state after `event` was handled in `state`.
pub open spec fn next_state(state: RendererView, event: RendererEvent) -> RendererView {
    match event {
        RendererEvent::Resize(size) => resized(state, size),
        _ => state,
    }
}

impl Renderer {
    /// A sequencer for a surface of the given size that has not been
    /// configured yet.
    pub fn new(size: SurfaceSize) -> (renderer: Self)
        ensures
            renderer@.config == size,
            !renderer@.is_surface_ready,
    {
        Renderer { config: size, is_surface_ready: false }
    }

    /// The size with which the surface was last configured.
    pub fn config(&self) -> (config: SurfaceSize)
        ensures
            config == self@.config,
    {
        self.config
    }

    /// Whether the surface has been configured at least once.
    pub fn is_surface_ready(&self) -> (ready: bool)
        ensures
            ready == self@.is_surface_ready,
    {
        self.is_surface_ready
    }

    /// Takes over a new window size and says whether the surface is to be
    /// configured with it. A size with a zero side is ignored: nothing
    /// changes and nothing is to be configured.
    pub fn resize(&mut self, new_size: SurfaceSize) -> (configure: bool)
        ensures
            configure == can_configure(new_size),
            final(self)@ == resized(old(self)@, new_size),
            !can_configure(new_size) ==> final(self)@ == old(self)@,
    {
        if new_size.width > 0 && new_size.height > 0 {
            self.config = new_size;
            self.is_surface_ready = true;
            true
        } else {
            false
        }
    }

    /// Handles the pending event. Returns the event that is pending
    /// afterwards and what the application has to do.
    ///
    /// A requested frame is drawn only once the surface has been
    /// configured; until then the request stays pending. A frame is drawn
    /// as a whole or not at all.
    pub fn run(&mut self, event: RendererEvent) -> (outcome: (RendererEvent, FrameAction))
        ensures
            final(self)@ == next_state(old(self)@, event),
            outcome.0 == next_event(old(self)@, event),
            outcome.1 == action_for(old(self)@, event),
    {
        match event {
            RendererEvent::Render => {
                if self.is_surface_ready {
                    (RendererEvent::Nothing, FrameAction::Draw)
                } else {
                    (RendererEvent::Render, FrameAction::Idle)
                }
            },
            RendererEvent::Resize(size) => {
                if self.resize(size) {
                    (RendererEvent::Nothing, FrameAction::Configure(size))
                } else {
                    (RendererEvent::Nothing, FrameAction::Idle)
                }
            },
            RendererEvent::Nothing => (RendererEvent::Nothing, FrameAction::Idle),
        }
    }
}

/// The time between the last two frames and the time of the last one, both
/// in nanoseconds.
#[derive(Clone, Copy, Debug, PartialEq, Eq, Structural)]
pub struct DeltaTimer {
    d: u64,
    last_render: u64,
}

impl DeltaTimer {
    pub closed spec fn duration(self) -> u64 {
        self.d
    }

    pub closed spec fn last_render(self) -> u64 {
        self.last_render
    }

    pub fn new(d: u64, last_render: u64) -> (timer: Self)
        ensures
            timer.duration() == d,
            timer.last_render() == last_render,
    {
        DeltaTimer { d, last_render }
    }

    /// Nanoseconds between the last two frames.
    pub fn get_duration(&self) -> (d: u64)
        ensures
            d == self.duration(),
    {
        self.d
    }

    /// Time of the last frame.
    pub fn get_last_render(&self) -> (last_render: u64)
        ensures
            last_render == self.last_render(),
    {
        self.last_render
    }

    /// The timer after a frame was drawn at `now`. A clock that went back
    /// gives a duration of zero.
    pub fn frame_drawn(&self, now: u64) -> (timer: Self)
        ensures
            timer.last_render() == now,
            timer.duration() == if now >= self.last_render() {
                now - self.last_render()
            } else {
                0
            },
    {
        let d = if now >= self.last_render {
            now - self.last_render
        } else {
            0
        };
        DeltaTimer { d, last_render: now }
    }
}

/// The end of a drawn frame: the timer for the next one, or `SurfaceLost`
/// exactly when the surface gave no frame to present.
pub fn complete_frame(acquired: bool, timer: &DeltaTimer, now: u64) -> (result: Result<
    DeltaTimer,
    RenderError,
>)
    ensures
        match result {
            Ok(next) => acquired && next.last_render() == now && next.duration() == if now
                >= timer.last_render() {
                now - timer.last_render()
            } else {
                0
            },
            Err(error) => !acquired && error == RenderError::SurfaceLost,
        },
{
    if acquired {
        Ok(timer.frame_drawn(now))
    } else {
        Err(RenderError::SurfaceLost)
    }
}

} // verus!
