use vstd::prelude::*;

verus! {

/// What the render thread shares with the camera filter and the scene-graph
/// node: the sensor's mount angle, the camera texture, and the texture the
/// composite was drawn into.
#[derive(Clone, Copy, Debug, PartialEq, Eq, Structural)]
pub struct LiveGpuState {
    /// Clockwise quarter turns (0..=3) that bring the sensor upright.
    pub rot_quadrant: i32,
    pub camera_tex: u32,
    pub camera_w: u32,
    pub camera_h: u32,
    pub present_tex: u32,
    pub present_w: u32,
    pub present_h: u32,
}

/// The quarter turns an angle in degrees amounts to, counted clockwise from
/// upright; any angle, negative ones included, is first brought into
/// `0..360`.
pub open spec fn quadrant_of(degrees: int) -> int {
    (degrees % 360) / 90
}

impl LiveGpuState {
    /// A landscape sensor on a portrait screen until the camera reports its
    /// mount angle; nothing to present yet.
    pub fn new() -> (r: Self)
        ensures
            r.rot_quadrant == 1,
            r.camera_tex == 0 && r.camera_w == 0 && r.camera_h == 0,
            r.present_tex == 0 && r.present_w == 0 && r.present_h == 0,
    {
        LiveGpuState {
            rot_quadrant: 1,
            camera_tex: 0,
            camera_w: 0,
            camera_h: 0,
            present_tex: 0,
            present_w: 0,
            present_h: 0,
        }
    }
}

pub fn set_camera_orientation_degrees(state: &mut LiveGpuState, degrees: i32)
    ensures
        *final(state) == (LiveGpuState { rot_quadrant: quadrant_of(degrees as int) as i32, ..*old(state) }),
        0 <= final(state).rot_quadrant <= 3,
{
    let reduced: i32 = if degrees >= 0 {
        degrees % 360
    } else {
        let r = (-(degrees as i64)) % 360;
        if r == 0 {
            0
        } else {
            (360 - r) as i32
        }
    };
    assert(reduced == (degrees as int) % 360) by (nonlinear_arith)
        requires
            degrees >= 0 ==> reduced == degrees % 360,
            degrees < 0 ==> reduced == (if (-(degrees as int)) % 360 == 0 {
                0
            } else {
                360 - (-(degrees as int)) % 360
            }),
    ;
    state.rot_quadrant = reduced / 90;
}

/// The camera frame's texture and sensor size, as the video filter hands
/// them over for each frame.
pub fn set_camera_texture(state: &mut LiveGpuState, id: u32, w: u32, h: u32)
    ensures
        *final(state) == (LiveGpuState { camera_tex: id, camera_w: w, camera_h: h, ..*old(state) }),
{
    state.camera_tex = id;
    state.camera_w = w;
    state.camera_h = h;
}

/// The composite's texture and size, published once it has been drawn.
pub fn set_present_texture(state: &mut LiveGpuState, id: u32, w: u32, h: u32)
    ensures
        *final(state) == (LiveGpuState { present_tex: id, present_w: w, present_h: h, ..*old(state) }),
{
    state.present_tex = id;
    state.present_w = w;
    state.present_h = h;
}

/// The composite's size, `(0, 0)` before the first one.
pub fn present_size(state: &LiveGpuState) -> (r: (u32, u32))
    ensures
        r == (state.present_w, state.present_h),
{
    (state.present_w, state.present_h)
}

/// The live pipeline the camera view drives.
pub trait LivePipeline {
    /// Drops the tracked lock, overlays and session state, so the next frame
    /// detects from scratch.
    fn reset(&self);

    fn set_languages(&self, from: &str, to: &str);

    /// Detect and translate (`true`), or only show the camera (`false`).
    fn set_active(&self, active: bool);
}

/// A call the library made on the live pipeline.
pub enum PipelineCall {
    Reset,
    SetLanguages(Seq<char>, Seq<char>),
    SetActive(bool),
}

/// The live pipeline once it exists, and the callback that repaints the live
/// view; each is set once and kept. `calls` records, in order, every call
/// the library made on the pipeline.
pub struct LiveOcr<P, T> {
    pub pipeline: Option<P>,
    pub frame_tick: Option<T>,
    pub calls: Ghost<Seq<PipelineCall>>,
}

impl<P, T> LiveOcr<P, T> {
    /// The calls made on the pipeline so far, oldest first.
    pub open spec fn pipeline_calls(&self) -> Seq<PipelineCall> {
        self.calls@
    }

    pub fn new() -> (r: Self)
        ensures
            r.pipeline is None,
            r.frame_tick is None,
            r.pipeline_calls() == Seq::<PipelineCall>::empty(),
    {
        LiveOcr { pipeline: None, frame_tick: None, calls: Ghost(Seq::empty()) }
    }
}

/// Keeps the first repaint callback it is given.
pub fn set_live_frame_tick<P, T>(live: &mut LiveOcr<P, T>, tick: T)
    ensures
        final(live).pipeline == old(live).pipeline,
        final(live).pipeline_calls() == old(live).pipeline_calls(),
        old(live).frame_tick is None ==> final(live).frame_tick == Some(tick),
        old(live).frame_tick is Some ==> final(live).frame_tick == old(live).frame_tick,
{
    if live.frame_tick.is_none() {
        live.frame_tick = Some(tick);
    }
}

/// Keeps the first pipeline it is given.
pub fn set_live_pipeline<P, T>(live: &mut LiveOcr<P, T>, pipeline: P)
    ensures
        final(live).frame_tick == old(live).frame_tick,
        final(live).pipeline_calls() == old(live).pipeline_calls(),
        old(live).pipeline is None ==> final(live).pipeline == Some(pipeline),
        old(live).pipeline is Some ==> final(live).pipeline == old(live).pipeline,
{
    if live.pipeline.is_none() {
        live.pipeline = Some(pipeline);
    }
}

/// The canonical frame is sized from the render target, so the viewport the
/// view reports changes nothing.
pub fn set_live_viewport(_width: u32, _height: u32) {
}

/// The user tapped the preview: detect afresh on the next frame.
pub fn request_acquire<P: LivePipeline, T>(live: &mut LiveOcr<P, T>)
    ensures
        final(live).pipeline == old(live).pipeline,
        final(live).frame_tick == old(live).frame_tick,
        old(live).pipeline is None ==> final(live).pipeline_calls() == old(live).pipeline_calls(),
        old(live).pipeline is Some ==> final(live).pipeline_calls() == old(live).pipeline_calls().push(
            PipelineCall::Reset,
        ),
{
    match &live.pipeline {
        Some(pipeline) => {
            pipeline.reset();
            proof {
                live.calls@ = live.calls@.push(PipelineCall::Reset);
            }
        },
        None => {},
    }
}

/// Points the pipeline at the selected languages and starts over, so the
/// change shows on the next acquire.
pub fn set_live_languages<P: LivePipeline, T>(live: &mut LiveOcr<P, T>, from: &str, to: &str)
    ensures
        final(live).pipeline == old(live).pipeline,
        final(live).frame_tick == old(live).frame_tick,
        old(live).pipeline is None ==> final(live).pipeline_calls() == old(live).pipeline_calls(),
        old(live).pipeline is Some ==> final(live).pipeline_calls() == old(live).pipeline_calls().push(
            PipelineCall::SetLanguages(from@, to@),
        ).push(PipelineCall::Reset),
{
    match &live.pipeline {
        Some(pipeline) => {
            pipeline.set_languages(from, to);
            pipeline.reset();
            proof {
                live.calls@ = live.calls@.push(PipelineCall::SetLanguages(from@, to@)).push(
                    PipelineCall::Reset,
                );
            }
        },
        None => {},
    }
}

/// Turns detection on or off.
pub fn set_live_active<P: LivePipeline, T>(live: &mut LiveOcr<P, T>, active: bool)
    ensures
        final(live).pipeline == old(live).pipeline,
        final(live).frame_tick == old(live).frame_tick,
        old(live).pipeline is None ==> final(live).pipeline_calls() == old(live).pipeline_calls(),
        old(live).pipeline is Some ==> final(live).pipeline_calls() == old(live).pipeline_calls().push(
            PipelineCall::SetActive(active),
        ),
{
    match &live.pipeline {
        Some(pipeline) => {
            pipeline.set_active(active);
            proof {
                live.calls@ = live.calls@.push(PipelineCall::SetActive(active));
            }
        },
        None => {},
    }
}

} // verus!
