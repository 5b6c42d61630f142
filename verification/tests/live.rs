use std::cell::RefCell;

use offline_translator::live::{
    present_size, request_acquire, set_camera_orientation_degrees, set_camera_texture,
    set_live_active, set_live_frame_tick, set_live_languages, set_live_pipeline, set_live_viewport,
    set_present_texture, LiveGpuState, LiveOcr, LivePipeline,
};

#[test]
fn angles_become_clockwise_quarter_turns() {
    let mut state = LiveGpuState::new();
    assert_eq!(state.rot_quadrant, 1);
    for (degrees, quadrant) in [(0, 0), (90, 1), (180, 2), (270, 3), (360, 0), (-90, 3), (450, 1), (-360, 0), (89, 0), (-1, 3)] {
        set_camera_orientation_degrees(&mut state, degrees);
        assert_eq!(state.rot_quadrant, quadrant, "{degrees}");
    }
    set_camera_orientation_degrees(&mut state, i32::MIN);
    assert_eq!(state.rot_quadrant, 2);
}

#[test]
fn nothing_is_presented_before_the_first_composite() {
    let mut state = LiveGpuState::new();
    assert_eq!(present_size(&state), (0, 0));
    set_camera_texture(&mut state, 7, 1920, 1080);
    assert_eq!(present_size(&state), (0, 0));
    set_present_texture(&mut state, 3, 720, 1280);
    assert_eq!(present_size(&state), (720, 1280));
    assert_eq!((state.camera_tex, state.camera_w, state.camera_h), (7, 1920, 1080));
}

#[derive(Default)]
struct Recorder {
    calls: RefCell<Vec<String>>,
}

impl LivePipeline for Recorder {
    fn reset(&self) {
        self.calls.borrow_mut().push("reset".to_string());
    }
    fn set_languages(&self, from: &str, to: &str) {
        self.calls.borrow_mut().push(format!("languages {from}->{to}"));
    }
    fn set_active(&self, active: bool) {
        self.calls.borrow_mut().push(format!("active {active}"));
    }
}

#[test]
fn controls_reach_the_pipeline_once_it_exists() {
    let mut live: LiveOcr<Recorder, u8> = LiveOcr::new();
    request_acquire(&mut live);
    set_live_languages(&mut live, "en", "nl");
    set_live_viewport(640, 480);
    set_live_pipeline(&mut live, Recorder::default());
    request_acquire(&mut live);
    set_live_languages(&mut live, "de", "fr");
    set_live_active(&mut live, false);
    let calls = live.pipeline.as_ref().unwrap().calls.borrow().clone();
    assert_eq!(calls, vec!["reset", "languages de->fr", "reset", "active false"]);
}

#[test]
fn the_first_tick_and_pipeline_stay() {
    let mut live: LiveOcr<u8, u8> = LiveOcr::new();
    set_live_frame_tick(&mut live, 1);
    set_live_frame_tick(&mut live, 2);
    assert_eq!(live.frame_tick, Some(1));
    set_live_pipeline(&mut live, 5);
    set_live_pipeline(&mut live, 6);
    assert_eq!(live.pipeline, Some(5));
}
