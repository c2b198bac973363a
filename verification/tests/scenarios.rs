use hass_light_sync::CaptureOutcome;
use hass_light_sync::Config;
use hass_light_sync::CycleAction;
use hass_light_sync::Frame;
use hass_light_sync::LoopState;
use hass_light_sync::Pixel;
use hass_light_sync::run_cycle;

fn config(skip_pixels: u64, smoothing_factor: u64, width: u32, height: u32) -> Config {
    Config::validate(
        String::from("light.strip"),
        String::from("binary_sensor.desk"),
        300,
        100,
        skip_pixels,
        smoothing_factor,
        width,
        height,
    )
    .unwrap()
}

fn uniform_frame(width: u32, height: u32, p: Pixel) -> Frame {
    let n = (width as usize) * (height as usize);
    Frame::from_pixels(width, height, vec![p; n]).unwrap()
}

#[test]
fn disarmed_cycle_sleeps_and_touches_nothing() {
    let cfg = config(1, 0, 2, 2);
    let mut state = LoopState::init();
    let before = state;
    let action = run_cycle(&mut state, &cfg, false, None);
    assert!(matches!(action, CycleAction::IdleSleep));
    assert_eq!(state, before);
}

#[test]
fn failed_capture_cools_down_and_touches_nothing() {
    let cfg = config(1, 500, 2, 2);
    let mut state = LoopState::init();
    let frame = uniform_frame(2, 2, Pixel { r: 200, g: 100, b: 50 });
    run_cycle(&mut state, &cfg, true, Some(CaptureOutcome::Captured(frame)));
    let before = state;
    let action = run_cycle(&mut state, &cfg, true, Some(CaptureOutcome::Failed));
    assert!(matches!(action, CycleAction::Cooldown));
    assert_eq!(state, before);
}

#[test]
fn armed_cycle_emits_exactly_the_uniform_color_undamped() {
    // stride 1, a 2x2 all-red frame, factor 0: the command carries the raw
    // average, with brightness at the largest channel.
    let cfg = config(1, 0, 2, 2);
    let mut state = LoopState::init();
    let frame = uniform_frame(2, 2, Pixel { r: 255, g: 0, b: 0 });
    let action = run_cycle(&mut state, &cfg, true, Some(CaptureOutcome::Captured(frame)));
    match action {
        CycleAction::Emit(cmd) => {
            assert_eq!((cmd.red, cmd.green, cmd.blue), (255, 0, 0));
            assert_eq!(cmd.brightness, 255);
            assert_eq!(cmd.entity_id, "light.strip");
            assert_eq!(cmd.transition_ms, 300);
        }
        other => panic!("expected an emitted command, got {:?}", other),
    }
}

#[test]
fn first_armed_cycle_after_arming_is_damped() {
    // The shared gate flips false -> true mid-run: the first armed cycle blends the
    // frame's average with the carried black state instead of showing the
    // raw average.
    let cfg = config(1, 500, 2, 2);
    let mut state = LoopState::init();

    let idle = run_cycle(&mut state, &cfg, false, None);
    assert!(matches!(idle, CycleAction::IdleSleep));

    let frame = uniform_frame(2, 2, Pixel { r: 200, g: 100, b: 50 });
    let action = run_cycle(&mut state, &cfg, true, Some(CaptureOutcome::Captured(frame)));
    match action {
        CycleAction::Emit(cmd) => {
            assert_eq!((cmd.red, cmd.green, cmd.blue), (100, 50, 25));
            assert_eq!(cmd.brightness, 100);
        }
        other => panic!("expected an emitted command, got {:?}", other),
    }
}

#[test]
fn smoothed_state_persists_across_disarmed_stretch() {
    let cfg = config(1, 500, 2, 2);
    let mut state = LoopState::init();
    let frame = uniform_frame(2, 2, Pixel { r: 200, g: 100, b: 50 });
    run_cycle(&mut state, &cfg, true, Some(CaptureOutcome::Captured(frame)));
    let carried = state;

    let idle = run_cycle(&mut state, &cfg, false, None);
    assert!(matches!(idle, CycleAction::IdleSleep));
    assert_eq!(state, carried);

    // Re-armed: blending continues from the carried state, not from black.
    let frame = uniform_frame(2, 2, Pixel { r: 200, g: 100, b: 50 });
    let action = run_cycle(&mut state, &cfg, true, Some(CaptureOutcome::Captured(frame)));
    match action {
        CycleAction::Emit(cmd) => {
            assert_eq!((cmd.red, cmd.green, cmd.blue), (150, 75, 37));
        }
        other => panic!("expected an emitted command, got {:?}", other),
    }
}
