use hass_light_sync::AggregatedColor;
use hass_light_sync::Config;
use hass_light_sync::ConfigError;
use hass_light_sync::FACTOR_SCALE;
use hass_light_sync::Frame;
use hass_light_sync::Pixel;
use hass_light_sync::SmoothedColor;
use hass_light_sync::StateEvent;
use hass_light_sync::aggregate;
use hass_light_sync::build_command;
use hass_light_sync::gate_update;
use hass_light_sync::smooth_channel;
use hass_light_sync::smooth_color;

fn px(r: u8, g: u8, b: u8) -> Pixel {
    Pixel { r, g, b }
}

fn uniform_frame(width: u32, height: u32, p: Pixel) -> Frame {
    let n = (width as usize) * (height as usize);
    Frame::from_pixels(width, height, vec![p; n]).unwrap()
}

#[test]
fn frame_rejects_geometry_mismatch() {
    assert!(Frame::from_pixels(2, 2, vec![px(0, 0, 0); 3]).is_none());
    assert!(Frame::from_pixels(2, 2, vec![px(0, 0, 0); 4]).is_some());
}

#[test]
fn aggregate_uniform_is_identity() {
    // Strides that divide the pixel count evenly; see
    // `aggregate_is_unclamped_when_stride_does_not_divide` for the others.
    for stride in [1u64, 2, 4, 8] {
        let frame = uniform_frame(4, 2, px(17, 130, 255));
        let size = (4 * 2) / stride;
        let c = aggregate(&frame, stride, size);
        assert_eq!((c.r, c.g, c.b), (17, 130, 255));
    }
}

#[test]
fn aggregate_stride_samples_one_of_two_colors() {
    // Alternating colors; a stride of 2 lands only on the even positions.
    let a = px(10, 20, 30);
    let b = px(200, 100, 50);
    let frame = Frame::from_pixels(2, 2, vec![a, b, a, b]).unwrap();
    let c = aggregate(&frame, 2, 2);
    assert_eq!((c.r, c.g, c.b), (10, 20, 30));
}

#[test]
fn aggregate_truncates_average() {
    let frame = Frame::from_pixels(2, 1, vec![px(10, 0, 255), px(11, 1, 254)]).unwrap();
    let c = aggregate(&frame, 1, 2);
    assert_eq!((c.r, c.g, c.b), (10, 0, 254));
}

#[test]
fn aggregate_is_unclamped_when_stride_does_not_divide() {
    // Three pixels at stride 2: positions 0 and 2 are sampled but the fixed
    // sample size is 3 / 2 == 1, so the average exceeds 255.
    let frame = Frame::from_pixels(3, 1, vec![px(255, 0, 0); 3]).unwrap();
    let c = aggregate(&frame, 2, 1);
    assert_eq!((c.r, c.g, c.b), (510, 0, 0));
}

#[test]
fn smooth_factor_zero_tracks_aggregate() {
    let prev = SmoothedColor { r: 40, g: 50, b: 60 };
    let agg = AggregatedColor { r: 200, g: 10, b: 255 };
    let c = smooth_color(&prev, &agg, 0);
    assert_eq!((c.r, c.g, c.b), (200, 10, 255));
}

#[test]
fn smooth_factor_one_freezes_state() {
    let prev = SmoothedColor { r: 40, g: 50, b: 60 };
    let agg = AggregatedColor { r: 200, g: 10, b: 255 };
    let c = smooth_color(&prev, &agg, FACTOR_SCALE);
    assert_eq!((c.r, c.g, c.b), (40, 50, 60));
}

#[test]
fn smooth_halfway_blends_exactly() {
    assert_eq!(smooth_channel(0, 100, 500), 50);
    assert_eq!(smooth_channel(50, 100, 500), 75);
    assert_eq!(smooth_channel(100, 0, 750), 75);
}

#[test]
fn smooth_converges_monotonically_toward_constant_aggregate() {
    let target = AggregatedColor { r: 200, g: 100, b: 50 };
    let mut s = SmoothedColor { r: 0, g: 0, b: 0 };
    let mut prev = s;
    for _ in 0..64 {
        s = smooth_color(&s, &target, 600);
        assert!(s.r >= prev.r && s.g >= prev.g && s.b >= prev.b);
        assert!(s.r <= target.r && s.g <= target.g && s.b <= target.b);
        prev = s;
    }
    // The truncating blend settles within a couple of counts of the target.
    assert_eq!((s.r, s.g, s.b), (198, 98, 48));
}

#[test]
fn smooth_truncation_can_stall_below_target() {
    // With heavy damping the truncating blend stops one short of the target.
    let mut c: u64 = 0;
    for _ in 0..10_000 {
        c = smooth_channel(c, 1000, 999);
    }
    assert_eq!(c, 1);
}

#[test]
fn gate_arms_on_trigger_entity_on() {
    let trigger = String::from("binary_sensor.desk");
    let ev = StateEvent {
        entity_id: String::from("binary_sensor.desk"),
        new_state: Some(String::from("on")),
    };
    assert_eq!(gate_update(&ev, &trigger), Some(true));
}

#[test]
fn gate_disarms_on_other_states_or_absent_state() {
    let trigger = String::from("binary_sensor.desk");
    let off = StateEvent {
        entity_id: String::from("binary_sensor.desk"),
        new_state: Some(String::from("off")),
    };
    let absent = StateEvent { entity_id: String::from("binary_sensor.desk"), new_state: None };
    assert_eq!(gate_update(&off, &trigger), Some(false));
    assert_eq!(gate_update(&absent, &trigger), Some(false));
}

#[test]
fn gate_matches_state_string_exactly() {
    let trigger = String::from("binary_sensor.desk");
    for state in ["ON", "On", "on ", ""] {
        let ev = StateEvent {
            entity_id: String::from("binary_sensor.desk"),
            new_state: Some(String::from(state)),
        };
        assert_eq!(gate_update(&ev, &trigger), Some(false));
    }
}

#[test]
fn gate_ignores_other_entities() {
    let trigger = String::from("binary_sensor.desk");
    let ev = StateEvent {
        entity_id: String::from("light.kitchen"),
        new_state: Some(String::from("on")),
    };
    assert_eq!(gate_update(&ev, &trigger), None);
}

#[test]
fn command_carries_color_and_max_channel_brightness() {
    let color = SmoothedColor { r: 12, g: 240, b: 99 };
    let cmd = build_command(&String::from("light.strip"), &color, 350);
    assert_eq!(cmd.entity_id, "light.strip");
    assert_eq!((cmd.red, cmd.green, cmd.blue), (12, 240, 99));
    assert_eq!(cmd.brightness, 240);
    assert_eq!(cmd.transition_ms, 350);
}

#[test]
fn validate_rejects_zero_stride() {
    let r = Config::validate(
        String::from("light.strip"),
        String::from("binary_sensor.desk"),
        300,
        100,
        0,
        500,
        1920,
        1080,
    );
    assert_eq!(r.err(), Some(ConfigError::ZeroStride));
}

#[test]
fn validate_rejects_stride_beyond_pixel_count() {
    let r = Config::validate(
        String::from("light.strip"),
        String::from("binary_sensor.desk"),
        300,
        100,
        5,
        500,
        2,
        2,
    );
    assert_eq!(r.err(), Some(ConfigError::EmptySample));
}

#[test]
fn validate_rejects_oversized_frame() {
    let r = Config::validate(
        String::from("light.strip"),
        String::from("binary_sensor.desk"),
        300,
        100,
        1,
        500,
        300_000_000,
        300_000_000,
    );
    assert_eq!(r.err(), Some(ConfigError::FrameTooLarge));
}

#[test]
fn validate_accepts_and_derives_sample_size() {
    let cfg = Config::validate(
        String::from("light.strip"),
        String::from("binary_sensor.desk"),
        300,
        100,
        3,
        500,
        1920,
        1080,
    )
    .unwrap();
    assert_eq!(cfg.size, (1920 * 1080) / 3);
    assert_eq!(cfg.skip_pixels, 3);
    assert_eq!(cfg.light_entity, "light.strip");
    assert_eq!(cfg.trigger_entity, "binary_sensor.desk");
}
