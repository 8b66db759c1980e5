//! Volume clamping, session records and device descriptions.

use clearcomms::hardware::DeviceInfo;
use clearcomms::run;
use clearcomms::session::clamp_volume;
use clearcomms::session::AudioSession;
use clearcomms::session::VOLUME_SCALE;

#[test]
fn clamping_pulls_out_of_range_volumes_to_the_bounds() {
    assert_eq!(clamp_volume(-1), 0);
    assert_eq!(clamp_volume(i64::MIN), 0);
    assert_eq!(clamp_volume(0), 0);
    assert_eq!(clamp_volume(250), 250);
    assert_eq!(clamp_volume(VOLUME_SCALE as i64), VOLUME_SCALE);
    assert_eq!(clamp_volume(VOLUME_SCALE as i64 + 1), VOLUME_SCALE);
    assert_eq!(clamp_volume(i64::MAX), VOLUME_SCALE);
}

#[test]
fn session_records_clone_exactly() {
    let s = AudioSession {
        session_id: "id-1".to_string(),
        display_name: "App".to_string(),
        process_id: 12,
        process_name: "app.exe".to_string(),
        volume: 7500,
        is_muted: true,
    };
    let c = s.clone();
    assert_eq!(c.session_id, s.session_id);
    assert_eq!(c.display_name, s.display_name);
    assert_eq!(c.process_id, s.process_id);
    assert_eq!(c.process_name, s.process_name);
    assert_eq!(c.volume, s.volume);
    assert_eq!(c.is_muted, s.is_muted);
}

#[test]
fn device_info_displays_name_axes_and_buttons() {
    let d = DeviceInfo {
        id: 1,
        name: "Stick".to_string(),
        num_axes: 3,
        num_buttons: 12,
    };
    assert_eq!(d.to_display_string(), "Stick (3 axes, 12 buttons)");
    let d0 = DeviceInfo {
        id: 0,
        name: "".to_string(),
        num_axes: 0,
        num_buttons: 0,
    };
    assert_eq!(d0.to_display_string(), " (0 axes, 0 buttons)");
}

#[test]
fn run_is_callable() {
    run();
}
