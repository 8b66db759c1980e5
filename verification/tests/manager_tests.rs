//! Behaviour of the audio manager: enumeration, cache refresh and
//! pruning, command fan-out, device-change detection and cleanup.

use clearcomms::manager::AudioError;
use clearcomms::manager::AudioManager;
use clearcomms::mixer::DeviceScan;
use clearcomms::mixer::LiveSession;
use clearcomms::mixer::RawControl;
use clearcomms::mixer::RawSession;
use clearcomms::session::VOLUME_SCALE;

fn raw(pid: u32, id: &str, volume: i64, muted: bool) -> RawSession {
    RawSession {
        process_id: pid,
        instance_id: Some(id.to_string()),
        display_name: Some(format!("App {pid}")),
        image_path: None,
        control: Some(RawControl { volume, is_muted: muted }),
    }
}

fn live(pid: u32, id: &str, volume: u32, muted: bool) -> LiveSession {
    LiveSession {
        session_id: id.to_string(),
        process_id: pid,
        volume,
        is_muted: muted,
        has_control: true,
    }
}

#[test]
fn enumeration_excludes_system_sessions() {
    let mut mgr = AudioManager::new();
    let scan = vec![DeviceScan::Sessions(vec![
        raw(0, "sys", 9000, false),
        raw(31, "app-1", 5000, false),
        RawSession {
            process_id: 0,
            instance_id: None,
            display_name: None,
            image_path: None,
            control: Some(RawControl { volume: 1000, is_muted: true }),
        },
    ])];
    let sessions = mgr.enumerate_sessions(&scan);
    assert_eq!(sessions.len(), 1);
    assert!(sessions.iter().all(|s| s.process_id != 0));
    assert!(mgr.cached_sessions().iter().all(|s| s.process_id != 0));
}

#[test]
fn enumeration_skips_sessions_without_volume_interface() {
    let mut mgr = AudioManager::new();
    let mut no_control = raw(9, "mute-only", 0, false);
    no_control.control = None;
    let scan = vec![DeviceScan::Sessions(vec![no_control, raw(9, "ok", 2500, true)])];
    let sessions = mgr.enumerate_sessions(&scan);
    assert_eq!(sessions.len(), 1);
    assert_eq!(sessions[0].session_id, "ok");
    assert_eq!(sessions[0].volume, 2500);
    assert!(sessions[0].is_muted);
}

#[test]
fn enumeration_synthesises_deterministic_fallbacks() {
    let mut mgr = AudioManager::new();
    let anonymous = RawSession {
        process_id: 77,
        instance_id: None,
        display_name: None,
        image_path: None,
        control: Some(RawControl { volume: 123456, is_muted: false }),
    };
    // The skipped system session still advances the running index.
    let scan = vec![
        DeviceScan::Sessions(vec![raw(0, "sys", 0, false)]),
        DeviceScan::Sessions(vec![anonymous]),
    ];
    let sessions = mgr.enumerate_sessions(&scan);
    assert_eq!(sessions.len(), 1);
    assert_eq!(sessions[0].session_id, "session_1");
    assert_eq!(sessions[0].display_name, "Process 77");
    assert_eq!(sessions[0].process_name, "Process 77");
    // Out-of-range raw volume is clamped on ingest.
    assert_eq!(sessions[0].volume, VOLUME_SCALE);
}

#[test]
fn enumeration_resolves_process_names_from_image_paths() {
    let mut mgr = AudioManager::new();
    let mut s = raw(55, "d-1", 100, false);
    s.image_path = Some("C:\\Program Files\\Discord\\Discord.exe".to_string());
    let scan = vec![DeviceScan::Sessions(vec![s])];
    let sessions = mgr.enumerate_sessions(&scan);
    assert_eq!(sessions[0].process_name, "Discord.exe");
}

#[test]
fn failed_device_is_skipped_without_error() {
    let mut mgr = AudioManager::new();
    let scan = vec![
        DeviceScan::Sessions(vec![raw(1, "a", 100, false)]),
        DeviceScan::Unavailable,
        DeviceScan::Sessions(vec![raw(2, "b", 200, false), raw(3, "c", 300, false)]),
    ];
    let sessions = mgr.enumerate_sessions(&scan);
    let ids: Vec<&str> = sessions.iter().map(|s| s.session_id.as_str()).collect();
    assert_eq!(ids, ["a", "b", "c"]);
}

#[test]
fn cache_reflects_latest_pass_only() {
    let mut mgr = AudioManager::new();
    let first = vec![DeviceScan::Sessions(vec![
        raw(1, "a", 100, false),
        raw(2, "b", 200, false),
    ])];
    mgr.enumerate_sessions(&first);
    assert_eq!(mgr.cache_len(), 2);

    let second = vec![DeviceScan::Sessions(vec![raw(2, "b", 250, true)])];
    let sessions = mgr.enumerate_sessions(&second);
    let cached = mgr.cached_sessions();
    assert_eq!(cached.len(), sessions.len());
    assert_eq!(cached.len(), 1);
    assert_eq!(cached[0].session_id, "b");
    assert_eq!(cached[0].volume, 250);
    assert!(cached[0].is_muted);
}

#[test]
fn duplicate_identifiers_overwrite_in_place() {
    let mut mgr = AudioManager::new();
    let scan = vec![DeviceScan::Sessions(vec![
        raw(1, "dup", 100, false),
        raw(1, "other", 150, false),
        raw(1, "dup", 900, true),
    ])];
    let sessions = mgr.enumerate_sessions(&scan);
    // The returned list reports every observation; the cache keeps one
    // entry per identifier, holding the last observation.
    assert_eq!(sessions.len(), 3);
    let cached = mgr.cached_sessions();
    assert_eq!(cached.len(), 2);
    assert_eq!(cached[0].session_id, "dup");
    assert_eq!(cached[0].volume, 900);
    assert!(cached[0].is_muted);
    assert_eq!(cached[1].session_id, "other");
}

#[test]
fn cache_is_pruned_to_half_the_cap() {
    let mut mgr = AudioManager::with_cap(4);
    let many: Vec<RawSession> =
        (0..10).map(|i| raw(100 + i, &format!("s{i}"), 500, false)).collect();
    let scan = vec![DeviceScan::Sessions(many)];
    let sessions = mgr.enumerate_sessions(&scan);
    assert_eq!(sessions.len(), 10);
    // Over the cap of 4, the oldest entries are dropped until the newest
    // half of the cap remains.
    assert_eq!(mgr.cache_len(), 2);
    let cached = mgr.cached_sessions();
    assert_eq!(cached[0].session_id, "s8");
    assert_eq!(cached[1].session_id, "s9");
}

#[test]
fn cache_never_exceeds_cap() {
    for n in [0usize, 1, 4, 5, 9, 20] {
        let mut mgr = AudioManager::with_cap(4);
        let many: Vec<RawSession> =
            (0..n).map(|i| raw(1 + i as u32, &format!("s{i}"), 100, false)).collect();
        mgr.enumerate_sessions(&vec![DeviceScan::Sessions(many)]);
        assert!(mgr.cache_len() <= 4);
    }
}

#[test]
fn set_volume_clamps_before_applying_and_caching() {
    let mut mgr = AudioManager::new();
    let scan = vec![DeviceScan::Sessions(vec![raw(7, "a", 5000, false)])];
    mgr.enumerate_sessions(&scan);

    let mut live_sessions = vec![live(7, "a", 5000, false)];
    mgr.set_session_volume("a", 123456, &mut live_sessions).unwrap();
    assert_eq!(live_sessions[0].volume, VOLUME_SCALE);
    assert_eq!(mgr.cached_sessions()[0].volume, VOLUME_SCALE);

    mgr.set_session_volume("a", -50, &mut live_sessions).unwrap();
    assert_eq!(live_sessions[0].volume, 0);
    assert_eq!(mgr.cached_sessions()[0].volume, 0);
}

#[test]
fn set_volume_on_unknown_session_fails_and_changes_nothing() {
    let mut mgr = AudioManager::new();
    let scan = vec![DeviceScan::Sessions(vec![raw(7, "a", 5000, false)])];
    mgr.enumerate_sessions(&scan);
    let before = mgr.cached_sessions();

    let mut live_sessions = vec![live(7, "a", 5000, false)];
    let result = mgr.set_session_volume("nope", 100, &mut live_sessions);
    let err = match result {
        Err(e) => e,
        Ok(()) => panic!("expected an error for an unknown session id"),
    };
    assert!(matches!(&err, AudioError::SessionNotFound(id) if id == "nope"));
    assert_eq!(err.message(), "Session not found: nope");

    let after = mgr.cached_sessions();
    assert_eq!(after.len(), before.len());
    assert_eq!(after[0].volume, before[0].volume);
    assert_eq!(live_sessions[0].volume, 5000);
}

#[test]
fn set_volume_without_live_match_reports_no_live_sessions() {
    let mut mgr = AudioManager::new();
    let scan = vec![DeviceScan::Sessions(vec![raw(7, "a", 5000, false)])];
    mgr.enumerate_sessions(&scan);

    // The process died between enumeration and the command.
    let mut live_sessions = vec![live(8, "other", 100, false)];
    let result = mgr.set_session_volume("a", 100, &mut live_sessions);
    let err = match result {
        Err(e) => e,
        Ok(()) => panic!("expected an error when no live session matches"),
    };
    assert!(matches!(err, AudioError::NoLiveSessions(7)));
    assert_eq!(err.message(), "No live sessions for process 7");
    // The cache entry keeps its old volume.
    assert_eq!(mgr.cached_sessions()[0].volume, 5000);
}

#[test]
fn mute_fans_out_to_every_session_of_the_process() {
    let mut mgr = AudioManager::new();
    // One process owns a session on each of two devices.
    let scan = vec![
        DeviceScan::Sessions(vec![raw(4242, "session-on-device-A", 5000, false)]),
        DeviceScan::Sessions(vec![raw(4242, "session-on-device-B", 7000, false)]),
    ];
    mgr.enumerate_sessions(&scan);

    let mut live_sessions = vec![
        live(4242, "session-on-device-A", 5000, false),
        live(4242, "session-on-device-B", 7000, false),
        live(9, "unrelated", 1000, false),
    ];
    mgr.set_session_mute("session-on-device-A", true, &mut live_sessions).unwrap();

    assert!(live_sessions[0].is_muted);
    assert!(live_sessions[1].is_muted);
    assert!(!live_sessions[2].is_muted);

    // Only the requested session's cache entry reflects the change until
    // the next enumeration pass.
    let cached = mgr.cached_sessions();
    assert!(cached.iter().any(|s| s.session_id == "session-on-device-A" && s.is_muted));
    assert!(cached.iter().any(|s| s.session_id == "session-on-device-B" && !s.is_muted));
}

#[test]
fn volume_fans_out_but_skips_sessions_without_control() {
    let mut mgr = AudioManager::new();
    let scan = vec![DeviceScan::Sessions(vec![raw(4242, "a", 5000, false)])];
    mgr.enumerate_sessions(&scan);

    let mut untouchable = live(4242, "b", 7000, false);
    untouchable.has_control = false;
    let mut live_sessions = vec![live(4242, "a", 5000, false), untouchable];
    mgr.set_session_volume("a", 1234, &mut live_sessions).unwrap();
    assert_eq!(live_sessions[0].volume, 1234);
    assert_eq!(live_sessions[1].volume, 7000);
}

#[test]
fn device_change_is_reported_exactly_once() {
    let mut mgr = AudioManager::new();
    mgr.initialize(Some("dev-1".to_string()));
    assert!(!mgr.check_device_changed("dev-1"));
    assert!(!mgr.check_device_changed("dev-1"));
    assert!(mgr.check_device_changed("dev-2"));
    assert!(!mgr.check_device_changed("dev-2"));
}

#[test]
fn first_device_check_without_initialization_reports_change() {
    let mut mgr = AudioManager::new();
    assert!(mgr.check_device_changed("dev-1"));
    assert!(!mgr.check_device_changed("dev-1"));
}

#[test]
fn cleanup_is_idempotent_and_empties_the_cache() {
    let mut mgr = AudioManager::new();
    let scan = vec![DeviceScan::Sessions(vec![raw(1, "a", 100, false)])];
    mgr.enumerate_sessions(&scan);
    mgr.initialize(Some("dev-1".to_string()));

    mgr.cleanup();
    assert_eq!(mgr.cache_len(), 0);
    mgr.cleanup();
    assert_eq!(mgr.cache_len(), 0);
    // The stored device identity was reset too.
    assert!(mgr.check_device_changed("dev-1"));
}

#[test]
fn cleanup_resets_the_pass_counter() {
    let mut mgr = AudioManager::new();
    assert_eq!(mgr.enumeration_passes(), 0);
    mgr.enumerate_sessions(&vec![DeviceScan::Unavailable]);
    mgr.enumerate_sessions(&Vec::new());
    assert_eq!(mgr.enumeration_passes(), 2);
    mgr.cleanup();
    assert_eq!(mgr.enumeration_passes(), 0);
}

#[test]
fn empty_scan_empties_the_cache() {
    let mut mgr = AudioManager::new();
    let scan = vec![DeviceScan::Sessions(vec![raw(1, "a", 100, false)])];
    mgr.enumerate_sessions(&scan);
    assert_eq!(mgr.cache_len(), 1);
    let sessions = mgr.enumerate_sessions(&Vec::new());
    assert!(sessions.is_empty());
    assert_eq!(mgr.cache_len(), 0);
}
