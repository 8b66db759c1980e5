//! Identity resolution behaviour: the system session, filename
//! extraction from image paths, and the deterministic fallbacks.

use clearcomms::identity::resolve_process_name;
use clearcomms::text::str_eq;
use clearcomms::text::u64_to_string;

#[test]
fn system_process_resolves_to_system() {
    assert_eq!(resolve_process_name(0, None), "System");
    assert_eq!(resolve_process_name(0, Some("C:\\Windows\\System32\\x.exe")), "System");
}

#[test]
fn nonzero_process_name_is_never_empty() {
    let pids = [1u32, 7, 4242, u32::MAX];
    for pid in pids {
        assert!(!resolve_process_name(pid, None).is_empty());
        assert!(!resolve_process_name(pid, Some("")).is_empty());
        assert!(!resolve_process_name(pid, Some("C:\\only\\dir\\")).is_empty());
    }
}

#[test]
fn filename_is_extracted_from_image_path() {
    assert_eq!(
        resolve_process_name(100, Some("C:\\Program Files\\Discord\\Discord.exe")),
        "Discord.exe"
    );
    assert_eq!(resolve_process_name(100, Some("plain.exe")), "plain.exe");
}

#[test]
fn unusable_image_path_falls_back_to_placeholder() {
    assert_eq!(resolve_process_name(4242, None), "Process 4242");
    assert_eq!(resolve_process_name(4242, Some("")), "Process 4242");
    assert_eq!(resolve_process_name(4242, Some("C:\\dir\\")), "Process 4242");
}

#[test]
fn decimal_rendering_is_exact() {
    assert_eq!(u64_to_string(0), "0");
    assert_eq!(u64_to_string(10), "10");
    assert_eq!(u64_to_string(4242), "4242");
    assert_eq!(u64_to_string(u64::MAX), "18446744073709551615");
}

#[test]
fn string_equality_matches_contents() {
    assert!(str_eq("abc", "abc"));
    assert!(!str_eq("abc", "abd"));
    assert!(!str_eq("abc", "abcd"));
    assert!(str_eq("", ""));
}
