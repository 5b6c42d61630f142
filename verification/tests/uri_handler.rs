use offline_translator::uri_handler::{intent_from_args, parse_launch_uri, LaunchIntent};

#[test]
fn parses_camera_uri() {
    assert_eq!(
        parse_launch_uri("offline-translator://camera"),
        Some(LaunchIntent::LiveCamera)
    );
    assert_eq!(
        parse_launch_uri("offline-translator://camera/"),
        Some(LaunchIntent::LiveCamera)
    );
    assert_eq!(
        parse_launch_uri("offline-translator://camera?foo=1"),
        Some(LaunchIntent::LiveCamera)
    );
}

#[test]
fn rejects_other_uris() {
    assert_eq!(parse_launch_uri("offline-translator://settings"), None);
    assert_eq!(parse_launch_uri("https://example.com/camera"), None);
    assert_eq!(parse_launch_uri("camera"), None);
}

#[test]
fn picks_the_uri_out_of_argv() {
    let args = [
        "/usr/bin/offline-translator-linux".to_string(),
        "offline-translator://camera".to_string(),
    ];
    assert_eq!(intent_from_args(&args), Some(LaunchIntent::LiveCamera));
    assert_eq!(intent_from_args(&args[..1]), None);
}

#[test]
fn fragments_and_repeated_slashes_are_ignored() {
    assert_eq!(
        parse_launch_uri("offline-translator://camera//#top"),
        Some(LaunchIntent::LiveCamera)
    );
    assert_eq!(parse_launch_uri("offline-translator://cameras"), None);
    assert_eq!(parse_launch_uri("offline-translator://"), None);
}
