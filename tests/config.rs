use cube_server::config::{companion_dirs, config_summary, is_config_request, ConfigPayload};
use cube_server::events::{config_reply, unknown_command_reply};

#[test]
fn export_dir_defaults() {
    assert_eq!(ConfigPayload { upload_dir: None }.export_dir(), "C:\\Export");
    assert_eq!(ConfigPayload { upload_dir: Some("/srv/x".to_string()) }.export_dir(), "/srv/x");
}

#[test]
fn config_request_ignores_surrounding_whitespace() {
    assert!(is_config_request("CONFIG"));
    assert!(is_config_request("  CONFIG\r\n"));
    assert!(!is_config_request("config"));
    assert!(!is_config_request("CONFIG please"));
}

#[test]
fn side_channel_replies() {
    assert_eq!(config_reply("/home/u/Cube", "bruno"), r#"{"MainDirectory":"/home/u/Cube","User":"bruno"}"#);
    assert_eq!(unknown_command_reply(), r#"{"error":"Unknown command"}"#);
}

#[test]
fn companion_directories() {
    let (dcim, downloads) = companion_dirs("/base", "bruno");
    assert_eq!(dcim, "/base/bruno/dcim/thumbs");
    assert_eq!(downloads, "/base/bruno/downloads/thumbs");
}

#[test]
fn summary_names_both_directories() {
    assert_eq!(
        config_summary("/i", "/e"),
        "📂 Internal directory: /i\n📤 Export directory: /e"
    );
}
