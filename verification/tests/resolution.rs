use websim::config::{ContentTypeConfig, WebSimConfig};
use websim::content_type::{determine_from_accept, determine_from_path};
use websim::handler::{determine_content_type, Method, ResolutionFailure};

fn descriptor(model: &str, header: &str, extensions: &[&str]) -> ContentTypeConfig {
    ContentTypeConfig {
        model: model.to_string(),
        system_prompt: format!("system for {}", model),
        content_type_header: header.to_string(),
        extensions: extensions.iter().map(|e| e.to_string()).collect(),
    }
}

fn sample_config() -> WebSimConfig {
    WebSimConfig {
        content_types: vec![
            (
                "text/html".to_string(),
                descriptor("m-html", "text/html; charset=utf-8", &["html", "htm"]),
            ),
            (
                "application/json".to_string(),
                descriptor("m-json", "application/json", &["json"]),
            ),
            (
                "image/svg+xml".to_string(),
                descriptor("m-svg", "image/svg+xml", &["svg"]),
            ),
        ],
    }
}

#[test]
fn test_post_always_resolves_to_json() {
    let cfg = sample_config();
    // Accept header and path extension both point elsewhere; POST wins.
    let r = determine_content_type(&Method::Post, Some("text/html"), "/logo.svg", &cfg);
    let (mime, ct) = r.expect("json is configured");
    assert_eq!(mime, "application/json");
    assert_eq!(ct.model, "m-json");
}

#[test]
fn test_post_without_json_is_config_error() {
    let cfg = WebSimConfig {
        content_types: vec![(
            "text/html".to_string(),
            descriptor("m-html", "text/html; charset=utf-8", &["html"]),
        )],
    };
    let r = determine_content_type(&Method::Post, None, "/", &cfg);
    assert!(matches!(r, Err(ResolutionFailure::JsonNotConfigured)));
}

#[test]
fn test_accept_match_overrides_extension() {
    let cfg = sample_config();
    let r = determine_content_type(
        &Method::Get,
        Some("application/json, text/plain"),
        "/logo.svg",
        &cfg,
    );
    let (mime, ct) = r.expect("accept matched");
    assert_eq!(mime, "application/json");
    assert_eq!(ct.model, "m-json");
}

#[test]
fn test_extension_resolution_is_case_insensitive() {
    let cfg = sample_config();
    let r = determine_content_type(&Method::Get, Some("text/plain"), "/logo.SVG", &cfg);
    let (mime, ct) = r.expect("extension matched");
    assert_eq!(mime, "image/svg+xml");
    assert_eq!(ct.model, "m-svg");
}

#[test]
fn test_extensionless_path_resolves_to_html() {
    let cfg = sample_config();
    let r = determine_content_type(&Method::Get, None, "/about", &cfg);
    let (mime, ct) = r.expect("html configured");
    assert_eq!(mime, "text/html");
    assert_eq!(ct.model, "m-html");
}

#[test]
fn test_unknown_extension_is_not_found() {
    let cfg = sample_config();
    let r = determine_content_type(&Method::Get, None, "/file.weird", &cfg);
    assert!(matches!(r, Err(ResolutionFailure::NotFound)));
}

#[test]
fn test_determine_from_accept_none_without_header() {
    let cfg = sample_config();
    assert!(determine_from_accept(None, &cfg).is_none());
    assert!(determine_from_accept(Some("text/plain"), &cfg).is_none());
}

#[test]
fn test_determine_from_path_extension() {
    let cfg = sample_config();
    let (mime, _) = determine_from_path("/a/b/page.htm", &cfg).expect("htm registered");
    assert_eq!(mime, "text/html");
    // A trailing dot yields an empty extension owned by nobody.
    assert!(determine_from_path("/file.", &cfg).is_none());
}
