use digsigctl::config::{preferences_path, staging_path, Config, Error, Section};
use digsigctl::json::Json;

fn obj(members: Vec<(&str, Json)>) -> Json {
    Json::Object(members.into_iter().map(|(k, v)| (k.to_string(), v)).collect())
}

fn num(n: &str) -> Json {
    Json::Number(n.to_string())
}

fn text(j: &Json) -> String {
    format!("{j:?}")
}

#[test]
fn apply_adds_startup_urls_to_session() {
    let doc = obj(vec![("session", obj(vec![("other", num("1"))]))]);
    let config = Config::new("https://example.com".to_string());
    let result = config.apply(doc).unwrap();
    let expected = obj(vec![(
        "session",
        obj(vec![
            ("other", num("1")),
            ("startup_urls", Json::Array(vec![Json::Str("https://example.com".to_string())])),
        ]),
    )]);
    assert_eq!(text(&result), text(&expected));
}

#[test]
fn apply_replaces_existing_list_in_place() {
    let old = Json::Array(vec![Json::Str("a".to_string()), Json::Str("b".to_string())]);
    let doc = obj(vec![
        ("browser", Json::Bool(true)),
        ("session", obj(vec![("startup_urls", old), ("restore_on_startup", num("4"))])),
        ("zoom", Json::Null),
    ]);
    let result = Config::new("https://kiosk.local".to_string()).apply(doc).unwrap();
    let expected = obj(vec![
        ("browser", Json::Bool(true)),
        (
            "session",
            obj(vec![
                ("startup_urls", Json::Array(vec![Json::Str("https://kiosk.local".to_string())])),
                ("restore_on_startup", num("4")),
            ]),
        ),
        ("zoom", Json::Null),
    ]);
    assert_eq!(text(&result), text(&expected));
}

#[test]
fn apply_twice_equals_apply_once() {
    let doc = obj(vec![("x", num("2")), ("session", obj(vec![("other", num("1"))]))]);
    let config = Config::new("https://example.com".to_string());
    let once = config.apply(doc).unwrap();
    let once_text = text(&once);
    let twice = config.apply(once).unwrap();
    assert_eq!(text(&twice), once_text);
}

#[test]
fn apply_without_session_names_session() {
    let doc = obj(vec![("other", num("1"))]);
    let error = Config::new("https://example.com".to_string()).apply(doc).unwrap_err();
    assert_eq!(error, Error::KeyNotFound(Section::Session));
    assert_eq!(error.message(), "JSON key not found: session");
}

#[test]
fn apply_to_non_object_document_fails() {
    let error = Config::new("u".to_string()).apply(Json::Array(Vec::new())).unwrap_err();
    assert_eq!(error, Error::NotAJsonObject(Section::Preferences));
    assert_eq!(error.message(), "not a JSON object: preferences");
}

#[test]
fn apply_with_non_object_session_fails() {
    let doc = obj(vec![("session", Json::Str("s".to_string()))]);
    let error = Config::new("u".to_string()).apply(doc).unwrap_err();
    assert_eq!(error, Error::NotAJsonObject(Section::Session));
    assert_eq!(error.message(), "not a JSON object: session");
}

#[test]
fn config_keeps_its_url() {
    assert_eq!(Config::new("https://example.com".to_string()).url(), "https://example.com");
}

#[test]
fn path_lies_below_home() {
    assert_eq!(
        preferences_path(Some("/home/kiosk".to_string())),
        Ok("/home/kiosk/.config/chromium/Default/Preferences".to_string())
    );
}

#[test]
fn missing_home_is_reported() {
    assert_eq!(preferences_path(None), Err(Error::HomeNotFound));
    assert_eq!(Error::HomeNotFound.message(), "home directory not found");
}

#[test]
fn staging_file_sits_beside_target() {
    assert_eq!(staging_path("/tmp/Preferences"), "/tmp/Preferences.tmp");
}
