use takusu_agent::json_schema::Json;
use takusu_agent::presentation::{Presentation, ScheduleAlert, ScheduleAlertKind};
use takusu_agent::presentation_decode::{decoded_presentation, envelope, presentation_kind, PresentationKind};

fn object(members: &[(&str, &str)]) -> Json {
    Json::Object(members.iter().map(|(k, v)| (k.to_string(), Json::Str(v.to_string()))).collect())
}

#[test]
fn unknown_tag_decodes_to_text() {
    let json = object(&[("type", "future_kind"), ("title", "x"), ("text", "fallback")]);
    let (tag, fallback) = envelope(&json);
    assert_eq!(tag, "future_kind");
    assert_eq!(presentation_kind(&tag), None);
    let p = decoded_presentation(&tag, fallback, None);
    assert!(matches!(p, Presentation::Text { text } if text == "fallback"));
}

#[test]
fn missing_type_decodes_to_text() {
    let json = object(&[("text", "hi")]);
    let (tag, fallback) = envelope(&json);
    assert_eq!(tag, "text");
    let p = decoded_presentation(&tag, fallback, None);
    assert!(matches!(p, Presentation::Text { text } if text == "hi"));
}

#[test]
fn known_kind_keeps_its_body_and_malformed_bodies_fall_back() {
    let json = object(&[("type", "schedule_alert"), ("message", "重複")]);
    let (tag, fallback) = envelope(&json);
    assert_eq!(presentation_kind(&tag), Some(PresentationKind::ScheduleAlert));
    assert_eq!(fallback, "");
    let body = Presentation::ScheduleAlert(ScheduleAlert { kind: ScheduleAlertKind::Conflict, message: "重複".into() });
    let p = decoded_presentation(&tag, fallback.clone(), Some(body));
    assert!(matches!(p, Presentation::ScheduleAlert(a) if a.message == "重複"));

    // The body did not decode: the (empty) fallback text is shown.
    let p = decoded_presentation(&tag, fallback, None);
    assert!(matches!(p, Presentation::Text { text } if text.is_empty()));

    // A non-string tag counts as missing.
    let odd = Json::Object(vec![("type".into(), Json::Bool(true)), ("text".into(), Json::Str("t".into()))]);
    assert_eq!(envelope(&odd).0, "text");
    assert_eq!(envelope(&Json::Null), ("text".to_string(), String::new()));
}
