use ccometixline::types::{ResetsAt, ResetsAtValue};

/// Reads the `resets_at` field of a rate-limit window the way the statusline
/// input does: strings as text, numbers as whole epoch seconds, anything else
/// as an unrecognised value.
fn window_resets_at(json: &str) -> Option<ResetsAt> {
    let window: serde_json::Value = serde_json::from_str(json).expect("window should deserialize");
    let value = match window.get("resets_at") {
        None | Some(serde_json::Value::Null) => return None,
        Some(v) => v,
    };
    let shape = match value {
        serde_json::Value::String(s) => ResetsAtValue::Text(s.clone()),
        serde_json::Value::Number(n) => match n.as_i64() {
            Some(secs) => ResetsAtValue::Seconds(secs),
            None => match n.as_f64() {
                Some(f) => ResetsAtValue::Seconds(f.trunc() as i64),
                None => ResetsAtValue::Other,
            },
        },
        _ => ResetsAtValue::Other,
    };
    ResetsAt::from_json(&shape)
}

#[test]
fn resets_at_accepts_integer_and_fractional_epoch() {
    let w = window_resets_at(r#"{"resets_at": 1758750000}"#);
    assert_eq!(
        w.map(|r| r.to_rfc3339()).as_deref(),
        Some("2025-09-24T21:40:00+00:00")
    );
    let w = window_resets_at(r#"{"resets_at": 1758750000.5}"#);
    assert_eq!(
        w.map(|r| r.to_rfc3339()).as_deref(),
        Some("2025-09-24T21:40:00+00:00")
    );
}

#[test]
fn resets_at_normalizes_rfc3339_and_rejects_other_strings() {
    let w = window_resets_at(r#"{"resets_at": "2025-09-24T23:40:00+02:00"}"#);
    assert_eq!(
        w.map(|r| r.to_rfc3339()).as_deref(),
        Some("2025-09-24T23:40:00+02:00")
    );
    let w = window_resets_at(r#"{"resets_at": "tomorrow"}"#);
    assert!(w.is_none());
    let w = window_resets_at(r#"{"resets_at": ""}"#);
    assert!(w.is_none());
    let w = window_resets_at(r#"{"resets_at": true}"#);
    assert!(w.is_none());
}

#[test]
fn resets_at_trims_text_and_normalizes_utc_designator() {
    let r = ResetsAt::from_json(&ResetsAtValue::Text("  2025-09-24T21:40:00Z \n".to_string()));
    assert_eq!(r.map(|r| r.to_rfc3339()).as_deref(), Some("2025-09-24T21:40:00+00:00"));
}

#[test]
fn resets_at_rejects_out_of_range_epoch() {
    assert!(ResetsAt::from_json(&ResetsAtValue::Seconds(i64::MAX)).is_none());
    assert!(ResetsAt::from_json(&ResetsAtValue::Other).is_none());
}
