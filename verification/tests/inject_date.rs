use leven::metadata::Timestamp;
use leven::util::{ContextError, InjectDate};

fn parts(p: &[&str]) -> Vec<String> {
    p.iter().map(|s| s.to_string()).collect()
}

fn date() -> InjectDate {
    InjectDate { format: "%d %B, %Y".to_string(), date: Timestamp { seconds: 1493769600, nanos: 0 } }
}

#[test]
fn truthy_paths() {
    let d = date();
    assert!(d.truthy(&parts(&[])));
    assert!(d.truthy(&parts(&["iso8601"])));
    assert!(!d.truthy(&parts(&["iso8601", "x"])));
    assert!(!d.truthy(&parts(&["year"])));
}

#[test]
fn injected_text() {
    let d = date();
    assert_eq!(d.inject(&parts(&[])), Ok("03 May, 2017".to_string()));
    let iso = d.inject(&parts(&["iso8601"])).unwrap();
    assert!(iso.starts_with("2017-05-03T00:00:00"));
    assert!(iso.ends_with("+00:00"));
    assert_eq!(d.inject(&parts(&["year"])), Err(ContextError::Undefined));
    assert_eq!(d.inject(&parts(&["iso8601", "x"])), Err(ContextError::Undefined));
}

#[test]
fn iteration_is_refused() {
    let d = date();
    assert_eq!(d.iterate(&parts(&[])), ContextError::NotIterable);
    assert_eq!(d.iterate(&parts(&["iso8601"])), ContextError::NotIterable);
    assert_eq!(d.iterate(&parts(&["other"])), ContextError::Undefined);
}
