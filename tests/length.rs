use adequate::validation::Validate;
use adequate::validation::length::{max, max_if_present, min, min_if_present, within};

// max

#[test]
fn test_max_ok() {
    let f = max(9);
    let result = f.check("test");
    assert!(result.is_ok());
}

#[test]
fn test_max_err() {
    let f = max(3);
    let result = f.check("test");
    assert!(result.is_err());
}

#[test]
fn test_max_err_message() {
    let f = max(3);
    let result = f.check("test");
    assert_eq!(
        result.map_err(|e| e.to_string()),
        Err("Must not contain more characters than 3".to_string())
    );
}

// max_if_present

#[test]
fn test_max_if_present_ok() {
    let f = max_if_present(9);

    let result = f.check(Some("test"));
    assert!(result.is_ok());

    let result = f.check(None);
    assert!(result.is_ok());
}

#[test]
fn test_max_if_present_err() {
    let f = max_if_present(3);

    let result = f.check(Some("test"));
    assert!(result.is_err());
}

#[test]
fn test_max_if_present_err_message() {
    let f = max_if_present(3);
    let result = f.check(Some("test"));
    assert_eq!(
        result.map_err(|e| e.to_string()),
        Err("Must not contain more characters than 3".to_string())
    );
}

// min

#[test]
fn test_min_ok() {
    let f = min(3);
    let result = f.check("test");
    assert!(result.is_ok());
}

#[test]
fn test_min_err() {
    let f = min(9);
    let result = f.check("test");
    assert!(result.is_err());
}

#[test]
fn test_min_err_message() {
    let f = min(9);
    let result = f.check("test");
    assert_eq!(
        result.map_err(|e| e.to_string()),
        Err("Must not have less characters than 9".to_string())
    );
}

// min_if_present

#[test]
fn test_min_if_present_ok() {
    let f = min_if_present(3);

    let result = f.check(Some("test"));
    assert!(result.is_ok());

    let result = f.check(None);
    assert!(result.is_ok());
}

#[test]
fn test_min_if_present_err() {
    let f = min_if_present(9);

    let result = f.check(Some("test"));
    assert!(result.is_err());
}

#[test]
fn test_min_if_present_err_message() {
    let f = min_if_present(9);
    let result = f.check(Some("test"));
    assert_eq!(
        result.map_err(|e| e.to_string()),
        Err("Must not have less characters than 9".to_string())
    );
}

// within

#[test]
fn test_within_ok() {
    let f = within(1..5);
    let result = f.check("test");
    assert!(result.is_ok());

    let f = within(4..5);
    let result = f.check("test");
    assert!(result.is_ok());
}

#[test]
fn test_within_err() {
    let f = within(0..4);
    let result = f.check("test");
    assert!(result.is_err());

    let f = within(9..18);
    let result = f.check("test");
    assert!(result.is_err());
}

#[test]
fn test_within_err_message() {
    let f = within(1..4);
    let result = f.check("test");
    assert_eq!(
        result.map_err(|e| e.to_string()),
        Err("Must be chars length within a range of 1-3".to_string())
    );

    let f = within(5..10);
    let result = f.check("test");
    assert_eq!(
        result.map_err(|e| e.to_string()),
        Err("Must be chars length within a range of 5-9".to_string())
    );
}

#[test]
fn max_if_present_failure_carries_the_bound() {
    let f = max_if_present(3);
    assert!(f.check(None).is_ok());
    let m = f.check(Some("test")).unwrap_err();
    assert_eq!(m.text, "Must not contain more characters than {0}");
    assert_eq!(m.args, vec!["3".to_string()]);
}

#[test]
fn length_bounds_are_inclusive() {
    assert!(max(4).check("test").is_ok());
    assert!(min(4).check("test").is_ok());
    assert!(max(0).check("").is_ok());
    assert!(max(usize::MAX).check("test").is_ok());
}

#[test]
fn length_counts_bytes() {
    // "é" is two bytes of UTF-8.
    assert!(max(1).check("é").is_err());
    assert!(min(2).check("é").is_ok());
}

#[test]
fn within_names_least_and_greatest_length() {
    let m = within(10..123).check("test").unwrap_err();
    assert_eq!(m.args, vec!["10".to_string(), "122".to_string()]);
    assert!(within(4..5).check("test").is_ok());
    assert!(within(5..6).check("test").is_err());
}
