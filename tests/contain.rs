use adequate::validation::Validate;
use adequate::validation::contain::{
    contains, contains_if_given, contains_if_present, not_contain_if_given,
};

// contains
#[test]
fn test_contains_ok() {
    let f = contains("lorem");
    let result = f.check("lorem ipsum");
    assert!(result.is_ok());
}

#[test]
fn test_contains_err() {
    let f = contains("dolor sit amet");
    let result = f.check("lorem ipsum");
    assert!(result.is_err());
}

#[test]
fn test_contains_err_message() {
    let f = contains("dolor sit amet");
    let result = f.check("lorem ipsum");
    assert_eq!(
        result.map_err(|e| e.to_string()),
        Err("Must contain dolor sit amet".to_string())
    );
}

// contains_if_given
#[test]
fn test_contains_if_given_ok() {
    let part = "lorem ipsum";

    let f = contains_if_given(None);
    let result = f.check(part);
    assert!(result.is_ok());

    let f = contains_if_given(Some(""));
    let result = f.check(part);
    assert!(result.is_ok());

    let f = contains_if_given(Some("lorem"));
    let result = f.check(part);
    assert!(result.is_ok());
}

#[test]
fn test_contains_if_given_err() {
    let f = contains_if_given(Some("dolor sit amet"));
    let result = f.check("lorem ipsum");
    assert!(result.is_err());
}

#[test]
fn test_contains_if_given_err_message() {
    let f = contains_if_given(Some("dolor sit amet"));
    let result = f.check("lorem ipsum");
    assert_eq!(
        result.map_err(|e| e.to_string()),
        Err("Must contain dolor sit amet".to_string())
    );
}

// not_contain_if_given
#[test]
fn test_not_contain_if_given_ok() {
    let part = "lorem ipsum";

    let f = not_contain_if_given(None);
    let result = f.check(part);
    assert!(result.is_ok());

    let f = not_contain_if_given(Some(""));
    let result = f.check(part);
    assert!(result.is_ok());

    let f = not_contain_if_given(Some("dolor sit amet"));
    let result = f.check(part);
    assert!(result.is_ok());
}

#[test]
fn test_not_contain_if_given_err() {
    let part = "lorem ipsum";

    let f = not_contain_if_given(Some("ipsum"));
    let result = f.check(part);
    assert!(result.is_err());
}

#[test]
fn test_not_contain_if_given_message() {
    let f = not_contain_if_given(Some("dolor"));
    let result = f.check("dolor sit amet");
    assert_eq!(
        result.map_err(|e| e.to_string()),
        Err("Must not contain dolor".to_string())
    );
}

// contains_if_present
#[test]
fn test_contains_if_present_ok() {
    let f = contains_if_present("dolor sit amet");

    let result = f.check(Some("lorem ipsum dolor sit amet"));
    assert!(result.is_ok());

    let result = f.check(None);
    assert!(result.is_ok());
}

#[test]
fn test_contains_if_present_err() {
    let f = contains_if_present("dolor sit amet");

    let result = f.check(Some("lorem ipsum"));
    assert!(result.is_err());
}

#[test]
fn test_contains_if_present_err_message() {
    let f = contains_if_present("dolor sit amet");

    let result = f.check(Some("lorem ipsum"));
    assert_eq!(
        result.map_err(|e| e.to_string()),
        Err("Must contain dolor sit amet".to_string())
    );
}

#[test]
fn contains_empty_part_always_passes() {
    assert!(contains("").check("").is_ok());
    assert!(contains("").check("lorem").is_ok());
}

#[test]
fn contains_needs_a_contiguous_run() {
    assert!(contains("lorem ipsum").check("lorem  ipsum").is_err());
    assert!(contains("m i").check("lorem ipsum").is_ok());
}

#[test]
fn not_contain_message_carries_the_part() {
    let m = not_contain_if_given(Some("ips")).check("lorem ipsum").unwrap_err();
    assert_eq!(m.text, "Must not contain {0}");
    assert_eq!(m.args, vec!["ips".to_string()]);
}
