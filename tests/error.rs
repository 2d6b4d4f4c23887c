use adequate::{Error, Feedback, Message};

fn fb(field: &str) -> Feedback {
    Feedback {
        field: field.to_string(),
        messages: Vec::new(),
    }
}

#[test]
fn error_test_eq() {
    let a = Error(vec![Feedback {
        field: "name".to_string(),
        messages: Vec::new(),
    }]);
    assert!(a.eq(&a));

    let b = Error(vec![Feedback {
        field: "name".to_string(),
        messages: Vec::new(),
    }]);
    assert!(a.eq(&b));

    let c = Error(vec![Feedback {
        field: "description".to_string(),
        messages: Vec::new(),
    }]);
    assert!(!a.eq(&c));

    let d = Error(vec![Feedback {
        field: "name".to_string(),
        messages: vec![Message {
            text: "lorem ipsum {0}".to_string(),
            args: vec!["dolor sit amet".to_string()],
        }],
    }]);
    assert!(!a.eq(&d));
}

#[test]
fn errors_of_different_lengths_are_not_equal() {
    let short = Error(vec![fb("name")]);
    let long = Error(vec![fb("name"), fb("description")]);
    assert!(!short.eq(&long));
    assert!(!long.eq(&short));
    assert!(Error(vec![]).eq(&Error(vec![])));
}
