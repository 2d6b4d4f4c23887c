use adequate::message::{message_template, plain_template};
use adequate::Message;

fn msg(text: &str, args: &[&str]) -> Message {
    Message {
        text: text.to_string(),
        args: args.iter().map(|a| a.to_string()).collect(),
    }
}

#[test]
fn test_fmt() {
    let m = Message {
        text: "lorem ipsum {0}".to_string(),
        args: vec!["dolor sit amet".to_string()],
    };
    assert_eq!(m.to_string(), "lorem ipsum dolor sit amet".to_string());
}

#[test]
fn message_test_eq() {
    let a = Message {
        text: "lorem ipsum {0}".to_string(),
        args: Vec::new(),
    };
    assert!(a.eq(&a));

    let b = Message {
        text: "lorem ipsum {0}".to_string(),
        args: Vec::new(),
    };
    assert!(a.eq(&b));

    let c = Message {
        text: "".to_string(),
        args: vec!["dolor sit amet".to_string()],
    };
    assert!(!a.eq(&c));

    let d = Message {
        text: "lorem ipsum {0}".to_string(),
        args: vec!["dolor sit amet".to_string()],
    };
    assert!(!a.eq(&d));
}

#[test]
fn test_message() {
    let m = Message {
        text: "lorem ipsum".to_string(),
        args: Vec::new(),
    };
    assert_eq!(m.to_string(), "lorem ipsum");

    let m = Message {
        text: "lorem {0}".to_string(),
        args: vec!["ipsum".to_string()],
    };
    assert_eq!(m.to_string(), "lorem ipsum");
}

#[test]
fn render_faults_on_non_numeric_placeholder() {
    assert_eq!(msg("lorem ipsum {}", &["dolor"]).render(), None);
    assert_eq!(msg("lorem ipsum {name}", &["dolor"]).render(), None);
}

#[test]
fn render_faults_on_arguments_without_placeholder() {
    assert_eq!(msg("lorem ipsum", &["dolor"]).render(), None);
}

#[test]
fn render_faults_on_missing_argument() {
    assert_eq!(msg("lorem ipsum {0} {1}", &["dolor"]).render(), None);
}

#[test]
fn render_succeeds_when_arguments_match_placeholders() {
    assert_eq!(
        msg("{1} and {0}", &["a", "b"]).render(),
        Some("b and a".to_string())
    );
    assert_eq!(msg("plain", &[]).render(), Some("plain".to_string()));
    assert_eq!(msg("{0}{0}", &["x"]).render(), Some("xx".to_string()));
}

#[test]
fn render_faults_when_substitution_changes_nothing() {
    assert_eq!(msg("{0}", &["{0}"]).render(), None);
}

#[test]
fn render_with_more_arguments_than_placeholders() {
    // Only a template without placeholders is caught with extra arguments.
    assert_eq!(msg("{0}", &["a", "b"]).render(), Some("a".to_string()));
}

#[test]
fn accept_rejects_unchanged_output() {
    let m = msg("lorem", &["x"]);
    assert_eq!(m.accept(Some("lorem".to_string())), None);
    assert_eq!(m.accept(Some("other".to_string())), Some("other".to_string()));
    assert_eq!(m.accept(None), None);
    let n = msg("lorem", &[]);
    assert_eq!(n.accept(Some("lorem".to_string())), Some("lorem".to_string()));
}

#[test]
fn equality_ignores_rendering() {
    let a = msg("lorem {0}", &["ipsum"]);
    let b = msg("lorem {0}", &["ipsum"]);
    let c = msg("lorem ipsum", &[]);
    assert_eq!(a.render(), c.render());
    assert!(a == b && b == a);
    assert!(a != c);
    assert!(msg("x", &["a", "b"]) != msg("x", &["a"]));
    assert!(msg("x", &["a", "b"]) != msg("x", &["b", "a"]));
}

#[test]
fn catalog_lookup() {
    assert_eq!(message_template("max"), "Must not contain more characters than {0}");
    assert_eq!(message_template("within"), "Must be chars length within a range of {0}-{1}");
    assert_eq!(message_template("not_contain"), "Must not contain {0}");
    assert_eq!(message_template("unknown"), "");
}

#[test]
fn render_faults_on_format_spec_and_escapes() {
    assert_eq!(msg("{0:>5}", &["x"]).render(), None);
    assert_eq!(msg("{{0}}", &["x"]).render(), None);
    assert_eq!(msg("a } b", &[]).render(), None);
    assert_eq!(msg("a { b", &[]).render(), None);
}

#[test]
fn plain_template_grammar() {
    use_plain("lorem {0} ipsum {12}", true);
    use_plain("", true);
    use_plain("{}", true);
    use_plain("{0:>5}", false);
    use_plain("{{", false);
    use_plain("}", false);
    use_plain("{0", false);
}

fn use_plain(t: &str, expected: bool) {
    assert_eq!(plain_template(t), expected);
}
