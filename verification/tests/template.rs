use relic::launch::template::{expand, TemplateError};

const VARS: &[(&str, &str)] = &[
    ("rom", "C:/roms/Super Mario World (USA).sfc"),
    ("core", "snes9x"),
];

#[test]
fn expands_and_keeps_spaces_in_one_arg() {
    let args = expand("-L {core} {rom}", VARS).unwrap();
    assert_eq!(
        args,
        vec!["-L", "snes9x", "C:/roms/Super Mario World (USA).sfc"]
    );
}

#[test]
fn quoting_groups_but_does_not_change_substitution() {
    let args = expand("--rom \"{rom}\" --fullscreen", VARS).unwrap();
    assert_eq!(
        args,
        vec![
            "--rom",
            "C:/roms/Super Mario World (USA).sfc",
            "--fullscreen"
        ]
    );
    assert_eq!(expand("\"\"", VARS).unwrap(), vec![""]);
}

#[test]
fn errors_are_specific() {
    assert_eq!(
        expand("{romm}", VARS),
        Err(TemplateError::UnknownPlaceholder("romm".into()))
    );
    assert_eq!(expand("{rom", VARS), Err(TemplateError::UnclosedPlaceholder));
    assert_eq!(expand("\"{rom}", VARS), Err(TemplateError::UnclosedQuote));
}

#[test]
fn empty_template_gives_no_arguments() {
    assert_eq!(expand("", VARS).unwrap(), Vec::<String>::new());
    assert_eq!(expand("   ", VARS).unwrap(), Vec::<String>::new());
}

#[test]
fn placeholder_glued_to_text_stays_one_argument() {
    assert_eq!(
        expand("--core={core}.so", VARS).unwrap(),
        vec!["--core=snes9x.so"]
    );
}

#[test]
fn lone_placeholder_is_one_argument_whatever_it_holds() {
    assert_eq!(
        expand("{rom}", &[("rom", "a \"b\" {c} d")]),
        Ok(vec!["a \"b\" {c} d".to_string()])
    );
}

#[test]
fn unclosed_quote_comes_from_an_odd_quote_count() {
    assert_eq!(expand("\"a\" \"b", &[]), Err(TemplateError::UnclosedQuote));
    assert_eq!(expand("\"a\" \"b\"", &[]), Ok(vec!["a".to_string(), "b".to_string()]));
}
