use hack_frontend::parsed_file::{build_parsed_file, effective_mode, Mode};

#[test]
fn file_attributes_come_out_in_source_order() {
    let collected = vec!["third", "second", "first"];
    let decls = vec!["class A", "function f", "const C"];
    let errors: Vec<String> = vec![];
    let f = build_parsed_file(Some(Mode::Mpartial), collected, decls.clone(), &errors);
    assert_eq!(f.file_attributes, vec!["first", "second", "third"]);
    assert_eq!(f.decls, decls);
    assert_eq!(f.mode, Some(Mode::Mpartial));
    assert!(!f.has_first_pass_parse_errors);
}

#[test]
fn parse_errors_are_flagged() {
    let errors = vec!["unexpected token".to_string()];
    let f = build_parsed_file::<u8, u8, String>(None, vec![], vec![], &errors);
    assert!(f.has_first_pass_parse_errors);
    assert!(f.file_attributes.is_empty());
    assert_eq!(f.mode, None);
}

#[test]
fn building_twice_gives_the_same_summary() {
    let errors: Vec<u8> = vec![1];
    let a = build_parsed_file(Some(Mode::Mstrict), vec![1, 2, 3], vec![9, 8], &errors);
    let b = build_parsed_file(Some(Mode::Mstrict), vec![1, 2, 3], vec![9, 8], &errors);
    assert_eq!(format!("{:?}", a), format!("{:?}", b));
}

#[test]
fn mode_defaults_to_strict() {
    assert_eq!(effective_mode(None), Mode::Mstrict);
    assert_eq!(effective_mode(Some(Mode::Mhhi)), Mode::Mhhi);
    assert_eq!(effective_mode(Some(Mode::Mpartial)), Mode::Mpartial);
}
