use hack_frontend::decl_defs::{
    compose_subst, find_class, fold_class_decl, instantiate, zip_subst, ClassSummary, ClassishKind,
    CeVisibility, DeclClassType, DeclError, Element, Ty,
};

fn g(n: &str) -> Ty {
    Ty::Generic(n.to_string())
}

fn app(n: &str, args: Vec<Ty>) -> Ty {
    Ty::Apply(n.to_string(), args)
}

fn show(t: &Ty) -> String {
    match t {
        Ty::Generic(n) => n.clone(),
        Ty::Apply(c, args) if args.is_empty() => c.clone(),
        Ty::Apply(c, args) => format!("{}<{}>", c, args.iter().map(show).collect::<Vec<_>>().join(", ")),
    }
}

fn summary(name: &str, tparams: &[&str], extends: Vec<(&str, Vec<Ty>)>) -> ClassSummary {
    ClassSummary {
        name: name.to_string(),
        kind: ClassishKind::Class,
        abstract_: false,
        final_: false,
        is_xhp: false,
        tparams: tparams.iter().map(|s| s.to_string()).collect(),
        extends: extends.into_iter().map(|(n, a)| (n.to_string(), a)).collect(),
        methods: vec![],
    }
}

fn subst_of<'a>(d: &'a DeclClassType, ancestor: &str) -> Vec<(String, String)> {
    let (_, ctx) = d.substs.iter().find(|(n, _)| n == ancestor).expect("no context for ancestor");
    ctx.subst.iter().map(|(p, t)| (p.clone(), show(t))).collect()
}

fn pairs(v: &[(&str, &str)]) -> Vec<(String, String)> {
    v.iter().map(|(a, b)| (a.to_string(), b.to_string())).collect()
}

fn hierarchy() -> (DeclClassType, DeclClassType, DeclClassType) {
    let a = fold_class_decl(summary("A", &["Ta1", "Ta2"], vec![]), &vec![]);
    let b = fold_class_decl(
        summary("B", &["Tb"], vec![("A", vec![g("Tb"), app("int", vec![])])]),
        &vec![fold_class_decl(summary("A", &["Ta1", "Ta2"], vec![]), &vec![])],
    );
    let known = vec![fold_class_decl(summary("A", &["Ta1", "Ta2"], vec![]), &vec![]), b];
    let c = fold_class_decl(summary("C", &[], vec![("B", vec![app("string", vec![])])]), &known);
    let b = known.into_iter().nth(1).unwrap();
    (a, b, c)
}

#[test]
fn substitution_is_composed_through_the_chain() {
    let (a, b, c) = hierarchy();
    assert!(a.substs.is_empty());
    assert_eq!(subst_of(&b, "A"), pairs(&[("Ta1", "Tb"), ("Ta2", "int")]));
    assert_eq!(subst_of(&c, "B"), pairs(&[("Tb", "string")]));
    assert_eq!(subst_of(&c, "A"), pairs(&[("Ta1", "string"), ("Ta2", "int")]));
    let ctx_a = &c.substs.iter().find(|(n, _)| n == "A").unwrap().1;
    assert_eq!(ctx_a.class_context, "B");
    assert!(!ctx_a.from_req_extends);
    let ctx_b = &c.substs.iter().find(|(n, _)| n == "B").unwrap().1;
    assert_eq!(ctx_b.class_context, "C");
    assert!(c.decl_errors.is_empty());
    assert_eq!(c.extends, vec!["B".to_string()]);
}

#[test]
fn ancestor_types_are_instantiated() {
    let (_, _, c) = hierarchy();
    let anc: Vec<(String, String)> = c.ancestors.iter().map(|(n, t)| (n.clone(), show(t))).collect();
    assert_eq!(anc, pairs(&[("B", "B<string>"), ("A", "A<string, int>")]));
}

#[test]
fn unknown_ancestor_is_recorded_not_fatal() {
    let mut own = summary("D", &[], vec![("Missing", vec![])]);
    own.methods.push((
        "m".to_string(),
        Element { flags: 0, origin: "D".to_string(), visibility: CeVisibility::Public, deprecated: None },
    ));
    let d = fold_class_decl(own, &vec![]);
    assert_eq!(d.name, "D");
    assert_eq!(d.decl_errors.len(), 1);
    match &d.decl_errors[0] {
        DeclError::UnknownAncestor(n) => assert_eq!(n, "Missing"),
        other => panic!("unexpected error {:?}", other),
    }
    assert!(d.substs.is_empty());
    assert!(d.ancestors.is_empty());
    assert_eq!(d.methods.len(), 1);
    assert_eq!(d.methods[0].1.origin, "D");
}

#[test]
fn arity_mismatch_is_recorded_and_folding_goes_on() {
    let a = fold_class_decl(summary("A", &["Ta1", "Ta2"], vec![]), &vec![]);
    let e = fold_class_decl(summary("E", &[], vec![("A", vec![app("int", vec![])])]), &vec![a]);
    assert_eq!(e.decl_errors.len(), 1);
    match &e.decl_errors[0] {
        DeclError::TparamArity(n, expected, given) => {
            assert_eq!(n, "A");
            assert_eq!((*expected, *given), (2, 1));
        }
        other => panic!("unexpected error {:?}", other),
    }
    assert_eq!(subst_of(&e, "A"), pairs(&[("Ta1", "int")]));
}

#[test]
fn instantiate_replaces_mapped_parameters_only() {
    let s = vec![("T".to_string(), app("int", vec![]))];
    let t = app("vec", vec![g("T"), g("U"), app("dict", vec![g("T"), g("T")])]);
    assert_eq!(show(&instantiate(&s, &t)), "vec<int, U, dict<int, int>>");
    assert_eq!(show(&instantiate(&vec![], &t)), "vec<T, U, dict<T, T>>");
}

#[test]
fn compose_and_zip() {
    let params = vec!["P".to_string(), "Q".to_string()];
    let z = zip_subst(&params, &vec![app("bool", vec![])]);
    assert_eq!(z.len(), 1);
    let inner = vec![("X".to_string(), app("box", vec![g("P")])), ("Y".to_string(), g("Q"))];
    let c = compose_subst(&z, &inner);
    let got: Vec<(String, String)> = c.iter().map(|(p, t)| (p.clone(), show(t))).collect();
    assert_eq!(got, pairs(&[("X", "box<bool>"), ("Y", "Q")]));
}

#[test]
fn find_class_takes_the_first() {
    let known = vec![
        fold_class_decl(summary("A", &["X"], vec![]), &vec![]),
        fold_class_decl(summary("B", &[], vec![]), &vec![]),
        fold_class_decl(summary("A", &[], vec![]), &vec![]),
    ];
    assert_eq!(find_class(&known, &"A".to_string()), Some(0));
    assert_eq!(find_class(&known, &"B".to_string()), Some(1));
    assert_eq!(find_class(&known, &"C".to_string()), None);
}

fn method(origin: &str) -> Element {
    Element { flags: 0, origin: origin.to_string(), visibility: CeVisibility::Public, deprecated: None }
}

#[test]
fn own_methods_win_and_known_ancestor_methods_are_inherited() {
    let mut a = summary("A", &[], vec![]);
    a.methods = vec![("m1".to_string(), method("A")), ("m2".to_string(), method("A"))];
    let a = fold_class_decl(a, &vec![]);
    let mut b = summary("B", &[], vec![("A", vec![]), ("Gone", vec![])]);
    b.methods = vec![("m2".to_string(), method("B"))];
    let b = fold_class_decl(b, &vec![a]);
    let got: Vec<(String, String)> = b.methods.iter().map(|(n, e)| (n.clone(), e.origin.clone())).collect();
    assert_eq!(got, pairs(&[("m2", "B"), ("m1", "A")]));
    assert_eq!(b.decl_errors.len(), 1);
    assert_eq!(b.extends, vec!["A".to_string(), "Gone".to_string()]);
}
