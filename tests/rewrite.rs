use hack_frontend::ast::{ClassId, Expr, ExprKind, Id, Pos, Program, ShapeFieldName, Stmt, XhpAttribute};
use hack_frontend::names::{make_spread_key, mangle_class_name};
use hack_frontend::rewrite_xml::{rewrite_expr, rewrite_xml, Emitter};

fn pos(line: u64) -> Pos {
    Pos { offset: line * 100, width: 5, line }
}

fn id(p: Pos, name: &str) -> Id {
    Id { pos: p, name: name.to_string() }
}

fn ex(p: Pos, kind: ExprKind) -> Expr {
    Expr { pos: p, kind }
}

fn int_lit(p: Pos, v: &str) -> Expr {
    ex(p, ExprKind::Int(v.to_string()))
}

fn lvar(p: Pos, v: &str) -> Expr {
    ex(p, ExprKind::Lvar(v.to_string()))
}

fn call(p: Pos, f: &str, args: Vec<Expr>) -> Expr {
    ex(p, ExprKind::Call(Box::new(ex(p, ExprKind::Id(id(p, f)))), args))
}

fn xml(p: Pos, tag: &str, attrs: Vec<XhpAttribute>, children: Vec<Expr>) -> Expr {
    ex(p, ExprKind::Xml(id(p, tag), attrs, children))
}

fn simple(p: Pos, name: &str, v: Expr) -> XhpAttribute {
    XhpAttribute::Simple(id(p, name), v)
}

fn has_markup(e: &Expr) -> bool {
    match &e.kind {
        ExprKind::Xml(..) => true,
        ExprKind::Call(f, args) => has_markup(f) || args.iter().any(has_markup),
        ExprKind::Shape(fs) => fs.iter().any(|(_, v)| has_markup(v)),
        ExprKind::Varray(es) => es.iter().any(has_markup),
        ExprKind::New(_, _, args, u, _) => {
            args.iter().any(has_markup) || u.as_ref().map_or(false, |u| has_markup(u))
        }
        _ => false,
    }
}

fn new_parts(e: &Expr) -> (&ClassId, &Vec<String>, &Vec<Expr>, &Option<Box<Expr>>, &Pos) {
    match &e.kind {
        ExprKind::New(c, t, a, u, p) => (c, t, a, u, p),
        other => panic!("expected a construction, got {:?}", other),
    }
}

fn shape_keys(e: &Expr) -> Vec<String> {
    match &e.kind {
        ExprKind::Shape(fs) => fs
            .iter()
            .map(|(k, _)| match k {
                ShapeFieldName::LitStr(_, s) => s.clone(),
                ShapeFieldName::LitInt(_, s) => s.clone(),
            })
            .collect(),
        other => panic!("expected a shape, got {:?}", other),
    }
}

#[test]
fn widget_end_to_end() {
    let p = pos(10);
    let node = xml(
        p,
        "my:widget",
        vec![simple(p, "foo", int_lit(p, "1")), XhpAttribute::Spread(lvar(p, "$rest"))],
        vec![call(p, "inner", vec![])],
    );
    let mut em = Emitter::new();
    let r = rewrite_expr(&mut em, &node);
    assert_eq!(r.pos, p);
    let (cid, targs, args, unpacked, npos) = new_parts(&r);
    assert_eq!(cid.name.name, "my_widget");
    assert!(targs.is_empty());
    assert!(unpacked.is_none());
    assert_eq!(*npos, p);
    assert_eq!(args.len(), 4);
    assert_eq!(shape_keys(&args[0]), vec!["foo".to_string(), "...0".to_string()]);
    match &args[0].kind {
        ExprKind::Shape(fs) => {
            assert_eq!(format!("{:?}", fs[0].1), format!("{:?}", int_lit(p, "1")));
            assert_eq!(format!("{:?}", fs[1].1), format!("{:?}", lvar(p, "$rest")));
        }
        _ => unreachable!(),
    }
    match &args[1].kind {
        ExprKind::Varray(vs) => {
            assert_eq!(vs.len(), 1);
            assert_eq!(format!("{:?}", vs[0]), format!("{:?}", call(p, "inner", vec![])));
        }
        other => panic!("expected a vector, got {:?}", other),
    }
    match (&args[2].kind, &args[3].kind) {
        (ExprKind::Id(f), ExprKind::Id(l)) => {
            assert_eq!(f.name, "__FILE__");
            assert_eq!(l.name, "__LINE__");
            assert_eq!(l.pos.line, 10);
            assert_eq!(args[3].pos.line, 10);
        }
        other => panic!("expected implicit constants, got {:?}", other),
    }
    assert_eq!(em.referenced_classes, vec!["my_widget".to_string()]);
    assert!(em.is_referenced(&"my_widget".to_string()));
    assert!(!em.is_referenced(&"my:widget".to_string()));
}

#[test]
fn spread_keys_count_per_node() {
    let p = pos(3);
    let first = xml(
        p,
        "a",
        vec![
            XhpAttribute::Spread(lvar(p, "$x")),
            simple(p, "k", int_lit(p, "2")),
            XhpAttribute::Spread(lvar(p, "$y")),
        ],
        vec![],
    );
    let second = xml(p, "b", vec![XhpAttribute::Spread(lvar(p, "$z"))], vec![]);
    let outer = ex(p, ExprKind::Varray(vec![first, second]));
    let mut em = Emitter::new();
    let r = rewrite_expr(&mut em, &outer);
    match &r.kind {
        ExprKind::Varray(vs) => {
            let (_, _, a0, _, _) = new_parts(&vs[0]);
            let (_, _, a1, _, _) = new_parts(&vs[1]);
            assert_eq!(shape_keys(&a0[0]), vec!["...0", "k", "...1"]);
            assert_eq!(shape_keys(&a1[0]), vec!["...0"]);
        }
        other => panic!("expected a vector, got {:?}", other),
    }
    assert_eq!(em.referenced_classes, vec!["a".to_string(), "b".to_string()]);
}

#[test]
fn nested_markup_is_rewritten_everywhere() {
    let p = pos(1);
    let inner_attr = xml(p, ":x:inner", vec![], vec![]);
    let inner_child = xml(p, "y-child", vec![simple(p, "q", inner_attr)], vec![]);
    let outer = xml(
        p,
        "outer",
        vec![XhpAttribute::Spread(call(p, "f", vec![xml(p, "z", vec![], vec![])]))],
        vec![inner_child],
    );
    let mut prog = Program {
        stmts: vec![Stmt::Expr(outer), Stmt::Return(Some(xml(p, "ret", vec![], vec![]))), Stmt::Return(None)],
    };
    let mut em = Emitter::new();
    rewrite_xml(&mut em, &mut prog);
    for s in &prog.stmts {
        match s {
            Stmt::Expr(e) | Stmt::Return(Some(e)) => assert!(!has_markup(e)),
            Stmt::Return(None) => {}
        }
    }
    assert_eq!(
        em.referenced_classes,
        vec!["z", "x_inner", "y_child", "outer", "ret"]
            .into_iter()
            .map(String::from)
            .collect::<Vec<_>>()
    );
}

#[test]
fn second_rewrite_changes_nothing() {
    let p = pos(7);
    let e = xml(p, "w", vec![simple(p, "a", xml(p, "v", vec![], vec![int_lit(p, "5")]))], vec![lvar(p, "$c")]);
    let mut prog = Program { stmts: vec![Stmt::Expr(e)] };
    let mut em = Emitter::new();
    rewrite_xml(&mut em, &mut prog);
    let once = format!("{:?}", prog);
    let recorded = em.referenced_classes.clone();
    rewrite_xml(&mut em, &mut prog);
    assert_eq!(format!("{:?}", prog), once);
    assert_eq!(em.referenced_classes, recorded);
}

#[test]
fn expressions_without_markup_are_copied() {
    let p = pos(2);
    let e = ex(
        p,
        ExprKind::New(
            ClassId { pos: p, name: id(p, "C") },
            vec!["int".to_string()],
            vec![int_lit(p, "1"), ex(p, ExprKind::Str("s".to_string())), ex(p, ExprKind::Null)],
            Some(Box::new(lvar(p, "$rest"))),
            p,
        ),
    );
    let mut em = Emitter::new();
    let r = rewrite_expr(&mut em, &e);
    assert_eq!(format!("{:?}", r), format!("{:?}", e));
    assert!(em.referenced_classes.is_empty());
}

#[test]
fn tag_mangling() {
    assert_eq!(mangle_class_name("my:widget"), "my_widget");
    assert_eq!(mangle_class_name(":my:widget"), "my_widget");
    assert_eq!(mangle_class_name("\\:ui:text-box"), "ui_text_box");
    assert_eq!(mangle_class_name("Plain"), "Plain");
    assert_eq!(mangle_class_name(""), "");
}

#[test]
fn spread_key_numbers() {
    assert_eq!(make_spread_key(0), "...0");
    assert_eq!(make_spread_key(7), "...7");
    assert_eq!(make_spread_key(10), "...10");
    assert_eq!(make_spread_key(1234), "...1234");
}

#[test]
fn eleven_spreads_reach_two_digits() {
    let p = pos(4);
    let attrs: Vec<XhpAttribute> = (0..11).map(|i| XhpAttribute::Spread(lvar(p, &format!("$v{}", i)))).collect();
    let mut em = Emitter::new();
    let r = rewrite_expr(&mut em, &xml(p, "t", attrs, vec![]));
    let (_, _, args, _, _) = new_parts(&r);
    let keys = shape_keys(&args[0]);
    assert_eq!(keys[0], "...0");
    assert_eq!(keys[9], "...9");
    assert_eq!(keys[10], "...10");
}
