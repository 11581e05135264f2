//! Desugaring of markup expressions into object construction.
//!
//! A markup node `<tag a={x} {...y}>child</tag>` becomes
//! `new tag(shape("a" => x, "...0" => y), vec[child], __FILE__, __LINE__)`,
//! where `tag` is the mangled runtime class name, and the class is recorded in
//! the emitter as referenced.
use vstd::prelude::*;
use vstd::pervasive::unreached;
use vstd::string::StringExecFns;
use crate::ast::{
    ClassId, Expr, ExprKind, Id, Pos, Program, ShapeFieldName, Stmt, XhpAttribute,
    expr_markup_free, program_markup_free, stmt_markup_free,
};
use crate::names::{mangle_class_name, make_spread_key, mangled_class_name, spread_key};

verus! {

/// The name of the implicit constant holding the current file path.
pub open spec fn file_const_name() -> Seq<char> {
    "__FILE__"@
}

/// The name of the implicit constant holding the current line number.
pub open spec fn line_const_name() -> Seq<char> {
    "__LINE__"@
}

/// How many of the first `i` attributes are spreads.
pub open spec fn spreads_before(attrs: Seq<XhpAttribute>, i: int) -> nat
    decreases i,
{
    if i <= 0 {
        0
    } else {
        spreads_before(attrs, i - 1) + if attrs[i - 1] is Spread {
            1nat
        } else {
            0nat
        }
    }
}

/// `k` is the shape key for attribute `a`, which is preceded by `n` spreads:
/// the attribute's own name, or `...n` for a spread.
pub open spec fn attribute_key(a: XhpAttribute, n: nat, k: ShapeFieldName) -> bool {
    match k {
        ShapeFieldName::LitStr(p, s) => match a {
            XhpAttribute::Simple(id, _) => p == id.pos && s@ == id.name@,
            XhpAttribute::Spread(v) => p == v.pos && s@ == spread_key(n),
        },
        _ => false,
    }
}

/// `c` is the implicit constant `name`, written at `pos`.
pub open spec fn is_implicit_const(c: Expr, pos: Pos, name: Seq<char>) -> bool {
    c.pos == pos && match c.kind {
        ExprKind::Id(id) => id.pos == pos && id.name@ == name,
        _ => false,
    }
}

/// `r` is `e` with every markup node, at any depth, replaced by its object
/// construction.
pub open spec fn rewritten(e: Expr, r: Expr) -> bool
    decreases e,
{
    r.pos == e.pos && match e.kind {
        ExprKind::Xml(id, attrs, children) => match r.kind {
            ExprKind::New(cid, targs, args, unpacked, p) => {
                &&& cid.pos == e.pos
                &&& cid.name.pos == id.pos
                &&& cid.name.name@ == mangled_class_name(id.name@)
                &&& targs.len() == 0
                &&& unpacked is None
                &&& p == e.pos
                &&& args.len() == 4
                &&& args[0].pos == e.pos
                &&& match args[0].kind {
                    ExprKind::Shape(fields) => fields.len() == attrs.len() && forall|i: int|
                        0 <= i < attrs.len() ==> {
                            &&& attribute_key(attrs[i], spreads_before(attrs@, i), fields[i].0)
                            &&& match #[trigger] attrs[i] {
                                XhpAttribute::Simple(_, v) => rewritten(v, fields[i].1),
                                XhpAttribute::Spread(v) => rewritten(v, fields[i].1),
                            }
                        },
                    _ => false,
                }
                &&& args[1].pos == e.pos
                &&& match args[1].kind {
                    ExprKind::Varray(vs) => vs.len() == children.len() && forall|i: int|
                        0 <= i < children.len() ==> rewritten(#[trigger] children[i], vs[i]),
                    _ => false,
                }
                &&& is_implicit_const(args[2], e.pos, file_const_name())
                &&& is_implicit_const(args[3], e.pos, line_const_name())
            },
            _ => false,
        },
        ExprKind::Call(f, args) => match r.kind {
            ExprKind::Call(g, bs) => rewritten(*f, *g) && bs.len() == args.len() && forall|i: int|
                0 <= i < args.len() ==> rewritten(#[trigger] args[i], bs[i]),
            _ => false,
        },
        ExprKind::Shape(fields) => match r.kind {
            ExprKind::Shape(gs) => gs.len() == fields.len() && forall|i: int|
                0 <= i < fields.len() ==> gs[i].0 == #[trigger] fields[i].0 && rewritten(
                    fields[i].1,
                    gs[i].1,
                ),
            _ => false,
        },
        ExprKind::Varray(es) => match r.kind {
            ExprKind::Varray(fs) => fs.len() == es.len() && forall|i: int|
                0 <= i < es.len() ==> rewritten(#[trigger] es[i], fs[i]),
            _ => false,
        },
        ExprKind::New(cid, targs, args, unpacked, p) => match r.kind {
            ExprKind::New(cid2, targs2, args2, unpacked2, p2) => {
                &&& cid2 == cid
                &&& targs2@ == targs@
                &&& p2 == p
                &&& args2.len() == args.len()
                &&& forall|i: int| 0 <= i < args.len() ==> rewritten(#[trigger] args[i], args2[i])
                &&& match unpacked {
                    Some(u) => match unpacked2 {
                        Some(u2) => rewritten(*u, *u2),
                        None => false,
                    },
                    None => unpacked2 is None,
                }
            },
            _ => false,
        },
        _ => r == e,
    }
}

/// The classes recorded as referenced while rewriting `e`: those of the
/// markup nodes inside it, in the order in which their rewrites complete
/// (a node after everything nested in it).
pub open spec fn markup_refs(e: Expr) -> Seq<Seq<char>>
    decreases e,
{
    match e.kind {
        ExprKind::Xml(id, attrs, children) => attribute_refs(attrs@) + list_refs(children@) + seq![
            mangled_class_name(id.name@),
        ],
        ExprKind::Call(f, args) => markup_refs(*f) + list_refs(args@),
        ExprKind::Shape(fields) => field_refs(fields@),
        ExprKind::Varray(es) => list_refs(es@),
        ExprKind::New(_, _, args, unpacked, _) => list_refs(args@) + match unpacked {
            Some(u) => markup_refs(*u),
            None => Seq::empty(),
        },
        _ => Seq::empty(),
    }
}

pub open spec fn list_refs(es: Seq<Expr>) -> Seq<Seq<char>>
    decreases es,
{
    if es.len() == 0 {
        Seq::empty()
    } else {
        list_refs(es.subrange(0, es.len() - 1)) + markup_refs(es[es.len() - 1])
    }
}

pub open spec fn field_refs(fs: Seq<(ShapeFieldName, Expr)>) -> Seq<Seq<char>>
    decreases fs,
{
    if fs.len() == 0 {
        Seq::empty()
    } else {
        field_refs(fs.subrange(0, fs.len() - 1)) + markup_refs(fs[fs.len() - 1].1)
    }
}

pub open spec fn attribute_refs(attrs: Seq<XhpAttribute>) -> Seq<Seq<char>>
    decreases attrs,
{
    if attrs.len() == 0 {
        Seq::empty()
    } else {
        attribute_refs(attrs.subrange(0, attrs.len() - 1)) + match attrs[attrs.len() - 1] {
            XhpAttribute::Simple(_, v) => markup_refs(v),
            XhpAttribute::Spread(v) => markup_refs(v),
        }
    }
}

/// The attribute `a`, preceded by `n` spreads, became the shape field `f`.
pub open spec fn attribute_rewritten(a: XhpAttribute, n: nat, f: (ShapeFieldName, Expr)) -> bool {
    &&& attribute_key(a, n, f.0)
    &&& match a {
        XhpAttribute::Simple(_, v) => rewritten(v, f.1),
        XhpAttribute::Spread(v) => rewritten(v, f.1),
    }
}

/// The shape field `g` is `f` with its value rewritten.
pub open spec fn field_rewritten(f: (ShapeFieldName, Expr), g: (ShapeFieldName, Expr)) -> bool {
    g.0 == f.0 && rewritten(f.1, g.1)
}

pub open spec fn stmt_rewritten(s: Stmt, t: Stmt) -> bool {
    match s {
        Stmt::Expr(e) => match t {
            Stmt::Expr(f) => rewritten(e, f),
            _ => false,
        },
        Stmt::Return(None) => t == Stmt::Return(None),
        Stmt::Return(Some(e)) => match t {
            Stmt::Return(Some(f)) => rewritten(e, f),
            _ => false,
        },
    }
}

/// `q` is program `p` with every markup node rewritten.
pub open spec fn program_rewritten(p: Program, q: Program) -> bool {
    q.stmts.len() == p.stmts.len() && forall|i: int|
        0 <= i < p.stmts.len() ==> stmt_rewritten(#[trigger] p.stmts[i], q.stmts[i])
}

pub open spec fn stmt_refs(s: Stmt) -> Seq<Seq<char>> {
    match s {
        Stmt::Expr(e) => markup_refs(e),
        Stmt::Return(Some(e)) => markup_refs(e),
        Stmt::Return(None) => Seq::empty(),
    }
}

/// The classes recorded as referenced while rewriting the statements `ss`.
pub open spec fn stmts_refs(ss: Seq<Stmt>) -> Seq<Seq<char>>
    decreases ss.len(),
{
    if ss.len() == 0 {
        Seq::empty()
    } else {
        stmts_refs(ss.subrange(0, ss.len() - 1)) + stmt_refs(ss[ss.len() - 1])
    }
}

/// The collector of classes that generated code refers to.
#[derive(Debug)]
pub struct Emitter {
    pub referenced_classes: Vec<String>,
}

impl Emitter {
    /// The recorded class names, in the order in which they were recorded.
    pub open spec fn refs(&self) -> Seq<Seq<char>> {
        self.referenced_classes@.map_values(|s: String| s@)
    }

    pub fn new() -> (r: Emitter)
        ensures
            r.refs() == Seq::<Seq<char>>::empty(),
    {
        let r = Emitter { referenced_classes: Vec::new() };
        assert(r.refs() =~= Seq::<Seq<char>>::empty());
        r
    }

    /// Records that class `name` is referenced.
    pub fn add_class(&mut self, name: String)
        ensures
            final(self).refs() == old(self).refs().push(name@),
    {
        self.referenced_classes.push(name);
        assert(final(self).refs() =~= old(self).refs().push(name@));
    }

    /// Whether class `name` has been recorded as referenced.
    pub fn is_referenced(&self, name: &String) -> (r: bool)
        ensures
            r == self.refs().contains(name@),
    {
        let mut i: usize = 0;
        while i < self.referenced_classes.len()
            invariant
                0 <= i <= self.referenced_classes.len(),
                forall|j: int| 0 <= j < i ==> self.refs()[j] != name@,
            decreases self.referenced_classes.len() - i,
        {
            if self.referenced_classes[i] == *name {
                assert(self.refs()[i as int] == name@);
                return true;
            }
            i = i + 1;
        }
        false
    }
}

fn copy_id(id: &Id) -> (r: Id)
    ensures
        r == *id,
{
    Id { pos: id.pos, name: id.name.clone() }
}

fn copy_field_name(k: &ShapeFieldName) -> (r: ShapeFieldName)
    ensures
        r == *k,
{
    match k {
        ShapeFieldName::LitStr(p, s) => ShapeFieldName::LitStr(*p, s.clone()),
        ShapeFieldName::LitInt(p, s) => ShapeFieldName::LitInt(*p, s.clone()),
    }
}

fn copy_strings(v: &Vec<String>) -> (r: Vec<String>)
    ensures
        r@ == v@,
{
    let mut r: Vec<String> = Vec::new();
    let mut i: usize = 0;
    while i < v.len()
        invariant
            0 <= i <= v.len(),
            r@ == v@.subrange(0, i as int),
        decreases v.len() - i,
    {
        r.push(v[i].clone());
        i = i + 1;
        assert(r@ =~= v@.subrange(0, i as int));
    }
    assert(v@.subrange(0, v.len() as int) =~= v@);
    r
}

/// Builds the construction that replaces the markup node with tag `id` at
/// `pos`, from its already rewritten shape fields and children, and records
/// the class as referenced.
fn new_markup_object(
    emitter: &mut Emitter,
    pos: Pos,
    id: &Id,
    fields: Vec<(ShapeFieldName, Expr)>,
    children: Vec<Expr>,
) -> (r: Expr)
    ensures
        r.pos == pos,
        final(emitter).refs() == old(emitter).refs().push(mangled_class_name(id.name@)),
        match r.kind {
            ExprKind::New(cid, targs, args, unpacked, p) => {
                &&& cid.pos == pos
                &&& cid.name.pos == id.pos
                &&& cid.name.name@ == mangled_class_name(id.name@)
                &&& targs.len() == 0
                &&& unpacked is None
                &&& p == pos
                &&& args.len() == 4
                &&& args[0] == (Expr { pos, kind: ExprKind::Shape(fields) })
                &&& args[1] == (Expr { pos, kind: ExprKind::Varray(children) })
                &&& is_implicit_const(args[2], pos, file_const_name())
                &&& is_implicit_const(args[3], pos, line_const_name())
            },
            _ => false,
        },
{
    let attribute_map = Expr { pos, kind: ExprKind::Shape(fields) };
    let children_vec = Expr { pos, kind: ExprKind::Varray(children) };
    let filename = Expr {
        pos,
        kind: ExprKind::Id(Id { pos, name: String::from_str("__FILE__") }),
    };
    let line = Expr { pos, kind: ExprKind::Id(Id { pos, name: String::from_str("__LINE__") }) };
    let renamed = mangle_class_name(id.name.as_str());
    let cid = ClassId { pos, name: Id { pos: id.pos, name: renamed.clone() } };
    emitter.add_class(renamed);
    let args = vec![attribute_map, children_vec, filename, line];
    Expr { pos, kind: ExprKind::New(cid, Vec::new(), args, None, pos) }
}


/// Rewrites every markup node inside `e`, recording the class of each.
pub fn rewrite_expr(emitter: &mut Emitter, e: &Expr) -> (r: Expr)
    ensures
        rewritten(*e, r),
        final(emitter).refs() == old(emitter).refs() + markup_refs(*e),
    decreases e, 1nat,
{
    let pos = e.pos;
    match &e.kind {
        ExprKind::Null => Expr { pos, kind: ExprKind::Null },
        ExprKind::Int(s) => Expr { pos, kind: ExprKind::Int(s.clone()) },
        ExprKind::Str(s) => Expr { pos, kind: ExprKind::Str(s.clone()) },
        ExprKind::Lvar(s) => Expr { pos, kind: ExprKind::Lvar(s.clone()) },
        ExprKind::Id(id) => Expr { pos, kind: ExprKind::Id(copy_id(id)) },
        ExprKind::Call(..) => rewrite_call(emitter, e),
        ExprKind::Shape(fields) => {
            let gs = rewrite_fields(emitter, fields);
            Expr { pos, kind: ExprKind::Shape(gs) }
        },
        ExprKind::Varray(es) => {
            let fs = rewrite_exprs(emitter, es);
            Expr { pos, kind: ExprKind::Varray(fs) }
        },
        ExprKind::New(..) => rewrite_new(emitter, e),
        ExprKind::Xml(..) => rewrite_markup(emitter, e),
    }
}

fn rewrite_call(emitter: &mut Emitter, e: &Expr) -> (r: Expr)
    requires
        e.kind is Call,
    ensures
        rewritten(*e, r),
        final(emitter).refs() == old(emitter).refs() + markup_refs(*e),
    decreases e, 0nat,
{
    match &e.kind {
        ExprKind::Call(f, args) => {
            let g = rewrite_expr(emitter, &**f);
            let bs = rewrite_exprs(emitter, args);
            proof {
                assert(final(emitter).refs() =~= old(emitter).refs() + markup_refs(*e));
            }
            Expr { pos: e.pos, kind: ExprKind::Call(Box::new(g), bs) }
        },
        _ => unreached(),
    }
}

fn rewrite_new(emitter: &mut Emitter, e: &Expr) -> (r: Expr)
    requires
        e.kind is New,
    ensures
        rewritten(*e, r),
        final(emitter).refs() == old(emitter).refs() + markup_refs(*e),
    decreases e, 0nat,
{
    match &e.kind {
        ExprKind::New(cid, targs, args, unpacked, p) => {
            let args2 = rewrite_exprs(emitter, args);
            let unpacked2 = match unpacked {
                Some(u) => Some(Box::new(rewrite_expr(emitter, &**u))),
                None => None,
            };
            let cid2 = ClassId { pos: cid.pos, name: copy_id(&cid.name) };
            proof {
                assert(final(emitter).refs() =~= old(emitter).refs() + markup_refs(*e));
            }
            Expr { pos: e.pos, kind: ExprKind::New(cid2, copy_strings(targs), args2, unpacked2, *p) }
        },
        _ => unreached(),
    }
}

fn rewrite_markup(emitter: &mut Emitter, e: &Expr) -> (r: Expr)
    requires
        e.kind is Xml,
    ensures
        rewritten(*e, r),
        final(emitter).refs() == old(emitter).refs() + markup_refs(*e),
    decreases e, 0nat,
{
    match &e.kind {
        ExprKind::Xml(id, attrs, children) => {
            let fields = rewrite_attributes(emitter, attrs);
            let vs = rewrite_exprs(emitter, children);
            let r = new_markup_object(emitter, e.pos, id, fields, vs);
            proof {
                assert(final(emitter).refs() =~= old(emitter).refs() + markup_refs(*e));
            }
            r
        },
        _ => unreached(),
    }
}

/// Rewrites each expression of `es`, in order.
fn rewrite_exprs(emitter: &mut Emitter, es: &Vec<Expr>) -> (r: Vec<Expr>)
    ensures
        r.len() == es.len(),
        forall|i: int| 0 <= i < es.len() ==> rewritten(#[trigger] es[i], r[i]),
        final(emitter).refs() == old(emitter).refs() + list_refs(es@),
    decreases es@, 0nat,
{
    let mut r: Vec<Expr> = Vec::new();
    let mut i: usize = 0;
    while i < es.len()
        invariant
            0 <= i <= es.len(),
            r.len() == i,
            forall|j: int| 0 <= j < i ==> rewritten(#[trigger] es[j], r[j]),
            emitter.refs() == old(emitter).refs() + list_refs(es@.subrange(0, i as int)),
        decreases es.len() - i,
    {
        let ghost before = emitter.refs();
        let x = rewrite_expr(emitter, &es[i]);
        r.push(x);
        proof {
            let s = es@.subrange(0, i + 1);
            assert(s.subrange(0, s.len() - 1) =~= es@.subrange(0, i as int));
            assert(emitter.refs() =~= old(emitter).refs() + list_refs(s));
        }
        i = i + 1;
    }
    assert(es@.subrange(0, es.len() as int) =~= es@);
    r
}

/// Rewrites the values of the shape fields `fs`, keeping their keys.
fn rewrite_fields(emitter: &mut Emitter, fs: &Vec<(ShapeFieldName, Expr)>) -> (r: Vec<
    (ShapeFieldName, Expr),
>)
    ensures
        r.len() == fs.len(),
        forall|i: int| 0 <= i < fs.len() ==> field_rewritten(#[trigger] fs[i], r[i]),
        final(emitter).refs() == old(emitter).refs() + field_refs(fs@),
    decreases fs@, 0nat,
{
    let mut r: Vec<(ShapeFieldName, Expr)> = Vec::new();
    let mut i: usize = 0;
    while i < fs.len()
        invariant
            0 <= i <= fs.len(),
            r.len() == i,
            forall|j: int| 0 <= j < i ==> field_rewritten(#[trigger] fs[j], r[j]),
            emitter.refs() == old(emitter).refs() + field_refs(fs@.subrange(0, i as int)),
        decreases fs.len() - i,
    {
        let k = copy_field_name(&fs[i].0);
        let v = rewrite_expr(emitter, &fs[i].1);
        r.push((k, v));
        proof {
            let s = fs@.subrange(0, i + 1);
            assert(s.subrange(0, s.len() - 1) =~= fs@.subrange(0, i as int));
            assert(emitter.refs() =~= old(emitter).refs() + field_refs(s));
        }
        i = i + 1;
    }
    assert(fs@.subrange(0, fs.len() as int) =~= fs@);
    r
}

/// Turns the attributes of a markup node into shape fields, in order: a
/// named attribute is keyed by its name, the `n`-th spread by `...n`; the
/// values are rewritten.
fn rewrite_attributes(emitter: &mut Emitter, attrs: &Vec<XhpAttribute>) -> (r: Vec<
    (ShapeFieldName, Expr),
>)
    ensures
        r.len() == attrs.len(),
        forall|i: int|
            0 <= i < attrs.len() ==> attribute_rewritten(
                #[trigger] attrs[i],
                spreads_before(attrs@, i),
                r[i],
            ),
        final(emitter).refs() == old(emitter).refs() + attribute_refs(attrs@),
    decreases attrs@, 0nat,
{
    let mut r: Vec<(ShapeFieldName, Expr)> = Vec::new();
    let mut spread_id: usize = 0;
    let mut i: usize = 0;
    while i < attrs.len()
        invariant
            0 <= i <= attrs.len(),
            r.len() == i,
            spread_id == spreads_before(attrs@, i as int),
            spread_id <= i,
            forall|j: int|
                0 <= j < i ==> attribute_rewritten(
                    #[trigger] attrs[j],
                    spreads_before(attrs@, j),
                    r[j],
                ),
            emitter.refs() == old(emitter).refs() + attribute_refs(attrs@.subrange(0, i as int)),
        decreases attrs.len() - i,
    {
        match &attrs[i] {
            XhpAttribute::Simple(id, v) => {
                let v2 = rewrite_expr(emitter, v);
                r.push((ShapeFieldName::LitStr(id.pos, id.name.clone()), v2));
            },
            XhpAttribute::Spread(v) => {
                let v2 = rewrite_expr(emitter, v);
                let key = make_spread_key(spread_id as u64);
                r.push((ShapeFieldName::LitStr(v.pos, key), v2));
                spread_id = spread_id + 1;
            },
        }
        proof {
            let s = attrs@.subrange(0, i + 1);
            assert(s.subrange(0, s.len() - 1) =~= attrs@.subrange(0, i as int));
            assert(emitter.refs() =~= old(emitter).refs() + attribute_refs(s));
        }
        i = i + 1;
    }
    assert(attrs@.subrange(0, attrs.len() as int) =~= attrs@);
    r
}


/// Rewrites every markup node of `prog` in place into an object
/// construction, recording each constructed class in `emitter`.
pub fn rewrite_xml(emitter: &mut Emitter, prog: &mut Program)
    ensures
        program_rewritten(*old(prog), *final(prog)),
        program_markup_free(*final(prog)),
        final(emitter).refs() == old(emitter).refs() + stmts_refs(old(prog).stmts@),
{
    let mut out: Vec<Stmt> = Vec::new();
    let mut i: usize = 0;
    while i < prog.stmts.len()
        invariant
            0 <= i <= prog.stmts.len(),
            *prog == *old(prog),
            out.len() == i,
            forall|j: int| 0 <= j < i ==> stmt_rewritten(#[trigger] prog.stmts[j], out[j]),
            emitter.refs() == old(emitter).refs() + stmts_refs(prog.stmts@.subrange(0, i as int)),
        decreases prog.stmts.len() - i,
    {
        let s = match &prog.stmts[i] {
            Stmt::Expr(e) => Stmt::Expr(rewrite_expr(emitter, e)),
            Stmt::Return(Some(e)) => Stmt::Return(Some(rewrite_expr(emitter, e))),
            Stmt::Return(None) => Stmt::Return(None),
        };
        out.push(s);
        proof {
            let ss = prog.stmts@.subrange(0, i + 1);
            assert(ss.subrange(0, ss.len() - 1) =~= prog.stmts@.subrange(0, i as int));
            assert(emitter.refs() =~= old(emitter).refs() + stmts_refs(ss));
        }
        i = i + 1;
    }
    assert(prog.stmts@.subrange(0, prog.stmts.len() as int) =~= prog.stmts@);
    prog.stmts = out;
    proof {
        assert forall|j: int| 0 <= j < final(prog).stmts.len() implies stmt_markup_free(
            #[trigger] final(prog).stmts[j],
        ) by {
            lemma_stmt_rewrite_leaves_no_markup(old(prog).stmts[j], final(prog).stmts[j]);
        }
    }
}

/// A rewritten expression holds no markup node, at any depth: nested markup
/// inside attributes and children of other markup is rewritten too.
pub proof fn lemma_rewrite_leaves_no_markup(e: Expr, r: Expr)
    requires
        rewritten(e, r),
    ensures
        expr_markup_free(r),
    decreases e,
{
    match e.kind {
        ExprKind::Xml(id, attrs, children) => match r.kind {
            ExprKind::New(cid, targs, args, unpacked, p) => {
                match args[0].kind {
                    ExprKind::Shape(fields) => {
                        assert forall|i: int| 0 <= i < fields.len() implies expr_markup_free(#[trigger] fields[i].1) by {
                            match attrs[i] {
                                XhpAttribute::Simple(_, v) => lemma_rewrite_leaves_no_markup(
                                    v,
                                    fields[i].1,
                                ),
                                XhpAttribute::Spread(v) => lemma_rewrite_leaves_no_markup(
                                    v,
                                    fields[i].1,
                                ),
                            }
                        }
                        assert(expr_markup_free(args[0]));
                    },
                    _ => {},
                }
                match args[1].kind {
                    ExprKind::Varray(vs) => {
                        assert forall|i: int| 0 <= i < vs.len() implies expr_markup_free(#[trigger] vs[i]) by {
                            lemma_rewrite_leaves_no_markup(children[i], vs[i]);
                        }
                        assert(expr_markup_free(args[1]));
                    },
                    _ => {},
                }
                assert(forall|i: int| 0 <= i < args.len() ==> expr_markup_free(#[trigger] args[i]))
                    by {
                    assert(expr_markup_free(args[0]));
                    assert(expr_markup_free(args[1]));
                    assert(expr_markup_free(args[2]));
                    assert(expr_markup_free(args[3]));
                }
            },
            _ => {},
        },
        ExprKind::Call(f, args) => match r.kind {
            ExprKind::Call(g, bs) => {
                lemma_rewrite_leaves_no_markup(*f, *g);
                assert forall|i: int| 0 <= i < bs.len() implies expr_markup_free(#[trigger] bs[i]) by {
                    lemma_rewrite_leaves_no_markup(args[i], bs[i]);
                }
            },
            _ => {},
        },
        ExprKind::Shape(fields) => match r.kind {
            ExprKind::Shape(gs) => {
                assert forall|i: int| 0 <= i < gs.len() implies expr_markup_free(#[trigger] gs[i].1) by {
                    assert(gs[i].0 == fields[i].0);
                    lemma_rewrite_leaves_no_markup(fields[i].1, gs[i].1);
                }
            },
            _ => {},
        },
        ExprKind::Varray(es) => match r.kind {
            ExprKind::Varray(fs) => {
                assert forall|i: int| 0 <= i < fs.len() implies expr_markup_free(#[trigger] fs[i]) by {
                    lemma_rewrite_leaves_no_markup(es[i], fs[i]);
                }
            },
            _ => {},
        },
        ExprKind::New(_, _, args, unpacked, _) => match r.kind {
            ExprKind::New(_, _, args2, unpacked2, _) => {
                assert forall|i: int| 0 <= i < args2.len() implies expr_markup_free(#[trigger] args2[i]) by {
                    lemma_rewrite_leaves_no_markup(args[i], args2[i]);
                }
                match unpacked {
                    Some(u) => match unpacked2 {
                        Some(u2) => lemma_rewrite_leaves_no_markup(*u, *u2),
                        None => {},
                    },
                    None => {},
                }
            },
            _ => {},
        },
        _ => {},
    }
}

proof fn lemma_stmt_rewrite_leaves_no_markup(s: Stmt, t: Stmt)
    requires
        stmt_rewritten(s, t),
    ensures
        stmt_markup_free(t),
{
    match s {
        Stmt::Expr(e) => match t {
            Stmt::Expr(f) => lemma_rewrite_leaves_no_markup(e, f),
            _ => {},
        },
        Stmt::Return(Some(e)) => match t {
            Stmt::Return(Some(f)) => lemma_rewrite_leaves_no_markup(e, f),
            _ => {},
        },
        Stmt::Return(None) => {},
    }
}

/// After the rewrite of a program no markup node remains anywhere in it.
pub proof fn lemma_program_rewrite_leaves_no_markup(p: Program, q: Program)
    requires
        program_rewritten(p, q),
    ensures
        program_markup_free(q),
{
    assert forall|j: int| 0 <= j < q.stmts.len() implies stmt_markup_free(
        #[trigger] q.stmts[j],
    ) by {
        lemma_stmt_rewrite_leaves_no_markup(p.stmts[j], q.stmts[j]);
    }
}


/// An expression without markup records no class when rewritten.
pub proof fn lemma_markup_free_records_nothing(e: Expr)
    requires
        expr_markup_free(e),
    ensures
        markup_refs(e) == Seq::<Seq<char>>::empty(),
    decreases e, 1nat,
{
    match e.kind {
        ExprKind::Call(f, args) => {
            lemma_markup_free_records_nothing(*f);
            lemma_markup_free_list_records_nothing(args@);
        },
        ExprKind::Shape(fields) => {
            lemma_markup_free_fields_record_nothing(fields@);
        },
        ExprKind::Varray(es) => {
            lemma_markup_free_list_records_nothing(es@);
        },
        ExprKind::New(_, _, args, unpacked, _) => {
            lemma_markup_free_list_records_nothing(args@);
            match unpacked {
                Some(u) => lemma_markup_free_records_nothing(*u),
                None => {},
            }
        },
        _ => {},
    }
}

proof fn lemma_markup_free_list_records_nothing(es: Seq<Expr>)
    requires
        forall|i: int| 0 <= i < es.len() ==> expr_markup_free(#[trigger] es[i]),
    ensures
        list_refs(es) == Seq::<Seq<char>>::empty(),
    decreases es, 0nat,
{
    if es.len() > 0 {
        let front = es.subrange(0, es.len() - 1);
        assert forall|i: int| 0 <= i < front.len() implies expr_markup_free(#[trigger] front[i]) by {
            assert(front[i] == es[i]);
        }
        lemma_markup_free_list_records_nothing(front);
        lemma_markup_free_records_nothing(es[es.len() - 1]);
    }
}

proof fn lemma_markup_free_fields_record_nothing(fs: Seq<(ShapeFieldName, Expr)>)
    requires
        forall|i: int| 0 <= i < fs.len() ==> expr_markup_free(#[trigger] fs[i].1),
    ensures
        field_refs(fs) == Seq::<Seq<char>>::empty(),
    decreases fs, 0nat,
{
    if fs.len() > 0 {
        let front = fs.subrange(0, fs.len() - 1);
        assert forall|i: int| 0 <= i < front.len() implies expr_markup_free(#[trigger] front[i].1) by {
            assert(front[i] == fs[i]);
        }
        lemma_markup_free_fields_record_nothing(front);
        lemma_markup_free_records_nothing(fs[fs.len() - 1].1);
    }
}

/// Rewriting the output of a rewrite again records no class, and what it
/// yields is again a rewrite of the input expression: the second run
/// changes nothing.
pub proof fn lemma_rewrite_idempotent(e: Expr, r: Expr, r2: Expr)
    requires
        rewritten(e, r),
        rewritten(r, r2),
    ensures
        markup_refs(r) == Seq::<Seq<char>>::empty(),
        rewritten(e, r2),
    decreases e,
{
    lemma_rewrite_leaves_no_markup(e, r);
    lemma_markup_free_records_nothing(r);
    match e.kind {
        ExprKind::Xml(id, attrs, children) => match r.kind {
            ExprKind::New(cid, targs, args, unpacked, p) => match r2.kind {
                ExprKind::New(cid2, targs2, args2, unpacked2, p2) => {
                    assert(rewritten(args[0], args2[0]));
                    assert(rewritten(args[1], args2[1]));
                    assert(rewritten(args[2], args2[2]));
                    assert(rewritten(args[3], args2[3]));
                    match args[0].kind {
                        ExprKind::Shape(fields) => match args2[0].kind {
                            ExprKind::Shape(gs) => {
                                assert forall|i: int| 0 <= i < attrs.len() implies {
                                    &&& attribute_key(attrs[i], spreads_before(attrs@, i), gs[i].0)
                                    &&& match #[trigger] attrs[i] {
                                        XhpAttribute::Simple(_, v) => rewritten(v, gs[i].1),
                                        XhpAttribute::Spread(v) => rewritten(v, gs[i].1),
                                    }
                                } by {
                                    assert(gs[i].0 == fields[i].0);
                                    assert(rewritten(fields[i].1, gs[i].1));
                                    match attrs[i] {
                                        XhpAttribute::Simple(_, v) => lemma_rewrite_idempotent(
                                            v,
                                            fields[i].1,
                                            gs[i].1,
                                        ),
                                        XhpAttribute::Spread(v) => lemma_rewrite_idempotent(
                                            v,
                                            fields[i].1,
                                            gs[i].1,
                                        ),
                                    }
                                }
                            },
                            _ => {},
                        },
                        _ => {},
                    }
                    match args[1].kind {
                        ExprKind::Varray(vs) => match args2[1].kind {
                            ExprKind::Varray(ws) => {
                                assert forall|i: int| 0 <= i < children.len() implies rewritten(
                                    #[trigger] children[i],
                                    ws[i],
                                ) by {
                                    assert(rewritten(vs[i], ws[i]));
                                    lemma_rewrite_idempotent(children[i], vs[i], ws[i]);
                                }
                            },
                            _ => {},
                        },
                        _ => {},
                    }
                },
                _ => {},
            },
            _ => {},
        },
        ExprKind::Call(f, args) => match r.kind {
            ExprKind::Call(g, bs) => match r2.kind {
                ExprKind::Call(h, cs) => {
                    lemma_rewrite_idempotent(*f, *g, *h);
                    assert forall|i: int| 0 <= i < args.len() implies rewritten(
                        #[trigger] args[i],
                        cs[i],
                    ) by {
                        assert(rewritten(bs[i], cs[i]));
                        lemma_rewrite_idempotent(args[i], bs[i], cs[i]);
                    }
                },
                _ => {},
            },
            _ => {},
        },
        ExprKind::Shape(fields) => match r.kind {
            ExprKind::Shape(gs) => match r2.kind {
                ExprKind::Shape(hs) => {
                    assert forall|i: int| 0 <= i < fields.len() implies hs[i].0
                        == #[trigger] fields[i].0 && rewritten(fields[i].1, hs[i].1) by {
                        assert(gs[i].0 == fields[i].0);
                        assert(hs[i].0 == gs[i].0);
                        lemma_rewrite_idempotent(fields[i].1, gs[i].1, hs[i].1);
                    }
                },
                _ => {},
            },
            _ => {},
        },
        ExprKind::Varray(es) => match r.kind {
            ExprKind::Varray(fs) => match r2.kind {
                ExprKind::Varray(gs) => {
                    assert forall|i: int| 0 <= i < es.len() implies rewritten(
                        #[trigger] es[i],
                        gs[i],
                    ) by {
                        assert(rewritten(fs[i], gs[i]));
                        lemma_rewrite_idempotent(es[i], fs[i], gs[i]);
                    }
                },
                _ => {},
            },
            _ => {},
        },
        ExprKind::New(_, _, args, unpacked, _) => match r.kind {
            ExprKind::New(_, _, args2, unpacked2, _) => match r2.kind {
                ExprKind::New(_, _, args3, unpacked3, _) => {
                    assert forall|i: int| 0 <= i < args.len() implies rewritten(
                        #[trigger] args[i],
                        args3[i],
                    ) by {
                        assert(rewritten(args2[i], args3[i]));
                        lemma_rewrite_idempotent(args[i], args2[i], args3[i]);
                    }
                    match unpacked {
                        Some(u) => match unpacked2 {
                            Some(u2) => match unpacked3 {
                                Some(u3) => lemma_rewrite_idempotent(*u, *u2, *u3),
                                None => {},
                            },
                            None => {},
                        },
                        None => {},
                    }
                },
                _ => {},
            },
            _ => {},
        },
        _ => {},
    }
}


proof fn lemma_stmt_rewrite_idempotent(s: Stmt, t: Stmt, t2: Stmt)
    requires
        stmt_rewritten(s, t),
        stmt_rewritten(t, t2),
    ensures
        stmt_refs(t) == Seq::<Seq<char>>::empty(),
        stmt_rewritten(s, t2),
{
    match s {
        Stmt::Expr(e) => match t {
            Stmt::Expr(f) => match t2 {
                Stmt::Expr(g) => lemma_rewrite_idempotent(e, f, g),
                _ => {},
            },
            _ => {},
        },
        Stmt::Return(Some(e)) => match t {
            Stmt::Return(Some(f)) => match t2 {
                Stmt::Return(Some(g)) => lemma_rewrite_idempotent(e, f, g),
                _ => {},
            },
            _ => {},
        },
        Stmt::Return(None) => {},
    }
}

proof fn lemma_stmts_record_nothing(ss: Seq<Stmt>)
    requires
        forall|i: int| 0 <= i < ss.len() ==> #[trigger] stmt_refs(ss[i]) == Seq::<Seq<char>>::empty(),
    ensures
        stmts_refs(ss) == Seq::<Seq<char>>::empty(),
    decreases ss.len(),
{
    if ss.len() > 0 {
        let front = ss.subrange(0, ss.len() - 1);
        assert forall|i: int| 0 <= i < front.len() implies #[trigger] stmt_refs(front[i])
            == Seq::<Seq<char>>::empty() by {
            assert(front[i] == ss[i]);
        }
        lemma_stmts_record_nothing(front);
        assert(stmts_refs(ss) =~= Seq::<Seq<char>>::empty());
    }
}

/// Running the rewrite on a program it has already rewritten records no
/// class and again yields a rewrite of the input program.
pub proof fn lemma_program_rewrite_idempotent(p: Program, q: Program, q2: Program)
    requires
        program_rewritten(p, q),
        program_rewritten(q, q2),
    ensures
        stmts_refs(q.stmts@) == Seq::<Seq<char>>::empty(),
        program_rewritten(p, q2),
{
    assert forall|i: int| 0 <= i < q.stmts.len() implies #[trigger] stmt_refs(q.stmts[i])
        == Seq::<Seq<char>>::empty() && stmt_rewritten(p.stmts[i], q2.stmts[i]) by {
        assert(stmt_rewritten(p.stmts[i], q.stmts[i]));
        assert(stmt_rewritten(q.stmts[i], q2.stmts[i]));
        lemma_stmt_rewrite_idempotent(p.stmts[i], q.stmts[i], q2.stmts[i]);
    }
    assert forall|i: int| 0 <= i < p.stmts.len() implies stmt_rewritten(
        #[trigger] p.stmts[i],
        q2.stmts[i],
    ) by {
        assert(stmt_refs(q.stmts[i]) == Seq::<Seq<char>>::empty());
    }
    lemma_stmts_record_nothing(q.stmts@);
}

} // verus!
