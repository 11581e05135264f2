//! The declaration model of a class: types, substitution contexts and the
//! folded class declaration.
use vstd::prelude::*;

verus! {

/// A type expression, as far as substitution needs it.
#[derive(Debug)]
pub enum Ty {
    /// A type parameter, by name.
    Generic(String),
    /// A class or primitive type applied to type arguments (`int`, `A<Tb, int>`).
    Apply(String, Vec<Ty>),
}

/// How the type parameters of an ancestor are seen from an inheriting class.
#[derive(Debug)]
pub struct SubstContext {
    /// Each type parameter of the ancestor with the type that replaces it.
    pub subst: Vec<(String, Ty)>,
    /// The class that establishes this context.
    pub class_context: String,
    /// Whether the relation comes from a `require extends` constraint.
    pub from_req_extends: bool,
}

#[derive(Clone, Copy, Debug, PartialEq, Eq, Structural)]
pub enum SourceType {
    Child,
    Parent,
    Trait,
    XHPAttr,
    Interface,
    IncludedEnum,
    ReqImpl,
    ReqExtends,
}

#[derive(Clone, Copy, Debug, PartialEq, Eq, Structural)]
pub enum LinearizationKind {
    MemberResolution,
    AncestorTypes,
}

#[derive(Clone, Copy, Debug, PartialEq, Eq, Structural)]
pub enum ClassishKind {
    Class,
    Interface,
    Trait,
    Enum,
}

#[derive(Clone, Copy, Debug, PartialEq, Eq, Structural)]
pub enum CeVisibility {
    Public,
    Protected,
    Private,
    Internal,
}

/// Tri-state marker of how a class's constructor must be kept consistent.
#[derive(Clone, Copy, Debug, PartialEq, Eq, Structural)]
pub enum ConsistentKind {
    Inconsistent,
    ConsistentConstruct,
    FinalClass,
}

/// A class member: its flags, the class that defines it, its visibility and
/// its deprecation note.
#[derive(Debug)]
pub struct Element {
    pub flags: u16,
    pub origin: String,
    pub visibility: CeVisibility,
    pub deprecated: Option<String>,
}

/// A non-fatal error found while folding a class declaration.
#[derive(Debug)]
pub enum DeclError {
    /// An ancestor names a class that is not known.
    UnknownAncestor(String),
    /// An ancestor is given a number of type arguments other than the number of
    /// its type parameters: class, expected, given.
    TparamArity(String, u64, u64),
}

/// The flattened, inheritance-aware declaration of a class.
#[derive(Debug)]
pub struct DeclClassType {
    pub need_init: bool,
    pub abstract_: bool,
    pub final_: bool,
    pub const_: bool,
    pub internal: bool,
    pub kind: ClassishKind,
    pub is_xhp: bool,
    pub name: String,
    pub tparams: Vec<String>,
    /// Ancestor class name to the substitution that views it from this class.
    pub substs: Vec<(String, SubstContext)>,
    pub methods: Vec<(String, Element)>,
    pub smethods: Vec<(String, Element)>,
    pub props: Vec<(String, Element)>,
    pub sprops: Vec<(String, Element)>,
    pub construct: (Option<Element>, ConsistentKind),
    /// Ancestor class name to its type as seen from this class.
    pub ancestors: Vec<(String, Ty)>,
    pub extends: Vec<String>,
    pub xhp_attr_deps: Vec<String>,
    pub condition_types: Vec<String>,
    pub sealed_whitelist: Option<Vec<String>>,
    pub decl_errors: Vec<DeclError>,
}

/// The entry for `k` in the association list `m`: the first one.
pub open spec fn lookup<V>(m: Seq<(String, V)>, k: Seq<char>) -> Option<V>
    decreases m.len(),
{
    if m.len() == 0 {
        None
    } else if m[0].0@ == k {
        Some(m[0].1)
    } else {
        lookup(m.drop_first(), k)
    }
}

/// `a` and `b` are the same type, written out.
pub open spec fn same_ty(a: Ty, b: Ty) -> bool
    decreases a,
{
    match a {
        Ty::Generic(n) => match b {
            Ty::Generic(m) => m@ == n@,
            _ => false,
        },
        Ty::Apply(c, args) => match b {
            Ty::Apply(d, brgs) => d@ == c@ && brgs.len() == args.len() && forall|i: int|
                0 <= i < args.len() ==> same_ty(#[trigger] args[i], brgs[i]),
            _ => false,
        },
    }
}

/// `r` is `t` with every type parameter that `s` maps replaced by its image.
pub open spec fn instantiated(s: Seq<(String, Ty)>, t: Ty, r: Ty) -> bool
    decreases t,
{
    match t {
        Ty::Generic(n) => match lookup(s, n@) {
            Some(u) => same_ty(u, r),
            None => same_ty(t, r),
        },
        Ty::Apply(c, args) => match r {
            Ty::Apply(d, rargs) => d@ == c@ && rargs.len() == args.len() && forall|i: int|
                0 <= i < args.len() ==> instantiated(s, #[trigger] args[i], rargs[i]),
            _ => false,
        },
    }
}

/// `r` views through `outer` the substitution `inner`: the same parameters,
/// each mapped to its image under `inner` instantiated by `outer`.
pub open spec fn composed(outer: Seq<(String, Ty)>, inner: Seq<(String, Ty)>, r: Seq<(String, Ty)>) -> bool {
    r.len() == inner.len() && forall|i: int|
        0 <= i < inner.len() ==> r[i].0@ == (#[trigger] inner[i]).0@ && instantiated(
            outer,
            inner[i].1,
            r[i].1,
        )
}

/// The substitution that pairs `params` with `args` by position, as far as
/// both reach.
pub open spec fn zipped(params: Seq<String>, args: Seq<Ty>, r: Seq<(String, Ty)>) -> bool {
    &&& r.len() == if params.len() <= args.len() {
        params.len()
    } else {
        args.len()
    }
    &&& forall|i: int|
        0 <= i < r.len() ==> (#[trigger] r[i]).0@ == params[i]@ && same_ty(args[i], r[i].1)
}

/// Finds the entry for `k` in `m`.
pub fn find_key<V>(m: &Vec<(String, V)>, k: &String) -> (r: Option<usize>)
    ensures
        match r {
            Some(i) => i < m.len() && m[i as int].0@ == k@ && lookup(m@, k@) == Some(m[i as int].1),
            None => lookup(m@, k@) is None,
        },
{
    let mut i: usize = 0;
    assert(m@.subrange(0, m.len() as int) =~= m@);
    while i < m.len()
        invariant
            0 <= i <= m.len(),
            lookup(m@, k@) == lookup(m@.subrange(i as int, m.len() as int), k@),
        decreases m.len() - i,
    {
        let ghost rest = m@.subrange(i as int, m.len() as int);
        assert(rest.drop_first() =~= m@.subrange(i + 1, m.len() as int));
        if m[i].0 == *k {
            return Some(i);
        }
        i = i + 1;
    }
    None
}

/// A copy of `t`.
#[verifier::loop_isolation(false)]
pub fn copy_ty(t: &Ty) -> (r: Ty)
    ensures
        same_ty(*t, r),
    decreases t,
{
    match t {
        Ty::Generic(n) => Ty::Generic(n.clone()),
        Ty::Apply(c, args) => {
            let mut out: Vec<Ty> = Vec::new();
            let mut i: usize = 0;
            while i < args.len()
                invariant
                    0 <= i <= args.len(),
                    out.len() == i,
                    forall|j: int| 0 <= j < i ==> same_ty(#[trigger] args[j], out[j]),
                decreases args.len() - i,
            {
                out.push(copy_ty(&args[i]));
                i = i + 1;
            }
            Ty::Apply(c.clone(), out)
        },
    }
}

/// `t` with each type parameter that `s` maps replaced by its image.
#[verifier::loop_isolation(false)]
pub fn instantiate(s: &Vec<(String, Ty)>, t: &Ty) -> (r: Ty)
    ensures
        instantiated(s@, *t, r),
    decreases t,
{
    match t {
        Ty::Generic(n) => match find_key(s, n) {
            Some(i) => copy_ty(&s[i].1),
            None => Ty::Generic(n.clone()),
        },
        Ty::Apply(c, args) => {
            let mut out: Vec<Ty> = Vec::new();
            let mut i: usize = 0;
            while i < args.len()
                invariant
                    0 <= i <= args.len(),
                    out.len() == i,
                    forall|j: int| 0 <= j < i ==> instantiated(s@, #[trigger] args[j], out[j]),
                decreases args.len() - i,
            {
                out.push(instantiate(s, &args[i]));
                i = i + 1;
            }
            Ty::Apply(c.clone(), out)
        },
    }
}

/// The substitution `inner` as seen through `outer`: each image in `inner`
/// instantiated by `outer`.
pub fn compose_subst(outer: &Vec<(String, Ty)>, inner: &Vec<(String, Ty)>) -> (r: Vec<(String, Ty)>)
    ensures
        composed(outer@, inner@, r@),
{
    let mut out: Vec<(String, Ty)> = Vec::new();
    let mut i: usize = 0;
    while i < inner.len()
        invariant
            0 <= i <= inner.len(),
            out.len() == i,
            forall|j: int|
                0 <= j < i ==> out[j].0@ == (#[trigger] inner[j]).0@ && instantiated(
                    outer@,
                    inner[j].1,
                    out[j].1,
                ),
        decreases inner.len() - i,
    {
        out.push((inner[i].0.clone(), instantiate(outer, &inner[i].1)));
        i = i + 1;
    }
    out
}

/// The substitution that replaces `params`, by position, with `args`.
pub fn zip_subst(params: &Vec<String>, args: &Vec<Ty>) -> (r: Vec<(String, Ty)>)
    ensures
        zipped(params@, args@, r@),
{
    let mut out: Vec<(String, Ty)> = Vec::new();
    let mut i: usize = 0;
    while i < params.len() && i < args.len()
        invariant
            0 <= i <= params.len(),
            i <= args.len(),
            out.len() == i,
            forall|j: int|
                0 <= j < i ==> (#[trigger] out[j]).0@ == params[j]@ && same_ty(args[j], out[j].1),
        decreases params.len() - i,
    {
        out.push((params[i].clone(), copy_ty(&args[i])));
        i = i + 1;
    }
    out
}


/// What a declaration error says, as plain values.
pub enum DeclErrorModel {
    UnknownAncestor(Seq<char>),
    TparamArity(Seq<char>, nat, nat),
}

impl View for DeclError {
    type V = DeclErrorModel;

    open spec fn view(&self) -> DeclErrorModel {
        match self {
            DeclError::UnknownAncestor(n) => DeclErrorModel::UnknownAncestor(n@),
            DeclError::TparamArity(n, e, g) => DeclErrorModel::TparamArity(n@, *e as nat, *g as nat),
        }
    }
}

/// The own declaration of a class, before inheritance is folded in.
#[derive(Debug)]
pub struct ClassSummary {
    pub name: String,
    pub kind: ClassishKind,
    pub abstract_: bool,
    pub final_: bool,
    pub is_xhp: bool,
    pub tparams: Vec<String>,
    /// The direct ancestors, each with its type arguments.
    pub extends: Vec<(String, Vec<Ty>)>,
    pub methods: Vec<(String, Element)>,
}

/// The first declaration named `name` among `known`.
pub open spec fn find_class_decl(known: Seq<DeclClassType>, name: Seq<char>) -> Option<DeclClassType>
    decreases known.len(),
{
    if known.len() == 0 {
        None
    } else if known[0].name@ == name {
        Some(known[0])
    } else {
        find_class_decl(known.drop_first(), name)
    }
}

/// The errors that folding a class with direct ancestors `parents` records:
/// for each ancestor in order, an unknown name, or else a type-argument count
/// that differs from the ancestor's type-parameter count.
pub open spec fn fold_errors(parents: Seq<(String, Vec<Ty>)>, known: Seq<DeclClassType>) -> Seq<DeclErrorModel>
    decreases parents.len(),
{
    if parents.len() == 0 {
        Seq::empty()
    } else {
        let last = parents[parents.len() - 1];
        let front = fold_errors(parents.subrange(0, parents.len() - 1), known);
        match find_class_decl(known, last.0@) {
            None => front.push(DeclErrorModel::UnknownAncestor(last.0@)),
            Some(pd) => if pd.tparams.len() != last.1.len() {
                front.push(
                    DeclErrorModel::TparamArity(last.0@, pd.tparams.len() as nat, last.1.len() as nat),
                )
            } else {
                front
            },
        }
    }
}

/// From position `k` on, `substs` holds what inheriting from `parent`,
/// named `pname` and given the type arguments `targs`, contributes to class
/// `child`: the context of `parent` itself, which pairs its type parameters
/// with `targs`, then each context that `parent` holds, composed with it.
pub open spec fn inherited_substs(
    substs: Seq<(String, SubstContext)>,
    k: int,
    child: Seq<char>,
    pname: Seq<char>,
    targs: Seq<Ty>,
    parent: DeclClassType,
) -> bool {
    &&& 0 <= k
    &&& k + 1 + parent.substs.len() <= substs.len()
    &&& substs[k].0@ == pname
    &&& substs[k].1.class_context@ == child
    &&& !substs[k].1.from_req_extends
    &&& zipped(parent.tparams@, targs, substs[k].1.subst@)
    &&& forall|m: int|
        0 <= m < parent.substs.len() ==> {
            let c = #[trigger] substs[k + 1 + m];
            &&& c.0@ == parent.substs[m].0@
            &&& c.1.class_context@ == parent.substs[m].1.class_context@
            &&& c.1.from_req_extends == parent.substs[m].1.from_req_extends
            &&& composed(substs[k].1.subst@, parent.substs[m].1.subst@, c.1.subst@)
        }
}

/// From position `k` on, `ancestors` holds the type of `parent` as written
/// (`pname<targs>`), then each ancestor type of `parent` instantiated by
/// `subst`.
pub open spec fn inherited_ancestors(
    ancestors: Seq<(String, Ty)>,
    k: int,
    pname: Seq<char>,
    targs: Seq<Ty>,
    subst: Seq<(String, Ty)>,
    parent: DeclClassType,
) -> bool {
    &&& 0 <= k
    &&& k + 1 + parent.ancestors.len() <= ancestors.len()
    &&& ancestors[k].0@ == pname
    &&& match ancestors[k].1 {
        Ty::Apply(c, args) => c@ == pname && args.len() == targs.len() && forall|i: int|
            0 <= i < targs.len() ==> same_ty(#[trigger] targs[i], args[i]),
        _ => false,
    }
    &&& forall|m: int|
        0 <= m < parent.ancestors.len() ==> {
            let a = #[trigger] ancestors[k + 1 + m];
            &&& a.0@ == parent.ancestors[m].0@
            &&& instantiated(subst, parent.ancestors[m].1, a.1)
        }
}

/// Finds the first declaration named `name` among `known`.
pub fn find_class(known: &Vec<DeclClassType>, name: &String) -> (r: Option<usize>)
    ensures
        match r {
            Some(i) => i < known.len() && find_class_decl(known@, name@) == Some(known[i as int]),
            None => find_class_decl(known@, name@) is None,
        },
{
    let mut i: usize = 0;
    assert(known@.subrange(0, known.len() as int) =~= known@);
    while i < known.len()
        invariant
            0 <= i <= known.len(),
            find_class_decl(known@, name@) == find_class_decl(
                known@.subrange(i as int, known.len() as int),
                name@,
            ),
        decreases known.len() - i,
    {
        let ghost rest = known@.subrange(i as int, known.len() as int);
        assert(rest.drop_first() =~= known@.subrange(i + 1, known.len() as int));
        if known[i].name == *name {
            return Some(i);
        }
        i = i + 1;
    }
    None
}

/// Appends to the substitution contexts `substs` and ancestor types
/// `ancestors` of class `child` what it inherits from the known ancestor
/// `parent`, referred to as `pname<targs>`.
fn inherit_from(
    substs: &mut Vec<(String, SubstContext)>,
    ancestors: &mut Vec<(String, Ty)>,
    child: &String,
    pname: &String,
    targs: &Vec<Ty>,
    parent: &DeclClassType,
)
    ensures
        final(substs).len() == old(substs).len() + 1 + parent.substs.len(),
        forall|i: int| 0 <= i < old(substs).len() ==> final(substs)[i] == #[trigger] old(substs)[i],
        inherited_substs(final(substs)@, old(substs).len() as int, child@, pname@, targs@, *parent),
        final(ancestors).len() == old(ancestors).len() + 1 + parent.ancestors.len(),
        forall|i: int| 0 <= i < old(ancestors).len() ==> final(ancestors)[i] == #[trigger] old(ancestors)[i],
        inherited_ancestors(
            final(ancestors)@,
            old(ancestors).len() as int,
            pname@,
            targs@,
            final(substs)[old(substs).len() as int].1.subst@,
            *parent,
        ),
{
    let subst = zip_subst(&parent.tparams, targs);
    let k = substs.len();
    let ka = ancestors.len();
    let mut i: usize = 0;
    let mut written: Vec<Ty> = Vec::new();
    while i < targs.len()
        invariant
            0 <= i <= targs.len(),
            written.len() == i,
            forall|j: int| 0 <= j < i ==> same_ty(#[trigger] targs[j], written[j]),
        decreases targs.len() - i,
    {
        written.push(copy_ty(&targs[i]));
        i = i + 1;
    }
    ancestors.push((pname.clone(), Ty::Apply(pname.clone(), written)));
    let mut m: usize = 0;
    while m < parent.ancestors.len()
        invariant
            0 <= m <= parent.ancestors.len(),
            ancestors.len() == ka + 1 + m,
            forall|i: int| 0 <= i < ka ==> ancestors[i] == #[trigger] old(ancestors)[i],
            ancestors[ka as int].0@ == pname@,
            match ancestors[ka as int].1 {
                Ty::Apply(c, args) => c@ == pname@ && args.len() == targs.len() && forall|i: int|
                    0 <= i < targs.len() ==> same_ty(#[trigger] targs[i], args[i]),
                _ => false,
            },
            forall|j: int|
                0 <= j < m ==> {
                    let a = #[trigger] ancestors[ka + 1 + j];
                    &&& a.0@ == parent.ancestors[j].0@
                    &&& instantiated(subst@, parent.ancestors[j].1, a.1)
                },
            substs == old(substs),
        decreases parent.ancestors.len() - m,
    {
        let t = instantiate(&subst, &parent.ancestors[m].1);
        ancestors.push((parent.ancestors[m].0.clone(), t));
        m = m + 1;
    }
    let ghost old_ancestors_after = ancestors;
    let own = SubstContext { subst, class_context: child.clone(), from_req_extends: false };
    substs.push((pname.clone(), own));
    assert(inherited_ancestors(
        ancestors@,
        ka as int,
        pname@,
        targs@,
        substs[k as int].1.subst@,
        *parent,
    ));
    let mut n: usize = 0;
    while n < parent.substs.len()
        invariant
            0 <= n <= parent.substs.len(),
            substs.len() == k + 1 + n,
            forall|i: int| 0 <= i < k ==> substs[i] == #[trigger] old(substs)[i],
            substs[k as int].0@ == pname@,
            substs[k as int].1.class_context@ == child@,
            !substs[k as int].1.from_req_extends,
            zipped(parent.tparams@, targs@, substs[k as int].1.subst@),
            forall|j: int|
                0 <= j < n ==> {
                    let c = #[trigger] substs[k + 1 + j];
                    &&& c.0@ == parent.substs[j].0@
                    &&& c.1.class_context@ == parent.substs[j].1.class_context@
                    &&& c.1.from_req_extends == parent.substs[j].1.from_req_extends
                    &&& composed(
                        substs[k as int].1.subst@,
                        parent.substs[j].1.subst@,
                        c.1.subst@,
                    )
                },
            ancestors == old_ancestors_after,
            inherited_ancestors(
                ancestors@,
                ka as int,
                pname@,
                targs@,
                substs[k as int].1.subst@,
                *parent,
            ),
        decreases parent.substs.len() - n,
    {
        let c = &parent.substs[n].1;
        let ctx = SubstContext {
            subst: compose_subst(&substs[k].1.subst, &c.subst),
            class_context: c.class_context.clone(),
            from_req_extends: c.from_req_extends,
        };
        substs.push((parent.substs[n].0.clone(), ctx));
        n = n + 1;
    }
}


proof fn lemma_inherited_substs_kept(
    s1: Seq<(String, SubstContext)>,
    s2: Seq<(String, SubstContext)>,
    k: int,
    child: Seq<char>,
    pname: Seq<char>,
    targs: Seq<Ty>,
    parent: DeclClassType,
)
    requires
        inherited_substs(s1, k, child, pname, targs, parent),
        s1.len() <= s2.len(),
        forall|i: int| 0 <= i < s1.len() ==> s2[i] == #[trigger] s1[i],
    ensures
        inherited_substs(s2, k, child, pname, targs, parent),
{
    assert(s2[k] == s1[k]);
    assert forall|m: int| 0 <= m < parent.substs.len() implies #[trigger] s2[k + 1 + m] == s1[k + 1
        + m] by {}
}

proof fn lemma_inherited_ancestors_kept(
    a1: Seq<(String, Ty)>,
    a2: Seq<(String, Ty)>,
    k: int,
    pname: Seq<char>,
    targs: Seq<Ty>,
    subst: Seq<(String, Ty)>,
    parent: DeclClassType,
)
    requires
        inherited_ancestors(a1, k, pname, targs, subst, parent),
        a1.len() <= a2.len(),
        forall|i: int| 0 <= i < a1.len() ==> a2[i] == #[trigger] a1[i],
    ensures
        inherited_ancestors(a2, k, pname, targs, subst, parent),
{
    assert(a2[k] == a1[k]);
    assert forall|m: int| 0 <= m < parent.ancestors.len() implies #[trigger] a2[k + 1 + m] == a1[k
        + 1 + m] by {}
}

/// What folding recorded for the `j`-th direct ancestor of a class: where it
/// is known, its contexts from `at.0` on and its ancestor types from `at.1` on.
pub open spec fn ancestor_folded(
    r: DeclClassType,
    child: Seq<char>,
    parents: Seq<(String, Vec<Ty>)>,
    known: Seq<DeclClassType>,
    j: int,
    at: (int, int),
) -> bool {
    match find_class_decl(known, parents[j].0@) {
        Some(pd) => {
            &&& inherited_substs(r.substs@, at.0, child, parents[j].0@, parents[j].1@, pd)
            &&& 0 <= at.0 < r.substs.len()
            &&& inherited_ancestors(
                r.ancestors@,
                at.1,
                parents[j].0@,
                parents[j].1@,
                r.substs[at.0].1.subst@,
                pd,
            )
        },
        None => true,
    }
}

proof fn lemma_lookup_prefix<V>(s1: Seq<(String, V)>, s2: Seq<(String, V)>, k: Seq<char>)
    requires
        s1.len() <= s2.len(),
        forall|i: int| 0 <= i < s1.len() ==> s2[i] == #[trigger] s1[i],
        lookup(s1, k) is Some,
    ensures
        lookup(s2, k) == lookup(s1, k),
    decreases s1.len(),
{
    assert(s2[0] == s1[0]);
    if s1[0].0@ != k {
        let (t1, t2) = (s1.drop_first(), s2.drop_first());
        assert forall|i: int| 0 <= i < t1.len() implies t2[i] == #[trigger] t1[i] by {
            assert(t1[i] == s1[i + 1]);
            assert(t2[i] == s2[i + 1]);
        }
        lemma_lookup_prefix(t1, t2, k);
    }
}

proof fn lemma_lookup_push<V>(s: Seq<(String, V)>, x: (String, V), k: Seq<char>)
    requires
        lookup(s, k) is None,
        x.0@ == k,
    ensures
        lookup(s.push(x), k) == Some(x.1),
    decreases s.len(),
{
    if s.len() > 0 {
        assert(s.push(x).drop_first() =~= s.drop_first().push(x));
        lemma_lookup_push(s.drop_first(), x, k);
    } else {
        assert(s.push(x)[0] == x);
    }
}

fn copy_element(e: &Element) -> (r: Element)
    ensures
        r == *e,
{
    let deprecated = match &e.deprecated {
        Some(d) => Some(d.clone()),
        None => None,
    };
    Element { flags: e.flags, origin: e.origin.clone(), visibility: e.visibility, deprecated }
}

/// `x` is one of the methods of `parent`.
pub open spec fn method_of(parent: DeclClassType, x: (String, Element)) -> bool {
    exists|m: int| 0 <= m < parent.methods.len() && #[trigger] parent.methods[m] == x
}

/// Adds to `methods` a copy of each method of `parent` whose name it lacks,
/// so that members already there win.
fn inherit_methods(methods: &mut Vec<(String, Element)>, parent: &DeclClassType)
    ensures
        final(methods).len() >= old(methods).len(),
        forall|i: int| 0 <= i < old(methods).len() ==> final(methods)[i] == #[trigger] old(methods)[i],
        forall|m: int|
            0 <= m < parent.methods.len() ==> lookup(
                final(methods)@,
                (#[trigger] parent.methods[m]).0@,
            ) is Some,
        forall|i: int|
            old(methods).len() <= i < final(methods).len() ==> method_of(
                *parent,
                #[trigger] final(methods)[i],
            ),
{
    let mut m: usize = 0;
    while m < parent.methods.len()
        invariant
            0 <= m <= parent.methods.len(),
            methods.len() >= old(methods).len(),
            forall|i: int| 0 <= i < old(methods).len() ==> methods[i] == #[trigger] old(methods)[i],
            forall|n: int|
                0 <= n < m ==> lookup(methods@, (#[trigger] parent.methods[n]).0@) is Some,
            forall|i: int|
                old(methods).len() <= i < methods.len() ==> method_of(*parent, #[trigger] methods[i]),
        decreases parent.methods.len() - m,
    {
        let name = &parent.methods[m].0;
        if find_key(methods, name).is_none() {
            let ghost before = methods@;
            let entry = (name.clone(), copy_element(&parent.methods[m].1));
            methods.push(entry);
            proof {
                lemma_lookup_push(before, entry, name@);
                assert forall|n: int| 0 <= n < m implies lookup(
                    methods@,
                    (#[trigger] parent.methods[n]).0@,
                ) is Some by {
                    lemma_lookup_prefix(before, methods@, parent.methods[n].0@);
                }
                assert(methods[before.len() as int] == parent.methods[m as int]);
                assert forall|i: int|
                    old(methods).len() <= i < methods.len() implies method_of(
                        *parent,
                        #[trigger] methods[i],
                    ) by {
                    if i < before.len() {
                        assert(methods[i] == before[i]);
                    } else {
                        assert(parent.methods[m as int] == methods[i]);
                    }
                }
            }
        }
        m = m + 1;
    }
}

/// Every method of the `j`-th direct ancestor, where it is known, has an
/// entry in `methods`.
pub open spec fn members_inherited(
    methods: Seq<(String, Element)>,
    parents: Seq<(String, Vec<Ty>)>,
    known: Seq<DeclClassType>,
    j: int,
) -> bool {
    match find_class_decl(known, parents[j].0@) {
        Some(pd) => forall|m: int|
            0 <= m < pd.methods.len() ==> lookup(methods, (#[trigger] pd.methods[m]).0@) is Some,
        None => true,
    }
}

/// `x` is a method of one of the first `n` direct ancestors, that are known.
pub open spec fn inherited_member(
    parents: Seq<(String, Vec<Ty>)>,
    known: Seq<DeclClassType>,
    n: int,
    x: (String, Element),
) -> bool {
    exists|j: int|
        0 <= j < n && match find_class_decl(known, (#[trigger] parents[j]).0@) {
            Some(pd) => method_of(pd, x),
            None => false,
        }
}

/// How many substitution contexts and ancestor types folding over `parents`
/// records: for each known one, one for itself and one for each that it holds.
pub open spec fn inherited_counts(parents: Seq<(String, Vec<Ty>)>, known: Seq<DeclClassType>) -> (
    nat,
    nat,
)
    decreases parents.len(),
{
    if parents.len() == 0 {
        (0, 0)
    } else {
        let front = inherited_counts(parents.subrange(0, parents.len() - 1), known);
        match find_class_decl(known, parents[parents.len() - 1].0@) {
            Some(pd) => (
                (front.0 + 1 + pd.substs.len()) as nat,
                (front.1 + 1 + pd.ancestors.len()) as nat,
            ),
            None => front,
        }
    }
}

/// Folding recorded the `j`-th direct ancestor somewhere in `r`.
pub open spec fn ancestor_recorded(
    r: DeclClassType,
    child: Seq<char>,
    parents: Seq<(String, Vec<Ty>)>,
    known: Seq<DeclClassType>,
    j: int,
) -> bool {
    exists|at: (int, int)| ancestor_folded(r, child, parents, known, j, at)
}

/// Folds the declaration of a class from its own declaration `own` and the
/// already folded declarations `known` of other classes.
///
/// Each known direct ancestor contributes its substitution context and those
/// of its own ancestors, composed through the first; an unknown one
/// contributes nothing but an error naming it. Folding never fails.
pub fn fold_class_decl(own: ClassSummary, known: &Vec<DeclClassType>) -> (r: DeclClassType)
    ensures
        r.name == own.name,
        r.kind == own.kind,
        r.abstract_ == own.abstract_,
        r.final_ == own.final_,
        r.is_xhp == own.is_xhp,
        r.tparams == own.tparams,
        r.methods.len() >= own.methods.len(),
        forall|i: int| 0 <= i < own.methods.len() ==> r.methods[i] == #[trigger] own.methods[i],
        forall|i: int|
            own.methods.len() <= i < r.methods.len() ==> inherited_member(
                own.extends@,
                known@,
                own.extends.len() as int,
                #[trigger] r.methods[i],
            ),
        forall|j: int|
            0 <= j < own.extends.len() ==> #[trigger] members_inherited(r.methods@, own.extends@, known@, j),
        r.decl_errors@.map_values(|e: DeclError| e@) == fold_errors(own.extends@, known@),
        r.substs.len() == inherited_counts(own.extends@, known@).0,
        r.ancestors.len() == inherited_counts(own.extends@, known@).1,
        r.extends@.map_values(|n: String| n@) == own.extends@.map_values(
            |p: (String, Vec<Ty>)| p.0@,
        ),
        forall|j: int|
            0 <= j < own.extends.len() ==> #[trigger] ancestor_recorded(
                r,
                own.name@,
                own.extends@,
                known@,
                j,
            ),
{
    let ClassSummary { name, kind, abstract_, final_, is_xhp, tparams, extends, methods } = own;
    let mut acc = DeclClassType {
        need_init: false,
        abstract_,
        final_,
        const_: false,
        internal: false,
        kind,
        is_xhp,
        name: name.clone(),
        tparams,
        substs: Vec::new(),
        methods,
        smethods: Vec::new(),
        props: Vec::new(),
        sprops: Vec::new(),
        construct: (None, ConsistentKind::Inconsistent),
        ancestors: Vec::new(),
        extends: Vec::new(),
        xhp_attr_deps: Vec::new(),
        condition_types: Vec::new(),
        sealed_whitelist: None,
        decl_errors: Vec::new(),
    };
    let ghost starts: Seq<(int, int)> = Seq::empty();
    let mut j: usize = 0;
    while j < extends.len()
        invariant
            0 <= j <= extends.len(),
            starts.len() == j,
            acc.name == name,
            name == own.name,
            extends == own.extends,
            acc.kind == own.kind,
            acc.abstract_ == own.abstract_,
            acc.final_ == own.final_,
            acc.is_xhp == own.is_xhp,
            acc.tparams == own.tparams,
            acc.methods.len() >= own.methods.len(),
            forall|i: int| 0 <= i < own.methods.len() ==> acc.methods[i] == #[trigger] own.methods[i],
            forall|i: int|
                own.methods.len() <= i < acc.methods.len() ==> inherited_member(
                    extends@,
                    known@,
                    j as int,
                    #[trigger] acc.methods[i],
                ),
            forall|i: int| 0 <= i < j ==> #[trigger] members_inherited(acc.methods@, extends@, known@, i),
            acc.decl_errors@.map_values(|e: DeclError| e@) == fold_errors(
                extends@.subrange(0, j as int),
                known@,
            ),
            acc.substs.len() == inherited_counts(extends@.subrange(0, j as int), known@).0,
            acc.ancestors.len() == inherited_counts(extends@.subrange(0, j as int), known@).1,
            acc.extends@.map_values(|n: String| n@) == extends@.subrange(0, j as int).map_values(
                |p: (String, Vec<Ty>)| p.0@,
            ),
            forall|i: int|
                0 <= i < j ==> ancestor_folded(acc, name@, extends@, known@, i, #[trigger] starts[i]),
        decreases extends.len() - j,
    {
        let ghost before = acc;
        let pname = &extends[j].0;
        let targs = &extends[j].1;
        acc.extends.push(pname.clone());
        let ghost at = (acc.substs.len() as int, acc.ancestors.len() as int);
        match find_class(known, pname) {
            Some(pi) => {
                let pd = &known[pi];
                if pd.tparams.len() != targs.len() {
                    acc.decl_errors.push(
                        DeclError::TparamArity(
                            pname.clone(),
                            pd.tparams.len() as u64,
                            targs.len() as u64,
                        ),
                    );
                }
                let ghost pre = acc;
                inherit_methods(&mut acc.methods, pd);
                proof {
                    assert forall|i: int| 0 <= i < j implies #[trigger] members_inherited(acc.methods@,
                        extends@,
                        known@,
                        i,
                    ) by {
                        match find_class_decl(known@, extends[i].0@) {
                            Some(qd) => {
                                assert(members_inherited(before.methods@, extends@, known@, i));
                                assert forall|m: int| 0 <= m < qd.methods.len() implies lookup(
                                    acc.methods@,
                                    (#[trigger] qd.methods[m]).0@,
                                ) is Some by {
                                    lemma_lookup_prefix(pre.methods@, acc.methods@, qd.methods[m].0@);
                                }
                            },
                            None => {},
                        }
                    }
                    assert(members_inherited(acc.methods@, extends@, known@, j as int));
                    assert forall|i: int|
                        own.methods.len() <= i < acc.methods.len() implies inherited_member(
                        extends@,
                        known@,
                        j + 1,
                        #[trigger] acc.methods[i],
                    ) by {
                        if i < pre.methods.len() {
                            assert(acc.methods[i] == pre.methods[i]);
                            assert(inherited_member(extends@, known@, j as int, pre.methods[i]));
                        } else {
                            assert(method_of(*pd, acc.methods[i]));
                            assert(extends[j as int] == extends@[j as int]);
                            assert(find_class_decl(known@, extends[j as int].0@) == Some(*pd));
                        }
                    }
                }
                let ghost mid = acc;
                inherit_from(&mut acc.substs, &mut acc.ancestors, &name, pname, targs, pd);
                proof {
                    assert forall|i: int| 0 <= i < j implies ancestor_folded(
                        acc,
                        name@,
                        extends@,
                        known@,
                        i,
                        #[trigger] starts[i],
                    ) by {
                        match find_class_decl(known@, extends[i].0@) {
                            Some(qd) => {
                                assert(ancestor_folded(mid, name@, extends@, known@, i, starts[i]));
                                lemma_inherited_substs_kept(
                                    mid.substs@,
                                    acc.substs@,
                                    starts[i].0,
                                    name@,
                                    extends[i].0@,
                                    extends[i].1@,
                                    qd,
                                );
                                assert(acc.substs[starts[i].0] == mid.substs[starts[i].0]);
                                lemma_inherited_ancestors_kept(
                                    mid.ancestors@,
                                    acc.ancestors@,
                                    starts[i].1,
                                    extends[i].0@,
                                    extends[i].1@,
                                    mid.substs[starts[i].0].1.subst@,
                                    qd,
                                );
                            },
                            None => {},
                        }
                    }
                }
            },
            None => {
                acc.decl_errors.push(DeclError::UnknownAncestor(pname.clone()));
                proof {
                    assert forall|i: int|
                        own.methods.len() <= i < acc.methods.len() implies inherited_member(
                        extends@,
                        known@,
                        j + 1,
                        #[trigger] acc.methods[i],
                    ) by {
                        assert(inherited_member(extends@, known@, j as int, acc.methods[i]));
                    }
                }
            },
        }
        proof {
            starts = starts.push(at);
            let s = extends@.subrange(0, j + 1);
            assert(s.subrange(0, s.len() - 1) =~= extends@.subrange(0, j as int));
            assert(acc.decl_errors@.map_values(|e: DeclError| e@) =~= fold_errors(s, known@));
            assert(s[s.len() - 1] == extends[j as int]);
            assert(acc.extends@ == before.extends@.push(extends[j as int].0));
            assert(acc.extends@.map_values(|n: String| n@) =~= before.extends@.map_values(
                |n: String| n@,
            ).push(extends[j as int].0@));
            assert(acc.extends@.map_values(|n: String| n@) =~= s.map_values(
                |p: (String, Vec<Ty>)| p.0@,
            ));
            assert(ancestor_folded(acc, name@, extends@, known@, j as int, starts[j as int]));
        }
        j = j + 1;
    }
    proof {
        assert(extends@.subrange(0, extends.len() as int) =~= extends@);
        assert forall|i: int| 0 <= i < extends.len() implies #[trigger] members_inherited(acc.methods@,
            own.extends@,
            known@,
            i,
        ) by {
            assert(members_inherited(acc.methods@, extends@, known@, i));
        }
        assert forall|i: int| 0 <= i < extends.len() implies #[trigger] ancestor_recorded(
            acc,
            own.name@,
            own.extends@,
            known@,
            i,
        ) by {
            assert(ancestor_folded(acc, name@, extends@, known@, i, starts[i]));
            assert(ancestor_folded(acc, own.name@, own.extends@, known@, i, starts[i]));
        }
    }
    acc
}


/// Looking a parameter up in a composed substitution gives its image in the
/// inner substitution instantiated by the outer one: for `C extends B<string>`
/// and `B<Tb> extends A<Tb, int>`, `A`'s `Ta1` is `string` as seen from `C`.
pub proof fn lemma_composed_lookup(
    outer: Seq<(String, Ty)>,
    inner: Seq<(String, Ty)>,
    r: Seq<(String, Ty)>,
    p: Seq<char>,
)
    requires
        composed(outer, inner, r),
    ensures
        match lookup(inner, p) {
            Some(t) => match lookup(r, p) {
                Some(u) => instantiated(outer, t, u),
                None => false,
            },
            None => lookup(r, p) is None,
        },
    decreases inner.len(),
{
    if inner.len() > 0 {
        assert(r[0].0@ == inner[0].0@);
        if inner[0].0@ != p {
            let (i2, r2) = (inner.drop_first(), r.drop_first());
            assert forall|i: int| 0 <= i < i2.len() implies r2[i].0@ == (#[trigger] i2[i]).0@
                && instantiated(outer, i2[i].1, r2[i].1) by {
                assert(i2[i] == inner[i + 1]);
            }
            lemma_composed_lookup(outer, i2, r2, p);
        }
    }
}

/// Folding over an ancestor that no known declaration names records an
/// error that names it.
pub proof fn lemma_unknown_ancestor_recorded(
    parents: Seq<(String, Vec<Ty>)>,
    known: Seq<DeclClassType>,
    j: int,
)
    requires
        0 <= j < parents.len(),
        find_class_decl(known, parents[j].0@) is None,
    ensures
        fold_errors(parents, known).contains(DeclErrorModel::UnknownAncestor(parents[j].0@)),
    decreases parents.len(),
{
    let front = parents.subrange(0, parents.len() - 1);
    if j < parents.len() - 1 {
        assert(front[j] == parents[j]);
        lemma_unknown_ancestor_recorded(front, known, j);
        let e = choose|k: int|
            0 <= k < fold_errors(front, known).len() && fold_errors(front, known)[k]
                == DeclErrorModel::UnknownAncestor(parents[j].0@);
        assert(fold_errors(parents, known)[e] == fold_errors(front, known)[e]);
    } else {
        let all = fold_errors(parents, known);
        assert(all[all.len() - 1] == DeclErrorModel::UnknownAncestor(parents[j].0@));
    }
}

/// A class whose only direct ancestor is unknown gets exactly one error,
/// naming that ancestor.
pub proof fn lemma_single_unknown_ancestor(parent: (String, Vec<Ty>), known: Seq<DeclClassType>)
    requires
        find_class_decl(known, parent.0@) is None,
    ensures
        fold_errors(seq![parent], known) == seq![DeclErrorModel::UnknownAncestor(parent.0@)],
{
    let ps = seq![parent];
    assert(ps.subrange(0, 0) =~= Seq::<(String, Vec<Ty>)>::empty());
    assert(ps[0] == parent);
    assert(fold_errors(ps.subrange(0, 0), known) =~= Seq::<DeclErrorModel>::empty());
    assert(fold_errors(ps, known) =~= seq![DeclErrorModel::UnknownAncestor(parent.0@)]);
}

} // verus!
