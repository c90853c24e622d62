//! Pass 2: call-site resolution.
//!
//! [`CallFinder`] walks the module again, consuming the throw records of
//! pass 1. A member call `obj.method(...)` is matched against the records by
//! method name, with a heuristic receiver class: `this` resolves to the
//! enclosing class, a plain identifier through the instantiation map that
//! variable declarations of the shape `let x = new C(...)` fill. A direct
//! call `f(...)` is matched by its full qualified ID. Matches are recorded as
//! [`CallToThrowMap`] values, one per physical call site: two records are the
//! same only when both their ID and their call span agree.
//!
//! The spec functions `resolve_*` define the pass; they thread a
//! [`CallState`] holding the recorded calls and the instantiation map, and
//! read the throw-record list handed in from pass 1.

use crate::ast::{
    ArrowBody, Callee, ClassMember, Decl, Expr, Module, ModuleItem, Prop, Stmt, VarDeclarator,
};
use crate::span::Span;
use crate::text::{
    clone_opt_string, name_or_anonymous, qualified_id, spec_or_anonymous, spec_or_not_set,
    spec_qualified_id, str_eq, class_or_not_set,
};
use crate::throw_finder::{ThrowMap, ThrowMapV};
use vstd::prelude::*;

verus! {

/// The mathematical content of a [`CallToThrowMap`].
pub ghost struct CallToThrowMapV {
    pub call_span: Span,
    pub call_function_or_method_name: Seq<char>,
    pub call_class_name: Option<Seq<char>>,
    pub throw_map: ThrowMapV,
    pub class_name: Option<Seq<char>>,
    pub id: Seq<char>,
}

/// One call expression whose callee resolved to a recorded throwing unit:
/// where the call stands, the name and class context of the code containing
/// it, the matched throw record, and the qualified ID of the calling context.
pub struct CallToThrowMap {
    pub call_span: Span,
    pub call_function_or_method_name: String,
    pub call_class_name: Option<String>,
    pub throw_map: ThrowMap,
    pub class_name: Option<String>,
    pub id: String,
}

impl View for CallToThrowMap {
    type V = CallToThrowMapV;

    open spec fn view(&self) -> CallToThrowMapV {
        CallToThrowMapV {
            call_span: self.call_span,
            call_function_or_method_name: self.call_function_or_method_name@,
            call_class_name: self.call_class_name.deep_view(),
            throw_map: self.throw_map@,
            class_name: self.class_name.deep_view(),
            id: self.id@,
        }
    }
}

impl DeepView for CallToThrowMap {
    type V = CallToThrowMapV;

    open spec fn deep_view(&self) -> CallToThrowMapV {
        self.view()
    }
}

/// The mathematical content of an [`InstantiationsMap`] entry.
pub ghost struct InstantiationsMapV {
    pub class_name: Seq<char>,
    pub variable_name: Seq<char>,
}

/// One entry of the instantiation map: a local variable bound to `new C(...)`
/// remembers the class name `C`.
pub struct InstantiationsMap {
    pub class_name: String,
    pub variable_name: String,
}

impl View for InstantiationsMap {
    type V = InstantiationsMapV;

    open spec fn view(&self) -> InstantiationsMapV {
        InstantiationsMapV { class_name: self.class_name@, variable_name: self.variable_name@ }
    }
}

impl DeepView for InstantiationsMap {
    type V = InstantiationsMapV;

    open spec fn deep_view(&self) -> InstantiationsMapV {
        self.view()
    }
}

/// What pass 2 accumulates: the call records and the instantiation map.
pub ghost struct CallState {
    pub calls: Seq<CallToThrowMapV>,
    pub instantiations: Seq<InstantiationsMapV>,
}

/// A call record with this ID and call span is already present.
pub open spec fn has_call(cs: Seq<CallToThrowMapV>, id: Seq<char>, sp: Span) -> bool {
    exists|i: int| 0 <= i < cs.len() && cs[i].id == id && cs[i].call_span == sp
}

/// Appends a call record unless one with the same ID and call span exists:
/// one record per physical call site.
pub open spec fn insert_call(cs: Seq<CallToThrowMapV>, c: CallToThrowMapV) -> Seq<
    CallToThrowMapV,
> {
    if has_call(cs, c.id, c.call_span) {
        cs
    } else {
        cs.push(c)
    }
}

/// Some entry already tracks this variable name.
pub open spec fn has_inst_var(is: Seq<InstantiationsMapV>, v: Seq<char>) -> bool {
    exists|i: int| 0 <= i < is.len() && is[i].variable_name == v
}

/// Appends an instantiation unless the variable is already tracked: the first
/// instantiation of a variable wins.
pub open spec fn insert_inst(is: Seq<InstantiationsMapV>, e: InstantiationsMapV) -> Seq<
    InstantiationsMapV,
> {
    if has_inst_var(is, e.variable_name) {
        is
    } else {
        is.push(e)
    }
}

/// The class recorded for a variable name, if any: the first matching entry.
pub open spec fn lookup_inst(is: Seq<InstantiationsMapV>, v: Seq<char>) -> Option<Seq<char>>
    decreases is,
{
    if is.len() == 0 {
        None
    } else if is[0].variable_name == v {
        Some(is[0].class_name)
    } else {
        lookup_inst(is.drop_first(), v)
    }
}

/// The first throw record whose method name equals `m` (first match wins, in
/// pass-1 insertion order).
pub open spec fn find_throw_by_method(ts: Seq<ThrowMapV>, m: Seq<char>) -> Option<ThrowMapV>
    decreases ts,
{
    if ts.len() == 0 {
        None
    } else if ts[0].function_or_method_name == m {
        Some(ts[0])
    } else {
        find_throw_by_method(ts.drop_first(), m)
    }
}

/// The first throw record whose qualified ID equals `id`.
pub open spec fn find_throw_by_id(ts: Seq<ThrowMapV>, id: Seq<char>) -> Option<ThrowMapV>
    decreases ts,
{
    if ts.len() == 0 {
        None
    } else if ts[0].id == id {
        Some(ts[0])
    } else {
        find_throw_by_id(ts.drop_first(), id)
    }
}

/// The bare receiver of a member call: an identifier's own name, or the
/// enclosing class for `this`.
pub open spec fn receiver_name(obj: Expr, cls: Option<Seq<char>>) -> Option<Seq<char>> {
    match obj {
        Expr::Ident(o) => Some(o@),
        Expr::This => cls,
        _ => None,
    }
}

/// Re-resolves a receiver through the instantiation map: a tracked variable
/// name becomes its class name.
pub open spec fn resolve_receiver(is: Seq<InstantiationsMapV>, r: Option<Seq<char>>) -> Option<
    Seq<char>,
> {
    match r {
        Some(o) => match lookup_inst(is, o) {
            Some(cn) => Some(cn),
            None => Some(o),
        },
        None => None,
    }
}

/// The label of the code containing a call: the innermost enclosing
/// function/method name, else the innermost object-property name, else
/// `<anonymous>`.
pub open spec fn caller_label(fname: Option<Seq<char>>, prop: Option<Seq<char>>) -> Seq<char> {
    match fname {
        Some(f) => f,
        None => match prop {
            Some(p) => p,
            None => "<anonymous>"@,
        },
    }
}

/// The first of two optional names.
pub open spec fn opt_or(a: Option<Seq<char>>, b: Option<Seq<char>>) -> Option<Seq<char>> {
    match a {
        Some(x) => Some(x),
        None => b,
    }
}

/// Records a member call when some throw record has the called method's name.
pub open spec fn member_call_step(
    span: Span,
    pc: Option<Seq<char>>,
    cls: Option<Seq<char>>,
    fname: Option<Seq<char>>,
    prop: Option<Seq<char>>,
    method: Seq<char>,
    throws: Seq<ThrowMapV>,
    st: CallState,
) -> CallState {
    match find_throw_by_method(throws, method) {
        Some(tm) => {
            let label = caller_label(fname, prop);
            let cns = spec_or_not_set(opt_or(cls, pc));
            CallState {
                calls: insert_call(
                    st.calls,
                    CallToThrowMapV {
                        call_span: span,
                        call_function_or_method_name: label,
                        call_class_name: Some(cns),
                        throw_map: tm,
                        class_name: pc,
                        id: spec_qualified_id(opt_or(cls, pc), label),
                    },
                ),
                ..st
            }
        },
        None => st,
    }
}

/// Records a direct call when some throw record's ID equals the candidate ID
/// built from the class context and the called name.
pub open spec fn direct_call_step(
    span: Span,
    name: Seq<char>,
    cls: Option<Seq<char>>,
    fname: Option<Seq<char>>,
    throws: Seq<ThrowMapV>,
    st: CallState,
) -> CallState {
    match find_throw_by_id(throws, spec_qualified_id(cls, name)) {
        Some(tm) => {
            let label = spec_or_anonymous(fname);
            CallState {
                calls: insert_call(
                    st.calls,
                    CallToThrowMapV {
                        call_span: span,
                        call_function_or_method_name: label,
                        call_class_name: cls,
                        throw_map: tm,
                        class_name: None,
                        id: spec_qualified_id(cls, label),
                    },
                ),
                ..st
            }
        },
        None => st,
    }
}

pub open spec fn resolve_module(m: Module, throws: Seq<ThrowMapV>, st: CallState) -> CallState
    decreases m, 0int,
{
    resolve_items(m.items@, throws, st)
}

pub open spec fn resolve_items(
    items: Seq<ModuleItem>,
    throws: Seq<ThrowMapV>,
    st: CallState,
) -> CallState
    decreases items, 0int,
{
    if items.len() == 0 {
        st
    } else {
        resolve_item(items.last(), throws, resolve_items(items.drop_last(), throws, st))
    }
}

pub open spec fn resolve_item(it: ModuleItem, throws: Seq<ThrowMapV>, st: CallState) -> CallState
    decreases it, 0int,
{
    match it {
        ModuleItem::Import(_) => st,
        ModuleItem::Export(d) => resolve_decl(d, None, None, None, throws, st),
        ModuleItem::Stmt(s) => resolve_stmt(s, None, None, None, throws, st),
    }
}

pub open spec fn resolve_decl(
    d: Decl,
    cls: Option<Seq<char>>,
    fname: Option<Seq<char>>,
    prop: Option<Seq<char>>,
    throws: Seq<ThrowMapV>,
    st: CallState,
) -> CallState
    decreases d, 0int,
{
    match d {
        Decl::Fn(fd) => resolve_stmts(fd.function.body@, cls, Some(fd.name@), prop, throws, st),
        Decl::Class(cd) => resolve_members(cd.members@, Some(cd.name@), fname, prop, throws, st),
        Decl::Var(ds) => resolve_var_decls(ds@, cls, fname, prop, throws, st),
    }
}

pub open spec fn resolve_members(
    ms: Seq<ClassMember>,
    cls: Option<Seq<char>>,
    fname: Option<Seq<char>>,
    prop: Option<Seq<char>>,
    throws: Seq<ThrowMapV>,
    st: CallState,
) -> CallState
    decreases ms, 0int,
{
    if ms.len() == 0 {
        st
    } else {
        resolve_member(
            ms.last(),
            cls,
            fname,
            prop,
            throws,
            resolve_members(ms.drop_last(), cls, fname, prop, throws, st),
        )
    }
}

/// A class method's body is walked with the method name as the innermost
/// object-property label.
pub open spec fn resolve_member(
    m: ClassMember,
    cls: Option<Seq<char>>,
    fname: Option<Seq<char>>,
    prop: Option<Seq<char>>,
    throws: Seq<ThrowMapV>,
    st: CallState,
) -> CallState
    decreases m, 0int,
{
    match m {
        ClassMember::Method(cm) => match cm.name {
            Some(n) => resolve_stmts(cm.function.body@, cls, fname, Some(n@), throws, st),
            None => resolve_stmts(cm.function.body@, cls, fname, prop, throws, st),
        },
        ClassMember::Ctor(c) => resolve_stmts(c.body@, cls, fname, prop, throws, st),
        ClassMember::Other => st,
    }
}

pub open spec fn resolve_var_decls(
    ds: Seq<VarDeclarator>,
    cls: Option<Seq<char>>,
    fname: Option<Seq<char>>,
    prop: Option<Seq<char>>,
    throws: Seq<ThrowMapV>,
    st: CallState,
) -> CallState
    decreases ds, 0int,
{
    if ds.len() == 0 {
        st
    } else {
        resolve_var_decl(
            ds.last(),
            cls,
            fname,
            prop,
            throws,
            resolve_var_decls(ds.drop_last(), cls, fname, prop, throws, st),
        )
    }
}

/// A declarator of the shape `let x = new C(...)` feeds the instantiation
/// map; one binding a function or arrow walks the body under the variable's
/// name.
pub open spec fn resolve_var_decl(
    v: VarDeclarator,
    cls: Option<Seq<char>>,
    fname: Option<Seq<char>>,
    prop: Option<Seq<char>>,
    throws: Seq<ThrowMapV>,
    st: CallState,
) -> CallState
    decreases v, 0int,
{
    match v.init {
        None => st,
        Some(e) => match v.name {
            None => resolve_expr(*e, cls, fname, prop, throws, st),
            Some(nm) => match *e {
                Expr::Fn(f) => resolve_stmts(f.function.body@, cls, Some(nm@), prop, throws, st),
                Expr::Arrow(a) => resolve_arrow_body(a.body, cls, Some(nm@), prop, throws, st),
                Expr::New(n) => resolve_expr(
                    *e,
                    cls,
                    fname,
                    prop,
                    throws,
                    inst_step(*n.callee, nm@, st),
                ),
                _ => resolve_expr(*e, cls, fname, prop, throws, st),
            },
        },
    }
}

/// Tracks `variable -> class` when the constructed callee is a plain
/// identifier.
pub open spec fn inst_step(callee: Expr, var: Seq<char>, st: CallState) -> CallState {
    match callee {
        Expr::Ident(cn) => CallState {
            instantiations: insert_inst(
                st.instantiations,
                InstantiationsMapV { class_name: cn@, variable_name: var },
            ),
            ..st
        },
        _ => st,
    }
}

pub open spec fn resolve_props(
    ps: Seq<Prop>,
    cls: Option<Seq<char>>,
    fname: Option<Seq<char>>,
    prop: Option<Seq<char>>,
    throws: Seq<ThrowMapV>,
    st: CallState,
) -> CallState
    decreases ps, 0int,
{
    if ps.len() == 0 {
        st
    } else {
        resolve_prop(
            ps.last(),
            cls,
            fname,
            prop,
            throws,
            resolve_props(ps.drop_last(), cls, fname, prop, throws, st),
        )
    }
}

/// An object-literal method or function-valued property walks its body with
/// the key as the innermost object-property label.
pub open spec fn resolve_prop(
    p: Prop,
    cls: Option<Seq<char>>,
    fname: Option<Seq<char>>,
    prop: Option<Seq<char>>,
    throws: Seq<ThrowMapV>,
    st: CallState,
) -> CallState
    decreases p, 0int,
{
    match p {
        Prop::Method { name, function } => match name {
            Some(n) => resolve_stmts(function.body@, cls, fname, Some(n@), throws, st),
            None => resolve_stmts(function.body@, cls, fname, prop, throws, st),
        },
        Prop::KeyValue { key, value } => match *value {
            Expr::Fn(f) => resolve_stmts(f.function.body@, cls, fname, Some(key@), throws, st),
            Expr::Arrow(a) => resolve_arrow_body(a.body, cls, fname, Some(key@), throws, st),
            _ => resolve_expr(*value, cls, fname, prop, throws, st),
        },
        Prop::Other => st,
    }
}

pub open spec fn resolve_stmts(
    ss: Seq<Stmt>,
    cls: Option<Seq<char>>,
    fname: Option<Seq<char>>,
    prop: Option<Seq<char>>,
    throws: Seq<ThrowMapV>,
    st: CallState,
) -> CallState
    decreases ss, 0int,
{
    if ss.len() == 0 {
        st
    } else {
        resolve_stmt(
            ss.last(),
            cls,
            fname,
            prop,
            throws,
            resolve_stmts(ss.drop_last(), cls, fname, prop, throws, st),
        )
    }
}

pub open spec fn resolve_opt_stmts(
    ss: Option<Vec<Stmt>>,
    cls: Option<Seq<char>>,
    fname: Option<Seq<char>>,
    prop: Option<Seq<char>>,
    throws: Seq<ThrowMapV>,
    st: CallState,
) -> CallState
    decreases ss, 0int,
{
    match ss {
        Some(b) => resolve_stmts(b@, cls, fname, prop, throws, st),
        None => st,
    }
}

pub open spec fn resolve_opt_box_stmt(
    s: Option<Box<Stmt>>,
    cls: Option<Seq<char>>,
    fname: Option<Seq<char>>,
    prop: Option<Seq<char>>,
    throws: Seq<ThrowMapV>,
    st: CallState,
) -> CallState
    decreases s, 0int,
{
    match s {
        Some(b) => resolve_stmt(*b, cls, fname, prop, throws, st),
        None => st,
    }
}

pub open spec fn resolve_stmt(
    s: Stmt,
    cls: Option<Seq<char>>,
    fname: Option<Seq<char>>,
    prop: Option<Seq<char>>,
    throws: Seq<ThrowMapV>,
    st: CallState,
) -> CallState
    decreases s, 0int,
{
    match s {
        Stmt::Expr(e) => resolve_expr(e, cls, fname, prop, throws, st),
        Stmt::Block(ss) => resolve_stmts(ss@, cls, fname, prop, throws, st),
        Stmt::If { test, cons, alt } => resolve_opt_box_stmt(
            alt,
            cls,
            fname,
            prop,
            throws,
            resolve_stmt(
                *cons,
                cls,
                fname,
                prop,
                throws,
                resolve_expr(test, cls, fname, prop, throws, st),
            ),
        ),
        Stmt::Throw { span } => st,
        Stmt::Try(t) => resolve_opt_stmts(
            t.finalizer,
            cls,
            fname,
            prop,
            throws,
            resolve_opt_stmts(
                t.handler,
                cls,
                fname,
                prop,
                throws,
                resolve_stmts(t.block@, cls, fname, prop, throws, st),
            ),
        ),
        Stmt::Decl(d) => resolve_decl(d, cls, fname, prop, throws, st),
        Stmt::Other { exprs, stmts } => resolve_stmts(
            stmts@,
            cls,
            fname,
            prop,
            throws,
            resolve_exprs(exprs@, cls, fname, prop, throws, st),
        ),
    }
}

pub open spec fn resolve_exprs(
    es: Seq<Expr>,
    cls: Option<Seq<char>>,
    fname: Option<Seq<char>>,
    prop: Option<Seq<char>>,
    throws: Seq<ThrowMapV>,
    st: CallState,
) -> CallState
    decreases es, 0int,
{
    if es.len() == 0 {
        st
    } else {
        resolve_expr(
            es.last(),
            cls,
            fname,
            prop,
            throws,
            resolve_exprs(es.drop_last(), cls, fname, prop, throws, st),
        )
    }
}

/// A member expression that is not a call pushes its property name as the
/// innermost object-property label while its object is walked.
pub open spec fn resolve_expr(
    e: Expr,
    cls: Option<Seq<char>>,
    fname: Option<Seq<char>>,
    prop: Option<Seq<char>>,
    throws: Seq<ThrowMapV>,
    st: CallState,
) -> CallState
    decreases e, 0int,
{
    match e {
        Expr::Ident(_) => st,
        Expr::This => st,
        Expr::Call(c) => resolve_call(c, cls, fname, prop, throws, st),
        Expr::Member(m) => resolve_expr(*m.obj, cls, fname, opt_or(option_view(m.prop), prop), throws, st),
        Expr::Fn(f) => resolve_stmts(f.function.body@, cls, fname, prop, throws, st),
        Expr::Arrow(a) => resolve_arrow_body(a.body, cls, fname, prop, throws, st),
        Expr::Object(o) => resolve_props(o.props@, cls, fname, prop, throws, st),
        Expr::New(n) => resolve_exprs(
            n.args@,
            cls,
            fname,
            prop,
            throws,
            resolve_expr(*n.callee, cls, fname, prop, throws, st),
        ),
        Expr::Paren(inner) => resolve_expr(*inner, cls, fname, prop, throws, st),
        Expr::Await(inner) => resolve_expr(*inner, cls, fname, prop, throws, st),
        Expr::Bin { left, right } => resolve_expr(
            *right,
            cls,
            fname,
            prop,
            throws,
            resolve_expr(*left, cls, fname, prop, throws, st),
        ),
        Expr::OptChain(inner) => resolve_expr(*inner, cls, fname, prop, throws, st),
        Expr::Assign(a) => resolve_expr(*a.right, cls, fname, prop, throws, st),
        Expr::Other { exprs } => resolve_exprs(exprs@, cls, fname, prop, throws, st),
    }
}

/// The view of an optional exec string.
pub open spec fn option_view(o: Option<String>) -> Option<Seq<char>> {
    match o {
        Some(s) => Some(s@),
        None => None,
    }
}

pub open spec fn resolve_arrow_body(
    b: ArrowBody,
    cls: Option<Seq<char>>,
    fname: Option<Seq<char>>,
    prop: Option<Seq<char>>,
    throws: Seq<ThrowMapV>,
    st: CallState,
) -> CallState
    decreases b, 0int,
{
    match b {
        ArrowBody::Block(ss) => resolve_stmts(ss@, cls, fname, prop, throws, st),
        ArrowBody::Expr(e) => resolve_expr(*e, cls, fname, prop, throws, st),
    }
}

/// A call expression. For a member call the object is walked first, then the
/// receiver class is resolved against the instantiation map as it stands, the
/// match is recorded, and function-valued arguments are walked under the
/// called method's name and the resolved class. For a direct call the
/// candidate ID is matched exactly.
pub open spec fn resolve_call(
    c: crate::ast::CallExpr,
    cls: Option<Seq<char>>,
    fname: Option<Seq<char>>,
    prop: Option<Seq<char>>,
    throws: Seq<ThrowMapV>,
    st: CallState,
) -> CallState
    decreases c, 0int,
{
    match c.callee {
        Callee::Expr(ce) => match *ce {
            Expr::Member(m) => match m.prop {
                Some(p) => {
                    let st1 = resolve_expr(*m.obj, cls, fname, prop, throws, st);
                    let pc = resolve_receiver(st1.instantiations, receiver_name(*m.obj, cls));
                    let st2 = member_call_step(c.span, pc, cls, fname, prop, p@, throws, st1);
                    resolve_call_args(c.args@, pc, cls, fname, prop, p@, throws, st2)
                },
                None => resolve_exprs(
                    c.args@,
                    cls,
                    fname,
                    prop,
                    throws,
                    resolve_expr(*m.obj, cls, fname, prop, throws, st),
                ),
            },
            Expr::Ident(name) => resolve_call_args(
                c.args@,
                cls,
                cls,
                fname,
                prop,
                name@,
                throws,
                direct_call_step(c.span, name@, cls, fname, throws, st),
            ),
            _ => resolve_exprs(
                c.args@,
                cls,
                fname,
                prop,
                throws,
                resolve_expr(*ce, cls, fname, prop, throws, st),
            ),
        },
        Callee::Other => resolve_exprs(c.args@, cls, fname, prop, throws, st),
    }
}

pub open spec fn resolve_call_args(
    args: Seq<Expr>,
    argcls: Option<Seq<char>>,
    cls: Option<Seq<char>>,
    fname: Option<Seq<char>>,
    prop: Option<Seq<char>>,
    argname: Seq<char>,
    throws: Seq<ThrowMapV>,
    st: CallState,
) -> CallState
    decreases args, 0int,
{
    if args.len() == 0 {
        st
    } else {
        resolve_call_arg(
            args.last(),
            argcls,
            cls,
            fname,
            prop,
            argname,
            throws,
            resolve_call_args(args.drop_last(), argcls, cls, fname, prop, argname, throws, st),
        )
    }
}

/// A function or arrow handed to a call is walked under the called name and
/// the resolved receiver class, so nested call sites get the right labels.
pub open spec fn resolve_call_arg(
    a: Expr,
    argcls: Option<Seq<char>>,
    cls: Option<Seq<char>>,
    fname: Option<Seq<char>>,
    prop: Option<Seq<char>>,
    argname: Seq<char>,
    throws: Seq<ThrowMapV>,
    st: CallState,
) -> CallState
    decreases a, 1int,
{
    match a {
        Expr::Fn(f) => resolve_stmts(f.function.body@, argcls, Some(argname), prop, throws, st),
        Expr::Arrow(ar) => resolve_arrow_body(ar.body, argcls, Some(argname), prop, throws, st),
        _ => resolve_expr(a, cls, fname, prop, throws, st),
    }
}

/// Pass 2 state: the call records found so far, the throw records from
/// pass 1 (read only), and the instantiation map.
pub struct CallFinder {
    pub calls: Vec<CallToThrowMap>,
    pub functions_with_throws: Vec<ThrowMap>,
    pub instantiations: Vec<InstantiationsMap>,
}

/// The accumulated outputs of a finder, as a [`CallState`].
pub open spec fn call_state_of(cf: CallFinder) -> CallState {
    CallState {
        calls: cf.calls.deep_view(),
        instantiations: cf.instantiations.deep_view(),
    }
}

/// Appends a call record unless one with the same ID and call span exists.
fn insert_call_rec(v: &mut Vec<CallToThrowMap>, c: CallToThrowMap)
    ensures
        final(v).deep_view() == insert_call(old(v).deep_view(), c@),
{
    let mut i: usize = 0;
    while i < v.len()
        invariant
            i <= v.len(),
            *v == *old(v),
            forall|k: int|
                0 <= k < i ==> !(v.deep_view()[k].id == c@.id && v.deep_view()[k].call_span
                    == c@.call_span),
        decreases v.len() - i,
    {
        proof {
            assert(v.deep_view()[i as int] == v@[i as int]@);
        }
        if str_eq(v[i].id.as_str(), c.id.as_str()) && v[i].call_span == c.call_span {
            proof {
                assert(has_call(v.deep_view(), c@.id, c@.call_span));
            }
            return ;
        }
        i = i + 1;
    }
    proof {
        assert(!has_call(v.deep_view(), c@.id, c@.call_span));
    }
    let ghost before = v.deep_view();
    v.push(c);
    proof {
        assert(v.deep_view() =~= before.push(c@));
    }
}

/// Appends an instantiation unless its variable is already tracked.
fn insert_inst_rec(v: &mut Vec<InstantiationsMap>, e: InstantiationsMap)
    ensures
        final(v).deep_view() == insert_inst(old(v).deep_view(), e@),
{
    let mut i: usize = 0;
    while i < v.len()
        invariant
            i <= v.len(),
            *v == *old(v),
            forall|k: int| 0 <= k < i ==> v.deep_view()[k].variable_name != e@.variable_name,
        decreases v.len() - i,
    {
        proof {
            assert(v.deep_view()[i as int] == v@[i as int]@);
        }
        if str_eq(v[i].variable_name.as_str(), e.variable_name.as_str()) {
            proof {
                assert(has_inst_var(v.deep_view(), e@.variable_name));
            }
            return ;
        }
        i = i + 1;
    }
    proof {
        assert(!has_inst_var(v.deep_view(), e@.variable_name));
    }
    let ghost before = v.deep_view();
    v.push(e);
    proof {
        assert(v.deep_view() =~= before.push(e@));
    }
}

/// The class recorded for a variable name, by a forward scan: the first
/// matching entry wins.
fn lookup_inst_class(v: &Vec<InstantiationsMap>, name: &String) -> (r: Option<String>)
    ensures
        r.deep_view() == lookup_inst(v.deep_view(), name@),
{
    let ghost full = v.deep_view();
    proof {
        assert(full.subrange(0, full.len() as int) =~= full);
    }
    let mut i: usize = 0;
    while i < v.len()
        invariant
            i <= v.len(),
            full == v.deep_view(),
            lookup_inst(full, name@) == lookup_inst(
                full.subrange(i as int, full.len() as int),
                name@,
            ),
        decreases v.len() - i,
    {
        proof {
            assert(full.subrange(i as int, full.len() as int)[0] == full[i as int]);
            assert(full[i as int] == v@[i as int]@);
        }
        if str_eq(v[i].variable_name.as_str(), name.as_str()) {
            return Some(v[i].class_name.clone());
        }
        proof {
            assert(full.subrange(i as int, full.len() as int).drop_first() =~= full.subrange(
                i + 1,
                full.len() as int,
            ));
        }
        i = i + 1;
    }
    proof {
        assert(full.subrange(full.len() as int, full.len() as int).len() == 0);
    }
    None
}

/// The first throw record whose method name equals `m`, cloned.
fn find_by_method(v: &Vec<ThrowMap>, m: &String) -> (r: Option<ThrowMap>)
    ensures
        r.deep_view() == find_throw_by_method(v.deep_view(), m@),
{
    let ghost full = v.deep_view();
    proof {
        assert(full.subrange(0, full.len() as int) =~= full);
    }
    let mut i: usize = 0;
    while i < v.len()
        invariant
            i <= v.len(),
            full == v.deep_view(),
            find_throw_by_method(full, m@) == find_throw_by_method(
                full.subrange(i as int, full.len() as int),
                m@,
            ),
        decreases v.len() - i,
    {
        proof {
            assert(full.subrange(i as int, full.len() as int)[0] == full[i as int]);
            assert(full[i as int] == v@[i as int]@);
        }
        if str_eq(v[i].function_or_method_name.as_str(), m.as_str()) {
            return Some(v[i].clone());
        }
        proof {
            assert(full.subrange(i as int, full.len() as int).drop_first() =~= full.subrange(
                i + 1,
                full.len() as int,
            ));
        }
        i = i + 1;
    }
    proof {
        assert(full.subrange(full.len() as int, full.len() as int).len() == 0);
    }
    None
}

/// The first throw record whose qualified ID equals `id`, cloned.
fn find_by_id(v: &Vec<ThrowMap>, id: &String) -> (r: Option<ThrowMap>)
    ensures
        r.deep_view() == find_throw_by_id(v.deep_view(), id@),
{
    let ghost full = v.deep_view();
    proof {
        assert(full.subrange(0, full.len() as int) =~= full);
    }
    let mut i: usize = 0;
    while i < v.len()
        invariant
            i <= v.len(),
            full == v.deep_view(),
            find_throw_by_id(full, id@) == find_throw_by_id(
                full.subrange(i as int, full.len() as int),
                id@,
            ),
        decreases v.len() - i,
    {
        proof {
            assert(full.subrange(i as int, full.len() as int)[0] == full[i as int]);
            assert(full[i as int] == v@[i as int]@);
        }
        if str_eq(v[i].id.as_str(), id.as_str()) {
            return Some(v[i].clone());
        }
        proof {
            assert(full.subrange(i as int, full.len() as int).drop_first() =~= full.subrange(
                i + 1,
                full.len() as int,
            ));
        }
        i = i + 1;
    }
    proof {
        assert(full.subrange(full.len() as int, full.len() as int).len() == 0);
    }
    None
}

/// The bare receiver of a member call, cloned out of the tree.
fn receiver_name_exec(obj: &Expr, cls: &Option<String>) -> (r: Option<String>)
    ensures
        r.deep_view() == receiver_name(*obj, cls.deep_view()),
{
    match obj {
        Expr::Ident(o) => Some(o.clone()),
        Expr::This => clone_opt_string(cls),
        _ => None,
    }
}

/// The label of the code containing a call: function name, else property
/// name, else `<anonymous>`.
fn caller_label_exec(fname: &Option<String>, prop: &Option<String>) -> (r: String)
    ensures
        r@ == caller_label(fname.deep_view(), prop.deep_view()),
{
    match fname {
        Some(f) => f.clone(),
        None => match prop {
            Some(p) => p.clone(),
            None => String::from_str("<anonymous>"),
        },
    }
}

/// The first of two optional names, cloned.
fn opt_or_clone(a: &Option<String>, b: &Option<String>) -> (r: Option<String>)
    ensures
        r.deep_view() == opt_or(a.deep_view(), b.deep_view()),
{
    match a {
        Some(x) => Some(x.clone()),
        None => clone_opt_string(b),
    }
}

impl CallFinder {
    /// A fresh pass-2 state consuming pass 1's throw records.
    pub fn new(functions_with_throws: Vec<ThrowMap>) -> (r: CallFinder)
        ensures
            call_state_of(r) == (CallState {
                calls: Seq::<CallToThrowMapV>::empty(),
                instantiations: Seq::<InstantiationsMapV>::empty(),
            }),
            r.functions_with_throws == functions_with_throws,
    {
        let r = CallFinder {
            calls: Vec::new(),
            functions_with_throws,
            instantiations: Vec::new(),
        };
        proof {
            assert(r.calls.deep_view() =~= Seq::<CallToThrowMapV>::empty());
            assert(r.instantiations.deep_view() =~= Seq::<InstantiationsMapV>::empty());
        }
        r
    }

    /// Records a member call when a throw record matches the called method.
    fn member_step(
        &mut self,
        span: Span,
        pc: &Option<String>,
        cls: &Option<String>,
        fname: &Option<String>,
        prop: &Option<String>,
        method: &String,
    )
        ensures
            call_state_of(*final(self)) == member_call_step(
                span,
                pc.deep_view(),
                cls.deep_view(),
                fname.deep_view(),
                prop.deep_view(),
                method@,
                old(self).functions_with_throws.deep_view(),
                call_state_of(*old(self)),
            ),
            final(self).functions_with_throws == old(self).functions_with_throws,
    {
        match find_by_method(&self.functions_with_throws, method) {
            Some(tm) => {
                let label = caller_label_exec(fname, prop);
                let joined = opt_or_clone(cls, pc);
                let cns = class_or_not_set(&joined);
                let id = qualified_id(&joined, label.as_str());
                let rec = CallToThrowMap {
                    call_span: span,
                    call_function_or_method_name: label,
                    call_class_name: Some(cns),
                    throw_map: tm,
                    class_name: clone_opt_string(pc),
                    id,
                };
                insert_call_rec(&mut self.calls, rec);
            },
            None => (),
        }
    }

    /// Records a direct call when a throw record's ID matches the candidate.
    fn direct_step(
        &mut self,
        span: Span,
        name: &String,
        cls: &Option<String>,
        fname: &Option<String>,
    )
        ensures
            call_state_of(*final(self)) == direct_call_step(
                span,
                name@,
                cls.deep_view(),
                fname.deep_view(),
                old(self).functions_with_throws.deep_view(),
                call_state_of(*old(self)),
            ),
            final(self).functions_with_throws == old(self).functions_with_throws,
    {
        let potential = qualified_id(cls, name.as_str());
        match find_by_id(&self.functions_with_throws, &potential) {
            Some(tm) => {
                let label = name_or_anonymous(fname);
                let id = qualified_id(cls, label.as_str());
                let rec = CallToThrowMap {
                    call_span: span,
                    call_function_or_method_name: label,
                    call_class_name: clone_opt_string(cls),
                    throw_map: tm,
                    class_name: None,
                    id,
                };
                insert_call_rec(&mut self.calls, rec);
            },
            None => (),
        }
    }

    /// Runs pass 2 over a whole module.
    pub fn visit_module(&mut self, m: &Module)
        ensures
            call_state_of(*final(self)) == resolve_module(
                *m,
                old(self).functions_with_throws.deep_view(),
                call_state_of(*old(self)),
            ),
            final(self).functions_with_throws == old(self).functions_with_throws,
    {
        let ghost throws = self.functions_with_throws.deep_view();
        let ghost st0 = call_state_of(*self);
        let mut i: usize = 0;
        while i < m.items.len()
            invariant
                i <= m.items.len(),
                call_state_of(*self) == resolve_items(m.items@.subrange(0, i as int), throws, st0),
                self.functions_with_throws == old(self).functions_with_throws,
                throws == self.functions_with_throws.deep_view(),
            decreases m.items.len() - i,
        {
            proof {
                assert(m.items@.subrange(0, i + 1).drop_last() =~= m.items@.subrange(0, i as int));
                assert(m.items@.subrange(0, i + 1).last() == m.items@[i as int]);
            }
            let ghost st_i = call_state_of(*self);
            self.visit_item(&m.items[i]);
            proof {
                assert(self.functions_with_throws.deep_view() == throws);
                assert(call_state_of(*self) == resolve_item(m.items@[i as int], throws, st_i));
                assert(resolve_items(m.items@.subrange(0, i + 1), throws, st0) == resolve_item(
                    m.items@[i as int],
                    throws,
                    resolve_items(m.items@.subrange(0, i as int), throws, st0),
                ));
            }
            i = i + 1;
        }
        proof {
            assert(m.items@.subrange(0, m.items@.len() as int) =~= m.items@);
        }
    }

    fn visit_item(&mut self, it: &ModuleItem)
        ensures
            call_state_of(*final(self)) == resolve_item(
                *it,
                old(self).functions_with_throws.deep_view(),
                call_state_of(*old(self)),
            ),
            final(self).functions_with_throws == old(self).functions_with_throws,
        decreases *it, 0int,
    {
        let none: Option<String> = None;
        match it {
            ModuleItem::Import(_) => (),
            ModuleItem::Export(d) => self.visit_decl(d, &none, &none, &none),
            ModuleItem::Stmt(s) => self.visit_stmt(s, &none, &none, &none),
        }
    }

    fn visit_decl(&mut self, d: &Decl, cls: &Option<String>, fname: &Option<String>, prop: &Option<String>)
        ensures
            call_state_of(*final(self)) == resolve_decl(
                *d,
                cls.deep_view(),
                fname.deep_view(),
                prop.deep_view(),
                old(self).functions_with_throws.deep_view(),
                call_state_of(*old(self)),
            ),
            final(self).functions_with_throws == old(self).functions_with_throws,
        decreases *d, 0int,
    {
        match d {
            Decl::Fn(fd) => {
                let new_fname = Some(fd.name.clone());
                self.visit_stmts(&fd.function.body, cls, &new_fname, prop);
            },
            Decl::Class(cd) => {
                let new_cls = Some(cd.name.clone());
                self.visit_members(&cd.members, &new_cls, fname, prop);
            },
            Decl::Var(ds) => self.visit_var_decls(ds, cls, fname, prop),
        }
    }

    fn visit_members(&mut self, ms: &Vec<ClassMember>, cls: &Option<String>, fname: &Option<String>, prop: &Option<String>)
        ensures
            call_state_of(*final(self)) == resolve_members(
                ms@,
                cls.deep_view(),
                fname.deep_view(),
                prop.deep_view(),
                old(self).functions_with_throws.deep_view(),
                call_state_of(*old(self)),
            ),
            final(self).functions_with_throws == old(self).functions_with_throws,
        decreases ms@, 0int,
    {
        let ghost throws = self.functions_with_throws.deep_view();
        let ghost st0 = call_state_of(*self);
        let mut i: usize = 0;
        while i < ms.len()
            invariant
                i <= ms.len(),
                call_state_of(*self) == resolve_members(
                    ms@.subrange(0, i as int),
                    cls.deep_view(),
                    fname.deep_view(),
                    prop.deep_view(),
                    throws,
                    st0,
                ),
                self.functions_with_throws == old(self).functions_with_throws,
                throws == self.functions_with_throws.deep_view(),
            decreases ms@.len() - i,
        {
            proof {
                assert(ms@.subrange(0, i + 1).drop_last() =~= ms@.subrange(0, i as int));
                assert(ms@.subrange(0, i + 1).last() == ms@[i as int]);
            }
            let ghost st_i = call_state_of(*self);
            self.visit_member(&ms[i], cls, fname, prop);
            proof {
                assert(call_state_of(*self) == resolve_member(
                    ms@[i as int],
                    cls.deep_view(),
                    fname.deep_view(),
                    prop.deep_view(),
                    throws,
                    st_i,
                ));
                assert(resolve_members(ms@.subrange(0, i + 1), cls.deep_view(), fname.deep_view(), prop.deep_view(), throws, st0)
                    == resolve_member(ms@[i as int], cls.deep_view(), fname.deep_view(), prop.deep_view(), throws,
                        resolve_members(ms@.subrange(0, i as int), cls.deep_view(), fname.deep_view(), prop.deep_view(), throws, st0)));
            }
            i = i + 1;
        }
        proof {
            assert(ms@.subrange(0, ms@.len() as int) =~= ms@);
        }
    }

    fn visit_member(&mut self, m: &ClassMember, cls: &Option<String>, fname: &Option<String>, prop: &Option<String>)
        ensures
            call_state_of(*final(self)) == resolve_member(
                *m,
                cls.deep_view(),
                fname.deep_view(),
                prop.deep_view(),
                old(self).functions_with_throws.deep_view(),
                call_state_of(*old(self)),
            ),
            final(self).functions_with_throws == old(self).functions_with_throws,
        decreases *m, 0int,
    {
        match m {
            ClassMember::Method(cm) => match &cm.name {
                Some(n) => {
                    let new_prop = Some(n.clone());
                    self.visit_stmts(&cm.function.body, cls, fname, &new_prop);
                },
                None => self.visit_stmts(&cm.function.body, cls, fname, prop),
            },
            ClassMember::Ctor(c) => self.visit_stmts(&c.body, cls, fname, prop),
            ClassMember::Other => (),
        }
    }

    fn visit_var_decls(&mut self, ds: &Vec<VarDeclarator>, cls: &Option<String>, fname: &Option<String>, prop: &Option<String>)
        ensures
            call_state_of(*final(self)) == resolve_var_decls(
                ds@,
                cls.deep_view(),
                fname.deep_view(),
                prop.deep_view(),
                old(self).functions_with_throws.deep_view(),
                call_state_of(*old(self)),
            ),
            final(self).functions_with_throws == old(self).functions_with_throws,
        decreases ds@, 0int,
    {
        let ghost throws = self.functions_with_throws.deep_view();
        let ghost st0 = call_state_of(*self);
        let mut i: usize = 0;
        while i < ds.len()
            invariant
                i <= ds.len(),
                call_state_of(*self) == resolve_var_decls(
                    ds@.subrange(0, i as int),
                    cls.deep_view(),
                    fname.deep_view(),
                    prop.deep_view(),
                    throws,
                    st0,
                ),
                self.functions_with_throws == old(self).functions_with_throws,
                throws == self.functions_with_throws.deep_view(),
            decreases ds@.len() - i,
        {
            proof {
                assert(ds@.subrange(0, i + 1).drop_last() =~= ds@.subrange(0, i as int));
                assert(ds@.subrange(0, i + 1).last() == ds@[i as int]);
            }
            let ghost st_i = call_state_of(*self);
            self.visit_var_decl(&ds[i], cls, fname, prop);
            proof {
                assert(call_state_of(*self) == resolve_var_decl(
                    ds@[i as int],
                    cls.deep_view(),
                    fname.deep_view(),
                    prop.deep_view(),
                    throws,
                    st_i,
                ));
                assert(resolve_var_decls(ds@.subrange(0, i + 1), cls.deep_view(), fname.deep_view(), prop.deep_view(), throws, st0)
                    == resolve_var_decl(ds@[i as int], cls.deep_view(), fname.deep_view(), prop.deep_view(), throws,
                        resolve_var_decls(ds@.subrange(0, i as int), cls.deep_view(), fname.deep_view(), prop.deep_view(), throws, st0)));
            }
            i = i + 1;
        }
        proof {
            assert(ds@.subrange(0, ds@.len() as int) =~= ds@);
        }
    }

    fn visit_var_decl(&mut self, v: &VarDeclarator, cls: &Option<String>, fname: &Option<String>, prop: &Option<String>)
        ensures
            call_state_of(*final(self)) == resolve_var_decl(
                *v,
                cls.deep_view(),
                fname.deep_view(),
                prop.deep_view(),
                old(self).functions_with_throws.deep_view(),
                call_state_of(*old(self)),
            ),
            final(self).functions_with_throws == old(self).functions_with_throws,
        decreases *v, 0int,
    {
        match (&v.name, &v.init) {
            (_, None) => (),
            (None, Some(e)) => self.visit_expr(&**e, cls, fname, prop),
            (Some(nm), Some(e)) => match &**e {
                Expr::Fn(f) => {
                    let new_fname = Some(nm.clone());
                    self.visit_stmts(&f.function.body, cls, &new_fname, prop);
                },
                Expr::Arrow(a) => {
                    let new_fname = Some(nm.clone());
                    self.visit_arrow_body(&a.body, cls, &new_fname, prop);
                },
                Expr::New(n) => {
                    self.inst_step_exec(&n.callee, nm);
                    self.visit_expr(&**e, cls, fname, prop);
                },
                _ => self.visit_expr(&**e, cls, fname, prop),
            },
        }
    }

    /// Tracks `variable -> class` for a `new` initializer with an identifier
    /// callee.
    fn inst_step_exec(&mut self, callee: &Expr, var: &String)
        ensures
            call_state_of(*final(self)) == inst_step(*callee, var@, call_state_of(*old(self))),
            final(self).functions_with_throws == old(self).functions_with_throws,
    {
        match callee {
            Expr::Ident(cn) => {
                let e = InstantiationsMap { class_name: cn.clone(), variable_name: var.clone() };
                insert_inst_rec(&mut self.instantiations, e);
            },
            _ => (),
        }
    }

    fn visit_props(&mut self, ps: &Vec<Prop>, cls: &Option<String>, fname: &Option<String>, prop: &Option<String>)
        ensures
            call_state_of(*final(self)) == resolve_props(
                ps@,
                cls.deep_view(),
                fname.deep_view(),
                prop.deep_view(),
                old(self).functions_with_throws.deep_view(),
                call_state_of(*old(self)),
            ),
            final(self).functions_with_throws == old(self).functions_with_throws,
        decreases ps@, 0int,
    {
        let ghost throws = self.functions_with_throws.deep_view();
        let ghost st0 = call_state_of(*self);
        let mut i: usize = 0;
        while i < ps.len()
            invariant
                i <= ps.len(),
                call_state_of(*self) == resolve_props(
                    ps@.subrange(0, i as int),
                    cls.deep_view(),
                    fname.deep_view(),
                    prop.deep_view(),
                    throws,
                    st0,
                ),
                self.functions_with_throws == old(self).functions_with_throws,
                throws == self.functions_with_throws.deep_view(),
            decreases ps@.len() - i,
        {
            proof {
                assert(ps@.subrange(0, i + 1).drop_last() =~= ps@.subrange(0, i as int));
                assert(ps@.subrange(0, i + 1).last() == ps@[i as int]);
            }
            let ghost st_i = call_state_of(*self);
            self.visit_prop(&ps[i], cls, fname, prop);
            proof {
                assert(call_state_of(*self) == resolve_prop(
                    ps@[i as int],
                    cls.deep_view(),
                    fname.deep_view(),
                    prop.deep_view(),
                    throws,
                    st_i,
                ));
                assert(resolve_props(ps@.subrange(0, i + 1), cls.deep_view(), fname.deep_view(), prop.deep_view(), throws, st0)
                    == resolve_prop(ps@[i as int], cls.deep_view(), fname.deep_view(), prop.deep_view(), throws,
                        resolve_props(ps@.subrange(0, i as int), cls.deep_view(), fname.deep_view(), prop.deep_view(), throws, st0)));
            }
            i = i + 1;
        }
        proof {
            assert(ps@.subrange(0, ps@.len() as int) =~= ps@);
        }
    }

    fn visit_prop(&mut self, p: &Prop, cls: &Option<String>, fname: &Option<String>, prop: &Option<String>)
        ensures
            call_state_of(*final(self)) == resolve_prop(
                *p,
                cls.deep_view(),
                fname.deep_view(),
                prop.deep_view(),
                old(self).functions_with_throws.deep_view(),
                call_state_of(*old(self)),
            ),
            final(self).functions_with_throws == old(self).functions_with_throws,
        decreases *p, 0int,
    {
        match p {
            Prop::Method { name, function } => match name {
                Some(n) => {
                    let new_prop = Some(n.clone());
                    self.visit_stmts(&function.body, cls, fname, &new_prop);
                },
                None => self.visit_stmts(&function.body, cls, fname, prop),
            },
            Prop::KeyValue { key, value } => match &**value {
                Expr::Fn(f) => {
                    let new_prop = Some(key.clone());
                    self.visit_stmts(&f.function.body, cls, fname, &new_prop);
                },
                Expr::Arrow(a) => {
                    let new_prop = Some(key.clone());
                    self.visit_arrow_body(&a.body, cls, fname, &new_prop);
                },
                _ => self.visit_expr(&**value, cls, fname, prop),
            },
            Prop::Other => (),
        }
    }

    pub fn visit_stmts(&mut self, ss: &Vec<Stmt>, cls: &Option<String>, fname: &Option<String>, prop: &Option<String>)
        ensures
            call_state_of(*final(self)) == resolve_stmts(
                ss@,
                cls.deep_view(),
                fname.deep_view(),
                prop.deep_view(),
                old(self).functions_with_throws.deep_view(),
                call_state_of(*old(self)),
            ),
            final(self).functions_with_throws == old(self).functions_with_throws,
        decreases ss@, 0int,
    {
        let ghost throws = self.functions_with_throws.deep_view();
        let ghost st0 = call_state_of(*self);
        let mut i: usize = 0;
        while i < ss.len()
            invariant
                i <= ss.len(),
                call_state_of(*self) == resolve_stmts(
                    ss@.subrange(0, i as int),
                    cls.deep_view(),
                    fname.deep_view(),
                    prop.deep_view(),
                    throws,
                    st0,
                ),
                self.functions_with_throws == old(self).functions_with_throws,
                throws == self.functions_with_throws.deep_view(),
            decreases ss@.len() - i,
        {
            proof {
                assert(ss@.subrange(0, i + 1).drop_last() =~= ss@.subrange(0, i as int));
                assert(ss@.subrange(0, i + 1).last() == ss@[i as int]);
            }
            let ghost st_i = call_state_of(*self);
            self.visit_stmt(&ss[i], cls, fname, prop);
            proof {
                assert(call_state_of(*self) == resolve_stmt(
                    ss@[i as int],
                    cls.deep_view(),
                    fname.deep_view(),
                    prop.deep_view(),
                    throws,
                    st_i,
                ));
                assert(resolve_stmts(ss@.subrange(0, i + 1), cls.deep_view(), fname.deep_view(), prop.deep_view(), throws, st0)
                    == resolve_stmt(ss@[i as int], cls.deep_view(), fname.deep_view(), prop.deep_view(), throws,
                        resolve_stmts(ss@.subrange(0, i as int), cls.deep_view(), fname.deep_view(), prop.deep_view(), throws, st0)));
            }
            i = i + 1;
        }
        proof {
            assert(ss@.subrange(0, ss@.len() as int) =~= ss@);
        }
    }

    fn visit_opt_stmts(&mut self, ss: &Option<Vec<Stmt>>, cls: &Option<String>, fname: &Option<String>, prop: &Option<String>)
        ensures
            call_state_of(*final(self)) == resolve_opt_stmts(
                *ss,
                cls.deep_view(),
                fname.deep_view(),
                prop.deep_view(),
                old(self).functions_with_throws.deep_view(),
                call_state_of(*old(self)),
            ),
            final(self).functions_with_throws == old(self).functions_with_throws,
        decreases *ss, 0int,
    {
        match ss {
            Some(b) => self.visit_stmts(b, cls, fname, prop),
            None => (),
        }
    }

    fn visit_opt_box_stmt(&mut self, s: &Option<Box<Stmt>>, cls: &Option<String>, fname: &Option<String>, prop: &Option<String>)
        ensures
            call_state_of(*final(self)) == resolve_opt_box_stmt(
                *s,
                cls.deep_view(),
                fname.deep_view(),
                prop.deep_view(),
                old(self).functions_with_throws.deep_view(),
                call_state_of(*old(self)),
            ),
            final(self).functions_with_throws == old(self).functions_with_throws,
        decreases *s, 0int,
    {
        match s {
            Some(b) => self.visit_stmt(&**b, cls, fname, prop),
            None => (),
        }
    }

    pub fn visit_stmt(&mut self, s: &Stmt, cls: &Option<String>, fname: &Option<String>, prop: &Option<String>)
        ensures
            call_state_of(*final(self)) == resolve_stmt(
                *s,
                cls.deep_view(),
                fname.deep_view(),
                prop.deep_view(),
                old(self).functions_with_throws.deep_view(),
                call_state_of(*old(self)),
            ),
            final(self).functions_with_throws == old(self).functions_with_throws,
        decreases *s, 0int,
    {
        match s {
            Stmt::Expr(e) => self.visit_expr(e, cls, fname, prop),
            Stmt::Block(ss) => self.visit_stmts(ss, cls, fname, prop),
            Stmt::If { test, cons, alt } => {
                self.visit_expr(test, cls, fname, prop);
                self.visit_stmt(&**cons, cls, fname, prop);
                self.visit_opt_box_stmt(alt, cls, fname, prop);
            },
            Stmt::Throw { span: _ } => (),
            Stmt::Try(t) => {
                self.visit_stmts(&t.block, cls, fname, prop);
                self.visit_opt_stmts(&t.handler, cls, fname, prop);
                self.visit_opt_stmts(&t.finalizer, cls, fname, prop);
            },
            Stmt::Decl(d) => self.visit_decl(d, cls, fname, prop),
            Stmt::Other { exprs, stmts } => {
                self.visit_exprs(exprs, cls, fname, prop);
                self.visit_stmts(stmts, cls, fname, prop);
            },
        }
    }

    fn visit_exprs(&mut self, es: &Vec<Expr>, cls: &Option<String>, fname: &Option<String>, prop: &Option<String>)
        ensures
            call_state_of(*final(self)) == resolve_exprs(
                es@,
                cls.deep_view(),
                fname.deep_view(),
                prop.deep_view(),
                old(self).functions_with_throws.deep_view(),
                call_state_of(*old(self)),
            ),
            final(self).functions_with_throws == old(self).functions_with_throws,
        decreases es@, 0int,
    {
        let ghost throws = self.functions_with_throws.deep_view();
        let ghost st0 = call_state_of(*self);
        let mut i: usize = 0;
        while i < es.len()
            invariant
                i <= es.len(),
                call_state_of(*self) == resolve_exprs(
                    es@.subrange(0, i as int),
                    cls.deep_view(),
                    fname.deep_view(),
                    prop.deep_view(),
                    throws,
                    st0,
                ),
                self.functions_with_throws == old(self).functions_with_throws,
                throws == self.functions_with_throws.deep_view(),
            decreases es@.len() - i,
        {
            proof {
                assert(es@.subrange(0, i + 1).drop_last() =~= es@.subrange(0, i as int));
                assert(es@.subrange(0, i + 1).last() == es@[i as int]);
            }
            let ghost st_i = call_state_of(*self);
            self.visit_expr(&es[i], cls, fname, prop);
            proof {
                assert(call_state_of(*self) == resolve_expr(
                    es@[i as int],
                    cls.deep_view(),
                    fname.deep_view(),
                    prop.deep_view(),
                    throws,
                    st_i,
                ));
                assert(resolve_exprs(es@.subrange(0, i + 1), cls.deep_view(), fname.deep_view(), prop.deep_view(), throws, st0)
                    == resolve_expr(es@[i as int], cls.deep_view(), fname.deep_view(), prop.deep_view(), throws,
                        resolve_exprs(es@.subrange(0, i as int), cls.deep_view(), fname.deep_view(), prop.deep_view(), throws, st0)));
            }
            i = i + 1;
        }
        proof {
            assert(es@.subrange(0, es@.len() as int) =~= es@);
        }
    }

    pub fn visit_expr(&mut self, e: &Expr, cls: &Option<String>, fname: &Option<String>, prop: &Option<String>)
        ensures
            call_state_of(*final(self)) == resolve_expr(
                *e,
                cls.deep_view(),
                fname.deep_view(),
                prop.deep_view(),
                old(self).functions_with_throws.deep_view(),
                call_state_of(*old(self)),
            ),
            final(self).functions_with_throws == old(self).functions_with_throws,
        decreases *e, 0int,
    {
        match e {
            Expr::Ident(_) => (),
            Expr::This => (),
            Expr::Call(c) => self.visit_call(c, cls, fname, prop),
            Expr::Member(m) => {
                let new_prop = opt_or_clone(&m.prop, prop);
                self.visit_expr(&*m.obj, cls, fname, &new_prop);
            },
            Expr::Fn(f) => self.visit_stmts(&f.function.body, cls, fname, prop),
            Expr::Arrow(a) => self.visit_arrow_body(&a.body, cls, fname, prop),
            Expr::Object(o) => self.visit_props(&o.props, cls, fname, prop),
            Expr::New(n) => {
                self.visit_expr(&*n.callee, cls, fname, prop);
                self.visit_exprs(&n.args, cls, fname, prop);
            },
            Expr::Paren(inner) => self.visit_expr(&**inner, cls, fname, prop),
            Expr::Await(inner) => self.visit_expr(&**inner, cls, fname, prop),
            Expr::Bin { left, right } => {
                self.visit_expr(&**left, cls, fname, prop);
                self.visit_expr(&**right, cls, fname, prop);
            },
            Expr::OptChain(inner) => self.visit_expr(&**inner, cls, fname, prop),
            Expr::Assign(a) => self.visit_expr(&*a.right, cls, fname, prop),
            Expr::Other { exprs } => self.visit_exprs(exprs, cls, fname, prop),
        }
    }

    fn visit_arrow_body(&mut self, b: &ArrowBody, cls: &Option<String>, fname: &Option<String>, prop: &Option<String>)
        ensures
            call_state_of(*final(self)) == resolve_arrow_body(
                *b,
                cls.deep_view(),
                fname.deep_view(),
                prop.deep_view(),
                old(self).functions_with_throws.deep_view(),
                call_state_of(*old(self)),
            ),
            final(self).functions_with_throws == old(self).functions_with_throws,
        decreases *b, 0int,
    {
        match b {
            ArrowBody::Block(ss) => self.visit_stmts(ss, cls, fname, prop),
            ArrowBody::Expr(e) => self.visit_expr(&**e, cls, fname, prop),
        }
    }

    pub fn visit_call(&mut self, c: &crate::ast::CallExpr, cls: &Option<String>, fname: &Option<String>, prop: &Option<String>)
        ensures
            call_state_of(*final(self)) == resolve_call(
                *c,
                cls.deep_view(),
                fname.deep_view(),
                prop.deep_view(),
                old(self).functions_with_throws.deep_view(),
                call_state_of(*old(self)),
            ),
            final(self).functions_with_throws == old(self).functions_with_throws,
        decreases *c, 0int,
    {
        match &c.callee {
            Callee::Expr(ce) => match &**ce {
                Expr::Member(m) => match &m.prop {
                    Some(p) => {
                        self.visit_expr(&*m.obj, cls, fname, prop);
                        let r0 = receiver_name_exec(&*m.obj, cls);
                        let pc = match &r0 {
                            Some(o) => match lookup_inst_class(&self.instantiations, o) {
                                Some(cn) => Some(cn),
                                None => Some(o.clone()),
                            },
                            None => None,
                        };
                        proof {
                            assert(pc.deep_view() == resolve_receiver(
                                call_state_of(*self).instantiations,
                                receiver_name(*(&*m.obj), cls.deep_view()),
                            ));
                        }
                        self.member_step(c.span, &pc, cls, fname, prop, p);
                        self.visit_call_args(&c.args, &pc, cls, fname, prop, p);
                    },
                    None => {
                        self.visit_expr(&*m.obj, cls, fname, prop);
                        self.visit_exprs(&c.args, cls, fname, prop);
                    },
                },
                Expr::Ident(name) => {
                    self.direct_step(c.span, name, cls, fname);
                    self.visit_call_args(&c.args, cls, cls, fname, prop, name);
                },
                _ => {
                    self.visit_expr(&**ce, cls, fname, prop);
                    self.visit_exprs(&c.args, cls, fname, prop);
                },
            },
            Callee::Other => self.visit_exprs(&c.args, cls, fname, prop),
        }
    }

    fn visit_call_args(
        &mut self,
        args: &Vec<Expr>,
        argcls: &Option<String>,
        cls: &Option<String>,
        fname: &Option<String>,
        prop: &Option<String>,
        argname: &String,
    )
        ensures
            call_state_of(*final(self)) == resolve_call_args(
                args@,
                argcls.deep_view(),
                cls.deep_view(),
                fname.deep_view(),
                prop.deep_view(),
                argname@,
                old(self).functions_with_throws.deep_view(),
                call_state_of(*old(self)),
            ),
            final(self).functions_with_throws == old(self).functions_with_throws,
        decreases args@, 0int,
    {
        let ghost throws = self.functions_with_throws.deep_view();
        let ghost st0 = call_state_of(*self);
        let mut i: usize = 0;
        while i < args.len()
            invariant
                i <= args.len(),
                call_state_of(*self) == resolve_call_args(
                    args@.subrange(0, i as int),
                    argcls.deep_view(),
                    cls.deep_view(),
                    fname.deep_view(),
                    prop.deep_view(),
                    argname@,
                    throws,
                    st0,
                ),
                self.functions_with_throws == old(self).functions_with_throws,
                throws == self.functions_with_throws.deep_view(),
            decreases args@.len() - i,
        {
            proof {
                assert(args@.subrange(0, i + 1).drop_last() =~= args@.subrange(0, i as int));
                assert(args@.subrange(0, i + 1).last() == args@[i as int]);
            }
            let ghost st_i = call_state_of(*self);
            self.visit_call_arg(&args[i], argcls, cls, fname, prop, argname);
            proof {
                assert(call_state_of(*self) == resolve_call_arg(
                    args@[i as int],
                    argcls.deep_view(),
                    cls.deep_view(),
                    fname.deep_view(),
                    prop.deep_view(),
                    argname@,
                    throws,
                    st_i,
                ));
                assert(resolve_call_args(args@.subrange(0, i + 1), argcls.deep_view(), cls.deep_view(), fname.deep_view(), prop.deep_view(), argname@, throws, st0)
                    == resolve_call_arg(args@[i as int], argcls.deep_view(), cls.deep_view(), fname.deep_view(), prop.deep_view(), argname@, throws,
                        resolve_call_args(args@.subrange(0, i as int), argcls.deep_view(), cls.deep_view(), fname.deep_view(), prop.deep_view(), argname@, throws, st0)));
            }
            i = i + 1;
        }
        proof {
            assert(args@.subrange(0, args@.len() as int) =~= args@);
        }
    }

    fn visit_call_arg(
        &mut self,
        a: &Expr,
        argcls: &Option<String>,
        cls: &Option<String>,
        fname: &Option<String>,
        prop: &Option<String>,
        argname: &String,
    )
        ensures
            call_state_of(*final(self)) == resolve_call_arg(
                *a,
                argcls.deep_view(),
                cls.deep_view(),
                fname.deep_view(),
                prop.deep_view(),
                argname@,
                old(self).functions_with_throws.deep_view(),
                call_state_of(*old(self)),
            ),
            final(self).functions_with_throws == old(self).functions_with_throws,
        decreases *a, 1int,
    {
        match a {
            Expr::Fn(f) => {
                let new_fname = Some(argname.clone());
                self.visit_stmts(&f.function.body, argcls, &new_fname, prop);
            },
            Expr::Arrow(ar) => {
                let new_fname = Some(argname.clone());
                self.visit_arrow_body(&ar.body, argcls, &new_fname, prop);
            },
            _ => self.visit_expr(a, cls, fname, prop),
        }
    }
}

} // verus!