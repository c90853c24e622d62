//! Properties of the analysis, proved once and for all.
//!
//! The central theorem here: over a well-formed tree — one whose spans nest,
//! so that every throw inside a function-like unit lies within the unit's
//! own span — every throw record the analysis returns has a non-empty span
//! list, and its enclosing span contains each of its throw spans. A second
//! family shows that every call record embeds a throw record of the pass-1
//! set, so a unit the ignore policy suppressed can never be referenced by a
//! call record either.

use crate::ast::{
    ArrowBody, Callee, ClassMember, Decl, Expr, Module, ModuleItem, Prop, Stmt, VarDeclarator,
};
use crate::call_finder::{
    caller_label, direct_call_step, find_throw_by_id, find_throw_by_method, has_call, inst_step,
    insert_call, lookup_inst, member_call_step, opt_or, option_view, receiver_name,
    resolve_arrow_body, resolve_call, resolve_call_arg, resolve_call_args, resolve_decl,
    resolve_expr, resolve_exprs, resolve_item, resolve_items, resolve_member, resolve_members,
    resolve_opt_box_stmt, resolve_opt_stmts, resolve_prop, resolve_props,
    resolve_receiver, resolve_stmt, resolve_stmts, resolve_var_decl, resolve_var_decls, CallState,
    CallToThrowMapV, InstantiationsMapV,
};
use crate::import_usage_finder::{
    direct_usage_step, has_usage, insert_usage, member_usage_step, usage_arrow_body, usage_call,
    usage_call_arg, usage_call_args, usage_decl, usage_expr, usage_exprs, usage_item, usage_items,
    usage_member, usage_members, usage_opt_box_stmt, usage_opt_stmts, usage_prop, usage_props,
    usage_stmt, usage_stmts, usage_var_decl, usage_var_decls,
};
use crate::span::Span;
use crate::throw_analyzer::{
    register_unit, scan_call, scan_call_arg, scan_call_args, scan_decl, scan_expr, scan_exprs,
    scan_item, scan_items, scan_member, scan_members, scan_opt_box_stmt,
    scan_opt_stmts, scan_prop, scan_props, scan_stmt, scan_stmts, scan_var_decl, scan_var_decls,
    scan_arrow_body, spec_is_ignored, has_throw_span, insert_throw, unit_record, ThrowState,
};
use crate::throw_finder::{
    throws_in_arrow_body, throws_in_stmts, IdentifierUsageV, ThrowMapV,
};
use crate::{analysis_spec, empty_throw_state, SettingsV};
use vstd::prelude::*;

verus! {

/// Every span of `spans` lies within `outer`.
pub open spec fn spans_within(spans: Seq<Span>, outer: Span) -> bool {
    forall|j: int| 0 <= j < spans.len() ==> outer.spec_contains(#[trigger] spans[j])
}

/// A block-bodied unit's span contains its collected throw spans, under
/// either try/catch policy.
pub open spec fn unit_ok_stmts(span: Span, body: Seq<Stmt>) -> bool {
    forall|inc: bool| spans_within(#[trigger] throws_in_stmts(body, inc), span)
}

/// An arrow-bodied unit's span contains its collected throw spans, under
/// either try/catch policy.
pub open spec fn unit_ok_arrow(span: Span, body: ArrowBody) -> bool {
    forall|inc: bool| spans_within(#[trigger] throws_in_arrow_body(body, inc), span)
}

/// Well-formedness of a tree: at every place where pass 1 registers a
/// function-like unit, the unit's span contains the throw spans collected
/// from its body.
pub open spec fn wf_module(m: Module) -> bool
    decreases m, 0int,
{
    wf_items(m.items@)
}

pub open spec fn wf_items(items: Seq<ModuleItem>) -> bool
    decreases items, 0int,
{
    if items.len() == 0 {
        true
    } else {
        wf_items(items.drop_last()) && wf_item(items.last())
    }
}

pub open spec fn wf_item(it: ModuleItem) -> bool
    decreases it, 0int,
{
    match it {
        ModuleItem::Import(_) => true,
        ModuleItem::Export(d) => wf_decl(d),
        ModuleItem::Stmt(s) => wf_stmt(s),
    }
}

pub open spec fn wf_decl(d: Decl) -> bool
    decreases d, 0int,
{
    match d {
        Decl::Fn(fd) => unit_ok_stmts(fd.function.span, fd.function.body@) && wf_stmts(
            fd.function.body@,
        ),
        Decl::Class(cd) => wf_members(cd.members@),
        Decl::Var(ds) => wf_var_decls(ds@),
    }
}

pub open spec fn wf_members(ms: Seq<ClassMember>) -> bool
    decreases ms, 0int,
{
    if ms.len() == 0 {
        true
    } else {
        wf_members(ms.drop_last()) && wf_member(ms.last())
    }
}

pub open spec fn wf_member(m: ClassMember) -> bool
    decreases m, 0int,
{
    match m {
        ClassMember::Method(cm) => unit_ok_stmts(cm.span, cm.function.body@) && wf_stmts(
            cm.function.body@,
        ),
        ClassMember::Ctor(c) => unit_ok_stmts(c.span, c.body@) && wf_stmts(c.body@),
        ClassMember::Other => true,
    }
}

pub open spec fn wf_var_decls(ds: Seq<VarDeclarator>) -> bool
    decreases ds, 0int,
{
    if ds.len() == 0 {
        true
    } else {
        wf_var_decls(ds.drop_last()) && wf_var_decl(ds.last())
    }
}

pub open spec fn wf_var_decl(v: VarDeclarator) -> bool
    decreases v, 0int,
{
    match v.init {
        None => true,
        Some(e) => match v.name {
            None => wf_expr(*e),
            Some(_) => match *e {
                Expr::Fn(f) => unit_ok_stmts(v.span, f.function.body@) && wf_stmts(
                    f.function.body@,
                ),
                Expr::Arrow(a) => unit_ok_arrow(v.span, a.body) && wf_arrow_body(a.body),
                Expr::Object(o) => wf_props(o.props@),
                _ => wf_expr(*e),
            },
        },
    }
}

pub open spec fn wf_props(ps: Seq<Prop>) -> bool
    decreases ps, 0int,
{
    if ps.len() == 0 {
        true
    } else {
        wf_props(ps.drop_last()) && wf_prop(ps.last())
    }
}

pub open spec fn wf_prop(p: Prop) -> bool
    decreases p, 0int,
{
    match p {
        Prop::Method { name, function } => unit_ok_stmts(function.span, function.body@)
            && wf_stmts(function.body@),
        Prop::KeyValue { key, value } => match *value {
            Expr::Fn(f) => unit_ok_stmts(f.function.span, f.function.body@) && wf_stmts(
                f.function.body@,
            ),
            Expr::Arrow(a) => unit_ok_arrow(a.span, a.body) && wf_arrow_body(a.body),
            _ => wf_expr(*value),
        },
        Prop::Other => true,
    }
}

pub open spec fn wf_stmts(ss: Seq<Stmt>) -> bool
    decreases ss, 0int,
{
    if ss.len() == 0 {
        true
    } else {
        wf_stmts(ss.drop_last()) && wf_stmt(ss.last())
    }
}

pub open spec fn wf_opt_stmts(ss: Option<Vec<Stmt>>) -> bool
    decreases ss, 0int,
{
    match ss {
        Some(b) => wf_stmts(b@),
        None => true,
    }
}

pub open spec fn wf_opt_box_stmt(s: Option<Box<Stmt>>) -> bool
    decreases s, 0int,
{
    match s {
        Some(b) => wf_stmt(*b),
        None => true,
    }
}

pub open spec fn wf_stmt(s: Stmt) -> bool
    decreases s, 0int,
{
    match s {
        Stmt::Expr(e) => wf_expr(e),
        Stmt::Block(ss) => wf_stmts(ss@),
        Stmt::If { test, cons, alt } => wf_expr(test) && wf_stmt(*cons) && wf_opt_box_stmt(alt),
        Stmt::Throw { span } => true,
        Stmt::Try(t) => wf_stmts(t.block@) && wf_opt_stmts(t.handler) && wf_opt_stmts(t.finalizer),
        Stmt::Decl(d) => wf_decl(d),
        Stmt::Other { exprs, stmts } => wf_exprs(exprs@) && wf_stmts(stmts@),
    }
}

pub open spec fn wf_exprs(es: Seq<Expr>) -> bool
    decreases es, 0int,
{
    if es.len() == 0 {
        true
    } else {
        wf_exprs(es.drop_last()) && wf_expr(es.last())
    }
}

pub open spec fn wf_expr(e: Expr) -> bool
    decreases e, 0int,
{
    match e {
        Expr::Ident(_) => true,
        Expr::This => true,
        Expr::Call(c) => wf_call(c),
        Expr::Member(m) => wf_expr(*m.obj),
        Expr::Fn(f) => unit_ok_stmts(f.function.span, f.function.body@) && wf_stmts(
            f.function.body@,
        ),
        Expr::Arrow(a) => unit_ok_arrow(a.span, a.body) && wf_arrow_body(a.body),
        Expr::Object(o) => wf_props(o.props@),
        Expr::New(n) => wf_expr(*n.callee) && wf_exprs(n.args@),
        Expr::Paren(inner) => wf_expr(*inner),
        Expr::Await(inner) => wf_expr(*inner),
        Expr::Bin { left, right } => wf_expr(*left) && wf_expr(*right),
        Expr::OptChain(inner) => wf_expr(*inner),
        Expr::Assign(a) => wf_expr(*a.right),
        Expr::Other { exprs } => wf_exprs(exprs@),
    }
}

pub open spec fn wf_arrow_body(b: ArrowBody) -> bool
    decreases b, 0int,
{
    match b {
        ArrowBody::Block(ss) => wf_stmts(ss@),
        ArrowBody::Expr(e) => wf_expr(*e),
    }
}

pub open spec fn wf_call(c: crate::ast::CallExpr) -> bool
    decreases c, 0int,
{
    match c.callee {
        Callee::Expr(ce) => match *ce {
            Expr::Member(m) => wf_expr(*m.obj) && wf_call_args(c.args@),
            Expr::Ident(_) => wf_call_args(c.args@),
            Expr::Arrow(a) => unit_ok_arrow(a.span, a.body) && wf_arrow_body(a.body) && wf_exprs(
                c.args@,
            ),
            _ => wf_expr(*ce) && wf_exprs(c.args@),
        },
        Callee::Other => wf_exprs(c.args@),
    }
}

pub open spec fn wf_call_args(args: Seq<Expr>) -> bool
    decreases args, 0int,
{
    if args.len() == 0 {
        true
    } else {
        wf_call_args(args.drop_last()) && wf_call_arg(args.last())
    }
}

pub open spec fn wf_call_arg(a: Expr) -> bool
    decreases a, 1int,
{
    match a {
        Expr::Fn(f) => unit_ok_stmts(f.function.span, f.function.body@) && wf_stmts(
            f.function.body@,
        ),
        Expr::Arrow(ar) => unit_ok_arrow(ar.span, ar.body) && wf_arrow_body(ar.body),
        _ => wf_expr(a),
    }
}

/// A throw record is sound: it has at least one throw span, and its
/// enclosing span contains every one of them.
pub open spec fn throw_record_ok(t: ThrowMapV) -> bool {
    t.throw_spans.len() > 0 && spans_within(t.throw_spans, t.throw_statement)
}

/// All records of a list are sound.
pub open spec fn all_throw_records_ok(ts: Seq<ThrowMapV>) -> bool {
    forall|i: int| 0 <= i < ts.len() ==> throw_record_ok(#[trigger] ts[i])
}

proof fn lemma_insert_throw_ok(ts: Seq<ThrowMapV>, t: ThrowMapV)
    requires
        all_throw_records_ok(ts),
        throw_record_ok(t),
    ensures
        all_throw_records_ok(insert_throw(ts, t)),
{
    if !has_throw_span(ts, t.throw_statement) {
        assert forall|i: int| 0 <= i < ts.push(t).len() implies throw_record_ok(
            #[trigger] ts.push(t)[i],
        ) by {
            if i < ts.len() {
                assert(ts.push(t)[i] == ts[i]);
            } else {
                assert(ts.push(t)[i] == t);
            }
        }
    }
}

proof fn lemma_register_unit_ok(
    st: ThrowState,
    spans: Seq<Span>,
    unit_span: Span,
    name: Seq<char>,
    field_class: Option<Seq<char>>,
    ctx_class: Option<Seq<char>>,
    comments: Seq<Seq<char>>,
    set: SettingsV,
)
    requires
        all_throw_records_ok(st.throws),
        spans_within(spans, unit_span),
    ensures
        all_throw_records_ok(
            register_unit(st, spans, unit_span, name, field_class, ctx_class, comments, set).throws,
        ),
{
    if spans.len() > 0 && !spec_is_ignored(comments, set.ignore_statements) {
        let t = unit_record(spans, unit_span, name, field_class, ctx_class);
        assert(throw_record_ok(t));
        lemma_insert_throw_ok(st.throws, t);
    }
}

proof fn lemma_scan_items_ok(items: Seq<ModuleItem>, set: SettingsV, st: ThrowState)
    requires
        wf_items(items),
        all_throw_records_ok(st.throws),
    ensures
        all_throw_records_ok(scan_items(items, set, st).throws),
    decreases items, 0int,
{
    if items.len() > 0 {
        lemma_scan_items_ok(items.drop_last(), set, st);
        lemma_scan_item_ok(items.last(), set, scan_items(items.drop_last(), set, st));
    }
}

proof fn lemma_scan_item_ok(it: ModuleItem, set: SettingsV, st: ThrowState)
    requires
        wf_item(it),
        all_throw_records_ok(st.throws),
    ensures
        all_throw_records_ok(scan_item(it, set, st).throws),
    decreases it, 0int,
{
    match it {
        ModuleItem::Import(_) => (),
        ModuleItem::Export(d) => lemma_scan_decl_ok(d, None, None, set, st),
        ModuleItem::Stmt(s) => lemma_scan_stmt_ok(s, None, None, set, st),
    }
}

proof fn lemma_scan_decl_ok(
    d: Decl,
    cls: Option<Seq<char>>,
    fname: Option<Seq<char>>,
    set: SettingsV,
    st: ThrowState,
)
    requires
        wf_decl(d),
        all_throw_records_ok(st.throws),
    ensures
        all_throw_records_ok(scan_decl(d, cls, fname, set, st).throws),
    decreases d, 0int,
{
    match d {
        Decl::Fn(fd) => {
            let spans = throws_in_stmts(fd.function.body@, set.include_try_statement_throws);
            assert(spans_within(spans, fd.function.span));
            lemma_register_unit_ok(
                st,
                spans,
                fd.function.span,
                fd.name@,
                None,
                cls,
                fd.function.leading_comments.deep_view(),
                set,
            );
            lemma_scan_stmts_ok(
                fd.function.body@,
                cls,
                Some(fd.name@),
                set,
                register_unit(
                    st,
                    spans,
                    fd.function.span,
                    fd.name@,
                    None,
                    cls,
                    fd.function.leading_comments.deep_view(),
                    set,
                ),
            );
        },
        Decl::Class(cd) => lemma_scan_members_ok(cd.members@, Some(cd.name@), set, st),
        Decl::Var(ds) => lemma_scan_var_decls_ok(ds@, cls, fname, set, st),
    }
}

proof fn lemma_scan_members_ok(
    ms: Seq<ClassMember>,
    cls: Option<Seq<char>>,
    set: SettingsV,
    st: ThrowState,
)
    requires
        wf_members(ms),
        all_throw_records_ok(st.throws),
    ensures
        all_throw_records_ok(scan_members(ms, cls, set, st).throws),
    decreases ms, 0int,
{
    if ms.len() > 0 {
        lemma_scan_members_ok(ms.drop_last(), cls, set, st);
        lemma_scan_member_ok(ms.last(), cls, set, scan_members(ms.drop_last(), cls, set, st));
    }
}

proof fn lemma_scan_member_ok(
    m: ClassMember,
    cls: Option<Seq<char>>,
    set: SettingsV,
    st: ThrowState,
)
    requires
        wf_member(m),
        all_throw_records_ok(st.throws),
    ensures
        all_throw_records_ok(scan_member(m, cls, set, st).throws),
    decreases m, 0int,
{
    match m {
        ClassMember::Method(cm) => match cm.name {
            Some(n) => {
                let spans = throws_in_stmts(cm.function.body@, set.include_try_statement_throws);
                assert(spans_within(spans, cm.span));
                lemma_register_unit_ok(
                    st,
                    spans,
                    cm.span,
                    n@,
                    cls,
                    cls,
                    cm.function.leading_comments.deep_view(),
                    set,
                );
                lemma_scan_stmts_ok(
                    cm.function.body@,
                    cls,
                    Some(n@),
                    set,
                    register_unit(
                        st,
                        spans,
                        cm.span,
                        n@,
                        cls,
                        cls,
                        cm.function.leading_comments.deep_view(),
                        set,
                    ),
                );
            },
            None => lemma_scan_stmts_ok(cm.function.body@, cls, None, set, st),
        },
        ClassMember::Ctor(c) => {
            let spans = throws_in_stmts(c.body@, set.include_try_statement_throws);
            assert(spans_within(spans, c.span));
            lemma_register_unit_ok(
                st,
                spans,
                c.span,
                "<constructor>"@,
                cls,
                cls,
                c.leading_comments.deep_view(),
                set,
            );
            lemma_scan_stmts_ok(
                c.body@,
                cls,
                Some("<constructor>"@),
                set,
                register_unit(
                    st,
                    spans,
                    c.span,
                    "<constructor>"@,
                    cls,
                    cls,
                    c.leading_comments.deep_view(),
                    set,
                ),
            );
        },
        ClassMember::Other => (),
    }
}

proof fn lemma_scan_var_decls_ok(
    ds: Seq<VarDeclarator>,
    cls: Option<Seq<char>>,
    fname: Option<Seq<char>>,
    set: SettingsV,
    st: ThrowState,
)
    requires
        wf_var_decls(ds),
        all_throw_records_ok(st.throws),
    ensures
        all_throw_records_ok(scan_var_decls(ds, cls, fname, set, st).throws),
    decreases ds, 0int,
{
    if ds.len() > 0 {
        lemma_scan_var_decls_ok(ds.drop_last(), cls, fname, set, st);
        lemma_scan_var_decl_ok(
            ds.last(),
            cls,
            fname,
            set,
            scan_var_decls(ds.drop_last(), cls, fname, set, st),
        );
    }
}

proof fn lemma_scan_var_decl_ok(
    v: VarDeclarator,
    cls: Option<Seq<char>>,
    fname: Option<Seq<char>>,
    set: SettingsV,
    st: ThrowState,
)
    requires
        wf_var_decl(v),
        all_throw_records_ok(st.throws),
    ensures
        all_throw_records_ok(scan_var_decl(v, cls, fname, set, st).throws),
    decreases v, 0int,
{
    match v.init {
        None => (),
        Some(e) => match v.name {
            None => lemma_scan_expr_ok(*e, cls, fname, set, st),
            Some(n) => match *e {
                Expr::Fn(f) => {
                    let spans = throws_in_stmts(
                        f.function.body@,
                        set.include_try_statement_throws,
                    );
                    assert(spans_within(spans, v.span));
                    lemma_register_unit_ok(
                        st,
                        spans,
                        v.span,
                        n@,
                        cls,
                        cls,
                        f.function.leading_comments.deep_view(),
                        set,
                    );
                    lemma_scan_stmts_ok(
                        f.function.body@,
                        cls,
                        Some(n@),
                        set,
                        register_unit(
                            st,
                            spans,
                            v.span,
                            n@,
                            cls,
                            cls,
                            f.function.leading_comments.deep_view(),
                            set,
                        ),
                    );
                },
                Expr::Arrow(a) => {
                    let spans = throws_in_arrow_body(a.body, set.include_try_statement_throws);
                    assert(spans_within(spans, v.span));
                    lemma_register_unit_ok(
                        st,
                        spans,
                        v.span,
                        n@,
                        cls,
                        cls,
                        a.leading_comments.deep_view(),
                        set,
                    );
                    lemma_scan_arrow_body_ok(
                        a.body,
                        cls,
                        Some(n@),
                        set,
                        register_unit(
                            st,
                            spans,
                            v.span,
                            n@,
                            cls,
                            cls,
                            a.leading_comments.deep_view(),
                            set,
                        ),
                    );
                },
                Expr::Object(o) => lemma_scan_props_ok(o.props@, Some(n@), fname, set, st),
                _ => lemma_scan_expr_ok(*e, cls, fname, set, st),
            },
        },
    }
}

proof fn lemma_scan_props_ok(
    ps: Seq<Prop>,
    cls: Option<Seq<char>>,
    fname: Option<Seq<char>>,
    set: SettingsV,
    st: ThrowState,
)
    requires
        wf_props(ps),
        all_throw_records_ok(st.throws),
    ensures
        all_throw_records_ok(scan_props(ps, cls, fname, set, st).throws),
    decreases ps, 0int,
{
    if ps.len() > 0 {
        lemma_scan_props_ok(ps.drop_last(), cls, fname, set, st);
        lemma_scan_prop_ok(
            ps.last(),
            cls,
            fname,
            set,
            scan_props(ps.drop_last(), cls, fname, set, st),
        );
    }
}

proof fn lemma_scan_prop_ok(
    p: Prop,
    cls: Option<Seq<char>>,
    fname: Option<Seq<char>>,
    set: SettingsV,
    st: ThrowState,
)
    requires
        wf_prop(p),
        all_throw_records_ok(st.throws),
    ensures
        all_throw_records_ok(scan_prop(p, cls, fname, set, st).throws),
    decreases p, 0int,
{
    match p {
        Prop::Method { name, function } => match name {
            Some(n) => {
                let spans = throws_in_stmts(function.body@, set.include_try_statement_throws);
                assert(spans_within(spans, function.span));
                lemma_register_unit_ok(
                    st,
                    spans,
                    function.span,
                    n@,
                    cls,
                    cls,
                    function.leading_comments.deep_view(),
                    set,
                );
                lemma_scan_stmts_ok(
                    function.body@,
                    cls,
                    Some(n@),
                    set,
                    register_unit(
                        st,
                        spans,
                        function.span,
                        n@,
                        cls,
                        cls,
                        function.leading_comments.deep_view(),
                        set,
                    ),
                );
            },
            None => lemma_scan_stmts_ok(function.body@, cls, None, set, st),
        },
        Prop::KeyValue { key, value } => match *value {
            Expr::Fn(f) => {
                let spans = throws_in_stmts(f.function.body@, set.include_try_statement_throws);
                assert(spans_within(spans, f.function.span));
                lemma_register_unit_ok(
                    st,
                    spans,
                    f.function.span,
                    key@,
                    cls,
                    cls,
                    f.function.leading_comments.deep_view(),
                    set,
                );
                lemma_scan_stmts_ok(
                    f.function.body@,
                    cls,
                    Some(key@),
                    set,
                    register_unit(
                        st,
                        spans,
                        f.function.span,
                        key@,
                        cls,
                        cls,
                        f.function.leading_comments.deep_view(),
                        set,
                    ),
                );
            },
            Expr::Arrow(a) => {
                let spans = throws_in_arrow_body(a.body, set.include_try_statement_throws);
                assert(spans_within(spans, a.span));
                lemma_register_unit_ok(
                    st,
                    spans,
                    a.span,
                    key@,
                    cls,
                    cls,
                    a.leading_comments.deep_view(),
                    set,
                );
                lemma_scan_arrow_body_ok(
                    a.body,
                    cls,
                    Some(key@),
                    set,
                    register_unit(
                        st,
                        spans,
                        a.span,
                        key@,
                        cls,
                        cls,
                        a.leading_comments.deep_view(),
                        set,
                    ),
                );
            },
            _ => lemma_scan_expr_ok(*value, cls, fname, set, st),
        },
        Prop::Other => (),
    }
}

proof fn lemma_scan_stmts_ok(
    ss: Seq<Stmt>,
    cls: Option<Seq<char>>,
    fname: Option<Seq<char>>,
    set: SettingsV,
    st: ThrowState,
)
    requires
        wf_stmts(ss),
        all_throw_records_ok(st.throws),
    ensures
        all_throw_records_ok(scan_stmts(ss, cls, fname, set, st).throws),
    decreases ss, 0int,
{
    if ss.len() > 0 {
        lemma_scan_stmts_ok(ss.drop_last(), cls, fname, set, st);
        lemma_scan_stmt_ok(
            ss.last(),
            cls,
            fname,
            set,
            scan_stmts(ss.drop_last(), cls, fname, set, st),
        );
    }
}

proof fn lemma_scan_opt_stmts_ok(
    ss: Option<Vec<Stmt>>,
    cls: Option<Seq<char>>,
    fname: Option<Seq<char>>,
    set: SettingsV,
    st: ThrowState,
)
    requires
        wf_opt_stmts(ss),
        all_throw_records_ok(st.throws),
    ensures
        all_throw_records_ok(scan_opt_stmts(ss, cls, fname, set, st).throws),
    decreases ss, 0int,
{
    match ss {
        Some(b) => lemma_scan_stmts_ok(b@, cls, fname, set, st),
        None => (),
    }
}

proof fn lemma_scan_opt_box_stmt_ok(
    s: Option<Box<Stmt>>,
    cls: Option<Seq<char>>,
    fname: Option<Seq<char>>,
    set: SettingsV,
    st: ThrowState,
)
    requires
        wf_opt_box_stmt(s),
        all_throw_records_ok(st.throws),
    ensures
        all_throw_records_ok(scan_opt_box_stmt(s, cls, fname, set, st).throws),
    decreases s, 0int,
{
    match s {
        Some(b) => lemma_scan_stmt_ok(*b, cls, fname, set, st),
        None => (),
    }
}

proof fn lemma_scan_stmt_ok(
    s: Stmt,
    cls: Option<Seq<char>>,
    fname: Option<Seq<char>>,
    set: SettingsV,
    st: ThrowState,
)
    requires
        wf_stmt(s),
        all_throw_records_ok(st.throws),
    ensures
        all_throw_records_ok(scan_stmt(s, cls, fname, set, st).throws),
    decreases s, 0int,
{
    match s {
        Stmt::Expr(e) => lemma_scan_expr_ok(e, cls, fname, set, st),
        Stmt::Block(ss) => lemma_scan_stmts_ok(ss@, cls, fname, set, st),
        Stmt::If { test, cons, alt } => {
            lemma_scan_expr_ok(test, cls, fname, set, st);
            let st1 = scan_expr(test, cls, fname, set, st);
            lemma_scan_stmt_ok(*cons, cls, fname, set, st1);
            lemma_scan_opt_box_stmt_ok(alt, cls, fname, set, scan_stmt(*cons, cls, fname, set, st1));
        },
        Stmt::Throw { span } => (),
        Stmt::Try(t) => {
            lemma_scan_stmts_ok(t.block@, cls, fname, set, st);
            let st1 = scan_stmts(t.block@, cls, fname, set, st);
            lemma_scan_opt_stmts_ok(t.handler, cls, fname, set, st1);
            lemma_scan_opt_stmts_ok(
                t.finalizer,
                cls,
                fname,
                set,
                scan_opt_stmts(t.handler, cls, fname, set, st1),
            );
        },
        Stmt::Decl(d) => lemma_scan_decl_ok(d, cls, fname, set, st),
        Stmt::Other { exprs, stmts } => {
            lemma_scan_exprs_ok(exprs@, cls, fname, set, st);
            lemma_scan_stmts_ok(stmts@, cls, fname, set, scan_exprs(exprs@, cls, fname, set, st));
        },
    }
}

proof fn lemma_scan_exprs_ok(
    es: Seq<Expr>,
    cls: Option<Seq<char>>,
    fname: Option<Seq<char>>,
    set: SettingsV,
    st: ThrowState,
)
    requires
        wf_exprs(es),
        all_throw_records_ok(st.throws),
    ensures
        all_throw_records_ok(scan_exprs(es, cls, fname, set, st).throws),
    decreases es, 0int,
{
    if es.len() > 0 {
        lemma_scan_exprs_ok(es.drop_last(), cls, fname, set, st);
        lemma_scan_expr_ok(
            es.last(),
            cls,
            fname,
            set,
            scan_exprs(es.drop_last(), cls, fname, set, st),
        );
    }
}

proof fn lemma_scan_expr_ok(
    e: Expr,
    cls: Option<Seq<char>>,
    fname: Option<Seq<char>>,
    set: SettingsV,
    st: ThrowState,
)
    requires
        wf_expr(e),
        all_throw_records_ok(st.throws),
    ensures
        all_throw_records_ok(scan_expr(e, cls, fname, set, st).throws),
    decreases e, 0int,
{
    match e {
        Expr::Ident(_) => (),
        Expr::This => (),
        Expr::Call(c) => lemma_scan_call_ok(c, cls, fname, set, st),
        Expr::Member(m) => lemma_scan_expr_ok(*m.obj, cls, fname, set, st),
        Expr::Fn(f) => {
            let spans = throws_in_stmts(f.function.body@, set.include_try_statement_throws);
            assert(spans_within(spans, f.function.span));
            lemma_register_unit_ok(
                st,
                spans,
                f.function.span,
                crate::text::spec_or_anonymous(fname),
                None,
                cls,
                f.function.leading_comments.deep_view(),
                set,
            );
            lemma_scan_stmts_ok(
                f.function.body@,
                cls,
                fname,
                set,
                register_unit(
                    st,
                    spans,
                    f.function.span,
                    crate::text::spec_or_anonymous(fname),
                    None,
                    cls,
                    f.function.leading_comments.deep_view(),
                    set,
                ),
            );
        },
        Expr::Arrow(a) => {
            let spans = throws_in_arrow_body(a.body, set.include_try_statement_throws);
            assert(spans_within(spans, a.span));
            lemma_register_unit_ok(
                st,
                spans,
                a.span,
                crate::text::spec_or_anonymous(fname),
                None,
                cls,
                a.leading_comments.deep_view(),
                set,
            );
            lemma_scan_arrow_body_ok(
                a.body,
                cls,
                fname,
                set,
                register_unit(
                    st,
                    spans,
                    a.span,
                    crate::text::spec_or_anonymous(fname),
                    None,
                    cls,
                    a.leading_comments.deep_view(),
                    set,
                ),
            );
        },
        Expr::Object(o) => lemma_scan_props_ok(o.props@, cls, fname, set, st),
        Expr::New(n) => {
            lemma_scan_expr_ok(*n.callee, cls, fname, set, st);
            lemma_scan_exprs_ok(n.args@, cls, fname, set, scan_expr(*n.callee, cls, fname, set, st));
        },
        Expr::Paren(inner) => lemma_scan_expr_ok(*inner, cls, fname, set, st),
        Expr::Await(inner) => lemma_scan_expr_ok(*inner, cls, fname, set, st),
        Expr::Bin { left, right } => {
            lemma_scan_expr_ok(*left, cls, fname, set, st);
            lemma_scan_expr_ok(*right, cls, fname, set, scan_expr(*left, cls, fname, set, st));
        },
        Expr::OptChain(inner) => lemma_scan_expr_ok(*inner, cls, fname, set, st),
        Expr::Assign(a) => {
            if a.target is Some {
                if (*a.right) is Fn || (*a.right) is Arrow {
                    lemma_scan_expr_ok(*a.right, cls, Some(a.target->0@), set, st);
                } else {
                    lemma_scan_expr_ok(*a.right, cls, fname, set, st);
                }
            } else {
                lemma_scan_expr_ok(*a.right, cls, fname, set, st);
            }
        },
        Expr::Other { exprs } => lemma_scan_exprs_ok(exprs@, cls, fname, set, st),
    }
}

proof fn lemma_scan_arrow_body_ok(
    b: ArrowBody,
    cls: Option<Seq<char>>,
    fname: Option<Seq<char>>,
    set: SettingsV,
    st: ThrowState,
)
    requires
        wf_arrow_body(b),
        all_throw_records_ok(st.throws),
    ensures
        all_throw_records_ok(scan_arrow_body(b, cls, fname, set, st).throws),
    decreases b, 0int,
{
    match b {
        ArrowBody::Block(ss) => lemma_scan_stmts_ok(ss@, cls, fname, set, st),
        ArrowBody::Expr(e) => lemma_scan_expr_ok(*e, cls, fname, set, st),
    }
}

proof fn lemma_scan_call_ok(
    c: crate::ast::CallExpr,
    cls: Option<Seq<char>>,
    fname: Option<Seq<char>>,
    set: SettingsV,
    st: ThrowState,
)
    requires
        wf_call(c),
        all_throw_records_ok(st.throws),
    ensures
        all_throw_records_ok(scan_call(c, cls, fname, set, st).throws),
    decreases c, 0int,
{
    match c.callee {
        Callee::Expr(ce) => match *ce {
            Expr::Member(m) => {
                lemma_scan_expr_ok(*m.obj, cls, fname, set, st);
                lemma_scan_call_args_ok(
                    c.args@,
                    cls,
                    fname,
                    crate::text::spec_or_anonymous(
                        match m.prop {
                            Some(p) => Some(p@),
                            None => None,
                        },
                    ),
                    set,
                    scan_expr(*m.obj, cls, fname, set, st),
                );
            },
            Expr::Ident(name) => lemma_scan_call_args_ok(c.args@, cls, fname, name@, set, st),
            Expr::Arrow(a) => {
                let spans = throws_in_arrow_body(a.body, set.include_try_statement_throws);
                assert(spans_within(spans, a.span));
                lemma_register_unit_ok(
                    st,
                    spans,
                    a.span,
                    crate::text::spec_or_anonymous(fname),
                    None,
                    cls,
                    a.leading_comments.deep_view(),
                    set,
                );
                let st1 = register_unit(
                    st,
                    spans,
                    a.span,
                    crate::text::spec_or_anonymous(fname),
                    None,
                    cls,
                    a.leading_comments.deep_view(),
                    set,
                );
                lemma_scan_arrow_body_ok(a.body, cls, fname, set, st1);
                lemma_scan_exprs_ok(
                    c.args@,
                    cls,
                    fname,
                    set,
                    scan_arrow_body(a.body, cls, fname, set, st1),
                );
            },
            _ => {
                lemma_scan_expr_ok(*ce, cls, fname, set, st);
                lemma_scan_exprs_ok(
                    c.args@,
                    cls,
                    fname,
                    set,
                    scan_expr(*ce, cls, fname, set, st),
                );
            },
        },
        Callee::Other => lemma_scan_exprs_ok(c.args@, cls, fname, set, st),
    }
}

proof fn lemma_scan_call_args_ok(
    args: Seq<Expr>,
    cls: Option<Seq<char>>,
    fname: Option<Seq<char>>,
    argname: Seq<char>,
    set: SettingsV,
    st: ThrowState,
)
    requires
        wf_call_args(args),
        all_throw_records_ok(st.throws),
    ensures
        all_throw_records_ok(scan_call_args(args, cls, fname, argname, set, st).throws),
    decreases args, 0int,
{
    if args.len() > 0 {
        lemma_scan_call_args_ok(args.drop_last(), cls, fname, argname, set, st);
        lemma_scan_call_arg_ok(
            args.last(),
            cls,
            fname,
            argname,
            set,
            scan_call_args(args.drop_last(), cls, fname, argname, set, st),
        );
    }
}

proof fn lemma_scan_call_arg_ok(
    a: Expr,
    cls: Option<Seq<char>>,
    fname: Option<Seq<char>>,
    argname: Seq<char>,
    set: SettingsV,
    st: ThrowState,
)
    requires
        wf_call_arg(a),
        all_throw_records_ok(st.throws),
    ensures
        all_throw_records_ok(scan_call_arg(a, cls, fname, argname, set, st).throws),
    decreases a, 1int,
{
    match a {
        Expr::Fn(f) => {
            let spans = throws_in_stmts(f.function.body@, set.include_try_statement_throws);
            assert(spans_within(spans, f.function.span));
            lemma_register_unit_ok(
                st,
                spans,
                f.function.span,
                argname,
                None,
                cls,
                f.function.leading_comments.deep_view(),
                set,
            );
            lemma_scan_stmts_ok(
                f.function.body@,
                cls,
                Some(argname),
                set,
                register_unit(
                    st,
                    spans,
                    f.function.span,
                    argname,
                    None,
                    cls,
                    f.function.leading_comments.deep_view(),
                    set,
                ),
            );
        },
        Expr::Arrow(ar) => {
            let spans = throws_in_arrow_body(ar.body, set.include_try_statement_throws);
            assert(spans_within(spans, ar.span));
            lemma_register_unit_ok(
                st,
                spans,
                ar.span,
                argname,
                None,
                cls,
                ar.leading_comments.deep_view(),
                set,
            );
            lemma_scan_arrow_body_ok(
                ar.body,
                cls,
                Some(argname),
                set,
                register_unit(
                    st,
                    spans,
                    ar.span,
                    argname,
                    None,
                    cls,
                    ar.leading_comments.deep_view(),
                    set,
                ),
            );
        },
        _ => lemma_scan_expr_ok(a, cls, fname, set, st),
    }
}

/// Every throw record of an analysis of a well-formed module has at least
/// one throw span, and its enclosing span contains every one of them.
pub proof fn lemma_throw_records_well_formed(m: Module, set: SettingsV)
    requires
        wf_module(m),
    ensures
        forall|i: int|
            0 <= i < analysis_spec(m, set).functions_with_throws.len()
                ==> throw_record_ok(#[trigger] analysis_spec(m, set).functions_with_throws[i]),
{
    assert(all_throw_records_ok(empty_throw_state().throws));
    lemma_scan_items_ok(m.items@, set, empty_throw_state());
}

/// A function-like unit whose leading comments contain a configured ignore
/// marker contributes nothing: registration leaves the pass-1 state exactly
/// as it was, for either try/catch policy and any context.
pub proof fn lemma_ignore_marker_suppresses(
    st: ThrowState,
    spans: Seq<Span>,
    unit_span: Span,
    name: Seq<char>,
    field_class: Option<Seq<char>>,
    ctx_class: Option<Seq<char>>,
    comments: Seq<Seq<char>>,
    set: SettingsV,
)
    requires
        spec_is_ignored(comments, set.ignore_statements),
    ensures
        register_unit(st, spans, unit_span, name, field_class, ctx_class, comments, set) == st,
{
}


/// `c` embeds one of the records of `throws`.
pub open spec fn call_from_known(c: CallToThrowMapV, throws: Seq<ThrowMapV>) -> bool {
    exists|j: int| 0 <= j < throws.len() && throws[j] == c.throw_map
}

/// Every call record of the list embeds a record of `throws`.
pub open spec fn all_calls_known(cs: Seq<CallToThrowMapV>, throws: Seq<ThrowMapV>) -> bool {
    forall|i: int| 0 <= i < cs.len() ==> call_from_known(#[trigger] cs[i], throws)
}

proof fn lemma_find_by_method_mem(ts: Seq<ThrowMapV>, m: Seq<char>)
    ensures
        find_throw_by_method(ts, m) is Some ==> exists|j: int|
            0 <= j < ts.len() && ts[j] == find_throw_by_method(ts, m)->0,
    decreases ts,
{
    if ts.len() > 0 && ts[0].function_or_method_name != m {
        lemma_find_by_method_mem(ts.drop_first(), m);
        if find_throw_by_method(ts, m) is Some {
            let j = choose|j: int|
                0 <= j < ts.drop_first().len() && ts.drop_first()[j] == find_throw_by_method(
                    ts.drop_first(),
                    m,
                )->0;
            assert(ts[j + 1] == find_throw_by_method(ts, m)->0);
        }
    }
}

proof fn lemma_find_by_id_mem(ts: Seq<ThrowMapV>, id: Seq<char>)
    ensures
        find_throw_by_id(ts, id) is Some ==> exists|j: int|
            0 <= j < ts.len() && ts[j] == find_throw_by_id(ts, id)->0,
    decreases ts,
{
    if ts.len() > 0 && ts[0].id != id {
        lemma_find_by_id_mem(ts.drop_first(), id);
        if find_throw_by_id(ts, id) is Some {
            let j = choose|j: int|
                0 <= j < ts.drop_first().len() && ts.drop_first()[j] == find_throw_by_id(
                    ts.drop_first(),
                    id,
                )->0;
            assert(ts[j + 1] == find_throw_by_id(ts, id)->0);
        }
    }
}

proof fn lemma_insert_call_known(cs: Seq<CallToThrowMapV>, c: CallToThrowMapV, throws: Seq<ThrowMapV>)
    requires
        all_calls_known(cs, throws),
        call_from_known(c, throws),
    ensures
        all_calls_known(insert_call(cs, c), throws),
{
    if !has_call(cs, c.id, c.call_span) {
        assert forall|i: int| 0 <= i < cs.push(c).len() implies call_from_known(
            #[trigger] cs.push(c)[i],
            throws,
        ) by {
            if i < cs.len() {
                assert(cs.push(c)[i] == cs[i]);
            } else {
                assert(cs.push(c)[i] == c);
            }
        }
    }
}

proof fn lemma_member_step_known(
    span: Span,
    pc: Option<Seq<char>>,
    cls: Option<Seq<char>>,
    fname: Option<Seq<char>>,
    prop: Option<Seq<char>>,
    method: Seq<char>,
    throws: Seq<ThrowMapV>,
    st: CallState,
)
    requires
        all_calls_known(st.calls, throws),
    ensures
        all_calls_known(member_call_step(span, pc, cls, fname, prop, method, throws, st).calls, throws),
{
    lemma_find_by_method_mem(throws, method);
    match find_throw_by_method(throws, method) {
        Some(tm) => {
            let label = caller_label(fname, prop);
            let cns = crate::text::spec_or_not_set(opt_or(cls, pc));
            let rec = CallToThrowMapV {
                call_span: span,
                call_function_or_method_name: label,
                call_class_name: Some(cns),
                throw_map: tm,
                class_name: pc,
                id: crate::text::spec_qualified_id(opt_or(cls, pc), label),
            };
            assert(call_from_known(rec, throws));
            lemma_insert_call_known(st.calls, rec, throws);
        },
        None => (),
    }
}

proof fn lemma_direct_step_known(
    span: Span,
    name: Seq<char>,
    cls: Option<Seq<char>>,
    fname: Option<Seq<char>>,
    throws: Seq<ThrowMapV>,
    st: CallState,
)
    requires
        all_calls_known(st.calls, throws),
    ensures
        all_calls_known(direct_call_step(span, name, cls, fname, throws, st).calls, throws),
{
    lemma_find_by_id_mem(throws, crate::text::spec_qualified_id(cls, name));
    match find_throw_by_id(throws, crate::text::spec_qualified_id(cls, name)) {
        Some(tm) => {
            let label = crate::text::spec_or_anonymous(fname);
            let rec = CallToThrowMapV {
                call_span: span,
                call_function_or_method_name: label,
                call_class_name: cls,
                throw_map: tm,
                class_name: None,
                id: crate::text::spec_qualified_id(cls, label),
            };
            assert(call_from_known(rec, throws));
            lemma_insert_call_known(st.calls, rec, throws);
        },
        None => (),
    }
}

proof fn lemma_resolve_items_known(items: Seq<ModuleItem>, throws: Seq<ThrowMapV>, st: CallState)
    requires
        all_calls_known(st.calls, throws),
    ensures
        all_calls_known(resolve_items(items, throws, st).calls, throws),
    decreases items, 0int,
{
    if items.len() > 0 {
        lemma_resolve_items_known(items.drop_last(), throws, st);
        lemma_resolve_item_known(items.last(), throws, resolve_items(items.drop_last(), throws, st));
    }
}

proof fn lemma_resolve_item_known(it: ModuleItem, throws: Seq<ThrowMapV>, st: CallState)
    requires
        all_calls_known(st.calls, throws),
    ensures
        all_calls_known(resolve_item(it, throws, st).calls, throws),
    decreases it, 0int,
{
    match it {
        ModuleItem::Import(_) => (),
        ModuleItem::Export(d) => lemma_resolve_decl_known(d, None, None, None, throws, st),
        ModuleItem::Stmt(s) => lemma_resolve_stmt_known(s, None, None, None, throws, st),
    }
}

proof fn lemma_resolve_decl_known(
    d: Decl,
    cls: Option<Seq<char>>,
    fname: Option<Seq<char>>,
    prop: Option<Seq<char>>,
    throws: Seq<ThrowMapV>,
    st: CallState,
)
    requires
        all_calls_known(st.calls, throws),
    ensures
        all_calls_known(resolve_decl(d, cls, fname, prop, throws, st).calls, throws),
    decreases d, 0int,
{
    match d {
        Decl::Fn(fd) => lemma_resolve_stmts_known(
            fd.function.body@,
            cls,
            Some(fd.name@),
            prop,
            throws,
            st,
        ),
        Decl::Class(cd) => lemma_resolve_members_known(
            cd.members@,
            Some(cd.name@),
            fname,
            prop,
            throws,
            st,
        ),
        Decl::Var(ds) => lemma_resolve_var_decls_known(ds@, cls, fname, prop, throws, st),
    }
}

proof fn lemma_resolve_members_known(
    ms: Seq<ClassMember>,
    cls: Option<Seq<char>>,
    fname: Option<Seq<char>>,
    prop: Option<Seq<char>>,
    throws: Seq<ThrowMapV>,
    st: CallState,
)
    requires
        all_calls_known(st.calls, throws),
    ensures
        all_calls_known(resolve_members(ms, cls, fname, prop, throws, st).calls, throws),
    decreases ms, 0int,
{
    if ms.len() > 0 {
        lemma_resolve_members_known(ms.drop_last(), cls, fname, prop, throws, st);
        lemma_resolve_member_known(
            ms.last(),
            cls,
            fname,
            prop,
            throws,
            resolve_members(ms.drop_last(), cls, fname, prop, throws, st),
        );
    }
}

proof fn lemma_resolve_member_known(
    m: ClassMember,
    cls: Option<Seq<char>>,
    fname: Option<Seq<char>>,
    prop: Option<Seq<char>>,
    throws: Seq<ThrowMapV>,
    st: CallState,
)
    requires
        all_calls_known(st.calls, throws),
    ensures
        all_calls_known(resolve_member(m, cls, fname, prop, throws, st).calls, throws),
    decreases m, 0int,
{
    match m {
        ClassMember::Method(cm) => match cm.name {
            Some(n) => lemma_resolve_stmts_known(
                cm.function.body@,
                cls,
                fname,
                Some(n@),
                throws,
                st,
            ),
            None => lemma_resolve_stmts_known(cm.function.body@, cls, fname, prop, throws, st),
        },
        ClassMember::Ctor(c) => lemma_resolve_stmts_known(c.body@, cls, fname, prop, throws, st),
        ClassMember::Other => (),
    }
}

proof fn lemma_resolve_var_decls_known(
    ds: Seq<VarDeclarator>,
    cls: Option<Seq<char>>,
    fname: Option<Seq<char>>,
    prop: Option<Seq<char>>,
    throws: Seq<ThrowMapV>,
    st: CallState,
)
    requires
        all_calls_known(st.calls, throws),
    ensures
        all_calls_known(resolve_var_decls(ds, cls, fname, prop, throws, st).calls, throws),
    decreases ds, 0int,
{
    if ds.len() > 0 {
        lemma_resolve_var_decls_known(ds.drop_last(), cls, fname, prop, throws, st);
        lemma_resolve_var_decl_known(
            ds.last(),
            cls,
            fname,
            prop,
            throws,
            resolve_var_decls(ds.drop_last(), cls, fname, prop, throws, st),
        );
    }
}

proof fn lemma_resolve_var_decl_known(
    v: VarDeclarator,
    cls: Option<Seq<char>>,
    fname: Option<Seq<char>>,
    prop: Option<Seq<char>>,
    throws: Seq<ThrowMapV>,
    st: CallState,
)
    requires
        all_calls_known(st.calls, throws),
    ensures
        all_calls_known(resolve_var_decl(v, cls, fname, prop, throws, st).calls, throws),
    decreases v, 0int,
{
    match v.init {
        None => (),
        Some(e) => match v.name {
            None => lemma_resolve_expr_known(*e, cls, fname, prop, throws, st),
            Some(nm) => match *e {
                Expr::Fn(f) => lemma_resolve_stmts_known(
                    f.function.body@,
                    cls,
                    Some(nm@),
                    prop,
                    throws,
                    st,
                ),
                Expr::Arrow(a) => lemma_resolve_arrow_body_known(
                    a.body,
                    cls,
                    Some(nm@),
                    prop,
                    throws,
                    st,
                ),
                Expr::New(n) => {
                    lemma_resolve_expr_known(*e, cls, fname, prop, throws, inst_step(*n.callee, nm@, st));
                },
                _ => lemma_resolve_expr_known(*e, cls, fname, prop, throws, st),
            },
        },
    }
}

proof fn lemma_resolve_props_known(
    ps: Seq<Prop>,
    cls: Option<Seq<char>>,
    fname: Option<Seq<char>>,
    prop: Option<Seq<char>>,
    throws: Seq<ThrowMapV>,
    st: CallState,
)
    requires
        all_calls_known(st.calls, throws),
    ensures
        all_calls_known(resolve_props(ps, cls, fname, prop, throws, st).calls, throws),
    decreases ps, 0int,
{
    if ps.len() > 0 {
        lemma_resolve_props_known(ps.drop_last(), cls, fname, prop, throws, st);
        lemma_resolve_prop_known(
            ps.last(),
            cls,
            fname,
            prop,
            throws,
            resolve_props(ps.drop_last(), cls, fname, prop, throws, st),
        );
    }
}

proof fn lemma_resolve_prop_known(
    p: Prop,
    cls: Option<Seq<char>>,
    fname: Option<Seq<char>>,
    prop: Option<Seq<char>>,
    throws: Seq<ThrowMapV>,
    st: CallState,
)
    requires
        all_calls_known(st.calls, throws),
    ensures
        all_calls_known(resolve_prop(p, cls, fname, prop, throws, st).calls, throws),
    decreases p, 0int,
{
    match p {
        Prop::Method { name, function } => match name {
            Some(n) => lemma_resolve_stmts_known(function.body@, cls, fname, Some(n@), throws, st),
            None => lemma_resolve_stmts_known(function.body@, cls, fname, prop, throws, st),
        },
        Prop::KeyValue { key, value } => match *value {
            Expr::Fn(f) => lemma_resolve_stmts_known(
                f.function.body@,
                cls,
                fname,
                Some(key@),
                throws,
                st,
            ),
            Expr::Arrow(a) => lemma_resolve_arrow_body_known(
                a.body,
                cls,
                fname,
                Some(key@),
                throws,
                st,
            ),
            _ => lemma_resolve_expr_known(*value, cls, fname, prop, throws, st),
        },
        Prop::Other => (),
    }
}

proof fn lemma_resolve_stmts_known(
    ss: Seq<Stmt>,
    cls: Option<Seq<char>>,
    fname: Option<Seq<char>>,
    prop: Option<Seq<char>>,
    throws: Seq<ThrowMapV>,
    st: CallState,
)
    requires
        all_calls_known(st.calls, throws),
    ensures
        all_calls_known(resolve_stmts(ss, cls, fname, prop, throws, st).calls, throws),
    decreases ss, 0int,
{
    if ss.len() > 0 {
        lemma_resolve_stmts_known(ss.drop_last(), cls, fname, prop, throws, st);
        lemma_resolve_stmt_known(
            ss.last(),
            cls,
            fname,
            prop,
            throws,
            resolve_stmts(ss.drop_last(), cls, fname, prop, throws, st),
        );
    }
}

proof fn lemma_resolve_opt_stmts_known(
    ss: Option<Vec<Stmt>>,
    cls: Option<Seq<char>>,
    fname: Option<Seq<char>>,
    prop: Option<Seq<char>>,
    throws: Seq<ThrowMapV>,
    st: CallState,
)
    requires
        all_calls_known(st.calls, throws),
    ensures
        all_calls_known(resolve_opt_stmts(ss, cls, fname, prop, throws, st).calls, throws),
    decreases ss, 0int,
{
    match ss {
        Some(b) => lemma_resolve_stmts_known(b@, cls, fname, prop, throws, st),
        None => (),
    }
}

proof fn lemma_resolve_opt_box_stmt_known(
    s: Option<Box<Stmt>>,
    cls: Option<Seq<char>>,
    fname: Option<Seq<char>>,
    prop: Option<Seq<char>>,
    throws: Seq<ThrowMapV>,
    st: CallState,
)
    requires
        all_calls_known(st.calls, throws),
    ensures
        all_calls_known(resolve_opt_box_stmt(s, cls, fname, prop, throws, st).calls, throws),
    decreases s, 0int,
{
    match s {
        Some(b) => lemma_resolve_stmt_known(*b, cls, fname, prop, throws, st),
        None => (),
    }
}

proof fn lemma_resolve_stmt_known(
    s: Stmt,
    cls: Option<Seq<char>>,
    fname: Option<Seq<char>>,
    prop: Option<Seq<char>>,
    throws: Seq<ThrowMapV>,
    st: CallState,
)
    requires
        all_calls_known(st.calls, throws),
    ensures
        all_calls_known(resolve_stmt(s, cls, fname, prop, throws, st).calls, throws),
    decreases s, 0int,
{
    match s {
        Stmt::Expr(e) => lemma_resolve_expr_known(e, cls, fname, prop, throws, st),
        Stmt::Block(ss) => lemma_resolve_stmts_known(ss@, cls, fname, prop, throws, st),
        Stmt::If { test, cons, alt } => {
            lemma_resolve_expr_known(test, cls, fname, prop, throws, st);
            let st1 = resolve_expr(test, cls, fname, prop, throws, st);
            lemma_resolve_stmt_known(*cons, cls, fname, prop, throws, st1);
            lemma_resolve_opt_box_stmt_known(
                alt,
                cls,
                fname,
                prop,
                throws,
                resolve_stmt(*cons, cls, fname, prop, throws, st1),
            );
        },
        Stmt::Throw { span } => (),
        Stmt::Try(t) => {
            lemma_resolve_stmts_known(t.block@, cls, fname, prop, throws, st);
            let st1 = resolve_stmts(t.block@, cls, fname, prop, throws, st);
            lemma_resolve_opt_stmts_known(t.handler, cls, fname, prop, throws, st1);
            lemma_resolve_opt_stmts_known(
                t.finalizer,
                cls,
                fname,
                prop,
                throws,
                resolve_opt_stmts(t.handler, cls, fname, prop, throws, st1),
            );
        },
        Stmt::Decl(d) => lemma_resolve_decl_known(d, cls, fname, prop, throws, st),
        Stmt::Other { exprs, stmts } => {
            lemma_resolve_exprs_known(exprs@, cls, fname, prop, throws, st);
            lemma_resolve_stmts_known(
                stmts@,
                cls,
                fname,
                prop,
                throws,
                resolve_exprs(exprs@, cls, fname, prop, throws, st),
            );
        },
    }
}

proof fn lemma_resolve_exprs_known(
    es: Seq<Expr>,
    cls: Option<Seq<char>>,
    fname: Option<Seq<char>>,
    prop: Option<Seq<char>>,
    throws: Seq<ThrowMapV>,
    st: CallState,
)
    requires
        all_calls_known(st.calls, throws),
    ensures
        all_calls_known(resolve_exprs(es, cls, fname, prop, throws, st).calls, throws),
    decreases es, 0int,
{
    if es.len() > 0 {
        lemma_resolve_exprs_known(es.drop_last(), cls, fname, prop, throws, st);
        lemma_resolve_expr_known(
            es.last(),
            cls,
            fname,
            prop,
            throws,
            resolve_exprs(es.drop_last(), cls, fname, prop, throws, st),
        );
    }
}

proof fn lemma_resolve_expr_known(
    e: Expr,
    cls: Option<Seq<char>>,
    fname: Option<Seq<char>>,
    prop: Option<Seq<char>>,
    throws: Seq<ThrowMapV>,
    st: CallState,
)
    requires
        all_calls_known(st.calls, throws),
    ensures
        all_calls_known(resolve_expr(e, cls, fname, prop, throws, st).calls, throws),
    decreases e, 0int,
{
    match e {
        Expr::Ident(_) => (),
        Expr::This => (),
        Expr::Call(c) => lemma_resolve_call_known(c, cls, fname, prop, throws, st),
        Expr::Member(m) => lemma_resolve_expr_known(
            *m.obj,
            cls,
            fname,
            opt_or(option_view(m.prop), prop),
            throws,
            st,
        ),
        Expr::Fn(f) => lemma_resolve_stmts_known(f.function.body@, cls, fname, prop, throws, st),
        Expr::Arrow(a) => lemma_resolve_arrow_body_known(a.body, cls, fname, prop, throws, st),
        Expr::Object(o) => lemma_resolve_props_known(o.props@, cls, fname, prop, throws, st),
        Expr::New(n) => {
            lemma_resolve_expr_known(*n.callee, cls, fname, prop, throws, st);
            lemma_resolve_exprs_known(
                n.args@,
                cls,
                fname,
                prop,
                throws,
                resolve_expr(*n.callee, cls, fname, prop, throws, st),
            );
        },
        Expr::Paren(inner) => lemma_resolve_expr_known(*inner, cls, fname, prop, throws, st),
        Expr::Await(inner) => lemma_resolve_expr_known(*inner, cls, fname, prop, throws, st),
        Expr::Bin { left, right } => {
            lemma_resolve_expr_known(*left, cls, fname, prop, throws, st);
            lemma_resolve_expr_known(
                *right,
                cls,
                fname,
                prop,
                throws,
                resolve_expr(*left, cls, fname, prop, throws, st),
            );
        },
        Expr::OptChain(inner) => lemma_resolve_expr_known(*inner, cls, fname, prop, throws, st),
        Expr::Assign(a) => lemma_resolve_expr_known(*a.right, cls, fname, prop, throws, st),
        Expr::Other { exprs } => lemma_resolve_exprs_known(exprs@, cls, fname, prop, throws, st),
    }
}

proof fn lemma_resolve_arrow_body_known(
    b: ArrowBody,
    cls: Option<Seq<char>>,
    fname: Option<Seq<char>>,
    prop: Option<Seq<char>>,
    throws: Seq<ThrowMapV>,
    st: CallState,
)
    requires
        all_calls_known(st.calls, throws),
    ensures
        all_calls_known(resolve_arrow_body(b, cls, fname, prop, throws, st).calls, throws),
    decreases b, 0int,
{
    match b {
        ArrowBody::Block(ss) => lemma_resolve_stmts_known(ss@, cls, fname, prop, throws, st),
        ArrowBody::Expr(e) => lemma_resolve_expr_known(*e, cls, fname, prop, throws, st),
    }
}

proof fn lemma_resolve_call_known(
    c: crate::ast::CallExpr,
    cls: Option<Seq<char>>,
    fname: Option<Seq<char>>,
    prop: Option<Seq<char>>,
    throws: Seq<ThrowMapV>,
    st: CallState,
)
    requires
        all_calls_known(st.calls, throws),
    ensures
        all_calls_known(resolve_call(c, cls, fname, prop, throws, st).calls, throws),
    decreases c, 0int,
{
    match c.callee {
        Callee::Expr(ce) => match *ce {
            Expr::Member(m) => match m.prop {
                Some(p) => {
                    lemma_resolve_expr_known(*m.obj, cls, fname, prop, throws, st);
                    let st1 = resolve_expr(*m.obj, cls, fname, prop, throws, st);
                    let pc = resolve_receiver(st1.instantiations, receiver_name(*m.obj, cls));
                    lemma_member_step_known(c.span, pc, cls, fname, prop, p@, throws, st1);
                    lemma_resolve_call_args_known(
                        c.args@,
                        pc,
                        cls,
                        fname,
                        prop,
                        p@,
                        throws,
                        member_call_step(c.span, pc, cls, fname, prop, p@, throws, st1),
                    );
                },
                None => {
                    lemma_resolve_expr_known(*m.obj, cls, fname, prop, throws, st);
                    lemma_resolve_exprs_known(
                        c.args@,
                        cls,
                        fname,
                        prop,
                        throws,
                        resolve_expr(*m.obj, cls, fname, prop, throws, st),
                    );
                },
            },
            Expr::Ident(name) => {
                lemma_direct_step_known(c.span, name@, cls, fname, throws, st);
                lemma_resolve_call_args_known(
                    c.args@,
                    cls,
                    cls,
                    fname,
                    prop,
                    name@,
                    throws,
                    direct_call_step(c.span, name@, cls, fname, throws, st),
                );
            },
            _ => {
                lemma_resolve_expr_known(*ce, cls, fname, prop, throws, st);
                lemma_resolve_exprs_known(
                    c.args@,
                    cls,
                    fname,
                    prop,
                    throws,
                    resolve_expr(*ce, cls, fname, prop, throws, st),
                );
            },
        },
        Callee::Other => lemma_resolve_exprs_known(c.args@, cls, fname, prop, throws, st),
    }
}

proof fn lemma_resolve_call_args_known(
    args: Seq<Expr>,
    argcls: Option<Seq<char>>,
    cls: Option<Seq<char>>,
    fname: Option<Seq<char>>,
    prop: Option<Seq<char>>,
    argname: Seq<char>,
    throws: Seq<ThrowMapV>,
    st: CallState,
)
    requires
        all_calls_known(st.calls, throws),
    ensures
        all_calls_known(
            resolve_call_args(args, argcls, cls, fname, prop, argname, throws, st).calls,
            throws,
        ),
    decreases args, 0int,
{
    if args.len() > 0 {
        lemma_resolve_call_args_known(args.drop_last(), argcls, cls, fname, prop, argname, throws, st);
        lemma_resolve_call_arg_known(
            args.last(),
            argcls,
            cls,
            fname,
            prop,
            argname,
            throws,
            resolve_call_args(args.drop_last(), argcls, cls, fname, prop, argname, throws, st),
        );
    }
}

proof fn lemma_resolve_call_arg_known(
    a: Expr,
    argcls: Option<Seq<char>>,
    cls: Option<Seq<char>>,
    fname: Option<Seq<char>>,
    prop: Option<Seq<char>>,
    argname: Seq<char>,
    throws: Seq<ThrowMapV>,
    st: CallState,
)
    requires
        all_calls_known(st.calls, throws),
    ensures
        all_calls_known(resolve_call_arg(a, argcls, cls, fname, prop, argname, throws, st).calls, throws),
    decreases a, 1int,
{
    match a {
        Expr::Fn(f) => lemma_resolve_stmts_known(
            f.function.body@,
            argcls,
            Some(argname),
            prop,
            throws,
            st,
        ),
        Expr::Arrow(ar) => lemma_resolve_arrow_body_known(
            ar.body,
            argcls,
            Some(argname),
            prop,
            throws,
            st,
        ),
        _ => lemma_resolve_expr_known(a, cls, fname, prop, throws, st),
    }
}

/// Every call record of an analysis embeds one of the analysis's own throw
/// records.
pub proof fn lemma_calls_reference_known_throws(m: Module, set: SettingsV)
    ensures
        all_calls_known(
            analysis_spec(m, set).calls_to_throws,
            analysis_spec(m, set).functions_with_throws,
        ),
{
    let throws = analysis_spec(m, set).functions_with_throws;
    assert(all_calls_known(crate::empty_call_state().calls, throws));
    lemma_resolve_items_known(m.items@, throws, crate::empty_call_state());
}

/// A qualified ID carried by no throw record — as for a unit that an ignore
/// marker suppressed — is referenced by no call record either.
pub proof fn lemma_unrecorded_id_never_referenced(m: Module, set: SettingsV, q: Seq<char>)
    requires
        forall|j: int|
            0 <= j < analysis_spec(m, set).functions_with_throws.len() ==> (
            #[trigger] analysis_spec(m, set).functions_with_throws[j]).id != q,
    ensures
        forall|i: int|
            0 <= i < analysis_spec(m, set).calls_to_throws.len() ==> (
            #[trigger] analysis_spec(m, set).calls_to_throws[i]).throw_map.id != q,
{
    lemma_calls_reference_known_throws(m, set);
}

/// A method call through `this` inside a class resolves the receiver to the
/// enclosing class itself whenever the instantiation map does not track the
/// class's own name as a variable.
pub proof fn lemma_this_call_resolves_to_enclosing_class(
    insts: Seq<InstantiationsMapV>,
    c: Seq<char>,
)
    requires
        lookup_inst(insts, c) is None,
    ensures
        resolve_receiver(insts, receiver_name(Expr::This, Some(c))) == Some(c),
{
}

/// When a member call matches a throw record and the call site is new, the
/// recorded call carries the resolved receiver class and the matched record.
pub proof fn lemma_member_step_records_match(
    span: Span,
    pc: Option<Seq<char>>,
    cls: Option<Seq<char>>,
    fname: Option<Seq<char>>,
    prop: Option<Seq<char>>,
    method: Seq<char>,
    throws: Seq<ThrowMapV>,
    st: CallState,
)
    requires
        find_throw_by_method(throws, method) is Some,
        !has_call(
            st.calls,
            crate::text::spec_qualified_id(opt_or(cls, pc), caller_label(fname, prop)),
            span,
        ),
    ensures
        ({
            let out = member_call_step(span, pc, cls, fname, prop, method, throws, st).calls;
            out.len() == st.calls.len() + 1 && out.last().class_name == pc && out.last().throw_map
                == find_throw_by_method(throws, method)->0 && out.last().call_span == span
        }),
{
}


/// `u` names one of the imported identifiers.
pub open spec fn usage_from_import(u: IdentifierUsageV, imported: Seq<Seq<char>>) -> bool {
    imported.contains(u.identifier_name)
}

/// Every usage of the list names an imported identifier.
pub open spec fn all_usages_imported(us: Seq<IdentifierUsageV>, imported: Seq<Seq<char>>) -> bool {
    forall|i: int| 0 <= i < us.len() ==> usage_from_import(#[trigger] us[i], imported)
}

proof fn lemma_insert_usage_imported(
    us: Seq<IdentifierUsageV>,
    u: IdentifierUsageV,
    imported: Seq<Seq<char>>,
)
    requires
        all_usages_imported(us, imported),
        usage_from_import(u, imported),
    ensures
        all_usages_imported(insert_usage(us, u), imported),
{
    if !has_usage(us, u.id, u.usage_span) {
        assert forall|i: int| 0 <= i < us.push(u).len() implies usage_from_import(
            #[trigger] us.push(u)[i],
            imported,
        ) by {
            if i < us.len() {
                assert(us.push(u)[i] == us[i]);
            } else {
                assert(us.push(u)[i] == u);
            }
        }
    }
}

proof fn lemma_member_usage_step_imported(
    span: Span,
    obj: Expr,
    method: Seq<char>,
    imported: Seq<Seq<char>>,
    us: Seq<IdentifierUsageV>,
)
    requires
        all_usages_imported(us, imported),
    ensures
        all_usages_imported(member_usage_step(span, obj, method, imported, us), imported),
{
    match obj {
        Expr::Ident(o) => {
            if imported.contains(o@) {
                lemma_insert_usage_imported(
                    us,
                    IdentifierUsageV {
                        usage_span: span,
                        identifier_name: o@,
                        usage_context: method,
                        id: crate::text::spec_qualified_id(Some(o@), method),
                    },
                    imported,
                );
            }
        },
        _ => (),
    }
}

proof fn lemma_direct_usage_step_imported(
    span: Span,
    name: Seq<char>,
    fname: Option<Seq<char>>,
    imported: Seq<Seq<char>>,
    us: Seq<IdentifierUsageV>,
)
    requires
        all_usages_imported(us, imported),
    ensures
        all_usages_imported(direct_usage_step(span, name, fname, imported, us), imported),
{
    if imported.contains(name) {
        lemma_insert_usage_imported(
            us,
            IdentifierUsageV {
                usage_span: span,
                identifier_name: name,
                usage_context: crate::text::spec_or_anonymous(fname),
                id: crate::text::spec_qualified_id(None, name),
            },
            imported,
        );
    }
}

proof fn lemma_usage_items_imported(
    items: Seq<ModuleItem>,
    imported: Seq<Seq<char>>,
    us: Seq<IdentifierUsageV>,
)
    requires
        all_usages_imported(us, imported),
    ensures
        all_usages_imported(usage_items(items, imported, us), imported),
    decreases items, 0int,
{
    if items.len() > 0 {
        lemma_usage_items_imported(items.drop_last(), imported, us);
        lemma_usage_item_imported(items.last(), imported, usage_items(items.drop_last(), imported, us));
    }
}

proof fn lemma_usage_item_imported(
    it: ModuleItem,
    imported: Seq<Seq<char>>,
    us: Seq<IdentifierUsageV>,
)
    requires
        all_usages_imported(us, imported),
    ensures
        all_usages_imported(usage_item(it, imported, us), imported),
    decreases it, 0int,
{
    match it {
        ModuleItem::Import(_) => (),
        ModuleItem::Export(d) => lemma_usage_decl_imported(d, None, imported, us),
        ModuleItem::Stmt(s) => lemma_usage_stmt_imported(s, None, imported, us),
    }
}

proof fn lemma_usage_decl_imported(
    d: Decl,
    fname: Option<Seq<char>>,
    imported: Seq<Seq<char>>,
    us: Seq<IdentifierUsageV>,
)
    requires
        all_usages_imported(us, imported),
    ensures
        all_usages_imported(usage_decl(d, fname, imported, us), imported),
    decreases d, 0int,
{
    match d {
        Decl::Fn(fd) => lemma_usage_stmts_imported(fd.function.body@, fname, imported, us),
        Decl::Class(cd) => lemma_usage_members_imported(cd.members@, fname, imported, us),
        Decl::Var(ds) => lemma_usage_var_decls_imported(ds@, fname, imported, us),
    }
}

proof fn lemma_usage_members_imported(
    ms: Seq<ClassMember>,
    fname: Option<Seq<char>>,
    imported: Seq<Seq<char>>,
    us: Seq<IdentifierUsageV>,
)
    requires
        all_usages_imported(us, imported),
    ensures
        all_usages_imported(usage_members(ms, fname, imported, us), imported),
    decreases ms, 0int,
{
    if ms.len() > 0 {
        lemma_usage_members_imported(ms.drop_last(), fname, imported, us);
        lemma_usage_member_imported(
            ms.last(),
            fname,
            imported,
            usage_members(ms.drop_last(), fname, imported, us),
        );
    }
}

proof fn lemma_usage_member_imported(
    m: ClassMember,
    fname: Option<Seq<char>>,
    imported: Seq<Seq<char>>,
    us: Seq<IdentifierUsageV>,
)
    requires
        all_usages_imported(us, imported),
    ensures
        all_usages_imported(usage_member(m, fname, imported, us), imported),
    decreases m, 0int,
{
    match m {
        ClassMember::Method(cm) => lemma_usage_stmts_imported(cm.function.body@, fname, imported, us),
        ClassMember::Ctor(c) => lemma_usage_stmts_imported(c.body@, fname, imported, us),
        ClassMember::Other => (),
    }
}

proof fn lemma_usage_var_decls_imported(
    ds: Seq<VarDeclarator>,
    fname: Option<Seq<char>>,
    imported: Seq<Seq<char>>,
    us: Seq<IdentifierUsageV>,
)
    requires
        all_usages_imported(us, imported),
    ensures
        all_usages_imported(usage_var_decls(ds, fname, imported, us), imported),
    decreases ds, 0int,
{
    if ds.len() > 0 {
        lemma_usage_var_decls_imported(ds.drop_last(), fname, imported, us);
        lemma_usage_var_decl_imported(
            ds.last(),
            fname,
            imported,
            usage_var_decls(ds.drop_last(), fname, imported, us),
        );
    }
}

proof fn lemma_usage_var_decl_imported(
    v: VarDeclarator,
    fname: Option<Seq<char>>,
    imported: Seq<Seq<char>>,
    us: Seq<IdentifierUsageV>,
)
    requires
        all_usages_imported(us, imported),
    ensures
        all_usages_imported(usage_var_decl(v, fname, imported, us), imported),
    decreases v, 0int,
{
    match v.init {
        Some(e) => lemma_usage_expr_imported(*e, fname, imported, us),
        None => (),
    }
}

proof fn lemma_usage_props_imported(
    ps: Seq<Prop>,
    fname: Option<Seq<char>>,
    imported: Seq<Seq<char>>,
    us: Seq<IdentifierUsageV>,
)
    requires
        all_usages_imported(us, imported),
    ensures
        all_usages_imported(usage_props(ps, fname, imported, us), imported),
    decreases ps, 0int,
{
    if ps.len() > 0 {
        lemma_usage_props_imported(ps.drop_last(), fname, imported, us);
        lemma_usage_prop_imported(
            ps.last(),
            fname,
            imported,
            usage_props(ps.drop_last(), fname, imported, us),
        );
    }
}

proof fn lemma_usage_prop_imported(
    p: Prop,
    fname: Option<Seq<char>>,
    imported: Seq<Seq<char>>,
    us: Seq<IdentifierUsageV>,
)
    requires
        all_usages_imported(us, imported),
    ensures
        all_usages_imported(usage_prop(p, fname, imported, us), imported),
    decreases p, 0int,
{
    match p {
        Prop::Method { name, function } => lemma_usage_stmts_imported(
            function.body@,
            fname,
            imported,
            us,
        ),
        Prop::KeyValue { key, value } => lemma_usage_expr_imported(*value, fname, imported, us),
        Prop::Other => (),
    }
}

proof fn lemma_usage_stmts_imported(
    ss: Seq<Stmt>,
    fname: Option<Seq<char>>,
    imported: Seq<Seq<char>>,
    us: Seq<IdentifierUsageV>,
)
    requires
        all_usages_imported(us, imported),
    ensures
        all_usages_imported(usage_stmts(ss, fname, imported, us), imported),
    decreases ss, 0int,
{
    if ss.len() > 0 {
        lemma_usage_stmts_imported(ss.drop_last(), fname, imported, us);
        lemma_usage_stmt_imported(
            ss.last(),
            fname,
            imported,
            usage_stmts(ss.drop_last(), fname, imported, us),
        );
    }
}

proof fn lemma_usage_opt_stmts_imported(
    ss: Option<Vec<Stmt>>,
    fname: Option<Seq<char>>,
    imported: Seq<Seq<char>>,
    us: Seq<IdentifierUsageV>,
)
    requires
        all_usages_imported(us, imported),
    ensures
        all_usages_imported(usage_opt_stmts(ss, fname, imported, us), imported),
    decreases ss, 0int,
{
    match ss {
        Some(b) => lemma_usage_stmts_imported(b@, fname, imported, us),
        None => (),
    }
}

proof fn lemma_usage_opt_box_stmt_imported(
    s: Option<Box<Stmt>>,
    fname: Option<Seq<char>>,
    imported: Seq<Seq<char>>,
    us: Seq<IdentifierUsageV>,
)
    requires
        all_usages_imported(us, imported),
    ensures
        all_usages_imported(usage_opt_box_stmt(s, fname, imported, us), imported),
    decreases s, 0int,
{
    match s {
        Some(b) => lemma_usage_stmt_imported(*b, fname, imported, us),
        None => (),
    }
}

proof fn lemma_usage_stmt_imported(
    s: Stmt,
    fname: Option<Seq<char>>,
    imported: Seq<Seq<char>>,
    us: Seq<IdentifierUsageV>,
)
    requires
        all_usages_imported(us, imported),
    ensures
        all_usages_imported(usage_stmt(s, fname, imported, us), imported),
    decreases s, 0int,
{
    match s {
        Stmt::Expr(e) => lemma_usage_expr_imported(e, fname, imported, us),
        Stmt::Block(ss) => lemma_usage_stmts_imported(ss@, fname, imported, us),
        Stmt::If { test, cons, alt } => {
            lemma_usage_expr_imported(test, fname, imported, us);
            let us1 = usage_expr(test, fname, imported, us);
            lemma_usage_stmt_imported(*cons, fname, imported, us1);
            lemma_usage_opt_box_stmt_imported(
                alt,
                fname,
                imported,
                usage_stmt(*cons, fname, imported, us1),
            );
        },
        Stmt::Throw { span } => (),
        Stmt::Try(t) => {
            lemma_usage_stmts_imported(t.block@, fname, imported, us);
            let us1 = usage_stmts(t.block@, fname, imported, us);
            lemma_usage_opt_stmts_imported(t.handler, fname, imported, us1);
            lemma_usage_opt_stmts_imported(
                t.finalizer,
                fname,
                imported,
                usage_opt_stmts(t.handler, fname, imported, us1),
            );
        },
        Stmt::Decl(d) => lemma_usage_decl_imported(d, fname, imported, us),
        Stmt::Other { exprs, stmts } => {
            lemma_usage_exprs_imported(exprs@, fname, imported, us);
            lemma_usage_stmts_imported(
                stmts@,
                fname,
                imported,
                usage_exprs(exprs@, fname, imported, us),
            );
        },
    }
}

proof fn lemma_usage_exprs_imported(
    es: Seq<Expr>,
    fname: Option<Seq<char>>,
    imported: Seq<Seq<char>>,
    us: Seq<IdentifierUsageV>,
)
    requires
        all_usages_imported(us, imported),
    ensures
        all_usages_imported(usage_exprs(es, fname, imported, us), imported),
    decreases es, 0int,
{
    if es.len() > 0 {
        lemma_usage_exprs_imported(es.drop_last(), fname, imported, us);
        lemma_usage_expr_imported(
            es.last(),
            fname,
            imported,
            usage_exprs(es.drop_last(), fname, imported, us),
        );
    }
}

proof fn lemma_usage_expr_imported(
    e: Expr,
    fname: Option<Seq<char>>,
    imported: Seq<Seq<char>>,
    us: Seq<IdentifierUsageV>,
)
    requires
        all_usages_imported(us, imported),
    ensures
        all_usages_imported(usage_expr(e, fname, imported, us), imported),
    decreases e, 0int,
{
    match e {
        Expr::Ident(_) => (),
        Expr::This => (),
        Expr::Call(c) => lemma_usage_call_imported(c, fname, imported, us),
        Expr::Member(m) => lemma_usage_expr_imported(*m.obj, fname, imported, us),
        Expr::Fn(f) => lemma_usage_stmts_imported(f.function.body@, fname, imported, us),
        Expr::Arrow(a) => lemma_usage_arrow_body_imported(a.body, fname, imported, us),
        Expr::Object(o) => lemma_usage_props_imported(o.props@, fname, imported, us),
        Expr::New(n) => {
            lemma_usage_expr_imported(*n.callee, fname, imported, us);
            lemma_usage_exprs_imported(
                n.args@,
                fname,
                imported,
                usage_expr(*n.callee, fname, imported, us),
            );
        },
        Expr::Paren(inner) => lemma_usage_expr_imported(*inner, fname, imported, us),
        Expr::Await(inner) => lemma_usage_expr_imported(*inner, fname, imported, us),
        Expr::Bin { left, right } => {
            lemma_usage_expr_imported(*left, fname, imported, us);
            lemma_usage_expr_imported(
                *right,
                fname,
                imported,
                usage_expr(*left, fname, imported, us),
            );
        },
        Expr::OptChain(inner) => lemma_usage_expr_imported(*inner, fname, imported, us),
        Expr::Assign(a) => lemma_usage_expr_imported(*a.right, fname, imported, us),
        Expr::Other { exprs } => lemma_usage_exprs_imported(exprs@, fname, imported, us),
    }
}

proof fn lemma_usage_arrow_body_imported(
    b: ArrowBody,
    fname: Option<Seq<char>>,
    imported: Seq<Seq<char>>,
    us: Seq<IdentifierUsageV>,
)
    requires
        all_usages_imported(us, imported),
    ensures
        all_usages_imported(usage_arrow_body(b, fname, imported, us), imported),
    decreases b, 0int,
{
    match b {
        ArrowBody::Block(ss) => lemma_usage_stmts_imported(ss@, fname, imported, us),
        ArrowBody::Expr(e) => lemma_usage_expr_imported(*e, fname, imported, us),
    }
}

proof fn lemma_usage_call_imported(
    c: crate::ast::CallExpr,
    fname: Option<Seq<char>>,
    imported: Seq<Seq<char>>,
    us: Seq<IdentifierUsageV>,
)
    requires
        all_usages_imported(us, imported),
    ensures
        all_usages_imported(usage_call(c, fname, imported, us), imported),
    decreases c, 0int,
{
    match c.callee {
        Callee::Expr(ce) => match *ce {
            Expr::Member(m) => match m.prop {
                Some(p) => {
                    lemma_usage_expr_imported(*m.obj, fname, imported, us);
                    let us1 = usage_expr(*m.obj, fname, imported, us);
                    lemma_member_usage_step_imported(c.span, *m.obj, p@, imported, us1);
                    lemma_usage_call_args_imported(
                        c.args@,
                        fname,
                        p@,
                        imported,
                        member_usage_step(c.span, *m.obj, p@, imported, us1),
                    );
                },
                None => {
                    lemma_usage_expr_imported(*m.obj, fname, imported, us);
                    lemma_usage_exprs_imported(
                        c.args@,
                        fname,
                        imported,
                        usage_expr(*m.obj, fname, imported, us),
                    );
                },
            },
            Expr::Ident(name) => {
                lemma_direct_usage_step_imported(c.span, name@, fname, imported, us);
                lemma_usage_call_args_imported(
                    c.args@,
                    fname,
                    name@,
                    imported,
                    direct_usage_step(c.span, name@, fname, imported, us),
                );
            },
            _ => {
                lemma_usage_expr_imported(*ce, fname, imported, us);
                lemma_usage_exprs_imported(
                    c.args@,
                    fname,
                    imported,
                    usage_expr(*ce, fname, imported, us),
                );
            },
        },
        Callee::Other => lemma_usage_exprs_imported(c.args@, fname, imported, us),
    }
}

proof fn lemma_usage_call_args_imported(
    args: Seq<Expr>,
    fname: Option<Seq<char>>,
    argname: Seq<char>,
    imported: Seq<Seq<char>>,
    us: Seq<IdentifierUsageV>,
)
    requires
        all_usages_imported(us, imported),
    ensures
        all_usages_imported(usage_call_args(args, fname, argname, imported, us), imported),
    decreases args, 0int,
{
    if args.len() > 0 {
        lemma_usage_call_args_imported(args.drop_last(), fname, argname, imported, us);
        lemma_usage_call_arg_imported(
            args.last(),
            fname,
            argname,
            imported,
            usage_call_args(args.drop_last(), fname, argname, imported, us),
        );
    }
}

proof fn lemma_usage_call_arg_imported(
    a: Expr,
    fname: Option<Seq<char>>,
    argname: Seq<char>,
    imported: Seq<Seq<char>>,
    us: Seq<IdentifierUsageV>,
)
    requires
        all_usages_imported(us, imported),
    ensures
        all_usages_imported(usage_call_arg(a, fname, argname, imported, us), imported),
    decreases a, 1int,
{
    match a {
        Expr::Fn(f) => lemma_usage_stmts_imported(f.function.body@, Some(argname), imported, us),
        Expr::Arrow(ar) => lemma_usage_arrow_body_imported(ar.body, Some(argname), imported, us),
        _ => lemma_usage_expr_imported(a, fname, imported, us),
    }
}

/// Every import-usage record of an analysis names one of the analysis's own
/// imported identifiers.
pub proof fn lemma_usages_reference_imported_identifiers(m: Module, set: SettingsV)
    ensures
        all_usages_imported(
            analysis_spec(m, set).imported_identifier_usages,
            analysis_spec(m, set).imported_identifiers,
        ),
{
    let imported = analysis_spec(m, set).imported_identifiers;
    assert(all_usages_imported(Seq::empty(), imported));
    lemma_usage_items_imported(m.items@, imported, Seq::empty());
}

} // verus!