//! Pass 1: throw detection and import harvesting.
//!
//! [`ThrowAnalyzer`] walks the module once. For every function-like unit it
//! runs the throw-span collector of [`crate::throw_finder`] over the unit's
//! body; a unit with at least one counted throw and no ignore marker in its
//! leading comments is recorded as a [`ThrowMap`]. Import declarations feed
//! the import registry. The spec functions `scan_*` define the pass: each
//! takes the traversal context (enclosing class, innermost enclosing
//! function/method name) and the state built so far, and returns the state
//! after the subtree.

use crate::ast::{
    ArrowBody, Callee, ClassMember, Decl, Expr, ImportDecl, ImportSpecifier, Module, ModuleItem,
    Prop, Stmt, VarDeclarator,
};
use crate::span::Span;
use crate::text::{
    clone_opt_string, contains_sub, name_or_anonymous, qualified_id, spec_insert_unique,
    spec_or_anonymous, spec_qualified_id, str_contains, insert_unique_string,
};
use crate::throw_finder::{
    collect_stmts, throws_in_arrow_body, throws_in_stmts, ThrowMap, ThrowMapV,
};
use crate::UserSettings;
use crate::SettingsV;
use vstd::prelude::*;

verus! {

/// What pass 1 accumulates: the throw records and the import registry.
pub ghost struct ThrowState {
    pub throws: Seq<ThrowMapV>,
    pub import_sources: Seq<Seq<char>>,
    pub imported_identifiers: Seq<Seq<char>>,
}

/// Some already-recorded unit has this enclosing span; records are identified
/// by their enclosing span.
pub open spec fn has_throw_span(ts: Seq<ThrowMapV>, sp: Span) -> bool {
    exists|i: int| 0 <= i < ts.len() && ts[i].throw_statement == sp
}

/// Appends a throw record unless one with the same enclosing span exists.
pub open spec fn insert_throw(ts: Seq<ThrowMapV>, t: ThrowMapV) -> Seq<ThrowMapV> {
    if has_throw_span(ts, t.throw_statement) {
        ts
    } else {
        ts.push(t)
    }
}

/// Some leading comment contains some configured ignore marker as a literal
/// substring.
pub open spec fn spec_is_ignored(comments: Seq<Seq<char>>, markers: Seq<Seq<char>>) -> bool {
    exists|i: int, j: int|
        0 <= i < comments.len() && 0 <= j < markers.len() && contains_sub(comments[i], markers[j])
}

/// The record pass 1 builds for one function-like unit: its counted throw
/// spans, its enclosing span, its resolved name, the class stored on the
/// record, and the qualified ID built from the class context.
pub open spec fn unit_record(
    spans: Seq<Span>,
    unit_span: Span,
    name: Seq<char>,
    field_class: Option<Seq<char>>,
    ctx_class: Option<Seq<char>>,
) -> ThrowMapV {
    ThrowMapV {
        throw_spans: spans,
        throw_statement: unit_span,
        function_or_method_name: name,
        class_name: field_class,
        id: spec_qualified_id(ctx_class, name),
    }
}

/// Registers one function-like unit: nothing happens when the unit has no
/// counted throw or an ignore marker suppresses it.
pub open spec fn register_unit(
    st: ThrowState,
    spans: Seq<Span>,
    unit_span: Span,
    name: Seq<char>,
    field_class: Option<Seq<char>>,
    ctx_class: Option<Seq<char>>,
    comments: Seq<Seq<char>>,
    set: SettingsV,
) -> ThrowState {
    if spans.len() > 0 && !spec_is_ignored(comments, set.ignore_statements) {
        ThrowState {
            throws: insert_throw(
                st.throws,
                unit_record(spans, unit_span, name, field_class, ctx_class),
            ),
            ..st
        }
    } else {
        st
    }
}

/// The locally bound names of an import declaration's specifiers, in order.
pub open spec fn specifier_locals(sps: Seq<ImportSpecifier>) -> Seq<Seq<char>>
    decreases sps,
{
    if sps.len() == 0 {
        Seq::empty()
    } else {
        specifier_locals(sps.drop_last()) + seq![specifier_local(sps.last())]
    }
}

pub open spec fn specifier_local(sp: ImportSpecifier) -> Seq<char> {
    match sp {
        ImportSpecifier::Default { local } => local@,
        ImportSpecifier::Named { local } => local@,
        ImportSpecifier::Namespace { local } => local@,
    }
}

/// Records an import declaration: its module specifier joins the
/// deduplicated source set, and each specifier's local binding joins the
/// imported-identifier list.
pub open spec fn register_import_spec(d: ImportDecl, st: ThrowState) -> ThrowState {
    ThrowState {
        import_sources: spec_insert_unique(st.import_sources, d.src@),
        imported_identifiers: st.imported_identifiers + specifier_locals(d.specifiers@),
        ..st
    }
}

pub open spec fn scan_module(m: Module, set: SettingsV, st: ThrowState) -> ThrowState
    decreases m, 0int,
{
    scan_items(m.items@, set, st)
}

pub open spec fn scan_items(items: Seq<ModuleItem>, set: SettingsV, st: ThrowState) -> ThrowState
    decreases items, 0int,
{
    if items.len() == 0 {
        st
    } else {
        scan_item(items.last(), set, scan_items(items.drop_last(), set, st))
    }
}

pub open spec fn scan_item(it: ModuleItem, set: SettingsV, st: ThrowState) -> ThrowState
    decreases it, 0int,
{
    match it {
        ModuleItem::Import(d) => register_import_spec(d, st),
        ModuleItem::Export(d) => scan_decl(d, None, None, set, st),
        ModuleItem::Stmt(s) => scan_stmt(s, None, None, set, st),
    }
}

pub open spec fn scan_decl(
    d: Decl,
    cls: Option<Seq<char>>,
    fname: Option<Seq<char>>,
    set: SettingsV,
    st: ThrowState,
) -> ThrowState
    decreases d, 0int,
{
    match d {
        Decl::Fn(fd) => scan_stmts(
            fd.function.body@,
            cls,
            Some(fd.name@),
            set,
            register_unit(
                st,
                throws_in_stmts(fd.function.body@, set.include_try_statement_throws),
                fd.function.span,
                fd.name@,
                None,
                cls,
                fd.function.leading_comments.deep_view(),
                set,
            ),
        ),
        Decl::Class(cd) => scan_members(cd.members@, Some(cd.name@), set, st),
        Decl::Var(ds) => scan_var_decls(ds@, cls, fname, set, st),
    }
}

pub open spec fn scan_members(
    ms: Seq<ClassMember>,
    cls: Option<Seq<char>>,
    set: SettingsV,
    st: ThrowState,
) -> ThrowState
    decreases ms, 0int,
{
    if ms.len() == 0 {
        st
    } else {
        scan_member(ms.last(), cls, set, scan_members(ms.drop_last(), cls, set, st))
    }
}

pub open spec fn scan_member(
    m: ClassMember,
    cls: Option<Seq<char>>,
    set: SettingsV,
    st: ThrowState,
) -> ThrowState
    decreases m, 0int,
{
    match m {
        ClassMember::Method(cm) => match cm.name {
            Some(n) => scan_stmts(
                cm.function.body@,
                cls,
                Some(n@),
                set,
                register_unit(
                    st,
                    throws_in_stmts(cm.function.body@, set.include_try_statement_throws),
                    cm.span,
                    n@,
                    cls,
                    cls,
                    cm.function.leading_comments.deep_view(),
                    set,
                ),
            ),
            None => scan_stmts(cm.function.body@, cls, None, set, st),
        },
        ClassMember::Ctor(c) => scan_stmts(
            c.body@,
            cls,
            Some("<constructor>"@),
            set,
            register_unit(
                st,
                throws_in_stmts(c.body@, set.include_try_statement_throws),
                c.span,
                "<constructor>"@,
                cls,
                cls,
                c.leading_comments.deep_view(),
                set,
            ),
        ),
        ClassMember::Other => st,
    }
}

pub open spec fn scan_var_decls(
    ds: Seq<VarDeclarator>,
    cls: Option<Seq<char>>,
    fname: Option<Seq<char>>,
    set: SettingsV,
    st: ThrowState,
) -> ThrowState
    decreases ds, 0int,
{
    if ds.len() == 0 {
        st
    } else {
        scan_var_decl(ds.last(), cls, fname, set, scan_var_decls(ds.drop_last(), cls, fname, set, st))
    }
}

/// A declarator binding a function or arrow registers it under the variable's
/// name with the declarator's span as the unit span; one binding an object
/// literal scans the literal with the variable's name as the class context.
pub open spec fn scan_var_decl(
    v: VarDeclarator,
    cls: Option<Seq<char>>,
    fname: Option<Seq<char>>,
    set: SettingsV,
    st: ThrowState,
) -> ThrowState
    decreases v, 0int,
{
    match v.init {
        None => st,
        Some(e) => match v.name {
            None => scan_expr(*e, cls, fname, set, st),
            Some(n) => match *e {
                Expr::Fn(f) => scan_stmts(
                    f.function.body@,
                    cls,
                    Some(n@),
                    set,
                    register_unit(
                        st,
                        throws_in_stmts(f.function.body@, set.include_try_statement_throws),
                        v.span,
                        n@,
                        cls,
                        cls,
                        f.function.leading_comments.deep_view(),
                        set,
                    ),
                ),
                Expr::Arrow(a) => scan_arrow_body(
                    a.body,
                    cls,
                    Some(n@),
                    set,
                    register_unit(
                        st,
                        throws_in_arrow_body(a.body, set.include_try_statement_throws),
                        v.span,
                        n@,
                        cls,
                        cls,
                        a.leading_comments.deep_view(),
                        set,
                    ),
                ),
                Expr::Object(o) => scan_props(o.props@, Some(n@), fname, set, st),
                _ => scan_expr(*e, cls, fname, set, st),
            },
        },
    }
}

pub open spec fn scan_props(
    ps: Seq<Prop>,
    cls: Option<Seq<char>>,
    fname: Option<Seq<char>>,
    set: SettingsV,
    st: ThrowState,
) -> ThrowState
    decreases ps, 0int,
{
    if ps.len() == 0 {
        st
    } else {
        scan_prop(ps.last(), cls, fname, set, scan_props(ps.drop_last(), cls, fname, set, st))
    }
}

/// An object-literal method or function-valued property is a function-like
/// unit named by its key, in the class context of the enclosing literal.
pub open spec fn scan_prop(
    p: Prop,
    cls: Option<Seq<char>>,
    fname: Option<Seq<char>>,
    set: SettingsV,
    st: ThrowState,
) -> ThrowState
    decreases p, 0int,
{
    match p {
        Prop::Method { name, function } => match name {
            Some(n) => scan_stmts(
                function.body@,
                cls,
                Some(n@),
                set,
                register_unit(
                    st,
                    throws_in_stmts(function.body@, set.include_try_statement_throws),
                    function.span,
                    n@,
                    cls,
                    cls,
                    function.leading_comments.deep_view(),
                    set,
                ),
            ),
            None => scan_stmts(function.body@, cls, None, set, st),
        },
        Prop::KeyValue { key, value } => match *value {
            Expr::Fn(f) => scan_stmts(
                f.function.body@,
                cls,
                Some(key@),
                set,
                register_unit(
                    st,
                    throws_in_stmts(f.function.body@, set.include_try_statement_throws),
                    f.function.span,
                    key@,
                    cls,
                    cls,
                    f.function.leading_comments.deep_view(),
                    set,
                ),
            ),
            Expr::Arrow(a) => scan_arrow_body(
                a.body,
                cls,
                Some(key@),
                set,
                register_unit(
                    st,
                    throws_in_arrow_body(a.body, set.include_try_statement_throws),
                    a.span,
                    key@,
                    cls,
                    cls,
                    a.leading_comments.deep_view(),
                    set,
                ),
            ),
            _ => scan_expr(*value, cls, fname, set, st),
        },
        Prop::Other => st,
    }
}

pub open spec fn scan_stmts(
    ss: Seq<Stmt>,
    cls: Option<Seq<char>>,
    fname: Option<Seq<char>>,
    set: SettingsV,
    st: ThrowState,
) -> ThrowState
    decreases ss, 0int,
{
    if ss.len() == 0 {
        st
    } else {
        scan_stmt(ss.last(), cls, fname, set, scan_stmts(ss.drop_last(), cls, fname, set, st))
    }
}

pub open spec fn scan_opt_stmts(
    ss: Option<Vec<Stmt>>,
    cls: Option<Seq<char>>,
    fname: Option<Seq<char>>,
    set: SettingsV,
    st: ThrowState,
) -> ThrowState
    decreases ss, 0int,
{
    match ss {
        Some(b) => scan_stmts(b@, cls, fname, set, st),
        None => st,
    }
}

pub open spec fn scan_stmt(
    s: Stmt,
    cls: Option<Seq<char>>,
    fname: Option<Seq<char>>,
    set: SettingsV,
    st: ThrowState,
) -> ThrowState
    decreases s, 0int,
{
    match s {
        Stmt::Expr(e) => scan_expr(e, cls, fname, set, st),
        Stmt::Block(ss) => scan_stmts(ss@, cls, fname, set, st),
        Stmt::If { test, cons, alt } => scan_opt_box_stmt(
            alt,
            cls,
            fname,
            set,
            scan_stmt(*cons, cls, fname, set, scan_expr(test, cls, fname, set, st)),
        ),
        Stmt::Throw { span } => st,
        Stmt::Try(t) => scan_opt_stmts(
            t.finalizer,
            cls,
            fname,
            set,
            scan_opt_stmts(t.handler, cls, fname, set, scan_stmts(t.block@, cls, fname, set, st)),
        ),
        Stmt::Decl(d) => scan_decl(d, cls, fname, set, st),
        Stmt::Other { exprs, stmts } => scan_stmts(
            stmts@,
            cls,
            fname,
            set,
            scan_exprs(exprs@, cls, fname, set, st),
        ),
    }
}

pub open spec fn scan_opt_box_stmt(
    s: Option<Box<Stmt>>,
    cls: Option<Seq<char>>,
    fname: Option<Seq<char>>,
    set: SettingsV,
    st: ThrowState,
) -> ThrowState
    decreases s, 0int,
{
    match s {
        Some(b) => scan_stmt(*b, cls, fname, set, st),
        None => st,
    }
}

pub open spec fn scan_exprs(
    es: Seq<Expr>,
    cls: Option<Seq<char>>,
    fname: Option<Seq<char>>,
    set: SettingsV,
    st: ThrowState,
) -> ThrowState
    decreases es, 0int,
{
    if es.len() == 0 {
        st
    } else {
        scan_expr(es.last(), cls, fname, set, scan_exprs(es.drop_last(), cls, fname, set, st))
    }
}

/// A bare function or arrow expression is registered under the innermost
/// enclosing name; an assignment of a function to a plain identifier renames
/// the context to that identifier while the right side is scanned.
pub open spec fn scan_expr(
    e: Expr,
    cls: Option<Seq<char>>,
    fname: Option<Seq<char>>,
    set: SettingsV,
    st: ThrowState,
) -> ThrowState
    decreases e, 0int,
{
    match e {
        Expr::Ident(_) => st,
        Expr::This => st,
        Expr::Call(c) => scan_call(c, cls, fname, set, st),
        Expr::Member(m) => scan_expr(*m.obj, cls, fname, set, st),
        Expr::Fn(f) => scan_stmts(
            f.function.body@,
            cls,
            fname,
            set,
            register_unit(
                st,
                throws_in_stmts(f.function.body@, set.include_try_statement_throws),
                f.function.span,
                spec_or_anonymous(fname),
                None,
                cls,
                f.function.leading_comments.deep_view(),
                set,
            ),
        ),
        Expr::Arrow(a) => scan_arrow_body(
            a.body,
            cls,
            fname,
            set,
            register_unit(
                st,
                throws_in_arrow_body(a.body, set.include_try_statement_throws),
                a.span,
                spec_or_anonymous(fname),
                None,
                cls,
                a.leading_comments.deep_view(),
                set,
            ),
        ),
        Expr::Object(o) => scan_props(o.props@, cls, fname, set, st),
        Expr::New(n) => scan_exprs(n.args@, cls, fname, set, scan_expr(*n.callee, cls, fname, set, st)),
        Expr::Paren(inner) => scan_expr(*inner, cls, fname, set, st),
        Expr::Await(inner) => scan_expr(*inner, cls, fname, set, st),
        Expr::Bin { left, right } => scan_expr(
            *right,
            cls,
            fname,
            set,
            scan_expr(*left, cls, fname, set, st),
        ),
        Expr::OptChain(inner) => scan_expr(*inner, cls, fname, set, st),
        Expr::Assign(a) => match a.target {
            Some(x) => {
                if (*a.right) is Fn || (*a.right) is Arrow {
                    scan_expr(*a.right, cls, Some(x@), set, st)
                } else {
                    scan_expr(*a.right, cls, fname, set, st)
                }
            },
            None => scan_expr(*a.right, cls, fname, set, st),
        },
        Expr::Other { exprs } => scan_exprs(exprs@, cls, fname, set, st),
    }
}

pub open spec fn scan_arrow_body(
    b: ArrowBody,
    cls: Option<Seq<char>>,
    fname: Option<Seq<char>>,
    set: SettingsV,
    st: ThrowState,
) -> ThrowState
    decreases b, 0int,
{
    match b {
        ArrowBody::Block(ss) => scan_stmts(ss@, cls, fname, set, st),
        ArrowBody::Expr(e) => scan_expr(*e, cls, fname, set, st),
    }
}

/// A call expression: function and arrow arguments are treated as
/// function-like units named after the called function or method; an arrow
/// called directly is registered under the enclosing name.
pub open spec fn scan_call(
    c: crate::ast::CallExpr,
    cls: Option<Seq<char>>,
    fname: Option<Seq<char>>,
    set: SettingsV,
    st: ThrowState,
) -> ThrowState
    decreases c, 0int,
{
    match c.callee {
        Callee::Expr(ce) => match *ce {
            Expr::Member(m) => scan_call_args(
                c.args@,
                cls,
                fname,
                spec_or_anonymous(match m.prop {
                    Some(p) => Some(p@),
                    None => None,
                }),
                set,
                scan_expr(*m.obj, cls, fname, set, st),
            ),
            Expr::Ident(name) => scan_call_args(c.args@, cls, fname, name@, set, st),
            Expr::Arrow(a) => scan_exprs(
                c.args@,
                cls,
                fname,
                set,
                scan_arrow_body(
                    a.body,
                    cls,
                    fname,
                    set,
                    register_unit(
                        st,
                        throws_in_arrow_body(a.body, set.include_try_statement_throws),
                        a.span,
                        spec_or_anonymous(fname),
                        None,
                        cls,
                        a.leading_comments.deep_view(),
                        set,
                    ),
                ),
            ),
            _ => scan_exprs(c.args@, cls, fname, set, scan_expr(*ce, cls, fname, set, st)),
        },
        Callee::Other => scan_exprs(c.args@, cls, fname, set, st),
    }
}

pub open spec fn scan_call_args(
    args: Seq<Expr>,
    cls: Option<Seq<char>>,
    fname: Option<Seq<char>>,
    argname: Seq<char>,
    set: SettingsV,
    st: ThrowState,
) -> ThrowState
    decreases args, 0int,
{
    if args.len() == 0 {
        st
    } else {
        scan_call_arg(
            args.last(),
            cls,
            fname,
            argname,
            set,
            scan_call_args(args.drop_last(), cls, fname, argname, set, st),
        )
    }
}

pub open spec fn scan_call_arg(
    a: Expr,
    cls: Option<Seq<char>>,
    fname: Option<Seq<char>>,
    argname: Seq<char>,
    set: SettingsV,
    st: ThrowState,
) -> ThrowState
    decreases a, 1int,
{
    match a {
        Expr::Fn(f) => scan_stmts(
            f.function.body@,
            cls,
            Some(argname),
            set,
            register_unit(
                st,
                throws_in_stmts(f.function.body@, set.include_try_statement_throws),
                f.function.span,
                argname,
                None,
                cls,
                f.function.leading_comments.deep_view(),
                set,
            ),
        ),
        Expr::Arrow(ar) => scan_arrow_body(
            ar.body,
            cls,
            Some(argname),
            set,
            register_unit(
                st,
                throws_in_arrow_body(ar.body, set.include_try_statement_throws),
                ar.span,
                argname,
                None,
                cls,
                ar.leading_comments.deep_view(),
                set,
            ),
        ),
        _ => scan_expr(a, cls, fname, set, st),
    }
}

/// Pass 1 state: the collected throw records, the import registry, and the
/// two settings the pass reads.
pub struct ThrowAnalyzer {
    pub functions_with_throws: Vec<ThrowMap>,
    pub import_sources: Vec<String>,
    pub imported_identifiers: Vec<String>,
    pub include_try_statement: bool,
    pub ignore_statements: Vec<String>,
}

/// The accumulated outputs of an analyzer, as a [`ThrowState`].
pub open spec fn state_of(an: ThrowAnalyzer) -> ThrowState {
    ThrowState {
        throws: an.functions_with_throws.deep_view(),
        import_sources: an.import_sources.deep_view(),
        imported_identifiers: an.imported_identifiers.deep_view(),
    }
}

/// The settings of an analyzer, as a [`SettingsV`].
pub open spec fn settings_of(an: ThrowAnalyzer) -> SettingsV {
    SettingsV {
        include_try_statement_throws: an.include_try_statement,
        ignore_statements: an.ignore_statements.deep_view(),
    }
}

/// Whether any of `comments` contains any of `markers` as a substring.
pub fn is_ignored(comments: &Vec<String>, markers: &Vec<String>) -> (r: bool)
    ensures
        r == spec_is_ignored(comments.deep_view(), markers.deep_view()),
{
    let mut i: usize = 0;
    while i < comments.len()
        invariant
            i <= comments.len(),
            forall|i2: int, j: int|
                0 <= i2 < i && 0 <= j < markers.deep_view().len() ==> !contains_sub(
                    comments.deep_view()[i2],
                    markers.deep_view()[j],
                ),
        decreases comments.len() - i,
    {
        let mut j: usize = 0;
        while j < markers.len()
            invariant
                i < comments.len(),
                j <= markers.len(),
                forall|j2: int|
                    0 <= j2 < j ==> !contains_sub(
                        comments.deep_view()[i as int],
                        markers.deep_view()[j2],
                    ),
            decreases markers.len() - j,
        {
            if str_contains(comments[i].as_str(), markers[j].as_str()) {
                proof {
                    assert(comments.deep_view()[i as int] == comments@[i as int]@);
                    assert(markers.deep_view()[j as int] == markers@[j as int]@);
                }
                return true;
            }
            proof {
                assert(comments.deep_view()[i as int] == comments@[i as int]@);
                assert(markers.deep_view()[j as int] == markers@[j as int]@);
            }
            j = j + 1;
        }
        i = i + 1;
    }
    false
}

/// Appends `t` unless a record with the same enclosing span is present.
fn insert_throw_rec(v: &mut Vec<ThrowMap>, t: ThrowMap)
    ensures
        final(v).deep_view() == insert_throw(old(v).deep_view(), t@),
{
    let mut i: usize = 0;
    while i < v.len()
        invariant
            i <= v.len(),
            *v == *old(v),
            forall|k: int|
                0 <= k < i ==> v.deep_view()[k].throw_statement != t@.throw_statement,
        decreases v.len() - i,
    {
        if v[i].throw_statement == t.throw_statement {
            proof {
                assert(v.deep_view()[i as int].throw_statement == t@.throw_statement);
                assert(has_throw_span(v.deep_view(), t@.throw_statement));
            }
            return ;
        }
        proof {
            assert(v.deep_view()[i as int] == v@[i as int]@);
        }
        i = i + 1;
    }
    proof {
        assert(!has_throw_span(v.deep_view(), t@.throw_statement));
    }
    let ghost before = v.deep_view();
    v.push(t);
    proof {
        assert(v.deep_view() =~= before.push(t@));
    }
}

/// The locally bound name of one import specifier.
fn specifier_local_name(sp: &ImportSpecifier) -> (r: String)
    ensures
        r@ == specifier_local(*sp),
{
    match sp {
        ImportSpecifier::Default { local } => local.clone(),
        ImportSpecifier::Named { local } => local.clone(),
        ImportSpecifier::Namespace { local } => local.clone(),
    }
}

impl ThrowAnalyzer {
    /// A fresh pass-1 state for one analysis call.
    pub fn new(settings: &UserSettings) -> (r: ThrowAnalyzer)
        ensures
            state_of(r) == (ThrowState {
                throws: Seq::<ThrowMapV>::empty(),
                import_sources: Seq::<Seq<char>>::empty(),
                imported_identifiers: Seq::<Seq<char>>::empty(),
            }),
            settings_of(r) == settings@,
    {
        let r = ThrowAnalyzer {
            functions_with_throws: Vec::new(),
            import_sources: Vec::new(),
            imported_identifiers: Vec::new(),
            include_try_statement: settings.include_try_statement_throws,
            ignore_statements: settings.ignore_statements.clone(),
        };
        proof {
            assert(r.functions_with_throws.deep_view() =~= Seq::<ThrowMapV>::empty());
            assert(r.import_sources.deep_view() =~= Seq::<Seq<char>>::empty());
            assert(r.imported_identifiers.deep_view() =~= Seq::<Seq<char>>::empty());
            assert(r.ignore_statements.deep_view() =~= settings.ignore_statements.deep_view());
        }
        r
    }

    /// Records one function-like unit with the given counted throw spans.
    fn register(
        &mut self,
        spans: Vec<Span>,
        unit_span: Span,
        name: String,
        field_class: &Option<String>,
        ctx_class: &Option<String>,
        comments: &Vec<String>,
    )
        ensures
            state_of(*final(self)) == register_unit(
                state_of(*old(self)),
                spans@,
                unit_span,
                name@,
                field_class.deep_view(),
                ctx_class.deep_view(),
                comments.deep_view(),
                settings_of(*old(self)),
            ),
            final(self).include_try_statement == old(self).include_try_statement,
            final(self).ignore_statements == old(self).ignore_statements,
    {
        if spans.len() > 0 && !is_ignored(comments, &self.ignore_statements) {
            let id = qualified_id(ctx_class, name.as_str());
            let t = ThrowMap {
                throw_spans: spans,
                throw_statement: unit_span,
                function_or_method_name: name,
                class_name: clone_opt_string(field_class),
                id,
            };
            insert_throw_rec(&mut self.functions_with_throws, t);
        }
    }

    /// Collects the counted throw spans of a block body.
    fn body_throws(&self, body: &Vec<Stmt>) -> (r: Vec<Span>)
        ensures
            r@ == throws_in_stmts(body@, self.include_try_statement),
    {
        let mut spans: Vec<Span> = Vec::new();
        collect_stmts(body, self.include_try_statement, &mut spans);
        proof {
            assert(spans@ =~= throws_in_stmts(body@, self.include_try_statement));
        }
        spans
    }

    /// Collects the counted throw spans of an arrow body.
    fn arrow_throws(&self, body: &ArrowBody) -> (r: Vec<Span>)
        ensures
            r@ == throws_in_arrow_body(*body, self.include_try_statement),
    {
        let mut spans: Vec<Span> = Vec::new();
        match body {
            ArrowBody::Block(ss) => collect_stmts(ss, self.include_try_statement, &mut spans),
            ArrowBody::Expr(e) => crate::throw_finder::collect_expr(
                &**e,
                self.include_try_statement,
                &mut spans,
            ),
        }
        proof {
            assert(spans@ =~= throws_in_arrow_body(*body, self.include_try_statement));
        }
        spans
    }

    /// Records an import declaration into the import registry.
    pub fn register_import(&mut self, d: &ImportDecl)
        ensures
            state_of(*final(self)) == register_import_spec(*d, state_of(*old(self))),
            final(self).include_try_statement == old(self).include_try_statement,
            final(self).ignore_statements == old(self).ignore_statements,
    {
        insert_unique_string(&mut self.import_sources, d.src.clone());
        let ghost pre = self.imported_identifiers.deep_view();
        let mut i: usize = 0;
        while i < d.specifiers.len()
            invariant
                i <= d.specifiers.len(),
                self.imported_identifiers.deep_view() == pre + specifier_locals(
                    d.specifiers@.subrange(0, i as int),
                ),
                self.functions_with_throws == old(self).functions_with_throws,
                self.import_sources.deep_view() == spec_insert_unique(
                    old(self).import_sources.deep_view(),
                    d.src@,
                ),
                self.include_try_statement == old(self).include_try_statement,
                self.ignore_statements == old(self).ignore_statements,
            decreases d.specifiers.len() - i,
        {
            proof {
                assert(d.specifiers@.subrange(0, i + 1).drop_last() =~= d.specifiers@.subrange(
                    0,
                    i as int,
                ));
                assert(d.specifiers@.subrange(0, i + 1).last() == d.specifiers@[i as int]);
            }
            let local = specifier_local_name(&d.specifiers[i]);
            let ghost before = self.imported_identifiers.deep_view();
            self.imported_identifiers.push(local);
            proof {
                assert(self.imported_identifiers.deep_view() =~= before.push(
                    specifier_local(d.specifiers@[i as int]),
                ));
                assert(before.push(specifier_local(d.specifiers@[i as int])) =~= pre
                    + specifier_locals(d.specifiers@.subrange(0, i + 1)));
            }
            i = i + 1;
        }
        proof {
            assert(d.specifiers@.subrange(0, d.specifiers@.len() as int) =~= d.specifiers@);
        }
    }

    /// Runs pass 1 over a whole module.
    pub fn visit_module(&mut self, m: &Module)
        ensures
            state_of(*final(self)) == scan_module(
                *m,
                settings_of(*old(self)),
                state_of(*old(self)),
            ),
            final(self).include_try_statement == old(self).include_try_statement,
            final(self).ignore_statements == old(self).ignore_statements,
    {
        let ghost set0 = settings_of(*self);
        let ghost st0 = state_of(*self);
        let mut i: usize = 0;
        while i < m.items.len()
            invariant
                i <= m.items.len(),
                state_of(*self) == scan_items(m.items@.subrange(0, i as int), set0, st0),
                settings_of(*self) == set0,
                self.include_try_statement == old(self).include_try_statement,
                self.ignore_statements == old(self).ignore_statements,
            decreases m.items.len() - i,
        {
            proof {
                assert(m.items@.subrange(0, i + 1).drop_last() =~= m.items@.subrange(0, i as int));
                assert(m.items@.subrange(0, i + 1).last() == m.items@[i as int]);
            }
            self.visit_item(&m.items[i]);
            i = i + 1;
        }
        proof {
            assert(m.items@.subrange(0, m.items@.len() as int) =~= m.items@);
        }
    }

    pub fn visit_item(&mut self, it: &ModuleItem)
        ensures
            state_of(*final(self)) == scan_item(
                *it,
                settings_of(*old(self)),
                state_of(*old(self)),
            ),
            final(self).include_try_statement == old(self).include_try_statement,
            final(self).ignore_statements == old(self).ignore_statements,
        decreases *it, 0int,
    {
        let none: Option<String> = None;
        match it {
            ModuleItem::Import(d) => self.register_import(d),
            ModuleItem::Export(d) => self.visit_decl(d, &none, &none),
            ModuleItem::Stmt(s) => self.visit_stmt(s, &none, &none),
        }
    }

    pub fn visit_decl(&mut self, d: &Decl, cls: &Option<String>, fname: &Option<String>)
        ensures
            state_of(*final(self)) == scan_decl(
                *d,
                cls.deep_view(),
                fname.deep_view(),
                settings_of(*old(self)),
                state_of(*old(self)),
            ),
            final(self).include_try_statement == old(self).include_try_statement,
            final(self).ignore_statements == old(self).ignore_statements,
        decreases *d, 0int,
    {
        match d {
            Decl::Fn(fd) => {
                let spans = self.body_throws(&fd.function.body);
                self.register(
                    spans,
                    fd.function.span,
                    fd.name.clone(),
                    &None,
                    cls,
                    &fd.function.leading_comments,
                );
                let new_fname = Some(fd.name.clone());
                self.visit_stmts(&fd.function.body, cls, &new_fname);
            },
            Decl::Class(cd) => {
                let new_cls = Some(cd.name.clone());
                self.visit_members(&cd.members, &new_cls);
            },
            Decl::Var(ds) => self.visit_var_decls(ds, cls, fname),
        }
    }

    fn visit_members(&mut self, ms: &Vec<ClassMember>, cls: &Option<String>)
        ensures
            state_of(*final(self)) == scan_members(
                ms@,
                cls.deep_view(),
                settings_of(*old(self)),
                state_of(*old(self)),
            ),
            final(self).include_try_statement == old(self).include_try_statement,
            final(self).ignore_statements == old(self).ignore_statements,
        decreases ms@, 0int,
    {
        let ghost set0 = settings_of(*self);
        let ghost st0 = state_of(*self);
        let mut i: usize = 0;
        while i < ms.len()
            invariant
                i <= ms.len(),
                state_of(*self) == scan_members(ms@.subrange(0, i as int), cls.deep_view(), set0, st0),
                settings_of(*self) == set0,
                self.include_try_statement == old(self).include_try_statement,
                self.ignore_statements == old(self).ignore_statements,
            decreases ms@.len() - i,
        {
            proof {
                assert(ms@.subrange(0, i + 1).drop_last() =~= ms@.subrange(0, i as int));
                assert(ms@.subrange(0, i + 1).last() == ms@[i as int]);
            }
            self.visit_member(&ms[i], cls);
            i = i + 1;
        }
        proof {
            assert(ms@.subrange(0, ms@.len() as int) =~= ms@);
        }
    }

    fn visit_member(&mut self, m: &ClassMember, cls: &Option<String>)
        ensures
            state_of(*final(self)) == scan_member(
                *m,
                cls.deep_view(),
                settings_of(*old(self)),
                state_of(*old(self)),
            ),
            final(self).include_try_statement == old(self).include_try_statement,
            final(self).ignore_statements == old(self).ignore_statements,
        decreases *m, 0int,
    {
        match m {
            ClassMember::Method(cm) => match &cm.name {
                Some(n) => {
                    let spans = self.body_throws(&cm.function.body);
                    self.register(
                        spans,
                        cm.span,
                        n.clone(),
                        cls,
                        cls,
                        &cm.function.leading_comments,
                    );
                    let new_fname = Some(n.clone());
                    self.visit_stmts(&cm.function.body, cls, &new_fname);
                },
                None => {
                    let none: Option<String> = None;
                    self.visit_stmts(&cm.function.body, cls, &none);
                },
            },
            ClassMember::Ctor(c) => {
                let spans = self.body_throws(&c.body);
                self.register(
                    spans,
                    c.span,
                    String::from_str("<constructor>"),
                    cls,
                    cls,
                    &c.leading_comments,
                );
                let new_fname = Some(String::from_str("<constructor>"));
                self.visit_stmts(&c.body, cls, &new_fname);
            },
            ClassMember::Other => (),
        }
    }

    fn visit_var_decls(&mut self, ds: &Vec<VarDeclarator>, cls: &Option<String>, fname: &Option<String>)
        ensures
            state_of(*final(self)) == scan_var_decls(
                ds@,
                cls.deep_view(),
                fname.deep_view(),
                settings_of(*old(self)),
                state_of(*old(self)),
            ),
            final(self).include_try_statement == old(self).include_try_statement,
            final(self).ignore_statements == old(self).ignore_statements,
        decreases ds@, 0int,
    {
        let ghost set0 = settings_of(*self);
        let ghost st0 = state_of(*self);
        let mut i: usize = 0;
        while i < ds.len()
            invariant
                i <= ds.len(),
                state_of(*self) == scan_var_decls(
                    ds@.subrange(0, i as int),
                    cls.deep_view(),
                    fname.deep_view(),
                    set0,
                    st0,
                ),
                settings_of(*self) == set0,
                self.include_try_statement == old(self).include_try_statement,
                self.ignore_statements == old(self).ignore_statements,
            decreases ds@.len() - i,
        {
            proof {
                assert(ds@.subrange(0, i + 1).drop_last() =~= ds@.subrange(0, i as int));
                assert(ds@.subrange(0, i + 1).last() == ds@[i as int]);
            }
            self.visit_var_decl(&ds[i], cls, fname);
            i = i + 1;
        }
        proof {
            assert(ds@.subrange(0, ds@.len() as int) =~= ds@);
        }
    }

    fn visit_var_decl(&mut self, v: &VarDeclarator, cls: &Option<String>, fname: &Option<String>)
        ensures
            state_of(*final(self)) == scan_var_decl(
                *v,
                cls.deep_view(),
                fname.deep_view(),
                settings_of(*old(self)),
                state_of(*old(self)),
            ),
            final(self).include_try_statement == old(self).include_try_statement,
            final(self).ignore_statements == old(self).ignore_statements,
        decreases *v, 0int,
    {
        match (&v.name, &v.init) {
            (_, None) => (),
            (None, Some(e)) => self.visit_expr(&**e, cls, fname),
            (Some(n), Some(e)) => match &**e {
                Expr::Fn(f) => {
                    let spans = self.body_throws(&f.function.body);
                    self.register(
                        spans,
                        v.span,
                        n.clone(),
                        cls,
                        cls,
                        &f.function.leading_comments,
                    );
                    let new_fname = Some(n.clone());
                    self.visit_stmts(&f.function.body, cls, &new_fname);
                },
                Expr::Arrow(a) => {
                    let spans = self.arrow_throws(&a.body);
                    self.register(spans, v.span, n.clone(), cls, cls, &a.leading_comments);
                    let new_fname = Some(n.clone());
                    self.visit_arrow_body(&a.body, cls, &new_fname);
                },
                Expr::Object(o) => {
                    let new_cls = Some(n.clone());
                    self.visit_props(&o.props, &new_cls, fname);
                },
                _ => self.visit_expr(&**e, cls, fname),
            },
        }
    }

    fn visit_props(&mut self, ps: &Vec<Prop>, cls: &Option<String>, fname: &Option<String>)
        ensures
            state_of(*final(self)) == scan_props(
                ps@,
                cls.deep_view(),
                fname.deep_view(),
                settings_of(*old(self)),
                state_of(*old(self)),
            ),
            final(self).include_try_statement == old(self).include_try_statement,
            final(self).ignore_statements == old(self).ignore_statements,
        decreases ps@, 0int,
    {
        let ghost set0 = settings_of(*self);
        let ghost st0 = state_of(*self);
        let mut i: usize = 0;
        while i < ps.len()
            invariant
                i <= ps.len(),
                state_of(*self) == scan_props(
                    ps@.subrange(0, i as int),
                    cls.deep_view(),
                    fname.deep_view(),
                    set0,
                    st0,
                ),
                settings_of(*self) == set0,
                self.include_try_statement == old(self).include_try_statement,
                self.ignore_statements == old(self).ignore_statements,
            decreases ps@.len() - i,
        {
            proof {
                assert(ps@.subrange(0, i + 1).drop_last() =~= ps@.subrange(0, i as int));
                assert(ps@.subrange(0, i + 1).last() == ps@[i as int]);
            }
            self.visit_prop(&ps[i], cls, fname);
            i = i + 1;
        }
        proof {
            assert(ps@.subrange(0, ps@.len() as int) =~= ps@);
        }
    }

    fn visit_prop(&mut self, p: &Prop, cls: &Option<String>, fname: &Option<String>)
        ensures
            state_of(*final(self)) == scan_prop(
                *p,
                cls.deep_view(),
                fname.deep_view(),
                settings_of(*old(self)),
                state_of(*old(self)),
            ),
            final(self).include_try_statement == old(self).include_try_statement,
            final(self).ignore_statements == old(self).ignore_statements,
        decreases *p, 0int,
    {
        match p {
            Prop::Method { name, function } => match name {
                Some(n) => {
                    let spans = self.body_throws(&function.body);
                    self.register(
                        spans,
                        function.span,
                        n.clone(),
                        cls,
                        cls,
                        &function.leading_comments,
                    );
                    let new_fname = Some(n.clone());
                    self.visit_stmts(&function.body, cls, &new_fname);
                },
                None => {
                    let none: Option<String> = None;
                    self.visit_stmts(&function.body, cls, &none);
                },
            },
            Prop::KeyValue { key, value } => match &**value {
                Expr::Fn(f) => {
                    let spans = self.body_throws(&f.function.body);
                    self.register(
                        spans,
                        f.function.span,
                        key.clone(),
                        cls,
                        cls,
                        &f.function.leading_comments,
                    );
                    let new_fname = Some(key.clone());
                    self.visit_stmts(&f.function.body, cls, &new_fname);
                },
                Expr::Arrow(a) => {
                    let spans = self.arrow_throws(&a.body);
                    self.register(spans, a.span, key.clone(), cls, cls, &a.leading_comments);
                    let new_fname = Some(key.clone());
                    self.visit_arrow_body(&a.body, cls, &new_fname);
                },
                _ => self.visit_expr(&**value, cls, fname),
            },
            Prop::Other => (),
        }
    }

    pub fn visit_stmts(&mut self, ss: &Vec<Stmt>, cls: &Option<String>, fname: &Option<String>)
        ensures
            state_of(*final(self)) == scan_stmts(
                ss@,
                cls.deep_view(),
                fname.deep_view(),
                settings_of(*old(self)),
                state_of(*old(self)),
            ),
            final(self).include_try_statement == old(self).include_try_statement,
            final(self).ignore_statements == old(self).ignore_statements,
        decreases ss@, 0int,
    {
        let ghost set0 = settings_of(*self);
        let ghost st0 = state_of(*self);
        let mut i: usize = 0;
        while i < ss.len()
            invariant
                i <= ss.len(),
                state_of(*self) == scan_stmts(
                    ss@.subrange(0, i as int),
                    cls.deep_view(),
                    fname.deep_view(),
                    set0,
                    st0,
                ),
                settings_of(*self) == set0,
                self.include_try_statement == old(self).include_try_statement,
                self.ignore_statements == old(self).ignore_statements,
            decreases ss@.len() - i,
        {
            proof {
                assert(ss@.subrange(0, i + 1).drop_last() =~= ss@.subrange(0, i as int));
                assert(ss@.subrange(0, i + 1).last() == ss@[i as int]);
            }
            self.visit_stmt(&ss[i], cls, fname);
            i = i + 1;
        }
        proof {
            assert(ss@.subrange(0, ss@.len() as int) =~= ss@);
        }
    }

    fn visit_opt_stmts(&mut self, ss: &Option<Vec<Stmt>>, cls: &Option<String>, fname: &Option<String>)
        ensures
            state_of(*final(self)) == scan_opt_stmts(
                *ss,
                cls.deep_view(),
                fname.deep_view(),
                settings_of(*old(self)),
                state_of(*old(self)),
            ),
            final(self).include_try_statement == old(self).include_try_statement,
            final(self).ignore_statements == old(self).ignore_statements,
        decreases *ss, 0int,
    {
        match ss {
            Some(b) => self.visit_stmts(b, cls, fname),
            None => (),
        }
    }

    fn visit_opt_box_stmt(&mut self, s: &Option<Box<Stmt>>, cls: &Option<String>, fname: &Option<String>)
        ensures
            state_of(*final(self)) == scan_opt_box_stmt(
                *s,
                cls.deep_view(),
                fname.deep_view(),
                settings_of(*old(self)),
                state_of(*old(self)),
            ),
            final(self).include_try_statement == old(self).include_try_statement,
            final(self).ignore_statements == old(self).ignore_statements,
        decreases *s, 0int,
    {
        match s {
            Some(b) => self.visit_stmt(&**b, cls, fname),
            None => (),
        }
    }

    pub fn visit_stmt(&mut self, s: &Stmt, cls: &Option<String>, fname: &Option<String>)
        ensures
            state_of(*final(self)) == scan_stmt(
                *s,
                cls.deep_view(),
                fname.deep_view(),
                settings_of(*old(self)),
                state_of(*old(self)),
            ),
            final(self).include_try_statement == old(self).include_try_statement,
            final(self).ignore_statements == old(self).ignore_statements,
        decreases *s, 0int,
    {
        match s {
            Stmt::Expr(e) => self.visit_expr(e, cls, fname),
            Stmt::Block(ss) => self.visit_stmts(ss, cls, fname),
            Stmt::If { test, cons, alt } => {
                self.visit_expr(test, cls, fname);
                self.visit_stmt(&**cons, cls, fname);
                self.visit_opt_box_stmt(alt, cls, fname);
            },
            Stmt::Throw { span: _ } => (),
            Stmt::Try(t) => {
                self.visit_stmts(&t.block, cls, fname);
                self.visit_opt_stmts(&t.handler, cls, fname);
                self.visit_opt_stmts(&t.finalizer, cls, fname);
            },
            Stmt::Decl(d) => self.visit_decl(d, cls, fname),
            Stmt::Other { exprs, stmts } => {
                self.visit_exprs(exprs, cls, fname);
                self.visit_stmts(stmts, cls, fname);
            },
        }
    }

    fn visit_exprs(&mut self, es: &Vec<Expr>, cls: &Option<String>, fname: &Option<String>)
        ensures
            state_of(*final(self)) == scan_exprs(
                es@,
                cls.deep_view(),
                fname.deep_view(),
                settings_of(*old(self)),
                state_of(*old(self)),
            ),
            final(self).include_try_statement == old(self).include_try_statement,
            final(self).ignore_statements == old(self).ignore_statements,
        decreases es@, 0int,
    {
        let ghost set0 = settings_of(*self);
        let ghost st0 = state_of(*self);
        let mut i: usize = 0;
        while i < es.len()
            invariant
                i <= es.len(),
                state_of(*self) == scan_exprs(
                    es@.subrange(0, i as int),
                    cls.deep_view(),
                    fname.deep_view(),
                    set0,
                    st0,
                ),
                settings_of(*self) == set0,
                self.include_try_statement == old(self).include_try_statement,
                self.ignore_statements == old(self).ignore_statements,
            decreases es@.len() - i,
        {
            proof {
                assert(es@.subrange(0, i + 1).drop_last() =~= es@.subrange(0, i as int));
                assert(es@.subrange(0, i + 1).last() == es@[i as int]);
            }
            self.visit_expr(&es[i], cls, fname);
            i = i + 1;
        }
        proof {
            assert(es@.subrange(0, es@.len() as int) =~= es@);
        }
    }

    pub fn visit_expr(&mut self, e: &Expr, cls: &Option<String>, fname: &Option<String>)
        ensures
            state_of(*final(self)) == scan_expr(
                *e,
                cls.deep_view(),
                fname.deep_view(),
                settings_of(*old(self)),
                state_of(*old(self)),
            ),
            final(self).include_try_statement == old(self).include_try_statement,
            final(self).ignore_statements == old(self).ignore_statements,
        decreases *e, 0int,
    {
        match e {
            Expr::Ident(_) => (),
            Expr::This => (),
            Expr::Call(c) => self.visit_call(c, cls, fname),
            Expr::Member(m) => self.visit_expr(&*m.obj, cls, fname),
            Expr::Fn(f) => {
                let spans = self.body_throws(&f.function.body);
                self.register(
                    spans,
                    f.function.span,
                    name_or_anonymous(fname),
                    &None,
                    cls,
                    &f.function.leading_comments,
                );
                self.visit_stmts(&f.function.body, cls, fname);
            },
            Expr::Arrow(a) => {
                let spans = self.arrow_throws(&a.body);
                self.register(
                    spans,
                    a.span,
                    name_or_anonymous(fname),
                    &None,
                    cls,
                    &a.leading_comments,
                );
                self.visit_arrow_body(&a.body, cls, fname);
            },
            Expr::Object(o) => self.visit_props(&o.props, cls, fname),
            Expr::New(n) => {
                self.visit_expr(&*n.callee, cls, fname);
                self.visit_exprs(&n.args, cls, fname);
            },
            Expr::Paren(inner) => self.visit_expr(&**inner, cls, fname),
            Expr::Await(inner) => self.visit_expr(&**inner, cls, fname),
            Expr::Bin { left, right } => {
                self.visit_expr(&**left, cls, fname);
                self.visit_expr(&**right, cls, fname);
            },
            Expr::OptChain(inner) => self.visit_expr(&**inner, cls, fname),
            Expr::Assign(a) => match &a.target {
                Some(x) => {
                    if matches!(&*a.right, Expr::Fn(_)) || matches!(&*a.right, Expr::Arrow(_)) {
                        let new_fname = Some(x.clone());
                        self.visit_expr(&*a.right, cls, &new_fname);
                    } else {
                        self.visit_expr(&*a.right, cls, fname);
                    }
                },
                None => self.visit_expr(&*a.right, cls, fname),
            },
            Expr::Other { exprs } => self.visit_exprs(exprs, cls, fname),
        }
    }

    fn visit_arrow_body(&mut self, b: &ArrowBody, cls: &Option<String>, fname: &Option<String>)
        ensures
            state_of(*final(self)) == scan_arrow_body(
                *b,
                cls.deep_view(),
                fname.deep_view(),
                settings_of(*old(self)),
                state_of(*old(self)),
            ),
            final(self).include_try_statement == old(self).include_try_statement,
            final(self).ignore_statements == old(self).ignore_statements,
        decreases *b, 0int,
    {
        match b {
            ArrowBody::Block(ss) => self.visit_stmts(ss, cls, fname),
            ArrowBody::Expr(e) => self.visit_expr(&**e, cls, fname),
        }
    }

    pub fn visit_call(&mut self, c: &crate::ast::CallExpr, cls: &Option<String>, fname: &Option<String>)
        ensures
            state_of(*final(self)) == scan_call(
                *c,
                cls.deep_view(),
                fname.deep_view(),
                settings_of(*old(self)),
                state_of(*old(self)),
            ),
            final(self).include_try_statement == old(self).include_try_statement,
            final(self).ignore_statements == old(self).ignore_statements,
        decreases *c, 0int,
    {
        match &c.callee {
            Callee::Expr(ce) => match &**ce {
                Expr::Member(m) => {
                    self.visit_expr(&*m.obj, cls, fname);
                    let argname = name_or_anonymous(&m.prop);
                    self.visit_call_args(&c.args, cls, fname, &argname);
                },
                Expr::Ident(name) => {
                    let argname = name.clone();
                    self.visit_call_args(&c.args, cls, fname, &argname);
                },
                Expr::Arrow(a) => {
                    let spans = self.arrow_throws(&a.body);
                    self.register(
                        spans,
                        a.span,
                        name_or_anonymous(fname),
                        &None,
                        cls,
                        &a.leading_comments,
                    );
                    self.visit_arrow_body(&a.body, cls, fname);
                    self.visit_exprs(&c.args, cls, fname);
                },
                _ => {
                    self.visit_expr(&**ce, cls, fname);
                    self.visit_exprs(&c.args, cls, fname);
                },
            },
            Callee::Other => self.visit_exprs(&c.args, cls, fname),
        }
    }

    fn visit_call_args(
        &mut self,
        args: &Vec<Expr>,
        cls: &Option<String>,
        fname: &Option<String>,
        argname: &String,
    )
        ensures
            state_of(*final(self)) == scan_call_args(
                args@,
                cls.deep_view(),
                fname.deep_view(),
                argname@,
                settings_of(*old(self)),
                state_of(*old(self)),
            ),
            final(self).include_try_statement == old(self).include_try_statement,
            final(self).ignore_statements == old(self).ignore_statements,
        decreases args@, 0int,
    {
        let ghost set0 = settings_of(*self);
        let ghost st0 = state_of(*self);
        let mut i: usize = 0;
        while i < args.len()
            invariant
                i <= args.len(),
                state_of(*self) == scan_call_args(
                    args@.subrange(0, i as int),
                    cls.deep_view(),
                    fname.deep_view(),
                    argname@,
                    set0,
                    st0,
                ),
                settings_of(*self) == set0,
                self.include_try_statement == old(self).include_try_statement,
                self.ignore_statements == old(self).ignore_statements,
            decreases args@.len() - i,
        {
            proof {
                assert(args@.subrange(0, i + 1).drop_last() =~= args@.subrange(0, i as int));
                assert(args@.subrange(0, i + 1).last() == args@[i as int]);
            }
            self.visit_call_arg(&args[i], cls, fname, argname);
            i = i + 1;
        }
        proof {
            assert(args@.subrange(0, args@.len() as int) =~= args@);
        }
    }

    fn visit_call_arg(
        &mut self,
        a: &Expr,
        cls: &Option<String>,
        fname: &Option<String>,
        argname: &String,
    )
        ensures
            state_of(*final(self)) == scan_call_arg(
                *a,
                cls.deep_view(),
                fname.deep_view(),
                argname@,
                settings_of(*old(self)),
                state_of(*old(self)),
            ),
            final(self).include_try_statement == old(self).include_try_statement,
            final(self).ignore_statements == old(self).ignore_statements,
        decreases *a, 1int,
    {
        match a {
            Expr::Fn(f) => {
                let spans = self.body_throws(&f.function.body);
                self.register(
                    spans,
                    f.function.span,
                    argname.clone(),
                    &None,
                    cls,
                    &f.function.leading_comments,
                );
                let new_fname = Some(argname.clone());
                self.visit_stmts(&f.function.body, cls, &new_fname);
            },
            Expr::Arrow(ar) => {
                let spans = self.arrow_throws(&ar.body);
                self.register(spans, ar.span, argname.clone(), &None, cls, &ar.leading_comments);
                let new_fname = Some(argname.clone());
                self.visit_arrow_body(&ar.body, cls, &new_fname);
            },
            _ => self.visit_expr(a, cls, fname),
        }
    }
}

} // verus!