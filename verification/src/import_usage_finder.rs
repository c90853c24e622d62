//! Pass 3: import-usage resolution.
//!
//! [`ImportUsageFinder`] walks the module a third time, consuming the
//! imported-identifier list of pass 1. Every call whose callee is an imported
//! name, and every member call whose receiver is an imported name, is
//! recorded as an [`IdentifierUsage`], since the analysis cannot see into the
//! imported module's body. One record is kept per physical call site: two
//! records are the same only when both their ID and their usage span agree.
//!
//! The calling-context label changes only when descending into function or
//! arrow arguments of a call, which mirrors how the labels are used for
//! nested callbacks; elsewhere it is `<anonymous>`.

use crate::ast::{
    ArrowBody, Callee, ClassMember, Decl, Expr, Module, ModuleItem, Prop, Stmt, VarDeclarator,
};
use crate::span::Span;
use crate::text::{
    name_or_anonymous, qualified_id, spec_or_anonymous, spec_qualified_id, str_eq,
    vec_contains_string,
};
use crate::throw_finder::{IdentifierUsage, IdentifierUsageV};
use vstd::prelude::*;

verus! {

/// A usage with this ID and span is already present.
pub open spec fn has_usage(us: Seq<IdentifierUsageV>, id: Seq<char>, sp: Span) -> bool {
    exists|i: int| 0 <= i < us.len() && us[i].id == id && us[i].usage_span == sp
}

/// Appends a usage unless one with the same ID and span exists: one record
/// per physical call site.
pub open spec fn insert_usage(us: Seq<IdentifierUsageV>, u: IdentifierUsageV) -> Seq<
    IdentifierUsageV,
> {
    if has_usage(us, u.id, u.usage_span) {
        us
    } else {
        us.push(u)
    }
}

/// Records a member call whose receiver is an imported name: the usage is
/// keyed by the receiver and the called method.
pub open spec fn member_usage_step(
    span: Span,
    obj: Expr,
    method: Seq<char>,
    imported: Seq<Seq<char>>,
    us: Seq<IdentifierUsageV>,
) -> Seq<IdentifierUsageV> {
    match obj {
        Expr::Ident(o) => if imported.contains(o@) {
            insert_usage(
                us,
                IdentifierUsageV {
                    usage_span: span,
                    identifier_name: o@,
                    usage_context: method,
                    id: spec_qualified_id(Some(o@), method),
                },
            )
        } else {
            us
        },
        _ => us,
    }
}

/// Records a direct call of an imported name, labelled by the enclosing
/// calling context.
pub open spec fn direct_usage_step(
    span: Span,
    name: Seq<char>,
    fname: Option<Seq<char>>,
    imported: Seq<Seq<char>>,
    us: Seq<IdentifierUsageV>,
) -> Seq<IdentifierUsageV> {
    if imported.contains(name) {
        insert_usage(
            us,
            IdentifierUsageV {
                usage_span: span,
                identifier_name: name,
                usage_context: spec_or_anonymous(fname),
                id: spec_qualified_id(None, name),
            },
        )
    } else {
        us
    }
}

pub open spec fn usage_module(m: Module, imported: Seq<Seq<char>>, us: Seq<IdentifierUsageV>) -> Seq<
    IdentifierUsageV,
>
    decreases m, 0int,
{
    usage_items(m.items@, imported, us)
}

pub open spec fn usage_items(
    items: Seq<ModuleItem>,
    imported: Seq<Seq<char>>,
    us: Seq<IdentifierUsageV>,
) -> Seq<IdentifierUsageV>
    decreases items, 0int,
{
    if items.len() == 0 {
        us
    } else {
        usage_item(items.last(), imported, usage_items(items.drop_last(), imported, us))
    }
}

pub open spec fn usage_item(
    it: ModuleItem,
    imported: Seq<Seq<char>>,
    us: Seq<IdentifierUsageV>,
) -> Seq<IdentifierUsageV>
    decreases it, 0int,
{
    match it {
        ModuleItem::Import(_) => us,
        ModuleItem::Export(d) => usage_decl(d, None, imported, us),
        ModuleItem::Stmt(s) => usage_stmt(s, None, imported, us),
    }
}

pub open spec fn usage_decl(
    d: Decl,
    fname: Option<Seq<char>>,
    imported: Seq<Seq<char>>,
    us: Seq<IdentifierUsageV>,
) -> Seq<IdentifierUsageV>
    decreases d, 0int,
{
    match d {
        Decl::Fn(fd) => usage_stmts(fd.function.body@, fname, imported, us),
        Decl::Class(cd) => usage_members(cd.members@, fname, imported, us),
        Decl::Var(ds) => usage_var_decls(ds@, fname, imported, us),
    }
}

pub open spec fn usage_members(
    ms: Seq<ClassMember>,
    fname: Option<Seq<char>>,
    imported: Seq<Seq<char>>,
    us: Seq<IdentifierUsageV>,
) -> Seq<IdentifierUsageV>
    decreases ms, 0int,
{
    if ms.len() == 0 {
        us
    } else {
        usage_member(ms.last(), fname, imported, usage_members(ms.drop_last(), fname, imported, us))
    }
}

pub open spec fn usage_member(
    m: ClassMember,
    fname: Option<Seq<char>>,
    imported: Seq<Seq<char>>,
    us: Seq<IdentifierUsageV>,
) -> Seq<IdentifierUsageV>
    decreases m, 0int,
{
    match m {
        ClassMember::Method(cm) => usage_stmts(cm.function.body@, fname, imported, us),
        ClassMember::Ctor(c) => usage_stmts(c.body@, fname, imported, us),
        ClassMember::Other => us,
    }
}

pub open spec fn usage_var_decls(
    ds: Seq<VarDeclarator>,
    fname: Option<Seq<char>>,
    imported: Seq<Seq<char>>,
    us: Seq<IdentifierUsageV>,
) -> Seq<IdentifierUsageV>
    decreases ds, 0int,
{
    if ds.len() == 0 {
        us
    } else {
        usage_var_decl(
            ds.last(),
            fname,
            imported,
            usage_var_decls(ds.drop_last(), fname, imported, us),
        )
    }
}

pub open spec fn usage_var_decl(
    v: VarDeclarator,
    fname: Option<Seq<char>>,
    imported: Seq<Seq<char>>,
    us: Seq<IdentifierUsageV>,
) -> Seq<IdentifierUsageV>
    decreases v, 0int,
{
    match v.init {
        Some(e) => usage_expr(*e, fname, imported, us),
        None => us,
    }
}

pub open spec fn usage_props(
    ps: Seq<Prop>,
    fname: Option<Seq<char>>,
    imported: Seq<Seq<char>>,
    us: Seq<IdentifierUsageV>,
) -> Seq<IdentifierUsageV>
    decreases ps, 0int,
{
    if ps.len() == 0 {
        us
    } else {
        usage_prop(ps.last(), fname, imported, usage_props(ps.drop_last(), fname, imported, us))
    }
}

pub open spec fn usage_prop(
    p: Prop,
    fname: Option<Seq<char>>,
    imported: Seq<Seq<char>>,
    us: Seq<IdentifierUsageV>,
) -> Seq<IdentifierUsageV>
    decreases p, 0int,
{
    match p {
        Prop::Method { name, function } => usage_stmts(function.body@, fname, imported, us),
        Prop::KeyValue { key, value } => usage_expr(*value, fname, imported, us),
        Prop::Other => us,
    }
}

pub open spec fn usage_stmts(
    ss: Seq<Stmt>,
    fname: Option<Seq<char>>,
    imported: Seq<Seq<char>>,
    us: Seq<IdentifierUsageV>,
) -> Seq<IdentifierUsageV>
    decreases ss, 0int,
{
    if ss.len() == 0 {
        us
    } else {
        usage_stmt(ss.last(), fname, imported, usage_stmts(ss.drop_last(), fname, imported, us))
    }
}

pub open spec fn usage_opt_stmts(
    ss: Option<Vec<Stmt>>,
    fname: Option<Seq<char>>,
    imported: Seq<Seq<char>>,
    us: Seq<IdentifierUsageV>,
) -> Seq<IdentifierUsageV>
    decreases ss, 0int,
{
    match ss {
        Some(b) => usage_stmts(b@, fname, imported, us),
        None => us,
    }
}

pub open spec fn usage_opt_box_stmt(
    s: Option<Box<Stmt>>,
    fname: Option<Seq<char>>,
    imported: Seq<Seq<char>>,
    us: Seq<IdentifierUsageV>,
) -> Seq<IdentifierUsageV>
    decreases s, 0int,
{
    match s {
        Some(b) => usage_stmt(*b, fname, imported, us),
        None => us,
    }
}

pub open spec fn usage_stmt(
    s: Stmt,
    fname: Option<Seq<char>>,
    imported: Seq<Seq<char>>,
    us: Seq<IdentifierUsageV>,
) -> Seq<IdentifierUsageV>
    decreases s, 0int,
{
    match s {
        Stmt::Expr(e) => usage_expr(e, fname, imported, us),
        Stmt::Block(ss) => usage_stmts(ss@, fname, imported, us),
        Stmt::If { test, cons, alt } => usage_opt_box_stmt(
            alt,
            fname,
            imported,
            usage_stmt(*cons, fname, imported, usage_expr(test, fname, imported, us)),
        ),
        Stmt::Throw { span } => us,
        Stmt::Try(t) => usage_opt_stmts(
            t.finalizer,
            fname,
            imported,
            usage_opt_stmts(
                t.handler,
                fname,
                imported,
                usage_stmts(t.block@, fname, imported, us),
            ),
        ),
        Stmt::Decl(d) => usage_decl(d, fname, imported, us),
        Stmt::Other { exprs, stmts } => usage_stmts(
            stmts@,
            fname,
            imported,
            usage_exprs(exprs@, fname, imported, us),
        ),
    }
}

pub open spec fn usage_exprs(
    es: Seq<Expr>,
    fname: Option<Seq<char>>,
    imported: Seq<Seq<char>>,
    us: Seq<IdentifierUsageV>,
) -> Seq<IdentifierUsageV>
    decreases es, 0int,
{
    if es.len() == 0 {
        us
    } else {
        usage_expr(es.last(), fname, imported, usage_exprs(es.drop_last(), fname, imported, us))
    }
}

pub open spec fn usage_expr(
    e: Expr,
    fname: Option<Seq<char>>,
    imported: Seq<Seq<char>>,
    us: Seq<IdentifierUsageV>,
) -> Seq<IdentifierUsageV>
    decreases e, 0int,
{
    match e {
        Expr::Ident(_) => us,
        Expr::This => us,
        Expr::Call(c) => usage_call(c, fname, imported, us),
        Expr::Member(m) => usage_expr(*m.obj, fname, imported, us),
        Expr::Fn(f) => usage_stmts(f.function.body@, fname, imported, us),
        Expr::Arrow(a) => usage_arrow_body(a.body, fname, imported, us),
        Expr::Object(o) => usage_props(o.props@, fname, imported, us),
        Expr::New(n) => usage_exprs(
            n.args@,
            fname,
            imported,
            usage_expr(*n.callee, fname, imported, us),
        ),
        Expr::Paren(inner) => usage_expr(*inner, fname, imported, us),
        Expr::Await(inner) => usage_expr(*inner, fname, imported, us),
        Expr::Bin { left, right } => usage_expr(
            *right,
            fname,
            imported,
            usage_expr(*left, fname, imported, us),
        ),
        Expr::OptChain(inner) => usage_expr(*inner, fname, imported, us),
        Expr::Assign(a) => usage_expr(*a.right, fname, imported, us),
        Expr::Other { exprs } => usage_exprs(exprs@, fname, imported, us),
    }
}

pub open spec fn usage_arrow_body(
    b: ArrowBody,
    fname: Option<Seq<char>>,
    imported: Seq<Seq<char>>,
    us: Seq<IdentifierUsageV>,
) -> Seq<IdentifierUsageV>
    decreases b, 0int,
{
    match b {
        ArrowBody::Block(ss) => usage_stmts(ss@, fname, imported, us),
        ArrowBody::Expr(e) => usage_expr(*e, fname, imported, us),
    }
}

/// A call expression: the receiver or callee is checked against the imported
/// names, and function-valued arguments are walked under the called name.
pub open spec fn usage_call(
    c: crate::ast::CallExpr,
    fname: Option<Seq<char>>,
    imported: Seq<Seq<char>>,
    us: Seq<IdentifierUsageV>,
) -> Seq<IdentifierUsageV>
    decreases c, 0int,
{
    match c.callee {
        Callee::Expr(ce) => match *ce {
            Expr::Member(m) => match m.prop {
                Some(p) => usage_call_args(
                    c.args@,
                    fname,
                    p@,
                    imported,
                    member_usage_step(
                        c.span,
                        *m.obj,
                        p@,
                        imported,
                        usage_expr(*m.obj, fname, imported, us),
                    ),
                ),
                None => usage_exprs(
                    c.args@,
                    fname,
                    imported,
                    usage_expr(*m.obj, fname, imported, us),
                ),
            },
            Expr::Ident(name) => usage_call_args(
                c.args@,
                fname,
                name@,
                imported,
                direct_usage_step(c.span, name@, fname, imported, us),
            ),
            _ => usage_exprs(c.args@, fname, imported, usage_expr(*ce, fname, imported, us)),
        },
        Callee::Other => usage_exprs(c.args@, fname, imported, us),
    }
}

pub open spec fn usage_call_args(
    args: Seq<Expr>,
    fname: Option<Seq<char>>,
    argname: Seq<char>,
    imported: Seq<Seq<char>>,
    us: Seq<IdentifierUsageV>,
) -> Seq<IdentifierUsageV>
    decreases args, 0int,
{
    if args.len() == 0 {
        us
    } else {
        usage_call_arg(
            args.last(),
            fname,
            argname,
            imported,
            usage_call_args(args.drop_last(), fname, argname, imported, us),
        )
    }
}

pub open spec fn usage_call_arg(
    a: Expr,
    fname: Option<Seq<char>>,
    argname: Seq<char>,
    imported: Seq<Seq<char>>,
    us: Seq<IdentifierUsageV>,
) -> Seq<IdentifierUsageV>
    decreases a, 1int,
{
    match a {
        Expr::Fn(f) => usage_stmts(f.function.body@, Some(argname), imported, us),
        Expr::Arrow(ar) => usage_arrow_body(ar.body, Some(argname), imported, us),
        _ => usage_expr(a, fname, imported, us),
    }
}

/// Pass 3 state: the imported names from pass 1 (read only) and the recorded
/// usages.
pub struct ImportUsageFinder {
    pub imported_identifiers: Vec<String>,
    pub imported_identifier_usages: Vec<IdentifierUsage>,
}

/// Appends a usage unless one with the same ID and span is present.
fn insert_usage_rec(v: &mut Vec<IdentifierUsage>, u: IdentifierUsage)
    ensures
        final(v).deep_view() == insert_usage(old(v).deep_view(), u@),
{
    let mut i: usize = 0;
    while i < v.len()
        invariant
            i <= v.len(),
            *v == *old(v),
            forall|k: int|
                0 <= k < i ==> !(v.deep_view()[k].id == u@.id && v.deep_view()[k].usage_span
                    == u@.usage_span),
        decreases v.len() - i,
    {
        proof {
            assert(v.deep_view()[i as int] == v@[i as int]@);
        }
        if str_eq(v[i].id.as_str(), u.id.as_str()) && v[i].usage_span == u.usage_span {
            proof {
                assert(has_usage(v.deep_view(), u@.id, u@.usage_span));
            }
            return ;
        }
        i = i + 1;
    }
    proof {
        assert(!has_usage(v.deep_view(), u@.id, u@.usage_span));
    }
    let ghost before = v.deep_view();
    v.push(u);
    proof {
        assert(v.deep_view() =~= before.push(u@));
    }
}

impl ImportUsageFinder {
    /// A fresh pass-3 state consuming pass 1's imported identifiers.
    pub fn new(imported_identifiers: Vec<String>) -> (r: ImportUsageFinder)
        ensures
            r.imported_identifier_usages.deep_view() == Seq::<IdentifierUsageV>::empty(),
            r.imported_identifiers == imported_identifiers,
    {
        let r = ImportUsageFinder { imported_identifiers, imported_identifier_usages: Vec::new() };
        proof {
            assert(r.imported_identifier_usages.deep_view() =~= Seq::<IdentifierUsageV>::empty());
        }
        r
    }

    /// Records a member call whose receiver is an imported name.
    fn member_step(&mut self, span: Span, obj: &Expr, method: &String)
        ensures
            final(self).imported_identifier_usages.deep_view() == member_usage_step(
                span,
                *obj,
                method@,
                old(self).imported_identifiers.deep_view(),
                old(self).imported_identifier_usages.deep_view(),
            ),
            final(self).imported_identifiers == old(self).imported_identifiers,
    {
        match obj {
            Expr::Ident(o) => {
                if vec_contains_string(&self.imported_identifiers, o.as_str()) {
                    let some_o = Some(o.clone());
                    let id = qualified_id(&some_o, method.as_str());
                    let u = IdentifierUsage {
                        usage_span: span,
                        identifier_name: o.clone(),
                        usage_context: method.clone(),
                        id,
                    };
                    insert_usage_rec(&mut self.imported_identifier_usages, u);
                }
            },
            _ => (),
        }
    }

    /// Records a direct call of an imported name.
    fn direct_step(&mut self, span: Span, name: &String, fname: &Option<String>)
        ensures
            final(self).imported_identifier_usages.deep_view() == direct_usage_step(
                span,
                name@,
                fname.deep_view(),
                old(self).imported_identifiers.deep_view(),
                old(self).imported_identifier_usages.deep_view(),
            ),
            final(self).imported_identifiers == old(self).imported_identifiers,
    {
        if vec_contains_string(&self.imported_identifiers, name.as_str()) {
            let none: Option<String> = None;
            let id = qualified_id(&none, name.as_str());
            let u = IdentifierUsage {
                usage_span: span,
                identifier_name: name.clone(),
                usage_context: name_or_anonymous(fname),
                id,
            };
            insert_usage_rec(&mut self.imported_identifier_usages, u);
        }
    }

    /// Runs pass 3 over a whole module.
    pub fn visit_module(&mut self, m: &Module)
        ensures
            final(self).imported_identifier_usages.deep_view() == usage_module(
                *m,
                old(self).imported_identifiers.deep_view(),
                old(self).imported_identifier_usages.deep_view(),
            ),
            final(self).imported_identifiers == old(self).imported_identifiers,
    {
        let ghost imported = self.imported_identifiers.deep_view();
        let ghost us0 = self.imported_identifier_usages.deep_view();
        let mut i: usize = 0;
        while i < m.items.len()
            invariant
                i <= m.items.len(),
                self.imported_identifier_usages.deep_view() == usage_items(
                    m.items@.subrange(0, i as int),
                    imported,
                    us0,
                ),
                self.imported_identifiers == old(self).imported_identifiers,
                imported == self.imported_identifiers.deep_view(),
            decreases m.items.len() - i,
        {
            proof {
                assert(m.items@.subrange(0, i + 1).drop_last() =~= m.items@.subrange(0, i as int));
                assert(m.items@.subrange(0, i + 1).last() == m.items@[i as int]);
            }
            let ghost us_i = self.imported_identifier_usages.deep_view();
            self.visit_item(&m.items[i]);
            proof {
                assert(self.imported_identifier_usages.deep_view() == usage_item(
                    m.items@[i as int],
                    imported,
                    us_i,
                ));
                assert(usage_items(m.items@.subrange(0, i + 1), imported, us0) == usage_item(
                    m.items@[i as int],
                    imported,
                    usage_items(m.items@.subrange(0, i as int), imported, us0),
                ));
            }
            i = i + 1;
        }
        proof {
            assert(m.items@.subrange(0, m.items@.len() as int) =~= m.items@);
        }
    }

    fn visit_item(&mut self, it: &ModuleItem)
        ensures
            final(self).imported_identifier_usages.deep_view() == usage_item(
                *it,
                old(self).imported_identifiers.deep_view(),
                old(self).imported_identifier_usages.deep_view(),
            ),
            final(self).imported_identifiers == old(self).imported_identifiers,
        decreases *it, 0int,
    {
        let none: Option<String> = None;
        match it {
            ModuleItem::Import(_) => (),
            ModuleItem::Export(d) => self.visit_decl(d, &none),
            ModuleItem::Stmt(s) => self.visit_stmt(s, &none),
        }
    }

    fn visit_decl(&mut self, d: &Decl, fname: &Option<String>)
        ensures
            final(self).imported_identifier_usages.deep_view() == usage_decl(
                *d,
                fname.deep_view(),
                old(self).imported_identifiers.deep_view(),
                old(self).imported_identifier_usages.deep_view(),
            ),
            final(self).imported_identifiers == old(self).imported_identifiers,
        decreases *d, 0int,
    {
        match d {
            Decl::Fn(fd) => self.visit_stmts(&fd.function.body, fname),
            Decl::Class(cd) => self.visit_members(&cd.members, fname),
            Decl::Var(ds) => self.visit_var_decls(ds, fname),
        }
    }

    fn visit_members(&mut self, ms: &Vec<ClassMember>, fname: &Option<String>)
        ensures
            final(self).imported_identifier_usages.deep_view() == usage_members(
                ms@,
                fname.deep_view(),
                old(self).imported_identifiers.deep_view(),
                old(self).imported_identifier_usages.deep_view(),
            ),
            final(self).imported_identifiers == old(self).imported_identifiers,
        decreases ms@, 0int,
    {
        let ghost imported = self.imported_identifiers.deep_view();
        let ghost us0 = self.imported_identifier_usages.deep_view();
        let mut i: usize = 0;
        while i < ms.len()
            invariant
                i <= ms.len(),
                self.imported_identifier_usages.deep_view() == usage_members(
                    ms@.subrange(0, i as int),
                    fname.deep_view(),
                    imported,
                    us0,
                ),
                self.imported_identifiers == old(self).imported_identifiers,
                imported == self.imported_identifiers.deep_view(),
            decreases ms@.len() - i,
        {
            proof {
                assert(ms@.subrange(0, i + 1).drop_last() =~= ms@.subrange(0, i as int));
                assert(ms@.subrange(0, i + 1).last() == ms@[i as int]);
            }
            let ghost us_i = self.imported_identifier_usages.deep_view();
            self.visit_member(&ms[i], fname);
            proof {
                assert(self.imported_identifier_usages.deep_view() == usage_member(
                    ms@[i as int],
                    fname.deep_view(),
                    imported,
                    us_i,
                ));
                assert(usage_members(ms@.subrange(0, i + 1), fname.deep_view(), imported, us0)
                    == usage_member(
                    ms@[i as int],
                    fname.deep_view(),
                    imported,
                    usage_members(ms@.subrange(0, i as int), fname.deep_view(), imported, us0),
                ));
            }
            i = i + 1;
        }
        proof {
            assert(ms@.subrange(0, ms@.len() as int) =~= ms@);
        }
    }

    fn visit_member(&mut self, m: &ClassMember, fname: &Option<String>)
        ensures
            final(self).imported_identifier_usages.deep_view() == usage_member(
                *m,
                fname.deep_view(),
                old(self).imported_identifiers.deep_view(),
                old(self).imported_identifier_usages.deep_view(),
            ),
            final(self).imported_identifiers == old(self).imported_identifiers,
        decreases *m, 0int,
    {
        match m {
            ClassMember::Method(cm) => self.visit_stmts(&cm.function.body, fname),
            ClassMember::Ctor(c) => self.visit_stmts(&c.body, fname),
            ClassMember::Other => (),
        }
    }

    fn visit_var_decls(&mut self, ds: &Vec<VarDeclarator>, fname: &Option<String>)
        ensures
            final(self).imported_identifier_usages.deep_view() == usage_var_decls(
                ds@,
                fname.deep_view(),
                old(self).imported_identifiers.deep_view(),
                old(self).imported_identifier_usages.deep_view(),
            ),
            final(self).imported_identifiers == old(self).imported_identifiers,
        decreases ds@, 0int,
    {
        let ghost imported = self.imported_identifiers.deep_view();
        let ghost us0 = self.imported_identifier_usages.deep_view();
        let mut i: usize = 0;
        while i < ds.len()
            invariant
                i <= ds.len(),
                self.imported_identifier_usages.deep_view() == usage_var_decls(
                    ds@.subrange(0, i as int),
                    fname.deep_view(),
                    imported,
                    us0,
                ),
                self.imported_identifiers == old(self).imported_identifiers,
                imported == self.imported_identifiers.deep_view(),
            decreases ds@.len() - i,
        {
            proof {
                assert(ds@.subrange(0, i + 1).drop_last() =~= ds@.subrange(0, i as int));
                assert(ds@.subrange(0, i + 1).last() == ds@[i as int]);
            }
            let ghost us_i = self.imported_identifier_usages.deep_view();
            self.visit_var_decl(&ds[i], fname);
            proof {
                assert(self.imported_identifier_usages.deep_view() == usage_var_decl(
                    ds@[i as int],
                    fname.deep_view(),
                    imported,
                    us_i,
                ));
                assert(usage_var_decls(ds@.subrange(0, i + 1), fname.deep_view(), imported, us0)
                    == usage_var_decl(
                    ds@[i as int],
                    fname.deep_view(),
                    imported,
                    usage_var_decls(ds@.subrange(0, i as int), fname.deep_view(), imported, us0),
                ));
            }
            i = i + 1;
        }
        proof {
            assert(ds@.subrange(0, ds@.len() as int) =~= ds@);
        }
    }

    fn visit_var_decl(&mut self, v: &VarDeclarator, fname: &Option<String>)
        ensures
            final(self).imported_identifier_usages.deep_view() == usage_var_decl(
                *v,
                fname.deep_view(),
                old(self).imported_identifiers.deep_view(),
                old(self).imported_identifier_usages.deep_view(),
            ),
            final(self).imported_identifiers == old(self).imported_identifiers,
        decreases *v, 0int,
    {
        match &v.init {
            Some(e) => self.visit_expr(&**e, fname),
            None => (),
        }
    }

    fn visit_props(&mut self, ps: &Vec<Prop>, fname: &Option<String>)
        ensures
            final(self).imported_identifier_usages.deep_view() == usage_props(
                ps@,
                fname.deep_view(),
                old(self).imported_identifiers.deep_view(),
                old(self).imported_identifier_usages.deep_view(),
            ),
            final(self).imported_identifiers == old(self).imported_identifiers,
        decreases ps@, 0int,
    {
        let ghost imported = self.imported_identifiers.deep_view();
        let ghost us0 = self.imported_identifier_usages.deep_view();
        let mut i: usize = 0;
        while i < ps.len()
            invariant
                i <= ps.len(),
                self.imported_identifier_usages.deep_view() == usage_props(
                    ps@.subrange(0, i as int),
                    fname.deep_view(),
                    imported,
                    us0,
                ),
                self.imported_identifiers == old(self).imported_identifiers,
                imported == self.imported_identifiers.deep_view(),
            decreases ps@.len() - i,
        {
            proof {
                assert(ps@.subrange(0, i + 1).drop_last() =~= ps@.subrange(0, i as int));
                assert(ps@.subrange(0, i + 1).last() == ps@[i as int]);
            }
            let ghost us_i = self.imported_identifier_usages.deep_view();
            self.visit_prop(&ps[i], fname);
            proof {
                assert(self.imported_identifier_usages.deep_view() == usage_prop(
                    ps@[i as int],
                    fname.deep_view(),
                    imported,
                    us_i,
                ));
                assert(usage_props(ps@.subrange(0, i + 1), fname.deep_view(), imported, us0)
                    == usage_prop(
                    ps@[i as int],
                    fname.deep_view(),
                    imported,
                    usage_props(ps@.subrange(0, i as int), fname.deep_view(), imported, us0),
                ));
            }
            i = i + 1;
        }
        proof {
            assert(ps@.subrange(0, ps@.len() as int) =~= ps@);
        }
    }

    fn visit_prop(&mut self, p: &Prop, fname: &Option<String>)
        ensures
            final(self).imported_identifier_usages.deep_view() == usage_prop(
                *p,
                fname.deep_view(),
                old(self).imported_identifiers.deep_view(),
                old(self).imported_identifier_usages.deep_view(),
            ),
            final(self).imported_identifiers == old(self).imported_identifiers,
        decreases *p, 0int,
    {
        match p {
            Prop::Method { name: _, function } => self.visit_stmts(&function.body, fname),
            Prop::KeyValue { key: _, value } => self.visit_expr(&**value, fname),
            Prop::Other => (),
        }
    }

    fn visit_stmts(&mut self, ss: &Vec<Stmt>, fname: &Option<String>)
        ensures
            final(self).imported_identifier_usages.deep_view() == usage_stmts(
                ss@,
                fname.deep_view(),
                old(self).imported_identifiers.deep_view(),
                old(self).imported_identifier_usages.deep_view(),
            ),
            final(self).imported_identifiers == old(self).imported_identifiers,
        decreases ss@, 0int,
    {
        let ghost imported = self.imported_identifiers.deep_view();
        let ghost us0 = self.imported_identifier_usages.deep_view();
        let mut i: usize = 0;
        while i < ss.len()
            invariant
                i <= ss.len(),
                self.imported_identifier_usages.deep_view() == usage_stmts(
                    ss@.subrange(0, i as int),
                    fname.deep_view(),
                    imported,
                    us0,
                ),
                self.imported_identifiers == old(self).imported_identifiers,
                imported == self.imported_identifiers.deep_view(),
            decreases ss@.len() - i,
        {
            proof {
                assert(ss@.subrange(0, i + 1).drop_last() =~= ss@.subrange(0, i as int));
                assert(ss@.subrange(0, i + 1).last() == ss@[i as int]);
            }
            let ghost us_i = self.imported_identifier_usages.deep_view();
            self.visit_stmt(&ss[i], fname);
            proof {
                assert(self.imported_identifier_usages.deep_view() == usage_stmt(
                    ss@[i as int],
                    fname.deep_view(),
                    imported,
                    us_i,
                ));
                assert(usage_stmts(ss@.subrange(0, i + 1), fname.deep_view(), imported, us0)
                    == usage_stmt(
                    ss@[i as int],
                    fname.deep_view(),
                    imported,
                    usage_stmts(ss@.subrange(0, i as int), fname.deep_view(), imported, us0),
                ));
            }
            i = i + 1;
        }
        proof {
            assert(ss@.subrange(0, ss@.len() as int) =~= ss@);
        }
    }

    fn visit_opt_stmts(&mut self, ss: &Option<Vec<Stmt>>, fname: &Option<String>)
        ensures
            final(self).imported_identifier_usages.deep_view() == usage_opt_stmts(
                *ss,
                fname.deep_view(),
                old(self).imported_identifiers.deep_view(),
                old(self).imported_identifier_usages.deep_view(),
            ),
            final(self).imported_identifiers == old(self).imported_identifiers,
        decreases *ss, 0int,
    {
        match ss {
            Some(b) => self.visit_stmts(b, fname),
            None => (),
        }
    }

    fn visit_opt_box_stmt(&mut self, s: &Option<Box<Stmt>>, fname: &Option<String>)
        ensures
            final(self).imported_identifier_usages.deep_view() == usage_opt_box_stmt(
                *s,
                fname.deep_view(),
                old(self).imported_identifiers.deep_view(),
                old(self).imported_identifier_usages.deep_view(),
            ),
            final(self).imported_identifiers == old(self).imported_identifiers,
        decreases *s, 0int,
    {
        match s {
            Some(b) => self.visit_stmt(&**b, fname),
            None => (),
        }
    }

    fn visit_stmt(&mut self, s: &Stmt, fname: &Option<String>)
        ensures
            final(self).imported_identifier_usages.deep_view() == usage_stmt(
                *s,
                fname.deep_view(),
                old(self).imported_identifiers.deep_view(),
                old(self).imported_identifier_usages.deep_view(),
            ),
            final(self).imported_identifiers == old(self).imported_identifiers,
        decreases *s, 0int,
    {
        match s {
            Stmt::Expr(e) => self.visit_expr(e, fname),
            Stmt::Block(ss) => self.visit_stmts(ss, fname),
            Stmt::If { test, cons, alt } => {
                self.visit_expr(test, fname);
                self.visit_stmt(&**cons, fname);
                self.visit_opt_box_stmt(alt, fname);
            },
            Stmt::Throw { span: _ } => (),
            Stmt::Try(t) => {
                self.visit_stmts(&t.block, fname);
                self.visit_opt_stmts(&t.handler, fname);
                self.visit_opt_stmts(&t.finalizer, fname);
            },
            Stmt::Decl(d) => self.visit_decl(d, fname),
            Stmt::Other { exprs, stmts } => {
                self.visit_exprs(exprs, fname);
                self.visit_stmts(stmts, fname);
            },
        }
    }

    fn visit_exprs(&mut self, es: &Vec<Expr>, fname: &Option<String>)
        ensures
            final(self).imported_identifier_usages.deep_view() == usage_exprs(
                es@,
                fname.deep_view(),
                old(self).imported_identifiers.deep_view(),
                old(self).imported_identifier_usages.deep_view(),
            ),
            final(self).imported_identifiers == old(self).imported_identifiers,
        decreases es@, 0int,
    {
        let ghost imported = self.imported_identifiers.deep_view();
        let ghost us0 = self.imported_identifier_usages.deep_view();
        let mut i: usize = 0;
        while i < es.len()
            invariant
                i <= es.len(),
                self.imported_identifier_usages.deep_view() == usage_exprs(
                    es@.subrange(0, i as int),
                    fname.deep_view(),
                    imported,
                    us0,
                ),
                self.imported_identifiers == old(self).imported_identifiers,
                imported == self.imported_identifiers.deep_view(),
            decreases es@.len() - i,
        {
            proof {
                assert(es@.subrange(0, i + 1).drop_last() =~= es@.subrange(0, i as int));
                assert(es@.subrange(0, i + 1).last() == es@[i as int]);
            }
            let ghost us_i = self.imported_identifier_usages.deep_view();
            self.visit_expr(&es[i], fname);
            proof {
                assert(self.imported_identifier_usages.deep_view() == usage_expr(
                    es@[i as int],
                    fname.deep_view(),
                    imported,
                    us_i,
                ));
                assert(usage_exprs(es@.subrange(0, i + 1), fname.deep_view(), imported, us0)
                    == usage_expr(
                    es@[i as int],
                    fname.deep_view(),
                    imported,
                    usage_exprs(es@.subrange(0, i as int), fname.deep_view(), imported, us0),
                ));
            }
            i = i + 1;
        }
        proof {
            assert(es@.subrange(0, es@.len() as int) =~= es@);
        }
    }

    fn visit_expr(&mut self, e: &Expr, fname: &Option<String>)
        ensures
            final(self).imported_identifier_usages.deep_view() == usage_expr(
                *e,
                fname.deep_view(),
                old(self).imported_identifiers.deep_view(),
                old(self).imported_identifier_usages.deep_view(),
            ),
            final(self).imported_identifiers == old(self).imported_identifiers,
        decreases *e, 0int,
    {
        match e {
            Expr::Ident(_) => (),
            Expr::This => (),
            Expr::Call(c) => self.visit_call(c, fname),
            Expr::Member(m) => self.visit_expr(&*m.obj, fname),
            Expr::Fn(f) => self.visit_stmts(&f.function.body, fname),
            Expr::Arrow(a) => self.visit_arrow_body(&a.body, fname),
            Expr::Object(o) => self.visit_props(&o.props, fname),
            Expr::New(n) => {
                self.visit_expr(&*n.callee, fname);
                self.visit_exprs(&n.args, fname);
            },
            Expr::Paren(inner) => self.visit_expr(&**inner, fname),
            Expr::Await(inner) => self.visit_expr(&**inner, fname),
            Expr::Bin { left, right } => {
                self.visit_expr(&**left, fname);
                self.visit_expr(&**right, fname);
            },
            Expr::OptChain(inner) => self.visit_expr(&**inner, fname),
            Expr::Assign(a) => self.visit_expr(&*a.right, fname),
            Expr::Other { exprs } => self.visit_exprs(exprs, fname),
        }
    }

    fn visit_arrow_body(&mut self, b: &ArrowBody, fname: &Option<String>)
        ensures
            final(self).imported_identifier_usages.deep_view() == usage_arrow_body(
                *b,
                fname.deep_view(),
                old(self).imported_identifiers.deep_view(),
                old(self).imported_identifier_usages.deep_view(),
            ),
            final(self).imported_identifiers == old(self).imported_identifiers,
        decreases *b, 0int,
    {
        match b {
            ArrowBody::Block(ss) => self.visit_stmts(ss, fname),
            ArrowBody::Expr(e) => self.visit_expr(&**e, fname),
        }
    }

    fn visit_call(&mut self, c: &crate::ast::CallExpr, fname: &Option<String>)
        ensures
            final(self).imported_identifier_usages.deep_view() == usage_call(
                *c,
                fname.deep_view(),
                old(self).imported_identifiers.deep_view(),
                old(self).imported_identifier_usages.deep_view(),
            ),
            final(self).imported_identifiers == old(self).imported_identifiers,
        decreases *c, 0int,
    {
        match &c.callee {
            Callee::Expr(ce) => match &**ce {
                Expr::Member(m) => match &m.prop {
                    Some(p) => {
                        self.visit_expr(&*m.obj, fname);
                        self.member_step(c.span, &*m.obj, p);
                        self.visit_call_args(&c.args, fname, p);
                    },
                    None => {
                        self.visit_expr(&*m.obj, fname);
                        self.visit_exprs(&c.args, fname);
                    },
                },
                Expr::Ident(name) => {
                    self.direct_step(c.span, name, fname);
                    self.visit_call_args(&c.args, fname, name);
                },
                _ => {
                    self.visit_expr(&**ce, fname);
                    self.visit_exprs(&c.args, fname);
                },
            },
            Callee::Other => self.visit_exprs(&c.args, fname),
        }
    }

    fn visit_call_args(&mut self, args: &Vec<Expr>, fname: &Option<String>, argname: &String)
        ensures
            final(self).imported_identifier_usages.deep_view() == usage_call_args(
                args@,
                fname.deep_view(),
                argname@,
                old(self).imported_identifiers.deep_view(),
                old(self).imported_identifier_usages.deep_view(),
            ),
            final(self).imported_identifiers == old(self).imported_identifiers,
        decreases args@, 0int,
    {
        let ghost imported = self.imported_identifiers.deep_view();
        let ghost us0 = self.imported_identifier_usages.deep_view();
        let mut i: usize = 0;
        while i < args.len()
            invariant
                i <= args.len(),
                self.imported_identifier_usages.deep_view() == usage_call_args(
                    args@.subrange(0, i as int),
                    fname.deep_view(),
                    argname@,
                    imported,
                    us0,
                ),
                self.imported_identifiers == old(self).imported_identifiers,
                imported == self.imported_identifiers.deep_view(),
            decreases args@.len() - i,
        {
            proof {
                assert(args@.subrange(0, i + 1).drop_last() =~= args@.subrange(0, i as int));
                assert(args@.subrange(0, i + 1).last() == args@[i as int]);
            }
            let ghost us_i = self.imported_identifier_usages.deep_view();
            self.visit_call_arg(&args[i], fname, argname);
            proof {
                assert(self.imported_identifier_usages.deep_view() == usage_call_arg(
                    args@[i as int],
                    fname.deep_view(),
                    argname@,
                    imported,
                    us_i,
                ));
                assert(usage_call_args(args@.subrange(0, i + 1), fname.deep_view(), argname@, imported, us0)
                    == usage_call_arg(
                    args@[i as int],
                    fname.deep_view(),
                    argname@,
                    imported,
                    usage_call_args(args@.subrange(0, i as int), fname.deep_view(), argname@, imported, us0),
                ));
            }
            i = i + 1;
        }
        proof {
            assert(args@.subrange(0, args@.len() as int) =~= args@);
        }
    }

    fn visit_call_arg(&mut self, a: &Expr, fname: &Option<String>, argname: &String)
        ensures
            final(self).imported_identifier_usages.deep_view() == usage_call_arg(
                *a,
                fname.deep_view(),
                argname@,
                old(self).imported_identifiers.deep_view(),
                old(self).imported_identifier_usages.deep_view(),
            ),
            final(self).imported_identifiers == old(self).imported_identifiers,
        decreases *a, 1int,
    {
        match a {
            Expr::Fn(f) => {
                let new_fname = Some(argname.clone());
                self.visit_stmts(&f.function.body, &new_fname);
            },
            Expr::Arrow(ar) => {
                let new_fname = Some(argname.clone());
                self.visit_arrow_body(&ar.body, &new_fname);
            },
            _ => self.visit_expr(a, fname),
        }
    }
}

} // verus!
