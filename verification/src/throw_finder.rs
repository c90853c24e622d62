//! The throw-span collector of pass 1.
//!
//! [`ThrowFinder`] collects the spans of the throw statements inside one
//! function-like unit, honouring the try/catch policy. The spec functions
//! `throws_in_*` are its mathematical definition: the throw spans of a
//! subtree in source order, crossing into nested function-like units, with a
//! throw inside a `try` block suppressed when the policy says so and the
//! matching `catch` does not itself throw.

use crate::ast::{ArrowBody, Callee, ClassMember, Decl, Expr, Prop, Stmt, VarDeclarator};
use crate::span::Span;
use vstd::prelude::*;

verus! {

/// Throw spans of a statement sequence, in order; defined from the right so
/// that loops over a sequence step directly along this definition.
pub open spec fn throws_in_stmts(ss: Seq<Stmt>, inc: bool) -> Seq<Span>
    decreases ss,
{
    if ss.len() == 0 {
        Seq::empty()
    } else {
        throws_in_stmts(ss.drop_last(), inc) + throws_in_stmt(ss.last(), inc)
    }
}

/// Throw spans of an optional catch/finally block.
pub open spec fn throws_in_opt_stmts(ss: Option<Vec<Stmt>>, inc: bool) -> Seq<Span>
    decreases ss,
{
    match ss {
        Some(b) => throws_in_stmts(b@, inc),
        None => Seq::empty(),
    }
}

/// Throw spans of one statement. For a `try` statement with `inc == false`,
/// the throws of the `try` block count only when there is no catch handler or
/// the handler itself throws; throws in the handler and finalizer always
/// count.
pub open spec fn throws_in_stmt(s: Stmt, inc: bool) -> Seq<Span>
    decreases s,
{
    match s {
        Stmt::Expr(e) => throws_in_expr(e, inc),
        Stmt::Block(ss) => throws_in_stmts(ss@, inc),
        Stmt::If { test, cons, alt } => throws_in_expr(test, inc) + throws_in_stmt(*cons, inc)
            + match alt {
            Some(a) => throws_in_stmt(*a, inc),
            None => Seq::empty(),
        },
        Stmt::Throw { span } => seq![span],
        Stmt::Try(t) => {
            let caught = throws_in_stmts(t.block@, inc);
            let in_handler = throws_in_opt_stmts(t.handler, inc);
            let in_finalizer = throws_in_opt_stmts(t.finalizer, inc);
            if inc {
                caught + in_handler + in_finalizer
            } else {
                (if t.handler is Some && in_handler.len() == 0 {
                    Seq::empty()
                } else {
                    caught
                }) + in_handler + in_finalizer
            }
        },
        Stmt::Decl(d) => throws_in_decl(d, inc),
        Stmt::Other { exprs, stmts } => throws_in_exprs(exprs@, inc) + throws_in_stmts(stmts@, inc),
    }
}

/// Throw spans of a declaration, including those inside nested bodies.
pub open spec fn throws_in_decl(d: Decl, inc: bool) -> Seq<Span>
    decreases d,
{
    match d {
        Decl::Fn(fd) => throws_in_stmts(fd.function.body@, inc),
        Decl::Class(cd) => throws_in_members(cd.members@, inc),
        Decl::Var(ds) => throws_in_var_decls(ds@, inc),
    }
}

pub open spec fn throws_in_members(ms: Seq<ClassMember>, inc: bool) -> Seq<Span>
    decreases ms,
{
    if ms.len() == 0 {
        Seq::empty()
    } else {
        throws_in_members(ms.drop_last(), inc) + throws_in_member(ms.last(), inc)
    }
}

pub open spec fn throws_in_member(m: ClassMember, inc: bool) -> Seq<Span>
    decreases m,
{
    match m {
        ClassMember::Method(cm) => throws_in_stmts(cm.function.body@, inc),
        ClassMember::Ctor(c) => throws_in_stmts(c.body@, inc),
        ClassMember::Other => Seq::empty(),
    }
}

pub open spec fn throws_in_var_decls(ds: Seq<VarDeclarator>, inc: bool) -> Seq<Span>
    decreases ds,
{
    if ds.len() == 0 {
        Seq::empty()
    } else {
        throws_in_var_decls(ds.drop_last(), inc) + throws_in_var_decl(ds.last(), inc)
    }
}

pub open spec fn throws_in_var_decl(v: VarDeclarator, inc: bool) -> Seq<Span>
    decreases v,
{
    match v.init {
        Some(e) => throws_in_expr(*e, inc),
        None => Seq::empty(),
    }
}

pub open spec fn throws_in_exprs(es: Seq<Expr>, inc: bool) -> Seq<Span>
    decreases es,
{
    if es.len() == 0 {
        Seq::empty()
    } else {
        throws_in_exprs(es.drop_last(), inc) + throws_in_expr(es.last(), inc)
    }
}

pub open spec fn throws_in_expr(e: Expr, inc: bool) -> Seq<Span>
    decreases e,
{
    match e {
        Expr::Ident(_) => Seq::empty(),
        Expr::This => Seq::empty(),
        Expr::Call(c) => throws_in_callee(c.callee, inc) + throws_in_exprs(c.args@, inc),
        Expr::Member(m) => throws_in_expr(*m.obj, inc),
        Expr::Fn(f) => throws_in_stmts(f.function.body@, inc),
        Expr::Arrow(a) => throws_in_arrow_body(a.body, inc),
        Expr::Object(o) => throws_in_props(o.props@, inc),
        Expr::New(n) => throws_in_expr(*n.callee, inc) + throws_in_exprs(n.args@, inc),
        Expr::Paren(inner) => throws_in_expr(*inner, inc),
        Expr::Await(inner) => throws_in_expr(*inner, inc),
        Expr::Bin { left, right } => throws_in_expr(*left, inc) + throws_in_expr(*right, inc),
        Expr::OptChain(inner) => throws_in_expr(*inner, inc),
        Expr::Assign(a) => throws_in_expr(*a.right, inc),
        Expr::Other { exprs } => throws_in_exprs(exprs@, inc),
    }
}

pub open spec fn throws_in_arrow_body(b: ArrowBody, inc: bool) -> Seq<Span>
    decreases b,
{
    match b {
        ArrowBody::Block(ss) => throws_in_stmts(ss@, inc),
        ArrowBody::Expr(e) => throws_in_expr(*e, inc),
    }
}

pub open spec fn throws_in_callee(c: Callee, inc: bool) -> Seq<Span>
    decreases c,
{
    match c {
        Callee::Expr(e) => throws_in_expr(*e, inc),
        Callee::Other => Seq::empty(),
    }
}

pub open spec fn throws_in_props(ps: Seq<Prop>, inc: bool) -> Seq<Span>
    decreases ps,
{
    if ps.len() == 0 {
        Seq::empty()
    } else {
        throws_in_props(ps.drop_last(), inc) + throws_in_prop(ps.last(), inc)
    }
}

pub open spec fn throws_in_prop(p: Prop, inc: bool) -> Seq<Span>
    decreases p,
{
    match p {
        Prop::Method { name, function } => throws_in_stmts(function.body@, inc),
        Prop::KeyValue { key, value } => throws_in_expr(*value, inc),
        Prop::Other => Seq::empty(),
    }
}

pub fn collect_stmts(ss: &Vec<Stmt>, inc: bool, out: &mut Vec<Span>)
    ensures
        final(out)@ == old(out)@ + throws_in_stmts(ss@, inc),
    decreases ss@,
{
    let ghost pre = out@;
    let mut i: usize = 0;
    while i < ss.len()
        invariant
            i <= ss.len(),
            out@ == pre + throws_in_stmts(ss@.subrange(0, i as int), inc),
        decreases ss@.len() - i,
    {
        proof {
            assert(ss@.subrange(0, i + 1).drop_last() =~= ss@.subrange(0, i as int));
            assert(ss@.subrange(0, i + 1).last() == ss@[i as int]);
        }
        collect_stmt(&ss[i], inc, out);
        i = i + 1;
        proof {
            assert(out@ =~= pre + throws_in_stmts(ss@.subrange(0, i as int), inc));
        }
    }
    proof {
        assert(ss@.subrange(0, ss@.len() as int) =~= ss@);
        assert(pre + throws_in_stmts(Seq::empty(), inc) =~= pre);
    }
}

fn collect_opt_stmts(ss: &Option<Vec<Stmt>>, inc: bool, out: &mut Vec<Span>)
    ensures
        final(out)@ == old(out)@ + throws_in_opt_stmts(*ss, inc),
    decreases *ss,
{
    let ghost pre = out@;
    match ss {
        Some(b) => collect_stmts(b, inc, out),
        None => {
            proof {
                assert(out@ =~= pre + throws_in_opt_stmts(*ss, inc));
            }
        },
    }
}

pub fn collect_stmt(s: &Stmt, inc: bool, out: &mut Vec<Span>)
    ensures
        final(out)@ == old(out)@ + throws_in_stmt(*s, inc),
    decreases *s,
{
    let ghost pre = out@;
    match s {
        Stmt::Expr(e) => collect_expr(e, inc, out),
        Stmt::Block(ss) => collect_stmts(ss, inc, out),
        Stmt::If { test, cons, alt } => {
            collect_expr(test, inc, out);
            collect_stmt(&**cons, inc, out);
            match alt {
                Some(a) => collect_stmt(&**a, inc, out),
                None => (),
            }
            proof {
                assert(out@ =~= pre + throws_in_stmt(*s, inc));
            }
        },
        Stmt::Throw { span } => {
            out.push(*span);
            proof {
                assert(out@ =~= pre + throws_in_stmt(*s, inc));
            }
        },
        Stmt::Try(t) => {
            let mut caught: Vec<Span> = Vec::new();
            collect_stmts(&t.block, inc, &mut caught);
            let mut in_handler: Vec<Span> = Vec::new();
            collect_opt_stmts(&t.handler, inc, &mut in_handler);
            if inc || !(t.handler.is_some() && in_handler.len() == 0) {
                out.append(&mut caught);
            }
            out.append(&mut in_handler);
            collect_opt_stmts(&t.finalizer, inc, out);
            proof {
                assert(out@ =~= pre + throws_in_stmt(*s, inc));
            }
        },
        Stmt::Decl(d) => collect_decl(d, inc, out),
        Stmt::Other { exprs, stmts } => {
            collect_exprs(exprs, inc, out);
            collect_stmts(stmts, inc, out);
            proof {
                assert(out@ =~= pre + throws_in_stmt(*s, inc));
            }
        },
    }
}

fn collect_decl(d: &Decl, inc: bool, out: &mut Vec<Span>)
    ensures
        final(out)@ == old(out)@ + throws_in_decl(*d, inc),
    decreases *d,
{
    match d {
        Decl::Fn(fd) => collect_stmts(&fd.function.body, inc, out),
        Decl::Class(cd) => collect_members(&cd.members, inc, out),
        Decl::Var(ds) => collect_var_decls(ds, inc, out),
    }
}

fn collect_members(ms: &Vec<ClassMember>, inc: bool, out: &mut Vec<Span>)
    ensures
        final(out)@ == old(out)@ + throws_in_members(ms@, inc),
    decreases ms@,
{
    let ghost pre = out@;
    let mut i: usize = 0;
    while i < ms.len()
        invariant
            i <= ms.len(),
            out@ == pre + throws_in_members(ms@.subrange(0, i as int), inc),
        decreases ms@.len() - i,
    {
        proof {
            assert(ms@.subrange(0, i + 1).drop_last() =~= ms@.subrange(0, i as int));
            assert(ms@.subrange(0, i + 1).last() == ms@[i as int]);
        }
        collect_member(&ms[i], inc, out);
        i = i + 1;
        proof {
            assert(out@ =~= pre + throws_in_members(ms@.subrange(0, i as int), inc));
        }
    }
    proof {
        assert(ms@.subrange(0, ms@.len() as int) =~= ms@);
        assert(pre + throws_in_members(Seq::empty(), inc) =~= pre);
    }
}

fn collect_member(m: &ClassMember, inc: bool, out: &mut Vec<Span>)
    ensures
        final(out)@ == old(out)@ + throws_in_member(*m, inc),
    decreases *m,
{
    let ghost pre = out@;
    match m {
        ClassMember::Method(cm) => collect_stmts(&cm.function.body, inc, out),
        ClassMember::Ctor(c) => collect_stmts(&c.body, inc, out),
        ClassMember::Other => {
            proof {
                assert(out@ =~= pre + throws_in_member(*m, inc));
            }
        },
    }
}

fn collect_var_decls(ds: &Vec<VarDeclarator>, inc: bool, out: &mut Vec<Span>)
    ensures
        final(out)@ == old(out)@ + throws_in_var_decls(ds@, inc),
    decreases ds@,
{
    let ghost pre = out@;
    let mut i: usize = 0;
    while i < ds.len()
        invariant
            i <= ds.len(),
            out@ == pre + throws_in_var_decls(ds@.subrange(0, i as int), inc),
        decreases ds@.len() - i,
    {
        proof {
            assert(ds@.subrange(0, i + 1).drop_last() =~= ds@.subrange(0, i as int));
            assert(ds@.subrange(0, i + 1).last() == ds@[i as int]);
        }
        collect_var_decl(&ds[i], inc, out);
        i = i + 1;
        proof {
            assert(out@ =~= pre + throws_in_var_decls(ds@.subrange(0, i as int), inc));
        }
    }
    proof {
        assert(ds@.subrange(0, ds@.len() as int) =~= ds@);
        assert(pre + throws_in_var_decls(Seq::empty(), inc) =~= pre);
    }
}

fn collect_var_decl(v: &VarDeclarator, inc: bool, out: &mut Vec<Span>)
    ensures
        final(out)@ == old(out)@ + throws_in_var_decl(*v, inc),
    decreases *v,
{
    let ghost pre = out@;
    match &v.init {
        Some(e) => collect_expr(&**e, inc, out),
        None => {
            proof {
                assert(out@ =~= pre + throws_in_var_decl(*v, inc));
            }
        },
    }
}

fn collect_exprs(es: &Vec<Expr>, inc: bool, out: &mut Vec<Span>)
    ensures
        final(out)@ == old(out)@ + throws_in_exprs(es@, inc),
    decreases es@,
{
    let ghost pre = out@;
    let mut i: usize = 0;
    while i < es.len()
        invariant
            i <= es.len(),
            out@ == pre + throws_in_exprs(es@.subrange(0, i as int), inc),
        decreases es@.len() - i,
    {
        proof {
            assert(es@.subrange(0, i + 1).drop_last() =~= es@.subrange(0, i as int));
            assert(es@.subrange(0, i + 1).last() == es@[i as int]);
        }
        collect_expr(&es[i], inc, out);
        i = i + 1;
        proof {
            assert(out@ =~= pre + throws_in_exprs(es@.subrange(0, i as int), inc));
        }
    }
    proof {
        assert(es@.subrange(0, es@.len() as int) =~= es@);
        assert(pre + throws_in_exprs(Seq::empty(), inc) =~= pre);
    }
}

fn collect_props(ps: &Vec<Prop>, inc: bool, out: &mut Vec<Span>)
    ensures
        final(out)@ == old(out)@ + throws_in_props(ps@, inc),
    decreases ps@,
{
    let ghost pre = out@;
    let mut i: usize = 0;
    while i < ps.len()
        invariant
            i <= ps.len(),
            out@ == pre + throws_in_props(ps@.subrange(0, i as int), inc),
        decreases ps@.len() - i,
    {
        proof {
            assert(ps@.subrange(0, i + 1).drop_last() =~= ps@.subrange(0, i as int));
            assert(ps@.subrange(0, i + 1).last() == ps@[i as int]);
        }
        collect_prop(&ps[i], inc, out);
        i = i + 1;
        proof {
            assert(out@ =~= pre + throws_in_props(ps@.subrange(0, i as int), inc));
        }
    }
    proof {
        assert(ps@.subrange(0, ps@.len() as int) =~= ps@);
        assert(pre + throws_in_props(Seq::empty(), inc) =~= pre);
    }
}

fn collect_prop(p: &Prop, inc: bool, out: &mut Vec<Span>)
    ensures
        final(out)@ == old(out)@ + throws_in_prop(*p, inc),
    decreases *p,
{
    let ghost pre = out@;
    match p {
        Prop::Method { name: _, function } => collect_stmts(&function.body, inc, out),
        Prop::KeyValue { key: _, value } => collect_expr(&**value, inc, out),
        Prop::Other => {
            proof {
                assert(out@ =~= pre + throws_in_prop(*p, inc));
            }
        },
    }
}

fn collect_arrow_body(b: &ArrowBody, inc: bool, out: &mut Vec<Span>)
    ensures
        final(out)@ == old(out)@ + throws_in_arrow_body(*b, inc),
    decreases *b,
{
    match b {
        ArrowBody::Block(ss) => collect_stmts(ss, inc, out),
        ArrowBody::Expr(inner) => collect_expr(&**inner, inc, out),
    }
}

fn collect_callee(c: &Callee, inc: bool, out: &mut Vec<Span>)
    ensures
        final(out)@ == old(out)@ + throws_in_callee(*c, inc),
    decreases *c,
{
    let ghost pre = out@;
    match c {
        Callee::Expr(inner) => collect_expr(&**inner, inc, out),
        Callee::Other => {
            proof {
                assert(out@ =~= pre + throws_in_callee(*c, inc));
            }
        },
    }
}

pub fn collect_expr(e: &Expr, inc: bool, out: &mut Vec<Span>)
    ensures
        final(out)@ == old(out)@ + throws_in_expr(*e, inc),
    decreases *e,
{
    let ghost pre = out@;
    match e {
        Expr::Ident(_) => {
            proof {
                assert(out@ =~= pre + throws_in_expr(*e, inc));
            }
        },
        Expr::This => {
            proof {
                assert(out@ =~= pre + throws_in_expr(*e, inc));
            }
        },
        Expr::Call(c) => {
            collect_callee(&c.callee, inc, out);
            collect_exprs(&c.args, inc, out);
            proof {
                assert(out@ =~= pre + throws_in_expr(*e, inc));
            }
        },
        Expr::Member(m) => collect_expr(&*m.obj, inc, out),
        Expr::Fn(f) => collect_stmts(&f.function.body, inc, out),
        Expr::Arrow(a) => collect_arrow_body(&a.body, inc, out),
        Expr::Object(o) => collect_props(&o.props, inc, out),
        Expr::New(n) => {
            collect_expr(&*n.callee, inc, out);
            collect_exprs(&n.args, inc, out);
            proof {
                assert(out@ =~= pre + throws_in_expr(*e, inc));
            }
        },
        Expr::Paren(inner) => collect_expr(&**inner, inc, out),
        Expr::Await(inner) => collect_expr(&**inner, inc, out),
        Expr::Bin { left, right } => {
            collect_expr(&**left, inc, out);
            collect_expr(&**right, inc, out);
            proof {
                assert(out@ =~= pre + throws_in_expr(*e, inc));
            }
        },
        Expr::OptChain(inner) => collect_expr(&**inner, inc, out),
        Expr::Assign(a) => collect_expr(&*a.right, inc, out),
        Expr::Other { exprs } => collect_exprs(exprs, inc, out),
    }
}

/// Collects throw-statement spans inside one subtree: the narrow inner walk
/// that pass 1 runs once per function-like unit.
pub struct ThrowFinder {
    pub throw_spans: Vec<Span>,
    pub include_try_statement: bool,
}

impl ThrowFinder {
    pub fn new(include_try_statement: bool) -> (r: ThrowFinder)
        ensures
            r.throw_spans@ == Seq::<Span>::empty(),
            r.include_try_statement == include_try_statement,
    {
        ThrowFinder { throw_spans: Vec::new(), include_try_statement }
    }

    /// Walks the body of one function-like unit and records every throw span
    /// the policy counts.
    pub fn visit_stmts(&mut self, ss: &Vec<Stmt>)
        ensures
            final(self).throw_spans@ == old(self).throw_spans@ + throws_in_stmts(
                ss@,
                old(self).include_try_statement,
            ),
            final(self).include_try_statement == old(self).include_try_statement,
    {
        let inc = self.include_try_statement;
        collect_stmts(ss, inc, &mut self.throw_spans);
    }
}

/// The mathematical content of a [`ThrowMap`].
pub ghost struct ThrowMapV {
    pub throw_spans: Seq<Span>,
    pub throw_statement: Span,
    pub function_or_method_name: Seq<char>,
    pub class_name: Option<Seq<char>>,
    pub id: Seq<char>,
}

/// One function-like unit that may throw: the spans of its throw statements,
/// the span of the whole unit (`throw_statement`, which identifies the
/// record), its name, its class context, and the qualified ID.
pub struct ThrowMap {
    pub throw_spans: Vec<Span>,
    pub throw_statement: Span,
    pub function_or_method_name: String,
    pub class_name: Option<String>,
    pub id: String,
}

impl View for ThrowMap {
    type V = ThrowMapV;

    open spec fn view(&self) -> ThrowMapV {
        ThrowMapV {
            throw_spans: self.throw_spans@,
            throw_statement: self.throw_statement,
            function_or_method_name: self.function_or_method_name@,
            class_name: self.class_name.deep_view(),
            id: self.id@,
        }
    }
}

impl DeepView for ThrowMap {
    type V = ThrowMapV;

    open spec fn deep_view(&self) -> ThrowMapV {
        self.view()
    }
}

impl Clone for ThrowMap {
    fn clone(&self) -> (r: Self)
        ensures
            r@ == self@,
    {
        let r = ThrowMap {
            throw_spans: self.throw_spans.clone(),
            throw_statement: self.throw_statement,
            function_or_method_name: self.function_or_method_name.clone(),
            class_name: crate::text::clone_opt_string(&self.class_name),
            id: self.id.clone(),
        };
        proof {
            assert(r@ == self@);
        }
        r
    }
}

/// The mathematical content of an [`IdentifierUsage`].
pub ghost struct IdentifierUsageV {
    pub usage_span: Span,
    pub identifier_name: Seq<char>,
    pub usage_context: Seq<char>,
    pub id: Seq<char>,
}

/// One call into an imported symbol: where it happened, which imported name
/// it went through, the name of the enclosing function, and the qualified ID.
pub struct IdentifierUsage {
    pub usage_span: Span,
    pub identifier_name: String,
    pub usage_context: String,
    pub id: String,
}

impl View for IdentifierUsage {
    type V = IdentifierUsageV;

    open spec fn view(&self) -> IdentifierUsageV {
        IdentifierUsageV {
            usage_span: self.usage_span,
            identifier_name: self.identifier_name@,
            usage_context: self.usage_context@,
            id: self.id@,
        }
    }
}

impl DeepView for IdentifierUsage {
    type V = IdentifierUsageV;

    open spec fn deep_view(&self) -> IdentifierUsageV {
        self.view()
    }
}

impl Clone for IdentifierUsage {
    fn clone(&self) -> (r: Self)
        ensures
            r@ == self@,
    {
        IdentifierUsage {
            usage_span: self.usage_span,
            identifier_name: self.identifier_name.clone(),
            usage_context: self.usage_context.clone(),
            id: self.id.clone(),
        }
    }
}

impl IdentifierUsage {
    pub fn new(usage_span: Span, identifier_name: String, usage_context: String, id: String) -> (r:
        Self)
        ensures
            r@ == (IdentifierUsageV {
                usage_span,
                identifier_name: identifier_name@,
                usage_context: usage_context@,
                id: id@,
            }),
    {
        Self { usage_span, identifier_name, usage_context, id }
    }
}

} // verus!
