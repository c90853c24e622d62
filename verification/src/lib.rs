//! A heuristic throw-propagation analysis for JavaScript/TypeScript modules.
//!
//! The library works on its own syntax-tree model (see [`ast`]): a host parses
//! source text, converts the parse tree into this model, and hands it to
//! [`analyze_code`]. Three passes run in sequence over the same immutable tree:
//! throw detection, call-site resolution, and import-usage resolution; their
//! outputs are merged into an [`AnalysisResult`].

use vstd::prelude::*;

pub mod ast;
pub mod call_finder;
pub mod diagnostics;
pub mod import_usage_finder;
pub mod laws;
pub mod span;
pub mod text;
pub mod throw_analyzer;
pub mod throw_finder;

use crate::ast::Module;
use crate::call_finder::{resolve_module, CallFinder, CallState, CallToThrowMap, CallToThrowMapV};
use crate::import_usage_finder::{usage_module, ImportUsageFinder};
use crate::throw_analyzer::{scan_module, state_of, ThrowAnalyzer, ThrowState};
use crate::throw_finder::{IdentifierUsage, IdentifierUsageV, ThrowMap, ThrowMapV};

verus! {

/// The mathematical content of [`UserSettings`].
pub ghost struct SettingsV {
    pub include_try_statement_throws: bool,
    pub ignore_statements: Seq<Seq<char>>,
}

/// The options a host hands to one analysis call.
pub struct UserSettings {
    /// When true, every throw counts regardless of try/catch nesting; when
    /// false, a throw caught by a catch block that does not itself throw is
    /// not counted.
    pub include_try_statement_throws: bool,
    /// Literal substrings: a function-like unit whose leading comments
    /// contain any of them is excluded from the results.
    pub ignore_statements: Vec<String>,
}

impl View for UserSettings {
    type V = SettingsV;

    open spec fn view(&self) -> SettingsV {
        SettingsV {
            include_try_statement_throws: self.include_try_statement_throws,
            ignore_statements: self.ignore_statements.deep_view(),
        }
    }
}

/// The mathematical content of an [`AnalysisResult`].
pub ghost struct AnalysisResultV {
    pub functions_with_throws: Seq<ThrowMapV>,
    pub calls_to_throws: Seq<CallToThrowMapV>,
    pub import_sources: Seq<Seq<char>>,
    pub imported_identifiers: Seq<Seq<char>>,
    pub imported_identifier_usages: Seq<IdentifierUsageV>,
}

/// The merged outputs of the three passes over one module.
pub struct AnalysisResult {
    pub functions_with_throws: Vec<ThrowMap>,
    pub calls_to_throws: Vec<CallToThrowMap>,
    pub import_sources: Vec<String>,
    pub imported_identifiers: Vec<String>,
    pub imported_identifier_usages: Vec<IdentifierUsage>,
}

impl View for AnalysisResult {
    type V = AnalysisResultV;

    open spec fn view(&self) -> AnalysisResultV {
        AnalysisResultV {
            functions_with_throws: self.functions_with_throws.deep_view(),
            calls_to_throws: self.calls_to_throws.deep_view(),
            import_sources: self.import_sources.deep_view(),
            imported_identifiers: self.imported_identifiers.deep_view(),
            imported_identifier_usages: self.imported_identifier_usages.deep_view(),
        }
    }
}

/// The empty pass-1 state.
pub open spec fn empty_throw_state() -> ThrowState {
    ThrowState {
        throws: Seq::empty(),
        import_sources: Seq::empty(),
        imported_identifiers: Seq::empty(),
    }
}

/// The empty pass-2 state.
pub open spec fn empty_call_state() -> CallState {
    CallState { calls: Seq::empty(), instantiations: Seq::empty() }
}

/// What one analysis call returns: pass 1 runs on the empty state, pass 2
/// consumes its throw records, pass 3 consumes its imported identifiers, and
/// the aggregate collects all five output collections.
pub open spec fn analysis_spec(m: Module, set: SettingsV) -> AnalysisResultV {
    let st1 = scan_module(m, set, empty_throw_state());
    AnalysisResultV {
        functions_with_throws: st1.throws,
        calls_to_throws: resolve_module(m, st1.throws, empty_call_state()).calls,
        import_sources: st1.import_sources,
        imported_identifiers: st1.imported_identifiers,
        imported_identifier_usages: usage_module(m, st1.imported_identifiers, Seq::empty()),
    }
}

/// A deep copy of a throw-record list.
fn clone_throw_maps(v: &Vec<ThrowMap>) -> (r: Vec<ThrowMap>)
    ensures
        r.deep_view() == v.deep_view(),
{
    let mut r: Vec<ThrowMap> = Vec::new();
    let mut i: usize = 0;
    while i < v.len()
        invariant
            i <= v.len(),
            r.deep_view() =~= v.deep_view().subrange(0, i as int),
        decreases v.len() - i,
    {
        let ghost before = r.deep_view();
        r.push(v[i].clone());
        proof {
            assert(r.deep_view() =~= before.push(v@[i as int]@));
            assert(r.deep_view() =~= v.deep_view().subrange(0, i + 1));
        }
        i = i + 1;
    }
    proof {
        assert(v.deep_view().subrange(0, v.deep_view().len() as int) =~= v.deep_view());
    }
    r
}

/// A deep copy of a string list.
fn clone_strings(v: &Vec<String>) -> (r: Vec<String>)
    ensures
        r.deep_view() == v.deep_view(),
{
    let mut r: Vec<String> = Vec::new();
    let mut i: usize = 0;
    while i < v.len()
        invariant
            i <= v.len(),
            r.deep_view() =~= v.deep_view().subrange(0, i as int),
        decreases v.len() - i,
    {
        let ghost before = r.deep_view();
        r.push(v[i].clone());
        proof {
            assert(r.deep_view() =~= before.push(v@[i as int]@));
            assert(r.deep_view() =~= v.deep_view().subrange(0, i + 1));
        }
        i = i + 1;
    }
    proof {
        assert(v.deep_view().subrange(0, v.deep_view().len() as int) =~= v.deep_view());
    }
    r
}

/// Runs the three passes in sequence over one parsed module and merges their
/// outputs. The whole result is pinned down by [`analysis_spec`] as a
/// function of the tree and the settings alone.
pub fn analyze_code(module: &Module, user_settings: &UserSettings) -> (r: AnalysisResult)
    ensures
        r@ == analysis_spec(*module, user_settings@),
{
    let mut throw_collector = ThrowAnalyzer::new(user_settings);
    throw_collector.visit_module(module);
    proof {
        assert(state_of(throw_collector) == scan_module(
            *module,
            user_settings@,
            empty_throw_state(),
        ));
    }
    let mut call_collector = CallFinder::new(clone_throw_maps(
        &throw_collector.functions_with_throws,
    ));
    call_collector.visit_module(module);
    let mut import_usages_collector = ImportUsageFinder::new(clone_strings(
        &throw_collector.imported_identifiers,
    ));
    import_usages_collector.visit_module(module);
    let r = AnalysisResult {
        functions_with_throws: throw_collector.functions_with_throws,
        calls_to_throws: call_collector.calls,
        import_sources: throw_collector.import_sources,
        imported_identifiers: throw_collector.imported_identifiers,
        imported_identifier_usages: import_usages_collector.imported_identifier_usages,
    };
    proof {
        assert(r@ == analysis_spec(*module, user_settings@));
    }
    r
}

/// The analysis is a pure function of the tree and the settings: equal
/// inputs give results with identical contents, whichever call produced
/// them. Together with the contract of [`analyze_code`], analyzing the same
/// module twice therefore yields identical result collections.
pub proof fn lemma_analysis_deterministic(m1: Module, m2: Module, s1: SettingsV, s2: SettingsV)
    requires
        m1 == m2,
        s1 == s2,
    ensures
        analysis_spec(m1, s1) == analysis_spec(m2, s2),
{
}

} // verus!
