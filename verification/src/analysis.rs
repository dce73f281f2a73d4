//! The analysis of one module: locate its labels, then walk it.

use crate::key_set::KeySet;
use crate::label_visitor::{find_labels, AnalysisError, LabelVisitor};
use crate::resolve::LookupFailure;
use crate::string_map::StringMap;
use crate::syntax::{Ident, Module};
use crate::usage::{lemma_merge_empty, usage_view, TranslationUsage};
use crate::usage_visitor::{failure_names, walk_module, Context, LabelUsageVisitor, WalkState};
use vstd::prelude::*;

verus! {

/// The name under which the usage of an unnamed default export is recorded. It
/// is a reserved word, so no binding of a module has it.
pub open spec fn anonymous_default_export_name() -> Seq<char> {
    "default"@
}

/// The owner of what an unnamed default export reads.
pub fn get_anonymous_default_export_id() -> (id: Ident)
    ensures
        id.sym@ == anonymous_default_export_name(),
        id.ctxt == 0,
{
    Ident { sym: "default".to_owned(), ctxt: 0 }
}

/// What the walk of one module has found.
#[derive(Debug)]
pub struct LabelsUsage {
    /// The keys that each owner reads.
    pub usage: StringMap<KeySet>,
    /// The lookups that failed, in order. They add no key.
    pub failures: Vec<LookupFailure>,
}

impl LabelsUsage {
    /// The model of what was found.
    pub open spec fn state(self) -> WalkState {
        WalkState { usage: usage_view(self.usage@), failures: failure_names(self.failures@) }
    }
}

/// What the analysis of a module finds: nothing where the module declares no
/// labels, an error where the declaration is malformed, and else what the walk
/// against the declared tree finds.
pub open spec fn labels_usage(module: Module, anonymous_default_export_id: Ident) -> Result<
    Option<WalkState>,
    AnalysisError,
> {
    match find_labels(module) {
        Err(e) => Err(e),
        Ok(None) => Ok(None),
        Ok(Some(located)) => Ok(
            Some(
                walk_module(
                    Context {
                        labels: located.labels,
                        labels_id: located.id,
                        anonymous_default_export_id,
                    },
                    module,
                ),
            ),
        ),
    }
}

/// The model of the outcome of an analysis.
pub open spec fn usage_result(r: Result<Option<LabelsUsage>, AnalysisError>) -> Result<
    Option<WalkState>,
    AnalysisError,
> {
    match r {
        Ok(Some(found)) => Ok(Some(found.state())),
        Ok(None) => Ok(None),
        Err(e) => Err(e),
    }
}

/// Analyses one module.
pub fn get_labels_usage(module: &Module, anonymous_default_export_id: Ident) -> (r: Result<
    Option<LabelsUsage>,
    AnalysisError,
>)
    ensures
        usage_result(r) == labels_usage(*module, anonymous_default_export_id),
{
    let mut label_visitor = LabelVisitor::new();
    match label_visitor.visit_module(module) {
        Ok(_) => {},
        Err(e) => {
            return Err(e);
        },
    }
    match label_visitor.labels {
        Some(located) => {
            let mut label_usage_visitor = LabelUsageVisitor::new(
                located.labels,
                located.id,
                anonymous_default_export_id,
            );
            label_usage_visitor.visit_module(module);
            Ok(
                Some(
                    LabelsUsage {
                        usage: label_usage_visitor.usage,
                        failures: label_usage_visitor.failures,
                    },
                ),
            )
        },
        None => Ok(None),
    }
}

/// The keys that each owner of a module reads.
pub fn collect_translation(module: &Module, anonymous_default_export_id: Ident) -> (r: Result<
    StringMap<KeySet>,
    AnalysisError,
>)
    ensures
        match labels_usage(*module, anonymous_default_export_id) {
            Err(e) => r == Err::<StringMap<KeySet>, _>(e),
            Ok(None) => r is Ok && usage_view(r->Ok_0@) == Map::<
                Seq<char>,
                Set<Seq<char>>,
            >::empty(),
            Ok(Some(state)) => r is Ok && usage_view(r->Ok_0@) == state.usage,
        },
{
    let mut translation_usage = TranslationUsage::new();
    match get_labels_usage(module, anonymous_default_export_id) {
        Ok(Some(v)) => {
            proof {
                lemma_merge_empty(usage_view(v.usage@));
            }
            translation_usage.extend(v.usage);
        },
        Ok(None) => {},
        Err(e) => {
            return Err(e);
        },
    }
    Ok(translation_usage.data)
}

} // verus!
