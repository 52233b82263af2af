use vstd::prelude::*;

use crate::analyzer::{AnalyzerView, NativeModuleAnalyzer, items_effect};
use crate::diagnostics::Diagnostic;
use crate::normalize::{live_specs, schema_matches, schema_wf, spec_buildable};
use crate::schema::SchemaError;
use crate::syntax::Item;
use crate::types::Schema;

verus! {

/// Why a source unit yields no schema.
#[derive(Debug)]
pub enum ParseError {
    /// Every violation of the dialect found in the unit, in source order.
    Diagnostics(Vec<Diagnostic>),
    /// The unit passed analysis but its schemas could not be built.
    General(SchemaError),
}

pub open spec fn initial_view() -> AnalyzerView {
    AnalyzerView {
        diagnostics: Seq::empty(),
        mod_type: None,
        mod_signal: None,
        mod_reg: None,
        mod_ns: None,
        mods: Seq::empty(),
        decls: Seq::empty(),
        specs: Seq::empty(),
    }
}

/// The analyzer's state after a whole unit.
pub open spec fn unit_view(items: Seq<Item>) -> AnalyzerView {
    items_effect(initial_view(), items, items.len() as int)
}

/// Compiles one source unit into its schemas. All violations are reported
/// together, and any of them stops the unit: no partial schema is built.
pub fn analyze(items: &Vec<Item>) -> (r: Result<Vec<Schema>, ParseError>)
    ensures
        ({
            let u = unit_view(items@);
            let ls = live_specs(u.specs, u.specs.len() as int);
            match r {
                Err(ParseError::Diagnostics(d)) => d@ == u.diagnostics && d@.len() > 0,
                Err(ParseError::General(_)) => u.diagnostics.len() == 0
                    && !forall|k: int| 0 <= k < ls.len() ==> spec_buildable(#[trigger] ls[k], u),
                Ok(v) => u.diagnostics.len() == 0
                    && (forall|k: int| 0 <= k < ls.len() ==> spec_buildable(#[trigger] ls[k], u))
                    && v@.len() == ls.len()
                    && forall|k: int| 0 <= k < v@.len() ==> schema_wf(#[trigger] v@[k]) && schema_matches(v@[k], ls[k], u),
            }
        }),
{
    let mut analyzer = NativeModuleAnalyzer::new();
    analyzer.visit_program(items);
    if analyzer.diagnostics.len() > 0 {
        return Err(ParseError::Diagnostics(analyzer.diagnostics));
    }
    match analyzer.try_into_schema() {
        Ok(v) => Ok(v),
        Err(e) => Err(ParseError::General(e)),
    }
}

} // verus!
