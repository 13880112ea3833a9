//! The script that listens on a page from its very start.

use vstd::prelude::*;

use crate::crawler::script::COLLECTOR_JS;

verus! {

/// Listens on pages before any of their own scripts run.
#[derive(Debug, Clone, Copy, PartialEq, Eq, Structural)]
pub struct JsCollector;

impl JsCollector {
    /// The script to run on each new document.
    pub fn source() -> (r: &'static str)
        ensures
            r@ == COLLECTOR_JS@,
    {
        COLLECTOR_JS
    }
}

} // verus!
