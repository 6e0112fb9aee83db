//! Fmt collector — `cargo fmt --check`.

use vstd::prelude::*;
use crate::schema::CollectorStatus;

verus! {

#[derive(Debug, Clone, Copy)]
pub struct FmtCollector;

impl FmtCollector {
    pub fn new() -> Self {
        FmtCollector
    }

    pub fn name(&self) -> (r: &'static str)
        ensures
            r@ == "fmt"@,
    {
        "fmt"
    }

    /// Pass when the sources are formatted (the check succeeded), fail otherwise.
    pub fn status_for(success: bool) -> (r: CollectorStatus)
        ensures
            r == if success { CollectorStatus::Pass } else { CollectorStatus::Fail },
    {
        if success { CollectorStatus::Pass } else { CollectorStatus::Fail }
    }
}

impl Default for FmtCollector {
    fn default() -> Self {
        FmtCollector
    }
}

} // verus!
