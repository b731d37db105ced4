use vstd::prelude::*;

verus! {

/// Settings of the terminal presentation of results.
#[derive(Debug, Clone, Copy, PartialEq, Eq, Structural)]
pub struct ConsoleFormatter {
    /// Team rankings show deviation and volatility beside the rating.
    pub show_detailed_stats: bool,
}

impl ConsoleFormatter {
    /// Terminal output with detailed team statistics.
    pub fn new() -> (r: ConsoleFormatter)
        ensures
            r.show_detailed_stats,
    {
        ConsoleFormatter { show_detailed_stats: true }
    }

    /// Terminal output with ratings only.
    pub fn simple() -> (r: ConsoleFormatter)
        ensures
            !r.show_detailed_stats,
    {
        ConsoleFormatter { show_detailed_stats: false }
    }
}

impl Default for ConsoleFormatter {
    fn default() -> (r: ConsoleFormatter)
        ensures
            r.show_detailed_stats,
    {
        ConsoleFormatter::new()
    }
}

/// Structured-text presentation of results.
#[derive(Debug, Clone, Copy, PartialEq, Eq, Structural)]
pub struct JsonFormatter;

impl JsonFormatter {
    pub fn new() -> (r: JsonFormatter)
        ensures
            r == JsonFormatter,
    {
        JsonFormatter
    }
}

impl Default for JsonFormatter {
    fn default() -> (r: JsonFormatter)
        ensures
            r == JsonFormatter,
    {
        JsonFormatter::new()
    }
}

/// Builds summary reports of a season run.
#[derive(Debug, Clone, Copy, PartialEq, Eq, Structural)]
pub struct ReportGenerator;

impl ReportGenerator {
    pub fn new() -> (r: ReportGenerator)
        ensures
            r == ReportGenerator,
    {
        ReportGenerator
    }
}

impl Default for ReportGenerator {
    fn default() -> (r: ReportGenerator)
        ensures
            r == ReportGenerator,
    {
        ReportGenerator::new()
    }
}

} // verus!
