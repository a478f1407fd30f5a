//! The vocabulary of the sparkline mini chart. Its data and scaling are
//! floating point and live with the host.

use vstd::prelude::*;

verus! {

/// How a sparkline draws its series.
#[derive(Clone, Copy, Debug, PartialEq, Eq, Structural)]
pub enum SparkMode {
    /// A mini line chart (points joined by segments).
    Line,
    /// A mini bar chart (one bar per datum).
    Bar,
}

} // verus!
