use vstd::prelude::*;

verus! {

/// The kinds of metric the server records.
#[derive(Clone, Copy, Debug, PartialEq, Eq, Structural)]
pub enum MetricType {
    Counter,
    Gauge,
    Histogram,
    Timer,
}

} // verus!
