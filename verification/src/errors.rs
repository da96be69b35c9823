use vstd::prelude::*;

verus! {

/// Why a scan, or part of one, failed.
///
/// `Connection` stands for a gateway connection that could not be
/// established; `Gateway { height }` for a per-block query that failed at
/// the given height.
#[derive(Clone, Copy, Debug, PartialEq, Eq, Structural)]
pub enum ScanError {
    Connection,
    Gateway { height: u64 },
}

} // verus!
