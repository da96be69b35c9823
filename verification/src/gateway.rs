use vstd::prelude::*;

use crate::errors::ScanError;

verus! {

/// The external service that answers "how many transactions are in the
/// block at this height?" over one connection.
///
/// The spec-level model `response` fixes, for a given gateway value, what
/// each query returns: a count, or the error the query fails with. The
/// executable query must answer exactly as the model says, so every caller
/// is verified against a gateway that is deterministic in its state.
pub trait Gateway: Sized {
    /// The gateway's answer for each height: a transaction count or an error.
    spec fn response(&self, height: u64) -> Result<u64, ScanError>;

    /// Queries the number of transactions in the block at `height`.
    fn transaction_count(&self, height: u64) -> (r: Result<u64, ScanError>)
        ensures
            r == self.response(height),
    ;
}

/// A deterministic in-memory gateway: height `h` holds `counts[h]`
/// transactions, heights at or past `counts.len()` are unknown, and the
/// query at `fail_at` (if set) always fails.
pub struct MockGateway {
    pub counts: Vec<u64>,
    pub fail_at: Option<u64>,
}

impl Gateway for MockGateway {
    open spec fn response(&self, height: u64) -> Result<u64, ScanError> {
        if self.fail_at == Some(height) {
            Err(ScanError::Gateway { height })
        } else if height < self.counts@.len() {
            Ok(self.counts@[height as int])
        } else {
            Err(ScanError::Gateway { height })
        }
    }

    fn transaction_count(&self, height: u64) -> (r: Result<u64, ScanError>) {
        match self.fail_at {
            Some(f) if f == height => {
                return Err(ScanError::Gateway { height });
            },
            _ => {},
        }
        if height < self.counts.len() as u64 {
            Ok(self.counts[height as usize])
        } else {
            Err(ScanError::Gateway { height })
        }
    }
}

} // verus!
