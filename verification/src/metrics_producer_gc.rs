//! Garbage collection of metrics producers that have not renewed their lease.

use vstd::prelude::*;

use crate::text::Uuid;
use crate::time::{earlier_by, is_earlier_by, utc_now, Duration, Timestamp};

verus! {

/// Prunes metrics producers that have failed to renew their lease.
#[derive(Copy, Clone, Debug, PartialEq, Eq, Structural)]
pub struct MetricProducerGc {
    pub lease_duration: Duration,
}

/// A producer that could not be pruned.
#[derive(Debug)]
pub struct PruneFailure {
    pub producer_id: Uuid,
    pub error: String,
}

/// What came of pruning.
#[derive(Debug)]
pub struct PrunedProducers {
    pub successes: Vec<Uuid>,
    pub failures: Vec<PruneFailure>,
}

/// What an activation reports.
#[derive(Debug)]
pub enum GcReport {
    /// The lease duration is out of bounds.
    OutOfBounds { lease_duration: Duration },
    /// Pruning failed as a whole.
    Failed { error: String },
    /// Pruning was done without errors.
    Complete { expiration: Timestamp, pruned: Vec<Uuid> },
    /// Pruning was done, but some producers could not be pruned.
    CompleteWithErrors { expiration: Timestamp, pruned: Vec<Uuid>, errors: Vec<PruneFailure> },
}

/// The message for a lease duration that is out of bounds.
pub const OUT_OF_BOUNDS: &'static str = "out of bounds lease duration";

impl MetricProducerGc {
    /// A garbage collector for leases of a given duration.
    pub fn new(lease_duration: Duration) -> (r: Self)
        ensures
            r.lease_duration == lease_duration,
    {
        MetricProducerGc { lease_duration }
    }

    /// The time before which a lease must have been renewed for its producer
    /// to be pruned at the given time, or what to report if there is no such
    /// time.
    pub fn expiration_at(&self, now: Timestamp) -> (r: Result<Timestamp, GcReport>)
        requires
            now.in_range(),
            self.lease_duration.well_formed(),
        ensures
            match r {
                Ok(expiration) => is_earlier_by(Some(expiration), now, self.lease_duration),
                Err(report) => {
                    &&& is_earlier_by(None, now, self.lease_duration)
                    &&& report == (GcReport::OutOfBounds { lease_duration: self.lease_duration })
                },
            },
    {
        match earlier_by(now, self.lease_duration) {
            Some(expiration) => Ok(expiration),
            None => Err(GcReport::OutOfBounds { lease_duration: self.lease_duration }),
        }
    }

    /// The time before which a lease must have been renewed for its producer
    /// to be pruned now, or what to report if there is no such time.
    pub fn expiration(&self) -> (r: Result<Timestamp, GcReport>)
        requires
            self.lease_duration.well_formed(),
        ensures
            exists|now: Timestamp|
                {
                    &&& #[trigger] now.in_range()
                    &&& match r {
                        Ok(expiration) => is_earlier_by(Some(expiration), now, self.lease_duration),
                        Err(report) => {
                            &&& is_earlier_by(None, now, self.lease_duration)
                            &&& report == (GcReport::OutOfBounds {
                                lease_duration: self.lease_duration,
                            })
                        },
                    }
                },
    {
        let now = utc_now();
        let r = self.expiration_at(now);
        assert(now.in_range());
        r
    }

    /// What to report of pruning the producers whose lease was not renewed
    /// since the expiration time.
    pub fn report(expiration: Timestamp, result: Result<PrunedProducers, String>) -> (r: GcReport)
        ensures
            match result {
                Err(error) => r == (GcReport::Failed { error }),
                Ok(pruned) => if pruned.failures@.len() == 0 {
                    r == (GcReport::Complete { expiration, pruned: pruned.successes })
                } else {
                    r == (GcReport::CompleteWithErrors {
                        expiration,
                        pruned: pruned.successes,
                        errors: pruned.failures,
                    })
                },
            },
    {
        match result {
            Err(error) => GcReport::Failed { error },
            Ok(pruned) => {
                if pruned.failures.is_empty() {
                    GcReport::Complete { expiration, pruned: pruned.successes }
                } else {
                    GcReport::CompleteWithErrors {
                        expiration,
                        pruned: pruned.successes,
                        errors: pruned.failures,
                    }
                }
            },
        }
    }
}

impl GcReport {
    /// The names of the fields of the report, in order.
    pub open spec fn field_names(self) -> Seq<Seq<char>> {
        match self {
            GcReport::OutOfBounds { .. } => seq!["error"@, "lease_duration"@],
            GcReport::Failed { .. } => seq!["error"@],
            GcReport::Complete { .. } => seq!["expiration"@, "pruned"@],
            GcReport::CompleteWithErrors { .. } => seq!["expiration"@, "pruned"@, "errors"@],
        }
    }

    /// The error that the report tells of, if the activation as a whole failed.
    pub fn error(&self) -> (r: Option<&str>)
        ensures
            match self {
                GcReport::OutOfBounds { .. } => r is Some && r->0@ == OUT_OF_BOUNDS@,
                GcReport::Failed { error } => r is Some && r->0@ == error@,
                _ => r is None,
            },
    {
        match self {
            GcReport::OutOfBounds { .. } => Some(OUT_OF_BOUNDS),
            GcReport::Failed { error } => Some(error.as_str()),
            GcReport::Complete { .. } => None,
            GcReport::CompleteWithErrors { .. } => None,
        }
    }

    /// The names of the fields of the report, in order.
    pub fn fields(&self) -> (r: Vec<&'static str>)
        ensures
            r@.map_values(|s: &'static str| s@) == self.field_names(),
    {
        let r: Vec<&'static str> = match self {
            GcReport::OutOfBounds { .. } => vec!["error", "lease_duration"],
            GcReport::Failed { .. } => vec!["error"],
            GcReport::Complete { .. } => vec!["expiration", "pruned"],
            GcReport::CompleteWithErrors { .. } => vec!["expiration", "pruned", "errors"],
        };
        assert(r@.map_values(|s: &'static str| s@) =~= self.field_names());
        r
    }
}

/// A producer whose lease was renewed within the lease duration before now is
/// not pruned: the expiration lies no later than that.
pub proof fn law_lease_is_respected(
    expiration: Timestamp,
    now: Timestamp,
    lease: Duration,
    renewed: Timestamp,
)
    requires
        is_earlier_by(Some(expiration), now, lease),
        now.instant() - renewed.instant() <= lease.length(),
    ensures
        expiration.instant() <= renewed.instant(),
{
}

} // verus!
