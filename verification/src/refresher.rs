//! The refresher: owns the currently published exchange-rate snapshot,
//! accepts the outcome of each fetch, and decides what to publish.
//!
//! The fetch itself — the HTTP round trip and the parsing of the provider's
//! payload — happens at the edge of the program, which hands the outcome in
//! as a plain `Result`. Startup fails unless the first fetch yields a
//! non-empty table; afterwards a failed fetch leaves the published snapshot
//! untouched, so the service keeps serving the last good table.

use vstd::prelude::*;
use crate::conversion_rates::ExchangeRates;

verus! {

/// Holder of the published snapshot. A new table replaces the old one
/// wholesale; the snapshot a reader obtains is never half updated.
pub struct Refresher {
    current: ExchangeRates,
}

impl Refresher {
    /// The snapshot that is currently published.
    pub closed spec fn spec_current(self) -> ExchangeRates {
        self.current
    }

    /// The published snapshot is a well-formed table.
    pub closed spec fn wf(self) -> bool {
        self.current.wf()
    }

    /// Decide startup from the first fetch: a fetch error or a table with
    /// no stored rates is a startup failure — the service must not begin
    /// serving with zero rate data — and anything else is published.
    pub fn start(fetched: Result<ExchangeRates, String>) -> (r: Result<Refresher, String>)
        requires
            fetched matches Ok(t) ==> t.wf(),
        ensures
            match fetched {
                Ok(t) => if t.spec_entries().len() == 0 {
                    r matches Err(m) && m@ == "Failed to fetch exchange rates."@
                } else {
                    r matches Ok(rf) && rf.wf() && rf.spec_current() == t
                },
                Err(_) => r matches Err(m) && m@ == "Failed to fetch exchange rates."@,
            },
    {
        match fetched {
            Ok(t) => {
                if t.rates.len() == 0 {
                    Err("Failed to fetch exchange rates.".to_owned())
                } else {
                    Ok(Refresher { current: t })
                }
            },
            Err(_) => Err("Failed to fetch exchange rates.".to_owned()),
        }
    }

    /// The published snapshot, for a conversion to read.
    pub fn current(&self) -> (r: &ExchangeRates)
        ensures
            *r == self.spec_current(),
            self.wf() ==> r.wf(),
    {
        &self.current
    }

    /// Apply the outcome of a periodic fetch: a fresh table replaces the
    /// published snapshot, while a fetch error changes nothing, leaving the
    /// previous table active until the next attempt.
    pub fn apply_refresh(&mut self, fetched: Result<ExchangeRates, String>)
        requires
            old(self).wf(),
            fetched matches Ok(t) ==> t.wf(),
        ensures
            final(self).wf(),
            fetched matches Ok(t) ==> final(self).spec_current() == t,
            fetched matches Err(_) ==> final(self).spec_current() == old(self).spec_current(),
    {
        match fetched {
            Ok(t) => {
                self.current = t;
            },
            Err(_) => {},
        }
    }
}

} // verus!
