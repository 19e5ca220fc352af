use vstd::prelude::*;

verus! {

/// Both kinds of failure that a ledger operation can end with.
#[derive(Debug, Clone, Copy, PartialEq, Eq, Structural)]
pub enum LeaseError {
    /// No record exists for the requested lease id.
    NotFound,
    /// The record exists but is not in the Active state.
    InvalidTransition,
}

/// One leased asset-period: who lends what to whom, for which window.
#[derive(Debug)]
pub struct Lease {
    pub lease_id: u64,
    pub asset_name: String,
    /// Free text; "physical" or "digital" by convention, never enforced.
    pub asset_type: String,
    pub owner: String,
    pub lessee: String,
    pub start_time: u64,
    pub end_time: u64,
    pub is_active: bool,
    pub is_returned: bool,
    pub amount_paid: i128,
}

/// End of a lease window; a window that would run past the last
/// representable timestamp ends at that timestamp.
pub open spec fn window_end(start_time: u64, duration_secs: u64) -> u64 {
    if start_time + duration_secs <= u64::MAX {
        (start_time + duration_secs) as u64
    } else {
        u64::MAX
    }
}

impl Lease {
    /// Active: lent out and not yet given back.
    pub open spec fn is_active_state(self) -> bool {
        self.is_active && !self.is_returned
    }

    /// Completed: given back; terminal.
    pub open spec fn is_completed_state(self) -> bool {
        !self.is_active && self.is_returned
    }

    /// A record is always in exactly one of the two states.
    pub open spec fn well_formed(self) -> bool {
        self.is_active_state() || self.is_completed_state()
    }

    /// The record as it stands after completion.
    pub open spec fn completed_spec(self) -> Lease {
        Lease { is_active: false, is_returned: true, ..self }
    }

    /// The record that a creation at time `now` writes under `lease_id`.
    pub open spec fn opened_spec(
        lease_id: u64,
        now: u64,
        asset_name: String,
        asset_type: String,
        owner: String,
        lessee: String,
        duration_secs: u64,
        amount_paid: i128,
    ) -> Lease {
        Lease {
            lease_id,
            asset_name,
            asset_type,
            owner,
            lessee,
            start_time: now,
            end_time: window_end(now, duration_secs),
            is_active: true,
            is_returned: false,
            amount_paid,
        }
    }

    /// Builds the Active record of a new lease whose window starts at `now`.
    pub fn open(
        lease_id: u64,
        now: u64,
        asset_name: String,
        asset_type: String,
        owner: String,
        lessee: String,
        duration_secs: u64,
        amount_paid: i128,
    ) -> (r: Lease)
        ensures
            r == Lease::opened_spec(
                lease_id,
                now,
                asset_name,
                asset_type,
                owner,
                lessee,
                duration_secs,
                amount_paid,
            ),
            r.is_active_state(),
    {
        let end_time: u64 = if duration_secs <= u64::MAX - now {
            now + duration_secs
        } else {
            u64::MAX
        };
        Lease {
            lease_id,
            asset_name,
            asset_type,
            owner,
            lessee,
            start_time: now,
            end_time,
            is_active: true,
            is_returned: false,
            amount_paid,
        }
    }

    /// Moves an Active record to Completed; any other record is refused
    /// and left as it was.
    pub fn close(&mut self) -> (r: Result<(), LeaseError>)
        ensures
            old(self).is_active_state() ==> r is Ok && *final(self) == old(self).completed_spec(),
            !old(self).is_active_state() ==> r == Err::<(), LeaseError>(
                LeaseError::InvalidTransition,
            ) && *final(self) == *old(self),
    {
        if !self.is_active || self.is_returned {
            return Err(LeaseError::InvalidTransition);
        }
        self.is_active = false;
        self.is_returned = true;
        Ok(())
    }

    /// A field-for-field copy of the record.
    pub fn duplicate(&self) -> (r: Lease)
        ensures
            r == *self,
    {
        Lease {
            lease_id: self.lease_id,
            asset_name: self.asset_name.clone(),
            asset_type: self.asset_type.clone(),
            owner: self.owner.clone(),
            lessee: self.lessee.clone(),
            start_time: self.start_time,
            end_time: self.end_time,
            is_active: self.is_active,
            is_returned: self.is_returned,
            amount_paid: self.amount_paid,
        }
    }
}

/// The running summary of lease counts by state.
#[derive(Debug, Clone, Copy, PartialEq, Eq, Structural)]
pub struct LeaseStatus {
    pub total_leases: u64,
    pub active_leases: u64,
    pub completed_leases: u64,
    /// Reserved; always 0.
    pub pending_leases: u64,
}

impl LeaseStatus {
    /// The summary before any lease exists.
    pub open spec fn zero() -> LeaseStatus {
        LeaseStatus { total_leases: 0, active_leases: 0, completed_leases: 0, pending_leases: 0 }
    }

    /// Every lease ever created is either active or completed.
    pub open spec fn balanced(self) -> bool {
        self.active_leases + self.completed_leases == self.total_leases
    }

    pub open spec fn after_creation_spec(self) -> LeaseStatus {
        LeaseStatus {
            total_leases: (self.total_leases + 1) as u64,
            active_leases: (self.active_leases + 1) as u64,
            ..self
        }
    }

    pub open spec fn after_completion_spec(self) -> LeaseStatus {
        LeaseStatus {
            active_leases: (self.active_leases - 1) as u64,
            completed_leases: (self.completed_leases + 1) as u64,
            ..self
        }
    }

    /// The all-zero summary.
    pub fn empty() -> (r: LeaseStatus)
        ensures
            r == LeaseStatus::zero(),
    {
        LeaseStatus { total_leases: 0, active_leases: 0, completed_leases: 0, pending_leases: 0 }
    }

    /// The summary after one more lease was created.
    pub fn record_creation(&self) -> (r: LeaseStatus)
        requires
            self.total_leases < u64::MAX,
            self.active_leases < u64::MAX,
        ensures
            r == self.after_creation_spec(),
            self.balanced() ==> r.balanced(),
    {
        LeaseStatus {
            total_leases: self.total_leases + 1,
            active_leases: self.active_leases + 1,
            completed_leases: self.completed_leases,
            pending_leases: self.pending_leases,
        }
    }

    /// The summary after one active lease was completed.
    pub fn record_completion(&self) -> (r: LeaseStatus)
        requires
            self.active_leases >= 1,
            self.completed_leases < u64::MAX,
        ensures
            r == self.after_completion_spec(),
            self.balanced() ==> r.balanced(),
    {
        LeaseStatus {
            total_leases: self.total_leases,
            active_leases: self.active_leases - 1,
            completed_leases: self.completed_leases + 1,
            pending_leases: self.pending_leases,
        }
    }
}

/// Storage key of a lease record, derived from its id.
#[derive(Debug, Clone, Copy, PartialEq, Eq, Structural)]
pub enum LeaseBook {
    LeaseById(u64),
}

impl LeaseBook {
    pub open spec fn id_spec(self) -> u64 {
        match self {
            LeaseBook::LeaseById(id) => id,
        }
    }

    /// The lease id that the key is derived from.
    pub fn id(&self) -> (r: u64)
        ensures
            r == self.id_spec(),
    {
        match self {
            LeaseBook::LeaseById(id) => *id,
        }
    }
}

} // verus!
