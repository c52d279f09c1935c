//! The administrator, the protocol fee and the readiness checklist.

use soroban_sdk::Address;
use vstd::prelude::*;

use crate::state;
use crate::state::{Escrow, EscrowState};
use crate::types::{EscrowError, Event, Invocation, PendingAdminProposal, Trap};

verus! {

impl PendingAdminProposal {
    /// How many ledgers have gone by since the proposal.
    pub open spec fn waited(self, call: Invocation) -> int {
        if call.sequence >= self.proposed_at_ledger {
            call.sequence - self.proposed_at_ledger
        } else {
            0
        }
    }
}

impl EscrowState {
    /// Why the administrator cannot act.
    pub open spec fn admin_refusal(self, call: Invocation) -> Option<Trap> {
        match self.admin {
            Some(admin) if self.initialized => if call.covers(admin) {
                None
            } else {
                Some(Trap::Unauthorized(admin))
            },
            _ => state::refuse(EscrowError::NotInitialized),
        }
    }

    /// The protocol fee in basis points, nothing where none was set.
    pub open spec fn fee_bps(self) -> u32 {
        match self.protocol_fee_bps {
            Some(bps) => bps,
            None => 0,
        }
    }

    /// The state after the fee was set.
    pub open spec fn after_set_fee(self, call: Invocation, new_bps: u32) -> EscrowState {
        EscrowState { protocol_fee_bps: Some(new_bps), ..self }.with_event(
            Event::ProtocolFeeBps {
                old_bps: self.fee_bps(),
                new_bps,
                admin: self.admin->0,
                timestamp: call.timestamp,
            },
        )
    }

    /// The state after an administrator was proposed.
    pub open spec fn after_propose_admin(self, call: Invocation, proposed: Address) -> EscrowState {
        EscrowState {
            pending_admin: Some(
                PendingAdminProposal { proposed, proposed_at_ledger: call.sequence },
            ),
            ..self
        }.with_event(
            Event::AdminProposed { admin: self.admin->0, proposed, timestamp: call.timestamp },
        )
    }

    /// Why the proposed administrator cannot take over.
    pub open spec fn accept_admin_refusal(self, call: Invocation) -> Option<Trap> {
        if !self.initialized {
            state::refuse(EscrowError::NotInitialized)
        } else {
            match self.pending_admin {
                None => state::refuse(EscrowError::InvalidState),
                Some(proposal) => if proposal.waited(call)
                    < self.policy.admin_rotation_min_delay_ledgers {
                    state::refuse(EscrowError::TimelockNotElapsed)
                } else if !call.covers(proposal.proposed) {
                    Some(Trap::Unauthorized(proposal.proposed))
                } else if self.admin is None {
                    state::refuse(EscrowError::NotInitialized)
                } else {
                    None
                },
            }
        }
    }

    /// The state after the proposed administrator took over.
    pub open spec fn after_accept_admin(self, call: Invocation) -> EscrowState {
        let new_admin = self.pending_admin->0.proposed;
        EscrowState { admin: Some(new_admin), pending_admin: None, ..self }.with_event(
            Event::AdminAccepted {
                old_admin: self.admin->0,
                new_admin,
                timestamp: call.timestamp,
            },
        )
    }
}

impl Escrow {
    /// Sets the protocol fee in basis points.  The administrator signs.
    pub fn set_protocol_fee_bps(&mut self, call: &Invocation, new_bps: u32) -> (r: Result<
        bool,
        Trap,
    >)
        ensures
            r == state::answer(old(self)@.admin_refusal(*call), true),
            final(self)@ == if r is Ok {
                old(self)@.after_set_fee(*call, new_bps)
            } else {
                old(self)@
            },
            old(self)@.wf() ==> final(self)@.wf(),
    {
        let admin: Address = match self.require_admin(call) {
            Ok(admin) => admin,
            Err(trap) => {
                return Err(trap);
            },
        };
        let old_bps: u32 = self.protocol_fee_bps.unwrap_or(0);
        self.protocol_fee_bps = Some(new_bps);
        self.events.push(
            Event::ProtocolFeeBps { old_bps, new_bps, admin, timestamp: call.timestamp },
        );
        proof {
            assert(self@ =~= old(self)@.after_set_fee(*call, new_bps));
            if old(self)@.wf() {
                old(self)@.lemma_same_books(self@);
            }
        }
        Ok(true)
    }

    /// Finds the administrator and checks that they sign.
    fn require_admin(&self, call: &Invocation) -> (r: Result<Address, Trap>)
        ensures
            r == state::answer(self@.admin_refusal(*call), self@.admin->0),
    {
        if !self.initialized {
            return Err(Trap::Error(EscrowError::NotInitialized));
        }
        match &self.admin {
            None => Err(Trap::Error(EscrowError::NotInitialized)),
            Some(admin) => match call.require_auth(admin) {
                Ok(_) => Ok(admin.clone()),
                Err(trap) => Err(trap),
            },
        }
    }

    /// Proposes a new administrator, who can take over once the delay of the
    /// policy has gone by.  The administrator signs.
    pub fn propose_governance_admin_impl(
        &mut self,
        call: &Invocation,
        proposed: Address,
    ) -> (r: Result<bool, Trap>)
        ensures
            r == state::answer(old(self)@.admin_refusal(*call), true),
            final(self)@ == if r is Ok {
                old(self)@.after_propose_admin(*call, proposed)
            } else {
                old(self)@
            },
            old(self)@.wf() ==> final(self)@.wf(),
    {
        let admin: Address = match self.require_admin(call) {
            Ok(admin) => admin,
            Err(trap) => {
                return Err(trap);
            },
        };
        self.pending_admin = Some(
            PendingAdminProposal {
                proposed: proposed.clone(),
                proposed_at_ledger: call.sequence,
            },
        );
        self.events.push(Event::AdminProposed { admin, proposed, timestamp: call.timestamp });
        proof {
            assert(self@ =~= old(self)@.after_propose_admin(*call, proposed));
            if old(self)@.wf() {
                old(self)@.lemma_same_books(self@);
            }
        }
        Ok(true)
    }

    /// Makes the proposed administrator, who signs, the administrator once the
    /// delay of the policy has gone by.
    pub fn accept_governance_admin_impl(&mut self, call: &Invocation) -> (r: Result<bool, Trap>)
        ensures
            r == state::answer(old(self)@.accept_admin_refusal(*call), true),
            final(self)@ == if r is Ok {
                old(self)@.after_accept_admin(*call)
            } else {
                old(self)@
            },
            old(self)@.wf() ==> final(self)@.wf(),
    {
        if !self.initialized {
            return Err(Trap::Error(EscrowError::NotInitialized));
        }
        let new_admin: Address = match &self.pending_admin {
            None => {
                return Err(Trap::Error(EscrowError::InvalidState));
            },
            Some(proposal) => {
                let elapsed: u32 = call.sequence.saturating_sub(proposal.proposed_at_ledger);
                if elapsed < self.policy.admin_rotation_min_delay_ledgers {
                    return Err(Trap::Error(EscrowError::TimelockNotElapsed));
                }
                proposal.proposed.clone()
            },
        };
        match call.require_auth(&new_admin) {
            Ok(_) => {},
            Err(trap) => {
                return Err(trap);
            },
        }
        let old_admin: Address = match &self.admin {
            Some(admin) => admin.clone(),
            None => {
                return Err(Trap::Error(EscrowError::NotInitialized));
            },
        };
        self.admin = Some(new_admin.clone());
        self.pending_admin = None;
        self.events.push(
            Event::AdminAccepted { old_admin, new_admin, timestamp: call.timestamp },
        );
        proof {
            assert(self@ =~= old(self)@.after_accept_admin(*call));
            if old(self)@.wf() {
                old(self)@.lemma_same_books(self@);
            }
        }
        Ok(true)
    }

    /// Returns the proposed administrator.
    pub fn get_pending_governance_admin_impl(&self) -> (r: Option<Address>)
        ensures
            r == match self@.pending_admin {
                Some(proposal) => Some(proposal.proposed),
                None => None,
            },
    {
        match &self.pending_admin {
            Some(proposal) => Some(proposal.proposed.clone()),
            None => None,
        }
    }

    /// Returns the administrator.
    pub fn get_governance_admin_impl(&self) -> (r: Option<Address>)
        ensures
            r == self@.admin,
    {
        match &self.admin {
            Some(admin) => Some(admin.clone()),
            None => None,
        }
    }
}

/// Applies a change to the stored readiness checklist, or to the one that
/// stands for an absent one, and returns the checklist to store.
pub fn update_readiness_checklist<C, F: FnOnce(&mut C)>(stored: Option<C>, absent: C, f: F) -> (r: C)
    requires
        forall|checklist: &mut C|
            *checklist == (if stored is Some {
                stored->0
            } else {
                absent
            }) ==> call_requires(f, (checklist,)),
    ensures
        exists|checklist: &mut C|
            {
                &&& *checklist == (if stored is Some {
                    stored->0
                } else {
                    absent
                })
                &&& *final(checklist) == r
                &&& call_ensures(f, (checklist,), ())
            },
{
    let mut checklist: C = match stored {
        Some(checklist) => checklist,
        None => absent,
    };
    f(&mut checklist);
    checklist
}

} // verus!
