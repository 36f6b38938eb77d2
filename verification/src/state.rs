//! The escrow record: the central entity of the custody mechanism.

use vstd::prelude::*;

verus! {

/// One fungible asset amount: a denomination and a positive quantity.
#[derive(Debug)]
pub struct Coin {
    pub denom: String,
    pub amount: u128,
}

impl Coin {
    /// An exact copy of the coin.
    pub fn dup(&self) -> (r: Coin)
        ensures
            r == *self,
    {
        Coin { denom: self.denom.clone(), amount: self.amount }
    }
}

/// A custody record holding one asset amount pending authorized release
/// or refund. Never deleted: it is retained as an audit trail.
#[derive(Debug)]
pub struct Escrow {
    /// Unique, assigned at creation, never reused.
    pub id: u64,
    /// The depositor; the only address allowed to cancel.
    pub creator: String,
    /// Receives the funds on release.
    pub beneficiary: String,
    /// Denomination and quantity, fixed at creation.
    pub amount: Coin,
    /// First approver slot (mandatory).
    pub approver1: String,
    /// Second approver slot (mandatory).
    pub approver2: String,
    /// Optional third approver slot.
    pub approver3: Option<String>,
    /// Free text describing the escrow conditions.
    pub description: String,
    /// Distinct approver addresses that have approved, in order.
    pub approvals: Vec<String>,
    /// One-way flag: set by release or by cancellation, never cleared.
    pub is_completed: bool,
    /// Set once at creation.
    pub created_at: u64,
    /// Set exactly once, and only on the release path.
    pub completed_at: Option<u64>,
}

impl Escrow {
    /// The set of distinct approver addresses among the (up to three) slots.
    pub open spec fn approver_views(self) -> Set<Seq<char>> {
        let base = Set::empty().insert(self.approver1@).insert(self.approver2@);
        match self.approver3 {
            Some(a) => base.insert(a@),
            None => base,
        }
    }

    /// Whether `a` occupies one of the approver slots.
    pub open spec fn spec_is_approver(self, a: Seq<char>) -> bool {
        ||| a == self.approver1@
        ||| a == self.approver2@
        ||| (self.approver3 matches Some(x) && a == x@)
    }

    /// The recorded approvals, as character sequences.
    pub open spec fn approvals_view(self) -> Seq<Seq<char>> {
        self.approvals.deep_view()
    }

    /// Whether `a` has already approved this escrow.
    pub open spec fn spec_has_approved(self, a: Seq<char>) -> bool {
        self.approvals_view().contains(a)
    }

    /// The quorum: one approval when there is a single distinct
    /// approver, two otherwise (two-of-two, or two-of-three).
    pub open spec fn spec_required(self) -> int {
        if self.approver_views().len() == 1 {
            1
        } else {
            2
        }
    }

    /// Internal consistency of a stored record.
    pub open spec fn wf(self) -> bool {
        &&& self.amount.amount > 0
        &&& self.approvals_view().no_duplicates()
        &&& forall|i: int|
            0 <= i < self.approvals_view().len() ==> self.spec_is_approver(
                #[trigger] self.approvals_view()[i],
            )
        &&& (self.completed_at matches Some(_) ==> self.is_completed)
        &&& (!self.is_completed ==> self.approvals_view().len() < self.spec_required())
    }

    /// Membership of the approver-slot set is exactly `spec_is_approver`.
    pub proof fn lemma_approver_views_membership(self, a: Seq<char>)
        ensures
            self.approver_views().contains(a) == self.spec_is_approver(a),
    {
    }

    /// Whether `addr` occupies one of the approver slots.
    pub fn is_approver(&self, addr: &String) -> (r: bool)
        ensures
            r == self.spec_is_approver(addr@),
    {
        if *addr == self.approver1 || *addr == self.approver2 {
            return true;
        }
        match &self.approver3 {
            Some(a) => *addr == *a,
            None => false,
        }
    }

    /// Whether `addr` has already approved this escrow.
    pub fn has_approved(&self, addr: &String) -> (r: bool)
        ensures
            r == self.spec_has_approved(addr@),
    {
        let n = self.approvals.len();
        let mut i: usize = 0;
        while i < n
            invariant
                n == self.approvals.len(),
                0 <= i <= n,
                forall|j: int| 0 <= j < i ==> self.approvals_view()[j] != addr@,
            decreases n - i,
        {
            if self.approvals[i] == *addr {
                assert(self.approvals_view()[i as int] == addr@);
                return true;
            }
            i += 1;
        }
        false
    }

    /// The number of distinct addresses among the approver slots.
    pub fn total_approvers(&self) -> (r: usize)
        ensures
            r as int == self.approver_views().len(),
            1 <= r <= 3,
    {
        proof {
            broadcast use vstd::set::group_set_axioms;
        }
        let mut count: usize = 1;
        if !(self.approver2 == self.approver1) {
            count += 1;
        }
        match &self.approver3 {
            Some(a3) => {
                if !(*a3 == self.approver1) && !(*a3 == self.approver2) {
                    count += 1;
                }
            },
            None => {},
        }
        count
    }

    /// The number of approvals release requires: 1 for a single distinct
    /// approver, 2 for two distinct, 2 (quorum, not unanimity) for three.
    pub fn required_approvals(&self) -> (r: usize)
        ensures
            r as int == self.spec_required(),
    {
        let distinct = self.total_approvers();
        if distinct == 1 {
            1
        } else {
            2
        }
    }

    /// Whether the record is open and the approvals on file reach quorum.
    pub fn can_be_released(&self) -> (r: bool)
        ensures
            r == (!self.is_completed && self.approvals_view().len() >= self.spec_required()),
    {
        let needed = self.required_approvals();
        !self.is_completed && self.approvals.len() >= needed
    }
}

} // verus!
