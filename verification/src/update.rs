//! The sweeper: once a minute it goes through the merchants and brings the
//! prices of each one's tracked products back to their targets.
//!
//! The sweeper decides and the caller acts, as with a reconciliation. It
//! never ends: whatever fails, the next merchant is taken up, and after the
//! last one the sweeper sleeps and starts over.

use vstd::prelude::*;
use crate::product::Product;
use crate::supplier::Supplier;

verus! {

/// The seconds between two sweeps.
pub const PAUSE: u64 = 60;

/// The number of merchants that one sweep asks the store for.
pub const SWEEP_LIMIT: usize = 300;

/// The page of merchants that a sweep asks the store for.
pub const SWEEP_PAGE: usize = 1;

/// What the sweeper waits for.
#[derive(Clone, Copy, Debug, PartialEq, Eq, Structural)]
pub enum Waiting {
    /// The merchants, from the store.
    ForSuppliers,
    /// The tracked products of the current merchant, from the store.
    ForGoods,
    /// The end of the reconciliation of the current merchant.
    ForReconcile,
    /// The end of the pause.
    ForWake,
}

/// What the caller is to do next.
#[derive(Clone, Debug, PartialEq, Eq)]
pub enum SweepAction {
    /// Ask the store for a page of merchants.
    ListSuppliers { limit: usize, page: usize },
    /// Ask the store for the tracked products of the merchant at this place
    /// of the list.
    LoadGoods { supplier: usize },
    /// Reconcile these products of the merchant at this place of the list.
    Reconcile { supplier: usize, goods: Vec<Product> },
    /// Sleep.
    Sleep { seconds: u64 },
}

/// How an action went.
#[derive(Clone, Debug, PartialEq, Eq)]
pub enum SweepEvent {
    /// The store gave these merchants, or, for `None`, failed.
    Suppliers(Option<Vec<Supplier>>),
    /// The store gave these products, or, for `None`, failed.
    Goods(Option<Vec<Product>>),
    /// The reconciliation went through, or failed.
    Reconciled(bool),
    /// The pause is over.
    Woke,
}

/// The sweeper.
#[derive(Debug)]
pub struct Sweeper {
    suppliers: Vec<Supplier>,
    current: usize,
    waiting: Waiting,
}

/// The sweeper as mathematical values.
pub struct SweeperView {
    pub suppliers: Seq<Supplier>,
    pub current: nat,
    pub waiting: Waiting,
}

impl View for Sweeper {
    type V = SweeperView;

    closed spec fn view(&self) -> SweeperView {
        SweeperView {
            suppliers: self.suppliers@,
            current: self.current as nat,
            waiting: self.waiting,
        }
    }
}

/// An action as mathematical values.
pub enum SweepActionView {
    ListSuppliers { limit: usize, page: usize },
    LoadGoods { supplier: usize },
    Reconcile { supplier: usize, goods: Seq<Product> },
    Sleep { seconds: u64 },
}

impl View for SweepAction {
    type V = SweepActionView;

    open spec fn view(&self) -> SweepActionView {
        match self {
            SweepAction::ListSuppliers { limit, page } => SweepActionView::ListSuppliers {
                limit: *limit,
                page: *page,
            },
            SweepAction::LoadGoods { supplier } => SweepActionView::LoadGoods {
                supplier: *supplier,
            },
            SweepAction::Reconcile { supplier, goods } => SweepActionView::Reconcile {
                supplier: *supplier,
                goods: goods@,
            },
            SweepAction::Sleep { seconds } => SweepActionView::Sleep { seconds: *seconds },
        }
    }
}

/// The place of the first merchant at or after `from` that has a
/// credential; the length of the list where there is none.
pub open spec fn next_with_credential(suppliers: Seq<Supplier>, from: nat) -> nat
    decreases suppliers.len() - from,
{
    if from >= suppliers.len() {
        suppliers.len()
    } else if suppliers[from as int].wb_jwt is Some {
        from
    } else {
        next_with_credential(suppliers, from + 1)
    }
}

/// The sweep goes on at or after `from`: the next merchant with a credential
/// is taken up; where there is none the sweeper sleeps.
pub open spec fn spec_advance(suppliers: Seq<Supplier>, from: nat) -> (SweeperView, SweepActionView) {
    let next = next_with_credential(suppliers, from);
    if next < suppliers.len() {
        (
            SweeperView { suppliers, current: next, waiting: Waiting::ForGoods },
            SweepActionView::LoadGoods { supplier: next as usize },
        )
    } else {
        (
            SweeperView { suppliers, current: next, waiting: Waiting::ForWake },
            SweepActionView::Sleep { seconds: PAUSE },
        )
    }
}

/// Whether the merchant's products are reconciled: there is a product, and
/// for several the merchant's catalog id is known.
pub open spec fn worth_reconciling(supplier: Supplier, goods: Seq<Product>) -> bool {
    goods.len() == 1 || (goods.len() > 1 && supplier.wb_id is Some)
}

/// The state and the action that an event leads to.
pub open spec fn spec_sweep_step(state: SweeperView, event: SweepEvent) -> (
    SweeperView,
    SweepActionView,
) {
    match state.waiting {
        Waiting::ForSuppliers => match event {
            SweepEvent::Suppliers(Some(suppliers)) => spec_advance(suppliers@, 0),
            _ => spec_advance(Seq::empty(), 0),
        },
        Waiting::ForGoods => match event {
            SweepEvent::Goods(Some(goods)) => if state.current < state.suppliers.len()
                && worth_reconciling(state.suppliers[state.current as int], goods@) {
                (
                    SweeperView { waiting: Waiting::ForReconcile, ..state },
                    SweepActionView::Reconcile { supplier: state.current as usize, goods: goods@ },
                )
            } else {
                spec_advance(state.suppliers, state.current + 1)
            },
            _ => spec_advance(state.suppliers, state.current + 1),
        },
        Waiting::ForReconcile => spec_advance(state.suppliers, state.current + 1),
        Waiting::ForWake => (
            SweeperView { suppliers: Seq::empty(), current: 0, waiting: Waiting::ForSuppliers },
            SweepActionView::ListSuppliers { limit: SWEEP_LIMIT, page: SWEEP_PAGE },
        ),
    }
}

/// Starts the sweeper: its first action is to ask for the merchants.
pub fn run() -> (r: (Sweeper, SweepAction))
    ensures
        r.0@ == (SweeperView {
            suppliers: Seq::empty(),
            current: 0,
            waiting: Waiting::ForSuppliers,
        }),
        r.1@ == (SweepActionView::ListSuppliers { limit: SWEEP_LIMIT, page: SWEEP_PAGE }),
{
    (
        Sweeper { suppliers: Vec::new(), current: 0, waiting: Waiting::ForSuppliers },
        SweepAction::ListSuppliers { limit: SWEEP_LIMIT, page: SWEEP_PAGE },
    )
}

impl Sweeper {
    /// What the sweeper waits for.
    pub fn waiting(&self) -> (waiting: Waiting)
        ensures
            waiting == self@.waiting,
    {
        self.waiting
    }

    /// The merchant at a place of the list.
    pub fn supplier(&self, place: usize) -> (supplier: Option<&Supplier>)
        ensures
            match supplier {
                Some(s) => place < self@.suppliers.len() && *s == self@.suppliers[place as int],
                None => place >= self@.suppliers.len(),
            },
    {
        if place < self.suppliers.len() {
            Some(&self.suppliers[place])
        } else {
            None
        }
    }

    /// Goes on with the sweep at or after `from`.
    fn advance(&mut self, from: usize) -> (action: SweepAction)
        requires
            from <= old(self).suppliers@.len(),
        ensures
            (final(self)@, action@) == spec_advance(old(self)@.suppliers, from as nat),
    {
        proof {
            use_type_invariant(&*self);
        }
        let mut next = from;
        while next < self.suppliers.len() && self.suppliers[next].wb_jwt.is_none()
            invariant
                from <= next <= self.suppliers.len(),
                self.suppliers == old(self).suppliers,
                next_with_credential(self.suppliers@, from as nat) == next_with_credential(
                    self.suppliers@,
                    next as nat,
                ),
            decreases self.suppliers.len() - next,
        {
            next = next + 1;
        }
        self.current = next;
        if next < self.suppliers.len() {
            self.waiting = Waiting::ForGoods;
            SweepAction::LoadGoods { supplier: next }
        } else {
            self.waiting = Waiting::ForWake;
            SweepAction::Sleep { seconds: PAUSE }
        }
    }

    /// Takes the next step of the sweep.
    ///
    /// A merchant without a credential is passed over, and so is one without
    /// tracked products, and one with several products whose catalog id is
    /// not known. A failure of the store or of a reconciliation changes
    /// nothing of what follows: the sweep goes on with the next merchant.
    /// After the last merchant the sweeper sleeps, and then asks for the
    /// merchants again.
    pub fn step(&mut self, event: SweepEvent) -> (action: SweepAction)
        ensures
            (final(self)@, action@) == spec_sweep_step(old(self)@, event),
    {
        proof {
            use_type_invariant(&*self);
        }
        let behind = if self.current < self.suppliers.len() {
            self.current + 1
        } else {
            self.current
        };
        match self.waiting {
            Waiting::ForSuppliers => {
                self.current = 0;
                match event {
                    SweepEvent::Suppliers(Some(suppliers)) => {
                        self.suppliers = suppliers;
                    },
                    _ => {
                        self.suppliers = Vec::new();
                    },
                }
                self.advance(0)
            },
            Waiting::ForGoods => {
                let reconcile = match &event {
                    SweepEvent::Goods(Some(goods)) => self.current < self.suppliers.len() && (
                    goods.len() == 1 || (goods.len() > 1
                        && self.suppliers[self.current].wb_id.is_some())),
                    _ => false,
                };
                match event {
                    SweepEvent::Goods(Some(goods)) if reconcile => {
                        self.waiting = Waiting::ForReconcile;
                        SweepAction::Reconcile { supplier: self.current, goods }
                    },
                    _ => self.advance(behind),
                }
            },
            Waiting::ForReconcile => self.advance(behind),
            Waiting::ForWake => {
                self.current = 0;
                self.suppliers = Vec::new();
                self.waiting = Waiting::ForSuppliers;
                SweepAction::ListSuppliers { limit: SWEEP_LIMIT, page: SWEEP_PAGE }
            },
        }
    }

    /// The current place is one of the list, or its end.
    #[verifier::type_invariant]
    spec fn inv(&self) -> bool {
        self.current <= self.suppliers@.len()
    }
}

/// A failure on one merchant leaves the rest of the sweep as it would have
/// been: whether the reconciliation of the current merchant went through or
/// failed, and whatever the event that reports it, the sweeper takes the same
/// next step, with the same merchants still to come.
pub proof fn law_failure_is_isolated(state: SweeperView, one: SweepEvent, other: SweepEvent)
    requires
        state.waiting is ForReconcile,
    ensures
        spec_sweep_step(state, one) == spec_sweep_step(state, other),
        spec_sweep_step(state, one).0.suppliers == state.suppliers,
{
}

/// A failure of the store to give a merchant's products passes that merchant
/// over and no other: the sweep goes on behind it.
pub proof fn law_store_failure_is_isolated(state: SweeperView)
    requires
        state.waiting is ForGoods,
    ensures
        spec_sweep_step(state, SweepEvent::Goods(None)) == spec_advance(
            state.suppliers,
            state.current + 1,
        ),
        spec_sweep_step(state, SweepEvent::Goods(None)).0.suppliers == state.suppliers,
{
}

/// The sweep only moves forward, and only to a merchant with a credential:
/// the merchant taken up next is at or after `from`, has a credential, and
/// no merchant with a credential between `from` and it is passed over.
pub proof fn law_advance_takes_next_credential(suppliers: Seq<Supplier>, from: nat)
    requires
        from <= suppliers.len(),
    ensures
        from <= next_with_credential(suppliers, from) <= suppliers.len(),
        next_with_credential(suppliers, from) < suppliers.len() ==> suppliers[next_with_credential(
            suppliers,
            from,
        ) as int].wb_jwt is Some,
        forall|i: int|
            from <= i < next_with_credential(suppliers, from) ==> (#[trigger] suppliers[i]).wb_jwt
                is None,
    decreases suppliers.len() - from,
{
    if from < suppliers.len() && suppliers[from as int].wb_jwt is None {
        law_advance_takes_next_credential(suppliers, from + 1);
    }
}

} // verus!
