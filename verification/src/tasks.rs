//! The registry of follow-up tasks: for each product, the handle of the one
//! follow-up that is in flight for it.
//!
//! The registry never cancels a task itself. `replace` and `drop` hand back
//! the handle that they took out, and the caller cancels that task before it
//! does anything else.

use std::collections::HashMap;
use vstd::prelude::*;

verus! {

/// Maps a product id to the handle of its follow-up task.
pub struct TaskRegistry<H> {
    tasks: HashMap<i32, H>,
}

impl<H> View for TaskRegistry<H> {
    type V = Map<i32, H>;

    closed spec fn view(&self) -> Map<i32, H> {
        self.tasks@
    }
}

/// The handles taken out when the ids are dropped one after the other.
pub open spec fn dropped_handles<H>(registry: Map<i32, H>, ids: Seq<i32>) -> Seq<H>
    decreases ids.len(),
{
    if ids.len() == 0 {
        Seq::empty()
    } else {
        let before = ids.drop_last();
        let earlier = dropped_handles(registry, before);
        if registry.contains_key(ids.last()) && !before.contains(ids.last()) {
            earlier.push(registry[ids.last()])
        } else {
            earlier
        }
    }
}

impl<H> TaskRegistry<H> {
    /// A registry without tasks.
    pub fn new() -> (registry: Self)
        ensures
            registry@ == Map::<i32, H>::empty(),
    {
        TaskRegistry { tasks: HashMap::new() }
    }

    /// The number of products that have a follow-up in flight.
    pub fn len(&self) -> (n: usize)
        ensures
            n == self@.len(),
            self@.dom().finite(),
    {
        broadcast use vstd::std_specs::hash::group_hash_axioms;

        self.tasks.len()
    }

    /// Whether the product has a follow-up in flight.
    pub fn contains(&self, product_id: i32) -> (b: bool)
        ensures
            b == self@.contains_key(product_id),
    {
        broadcast use vstd::std_specs::hash::group_hash_axioms;

        self.tasks.contains_key(&product_id)
    }

    /// Installs `handle` as the follow-up of the product and hands back the
    /// handle it takes the place of, for the caller to cancel.
    pub fn replace(&mut self, product_id: i32, handle: H) -> (superseded: Option<H>)
        ensures
            final(self)@ == old(self)@.insert(product_id, handle),
            superseded == old(self)@.get(product_id),
    {
        broadcast use vstd::std_specs::hash::group_hash_axioms;

        self.tasks.insert(product_id, handle)
    }

    /// Takes the follow-up of the product out and hands its handle back, for
    /// the caller to cancel.
    pub fn drop(&mut self, product_id: i32) -> (superseded: Option<H>)
        ensures
            final(self)@ == old(self)@.remove(product_id),
            superseded == old(self)@.get(product_id),
    {
        broadcast use vstd::std_specs::hash::group_hash_axioms;

        self.tasks.remove(&product_id)
    }

    /// Takes the follow-ups of all the products out and hands their handles
    /// back, in the order of the ids, for the caller to cancel.
    pub fn drop_all(&mut self, product_ids: &Vec<i32>) -> (superseded: Vec<H>)
        ensures
            final(self)@ == old(self)@.remove_keys(product_ids@.to_set()),
            superseded@ == dropped_handles(old(self)@, product_ids@),
    {
        let mut superseded: Vec<H> = Vec::new();
        let mut i: usize = 0;
        assert(product_ids@.take(0) =~= Seq::<i32>::empty());
        assert(self@ =~= old(self)@.remove_keys(product_ids@.take(0).to_set()));
        while i < product_ids.len()
            invariant
                i <= product_ids.len(),
                self@ == old(self)@.remove_keys(product_ids@.take(i as int).to_set()),
                superseded@ == dropped_handles(old(self)@, product_ids@.take(i as int)),
            decreases product_ids.len() - i,
        {
            let id = product_ids[i];
            let ghost before = product_ids@.take(i as int);
            let ghost upto = product_ids@.take(i + 1);
            proof {
                assert(upto.drop_last() =~= before);
                assert(upto.last() == id);
                assert(before.to_set().contains(id) <==> before.contains(id));
                assert(upto.to_set() =~= before.to_set().insert(id)) by {
                    assert forall|x: i32| upto.to_set().contains(x) <==> before.to_set().insert(
                        id,
                    ).contains(x) by {
                        if upto.contains(x) {
                            let j = choose|j: int| 0 <= j < upto.len() && upto[j] == x;
                            if j < i {
                                assert(before[j] == x);
                            }
                        }
                        if before.contains(x) {
                            let j = choose|j: int| 0 <= j < before.len() && before[j] == x;
                            assert(upto[j] == x);
                        }
                        if x == id {
                            assert(upto[i as int] == x);
                        }
                    }
                }
            }
            match self.drop(id) {
                Some(handle) => {
                    superseded.push(handle);
                },
                None => {},
            }
            i = i + 1;
            proof {
                assert(self@ =~= old(self)@.remove_keys(upto.to_set()));
            }
        }
        assert(product_ids@.take(i as int) =~= product_ids@);
        superseded
    }
}

/// The registry together with the tasks around it: which tasks run, and
/// which have run to their end.
#[verifier::reject_recursive_types(H)]
pub struct TaskWorld<H> {
    pub registry: Map<i32, H>,
    pub live: Set<H>,
    pub finished: Set<H>,
}

/// What happens to the registry and the tasks.
pub enum TaskOp<H> {
    /// A new task was started for the product and installed with `replace`;
    /// the caller cancelled the task that was handed back.
    Replace(i32, H),
    /// The product was dropped; the caller cancelled the task that was
    /// handed back.
    Drop(i32),
    /// A task ran to its end.
    Finish(H),
}

impl<H> TaskWorld<H> {
    /// No task is registered, runs or has run.
    pub open spec fn empty() -> Self {
        TaskWorld { registry: Map::empty(), live: Set::empty(), finished: Set::empty() }
    }

    /// No handle stands under two products, and the tasks that run are the
    /// registered ones but for those that have run to their end.
    pub open spec fn consistent(self) -> bool {
        &&& self.registry.is_injective()
        &&& self.live == self.registry.values().difference(self.finished)
    }

    /// The tasks that run once the task under `product_id`, if there is one,
    /// has been cancelled.
    pub open spec fn live_without(self, product_id: i32) -> Set<H> {
        match self.registry.get(product_id) {
            Some(h) => self.live.remove(h),
            None => self.live,
        }
    }

    /// Whether the operation can happen: a task that is installed is new,
    /// that is neither registered nor at its end.
    pub open spec fn admits(self, op: TaskOp<H>) -> bool {
        match op {
            TaskOp::Replace(_, handle) => !self.registry.contains_value(handle)
                && !self.finished.contains(handle),
            _ => true,
        }
    }

    /// The world after the operation.
    pub open spec fn apply(self, op: TaskOp<H>) -> Self {
        match op {
            TaskOp::Replace(product_id, handle) => TaskWorld {
                registry: self.registry.insert(product_id, handle),
                live: self.live_without(product_id).insert(handle),
                finished: self.finished,
            },
            TaskOp::Drop(product_id) => TaskWorld {
                registry: self.registry.remove(product_id),
                live: self.live_without(product_id),
                finished: self.finished,
            },
            TaskOp::Finish(handle) => TaskWorld {
                registry: self.registry,
                live: self.live.remove(handle),
                finished: self.finished.insert(handle),
            },
        }
    }

    /// Whether the operations can happen one after the other.
    pub open spec fn admits_all(self, ops: Seq<TaskOp<H>>) -> bool
        decreases ops.len(),
    {
        ops.len() > 0 ==> self.admits(ops[0]) && self.apply(ops[0]).admits_all(ops.drop_first())
    }

    /// The world after the operations, one after the other.
    pub open spec fn run(self, ops: Seq<TaskOp<H>>) -> Self
        decreases ops.len(),
    {
        if ops.len() == 0 {
            self
        } else {
            self.apply(ops[0]).run(ops.drop_first())
        }
    }
}

/// One operation keeps the registry and the running tasks in step.
pub proof fn lemma_step_consistent<H>(world: TaskWorld<H>, op: TaskOp<H>)
    requires
        world.consistent(),
        world.admits(op),
    ensures
        world.apply(op).consistent(),
{
    let after = world.apply(op);
    let m = world.registry;
    match op {
        TaskOp::Replace(id, handle) => {
            assert(after.registry.is_injective()) by {
                assert forall|x: i32, y: i32|
                    x != y && after.registry.dom().contains(x) && after.registry.dom().contains(
                        y,
                    ) implies #[trigger] after.registry[x] != #[trigger] after.registry[y] by {
                    if x == id {
                        assert(m.dom().contains(y));
                    } else if y == id {
                        assert(m.dom().contains(x));
                    }
                }
            }
            assert forall|h: H| after.live.contains(h) <==> after.registry.values().difference(
                after.finished,
            ).contains(h) by {
                if after.registry.contains_value(h) {
                    let k = choose|k: i32| #[trigger]
                        after.registry.dom().contains(k) && after.registry[k] == h;
                    if k != id {
                        assert(m.dom().contains(k) && m[k] == h);
                        if m.dom().contains(id) {
                            assert(m[id] != m[k]);
                        }
                    }
                }
                if h == handle {
                    assert(after.registry.dom().contains(id) && after.registry[id] == h);
                } else if m.contains_value(h) {
                    let k = choose|k: i32| #[trigger] m.dom().contains(k) && m[k] == h;
                    if k != id {
                        assert(after.registry.dom().contains(k) && after.registry[k] == h);
                    }
                }
            }
            assert(after.live =~= after.registry.values().difference(after.finished));
        },
        TaskOp::Drop(id) => {
            assert forall|h: H| after.live.contains(h) <==> after.registry.values().difference(
                after.finished,
            ).contains(h) by {
                if after.registry.contains_value(h) {
                    let k = choose|k: i32| #[trigger]
                        after.registry.dom().contains(k) && after.registry[k] == h;
                    assert(m.dom().contains(k) && m[k] == h);
                    if m.dom().contains(id) {
                        assert(m[id] != m[k]);
                    }
                }
                if m.contains_value(h) {
                    let k = choose|k: i32| #[trigger] m.dom().contains(k) && m[k] == h;
                    if k != id {
                        assert(after.registry.dom().contains(k) && after.registry[k] == h);
                    }
                }
            }
            assert(after.live =~= after.registry.values().difference(after.finished));
        },
        TaskOp::Finish(handle) => {
            assert(after.live =~= after.registry.values().difference(after.finished));
        },
    }
}

/// Operations that can happen one after the other keep the registry and the
/// running tasks in step.
pub proof fn lemma_run_consistent<H>(world: TaskWorld<H>, ops: Seq<TaskOp<H>>)
    requires
        world.consistent(),
        world.admits_all(ops),
    ensures
        world.run(ops).consistent(),
    decreases ops.len(),
{
    if ops.len() > 0 {
        lemma_step_consistent(world, ops[0]);
        lemma_run_consistent(world.apply(ops[0]), ops.drop_first());
    }
}

/// After any sequence of `replace` and `drop` operations, and of tasks
/// running to their end, the registry holds one handle for a product, no
/// handle under two products, and the tasks that run are exactly the
/// registered ones minus those that have run to their end. The caller's part
/// is to cancel each handle that `replace` and `drop` hand back, and to
/// install only the handle of a task it has just started.
pub proof fn law_registry_tracks_live_tasks<H>(ops: Seq<TaskOp<H>>)
    requires
        TaskWorld::<H>::empty().admits_all(ops),
    ensures
        TaskWorld::<H>::empty().run(ops).consistent(),
{
    let start = TaskWorld::<H>::empty();
    assert(start.live =~= start.registry.values().difference(start.finished));
    lemma_run_consistent(start, ops);
}

} // verus!
