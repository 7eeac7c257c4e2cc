//! A model of the task-queue service at its boundary: it owns submitted
//! descriptors and grants each task identifier at most once. The running
//! system's queue lives in the external service; this model states the
//! acceptance rule this core relies on and lets it be exercised without a
//! live service.

use vstd::prelude::*;

use crate::errors::CoreError;
use crate::scheduler::QueueSubmission;
use crate::scheduler::TaskDescriptor;

verus! {

/// The task identifier a descriptor carries, as a function value.
pub open spec fn task_id_fn() -> spec_fn(TaskDescriptor) -> u16 {
    |d: TaskDescriptor| d.id
}

/// The queue's store of accepted descriptors, in order of acceptance.
pub struct TaskQueue {
    tasks: Vec<TaskDescriptor>,
}

/// What `enqueue` does: a submission is taken exactly when its task
/// identifier is not yet in use, and then appended whole; a duplicate
/// identifier is refused with `DuplicateTaskError`, the queue unchanged.
pub open spec fn enqueue_post(
    pre: TaskQueue,
    post: TaskQueue,
    sub: QueueSubmission,
    r: Result<(), CoreError>,
) -> bool {
    &&& (r is Ok <==> !pre.has_task(sub.descriptor.id))
    &&& match r {
        Ok(_) => post.descriptors() == pre.descriptors().push(sub.descriptor),
        Err(e) => {
            &&& e == CoreError::DuplicateTaskError
            &&& post.descriptors() == pre.descriptors()
        },
    }
}

impl TaskQueue {
    /// The descriptors the queue has accepted, oldest first.
    pub closed spec fn descriptors(&self) -> Seq<TaskDescriptor> {
        self.tasks@
    }

    /// The task identifiers in use.
    pub closed spec fn ids(&self) -> Seq<u16> {
        self.tasks@.map_values(task_id_fn())
    }

    /// Whether `id` is already occupied.
    pub closed spec fn has_task(&self, id: u16) -> bool {
        self.ids().contains(id)
    }

    /// An empty queue.
    pub fn new() -> (q: TaskQueue)
        ensures
            q.descriptors() == Seq::<TaskDescriptor>::empty(),
    {
        TaskQueue { tasks: Vec::new() }
    }

    /// How many tasks the queue holds.
    pub fn len(&self) -> (n: usize)
        ensures
            n == self.descriptors().len(),
    {
        self.tasks.len()
    }

    /// The queue's acceptance rule: take the submission exactly when its
    /// task identifier is free, refusing a duplicate whole.
    pub fn enqueue(&mut self, sub: QueueSubmission) -> (r: Result<(), CoreError>)
        ensures
            enqueue_post(*old(self), *final(self), sub, r),
    {
        let id = sub.descriptor.id;
        let mut i: usize = 0;
        while i < self.tasks.len()
            invariant
                *self == *old(self),
                id == sub.descriptor.id,
                i <= self.tasks@.len(),
                forall|j: int| 0 <= j < i ==> self.tasks@[j].id != id,
        decreases self.tasks@.len() - i,
        {
            if self.tasks[i].id == id {
                proof {
                    assert(self.ids()[i as int] == id);
                    assert(self.has_task(id));
                }
                return Err(CoreError::DuplicateTaskError);
            }
            i += 1;
        }
        proof {
            assert(!self.has_task(id)) by {
                if self.has_task(id) {
                    let w = choose|w: int| 0 <= w < self.ids().len() && self.ids()[w] == id;
                    assert(self.tasks@[w].id == id);
                }
            }
        }
        self.tasks.push(sub.descriptor);
        Ok(())
    }
}

/// A task identifier is granted once: after a submission under `id` has been
/// accepted, any further submission under the same `id` is refused with
/// `DuplicateTaskError` and leaves the queue as it was.
pub proof fn lemma_duplicate_task(
    q0: TaskQueue,
    q1: TaskQueue,
    q2: TaskQueue,
    s1: QueueSubmission,
    s2: QueueSubmission,
    r1: Result<(), CoreError>,
    r2: Result<(), CoreError>,
)
    requires
        enqueue_post(q0, q1, s1, r1),
        r1 is Ok,
        s2.descriptor.id == s1.descriptor.id,
        enqueue_post(q1, q2, s2, r2),
    ensures
        r2 matches Err(e) && e == CoreError::DuplicateTaskError,
        q2.descriptors() == q1.descriptors(),
{
    assert(q1.descriptors() == q0.descriptors().push(s1.descriptor));
    assert(q1.ids()[q1.ids().len() - 1] == s1.descriptor.id);
    assert(q1.has_task(s2.descriptor.id));
}

} // verus!
