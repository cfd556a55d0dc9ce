//! Finalizers run at thread exit, and at process exit.
//!
//! A thread owns one registry; the process owns one more, drained by its
//! normal exit routine. Each object that wants a finalizer at thread
//! exit is a node of the registry: the node carries its data, its status and
//! its own link to the node registered before it, so the pending finalizers
//! form an intrusive list, most recent first. The platform backend decides
//! whether a registration can be accepted and what outside work (installing
//! the thread-exit callback, arming the destructor key) it needs first; the
//! callback drains the list from its head, also taking the nodes that the
//! finalizers themselves register while it runs.
use vstd::prelude::*;
use crate::Sequential;

verus! {

/// How many times the destructor-key backend may arm its key in one thread:
/// the platform runs key destructors again, after a destructor set the key,
/// no more often than this.
pub const DESTRUCTOR_ITERATIONS: usize = 4;

/// The value of the shared destructor-key slot while no key was created.
pub const NO_KEY: usize = usize::MAX;

/// How a thread that created a destructor key ends the race to publish it
/// in the shared slot, which it attempted with a compare-and-exchange from
/// [NO_KEY].
#[derive(Clone, Copy, Debug, PartialEq, Eq, Structural)]
pub enum KeyRace {
    /// Its key is published: use it.
    Won(usize),
    /// Another thread published first: delete the key it created and use
    /// the published one.
    Lost { discard: usize, winner: usize },
}

/// Decides the race to publish a created key, from the result of the
/// compare-and-exchange (`Ok` with the old slot value where it succeeded,
/// `Err` with the current one where it failed). A created key equal to
/// [NO_KEY] cannot be published: its creator deletes it and tries again.
pub fn key_race(created: usize, cas: Result<usize, usize>) -> (r: KeyRace)
    requires
        created != NO_KEY,
    ensures
        cas is Ok ==> r == KeyRace::Won(created),
        cas is Err ==> r == (KeyRace::Lost { discard: created, winner: cas->Err_0 }),
{
    match cas {
        Ok(_) => KeyRace::Won(created),
        Err(winner) => KeyRace::Lost { discard: created, winner },
    }
}

/// The status of an object of type [AtThreadLocalExit].
#[derive(Clone, Copy, Debug, PartialEq, Eq, Structural)]
pub enum Status {
    /// The finalizer is not registered yet.
    NonRegistered,
    /// Registration is running and is guaranteed to succeed.
    Registrating,
    /// The finalizer is registered and is guaranteed to run.
    Registered,
    /// The finalizer is running.
    Executing,
    /// The finalizer has run.
    Executed,
    /// The finalizer cannot be registered: registration is closed.
    RegistrationClosed,
}

/// The mechanism that runs the registry's drain when a thread ends.
#[derive(Clone, Copy, Debug, PartialEq, Eq, Structural)]
pub enum Backend {
    /// One thread-exit callback per thread, installed through the dynamic
    /// loader's weak entry point on the first registration.
    LoaderHook,
    /// A process-wide thread-local destructor key, whose exit routine runs
    /// while the thread's value for it is set.
    DestructorKey,
    /// A callback that the loader calls when a thread detaches.
    CallbackArray,
    /// The process's routine run at normal exit, installed on the first
    /// registration; it serves the process-exit registry.
    ProcessExit,
    /// No thread-exit facility at all.
    Unsupported,
}

/// The outside work that a registration needs before it is accepted.
#[derive(Clone, Copy, Debug, PartialEq, Eq, Structural)]
pub enum HookRequest {
    Nothing,
    /// Install the thread-exit callback for this thread.
    InstallExitHook,
    /// Set this thread's value of the destructor key.
    ArmKey,
}

/// The registration state that a node carries: its status and its link to
/// the next pending node.
#[derive(Clone, Copy, Debug, PartialEq, Eq, Structural)]
pub struct AtThreadLocalExitManaged {
    status: Status,
    next: Option<usize>,
}

impl AtThreadLocalExitManaged {
    pub closed spec fn status_spec(self) -> Status {
        self.status
    }

    /// The state of a node that was never registered.
    pub fn new() -> (r: AtThreadLocalExitManaged)
        ensures
            r.status_spec() == Status::NonRegistered,
    {
        AtThreadLocalExitManaged { status: Status::NonRegistered, next: None }
    }
}

/// An object whose finalizer may run at thread exit: its data, and the state
/// that manages its registration.
pub struct AtThreadLocalExit<T> {
    pub data: T,
    pub managed: AtThreadLocalExitManaged,
}

impl<T> AtThreadLocalExit<T> {
    pub fn new(data: T) -> (r: AtThreadLocalExit<T>)
        ensures
            r.data == data,
            r.managed.status_spec() == Status::NonRegistered,
    {
        AtThreadLocalExit { data, managed: AtThreadLocalExitManaged::new() }
    }

    /// The current status.
    pub fn status(&self) -> (r: Status)
        ensures
            r == self.managed.status_spec(),
    {
        self.managed.status
    }
}

impl<T> Sequential for AtThreadLocalExit<T> {
    type Data = T;

    type Sequentializer = AtThreadLocalExitManaged;

    open spec fn data_spec(&self) -> T {
        self.data
    }

    open spec fn sequentializer_spec(&self) -> AtThreadLocalExitManaged {
        self.managed
    }

    fn sequentializer(this: &Self) -> &AtThreadLocalExitManaged {
        &this.managed
    }

    fn data(this: &Self) -> &T {
        &this.data
    }
}

/// The finalizer registry of one thread, or of the process for the
/// process-exit backend, with the state of its backend.
pub struct ExitRegistry<T> {
    nodes: Vec<AtThreadLocalExit<T>>,
    head: Option<usize>,
    backend: Backend,
    /// The exit callback is draining the list.
    destroying: bool,
    /// The scope is over (the loader detached the thread, or the process is
    /// past its exit routine): nothing runs any more.
    done: bool,
    /// How many times the destructor key was armed in this thread.
    iterations: usize,
    /// This thread's value of the destructor key is set.
    armed: bool,
    pending: Ghost<Seq<usize>>,
}

impl<T> ExitRegistry<T> {
    /// The nodes whose finalizers are registered and have not run, most
    /// recently registered first.
    pub closed spec fn pending(&self) -> Seq<usize> {
        self.pending@
    }

    pub closed spec fn len(&self) -> nat {
        self.nodes@.len()
    }

    pub closed spec fn status_of(&self, id: int) -> Status {
        self.nodes@[id].managed.status
    }

    pub closed spec fn data_of(&self, id: int) -> T {
        self.nodes@[id].data
    }

    pub closed spec fn backend(&self) -> Backend {
        self.backend
    }

    /// The key-arming count of the destructor-key backend.
    pub closed spec fn iterations(&self) -> nat {
        self.iterations as nat
    }

    /// This thread's value of the destructor key is set.
    pub closed spec fn armed(&self) -> bool {
        self.armed
    }

    /// The exit callback is draining the list.
    pub closed spec fn destroying(&self) -> bool {
        self.destroying
    }

    /// The scope is over: nothing runs any more.
    pub closed spec fn done(&self) -> bool {
        self.done
    }

    /// No registration can be accepted any more in this thread.
    pub open spec fn is_closed(&self) -> bool {
        match self.backend() {
            Backend::LoaderHook => false,
            Backend::DestructorKey => self.iterations() >= DESTRUCTOR_ITERATIONS && !self.armed(),
            Backend::CallbackArray | Backend::ProcessExit => self.done(),
            Backend::Unsupported => true,
        }
    }

    /// The outside work that a registration needs now.
    pub open spec fn request(&self) -> HookRequest {
        match self.backend() {
            Backend::LoaderHook | Backend::ProcessExit => if self.pending().len() == 0 && !self.destroying()
                && !self.done() {
                HookRequest::InstallExitHook
            } else {
                HookRequest::Nothing
            },
            Backend::DestructorKey => if !self.armed() && self.iterations() < DESTRUCTOR_ITERATIONS {
                HookRequest::ArmKey
            } else {
                HookRequest::Nothing
            },
            _ => HookRequest::Nothing,
        }
    }

    /// The outside work that registering the object `id` needs now.
    pub open spec fn request_for(&self, id: int) -> HookRequest {
        if self.status_of(id) == Status::NonRegistered {
            self.request()
        } else {
            HookRequest::Nothing
        }
    }

    /// The pending list is the chain of links from the head, a node is
    /// pending exactly when its status is registered, and no pending node
    /// appears twice.
    pub closed spec fn wf(&self) -> bool {
        let pend = self.pending@;
        &&& pend.no_duplicates()
        &&& forall|i: int| 0 <= i < pend.len() ==> #[trigger] pend[i] < self.nodes@.len()
        &&& self.head == if pend.len() == 0 {
            None::<usize>
        } else {
            Some(pend[0])
        }
        &&& forall|i: int|
            0 <= i < pend.len() ==> self.nodes@[#[trigger] pend[i] as int].managed.next == if i
                + 1 < pend.len() {
                Some(pend[i + 1])
            } else {
                None::<usize>
            }
        &&& forall|id: usize|
            id < self.nodes@.len() ==> ((#[trigger] self.nodes@[id as int]).managed.status
                == Status::Registered <==> pend.contains(id))
        &&& self.iterations <= DESTRUCTOR_ITERATIONS
    }

    /// An empty registry served by the given backend.
    pub fn new(backend: Backend) -> (r: ExitRegistry<T>)
        ensures
            r.wf(),
            r.len() == 0,
            r.pending() == Seq::<usize>::empty(),
            r.backend() == backend,
            r.iterations() == 0,
            !r.armed(),
            !r.destroying(),
            !r.done(),
    {
        ExitRegistry {
            nodes: Vec::new(),
            head: None,
            backend,
            destroying: false,
            done: false,
            iterations: 0,
            armed: false,
            pending: Ghost(Seq::empty()),
        }
    }

    /// Adds an object to the registry, not registered yet; the
    /// result is its handle, which stays valid as long as the registry.
    pub fn add(&mut self, data: T) -> (id: usize)
        requires
            old(self).wf(),
            old(self).len() < usize::MAX,
        ensures
            final(self).wf(),
            id == old(self).len(),
            final(self).len() == old(self).len() + 1,
            final(self).status_of(id as int) == Status::NonRegistered,
            final(self).data_of(id as int) == data,
            forall|k: int| 0 <= k < old(self).len() ==> final(self).status_of(k) == old(self).status_of(k)
                && final(self).data_of(k) == old(self).data_of(k),
            final(self).pending() == old(self).pending(),
            final(self).backend() == old(self).backend(),
            final(self).done() == old(self).done(),
            final(self).is_closed() == old(self).is_closed(),
            final(self).request() == old(self).request(),
            final(self).destroying() == old(self).destroying(),
    {
        let id = self.nodes.len();
        self.nodes.push(AtThreadLocalExit::new(data));
        proof {
            let pend = self.pending@;
            assert forall|i: int| 0 <= i < pend.len() implies self.nodes@[#[trigger] pend[i] as int].managed.next
                == if i + 1 < pend.len() { Some(pend[i + 1]) } else { None::<usize> } by {
                assert(pend[i] < old(self).nodes@.len());
            }
            assert(!pend.contains(id)) by {
                if pend.contains(id) {
                    let i = choose|i: int| 0 <= i < pend.len() && pend[i] == id;
                    assert(pend[i] < old(self).nodes@.len());
                }
            }
            assert forall|k: usize| k < self.nodes@.len() implies ((#[trigger] self.nodes@[k as int]).managed.status
                == Status::Registered <==> pend.contains(k)) by {
                if k < id {
                    assert(old(self).nodes@[k as int] == self.nodes@[k as int]);
                }
            }
        }
        id
    }

    /// The number of objects in the registry.
    pub fn count(&self) -> (r: usize)
        ensures
            r == self.len(),
    {
        self.nodes.len()
    }

    /// The status of an object.
    pub fn status(&self, id: usize) -> (r: Status)
        requires
            id < self.len(),
        ensures
            r == self.status_of(id as int),
    {
        self.nodes[id].status()
    }

    /// The data of an object.
    pub fn data(&self, id: usize) -> (r: &T)
        requires
            id < self.len(),
        ensures
            *r == self.data_of(id as int),
    {
        &self.nodes[id].data
    }

    /// Registers an object's finalizer to run when the thread ends.
    ///
    /// `hook_ok` is the outcome of the outside work that [hook_request]
    /// asked for just before (ignored where it asked for nothing). An object
    /// that was already registered, run or refused keeps its status, which
    /// comes back as the error. A registration is refused, for good, where
    /// registration is closed or the outside work failed. Otherwise the
    /// object becomes the head of the pending list.
    pub fn register(&mut self, id: usize, hook_ok: bool) -> (r: Result<(), Status>)
        requires
            old(self).wf(),
            id < old(self).len(),
        ensures
            final(self).wf(),
            final(self).len() == old(self).len(),
            final(self).backend() == old(self).backend(),
            final(self).done() == old(self).done(),
            final(self).destroying() == old(self).destroying(),
            forall|k: int| 0 <= k < old(self).len() ==> final(self).data_of(k) == old(self).data_of(k),
            forall|k: int|
                0 <= k < old(self).len() && k != id ==> final(self).status_of(k) == old(self).status_of(k),
            old(self).is_closed() ==> r is Err && final(self).is_closed(),
            old(self).status_of(id as int) != Status::NonRegistered ==> {
                &&& r == Err::<(), Status>(old(self).status_of(id as int))
                &&& final(self).status_of(id as int) == old(self).status_of(id as int)
                &&& final(self).iterations() == old(self).iterations()
                &&& final(self).armed() == old(self).armed()
                &&& final(self).pending() == old(self).pending()
                &&& final(self).is_closed() == old(self).is_closed()
                &&& final(self).request() == old(self).request()
            },
            old(self).status_of(id as int) == Status::NonRegistered && (old(self).is_closed() || (
            old(self).request() != HookRequest::Nothing && !hook_ok)) ==> {
                &&& r == Err::<(), Status>(Status::RegistrationClosed)
                &&& final(self).status_of(id as int) == Status::RegistrationClosed
                &&& final(self).iterations() == old(self).iterations()
                &&& final(self).armed() == old(self).armed()
                &&& final(self).pending() == old(self).pending()
                &&& final(self).is_closed() == old(self).is_closed()
                &&& final(self).request() == old(self).request()
            },
            old(self).status_of(id as int) == Status::NonRegistered && !old(self).is_closed() && (
            old(self).request() == HookRequest::Nothing || hook_ok) ==> {
                &&& r == Ok::<(), Status>(())
                &&& final(self).status_of(id as int) == Status::Registered
                &&& final(self).pending() == seq![id] + old(self).pending()
                &&& !final(self).is_closed()
                &&& final(self).iterations() == if old(self).request() == HookRequest::ArmKey {
                    old(self).iterations() + 1
                } else {
                    old(self).iterations()
                }
                &&& final(self).armed() == (old(self).armed() || old(self).request()
                    == HookRequest::ArmKey)
            },
    {
        let status = self.nodes[id].managed.status;
        if status != Status::NonRegistered {
            return Err(status);
        }
        let closed = self.registration_closed();
        let req = self.hook_request(id);
        let hook_failed = match req {
            HookRequest::Nothing => false,
            _ => !hook_ok,
        };
        if closed || hook_failed {
            self.nodes[id].managed.status = Status::RegistrationClosed;
            return Err(Status::RegistrationClosed);
        }
        if req == HookRequest::ArmKey {
            self.iterations = self.iterations + 1;
            self.armed = true;
        }
        let ghost pend = self.pending@;
        let head = self.head;
        self.nodes[id].managed = AtThreadLocalExitManaged { status: Status::Registered, next: head };
        self.head = Some(id);
        self.pending = Ghost(seq![id] + pend);
        proof {
            let np = self.pending@;
            assert(!pend.contains(id));
            assert forall|i: int, j: int| 0 <= i < j < np.len() implies np[i] != np[j] by {
                if i > 0 {
                    assert(np[i] == pend[i - 1] && np[j] == pend[j - 1]);
                } else {
                    assert(np[j] == pend[j - 1]);
                }
            }
            assert forall|i: int| 0 <= i < np.len() implies #[trigger] np[i] < self.nodes@.len() by {
                if i > 0 {
                    assert(np[i] == pend[i - 1]);
                }
            }
            assert forall|i: int| 0 <= i < np.len() implies self.nodes@[#[trigger] np[i] as int].managed.next
                == if i + 1 < np.len() { Some(np[i + 1]) } else { None::<usize> } by {
                if i > 0 {
                    assert(np[i] == pend[i - 1]);
                    assert(pend[i - 1] != id);
                    assert(pend[i - 1] < old(self).nodes@.len());
                }
            }
            assert forall|k: usize| k < self.nodes@.len() implies ((#[trigger] self.nodes@[k as int]).managed.status
                == Status::Registered <==> np.contains(k)) by {
                if k != id {
                    assert(old(self).nodes@[k as int] == self.nodes@[k as int]);
                    if pend.contains(k) {
                        let i = choose|i: int| 0 <= i < pend.len() && pend[i] == k;
                        assert(np[i + 1] == k);
                    }
                    if np.contains(k) {
                        let i = choose|i: int| 0 <= i < np.len() && np[i] == k;
                        assert(np[0] == id);
                        assert(i != 0);
                        assert(np[i] == pend[i - 1]);
                    }
                } else {
                    assert(np[0] == id);
                }
            }
        }
        Ok(())
    }

    /// The thread-exit callback fired: the drain begins. The platform has
    /// cleared the thread's value of the destructor key before calling it.
    pub fn begin_exit(&mut self)
        requires
            old(self).wf(),
        ensures
            final(self).wf(),
            final(self).len() == old(self).len(),
            final(self).backend() == old(self).backend(),
            final(self).done() == old(self).done(),
            final(self).pending() == old(self).pending(),
            forall|k: int| 0 <= k < old(self).len() ==> final(self).status_of(k) == old(self).status_of(k)
                && final(self).data_of(k) == old(self).data_of(k),
            final(self).destroying(),
            !final(self).armed(),
            final(self).iterations() == old(self).iterations(),
            old(self).is_closed() ==> final(self).is_closed(),
    {
        self.destroying = true;
        self.armed = false;
    }

    /// Takes the next finalizer to run: the most recently registered one
    /// that is pending, now marked as executing; `None` once nothing is
    /// pending.
    pub fn next_finalizer(&mut self) -> (r: Option<usize>)
        requires
            old(self).wf(),
        ensures
            final(self).wf(),
            final(self).len() == old(self).len(),
            final(self).backend() == old(self).backend(),
            final(self).done() == old(self).done(),
            final(self).destroying() == old(self).destroying(),
            final(self).armed() == old(self).armed(),
            final(self).iterations() == old(self).iterations(),
            final(self).is_closed() == old(self).is_closed(),
            forall|k: int| 0 <= k < old(self).len() ==> final(self).data_of(k) == old(self).data_of(k),
            old(self).pending().len() == 0 ==> r is None && final(self).pending() == old(self).pending()
                && forall|k: int| 0 <= k < old(self).len() ==> final(self).status_of(k) == old(self).status_of(k),
            old(self).pending().len() > 0 ==> {
                &&& r == Some(old(self).pending()[0])
                &&& final(self).pending() == old(self).pending().drop_first()
                &&& final(self).status_of(old(self).pending()[0] as int) == Status::Executing
                &&& forall|k: int|
                    0 <= k < old(self).len() && k != old(self).pending()[0] ==> final(self).status_of(k)
                        == old(self).status_of(k)
            },
    {
        match self.head {
            None => None,
            Some(id) => {
                let ghost pend = self.pending@;
                let next = self.nodes[id].managed.next;
                self.nodes[id].managed = AtThreadLocalExitManaged { status: Status::Executing, next: None };
                self.head = next;
                self.pending = Ghost(pend.drop_first());
                proof {
                    let np = self.pending@;
                    assert(pend[0] == id);
                    assert forall|i: int| 0 <= i < np.len() implies #[trigger] np[i] != id by {
                        assert(np[i] == pend[i + 1]);
                    }
                    assert forall|i: int| 0 <= i < np.len() implies #[trigger] np[i] < self.nodes@.len() by {
                        assert(np[i] == pend[i + 1]);
                    }
                    assert forall|i: int| 0 <= i < np.len() implies self.nodes@[#[trigger] np[i] as int].managed.next
                        == if i + 1 < np.len() { Some(np[i + 1]) } else { None::<usize> } by {
                        assert(np[i] == pend[i + 1]);
                        assert(pend[i + 1] < old(self).nodes@.len());
                    }
                    assert forall|k: usize| k < self.nodes@.len() implies ((#[trigger] self.nodes@[k as int]).managed.status
                        == Status::Registered <==> np.contains(k)) by {
                        if k != id {
                            assert(old(self).nodes@[k as int] == self.nodes@[k as int]);
                            if pend.contains(k) {
                                let i = choose|i: int| 0 <= i < pend.len() && pend[i] == k;
                                assert(i != 0);
                                assert(np[i - 1] == k);
                            }
                            if np.contains(k) {
                                let i = choose|i: int| 0 <= i < np.len() && np[i] == k;
                                assert(pend[i + 1] == k);
                            }
                        }
                    }
                }
                Some(id)
            },
        }
    }

    /// Records that the finalizer of an executing object has returned.
    pub fn finish(&mut self, id: usize)
        requires
            old(self).wf(),
            id < old(self).len(),
            old(self).status_of(id as int) == Status::Executing,
        ensures
            final(self).wf(),
            final(self).len() == old(self).len(),
            final(self).backend() == old(self).backend(),
            final(self).done() == old(self).done(),
            final(self).destroying() == old(self).destroying(),
            final(self).armed() == old(self).armed(),
            final(self).iterations() == old(self).iterations(),
            final(self).is_closed() == old(self).is_closed(),
            final(self).request() == old(self).request(),
            final(self).pending() == old(self).pending(),
            final(self).status_of(id as int) == Status::Executed,
            forall|k: int| 0 <= k < old(self).len() && k != id ==> final(self).status_of(k) == old(self).status_of(k),
            forall|k: int| 0 <= k < old(self).len() ==> final(self).data_of(k) == old(self).data_of(k),
    {
        self.nodes[id].managed.status = Status::Executed;
        proof {
            let pend = self.pending@;
            assert(!pend.contains(id));
            assert forall|i: int| 0 <= i < pend.len() implies self.nodes@[#[trigger] pend[i] as int].managed.next
                == if i + 1 < pend.len() { Some(pend[i + 1]) } else { None::<usize> } by {
                assert(pend[i] != id);
                assert(pend[i] < old(self).nodes@.len());
            }
            assert forall|k: usize| k < self.nodes@.len() implies ((#[trigger] self.nodes@[k as int]).managed.status
                == Status::Registered <==> pend.contains(k)) by {
                if k != id {
                    assert(old(self).nodes@[k as int] == self.nodes@[k as int]);
                }
            }
        }
    }

    /// The drain is over. A loader that detached the thread, or a process
    /// past its exit routine, runs nothing more, so their registrations are
    /// closed from now on.
    pub fn end_exit(&mut self)
        requires
            old(self).wf(),
        ensures
            final(self).wf(),
            final(self).len() == old(self).len(),
            final(self).backend() == old(self).backend(),
            final(self).done() == (old(self).done() || old(self).backend() == Backend::CallbackArray
                || old(self).backend() == Backend::ProcessExit),
            final(self).pending() == old(self).pending(),
            forall|k: int| 0 <= k < old(self).len() ==> final(self).status_of(k) == old(self).status_of(k)
                && final(self).data_of(k) == old(self).data_of(k),
            !final(self).destroying(),
            final(self).armed() == old(self).armed(),
            final(self).iterations() == old(self).iterations(),
            final(self).is_closed() == (old(self).is_closed() || old(self).backend()
                == Backend::CallbackArray || old(self).backend() == Backend::ProcessExit),
    {
        self.destroying = false;
        match self.backend {
            Backend::CallbackArray | Backend::ProcessExit => {
                self.done = true;
            },
            _ => {},
        }
    }

    /// Once the destructor key was armed as often as the platform allows and
    /// the thread's value for it is cleared, registration is closed, and a
    /// closed registry refuses every registration (see [register]) and stays
    /// closed through every operation.
    pub proof fn lemma_key_bound_closes(&self)
        requires
            self.backend() == Backend::DestructorKey,
            self.iterations() >= DESTRUCTOR_ITERATIONS,
            !self.armed(),
        ensures
            self.is_closed(),
            self.request() == HookRequest::Nothing,
    {
    }

    /// Each pending object is registered, and pending once. As the drain
    /// takes each pending object once and marks it executing, and a
    /// registration succeeds only from the unregistered status, every
    /// finalizer that was registered runs exactly once.
    pub proof fn lemma_pending_once(&self)
        requires
            self.wf(),
        ensures
            self.pending().no_duplicates(),
            forall|i: int|
                0 <= i < self.pending().len() ==> #[trigger] self.pending()[i] < self.len()
                    && self.status_of(self.pending()[i] as int) == Status::Registered,
    {
        let pend = self.pending@;
        assert forall|i: int| 0 <= i < pend.len() implies #[trigger] pend[i] < self.nodes@.len()
            && self.nodes@[pend[i] as int].managed.status == Status::Registered by {
            assert(pend.contains(pend[i]));
            let id = pend[i];
            assert(self.nodes@[id as int].managed.status == Status::Registered <==> pend.contains(id));
        }
    }

    /// Whether no registration can be accepted any more in this thread.
    pub fn registration_closed(&self) -> (r: bool)
        ensures
            r == self.is_closed(),
            self.wf() ==> self.iterations() <= DESTRUCTOR_ITERATIONS,
    {
        match self.backend {
            Backend::LoaderHook => false,
            Backend::DestructorKey => self.iterations >= DESTRUCTOR_ITERATIONS && !self.armed,
            Backend::CallbackArray | Backend::ProcessExit => self.done,
            Backend::Unsupported => true,
        }
    }

    /// The outside work that registering the object `id` needs now: none
    /// for an object that is not waiting for registration, which
    /// [register] refuses anyway. A registration is accepted only where
    /// that work succeeded.
    pub fn hook_request(&self, id: usize) -> (r: HookRequest)
        requires
            self.wf(),
            id < self.len(),
        ensures
            r == self.request_for(id as int),
    {
        if self.nodes[id].managed.status != Status::NonRegistered {
            return HookRequest::Nothing;
        }
        match self.backend {
            Backend::LoaderHook | Backend::ProcessExit => {
                if self.head.is_none() && !self.destroying && !self.done {
                    HookRequest::InstallExitHook
                } else {
                    HookRequest::Nothing
                }
            },
            Backend::DestructorKey => {
                if !self.armed && self.iterations < DESTRUCTOR_ITERATIONS {
                    HookRequest::ArmKey
                } else {
                    HookRequest::Nothing
                }
            },
            _ => HookRequest::Nothing,
        }
    }
}

/// The pending list after registering the objects of `ids` one after
/// another, the first of them first, onto the pending list `pending`.
pub open spec fn registered_all(pending: Seq<usize>, ids: Seq<usize>) -> Seq<usize>
    decreases ids.len(),
{
    if ids.len() == 0 {
        pending
    } else {
        seq![ids.last()] + registered_all(pending, ids.drop_last())
    }
}

/// Registering objects one after another puts them in front of what was
/// pending, in reverse order. The drain takes the pending list from its
/// front, one object at a time, until it is empty: so the finalizers run in
/// exact reverse order of their registration, and one registered while the
/// drain runs is taken before the drain ends.
pub proof fn lemma_reverse_order(pending: Seq<usize>, ids: Seq<usize>)
    ensures
        registered_all(pending, ids) == ids.reverse() + pending,
    decreases ids.len(),
{
    if ids.len() > 0 {
        lemma_reverse_order(pending, ids.drop_last());
        let l = registered_all(pending, ids);
        let r = ids.reverse() + pending;
        assert(ids.drop_last().reverse().len() == ids.len() - 1);
        assert forall|i: int| 0 <= i < l.len() implies l[i] == r[i] by {
            if i > 0 && i < ids.len() {
                assert(l[i] == ids.drop_last().reverse()[i - 1]);
            }
        }
        assert(l =~= r);
    }
}

} // verus!
