//! Startup readiness primitives.
use std::sync::Arc;

use tokio::sync::watch;
use vstd::prelude::*;
use vstd::rwlock::{ReadHandle, RwLock, RwLockPredicate, WriteHandle};

use crate::gate::{GateKey, Gates, SealedKey, SignalKey};
use crate::runtime::StartKey;
use crate::text::{decimal, write_decimal};
use crate::watch::{
    channel, deliveries, first_seen, heard, open_channel, publish, published, send_failed,
    subscribe,
};

verus! {

/// Aggregate startup readiness reported by a running supervisor.
///
/// Readiness is narrower than liveness: it only answers whether all services
/// registered with [`ReadinessMode::Explicit`] have crossed their startup gate at
/// least once, either by signaling readiness or completing successfully.
#[derive(Clone, Copy, Debug, PartialEq, Eq, Structural)]
pub enum SupervisorReadiness {
    /// At least one startup-gated service has not crossed its startup gate.
    Pending,
    /// Every startup-gated service has crossed its startup gate.
    Ready,
}

/// Per-registration startup readiness behavior.
///
/// The default is [`ReadinessMode::Immediate`], which keeps ordinary services out
/// of the readiness path. Use [`ReadinessMode::Explicit`] when the supervisor
/// should wait for the service to finish meaningful startup work.
#[derive(Clone, Copy, Debug, PartialEq, Eq, Structural)]
pub enum ReadinessMode {
    /// The service counts as ready as soon as it is spawned.
    Immediate,
    /// The service must either call [`ReadySignal::mark_ready`] or complete
    /// successfully before any other terminal outcome.
    Explicit,
}

impl Default for ReadinessMode {
    fn default() -> (mode: Self)
        ensures
            mode == ReadinessMode::Immediate,
    {
        ReadinessMode::Immediate
    }
}

/// Readiness of one registered service.
#[derive(Clone, Copy, Debug, PartialEq, Eq, Structural)]
pub enum MemberReadiness {
    /// The service has no startup gate.
    Immediate,
    /// The service has a startup gate, crossed once `ready` holds.
    Explicit { ready: bool },
}

impl MemberReadiness {
    /// Whether the service has no gate or has crossed it.
    pub open spec fn ready(self) -> bool {
        match self {
            MemberReadiness::Immediate => true,
            MemberReadiness::Explicit { ready } => ready,
        }
    }

    /// The readiness of a service that has not run yet.
    pub open spec fn initial(mode: ReadinessMode) -> Self {
        match mode {
            ReadinessMode::Immediate => MemberReadiness::Immediate,
            ReadinessMode::Explicit => MemberReadiness::Explicit { ready: false },
        }
    }

    /// The mode the service was registered with.
    pub open spec fn mode(self) -> ReadinessMode {
        match self {
            MemberReadiness::Immediate => ReadinessMode::Immediate,
            MemberReadiness::Explicit { .. } => ReadinessMode::Explicit,
        }
    }

    /// This readiness once the startup gate, if there is one, is crossed.
    pub open spec fn crossed(self) -> Self {
        match self {
            MemberReadiness::Immediate => MemberReadiness::Immediate,
            MemberReadiness::Explicit { .. } => MemberReadiness::Explicit { ready: true },
        }
    }

    /// Returns whether the service has no gate or has crossed it.
    pub fn is_ready(&self) -> (ready: bool)
        ensures
            ready == self.ready(),
    {
        match self {
            MemberReadiness::Immediate => true,
            MemberReadiness::Explicit { ready } => *ready,
        }
    }

    /// Crosses the startup gate. Returns whether this call was the one that crossed it.
    pub fn mark_ready(&mut self) -> (newly: bool)
        ensures
            newly == !old(self).ready(),
            *final(self) == old(self).crossed(),
    {
        match *self {
            MemberReadiness::Immediate => false,
            MemberReadiness::Explicit { ready } => {
                *self = MemberReadiness::Explicit { ready: true };
                !ready
            },
        }
    }
}

/// The readiness of services that have not run yet, in registration order.
pub open spec fn initial_members(modes: Seq<ReadinessMode>) -> Seq<MemberReadiness> {
    modes.map_values(|mode: ReadinessMode| MemberReadiness::initial(mode))
}

/// The modes the services were registered with.
pub open spec fn member_modes(members: Seq<MemberReadiness>) -> Seq<ReadinessMode> {
    members.map_values(|member: MemberReadiness| member.mode())
}

/// Every gated service has crossed its gate.
pub open spec fn all_ready(members: Seq<MemberReadiness>) -> bool {
    forall|i: int| 0 <= i < members.len() ==> (#[trigger] members[i]).ready()
}

/// No service is gated.
pub open spec fn ungated(modes: Seq<ReadinessMode>) -> bool {
    forall|i: int| 0 <= i < modes.len() ==> (#[trigger] modes[i]) == ReadinessMode::Immediate
}

/// The aggregate readiness of the services.
pub open spec fn aggregate(members: Seq<MemberReadiness>) -> SupervisorReadiness {
    if all_ready(members) {
        SupervisorReadiness::Ready
    } else {
        SupervisorReadiness::Pending
    }
}

/// The service at `index` is known and has no gate or has crossed it.
pub open spec fn member_ready(members: Seq<MemberReadiness>, index: int) -> bool {
    0 <= index < members.len() && members[index].ready()
}

/// The members after the service at `index` declared itself ready. An unknown
/// index changes nothing.
pub open spec fn marked(members: Seq<MemberReadiness>, index: int) -> Seq<MemberReadiness> {
    if 0 <= index < members.len() {
        members.update(index, members[index].crossed())
    } else {
        members
    }
}

/// The number of gates that are not crossed yet.
pub open spec fn gates_closed(members: Seq<MemberReadiness>) -> nat
    decreases members.len(),
{
    if members.len() == 0 {
        0
    } else {
        gates_closed(members.drop_last()) + if members.last().ready() {
            0nat
        } else {
            1nat
        }
    }
}

proof fn lemma_gates_closed_zero(members: Seq<MemberReadiness>)
    ensures
        gates_closed(members) == 0 <==> all_ready(members),
    decreases members.len(),
{
    if members.len() > 0 {
        let rest = members.drop_last();
        lemma_gates_closed_zero(rest);
        if all_ready(members) {
            assert(members.last().ready());
            assert forall|i: int| 0 <= i < rest.len() implies (#[trigger] rest[i]).ready() by {
                assert(members[i].ready());
            }
        } else if all_ready(rest) && members.last().ready() {
            assert forall|i: int| 0 <= i < members.len() implies (#[trigger] members[i]).ready() by {
                if i < rest.len() {
                    assert(rest[i].ready());
                }
            }
        }
    }
}

proof fn lemma_gates_closed_update(
    members: Seq<MemberReadiness>,
    index: int,
    member: MemberReadiness,
)
    requires
        0 <= index < members.len(),
        !members[index].ready(),
        member.ready(),
    ensures
        gates_closed(members.update(index, member)) == gates_closed(members) - 1,
    decreases members.len(),
{
    let after = members.update(index, member);
    if index == members.len() - 1 {
        assert(after.drop_last() =~= members.drop_last());
    } else {
        assert(after.drop_last() =~= members.drop_last().update(index, member));
        lemma_gates_closed_update(members.drop_last(), index, member);
    }
}

proof fn lemma_not_ready_is_gated(members: Seq<MemberReadiness>)
    requires
        !all_ready(members),
    ensures
        !ungated(member_modes(members)),
{
    let i = choose|i: int| 0 <= i < members.len() && !(#[trigger] members[i]).ready();
    assert(member_modes(members)[i] == ReadinessMode::Explicit);
}

/// Services that have not run yet are all ready exactly when none of them is gated.
pub(crate) proof fn lemma_initially_ready(modes: Seq<ReadinessMode>)
    ensures
        all_ready(initial_members(modes)) == ungated(modes),
{
    let members = initial_members(modes);
    if ungated(modes) {
        assert forall|i: int| 0 <= i < members.len() implies (#[trigger] members[i]).ready() by {
            assert(modes[i] == ReadinessMode::Immediate);
        }
    } else {
        let i = choose|i: int|
            0 <= i < modes.len() && #[trigger] modes[i] != ReadinessMode::Immediate;
        assert(!members[i].ready());
    }
}

/// Turns a number of uncrossed gates into the aggregate readiness.
pub fn readiness_state(pending: usize) -> (state: SupervisorReadiness)
    ensures
        state == if pending == 0 {
            SupervisorReadiness::Ready
        } else {
            SupervisorReadiness::Pending
        },
{
    if pending == 0 {
        SupervisorReadiness::Ready
    } else {
        SupervisorReadiness::Pending
    }
}

/// Readiness of all registered services, with the channel that publishes the
/// aggregate.
pub struct ReadinessInner {
    members: Vec<MemberReadiness>,
    pending: usize,
    sender: watch::Sender<SupervisorReadiness>,
}

impl ReadinessInner {
    /// The readiness of each service, in registration order.
    pub closed spec fn members(&self) -> Seq<MemberReadiness> {
        self.members@
    }

    /// The aggregate readiness that subscribers see.
    pub closed spec fn published(&self) -> SupervisorReadiness {
        published(self.sender)
    }

    /// Nobody was subscribed when the last gate was crossed.
    pub closed spec fn unheard(&self) -> bool {
        send_failed(self.sender)
    }

    /// How often subscribers were notified of a change.
    pub closed spec fn notices(&self) -> nat {
        deliveries(self.sender)
    }

    /// The channel that publishes the aggregate readiness.
    pub closed spec fn channel(&self) -> int {
        channel(self.sender)
    }

    /// The counter agrees with the members. Subscribers see the aggregate readiness,
    /// and were notified when it changed, unless nobody was subscribed when the last
    /// gate was crossed.
    pub closed spec fn wf(&self) -> bool {
        &&& self.pending == gates_closed(self.members@)
        &&& self.unheard() ==> {
            &&& all_ready(self.members@)
            &&& !ungated(member_modes(self.members@))
        }
        &&& self.published() == if self.unheard() {
            SupervisorReadiness::Pending
        } else {
            aggregate(self.members@)
        }
        &&& self.notices() == if all_ready(self.members@) && !ungated(member_modes(self.members@))
            && !self.unheard() {
            1nat
        } else {
            0nat
        }
    }

    /// Starts tracking services registered with `modes`.
    pub fn new(modes: &Vec<ReadinessMode>) -> (inner: Self)
        ensures
            inner.wf(),
            inner.members() == initial_members(modes@),
            inner.published() == aggregate(inner.members()),
            inner.notices() == 0,
            !inner.unheard(),
    {
        let mut pending: usize = 0;
        let mut members: Vec<MemberReadiness> = Vec::new();
        let mut i: usize = 0;
        while i < modes.len()
            invariant
                i <= modes.len(),
                members@ =~= initial_members(modes@.take(i as int)),
                pending == gates_closed(members@),
                pending <= i,
            decreases modes.len() - i,
        {
            let ghost before = members@;
            match modes[i] {
                ReadinessMode::Immediate => {
                    members.push(MemberReadiness::Immediate);
                },
                ReadinessMode::Explicit => {
                    pending = pending + 1;
                    members.push(MemberReadiness::Explicit { ready: false });
                },
            }
            proof {
                assert(members@.drop_last() =~= before);
                assert(modes@.take(i + 1) =~= modes@.take(i as int).push(modes@[i as int]));
            }
            i = i + 1;
        }
        let state = readiness_state(pending);
        let sender = open_channel(state);
        let inner = ReadinessInner { members, pending, sender };
        proof {
            assert(modes@.take(modes@.len() as int) =~= modes@);
            lemma_gates_closed_zero(inner.members@);
            assert(member_modes(inner.members@) =~= modes@);
            lemma_initially_ready(modes@);
        }
        inner
    }

    /// Returns the aggregate readiness.
    pub fn state(&self) -> (state: SupervisorReadiness)
        requires
            self.wf(),
        ensures
            state == aggregate(self.members()),
    {
        proof {
            lemma_gates_closed_zero(self.members@);
        }
        readiness_state(self.pending)
    }

    /// Returns whether the service at `index` is known and has no gate or has
    /// crossed it.
    pub fn is_ready(&self, index: usize) -> (ready: bool)
        ensures
            ready == member_ready(self.members(), index as int),
    {
        if index < self.members.len() {
            self.members[index].is_ready()
        } else {
            false
        }
    }

    /// Marks the service at `index` ready. Crossing the last gate publishes
    /// [`SupervisorReadiness::Ready`], which is lost only when nobody is
    /// subscribed; nothing else is ever published.
    pub fn mark_ready(&mut self, index: usize)
        requires
            old(self).wf(),
        ensures
            final(self).wf(),
            final(self).members() == marked(old(self).members(), index as int),
            final(self).channel() == old(self).channel(),
            if all_ready(final(self).members()) && !all_ready(old(self).members()) {
                if final(self).unheard() {
                    &&& final(self).published() == old(self).published()
                    &&& final(self).notices() == old(self).notices()
                } else {
                    &&& final(self).published() == SupervisorReadiness::Ready
                    &&& final(self).notices() == old(self).notices() + 1
                }
            } else {
                &&& final(self).published() == old(self).published()
                &&& final(self).unheard() == old(self).unheard()
                &&& final(self).notices() == old(self).notices()
            },
    {
        if index >= self.members.len() {
            return ;
        }
        let ghost before = self.members@;
        let mut member = self.members[index];
        let newly = member.mark_ready();
        self.members.set(index, member);
        proof {
            assert(self.members@ =~= marked(before, index as int));
            assert(member_modes(self.members@) =~= member_modes(before));
            if !all_ready(before) {
                lemma_not_ready_is_gated(before);
            }
            lemma_gates_closed_zero(before);
            lemma_gates_closed_zero(self.members@);
            if newly {
                lemma_gates_closed_update(before, index as int, member);
            } else {
                assert(self.members@ =~= before);
            }
        }
        if newly {
            let previous = self.pending;
            self.pending = previous - 1;
            if previous == 1 {
                let _ = publish(&mut self.sender, SupervisorReadiness::Ready);
            }
        }
    }

    /// Takes note that the service at `index` exited, and returns whether it is known
    /// and has no gate or has crossed it. Completing crosses its startup gate; no other
    /// exit does.
    pub fn settle(&mut self, index: usize, completed: bool) -> (ready: bool)
        requires
            old(self).wf(),
        ensures
            final(self).wf(),
            final(self).members() == if completed {
                marked(old(self).members(), index as int)
            } else {
                old(self).members()
            },
            final(self).channel() == old(self).channel(),
            !completed ==> *final(self) == *old(self),
            ready == member_ready(final(self).members(), index as int),
    {
        if completed {
            self.mark_ready(index);
        }
        self.is_ready(index)
    }

    /// Returns how many services are tracked.
    pub fn len(&self) -> (services: usize)
        ensures
            services == self.members().len(),
    {
        self.members.len()
    }

    /// Subscribes to aggregate readiness.
    pub fn subscribe(&self) -> (receiver: watch::Receiver<SupervisorReadiness>)
        ensures
            heard(receiver) == self.channel(),
            first_seen(receiver) == self.published(),
    {
        subscribe(&self.sender)
    }
}

/// What stays true of shared readiness: it is well formed, the modes the services were
/// registered with do not change, and neither does the channel.
pub struct ReadinessLock {
    pub modes: Seq<ReadinessMode>,
    pub channel: int,
}

impl ReadinessLock {
    /// `inner` can be shared.
    pub open spec fn admits(self, inner: ReadinessInner) -> bool {
        &&& inner.wf()
        &&& member_modes(inner.members()) == self.modes
        &&& inner.channel() == self.channel
    }
}

impl RwLockPredicate<Gates> for ReadinessLock {
    open spec fn inv(self, gates: Gates) -> bool {
        self.admits(gates.inner())
    }
}

/// What a service with the given mode can be found to be: a service without a gate
/// is ready, an unknown one is not, and a gated one may be either.
pub open spec fn may_be_ready(modes: Seq<ReadinessMode>, index: int, ready: bool) -> bool {
    if 0 <= index < modes.len() {
        modes[index] == ReadinessMode::Immediate ==> ready
    } else {
        !ready
    }
}

/// Readiness shared between the supervisor and its services.
///
/// Any holder of a key may cross its gate at any time, so the contracts below speak of
/// the state that a call finds when it takes the lock, and of the state it leaves.
pub struct SharedReadiness {
    gates: Arc<RwLock<Gates, ReadinessLock>>,
}

impl SharedReadiness {
    /// The modes the services were registered with.
    pub closed spec fn modes(&self) -> Seq<ReadinessMode> {
        self.gates.pred().modes
    }

    /// The channel that publishes the aggregate readiness.
    pub closed spec fn channel(&self) -> int {
        self.gates.pred().channel
    }

    /// `inner` is a state that the shared readiness can be found in.
    pub open spec fn may_hold(&self, inner: ReadinessInner) -> bool {
        (ReadinessLock { modes: self.modes(), channel: self.channel() }).admits(inner)
    }

    /// The sharing started with `inner`.
    pub closed spec fn shares(&self, inner: ReadinessInner) -> bool {
        exists|gates: Gates|
            {
                &&& gates.inner() == inner
                &&& #[trigger] call_ensures(
                    RwLock::<Gates, ReadinessLock>::new,
                    (gates, Ghost(ReadinessLock { modes: self.modes(), channel: self.channel() })),
                    *self.gates,
                )
            }
    }

    /// `state` is the aggregate readiness of a state that was found by taking the lock
    /// for reading.
    pub closed spec fn reports(&self, state: SupervisorReadiness) -> bool {
        exists|handle: ReadHandle<Gates, ReadinessLock>|
            {
                &&& #[trigger] call_ensures(
                    RwLock::<Gates, ReadinessLock>::acquire_read,
                    (&*self.gates,),
                    handle,
                )
                &&& state == aggregate(handle.view().inner().members())
            }
    }

    /// The lock was taken for writing and released with the exit of the service at
    /// `index` taken note of: completing crossed its startup gate, any other exit left
    /// the state as it was found. `ready` says whether the service is known and has no
    /// gate or has crossed it, in the state that was left.
    pub closed spec fn settles(&self, index: usize, completed: bool, ready: bool) -> bool {
        exists|found: Gates, left: Gates, handle: WriteHandle<Gates, ReadinessLock>|
            {
                &&& #[trigger] call_ensures(
                    RwLock::<Gates, ReadinessLock>::acquire_write,
                    (&*self.gates,),
                    (found, handle),
                )
                &&& #[trigger] call_ensures(
                    WriteHandle::<Gates, ReadinessLock>::release_write,
                    (handle, left),
                    (),
                )
                &&& if completed {
                    left.inner().members() == marked(found.inner().members(), index as int)
                } else {
                    left == found
                }
                &&& ready == member_ready(left.inner().members(), index as int)
            }
    }

    /// What settling an exit returns comes from a state that the shared readiness can be
    /// found in, with the startup gate crossed if the service completed.
    pub proof fn lemma_settles(&self, index: usize, completed: bool, ready: bool)
        requires
            self.settles(index, completed, ready),
        ensures
            exists|found: ReadinessInner| #[trigger]
                self.may_hold(found) && ready == member_ready(
                    if completed {
                        marked(found.members(), index as int)
                    } else {
                        found.members()
                    },
                    index as int,
                ),
    {
        let (found, left, handle) = choose|
            found: Gates,
            left: Gates,
            handle: WriteHandle<Gates, ReadinessLock>,
        |
            {
                &&& #[trigger] call_ensures(
                    RwLock::<Gates, ReadinessLock>::acquire_write,
                    (&*self.gates,),
                    (found, handle),
                )
                &&& #[trigger] call_ensures(
                    WriteHandle::<Gates, ReadinessLock>::release_write,
                    (handle, left),
                    (),
                )
                &&& if completed {
                    left.inner().members() == marked(found.inner().members(), index as int)
                } else {
                    left == found
                }
                &&& ready == member_ready(left.inner().members(), index as int)
            };
        assert(self.may_hold(found.inner()));
    }

    /// What is reported is the aggregate readiness of a state that the shared readiness
    /// can be found in.
    pub proof fn lemma_reports(&self, state: SupervisorReadiness)
        requires
            self.reports(state),
        ensures
            exists|inner: ReadinessInner| #[trigger]
                self.may_hold(inner) && state == aggregate(inner.members()),
    {
        let handle = choose|handle: ReadHandle<Gates, ReadinessLock>|
            {
                &&& #[trigger] call_ensures(
                    RwLock::<Gates, ReadinessLock>::acquire_read,
                    (&*self.gates,),
                    handle,
                )
                &&& state == aggregate(handle.view().inner().members())
            };
        assert(self.may_hold(handle.view().inner()));
    }

    /// Returns the aggregate readiness of the state that the shared readiness is found
    /// in.
    pub fn state(&self) -> (state: SupervisorReadiness)
        ensures
            self.reports(state),
            ungated(self.modes()) ==> state == SupervisorReadiness::Ready,
    {
        let handle = self.gates.acquire_read();
        let gates = handle.borrow();
        let state = gates.state();
        proof {
            assert(call_ensures(
                RwLock::<Gates, ReadinessLock>::acquire_read,
                (&*self.gates,),
                handle,
            ));
            if ungated(self.modes()) && !all_ready(gates.inner().members()) {
                lemma_not_ready_is_gated(gates.inner().members());
            }
        }
        handle.release_read();
        state
    }

    /// Crosses the startup gate that `key` is for.
    fn signal(&self, key: &SignalKey)
        requires
            key.channel() == self.channel(),
        ensures
            self.settles(key.index(), true, key.index() < self.modes().len()),
    {
        let (mut gates, handle) = self.gates.acquire_write();
        let ghost found = gates;
        let ghost taken = handle;
        gates.signal(key);
        let ghost left = gates;
        assert(member_modes(left.inner().members()) =~= member_modes(found.inner().members()));
        handle.release_write(gates);
        assert(call_ensures(
            RwLock::<Gates, ReadinessLock>::acquire_write,
            (&*self.gates,),
            (found, taken),
        ));
        assert(call_ensures(
            WriteHandle::<Gates, ReadinessLock>::release_write,
            (taken, left),
            (),
        ));
    }

    /// Returns a key to a service that does not exist.
    fn stray_key(&self, index: usize) -> (key: SignalKey)
        requires
            index >= self.modes().len(),
        ensures
            key.index() == index,
            key.channel() == self.channel(),
    {
        let handle = self.gates.acquire_read();
        let gates = handle.borrow();
        assert(gates.inner().members().len() == member_modes(gates.inner().members()).len());
        let key = gates.stray_key(index);
        handle.release_read();
        key
    }
}

impl Clone for SharedReadiness {
    fn clone(&self) -> (copy: Self)
        ensures
            copy == *self,
    {
        SharedReadiness { gates: Arc::clone(&self.gates) }
    }
}

/// The supervisor's side of shared readiness: it has the key to every startup gate, and
/// what it does with them is counted.
pub struct Steward {
    shared: SharedReadiness,
    keys: Vec<GateKey>,
}

impl Steward {
    /// The readiness that is shared.
    pub closed spec fn shared(&self) -> SharedReadiness {
        self.shared
    }

    /// How often each key was used, in registration order.
    pub closed spec fn uses(&self) -> Seq<nat> {
        self.keys@.map_values(|key: GateKey| key.uses())
    }

    /// There is a fitting key for every service.
    pub closed spec fn wf(&self) -> bool {
        &&& self.keys@.len() == self.shared.modes().len()
        &&& forall|i: int|
            0 <= i < self.keys@.len() ==> {
                &&& (#[trigger] self.keys@[i]).index() == i
                &&& self.keys@[i].channel() == self.shared.channel()
            }
    }

    /// Shares `inner`. No key was used yet.
    pub fn new(inner: ReadinessInner) -> (steward: Self)
        requires
            inner.wf(),
        ensures
            steward.wf(),
            steward.shared().modes() == member_modes(inner.members()),
            steward.shared().channel() == inner.channel(),
            steward.shared().shares(inner),
            steward.uses() == unused(inner.members().len()),
    {
        let ghost lock = ReadinessLock {
            modes: member_modes(inner.members()),
            channel: inner.channel(),
        };
        let (gates, keys) = Gates::close(inner);
        let ghost closed = gates;
        let shared = SharedReadiness { gates: Arc::new(RwLock::new(gates, Ghost(lock))) };
        assert(call_ensures(
            RwLock::<Gates, ReadinessLock>::new,
            (closed, Ghost(lock)),
            *shared.gates,
        ));
        let steward = Steward { shared, keys };
        assert(steward.uses() =~= unused(inner.members().len()));
        steward
    }

    /// Takes note that the service at `index` exited, and returns whether its startup
    /// gate is crossed. Completing crosses its startup gate; no other exit does, and no
    /// other key is used.
    pub fn settle(&mut self, index: usize, completed: bool) -> (ready: bool)
        requires
            old(self).wf(),
        ensures
            final(self).wf(),
            final(self).shared() == old(self).shared(),
            old(self).uses().len() == old(self).shared().modes().len(),
            final(self).uses() == after_settling(old(self).uses(), index, completed),
            old(self).shared().settles(index, completed, ready),
            may_be_ready(old(self).shared().modes(), index as int, ready),
            completed && index < old(self).shared().modes().len() ==> ready,
    {
        let ghost before = *self;
        let (mut gates, handle) = self.shared.gates.acquire_write();
        let ghost found = gates;
        let ghost taken = handle;
        assert(found.inner().members().len() == member_modes(found.inner().members()).len());
        if completed && index < self.keys.len() {
            gates.turn(&mut self.keys[index]);
        }
        let ghost left = gates;
        let ready = gates.is_ready(index);
        proof {
            assert(member_modes(left.inner().members()) =~= member_modes(found.inner().members()));
            if index < before.shared.modes().len() {
                assert(member_modes(left.inner().members())[index as int]
                    == left.inner().members()[index as int].mode());
            }
            assert(self.uses() =~= after_settling(before.uses(), index, completed));
        }
        handle.release_write(gates);
        assert(call_ensures(
            RwLock::<Gates, ReadinessLock>::acquire_write,
            (&*before.shared.gates,),
            (found, taken),
        ));
        assert(call_ensures(
            WriteHandle::<Gates, ReadinessLock>::release_write,
            (taken, left),
            (),
        ));
        ready
    }

    /// Creates the signal for the service at `index`, under seal.
    pub fn signal(&self, index: usize, mode: ReadinessMode) -> (signal: SealedSignal)
        ensures
            signal.gate() == match mode {
                ReadinessMode::Immediate => None,
                ReadinessMode::Explicit => Some((self.shared(), index)),
            },
    {
        match mode {
            ReadinessMode::Immediate => SealedSignal { inner: SealedSignalInner::Immediate },
            ReadinessMode::Explicit => {
                let key = SealedKey::new(index, Ghost(self.shared.channel()));
                SealedSignal {
                    inner: SealedSignalInner::Explicit { shared: self.shared.clone(), key },
                }
            },
        }
    }

    /// Creates the signal for the service at `index`.
    fn issue(&mut self, index: usize, mode: ReadinessMode) -> (signal: ReadySignal)
        requires
            old(self).wf(),
        ensures
            final(self).wf(),
            final(self).shared() == old(self).shared(),
            signal.gate() == match mode {
                ReadinessMode::Immediate => None,
                ReadinessMode::Explicit => Some((old(self).shared(), index)),
            },
    {
        match mode {
            ReadinessMode::Immediate => ReadySignal::immediate(),
            ReadinessMode::Explicit => {
                let shared = self.shared.clone();
                let key = if index < self.keys.len() {
                    self.keys[index].issue()
                } else {
                    shared.stray_key(index)
                };
                ReadySignal::explicit(shared, key)
            },
        }
    }

    /// Returns the aggregate readiness.
    pub fn state(&self) -> (state: SupervisorReadiness)
        ensures
            self.shared().reports(state),
            ungated(self.shared().modes()) ==> state == SupervisorReadiness::Ready,
    {
        self.shared.state()
    }
}

/// No key of `services` services was used.
pub open spec fn unused(services: nat) -> Seq<nat> {
    Seq::new(services, |i: int| 0nat)
}

/// The uses of the keys after the service at `index` exited: completing uses the key of
/// that service once, any other exit uses none.
pub open spec fn after_settling(uses: Seq<nat>, index: usize, completed: bool) -> Seq<nat> {
    if completed && index < uses.len() {
        uses.update(index as int, uses[index as int] + 1)
    } else {
        uses
    }
}

/// What stays true of a shared steward.
pub struct StewardLock {
    pub shared: SharedReadiness,
}

impl RwLockPredicate<Steward> for StewardLock {
    open spec fn inv(self, steward: Steward) -> bool {
        &&& steward.wf()
        &&& steward.shared() == self.shared
    }
}

/// A [`Steward`] with several holders.
pub struct ReadinessTracker {
    inner: Arc<RwLock<Steward, StewardLock>>,
}

impl ReadinessTracker {
    /// The readiness that is shared.
    pub closed spec fn shared(&self) -> SharedReadiness {
        self.inner.pred().shared
    }

    /// The modes the services were registered with.
    pub open spec fn modes(&self) -> Seq<ReadinessMode> {
        self.shared().modes()
    }

    /// The channel that publishes the aggregate readiness.
    pub open spec fn channel(&self) -> int {
        self.shared().channel()
    }

    /// `inner` is a state that the shared readiness can be found in.
    pub open spec fn may_hold(&self, inner: ReadinessInner) -> bool {
        self.shared().may_hold(inner)
    }

    /// The sharing started with `inner`.
    pub open spec fn shares(&self, inner: ReadinessInner) -> bool {
        self.shared().shares(inner)
    }

    /// `state` is the aggregate readiness of a state that was found: see
    /// [`SharedReadiness::reports`].
    pub open spec fn reports(&self, state: SupervisorReadiness) -> bool {
        self.shared().reports(state)
    }

    /// The exit of the service at `index` was taken note of: see
    /// [`SharedReadiness::settles`].
    pub open spec fn settles(&self, index: usize, completed: bool, ready: bool) -> bool {
        self.shared().settles(index, completed, ready)
    }

    /// What settling an exit returns comes from a state that the shared readiness can be
    /// found in: see [`SharedReadiness::lemma_settles`].
    pub proof fn lemma_settles(&self, index: usize, completed: bool, ready: bool)
        requires
            self.settles(index, completed, ready),
        ensures
            exists|found: ReadinessInner| #[trigger]
                self.may_hold(found) && ready == member_ready(
                    if completed {
                        marked(found.members(), index as int)
                    } else {
                        found.members()
                    },
                    index as int,
                ),
    {
        self.shared().lemma_settles(index, completed, ready);
        let found = choose|found: ReadinessInner| #[trigger]
            self.shared().may_hold(found) && ready == member_ready(
                if completed {
                    marked(found.members(), index as int)
                } else {
                    found.members()
                },
                index as int,
            );
        assert(self.may_hold(found));
    }

    /// What is reported is the aggregate readiness of a state that the shared readiness
    /// can be found in.
    pub proof fn lemma_reports(&self, state: SupervisorReadiness)
        requires
            self.reports(state),
        ensures
            exists|inner: ReadinessInner| #[trigger]
                self.may_hold(inner) && state == aggregate(inner.members()),
    {
        self.shared().lemma_reports(state);
        let inner = choose|inner: ReadinessInner| #[trigger]
            self.shared().may_hold(inner) && state == aggregate(inner.members());
        assert(self.may_hold(inner));
    }

    /// Shares `inner`.
    pub fn new(inner: ReadinessInner) -> (tracker: Self)
        requires
            inner.wf(),
        ensures
            tracker.modes() == member_modes(inner.members()),
            tracker.channel() == inner.channel(),
            tracker.shares(inner),
    {
        let steward = Steward::new(inner);
        let ghost lock = StewardLock { shared: steward.shared() };
        ReadinessTracker { inner: Arc::new(RwLock::new(steward, Ghost(lock))) }
    }

    /// Creates the signal for the service at `index`.
    pub fn signal(&self, index: usize, mode: ReadinessMode) -> (signal: ReadySignal)
        ensures
            signal.gate() == match mode {
                ReadinessMode::Immediate => None,
                ReadinessMode::Explicit => Some((self.shared(), index)),
            },
    {
        let (mut steward, handle) = self.inner.acquire_write();
        let signal = steward.issue(index, mode);
        handle.release_write(steward);
        signal
    }

    /// Returns the aggregate readiness of the state that the shared readiness is found
    /// in.
    pub fn state(&self) -> (state: SupervisorReadiness)
        ensures
            self.reports(state),
            ungated(self.modes()) ==> state == SupervisorReadiness::Ready,
    {
        let handle = self.inner.acquire_read();
        let steward = handle.borrow();
        let state = steward.state();
        handle.release_read();
        state
    }

    /// Marks the service at `index` ready, and returns whether the service is known.
    pub fn mark_ready(&self, index: usize) -> (ready: bool)
        ensures
            self.settles(index, true, ready),
            ready == (index < self.modes().len()),
    {
        self.settle(index, true)
    }

    /// Takes note that the service at `index` exited, and returns whether its startup
    /// gate is crossed. Completing crosses its startup gate; no other exit does.
    pub fn settle(&self, index: usize, completed: bool) -> (ready: bool)
        ensures
            self.settles(index, completed, ready),
            may_be_ready(self.modes(), index as int, ready),
            completed && index < self.modes().len() ==> ready,
    {
        let (mut steward, handle) = self.inner.acquire_write();
        let ready = steward.settle(index, completed);
        handle.release_write(steward);
        ready
    }
}

impl Clone for ReadinessTracker {
    fn clone(&self) -> (copy: Self)
        ensures
            copy == *self,
    {
        ReadinessTracker { inner: Arc::clone(&self.inner) }
    }
}

/// Service-local handle used to declare startup readiness.
///
/// The handle is tiny and idempotent. It does not expose snapshots, failure
/// marking, partitions, or policy decisions; those remain supervisor-owned
/// concepts.
pub struct ReadySignal {
    inner: ReadySignalInner,
}

enum ReadySignalInner {
    Immediate,
    Explicit { shared: SharedReadiness, key: SignalKey },
}

impl ReadySignal {
    /// The key fits the gates.
    #[verifier::type_invariant]
    spec fn fits(self) -> bool {
        match self.inner {
            ReadySignalInner::Immediate => true,
            ReadySignalInner::Explicit { shared, key } => key.channel() == shared.channel(),
        }
    }

    /// The startup gate this signal crosses: shared readiness and a position in it.
    pub closed spec fn gate(&self) -> Option<(SharedReadiness, usize)> {
        match self.inner {
            ReadySignalInner::Immediate => None,
            ReadySignalInner::Explicit { shared, key } => Some((shared, key.index())),
        }
    }

    /// How the signal is described in diagnostics.
    pub open spec fn description(&self) -> Seq<char> {
        match self.gate() {
            None => "ReadySignal::Immediate"@,
            Some((_, index)) => "ReadySignal::Explicit { index: "@ + decimal(index as nat)
                + ", .. }"@,
        }
    }

    /// Creates the signal of a service without a startup gate.
    pub(crate) fn immediate() -> (signal: Self)
        ensures
            signal.gate() is None,
    {
        ReadySignal { inner: ReadySignalInner::Immediate }
    }

    /// Creates the signal of the startup-gated service that `key` belongs to.
    pub(crate) fn explicit(shared: SharedReadiness, key: SignalKey) -> (signal: Self)
        requires
            key.channel() == shared.channel(),
        ensures
            signal.gate() == Some((shared, key.index())),
    {
        ReadySignal { inner: ReadySignalInner::Explicit { shared, key } }
    }

    /// The members after this signal was given. A signal without a gate changes
    /// nothing.
    pub open spec fn signalled(&self, members: Seq<MemberReadiness>) -> Seq<MemberReadiness> {
        match self.gate() {
            None => members,
            Some((_, index)) => marked(members, index as int),
        }
    }

    /// Marks this service ready if it participates in explicit startup
    /// readiness. Calling this more than once is harmless.
    pub fn mark_ready(&self)
        ensures
            self.gate() matches Some((shared, index)) ==> shared.settles(
                index,
                true,
                index < shared.modes().len(),
            ),
    {
        proof {
            use_type_invariant(self);
        }
        match &self.inner {
            ReadySignalInner::Immediate => {},
            ReadySignalInner::Explicit { shared, key } => shared.signal(key),
        }
    }

    /// Describes the signal for diagnostics.
    pub fn describe(&self) -> (text: String)
        ensures
            text@ == self.description(),
    {
        match &self.inner {
            ReadySignalInner::Immediate => describe_signal(None),
            ReadySignalInner::Explicit { key, .. } => describe_signal(Some(key.position())),
        }
    }
}

impl Clone for ReadySignal {
    fn clone(&self) -> (copy: Self)
        ensures
            copy == *self,
    {
        proof {
            use_type_invariant(self);
        }
        let inner = match &self.inner {
            ReadySignalInner::Immediate => ReadySignalInner::Immediate,
            ReadySignalInner::Explicit { shared, key } => {
                ReadySignalInner::Explicit { shared: shared.clone(), key: key.clone() }
            },
        };
        ReadySignal { inner }
    }
}

/// Describes the signal of the startup-gated service at `index`, or of a service without
/// a startup gate.
fn describe_signal(index: Option<usize>) -> (text: String)
    ensures
        text@ == match index {
            None => "ReadySignal::Immediate"@,
            Some(index) => "ReadySignal::Explicit { index: "@ + decimal(index as nat) + ", .. }"@,
        },
{
    match index {
        None => "ReadySignal::Immediate".to_owned(),
        Some(index) => {
            let mut text = "ReadySignal::Explicit { index: ".to_owned();
            let number = write_decimal(index);
            text.append(number.as_str());
            text.append(", .. }");
            text
        },
    }
}

/// A [`ReadySignal`] that cannot be given before its service is started.
pub struct SealedSignal {
    inner: SealedSignalInner,
}

enum SealedSignalInner {
    Immediate,
    Explicit { shared: SharedReadiness, key: SealedKey },
}

impl SealedSignal {
    /// The key fits the gates.
    #[verifier::type_invariant]
    spec fn fits(self) -> bool {
        match self.inner {
            SealedSignalInner::Immediate => true,
            SealedSignalInner::Explicit { shared, key } => key.channel() == shared.channel(),
        }
    }

    /// The startup gate this signal crosses: shared readiness and a position in it.
    pub closed spec fn gate(&self) -> Option<(SharedReadiness, usize)> {
        match self.inner {
            SealedSignalInner::Immediate => None,
            SealedSignalInner::Explicit { shared, key } => Some((shared, key.index())),
        }
    }

    /// Describes the signal for diagnostics.
    pub fn describe(&self) -> (text: String)
        ensures
            text@ == self.signal().description(),
    {
        match &self.inner {
            SealedSignalInner::Immediate => describe_signal(None),
            SealedSignalInner::Explicit { key, .. } => {
                proof {
                    key.lemma_opened();
                }
                describe_signal(Some(key.position()))
            },
        }
    }
}

/// What a service can be started with: its signal, sealed or not.
pub trait StartSignal: Sized {
    /// The signal.
    spec fn signal(&self) -> ReadySignal;

    /// Hands the signal to a service that is being started.
    fn into_signal(self, start: &StartKey) -> (signal: ReadySignal)
        ensures
            signal == self.signal(),
    ;
}

impl StartSignal for ReadySignal {
    open spec fn signal(&self) -> ReadySignal {
        *self
    }

    fn into_signal(self, start: &StartKey) -> (signal: ReadySignal) {
        self
    }
}

impl StartSignal for SealedSignal {
    closed spec fn signal(&self) -> ReadySignal {
        match self.inner {
            SealedSignalInner::Immediate => ReadySignal { inner: ReadySignalInner::Immediate },
            SealedSignalInner::Explicit { shared, key } => ReadySignal {
                inner: ReadySignalInner::Explicit { shared, key: key.opened() },
            },
        }
    }

    fn into_signal(self, start: &StartKey) -> (signal: ReadySignal) {
        proof {
            use_type_invariant(&self);
        }
        match self.inner {
            SealedSignalInner::Immediate => ReadySignal::immediate(),
            SealedSignalInner::Explicit { shared, key } => {
                proof {
                    key.lemma_opened();
                }
                let key = key.open(start);
                ReadySignal { inner: ReadySignalInner::Explicit { shared, key } }
            },
        }
    }
}

/// Breaking the seal changes nothing about the signal.
pub proof fn law_seal_keeps_the_signal(sealed: SealedSignal)
    ensures
        sealed.signal().gate() == sealed.gate(),
{
    if let SealedSignalInner::Explicit { shared, key } = sealed.inner {
        key.lemma_opened();
    }
}

/// The members after the services at `indices` declared themselves ready, one after
/// the other.
pub open spec fn marked_all(members: Seq<MemberReadiness>, indices: Seq<int>) -> Seq<
    MemberReadiness,
>
    decreases indices.len(),
{
    if indices.len() == 0 {
        members
    } else {
        marked(marked_all(members, indices.drop_last()), indices.last())
    }
}

/// Declaring readiness more than once is harmless.
pub proof fn law_mark_ready_is_idempotent(members: Seq<MemberReadiness>, index: int)
    ensures
        marked(marked(members, index), index) == marked(members, index),
{
    assert(marked(marked(members, index), index) =~= marked(members, index));
}

/// The order in which services declare themselves ready does not matter.
pub proof fn law_mark_ready_commutes(members: Seq<MemberReadiness>, first: int, second: int)
    ensures
        marked(marked(members, first), second) == marked(marked(members, second), first),
{
    assert(marked(marked(members, first), second) =~= marked(marked(members, second), first));
}

/// Declaring readiness crosses the service's own gate and no other, and no gate is
/// ever closed again.
pub proof fn law_mark_ready_is_local(members: Seq<MemberReadiness>, index: int, other: int)
    requires
        0 <= other < members.len(),
    ensures
        marked(members, index).len() == members.len(),
        index == other ==> marked(members, index)[other].ready(),
        index != other ==> marked(members, index)[other] == members[other],
        members[other].ready() ==> marked(members, index)[other].ready(),
        marked(members, index)[other].mode() == members[other].mode(),
{
}

/// A service without a startup gate, and a service that does not exist, cannot
/// change readiness.
pub proof fn law_mark_without_gate_is_noop(members: Seq<MemberReadiness>, index: int)
    requires
        0 <= index < members.len() ==> members[index].mode() == ReadinessMode::Immediate,
    ensures
        marked(members, index) == members,
{
    assert(marked(members, index) =~= members);
}

/// Once the supervisor is ready it stays ready.
pub proof fn law_readiness_is_stable(members: Seq<MemberReadiness>, index: int)
    requires
        aggregate(members) == SupervisorReadiness::Ready,
    ensures
        aggregate(marked(members, index)) == SupervisorReadiness::Ready,
{
    let after = marked(members, index);
    assert forall|i: int| 0 <= i < after.len() implies (#[trigger] after[i]).ready() by {
        assert(members[i].ready());
    }
}

proof fn lemma_marked_all_pointwise(members: Seq<MemberReadiness>, indices: Seq<int>)
    ensures
        marked_all(members, indices).len() == members.len(),
        forall|i: int|
            0 <= i < members.len() ==> #[trigger] marked_all(members, indices)[i]
                == if indices.contains(i) {
                members[i].crossed()
            } else {
                members[i]
            },
    decreases indices.len(),
{
    if indices.len() > 0 {
        let earlier = indices.drop_last();
        lemma_marked_all_pointwise(members, earlier);
        assert forall|i: int| 0 <= i < members.len() implies #[trigger] marked_all(
            members,
            indices,
        )[i] == if indices.contains(i) {
            members[i].crossed()
        } else {
            members[i]
        } by {
            assert(marked_all(members, earlier)[i] == if earlier.contains(i) {
                members[i].crossed()
            } else {
                members[i]
            });
            if i == indices.last() {
                assert(indices[indices.len() - 1] == i);
            } else {
                if indices.contains(i) {
                    let k = choose|k: int| 0 <= k < indices.len() && indices[k] == i;
                    assert(earlier[k] == i);
                }
                if earlier.contains(i) {
                    let k = choose|k: int| 0 <= k < earlier.len() && earlier[k] == i;
                    assert(indices[k] == i);
                }
            }
        }
    }
}

proof fn lemma_marked_all(modes: Seq<ReadinessMode>, indices: Seq<int>)
    ensures
        marked_all(initial_members(modes), indices).len() == modes.len(),
        forall|i: int|
            0 <= i < modes.len() ==> (#[trigger] marked_all(
                initial_members(modes),
                indices,
            )[i]).ready() == (modes[i] == ReadinessMode::Immediate || indices.contains(i)),
{
    lemma_marked_all_pointwise(initial_members(modes), indices);
}

/// The supervisor is ready exactly when every startup-gated service has declared
/// itself ready.
pub proof fn law_readiness_waits_for_every_gate(modes: Seq<ReadinessMode>, indices: Seq<int>)
    ensures
        aggregate(marked_all(initial_members(modes), indices)) == SupervisorReadiness::Ready <==> (
        forall|i: int|
            0 <= i < modes.len() && #[trigger] modes[i] == ReadinessMode::Explicit
                ==> indices.contains(i)),
{
    lemma_marked_all(modes, indices);
    let after = marked_all(initial_members(modes), indices);
    if all_ready(after) {
        assert forall|i: int|
            0 <= i < modes.len() && #[trigger] modes[i]
                == ReadinessMode::Explicit implies indices.contains(i) by {
            assert(after[i].ready());
        }
    } else {
        let i = choose|i: int| 0 <= i < after.len() && !(#[trigger] after[i]).ready();
        assert(modes[i] == ReadinessMode::Explicit);
    }
}

/// Without startup gates the supervisor is ready from the start.
pub proof fn law_ungated_is_ready(modes: Seq<ReadinessMode>)
    requires
        ungated(modes),
    ensures
        aggregate(initial_members(modes)) == SupervisorReadiness::Ready,
{
    lemma_initially_ready(modes);
}

/// Subscribers see the aggregate readiness. The one exception is a supervisor whose
/// last gate was crossed while nobody was subscribed: its channel stays at
/// [`SupervisorReadiness::Pending`]. In particular nobody ever sees
/// [`SupervisorReadiness::Ready`] while a gate is still to be crossed.
pub proof fn law_subscribers_see_the_aggregate(inner: ReadinessInner)
    requires
        inner.wf(),
    ensures
        !inner.unheard() ==> inner.published() == aggregate(inner.members()),
        inner.unheard() ==> inner.published() == SupervisorReadiness::Pending,
        inner.published() == SupervisorReadiness::Ready ==> all_ready(inner.members()),
{
}

/// A receiver hears of the readiness it subscribed to: it listens to the channel of the
/// shared readiness in every state of it, and that channel holds the aggregate
/// readiness unless nobody was subscribed when the last gate was crossed.
pub proof fn law_receivers_hear_their_tracker(
    tracker: SharedReadiness,
    inner: ReadinessInner,
    receiver: watch::Receiver<SupervisorReadiness>,
)
    requires
        heard(receiver) == tracker.channel(),
        tracker.may_hold(inner),
    ensures
        heard(receiver) == inner.channel(),
        !inner.unheard() ==> inner.published() == aggregate(inner.members()),
{
}

/// Subscribers are notified at most once, and only once the last of at least one gate is
/// crossed.
pub proof fn law_subscribers_are_notified_at_most_once(inner: ReadinessInner)
    requires
        inner.wf(),
    ensures
        inner.notices() <= 1,
        inner.notices() == 1 ==> {
            &&& inner.published() == SupervisorReadiness::Ready
            &&& all_ready(inner.members())
            &&& !ungated(member_modes(inner.members()))
        },
{
}

/// Only the set of services that declared themselves ready matters: neither the order
/// nor the number of the declarations does.
pub proof fn law_only_the_set_of_marks_matters(
    members: Seq<MemberReadiness>,
    first: Seq<int>,
    second: Seq<int>,
)
    requires
        forall|i: int| #[trigger] first.contains(i) <==> #[trigger] second.contains(i),
    ensures
        marked_all(members, first) == marked_all(members, second),
        aggregate(marked_all(members, first)) == aggregate(marked_all(members, second)),
{
    lemma_marked_all_pointwise(members, first);
    lemma_marked_all_pointwise(members, second);
    assert forall|i: int| 0 <= i < members.len() implies #[trigger] marked_all(members, first)[i]
        == marked_all(members, second)[i] by {
        assert(first.contains(i) <==> second.contains(i));
    }
    assert(marked_all(members, first) =~= marked_all(members, second));
}

/// The members after a signal was given `count` times.
pub open spec fn signalled_times(
    signal: ReadySignal,
    members: Seq<MemberReadiness>,
    count: nat,
) -> Seq<MemberReadiness>
    decreases count,
{
    if count == 0 {
        members
    } else {
        signal.signalled(signalled_times(signal, members, (count - 1) as nat))
    }
}

/// Giving a signal, or its clones, more than once is as good as giving it once. A signal
/// of a gated service crosses its startup gate and no other; a signal of an
/// ungated service changes nothing.
pub proof fn law_signals_act_once(
    signal: ReadySignal,
    tracker: SharedReadiness,
    index: usize,
    members: Seq<MemberReadiness>,
    count: nat,
)
    requires
        index < members.len(),
        signal.gate() == match members[index as int].mode() {
            ReadinessMode::Immediate => None,
            ReadinessMode::Explicit => Some((tracker, index)),
        },
        count > 0,
    ensures
        signalled_times(signal, members, count) == signal.signalled(members),
        signal.signalled(members).len() == members.len(),
        member_ready(signal.signalled(members), index as int),
        forall|j: int|
            0 <= j < members.len() && j != index ==> #[trigger] signal.signalled(members)[j]
                == members[j],
        members[index as int].mode() == ReadinessMode::Immediate ==> signal.signalled(members)
            == members,
    decreases count,
{
    if count > 1 {
        law_signals_act_once(signal, tracker, index, members, (count - 1) as nat);
        law_mark_ready_is_idempotent(members, index as int);
    } else {
        assert(signalled_times(signal, members, 0) == members);
    }
}

/// `after` differs from `before` at `index` at most.
pub open spec fn differs_only_at(
    before: Seq<MemberReadiness>,
    after: Seq<MemberReadiness>,
    index: int,
) -> bool {
    &&& after.len() == before.len()
    &&& forall|j: int| 0 <= j < before.len() && j != index ==> #[trigger] after[j] == before[j]
}

/// Settling an exit leaves the startup gates of all other services as they were found,
/// and that of the exiting service too unless it completed. A known service that
/// completed is ready, one that did not is as ready as it was found, and an unknown one
/// is not ready.
pub proof fn law_settling_touches_one_gate(
    shared: SharedReadiness,
    index: usize,
    completed: bool,
    ready: bool,
)
    requires
        shared.settles(index, completed, ready),
    ensures
        exists|found: ReadinessInner, after: Seq<MemberReadiness>|
            {
                &&& #[trigger] shared.may_hold(found)
                &&& #[trigger] differs_only_at(found.members(), after, index as int)
                &&& !completed ==> after == found.members()
                &&& completed && index < after.len() ==> after[index as int].ready()
                &&& index < after.len() ==> after[index as int].mode()
                    == found.members()[index as int].mode()
                &&& ready == (index < after.len() && after[index as int].ready())
            },
{
    shared.lemma_settles(index, completed, ready);
    let found = choose|found: ReadinessInner| #[trigger]
        shared.may_hold(found) && ready == member_ready(
            if completed {
                marked(found.members(), index as int)
            } else {
                found.members()
            },
            index as int,
        );
    let after = if completed {
        marked(found.members(), index as int)
    } else {
        found.members()
    };
    assert(differs_only_at(found.members(), after, index as int));
}

/// A signal reaches one gate: no matter what it is given to, the members that it leaves
/// differ from those it was given to at the place of its own service at most, and a
/// signal without a gate leaves them as they are.
pub proof fn law_signals_reach_one_gate(signal: ReadySignal, members: Seq<MemberReadiness>)
    ensures
        match signal.gate() {
            None => signal.signalled(members) == members,
            Some((_, index)) => {
                &&& differs_only_at(members, signal.signalled(members), index as int)
                &&& index < members.len() ==> signal.signalled(members)[index as int].ready()
            },
        },
{
}

/// Settling uses the key of the exiting service once if it completed, and no other key
/// ever.
pub proof fn law_only_completions_use_keys(
    uses: Seq<nat>,
    index: usize,
    completed: bool,
    other: int,
)
    requires
        0 <= other < uses.len(),
    ensures
        after_settling(uses, index, completed).len() == uses.len(),
        after_settling(uses, index, completed)[other] == uses[other] + if completed && other
            == index {
            1int
        } else {
            0int
        },
{
}

} // verus!
