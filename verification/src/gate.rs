//! Who may cross which startup gate.
//!
//! Shared readiness is kept in [`Gates`], which change only for the holder of a key. A
//! key opens one gate. The supervisor has a [`GateKey`] for each of its gates and every
//! use of it is counted; a service has a [`SignalKey`] for its own. Keys cannot be made
//! up: they come with the gates, and fit no others.
use vstd::prelude::*;

use crate::readiness::{aggregate, marked, member_ready, ReadinessInner, SupervisorReadiness};
use crate::runtime::StartKey;

verus! {

/// Readiness that is shared, and changed with keys only.
pub struct Gates {
    inner: ReadinessInner,
}

/// The supervisor's key to one startup gate.
pub struct GateKey {
    index: usize,
    channel: Ghost<int>,
    uses: Ghost<nat>,
}

/// A service's key to its own startup gate.
pub struct SignalKey {
    index: usize,
    channel: Ghost<int>,
}

/// A service's key that is still sealed. Only starting the service opens it.
pub struct SealedKey {
    index: usize,
    channel: Ghost<int>,
}

impl GateKey {
    /// The service whose startup gate the key opens.
    pub closed spec fn index(&self) -> usize {
        self.index
    }

    /// The channel of the readiness that the key is for.
    pub closed spec fn channel(&self) -> int {
        self.channel@
    }

    /// How often the key was used: turned, or copied for a service without a seal.
    pub closed spec fn uses(&self) -> nat {
        self.uses@
    }

    /// Copies the key for its service.
    pub fn issue(&mut self) -> (key: SignalKey)
        ensures
            key.index() == old(self).index(),
            key.channel() == old(self).channel(),
            final(self).index() == old(self).index(),
            final(self).channel() == old(self).channel(),
            final(self).uses() == old(self).uses() + 1,
    {
        self.uses = Ghost((self.uses@ + 1) as nat);
        SignalKey { index: self.index, channel: self.channel }
    }
}

impl SignalKey {
    /// The service whose startup gate the key opens.
    pub closed spec fn index(&self) -> usize {
        self.index
    }

    /// The channel of the readiness that the key is for.
    pub closed spec fn channel(&self) -> int {
        self.channel@
    }

    /// Returns the service whose startup gate the key opens.
    pub fn position(&self) -> (index: usize)
        ensures
            index == self.index(),
    {
        self.index
    }
}

impl Clone for SignalKey {
    fn clone(&self) -> (copy: Self)
        ensures
            copy == *self,
    {
        SignalKey { index: self.index, channel: self.channel }
    }
}

impl SealedKey {
    /// The service whose startup gate the key opens.
    pub closed spec fn index(&self) -> usize {
        self.index
    }

    /// The channel of the readiness that the key is for.
    pub closed spec fn channel(&self) -> int {
        self.channel@
    }

    /// The key under the seal.
    pub closed spec fn opened(&self) -> SignalKey {
        SignalKey { index: self.index, channel: self.channel }
    }

    /// Creates a sealed key. It opens nothing before its seal is broken.
    pub(crate) fn new(index: usize, channel: Ghost<int>) -> (key: Self)
        ensures
            key.index() == index,
            key.channel() == channel@,
    {
        SealedKey { index, channel }
    }

    /// The seal changes nothing about the key.
    pub proof fn lemma_opened(&self)
        ensures
            self.opened().index() == self.index(),
            self.opened().channel() == self.channel(),
    {
    }

    /// Returns the service whose startup gate the key opens.
    pub fn position(&self) -> (index: usize)
        ensures
            index == self.index(),
    {
        self.index
    }

    /// Opens the key for a service that is being started.
    pub fn open(self, _start: &StartKey) -> (key: SignalKey)
        ensures
            key == self.opened(),
    {
        SignalKey { index: self.index, channel: self.channel }
    }
}

impl Gates {
    /// The readiness behind the gates.
    pub closed spec fn inner(&self) -> ReadinessInner {
        self.inner
    }

    /// Puts readiness behind keys: one key for each service, in registration order.
    pub fn close(inner: ReadinessInner) -> (closed: (Gates, Vec<GateKey>))
        ensures
            closed.0.inner() == inner,
            closed.1@.len() == inner.members().len(),
            forall|i: int|
                0 <= i < closed.1@.len() ==> {
                    &&& (#[trigger] closed.1@[i]).index() == i
                    &&& closed.1@[i].channel() == inner.channel()
                    &&& closed.1@[i].uses() == 0
                },
    {
        let services = inner.len();
        let mut keys: Vec<GateKey> = Vec::new();
        let mut index: usize = 0;
        while index < services
            invariant
                index <= services,
                keys@.len() == index,
                forall|i: int|
                    0 <= i < keys@.len() ==> {
                        &&& (#[trigger] keys@[i]).index() == i
                        &&& keys@[i].channel() == inner.channel()
                        &&& keys@[i].uses() == 0
                    },
            decreases services - index,
        {
            keys.push(
                GateKey { index, channel: Ghost(inner.channel()), uses: Ghost(0) },
            );
            index = index + 1;
        }
        (Gates { inner }, keys)
    }

    /// Crosses the startup gate that `key` is for.
    pub fn turn(&mut self, key: &mut GateKey)
        requires
            old(self).inner().wf(),
            old(key).channel() == old(self).inner().channel(),
        ensures
            final(self).inner().wf(),
            final(self).inner().members() == marked(
                old(self).inner().members(),
                old(key).index() as int,
            ),
            final(self).inner().channel() == old(self).inner().channel(),
            final(key).index() == old(key).index(),
            final(key).channel() == old(key).channel(),
            final(key).uses() == old(key).uses() + 1,
    {
        key.uses = Ghost((key.uses@ + 1) as nat);
        self.inner.mark_ready(key.index);
    }

    /// Crosses the startup gate that `key` is for, on behalf of its service.
    pub fn signal(&mut self, key: &SignalKey)
        requires
            old(self).inner().wf(),
            key.channel() == old(self).inner().channel(),
        ensures
            final(self).inner().wf(),
            final(self).inner().members() == marked(
                old(self).inner().members(),
                key.index() as int,
            ),
            final(self).inner().channel() == old(self).inner().channel(),
    {
        self.inner.mark_ready(key.index);
    }

    /// Returns a key to a service that does not exist.
    pub fn stray_key(&self, index: usize) -> (key: SignalKey)
        requires
            index >= self.inner().members().len(),
        ensures
            key.index() == index,
            key.channel() == self.inner().channel(),
    {
        SignalKey { index, channel: Ghost(self.inner.channel()) }
    }

    /// Returns the aggregate readiness.
    pub fn state(&self) -> (state: SupervisorReadiness)
        requires
            self.inner().wf(),
        ensures
            state == aggregate(self.inner().members()),
    {
        self.inner.state()
    }

    /// Returns whether the service at `index` is known and has no gate or has crossed
    /// it.
    pub fn is_ready(&self, index: usize) -> (ready: bool)
        ensures
            ready == member_ready(self.inner().members(), index as int),
    {
        self.inner.is_ready(index)
    }
}

} // verus!
