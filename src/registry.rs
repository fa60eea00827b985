//! The handler registry (endpoint to handler and state) and the thread
//! rendezvous registry (thread id to the two ends of a one-shot channel).
use vstd::prelude::*;

use crate::endpoint::{catch_all_of, Endpoint};
use crate::errors::RemoteSendError;
use crate::table::Table;
use crate::types::{random_uuid, ThreadId};

verus! {

/// The text of the error for a handler whose state is missing.
pub open spec fn no_state_message(name: Seq<char>) -> Seq<char> {
    "no state set for "@ + name
}

/// Handlers keyed by endpoint, each bound to the id of a shared state object.
pub struct HandlerRegistry<H, S> {
    endpoints: Table<Endpoint, (u128, H)>,
    states: Table<u128, S>,
}

impl<H, S> HandlerRegistry<H, S> {
    pub closed spec fn handlers(&self) -> Map<(Seq<char>, bool), (u128, H)> {
        self.endpoints@
    }

    pub closed spec fn states(&self) -> Map<u128, S> {
        self.states@
    }

    /// Both tables hold unique keys, and every handler's state exists.
    pub closed spec fn wf(&self) -> bool {
        &&& self.endpoints.wf()
        &&& self.states.wf()
        &&& forall|k: (Seq<char>, bool)|
            self.handlers().contains_key(k) ==> self.states().contains_key(
                #[trigger] self.handlers()[k].0,
            )
    }

    /// A handler bound at `k` whose state can be found.
    pub open spec fn usable(&self, k: (Seq<char>, bool)) -> bool {
        self.handlers().contains_key(k) && self.states().contains_key(self.handlers()[k].0)
    }

    /// Every bound handler's state can be found.
    pub proof fn lemma_bound_has_state(&self, k: (Seq<char>, bool))
        requires
            self.wf(),
        ensures
            self.handlers().contains_key(k) ==> self.usable(k),
    {
        if self.handlers().contains_key(k) {
            assert(self.states().contains_key(self.handlers()[k].0));
        }
    }

    /// The key a lookup of `e` settles on: `e` itself, else its catch-all form.
    pub open spec fn resolved_key(&self, e: (Seq<char>, bool)) -> Option<(Seq<char>, bool)> {
        if self.usable(e) {
            Some(e)
        } else if self.usable((catch_all_of(e.0), e.1)) {
            Some((catch_all_of(e.0), e.1))
        } else {
            None
        }
    }

    pub fn new() -> (r: Self)
        ensures
            r.wf(),
            r.handlers() == Map::<(Seq<char>, bool), (u128, H)>::empty(),
            r.states() == Map::<u128, S>::empty(),
    {
        HandlerRegistry { endpoints: Table::new(), states: Table::new() }
    }

    /// Stores a state object under a fresh id and returns the id. The id is
    /// drawn at random; should it be taken, the least free id is used instead.
    pub fn add_state(&mut self, state: S) -> (id: u128)
        requires
            old(self).wf(),
        ensures
            !old(self).states().contains_key(id),
            final(self).wf(),
            final(self).states() == old(self).states().insert(id, state),
            final(self).handlers() == old(self).handlers(),
    {
        let drawn = random_uuid();
        let id = if self.states.contains_key(&drawn) {
            self.states.unused_key()
        } else {
            drawn
        };
        self.states.insert(id, state);
        assert forall|k: (Seq<char>, bool)| self.handlers().contains_key(k) implies self.states().contains_key(
            #[trigger] self.handlers()[k].0,
        ) by {
            assert(old(self).states().contains_key(old(self).handlers()[k].0));
        }
        id
    }

    pub fn has_state(&self, id: u128) -> (r: bool)
        requires
            self.wf(),
        ensures
            r == self.states().contains_key(id),
    {
        self.states.contains_key(&id)
    }

    /// Binds `endpoint` to a handler and the id of its state; a binding already
    /// there is replaced.
    pub fn insert_handler(&mut self, endpoint: Endpoint, state_id: u128, handler: H)
        requires
            old(self).wf(),
            old(self).states().contains_key(state_id),
        ensures
            final(self).wf(),
            final(self).handlers() == old(self).handlers().insert(endpoint@, (state_id, handler)),
            final(self).states() == old(self).states(),
    {
        let ghost key = endpoint@;
        self.endpoints.insert(endpoint, (state_id, handler));
        assert forall|k: (Seq<char>, bool)| self.handlers().contains_key(k) implies self.states().contains_key(
            #[trigger] self.handlers()[k].0,
        ) by {
            if k != key {
                assert(old(self).states().contains_key(old(self).handlers()[k].0));
            }
        }
    }

    pub fn contains_key(&self, endpoint: &Endpoint) -> (r: bool)
        requires
            self.wf(),
        ensures
            r == self.handlers().contains_key(endpoint@),
    {
        self.endpoints.contains_key(endpoint)
    }

    /// Looks up one endpoint, without fallback.
    fn get_handler(&self, endpoint: &Endpoint) -> (r: Result<(&H, &S), RemoteSendError>)
        requires
            self.wf(),
        ensures
            self.usable(endpoint@) ==> (r matches Ok((h, s)) && *h == self.handlers()[endpoint@].1
                && *s == self.states()[self.handlers()[endpoint@].0]),
            !self.handlers().contains_key(endpoint@) ==> (r matches Err(
                RemoteSendError::UnknownRequest(m),
            ) && m@ == endpoint@.0),
            self.handlers().contains_key(endpoint@) && !self.usable(endpoint@) ==> (r matches Err(
                RemoteSendError::HandlerInvocationError(m),
            ) && m@ == no_state_message(endpoint@.0)),
    {
        match self.endpoints.get(endpoint) {
            Some(entry) => match self.states.get(&entry.0) {
                Some(state) => Ok((&entry.1, state)),
                None => {
                    let msg = "no state set for ".to_string().concat(endpoint.as_str());
                    proof {
                        reveal_strlit("no state set for ");
                    }
                    Err(RemoteSendError::HandlerInvocationError(msg))
                },
            },
            None => Err(RemoteSendError::UnknownRequest(endpoint.to_string())),
        }
    }

    /// Finds the handler for `endpoint` and the state it runs on, falling back to
    /// the catch-all form. Where neither is usable the error is that of `endpoint`
    /// itself, so the peer learns of the name it asked for.
    pub fn resolve(&self, endpoint: &Endpoint) -> (r: Result<(&H, &S), RemoteSendError>)
        requires
            self.wf(),
        ensures
            match self.resolved_key(endpoint@) {
                Some(k) => r matches Ok((h, s)) && *h == self.handlers()[k].1 && *s
                    == self.states()[self.handlers()[k].0],
                None => {
                    &&& !self.handlers().contains_key(endpoint@) ==> (r matches Err(
                        RemoteSendError::UnknownRequest(m),
                    ) && m@ == endpoint@.0)
                    &&& self.handlers().contains_key(endpoint@) ==> (r matches Err(
                        RemoteSendError::HandlerInvocationError(m),
                    ) && m@ == no_state_message(endpoint@.0))
                },
            },
    {
        match self.get_handler(endpoint) {
            Ok(found) => Ok(found),
            Err(error) => {
                let catch_all = endpoint.to_catch_all();
                match self.get_handler(&catch_all) {
                    Ok(found) => Ok(found),
                    Err(_) => Err(error),
                }
            },
        }
    }
}

/// The handle to a state object, through which handlers are bound to it.
pub struct HandlerBuilder {
    object_id: u128,
}

impl HandlerBuilder {
    pub closed spec fn object_id_spec(&self) -> u128 {
        self.object_id
    }

    pub fn new(object_id: u128) -> (r: HandlerBuilder)
        ensures
            r.object_id_spec() == object_id,
    {
        HandlerBuilder { object_id }
    }

    pub fn object_id(&self) -> (r: u128)
        ensures
            r == self.object_id_spec(),
    {
        self.object_id
    }
}

/// The two ends of a one-shot rendezvous per thread.
pub struct ThreadRegistry<TS, TR> {
    senders: Table<ThreadId, TS>,
    receivers: Table<ThreadId, TR>,
}

impl<TS, TR> ThreadRegistry<TS, TR> {
    pub closed spec fn senders(&self) -> Map<Seq<char>, TS> {
        self.senders@
    }

    pub closed spec fn receivers(&self) -> Map<Seq<char>, TR> {
        self.receivers@
    }

    pub closed spec fn wf(&self) -> bool {
        self.senders.wf() && self.receivers.wf()
    }

    pub fn new() -> (r: Self)
        ensures
            r.wf(),
            r.senders() == Map::<Seq<char>, TS>::empty(),
            r.receivers() == Map::<Seq<char>, TR>::empty(),
    {
        ThreadRegistry { senders: Table::new(), receivers: Table::new() }
    }

    /// Installs a fresh rendezvous for `thread_id`; one already there is replaced.
    pub fn create(&mut self, thread_id: &ThreadId, sender: TS, receiver: TR)
        requires
            old(self).wf(),
        ensures
            final(self).wf(),
            final(self).senders() == old(self).senders().insert(thread_id@, sender),
            final(self).receivers() == old(self).receivers().insert(thread_id@, receiver),
    {
        self.senders.insert(thread_id.duplicate(), sender);
        self.receivers.insert(thread_id.duplicate(), receiver);
    }

    pub fn take_sender(&mut self, thread_id: &ThreadId) -> (r: Option<TS>)
        requires
            old(self).wf(),
        ensures
            final(self).wf(),
            final(self).senders() == old(self).senders().remove(thread_id@),
            final(self).receivers() == old(self).receivers(),
            r == take_spec(old(self).senders(), thread_id@),
    {
        self.senders.remove(thread_id)
    }

    pub fn take_receiver(&mut self, thread_id: &ThreadId) -> (r: Option<TR>)
        requires
            old(self).wf(),
        ensures
            final(self).wf(),
            final(self).receivers() == old(self).receivers().remove(thread_id@),
            final(self).senders() == old(self).senders(),
            r == take_spec(old(self).receivers(), thread_id@),
    {
        self.receivers.remove(thread_id)
    }

    pub fn contains_sender(&self, thread_id: &ThreadId) -> (r: bool)
        requires
            self.wf(),
        ensures
            r == self.senders().contains_key(thread_id@),
    {
        self.senders.contains_key(thread_id)
    }

    /// Drops every waiting sender, so that awaiters see their channel closed.
    pub fn close_senders(&mut self)
        requires
            old(self).wf(),
        ensures
            final(self).wf(),
            final(self).senders() == Map::<Seq<char>, TS>::empty(),
            final(self).receivers() == old(self).receivers(),
    {
        self.senders = Table::new();
    }
}

/// What taking `k` out of `m` hands back.
pub open spec fn take_spec<V>(m: Map<Seq<char>, V>, k: Seq<char>) -> Option<V> {
    if m.contains_key(k) {
        Some(m[k])
    } else {
        None
    }
}

} // verus!
