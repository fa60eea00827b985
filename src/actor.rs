//! The decisions of the actor: where an inbound frame goes and what it is
//! acknowledged with, the steps of the send and await paths, and how hook
//! results are read.
use vstd::prelude::*;

use crate::endpoint::{catch_all_of, valid_name, Endpoint};
use crate::errors::{local_of, Error, RemoteSendError};
use crate::registry::{take_spec, HandlerBuilder, HandlerRegistry, ThreadRegistry};
use crate::types::{DidCommTermination, ThreadId};

verus! {

/// Where an inbound frame is taken after its acknowledgment.
pub enum Route<TS> {
    /// A handler exists: invoke it on the frame, which came in on this endpoint.
    Invoke(Endpoint),
    /// A rendezvous was waiting on the frame's thread: forward the frame, which came
    /// in on this endpoint, on its sender.
    Deliver(TS, Endpoint),
    /// Neither a handler nor a rendezvous: the frame is dropped.
    Unrouted,
    /// The frame was refused; the acknowledgment says why.
    Rejected,
}

/// The outcome of dispatching one inbound frame: the one protocol-level
/// acknowledgment to send back, and the route the frame takes.
pub struct Inbound<TS> {
    pub ack: Result<(), RemoteSendError>,
    pub route: Route<TS>,
}

/// The location named by an acknowledgment for a payload that does not parse.
pub open spec fn dispatch_location() -> Seq<char> {
    "dispatch"@
}

/// The thread path of dispatch: the sender waiting on `thread`, if any, is taken out.
pub open spec fn thread_step<TS>(senders: Map<Seq<char>, TS>, thread: Seq<char>) -> (
    Option<TS>,
    Map<Seq<char>, TS>,
) {
    (take_spec(senders, thread), senders.remove(thread))
}

/// What a hook's result becomes for the caller of the send or await path.
pub open spec fn hook_outcome_spec<I>(
    result: Result<Result<I, DidCommTermination>, RemoteSendError>,
) -> Result<I, Error> {
    match result {
        Ok(Ok(v)) => Ok(v),
        Ok(Err(_)) => Err(Error::Terminated),
        Err(e) => Err(local_of(e)),
    }
}

/// Reads a hook's result: its value, the end of the protocol, or the remote
/// error turned local.
pub fn hook_outcome<I>(result: Result<Result<I, DidCommTermination>, RemoteSendError>) -> (r:
    Result<I, Error>)
    ensures
        r == hook_outcome_spec(result),
{
    match result {
        Ok(Ok(v)) => Ok(v),
        Ok(Err(_)) => Err(Error::Terminated),
        Err(e) => Err(Error::from(e)),
    }
}

/// Reads the acknowledgment of a sent message.
pub fn ack_outcome(ack: Result<(), RemoteSendError>) -> (r: Result<(), Error>)
    ensures
        match ack {
            Ok(()) => r == Ok::<(), Error>(()),
            Err(e) => r == Err::<(), Error>(local_of(e)),
        },
{
    match ack {
        Ok(()) => Ok(()),
        Err(e) => Err(Error::from(e)),
    }
}

/// The state of an actor that its decisions read and change: the handler
/// registry, the thread registry, and whether it has been stopped.
pub struct Actor<H, S, TS, TR> {
    handlers: HandlerRegistry<H, S>,
    threads: ThreadRegistry<TS, TR>,
    stopped: bool,
}

impl<H, S, TS, TR> Actor<H, S, TS, TR> {
    pub closed spec fn registry(&self) -> HandlerRegistry<H, S> {
        self.handlers
    }

    pub closed spec fn thread_table(&self) -> ThreadRegistry<TS, TR> {
        self.threads
    }

    pub closed spec fn is_stopped(&self) -> bool {
        self.stopped
    }

    pub closed spec fn wf(&self) -> bool {
        self.handlers.wf() && self.threads.wf()
    }

    /// The handler path is taken when the frame's endpoint, or its catch-all
    /// form, has a handler. Hook endpoints are never reached from the wire.
    pub open spec fn routes_to_handler(&self, name: Seq<char>) -> bool {
        self.registry().handlers().contains_key((name, false)) || self.registry().handlers().contains_key(
            (catch_all_of(name), false),
        )
    }

    /// On a well-formed actor, a frame that takes the handler path finds a
    /// handler together with its state.
    pub proof fn lemma_handler_route_resolves(&self, name: Seq<char>)
        requires
            self.wf(),
            self.routes_to_handler(name),
        ensures
            self.registry().resolved_key((name, false)) is Some,
    {
        self.handlers.lemma_bound_has_state((name, false));
        self.handlers.lemma_bound_has_state((catch_all_of(name), false));
    }

    pub fn new() -> (r: Self)
        ensures
            r.wf(),
            !r.is_stopped(),
            r.registry().handlers().is_empty(),
            r.registry().states().is_empty(),
            r.thread_table().senders().is_empty(),
            r.thread_table().receivers().is_empty(),
    {
        Actor { handlers: HandlerRegistry::new(), threads: ThreadRegistry::new(), stopped: false }
    }

    pub fn handlers(&self) -> (r: &HandlerRegistry<H, S>)
        requires
            self.wf(),
        ensures
            *r == self.registry(),
            r.wf(),
    {
        &self.handlers
    }

    pub fn threads(&self) -> (r: &ThreadRegistry<TS, TR>)
        requires
            self.wf(),
        ensures
            *r == self.thread_table(),
            r.wf(),
    {
        &self.threads
    }

    pub fn stopped(&self) -> (r: bool)
        ensures
            r == self.is_stopped(),
    {
        self.stopped
    }

    /// Interns a state object and hands back the builder that binds handlers to it.
    pub fn add_state(&mut self, state: S) -> (r: HandlerBuilder)
        requires
            old(self).wf(),
        ensures
            !old(self).registry().states().contains_key(r.object_id_spec()),
            final(self).wf(),
            final(self).registry().states() == old(self).registry().states().insert(
                r.object_id_spec(),
                state,
            ),
            final(self).registry().handlers() == old(self).registry().handlers(),
            final(self).thread_table() == old(self).thread_table(),
            final(self).is_stopped() == old(self).is_stopped(),
    {
        let id = self.handlers.add_state(state);
        HandlerBuilder::new(id)
    }

    /// Binds the handler at the endpoint named `name` to the builder's state.
    /// Fails on a name that is not a valid endpoint; a binding already there is
    /// replaced.
    pub fn add_handler(&mut self, builder: &HandlerBuilder, name: &str, handler: H) -> (r: Result<
        (),
        Error,
    >)
        requires
            old(self).wf(),
            old(self).registry().states().contains_key(builder.object_id_spec()),
        ensures
            final(self).wf(),
            final(self).registry().states() == old(self).registry().states(),
            final(self).thread_table() == old(self).thread_table(),
            final(self).is_stopped() == old(self).is_stopped(),
            valid_name(name@) ==> r is Ok && final(self).registry().handlers()
                == old(self).registry().handlers().insert(
                (name@, false),
                (builder.object_id_spec(), handler),
            ),
            !valid_name(name@) ==> r == Err::<(), Error>(Error::InvalidEndpoint)
                && final(self).registry().handlers() == old(self).registry().handlers(),
    {
        let endpoint = Endpoint::new(name)?;
        self.handlers.insert_handler(endpoint, builder.object_id(), handler);
        Ok(())
    }

    /// Binds a hook, the handler run on the send and await paths of messages
    /// named `name`, to the builder's state. Fails on a name that is not a valid
    /// endpoint; a hook already there is replaced.
    pub fn add_hook(&mut self, builder: &HandlerBuilder, name: &str, hook: H) -> (r: Result<
        (),
        Error,
    >)
        requires
            old(self).wf(),
            old(self).registry().states().contains_key(builder.object_id_spec()),
        ensures
            final(self).wf(),
            final(self).registry().states() == old(self).registry().states(),
            final(self).thread_table() == old(self).thread_table(),
            final(self).is_stopped() == old(self).is_stopped(),
            valid_name(name@) ==> r is Ok && final(self).registry().handlers()
                == old(self).registry().handlers().insert(
                (name@, true),
                (builder.object_id_spec(), hook),
            ),
            !valid_name(name@) ==> r == Err::<(), Error>(Error::InvalidEndpoint)
                && final(self).registry().handlers() == old(self).registry().handlers(),
    {
        let endpoint = Endpoint::new_hook(name)?;
        self.handlers.insert_handler(endpoint, builder.object_id(), hook);
        Ok(())
    }

    /// Stops handling: no message is sent after this, and every waiting sender is
    /// dropped so that its awaiter sees the channel closed.
    pub fn stop_handling_requests(&mut self)
        requires
            old(self).wf(),
        ensures
            final(self).wf(),
            final(self).is_stopped(),
            final(self).thread_table().senders().is_empty(),
            final(self).thread_table().receivers() == old(self).thread_table().receivers(),
            final(self).registry() == old(self).registry(),
    {
        self.stopped = true;
        self.threads.close_senders();
    }

    /// Decides one inbound frame that came in on the endpoint named `name`.
    /// `parsed` is the effective thread id of its payload, or the parser's message
    /// where the payload is not a plaintext message. Every frame gets exactly one
    /// acknowledgment, in `ack`.
    pub fn dispatch(&mut self, name: &str, parsed: Result<ThreadId, String>) -> (r: Inbound<TS>)
        requires
            old(self).wf(),
        ensures
            final(self).wf(),
            final(self).registry() == old(self).registry(),
            final(self).is_stopped() == old(self).is_stopped(),
            final(self).thread_table().receivers() == old(self).thread_table().receivers(),
            !valid_name(name@) ==> {
                &&& r.ack matches Err(RemoteSendError::UnknownRequest(m)) && m@ == name@
                &&& r.route is Rejected
                &&& final(self).thread_table().senders() == old(self).thread_table().senders()
            },
            valid_name(name@) ==> match parsed {
                Err(msg) => {
                    &&& r.ack matches Err(RemoteSendError::DeserializationFailure { location, message })
                        && location@ == dispatch_location() && message@ == msg@
                    &&& r.route is Rejected
                    &&& final(self).thread_table().senders() == old(self).thread_table().senders()
                },
                Ok(tid) => if old(self).routes_to_handler(name@) {
                    &&& r.ack is Ok
                    &&& r.route matches Route::Invoke(e) && e@ == (name@, false)
                    &&& final(self).thread_table().senders() == old(self).thread_table().senders()
                } else {
                    let step = thread_step(old(self).thread_table().senders(), tid@);
                    &&& r.ack is Ok
                    &&& final(self).thread_table().senders() == step.1
                    &&& match step.0 {
                        Some(s) => r.route matches Route::Deliver(d, e) && d == s && e@ == (name@, false),
                        None => r.route is Unrouted,
                    }
                },
            },
    {
        let endpoint = match Endpoint::new(name) {
            Ok(e) => e,
            Err(_) => {
                let err = RemoteSendError::UnknownRequest(name.to_string());
                return Inbound { ack: Err(err), route: Route::Rejected };
            },
        };
        let thread_id = match parsed {
            Err(message) => {
                proof {
                    reveal_strlit("dispatch");
                }
                let err = RemoteSendError::DeserializationFailure {
                    location: "dispatch".to_string(),
                    message,
                };
                return Inbound { ack: Err(err), route: Route::Rejected };
            },
            Ok(t) => t,
        };
        if self.handlers.contains_key(&endpoint) || self.handlers.contains_key(
            &endpoint.to_catch_all(),
        ) {
            proof {
                self.lemma_handler_route_resolves(name@);
            }
            match self.handlers.resolve(&endpoint) {
                Ok(_) => Inbound { ack: Ok(()), route: Route::Invoke(endpoint) },
                Err(e) => Inbound { ack: Err(e), route: Route::Rejected },
            }
        } else {
            match self.threads.take_sender(&thread_id) {
                Some(sender) => Inbound { ack: Ok(()), route: Route::Deliver(sender, endpoint) },
                None => Inbound { ack: Ok(()), route: Route::Unrouted },
            }
        }
    }

    /// The first step of sending on `thread_id`: install its rendezvous before the
    /// message leaves, so that a reply that comes early still finds it. A stopped
    /// actor sends nothing.
    pub fn begin_send(&mut self, thread_id: &ThreadId, sender: TS, receiver: TR) -> (r: Result<
        (),
        Error,
    >)
        requires
            old(self).wf(),
        ensures
            final(self).wf(),
            final(self).registry() == old(self).registry(),
            final(self).is_stopped() == old(self).is_stopped(),
            old(self).is_stopped() ==> r == Err::<(), Error>(Error::Shutdown) && final(self).thread_table()
                == old(self).thread_table(),
            !old(self).is_stopped() ==> r is Ok && final(self).thread_table().senders()
                == old(self).thread_table().senders().insert(thread_id@, sender)
                && final(self).thread_table().receivers()
                == old(self).thread_table().receivers().insert(thread_id@, receiver),
    {
        if self.stopped {
            return Err(Error::Shutdown);
        }
        self.threads.create(thread_id, sender, receiver);
        Ok(())
    }

    /// The hook endpoint to run on an outbound message named `name`, if one is
    /// registered.
    pub fn send_hook(&self, name: &str) -> (r: Result<Option<Endpoint>, Error>)
        requires
            self.wf(),
        ensures
            !valid_name(name@) ==> r == Err::<Option<Endpoint>, Error>(Error::InvalidEndpoint),
            valid_name(name@) && self.registry().handlers().contains_key((name@, true)) ==> (r matches Ok(
                Some(e),
            ) && e@ == (name@, true)),
            valid_name(name@) && !self.registry().handlers().contains_key((name@, true)) ==> r
                matches Ok(None),
    {
        let endpoint = Endpoint::new_hook(name)?;
        if self.handlers.contains_key(&endpoint) {
            Ok(Some(endpoint))
        } else {
            Ok(None)
        }
    }

    /// The hook endpoint to run on a message awaited from `endpoint`, if one is
    /// registered.
    pub fn receive_hook(&self, endpoint: &Endpoint) -> (r: Option<Endpoint>)
        requires
            self.wf(),
        ensures
            self.registry().handlers().contains_key((endpoint@.0, true)) ==> (r matches Some(e)
                && e@ == (endpoint@.0, true)),
            !self.registry().handlers().contains_key((endpoint@.0, true)) ==> r is None,
    {
        let hook = endpoint.with_is_hook(true);
        if self.handlers.contains_key(&hook) {
            Some(hook)
        } else {
            None
        }
    }

    /// The first step of awaiting on `thread_id`: take its receiver out, once.
    pub fn take_receiver(&mut self, thread_id: &ThreadId) -> (r: Result<TR, Error>)
        requires
            old(self).wf(),
        ensures
            final(self).wf(),
            final(self).registry() == old(self).registry(),
            final(self).is_stopped() == old(self).is_stopped(),
            final(self).thread_table().senders() == old(self).thread_table().senders(),
            final(self).thread_table().receivers() == old(self).thread_table().receivers().remove(
                thread_id@,
            ),
            old(self).thread_table().receivers().contains_key(thread_id@) ==> r == Ok::<TR, Error>(
                old(self).thread_table().receivers()[thread_id@],
            ),
            !old(self).thread_table().receivers().contains_key(thread_id@) ==> (r matches Err(
                Error::ThreadNotFound(t),
            ) && t@ == thread_id@),
    {
        match self.threads.take_receiver(thread_id) {
            Some(receiver) => Ok(receiver),
            None => Err(Error::ThreadNotFound(thread_id.duplicate())),
        }
    }
}

/// A reply on a thread that a send opened reaches the sender that send
/// installed, and only once: a second reply on the same thread finds none.
pub proof fn lemma_rendezvous_once<TS>(senders: Map<Seq<char>, TS>, thread: Seq<char>, sender: TS)
    ensures
        thread_step(senders.insert(thread, sender), thread).0 == Some(sender),
        thread_step(thread_step(senders.insert(thread, sender), thread).1, thread).0 is None,
{
    assert(senders.insert(thread, sender).remove(thread).contains_key(thread) == false);
}

/// The payload the send path puts on the wire, given the hook that its lookup
/// found (if any) and what that hook returned.
pub open spec fn outgoing_payload<I>(
    hook: Option<Endpoint>,
    input: I,
    hook_result: Result<Result<I, DidCommTermination>, RemoteSendError>,
) -> Result<I, Error> {
    match hook {
        Some(_) => hook_outcome_spec(hook_result),
        None => Ok(input),
    }
}

/// A send hook that hands its input back leaves the outgoing payload as it is
/// with no hook registered: whatever the lookup of a valid name found, the input
/// goes out unchanged.
pub proof fn lemma_identity_send_hook<H, S, TS, TR, I>(
    actor: Actor<H, S, TS, TR>,
    name: Seq<char>,
    found: Result<Option<Endpoint>, Error>,
    input: I,
)
    requires
        valid_name(name),
        actor.registry().handlers().contains_key((name, true)) ==> (found matches Ok(Some(e)) && e@
            == (name, true)),
        !actor.registry().handlers().contains_key((name, true)) ==> found matches Ok(None),
    ensures
        found matches Ok(hook) && outgoing_payload(
            hook,
            input,
            Ok::<Result<I, DidCommTermination>, RemoteSendError>(Ok(input)),
        ) == Ok::<I, Error>(input),
{
}

/// A hook that hands its input back unchanged leaves the path's result as it
/// would be with no hook; a hook that maps `x` to `y` makes the path yield `y`.
pub proof fn lemma_hook_transparent<I>(x: I)
    ensures
        hook_outcome_spec(Ok::<Result<I, DidCommTermination>, RemoteSendError>(Ok(x))) == Ok::<
            I,
            Error,
        >(x),
{
}

} // verus!
