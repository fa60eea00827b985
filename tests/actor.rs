use identity_actor::actor::{ack_outcome, hook_outcome, Actor, Route};
use identity_actor::endpoint::Endpoint;
use identity_actor::errors::{Error, RemoteSendError};
use identity_actor::jwt::Jwt;
use identity_actor::registry::HandlerRegistry;
use identity_actor::types::{DidCommPlaintextMessage, DidCommTermination, PeerId, RequestContext, RequestMessage, ThreadId};

type TestActor = Actor<&'static str, u32, char, char>;

fn tid(s: &str) -> ThreadId {
    ThreadId::from_string(s.to_string())
}

fn ep(s: &str) -> Endpoint {
    Endpoint::new(s).unwrap()
}

#[test]
fn endpoint_validation_rejects_bad_names() {
    for name in ["", " ", "a b", "a\tb", "a$b", "a.b", "a//b", "/a", "a/", "a/*/b", "*a", "ä"] {
        assert_eq!(Endpoint::new(name).unwrap_err(), Error::InvalidEndpoint, "{name:?}");
        assert_eq!(Endpoint::new_hook(name).unwrap_err(), Error::InvalidEndpoint, "{name:?}");
    }
}

#[test]
fn endpoint_validation_accepts_grammar() {
    for name in ["greet", "echo/xyz", "a/*", "*", "A-b_9/c/d"] {
        let e = Endpoint::new(name).unwrap();
        assert_eq!(e.as_str(), name);
        assert!(!e.is_hook());
        let h = Endpoint::new_hook(name).unwrap();
        assert_eq!(h.to_string(), name);
        assert!(h.is_hook());
        assert_ne!(e, h);
        assert_eq!(e.with_is_hook(true), h);
    }
}

#[test]
fn endpoint_catch_all_replaces_last_segment() {
    assert_eq!(ep("a/b").to_catch_all().as_str(), "a/*");
    assert_eq!(ep("a/b/c").to_catch_all().as_str(), "a/b/*");
    assert_eq!(ep("a").to_catch_all().as_str(), "*");
    assert_eq!(ep("a/*").to_catch_all().as_str(), "a/*");
    let mut h = ep("x/y");
    h.set_is_hook(true);
    let c = h.to_catch_all();
    assert!(c.is_hook());
    assert_eq!(c.as_str(), "x/*");
}

#[test]
fn catch_all_fallback_reaches_catch_all_handler() {
    let mut actor: TestActor = Actor::new();
    let b = actor.add_state(3);
    actor.add_handler(&b, "a/*", "catch").unwrap();
    let (h, s) = actor.handlers().resolve(&ep("a/b")).ok().unwrap();
    assert_eq!(*h, "catch");
    assert_eq!(*s, 3);
}

#[test]
fn catch_all_fallback_reports_original_name() {
    let registry: HandlerRegistry<&'static str, u32> = HandlerRegistry::new();
    match registry.resolve(&ep("a/b")) {
        Err(e) => assert_eq!(e, RemoteSendError::UnknownRequest("a/b".to_string())),
        Ok(_) => panic!("resolved without a handler"),
    }
    let mut actor: TestActor = Actor::new();
    let b = actor.add_state(0);
    actor.add_handler(&b, "c/*", "other").unwrap();
    match actor.handlers().resolve(&ep("a/b")) {
        Err(e) => assert_eq!(e, RemoteSendError::UnknownRequest("a/b".to_string())),
        Ok(_) => panic!("resolved without a handler"),
    }
}

#[test]
fn exact_handler_wins_over_catch_all() {
    let mut actor: TestActor = Actor::new();
    let b1 = actor.add_state(1);
    let b2 = actor.add_state(2);
    actor.add_handler(&b1, "a/*", "catch").unwrap();
    actor.add_handler(&b2, "a/b", "exact").unwrap();
    let (h, s) = actor.handlers().resolve(&ep("a/b")).ok().unwrap();
    assert_eq!((*h, *s), ("exact", 2));
}

#[test]
fn rebinding_an_endpoint_overwrites() {
    let mut actor: TestActor = Actor::new();
    let b = actor.add_state(1);
    actor.add_handler(&b, "greet", "first").unwrap();
    actor.add_handler(&b, "greet", "second").unwrap();
    let (h, _) = actor.handlers().resolve(&ep("greet")).ok().unwrap();
    assert_eq!(*h, "second");
    assert_eq!(actor.add_handler(&b, "bad name", "x"), Err(Error::InvalidEndpoint));
}

#[test]
fn scenario_greet_handler_invoked() {
    let mut actor: TestActor = Actor::new();
    let b = actor.add_state(0);
    assert!(actor.handlers().has_state(b.object_id()));
    actor.add_handler(&b, "greet", "greet-handler").unwrap();
    let inbound = actor.dispatch("greet", Ok(tid("t1")));
    assert_eq!(inbound.ack, Ok(()));
    assert!(matches!(inbound.route, Route::Invoke(_)));
    let (h, s) = actor.handlers().resolve(&ep("greet")).ok().unwrap();
    assert_eq!((*h, *s), ("greet-handler", 0));
    let peer = PeerId::from_bytes(vec![1, 2, 3]);
    let ctx = RequestContext::new((), peer.clone(), ep("greet"));
    let ctx = ctx.convert("a");
    assert_eq!(ctx.input, "a");
    assert_eq!(ctx.peer.to_bytes(), vec![1, 2, 3]);
    assert_eq!(ctx.endpoint.as_str(), "greet");
}

#[test]
fn scenario_no_handler_no_thread_is_acked_and_dropped() {
    let mut actor: TestActor = Actor::new();
    let inbound = actor.dispatch("foo", Ok(tid("t2")));
    assert_eq!(inbound.ack, Ok(()));
    assert!(matches!(inbound.route, Route::Unrouted));
}

#[test]
fn scenario_thread_rendezvous_once() {
    let mut actor: TestActor = Actor::new();
    let t3 = tid("t3");
    actor.begin_send(&t3, 's', 'r').unwrap();
    assert!(actor.threads().contains_sender(&t3));
    let inbound = actor.dispatch("pong", Ok(tid("t3")));
    assert_eq!(inbound.ack, Ok(()));
    assert!(matches!(inbound.route, Route::Deliver('s', _)));
    assert!(!actor.threads().contains_sender(&t3));
    assert_eq!(actor.take_receiver(&t3), Ok('r'));
    assert_eq!(actor.take_receiver(&t3), Err(Error::ThreadNotFound(tid("t3"))));
    let again = actor.dispatch("pong", Ok(tid("t3")));
    assert_eq!(again.ack, Ok(()));
    assert!(matches!(again.route, Route::Unrouted));
}

#[test]
fn thread_rendezvous_last_writer_wins() {
    let mut actor: TestActor = Actor::new();
    let t = tid("t");
    actor.begin_send(&t, 'a', 'b').unwrap();
    actor.begin_send(&t, 'c', 'd').unwrap();
    assert!(matches!(actor.dispatch("x", Ok(tid("t"))).route, Route::Deliver('c', _)));
    assert_eq!(actor.take_receiver(&t), Ok('d'));
}

#[test]
fn await_without_rendezvous_is_thread_not_found() {
    let mut actor: TestActor = Actor::new();
    assert_eq!(actor.take_receiver(&tid("none")), Err(Error::ThreadNotFound(tid("none"))));
}

#[test]
fn scenario_catch_all_receives_original_endpoint() {
    let mut actor: TestActor = Actor::new();
    let b = actor.add_state(9);
    actor.add_handler(&b, "echo/*", "echo").unwrap();
    let inbound = actor.dispatch("echo/xyz", Ok(tid("t4")));
    assert_eq!(inbound.ack, Ok(()));
    assert!(matches!(inbound.route, Route::Invoke(_)));
    let (h, s) = actor.handlers().resolve(&ep("echo/xyz")).ok().unwrap();
    assert_eq!((*h, *s), ("echo", 9));
}

#[test]
fn scenario_malformed_payload_is_rejected() {
    let mut actor: TestActor = Actor::new();
    let b = actor.add_state(0);
    actor.add_handler(&b, "greet", "g").unwrap();
    let inbound = actor.dispatch("greet", Err("expected value at line 1 column 1".to_string()));
    assert_eq!(
        inbound.ack,
        Err(RemoteSendError::DeserializationFailure {
            location: "dispatch".to_string(),
            message: "expected value at line 1 column 1".to_string(),
        })
    );
    assert!(matches!(inbound.route, Route::Rejected));
    let next = actor.dispatch("greet", Ok(tid("t5")));
    assert_eq!(next.ack, Ok(()));
    assert!(matches!(next.route, Route::Invoke(_)));
}

#[test]
fn scenario_stop_then_send_is_shutdown() {
    let mut actor: TestActor = Actor::new();
    actor.begin_send(&tid("w"), 'a', 'b').unwrap();
    actor.stop_handling_requests();
    assert!(actor.stopped());
    assert!(!actor.threads().contains_sender(&tid("w")));
    assert_eq!(actor.begin_send(&tid("t6"), 'x', 'y'), Err(Error::Shutdown));
}

#[test]
fn hook_endpoints_are_not_reached_from_the_wire() {
    let mut actor: TestActor = Actor::new();
    let b = actor.add_state(0);
    actor.add_hook(&b, "ping", "hook").unwrap();
    let inbound = actor.dispatch("ping", Ok(tid("t7")));
    assert_eq!(inbound.ack, Ok(()));
    assert!(matches!(inbound.route, Route::Unrouted));
    actor.add_handler(&b, "ping", "plain").unwrap();
    match actor.dispatch("ping", Ok(tid("t7"))).route {
        Route::Invoke(e) => {
            assert_eq!(e.as_str(), "ping");
            assert!(!e.is_hook());
        }
        _ => panic!("not invoked"),
    }
}

#[test]
fn invoked_route_carries_the_inbound_endpoint() {
    let mut actor: TestActor = Actor::new();
    let b = actor.add_state(0);
    actor.add_handler(&b, "echo/*", "echo").unwrap();
    match actor.dispatch("echo/xyz", Ok(tid("t8"))).route {
        Route::Invoke(e) => assert_eq!(e, ep("echo/xyz")),
        _ => panic!("not invoked"),
    }
    actor.begin_send(&tid("t9"), 'a', 'b').unwrap();
    match actor.dispatch("pong", Ok(tid("t9"))).route {
        Route::Deliver(s, e) => assert_eq!((s, e), ('a', ep("pong"))),
        _ => panic!("not delivered"),
    }
}

#[test]
fn unparsable_endpoint_is_unknown_request() {
    let mut actor: TestActor = Actor::new();
    actor.begin_send(&tid("t"), 'a', 'b').unwrap();
    let inbound = actor.dispatch("no such/", Ok(tid("t")));
    assert_eq!(inbound.ack, Err(RemoteSendError::UnknownRequest("no such/".to_string())));
    assert!(matches!(inbound.route, Route::Rejected));
    assert!(actor.threads().contains_sender(&tid("t")));
}

#[test]
fn hook_registration_and_run() {
    let mut actor: TestActor = Actor::new();
    let b = actor.add_state(41);
    assert_eq!(actor.add_hook(&b, "bad name", "h"), Err(Error::InvalidEndpoint));
    actor.add_hook(&b, "ping", "double").unwrap();
    let hook = actor.send_hook("ping").unwrap().unwrap();
    assert!(hook.is_hook());
    assert_eq!(hook.as_str(), "ping");
    assert_eq!(actor.receive_hook(&ep("ping")), Some(hook.clone()));
    assert_eq!(actor.send_hook("pong"), Ok(None));
    let (h, s) = actor.handlers().resolve(&hook).ok().unwrap();
    assert_eq!((*h, *s), ("double", 41));
    // the hook runs on its input and the send path takes what it returns
    let input: u32 = 21;
    let returned: Result<Result<u32, DidCommTermination>, RemoteSendError> = Ok(Ok(input * 2));
    assert_eq!(hook_outcome(returned), Ok(42));
    let identity: Result<Result<u32, DidCommTermination>, RemoteSendError> = Ok(Ok(input));
    assert_eq!(hook_outcome(identity), Ok(input));
    // a plain handler at the same name is a different binding
    assert!(actor.handlers().resolve(&ep("ping")).is_err());
}

#[test]
fn add_state_never_reuses_an_id() {
    let mut actor: TestActor = Actor::new();
    let ids: Vec<u128> = (0..64).map(|i| actor.add_state(i).object_id()).collect();
    for (i, a) in ids.iter().enumerate() {
        for b in &ids[i + 1..] {
            assert_ne!(a, b);
        }
    }
}

#[test]
fn send_hook_lookup() {
    let mut actor: TestActor = Actor::new();
    assert_eq!(actor.send_hook("ping"), Ok(None));
    assert_eq!(actor.send_hook("bad name"), Err(Error::InvalidEndpoint));
    let b = actor.add_state(0);
    actor.add_handler(&b, "other", "h").unwrap();
    assert_eq!(actor.send_hook("other"), Ok(None));
    assert_eq!(actor.receive_hook(&ep("other")), None);
}

#[test]
fn hook_transparency() {
    assert_eq!(hook_outcome::<u32>(Ok(Ok(5))), Ok(5));
    assert_eq!(hook_outcome::<u32>(Ok(Ok(5 * 2))), Ok(10));
    assert_eq!(hook_outcome::<u32>(Ok(Err(DidCommTermination))), Err(Error::Terminated));
    assert_eq!(
        hook_outcome::<u32>(Err(RemoteSendError::HookInvocationError("bad".to_string()))),
        Err(Error::HookInvocationError("bad".to_string()))
    );
}

#[test]
fn ack_outcomes() {
    assert_eq!(ack_outcome(Ok(())), Ok(()));
    assert_eq!(
        ack_outcome(Err(RemoteSendError::UnknownRequest("a/b".to_string()))),
        Err(Error::UnknownRequest("a/b".to_string()))
    );
}

#[test]
fn remote_errors_map_to_local() {
    let s = |x: &str| x.to_string();
    assert_eq!(Error::from(RemoteSendError::UnknownRequest(s("u"))), Error::UnknownRequest(s("u")));
    assert_eq!(
        Error::from(RemoteSendError::HandlerInvocationError(s("h"))),
        Error::HandlerInvocationError(s("h"))
    );
    assert_eq!(Error::from(RemoteSendError::HookInvocationError(s("k"))), Error::HookInvocationError(s("k")));
    assert_eq!(
        Error::from(RemoteSendError::SerializationFailure { location: s("l"), message: s("m") }),
        Error::SerializationFailure { location: s("l"), message: s("m") }
    );
    assert_eq!(
        Error::from(RemoteSendError::DeserializationFailure { location: s("l"), message: s("m") }),
        Error::DeserializationFailure { location: s("l"), message: s("m") }
    );
}

#[test]
fn thread_id_new_is_a_uuid() {
    let a = ThreadId::new();
    let b = ThreadId::new();
    let text = a.to_string();
    assert_eq!(text.len(), 36);
    assert_eq!(text.as_bytes()[8], b'-');
    assert_eq!(text.as_bytes()[14], b'4');
    assert!(text.chars().all(|c| c == '-' || c.is_ascii_hexdigit() && !c.is_ascii_uppercase()));
    assert_ne!(a, b);
    assert_eq!(a.duplicate(), a);
    assert_eq!(a.as_str(), text);
}

#[test]
fn add_state_ids_are_distinct() {
    let mut actor: TestActor = Actor::new();
    let a = actor.add_state(1);
    let b = actor.add_state(2);
    assert_ne!(a.object_id(), b.object_id());
    assert_eq!(a.object_id() >> 76 & 0xf, 4);
}

#[test]
fn plaintext_message_defaults_and_thread() {
    let m = DidCommPlaintextMessage::new(tid("id1"), "greet".to_string(), 7u8);
    assert_eq!(m.id, tid("id1"));
    assert_eq!(m.type_, "greet");
    assert_eq!(m.body, 7);
    assert_eq!(m.typ, "");
    assert!(m.thid.is_none() && m.pthid.is_none());
    assert_eq!((m.from.as_str(), m.to.as_str()), ("", ""));
    assert_eq!((m.created_time, m.expires_time), (0, 0));
    assert_eq!(m.thread_id(), &tid("id1"));
    let mut reply = m.clone();
    reply.thid = Some(tid("parent"));
    assert_eq!(reply.thread_id(), &tid("parent"));
}

#[test]
fn request_message_validates_endpoint() {
    let m = RequestMessage::new("a/b", vec![1, 2]).unwrap();
    assert_eq!(m.endpoint, ep("a/b"));
    assert_eq!(m.data, vec![1, 2]);
    assert_eq!(RequestMessage::new("", vec![]).unwrap_err(), Error::InvalidEndpoint);
}

#[test]
fn jwt_round_trips_its_text() {
    let j = Jwt::new("a.b.c".to_string());
    assert_eq!(j.as_string(), "a.b.c");
    let s: String = j.into();
    assert_eq!(s, "a.b.c");
    let j2 = Jwt::from("x.y.z".to_string());
    assert_eq!(j2.into_string(), "x.y.z");
}
