use organelle::{Effector, Error, Handle, Impulse, Organelle, Route, Step};

type Msg = u32;
type Role = u32;

const DATA: Role = 1;
const CONTROL: Role = 2;

fn h(id: u128) -> Handle {
    Handle::from_u128(id)
}

fn init(parent: Option<u128>, me: u128) -> Impulse<Msg, Role> {
    Impulse::Init(parent.map(h), Effector { this_soma: h(me) })
}

/// main = 1, children 2 and 3, connected 1 -> 2 and 2 -> 3.
fn wired() -> Organelle<Role> {
    let mut o = Organelle::new(h(1));
    assert_eq!(o.add_soma(h(2)), Ok(h(2)));
    assert_eq!(o.add_soma(h(3)), Ok(h(3)));
    o.connect(h(1), h(2), DATA);
    o.connect(h(2), h(3), CONTROL);
    o
}

#[test]
fn new_organelle_has_its_main_child() {
    let o: Organelle<Role> = Organelle::new(h(42));
    assert_eq!(o.get_main_handle(), h(42));
}

#[test]
fn add_soma_rejects_a_taken_handle() {
    let mut o: Organelle<Role> = Organelle::new(h(1));
    assert_eq!(o.add_soma(h(1)), Err(Error::DuplicateHandle(h(1))));
}

#[test]
fn add_soma_after_init_is_rejected() {
    let mut o = wired();
    o.update(init(None, 100)).unwrap();
    assert_eq!(o.add_soma(h(9)), Err(Error::AddAfterInit));
}

#[test]
fn init_initializes_every_child_then_wires() {
    let mut o = wired();
    let ds = o.update(init(Some(500), 100)).unwrap();
    let expected: Vec<(Handle, Impulse<Msg, Role>)> = vec![
        (h(1), Impulse::Init(Some(h(100)), Effector { this_soma: h(1) })),
        (h(2), Impulse::Init(Some(h(100)), Effector { this_soma: h(2) })),
        (h(3), Impulse::Init(Some(h(100)), Effector { this_soma: h(3) })),
        (h(1), Impulse::AddOutput(h(2), DATA)),
        (h(2), Impulse::AddInput(h(1), DATA)),
        (h(2), Impulse::AddOutput(h(3), CONTROL)),
        (h(3), Impulse::AddInput(h(2), CONTROL)),
    ];
    assert_eq!(ds, expected);
}

#[test]
fn init_wires_only_the_local_end_of_a_remote_connection() {
    let mut o = wired();
    o.connect(h(3), h(77), DATA);
    o.connect(h(88), h(2), CONTROL);
    let ds = o.update(init(None, 100)).unwrap();
    assert_eq!(ds.len(), 9);
    assert_eq!(ds[7], (h(3), Impulse::AddOutput(h(77), DATA)));
    assert_eq!(ds[8], (h(2), Impulse::AddInput(h(88), CONTROL)));
    assert!(ds.iter().all(|(to, _)| *to != h(77) && *to != h(88)));
    assert_eq!(o.update(Impulse::<Msg, Role>::Start).map(|v| v.len()), Ok(3));
}

#[test]
fn init_twice_is_rejected_by_the_composite() {
    let mut o = wired();
    o.update(init(None, 100)).unwrap();
    assert_eq!(o.update(init(None, 101)), Err(Error::InitTwice));
}

#[test]
fn start_goes_to_every_child_once() {
    let mut o = wired();
    assert_eq!(o.update(Impulse::<Msg, Role>::Start), Err(Error::InitNeverCalled));
    o.update(init(None, 100)).unwrap();
    let ds = o.update(Impulse::<Msg, Role>::Start).unwrap();
    assert_eq!(ds, vec![(h(1), Impulse::Start), (h(2), Impulse::Start), (h(3), Impulse::Start)]);
    assert_eq!(o.update(Impulse::<Msg, Role>::Start), Err(Error::ProtocolViolation));
}

#[test]
fn external_wiring_goes_to_the_main_child_before_start_only() {
    let mut o = wired();
    assert_eq!(o.update(Impulse::<Msg, Role>::AddInput(h(50), DATA)), Err(Error::ProtocolViolation));
    o.update(init(None, 100)).unwrap();
    assert_eq!(o.update(Impulse::<Msg, Role>::AddInput(h(50), DATA)), Ok(vec![(h(1), Impulse::AddInput(h(50), DATA))]));
    assert_eq!(o.update(Impulse::<Msg, Role>::AddOutput(h(51), CONTROL)), Ok(vec![(h(1), Impulse::AddOutput(h(51), CONTROL))]));
    o.update(Impulse::<Msg, Role>::Start).unwrap();
    assert_eq!(o.update(Impulse::<Msg, Role>::AddOutput(h(52), DATA)), Err(Error::ProtocolViolation));
}

#[test]
fn signal_from_outside_goes_to_the_main_child() {
    let mut o = wired();
    assert_eq!(o.update(Impulse::Signal(h(60), 5)), Err(Error::InitNeverCalled));
    o.update(init(None, 100)).unwrap();
    assert_eq!(o.update(Impulse::Signal(h(60), 5)), Ok(vec![(h(1), Impulse::Signal(h(60), 5))]));
    assert_eq!(o.update(Impulse::<Msg, Role>::Stop), Err(Error::ProtocolViolation));
}

#[test]
fn route_before_init_is_rejected() {
    let o = wired();
    assert!(matches!(o.route(Impulse::<Msg, Role>::Stop), Err(Error::InitNeverCalled)));
}

#[test]
fn main_presents_as_the_organelle_outside() {
    let mut o = wired();
    o.update(init(None, 100)).unwrap();
    match o.route(Impulse::Payload(h(1), h(900), 7)) {
        Ok(Route::Upward(imp)) => assert_eq!(imp, Impulse::Payload(h(100), h(900), 7)),
        _ => panic!("payload was not sent upward"),
    }
}

#[test]
fn main_keeps_its_identity_inside() {
    let mut o = wired();
    o.update(init(None, 100)).unwrap();
    match o.route(Impulse::Payload(h(1), h(2), 7)) {
        Ok(Route::Deliver(to, imp)) => {
            assert_eq!(to, h(2));
            assert_eq!(imp, Impulse::Signal(h(1), 7));
        },
        _ => panic!("payload was not delivered"),
    }
}

#[test]
fn payload_to_the_organelle_reaches_main() {
    let mut o = wired();
    o.update(init(None, 100)).unwrap();
    match o.route(Impulse::Payload(h(3), h(100), 8)) {
        Ok(Route::Deliver(to, imp)) => {
            assert_eq!(to, h(1));
            assert_eq!(imp, Impulse::Signal(h(3), 8));
        },
        _ => panic!("payload was not delivered"),
    }
    match o.route(Impulse::Payload(h(1), h(100), 8)) {
        Ok(Route::Deliver(to, imp)) => {
            assert_eq!(to, h(1));
            assert_eq!(imp, Impulse::Signal(h(1), 8));
        },
        _ => panic!("payload was not delivered"),
    }
}

#[test]
fn non_main_source_is_never_rewritten() {
    let mut o = wired();
    o.update(init(None, 100)).unwrap();
    match o.route(Impulse::Payload(h(2), h(900), 7)) {
        Ok(Route::Upward(imp)) => assert_eq!(imp, Impulse::Payload(h(2), h(900), 7)),
        _ => panic!("payload was not sent upward"),
    }
}

#[test]
fn stop_and_failures_go_upward_and_probes_are_diagnostic() {
    let mut o = wired();
    o.update(init(None, 100)).unwrap();
    assert!(matches!(o.route(Impulse::<Msg, Role>::Stop), Ok(Route::Upward(Impulse::Stop))));
    match o.route(Impulse::<Msg, Role>::Failure(Error::InitTwice)) {
        Ok(Route::Upward(imp)) => assert_eq!(imp, Impulse::Failure(Error::InitTwice)),
        _ => panic!("failure was not sent upward"),
    }
    assert!(matches!(o.route(Impulse::<Msg, Role>::Probe(h(3))), Ok(Route::Probe)));
    assert!(matches!(o.route(Impulse::<Msg, Role>::Start), Err(Error::ProtocolViolation)));
}

#[test]
fn identity_is_rewritten_across_nested_organelles() {
    // parent P (handle 1000) holds leaf A (10) and organelle B (20); B wraps B_main (21)
    let mut p: Organelle<Role> = Organelle::new(h(10));
    p.add_soma(h(20)).unwrap();
    p.connect(h(10), h(20), DATA);
    p.update(init(None, 1000)).unwrap();
    let mut b: Organelle<Role> = Organelle::new(h(21));
    b.update(init(Some(1000), 20)).unwrap();

    // A sends X to its output, B: the parent delivers it to B
    match p.route(Impulse::Payload(h(10), h(20), 1)) {
        Ok(Route::Deliver(to, imp)) => {
            assert_eq!(to, h(20));
            assert_eq!(imp, Impulse::Signal(h(10), 1));
            // B hands the signal to its main child
            assert_eq!(b.update(imp), Ok(vec![(h(21), Impulse::Signal(h(10), 1))]));
        },
        _ => panic!("X was not delivered"),
    }
    // B_main replies Y to A: it leaves B stamped with B's handle
    let up = match b.route(Impulse::Payload(h(21), h(10), 2)) {
        Ok(Route::Upward(imp)) => imp,
        _ => panic!("Y was not sent upward"),
    };
    assert_eq!(up, Impulse::Payload(h(20), h(10), 2));
    match p.route(up) {
        Ok(Route::Deliver(to, imp)) => {
            assert_eq!(to, h(10));
            assert_eq!(imp, Impulse::Signal(h(20), 2));
        },
        _ => panic!("Y was not delivered"),
    }
}

#[test]
fn top_level_loop_accepts_lifecycle_and_main_traffic() {
    let mut o = wired();
    assert!(matches!(o.process_impulse(init(None, 100)), Ok(Step::Continue(ds)) if ds.len() == 7));
    assert!(matches!(o.process_impulse(Impulse::<Msg, Role>::Start), Ok(Step::Continue(ds)) if ds.len() == 3));
    match o.process_impulse(Impulse::Payload(h(5), h(1), 4)) {
        Ok(Step::Continue(ds)) => assert_eq!(ds, vec![(h(1), Impulse::Signal(h(5), 4))]),
        _ => panic!("payload to main was refused"),
    }
    assert!(matches!(o.process_impulse(Impulse::<Msg, Role>::Payload(h(5), h(2), 4)), Err(Error::ProtocolViolation)));
    assert!(matches!(o.process_impulse(Impulse::<Msg, Role>::Probe(h(1))), Ok(Step::Probe)));
    assert!(matches!(o.process_impulse(Impulse::<Msg, Role>::Probe(h(2))), Err(Error::ProtocolViolation)));
    assert!(matches!(o.process_impulse(Impulse::<Msg, Role>::Signal(h(2), 1)), Err(Error::ProtocolViolation)));
}

#[test]
fn top_level_loop_ends_on_stop_or_failure() {
    let mut o = wired();
    assert!(matches!(o.process_impulse(Impulse::<Msg, Role>::Stop), Ok(Step::Finished)));
    let r = o.process_impulse(Impulse::<Msg, Role>::Failure(Error::Failed("boom".to_string())));
    match r {
        Err(e) => assert_eq!(e, Error::Node(Box::new(Error::Failed("boom".to_string())))),
        Ok(_) => panic!("failure did not end the run"),
    }
}
