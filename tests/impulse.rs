use organelle::{Effector, Error, Handle, Impulse};

#[derive(Debug, Clone, Copy, PartialEq, Eq)]
struct Wide(u16);

impl From<u8> for Wide {
    fn from(v: u8) -> Wide {
        Wide(v as u16 + 1000)
    }
}

impl From<Wide> for u8 {
    fn from(w: Wide) -> u8 {
        (w.0 - 1000) as u8
    }
}

fn h(id: u128) -> Handle {
    Handle::from_u128(id)
}

#[test]
fn conversion_changes_payloads_and_roles_only() {
    let p: Impulse<Wide, Wide> = Impulse::<u8, u8>::Payload(h(1), h(2), 7).convert_protocol();
    assert_eq!(p, Impulse::Payload(h(1), h(2), Wide(1007)));
    let a: Impulse<Wide, Wide> = Impulse::<u8, u8>::AddInput(h(3), 4).convert_protocol();
    assert_eq!(a, Impulse::AddInput(h(3), Wide(1004)));
    let i: Impulse<Wide, Wide> = Impulse::<u8, u8>::Init(Some(h(9)), Effector { this_soma: h(5) }).convert_protocol();
    assert_eq!(i, Impulse::Init(Some(h(9)), Effector { this_soma: h(5) }));
    let f: Impulse<Wide, Wide> =
        Impulse::<u8, u8>::Failure(Error::Node(Box::new(Error::UnmetConstraint(2)))).convert_protocol();
    assert_eq!(f, Impulse::Failure(Error::Node(Box::new(Error::UnmetConstraint(Wide(1002))))));
}

#[test]
fn conversion_round_trips() {
    let cases: Vec<Impulse<u8, u8>> = vec![
        Impulse::Signal(h(1), 200),
        Impulse::AddOutput(h(2), 3),
        Impulse::Start,
        Impulse::Stop,
        Impulse::Probe(h(4)),
        Impulse::Failure(Error::OnlyOneCell(9)),
    ];
    for c in cases {
        let there: Impulse<Wide, Wide> = c.clone_for_test().convert_protocol();
        let back: Impulse<u8, u8> = there.convert_protocol();
        assert_eq!(back, c);
    }
}

trait CloneForTest {
    fn clone_for_test(&self) -> Self;
}

impl CloneForTest for Impulse<u8, u8> {
    fn clone_for_test(&self) -> Self {
        match self {
            Impulse::Signal(s, m) => Impulse::Signal(*s, *m),
            Impulse::AddOutput(p, r) => Impulse::AddOutput(*p, *r),
            Impulse::Start => Impulse::Start,
            Impulse::Stop => Impulse::Stop,
            Impulse::Probe(p) => Impulse::Probe(*p),
            Impulse::Failure(Error::OnlyOneCell(r)) => Impulse::Failure(Error::OnlyOneCell(*r)),
            _ => panic!("not used in these cases"),
        }
    }
}
