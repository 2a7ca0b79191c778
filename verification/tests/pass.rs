use memscan::pass::{Pass, Turn};
use memscan::trace::{Request, TraceError};

/// Drives a pass against a system that answers each request with `reply`,
/// and records the requests made.
fn drive(
    begun: (Pass, Request),
    mut reply: impl FnMut(Request) -> Result<usize, i32>,
) -> (Vec<Request>, Turn) {
    let (mut pass, mut request) = begun;
    let mut requests = Vec::new();
    loop {
        requests.push(request);
        match pass.resume(reply(request)) {
            Turn::Perform(next, following) => {
                pass = next;
                request = following;
            }
            end => return (requests, end),
        }
    }
}

fn memory(address: usize) -> usize {
    address / 8 + 1000
}

fn granting(request: Request) -> Result<usize, i32> {
    match request {
        Request::Peek(address) => Ok(memory(address)),
        _ => Ok(0),
    }
}

#[test]
fn observing_pass_attaches_once_peeks_each_address_and_detaches_once() {
    let (requests, end) = drive(Pass::observe(vec![0x10, 0x18, 0x40]), granting);
    assert_eq!(
        requests,
        vec![
            Request::Attach,
            Request::Wait,
            Request::Peek(0x10),
            Request::Peek(0x18),
            Request::Peek(0x40),
            Request::Detach,
        ]
    );
    match end {
        Turn::Observed(words) => {
            assert_eq!(words, vec![memory(0x10), memory(0x18), memory(0x40)])
        }
        other => panic!("the pass did not succeed: {other:?}"),
    }
}

#[test]
fn observing_pass_over_one_address() {
    let (requests, end) = drive(Pass::observe(vec![0x7ffee0000010]), |request| match request {
        Request::Peek(_) => Ok(42),
        _ => Ok(0),
    });
    assert_eq!(requests.len(), 4);
    assert!(matches!(end, Turn::Observed(words) if words == vec![42]));
}

#[test]
fn writing_pass_attaches_pokes_and_detaches() {
    let (requests, end) = drive(Pass::write(0x7ffee0000010, 1337), granting);
    assert_eq!(
        requests,
        vec![
            Request::Attach,
            Request::Wait,
            Request::Poke { address: 0x7ffee0000010, value: 1337 },
            Request::Detach,
        ]
    );
    assert!(matches!(end, Turn::Written));
}

#[test]
fn refused_attach_ends_the_pass_without_a_detach() {
    let (requests, end) = drive(Pass::observe(vec![0x10]), |_| Err(1));
    assert_eq!(requests, vec![Request::Attach]);
    assert!(matches!(end, Turn::Failed(TraceError::AttachFailed(1))));
}

#[test]
fn failed_wait_is_followed_by_a_detach() {
    let (requests, end) = drive(Pass::write(0x10, 1), |request| match request {
        Request::Wait => Err(10),
        _ => Ok(0),
    });
    assert_eq!(requests, vec![Request::Attach, Request::Wait, Request::Detach]);
    assert!(matches!(end, Turn::Failed(TraceError::WaitFailed(10))));
}

#[test]
fn failed_peek_is_followed_by_a_detach_and_ends_the_pass() {
    let (requests, end) = drive(Pass::observe(vec![0x10, 0x18, 0x20]), |request| match request {
        Request::Peek(0x18) => Err(5),
        Request::Peek(_) => Ok(7),
        _ => Ok(0),
    });
    assert_eq!(
        requests,
        vec![
            Request::Attach,
            Request::Wait,
            Request::Peek(0x10),
            Request::Peek(0x18),
            Request::Detach,
        ]
    );
    assert!(matches!(end, Turn::Failed(TraceError::PeekFailed(5))));
}

#[test]
fn failed_poke_is_followed_by_a_detach() {
    let (requests, end) = drive(Pass::write(0x10, 1), |request| match request {
        Request::Poke { .. } => Err(14),
        _ => Ok(0),
    });
    assert_eq!(
        requests,
        vec![
            Request::Attach,
            Request::Wait,
            Request::Poke { address: 0x10, value: 1 },
            Request::Detach,
        ]
    );
    assert!(matches!(end, Turn::Failed(TraceError::PokeFailed(14))));
}

#[test]
fn refused_detach_is_reported() {
    let (requests, end) = drive(Pass::write(0x10, 1), |request| match request {
        Request::Detach => Err(3),
        _ => Ok(0),
    });
    assert_eq!(requests.last(), Some(&Request::Detach));
    assert!(matches!(end, Turn::Failed(TraceError::DetachFailed(3))));
}

#[test]
fn pass_never_attaches_twice_and_never_breaks_the_protocol() {
    // Every pattern of granted and refused requests over the first eight.
    for pattern in 0u32..256 {
        let mut asked = 0;
        let (requests, end) = drive(Pass::observe(vec![0x10, 0x18, 0x20]), |request| {
            let refuse = asked < 8 && pattern & (1 << asked) != 0;
            asked += 1;
            if refuse {
                Err(asked)
            } else {
                granting(request)
            }
        });
        let attaches = requests.iter().filter(|r| **r == Request::Attach).count();
        assert_eq!(attaches, 1);
        assert_eq!(requests[0], Request::Attach);
        let detaches = requests.iter().filter(|r| **r == Request::Detach).count();
        assert!(detaches <= 1);
        if let Turn::Failed(error) = end {
            assert!(!matches!(
                error,
                TraceError::DoubleAttach | TraceError::DoubleDetach | TraceError::NotAttached
            ));
            if !matches!(error, TraceError::AttachFailed(_)) {
                assert_eq!(detaches, 1);
            }
        } else {
            assert_eq!(detaches, 1);
        }
    }
}
