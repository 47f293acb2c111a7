//! End-to-end protocol scenarios across the bridge, in both directions.

use wapc_bridge::{
    BridgeError, CallBridge, Correlator, GuestMemory, Outcome, WapcHost,
};

struct MockHost {
    status: u32,
    requests: Vec<(String, String, String, Vec<u8>)>,
    responses: Vec<(u32, Vec<u8>)>,
    errors: Vec<(u32, Vec<u8>)>,
    logs: Vec<String>,
    dropped: Vec<u64>,
}

impl MockHost {
    fn new(status: u32) -> Self {
        MockHost {
            status,
            requests: Vec::new(),
            responses: Vec::new(),
            errors: Vec::new(),
            logs: Vec::new(),
            dropped: Vec::new(),
        }
    }
}

impl WapcHost for MockHost {
    type Wapc = u64;

    fn wapc_init_host_request(
        &mut self,
        _self_: &u64,
        binding: &str,
        namespace: &str,
        operation: &str,
        bytes: &[u8],
    ) -> u32 {
        self.requests.push((
            binding.to_string(),
            namespace.to_string(),
            operation.to_string(),
            bytes.to_vec(),
        ));
        self.status
    }

    fn wapc_on_guest_response(&mut self, _self_: &u64, id: u32, bytes: &[u8]) {
        self.responses.push((id, bytes.to_vec()));
    }

    fn wapc_on_guest_error(&mut self, _self_: &u64, id: u32, bytes: &[u8]) {
        self.errors.push((id, bytes.to_vec()));
    }

    fn wapc_console_log(&mut self, _self_: &u64, message: &str) {
        self.logs.push(message.to_string());
    }

    fn drop_wapc(&mut self, state: u64) {
        self.dropped.push(state);
    }
}

#[test]
fn guest_request_echo_completes_once() {
    let mut b: CallBridge<u64> = CallBridge::new();
    let mut mem = GuestMemory::new(1024);
    let h = b.resource_new(99);
    // Spend ids 0 through 6 so the echo request is invocation 7.
    let mut i = 0;
    while i < 7 {
        b.init_guest_request(&mut mem, h, &b"noop".to_vec(), &Vec::new())
            .unwrap();
        i += 1;
    }
    let call = b
        .init_guest_request(&mut mem, h, &b"echo".to_vec(), &vec![1, 2, 3])
        .unwrap();
    assert_eq!(call.id, 7);
    // The marshaled operation and payload sit in guest memory, readable
    // back unchanged.
    assert_eq!(
        mem.read_bytes(call.operation_addr, call.operation_len).unwrap(),
        b"echo".to_vec()
    );
    assert_eq!(
        mem.read_bytes(call.payload_addr, call.payload_len).unwrap(),
        vec![1, 2, 3]
    );
    // The guest completes the call: the response with the same id settles
    // invocation 7 and echoes the payload.
    let done = b
        .on_host_response(call.callee_handle, 7, 0, vec![1, 2, 3])
        .unwrap()
        .expect("invocation 7 must be pending");
    assert_eq!(done.id, 7);
    assert_eq!(done.operation, b"echo".to_vec());
    assert_eq!(done.request_payload, vec![1, 2, 3]);
    match done.outcome {
        Outcome::Responded { code, payload } => {
            assert_eq!(code, 0);
            assert_eq!(payload, vec![1, 2, 3]);
        },
        Outcome::Errored { .. } => panic!("expected a response"),
    }
    // Invocation 7 is forgotten: it cannot be delivered a second time.
    assert!(b
        .on_host_response(call.callee_handle, 7, 0, vec![1, 2, 3])
        .unwrap()
        .is_none());
}

#[test]
fn guest_request_error_settles_invocation() {
    let mut b: CallBridge<u64> = CallBridge::new();
    let mut mem = GuestMemory::new(256);
    let h = b.resource_new(1);
    let call = b
        .init_guest_request(&mut mem, h, &b"work".to_vec(), &vec![5])
        .unwrap();
    // An unknown id settles nothing.
    assert!(b.on_host_error(h, call.id + 1, vec![0]).unwrap().is_none());
    let done = b
        .on_host_error(h, call.id, vec![0xde, 0xad])
        .unwrap()
        .expect("the invocation must be pending");
    assert_eq!(done.operation, b"work".to_vec());
    match done.outcome {
        Outcome::Errored { payload } => assert_eq!(payload, vec![0xde, 0xad]),
        Outcome::Responded { .. } => panic!("expected an error"),
    }
    assert!(b.on_host_error(h, call.id, vec![0]).unwrap().is_none());
    // A stale handle is rejected before any correlation happens.
    b.resource_drop(h).unwrap();
    assert!(matches!(
        b.on_host_response(h, call.id, 0, Vec::new()),
        Err(BridgeError::InvalidHandle)
    ));
}

#[test]
fn host_request_dispatches_with_status_zero() {
    let mut host = MockHost::new(0);
    let mut b: CallBridge<u64> = CallBridge::new();
    let mut mem = GuestMemory::new(256);
    let h = b.resource_new(5);
    let (baddr, blen) = mem.write_to_guest(&b"default".to_vec()).unwrap();
    let (naddr, nlen) = mem.write_to_guest(&b"demo".to_vec()).unwrap();
    let (oaddr, olen) = mem.write_to_guest(&b"add".to_vec()).unwrap();
    let payload = vec![2u8, 0, 0, 0, 3, 0, 0, 0];
    let (paddr, plen) = mem.write_to_guest(&payload).unwrap();
    let code = b
        .init_host_request(
            &mut host, &mem, h, baddr, blen, naddr, nlen, oaddr, olen, paddr, plen,
        )
        .unwrap();
    assert_eq!(code, 0);
    assert_eq!(host.requests.len(), 1);
    assert_eq!(host.requests[0].0, "default");
    assert_eq!(host.requests[0].1, "demo");
    assert_eq!(host.requests[0].2, "add");
    assert_eq!(host.requests[0].3, payload);
    // A handle already dropped yields InvalidHandle without the bound
    // capability ever being invoked.
    b.resource_drop(h).unwrap();
    let r = b.init_host_request(
        &mut host, &mem, h, baddr, blen, naddr, nlen, oaddr, olen, paddr, plen,
    );
    assert!(matches!(r, Err(BridgeError::InvalidHandle)));
    assert_eq!(host.requests.len(), 1);
}

#[test]
fn host_request_rejects_bad_strings_and_ranges() {
    let mut host = MockHost::new(0);
    let mut b: CallBridge<u64> = CallBridge::new();
    let mut mem = GuestMemory::new(256);
    let h = b.resource_new(5);
    let (good, goodlen) = mem.write_to_guest(&b"ok".to_vec()).unwrap();
    let (bad, badlen) = mem.write_to_guest(&vec![0xff, 0xfe]).unwrap();
    // A binding that is not UTF-8 is rejected whole.
    let r = b.init_host_request(
        &mut host, &mem, h, bad, badlen, good, goodlen, good, goodlen, good, goodlen,
    );
    assert!(matches!(r, Err(BridgeError::InvalidUtf8)));
    // A payload range past the end of memory is rejected.
    let r = b.init_host_request(
        &mut host,
        &mem,
        h,
        good,
        goodlen,
        good,
        goodlen,
        good,
        goodlen,
        0,
        u32::MAX,
    );
    assert!(matches!(r, Err(BridgeError::OutOfBounds)));
    assert_eq!(host.requests.len(), 0);
}

#[test]
fn guest_response_and_error_pass_id_through() {
    let mut host = MockHost::new(0);
    let b: CallBridge<u64> = {
        let mut b = CallBridge::new();
        b.resource_new(77);
        b
    };
    let mut mem = GuestMemory::new(64);
    let (addr, len) = mem.write_to_guest(&vec![4u8, 5, 6]).unwrap();
    b.on_guest_response(&mut host, &mem, 0, 123, addr, len).unwrap();
    assert_eq!(host.responses, vec![(123, vec![4, 5, 6])]);
    b.on_guest_error(&mut host, &mem, 0, 124, addr, len).unwrap();
    assert_eq!(host.errors, vec![(124, vec![4, 5, 6])]);
    // Out-of-bounds payloads never reach the host.
    assert!(matches!(
        b.on_guest_response(&mut host, &mem, 0, 1, addr, u32::MAX),
        Err(BridgeError::OutOfBounds)
    ));
    assert!(matches!(
        b.on_guest_response(&mut host, &mem, 9, 1, addr, len),
        Err(BridgeError::InvalidHandle)
    ));
    assert_eq!(host.responses.len(), 1);
}

#[test]
fn console_log_delivers_checked_message() {
    let mut host = MockHost::new(0);
    let mut b: CallBridge<u64> = CallBridge::new();
    let h = b.resource_new(1);
    let mut mem = GuestMemory::new(64);
    let (addr, len) = mem.write_to_guest(&"hello ✓".as_bytes().to_vec()).unwrap();
    b.console_log(&mut host, &mem, h, addr, len).unwrap();
    assert_eq!(host.logs, vec!["hello ✓".to_string()]);
    let (bad, badlen) = mem.write_to_guest(&vec![0x80u8]).unwrap();
    assert!(matches!(
        b.console_log(&mut host, &mem, h, bad, badlen),
        Err(BridgeError::InvalidUtf8)
    ));
    assert!(matches!(
        b.console_log(&mut host, &mem, h + 1, addr, len),
        Err(BridgeError::InvalidHandle)
    ));
    assert_eq!(host.logs.len(), 1);
}

#[test]
fn callee_handle_keeps_resource_alive() {
    let mut b: CallBridge<u64> = CallBridge::new();
    let mut mem = GuestMemory::new(128);
    let h = b.resource_new(11);
    let call = b
        .init_guest_request(&mut mem, h, &b"op".to_vec(), &Vec::new())
        .unwrap();
    assert_ne!(call.callee_handle, h);
    // The request minted its own share: dropping the caller's handle does
    // not finalize the resource while the callee still holds one.
    assert!(matches!(b.resource_drop(h), Ok(None)));
    assert_eq!(*b.resource_get(call.callee_handle).unwrap(), 11);
    assert!(matches!(b.resource_drop(call.callee_handle), Ok(Some(11))));
}

#[test]
fn correlator_assigns_monotonic_ids() {
    let mut c = Correlator::new();
    let id0 = c.begin(b"a".to_vec(), Vec::new());
    let id1 = c.begin(b"b".to_vec(), vec![9]);
    assert_eq!(id0, 0);
    assert_eq!(id1, 1);
    let done = c.complete(id0, 7, vec![1]).expect("id0 pending");
    assert_eq!(done.id, 0);
    assert_eq!(done.operation, b"a".to_vec());
    match done.outcome {
        Outcome::Responded { code, payload } => {
            assert_eq!(code, 7);
            assert_eq!(payload, vec![1]);
        },
        Outcome::Errored { .. } => panic!("expected a response"),
    }
    assert!(c.complete(id0, 7, vec![1]).is_none());
    let failed = c.fail(id1, vec![2]).expect("id1 pending");
    assert_eq!(failed.request_payload, vec![9]);
    // Ids keep growing even after invocations settle: no reuse.
    let id2 = c.begin(b"c".to_vec(), Vec::new());
    assert_eq!(id2, 2);
}

#[test]
fn prepare_host_request_copies_and_validates() {
    let mut b: CallBridge<u64> = CallBridge::new();
    let h = b.resource_new(3);
    let mut mem = GuestMemory::new(128);
    let (baddr, blen) = mem.write_to_guest(&b"binding".to_vec()).unwrap();
    let (naddr, nlen) = mem.write_to_guest(&b"ns".to_vec()).unwrap();
    let (oaddr, olen) = mem.write_to_guest(&b"op".to_vec()).unwrap();
    let (paddr, plen) = mem.write_to_guest(&vec![1u8, 2]).unwrap();
    let req = b
        .prepare_host_request(
            &mem, h, baddr, blen, naddr, nlen, oaddr, olen, paddr, plen,
        )
        .unwrap();
    assert_eq!(req.binding, "binding");
    assert_eq!(req.namespace, "ns");
    assert_eq!(req.operation, "op");
    assert_eq!(req.payload, vec![1, 2]);
}
