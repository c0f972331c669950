use paid_tasks::handlers::{generate_id, noop, public_create_invoice, resume, task_status, State};
use paid_tasks::host::{read_key_bytes, read_public_request, read_secret_bytes, write_counter,
    write_held_response, write_response, Buffer, Call, Value};
use std::collections::HashMap;

/// A host for the tests: a store with two partitions, a relay that answers every
/// request with one fixed answer, and a record of what was asked of it.
struct Host {
    public: HashMap<Vec<u8>, Vec<u8>>,
    secret: HashMap<Vec<u8>, Vec<u8>>,
    relay_answer: Option<Vec<u8>>,
    reads: Vec<(Vec<u8>, usize)>,
    secret_reads: Vec<(Vec<u8>, usize)>,
    writes: Vec<(Vec<u8>, Vec<u8>)>,
    requests: Vec<(Vec<u8>, Vec<u8>, Vec<u8>, Vec<u8>, usize)>,
    calls: usize,
}

fn host() -> Host {
    Host {
        public: HashMap::new(),
        secret: HashMap::new(),
        relay_answer: None,
        reads: Vec::new(),
        secret_reads: Vec::new(),
        writes: Vec::new(),
        requests: Vec::new(),
        calls: 0,
    }
}

fn deliver(value: Option<&Vec<u8>>, out: &mut [u8]) -> i32 {
    match value {
        None => -1,
        Some(bytes) => {
            let n = bytes.len().min(out.len());
            out[..n].copy_from_slice(&bytes[..n]);
            n as i32
        }
    }
}

/// Runs a handler to its return, making each call that it names.
fn drive(host: &mut Host, start: (State, Call<'static>)) -> i32 {
    let (mut state, first) = start;
    let mut call: Call = first;
    let mut out = vec![0u8; 4096];
    loop {
        assert!(host.calls < 16, "the handler does not return");
        host.calls += 1;
        let (returned, used) = match call {
            Call::Read { key, capacity } => {
                host.reads.push((key.as_slice().to_vec(), capacity));
                out[..capacity].fill(0);
                (deliver(host.public.get(key.as_slice()), &mut out[..capacity]), capacity)
            }
            Call::ReadSecret { key, capacity } => {
                host.secret_reads.push((key.as_slice().to_vec(), capacity));
                out[..capacity].fill(0);
                (deliver(host.secret.get(key.as_slice()), &mut out[..capacity]), capacity)
            }
            Call::Write { key, value } => {
                host.writes.push((key.as_slice().to_vec(), value.as_slice().to_vec()));
                host.public.insert(key.as_slice().to_vec(), value.as_slice().to_vec());
                (0, 0)
            }
            Call::Request { method, path, body, authorization, capacity } => {
                host.requests.push((
                    method.to_vec(),
                    path.to_vec(),
                    body.as_slice().to_vec(),
                    authorization.as_slice().to_vec(),
                    capacity,
                ));
                out[..capacity].fill(0);
                (deliver(host.relay_answer.as_ref(), &mut out[..capacity]), capacity)
            }
            Call::Return { status } => return status,
        };
        let next = resume(state, &out[..used], returned);
        state = next.0;
        call = next.1;
    }
}

fn put(host: &mut Host, key: &[u8], value: &[u8]) {
    host.public.insert(key.to_vec(), value.to_vec());
}

fn put_secret(host: &mut Host, key: &[u8], value: &[u8]) {
    host.secret.insert(key.to_vec(), value.to_vec());
}

fn response(host: &Host) -> Vec<u8> {
    host.public.get(&b"public_response".to_vec()).cloned().unwrap()
}

fn invoice_store() -> Host {
    let mut h = host();
    put(&mut h, b"public_request", b"t1");
    put(&mut h, b"task_cost:t1", b"500");
    put(&mut h, b"task_list:t1", b"L1");
    put_secret(&mut h, b"list_wallet_inkey:L1", b"secret-key");
    h.relay_answer = Some(b"{\"payment_hash\":\"abc\",\"payment_request\":\"lnbc1\"}".to_vec());
    h
}

const INVALID: &[u8] = b"{\"error\":\"Invalid task\"}";

#[test]
fn create_invoice_sends_one_request_and_relays_the_answer() {
    let mut h = invoice_store();
    let status = drive(&mut h, public_create_invoice(7));
    assert_eq!(status, 0);
    assert_eq!(h.requests.len(), 1);
    let (method, path, body, authorization, capacity) = h.requests[0].clone();
    assert_eq!(method, b"POST");
    assert_eq!(path, b"/api/v1/payments");
    assert_eq!(
        body,
        b"{\"out\":false,\"amount\":500,\"unit\":\"sat\",\"memo\":\"Paid task\",\"extra\":{\"tag\":\"paidtasks\"}}"
    );
    assert_eq!(authorization, b"secret-key");
    assert_eq!(capacity, 4096);
    assert_eq!(
        h.writes,
        vec![(
            b"public_response".to_vec(),
            b"{\"payment_hash\":\"abc\",\"payment_request\":\"lnbc1\"}".to_vec()
        )]
    );
    assert_eq!(response(&h), b"{\"payment_hash\":\"abc\",\"payment_request\":\"lnbc1\"}");
}

#[test]
fn create_invoice_reads_its_keys_in_order() {
    let mut h = invoice_store();
    drive(&mut h, public_create_invoice(0));
    assert_eq!(
        h.reads,
        vec![
            (b"public_request".to_vec(), 64),
            (b"task_cost:t1".to_vec(), 64),
            (b"task_list:t1".to_vec(), 64),
        ]
    );
    assert_eq!(h.secret_reads, vec![(b"list_wallet_inkey:L1".to_vec(), 96)]);
    assert_eq!(h.calls, 7);
}

#[test]
fn create_invoice_without_a_request_writes_the_failure() {
    let mut h = host();
    h.relay_answer = Some(b"unused".to_vec());
    let status = drive(&mut h, public_create_invoice(1));
    assert_eq!(status, 0);
    assert!(h.requests.is_empty());
    assert_eq!(h.reads, vec![(b"public_request".to_vec(), 64)]);
    assert!(h.secret_reads.is_empty());
    assert_eq!(h.writes, vec![(b"public_response".to_vec(), INVALID.to_vec())]);
}

#[test]
fn create_invoice_with_an_empty_request_writes_the_failure() {
    let mut h = invoice_store();
    put(&mut h, b"public_request", b"");
    let status = drive(&mut h, public_create_invoice(1));
    assert_eq!(status, 0);
    assert!(h.requests.is_empty());
    assert_eq!(response(&h), INVALID);
}

#[test]
fn create_invoice_without_a_cost_stops_at_once() {
    let mut h = invoice_store();
    h.public.remove(&b"task_cost:t1".to_vec());
    assert_eq!(drive(&mut h, public_create_invoice(1)), 0);
    assert!(h.requests.is_empty());
    assert_eq!(
        h.reads,
        vec![(b"public_request".to_vec(), 64), (b"task_cost:t1".to_vec(), 64)]
    );
    assert!(h.secret_reads.is_empty());
    assert_eq!(h.writes, vec![(b"public_response".to_vec(), INVALID.to_vec())]);
    assert_eq!(h.calls, 4);
}

#[test]
fn create_invoice_with_an_empty_cost_stops_at_once() {
    let mut h = invoice_store();
    put(&mut h, b"task_cost:t1", b"");
    assert_eq!(drive(&mut h, public_create_invoice(1)), 0);
    assert!(h.requests.is_empty());
    assert_eq!(h.reads.len(), 2);
    assert!(h.secret_reads.is_empty());
    assert_eq!(h.writes, vec![(b"public_response".to_vec(), INVALID.to_vec())]);
}

#[test]
fn create_invoice_without_a_list_stops_before_the_secret_read() {
    let mut h = invoice_store();
    h.public.remove(&b"task_list:t1".to_vec());
    put_secret(&mut h, b"list_wallet_inkey:", b"stray");
    assert_eq!(drive(&mut h, public_create_invoice(1)), 0);
    assert!(h.requests.is_empty());
    assert_eq!(
        h.reads,
        vec![
            (b"public_request".to_vec(), 64),
            (b"task_cost:t1".to_vec(), 64),
            (b"task_list:t1".to_vec(), 64),
        ]
    );
    assert!(h.secret_reads.is_empty());
    assert_eq!(h.writes, vec![(b"public_response".to_vec(), INVALID.to_vec())]);
    assert_eq!(h.calls, 5);
}

#[test]
fn create_invoice_without_a_credential_writes_the_failure() {
    let mut h = invoice_store();
    h.secret.clear();
    put(&mut h, b"list_wallet_inkey:L1", b"not-in-the-secret-partition");
    assert_eq!(drive(&mut h, public_create_invoice(1)), 0);
    assert!(h.requests.is_empty());
    assert_eq!(h.reads.len(), 3);
    assert_eq!(h.secret_reads, vec![(b"list_wallet_inkey:L1".to_vec(), 96)]);
    assert_eq!(h.writes, vec![(b"public_response".to_vec(), INVALID.to_vec())]);
    assert_eq!(h.calls, 6);
}

#[test]
fn create_invoice_with_a_failed_request_writes_an_empty_answer() {
    let mut h = invoice_store();
    h.relay_answer = None;
    assert_eq!(drive(&mut h, public_create_invoice(1)), 0);
    assert_eq!(h.requests.len(), 1);
    assert_eq!(h.writes, vec![(b"public_response".to_vec(), Vec::new())]);
}

#[test]
fn create_invoice_forwards_an_error_answer_as_it_is() {
    let mut h = invoice_store();
    h.relay_answer = Some(b"{\"detail\":\"Wallet not found\"}".to_vec());
    assert_eq!(drive(&mut h, public_create_invoice(1)), 0);
    assert_eq!(response(&h), b"{\"detail\":\"Wallet not found\"}");
}

#[test]
fn create_invoice_overwrites_an_earlier_answer() {
    let mut h = invoice_store();
    put(&mut h, b"public_response", b"an earlier, much longer answer that must not shine through");
    h.relay_answer = Some(b"ok".to_vec());
    drive(&mut h, public_create_invoice(1));
    assert_eq!(response(&h), b"ok");
}

#[test]
fn create_invoice_passes_the_cost_through_uninterpreted() {
    let mut h = invoice_store();
    put(&mut h, b"task_cost:t1", b"not a number");
    drive(&mut h, public_create_invoice(1));
    assert_eq!(
        h.requests[0].2,
        b"{\"out\":false,\"amount\":not a number,\"unit\":\"sat\",\"memo\":\"Paid task\",\"extra\":{\"tag\":\"paidtasks\"}}"
    );
}

#[test]
fn create_invoice_passes_a_cost_of_forty_bytes_whole() {
    let cost = *b"1234567890123456789012345678901234567890";
    let mut h = invoice_store();
    put(&mut h, b"task_cost:t1", &cost);
    assert_eq!(drive(&mut h, public_create_invoice(1)), 0);
    assert_eq!(h.requests.len(), 1);
    let expected = [
        &b"{\"out\":false,\"amount\":"[..],
        &cost[..],
        &b",\"unit\":\"sat\",\"memo\":\"Paid task\",\"extra\":{\"tag\":\"paidtasks\"}}"[..],
    ]
    .concat();
    assert_eq!(expected.len(), 123);
    assert_eq!(h.requests[0].2, expected);
}

#[test]
fn create_invoice_with_values_of_full_length() {
    let task = [b't'; 64];
    let cost = [b'1'; 64];
    let list = [b'l'; 64];
    let credential = [b'k'; 96];
    let answer = vec![b'r'; 4096];
    let mut h = host();
    put(&mut h, b"public_request", &task);
    put(&mut h, &[&b"task_cost:"[..], &task[..]].concat(), &cost);
    put(&mut h, &[&b"task_list:"[..], &task[..]].concat(), &list);
    put_secret(&mut h, &[&b"list_wallet_inkey:"[..], &list[..]].concat(), &credential);
    h.relay_answer = Some(answer.clone());
    assert_eq!(drive(&mut h, public_create_invoice(1)), 0);
    assert_eq!(h.requests.len(), 1);
    assert_eq!(h.requests[0].2.len(), 22 + 64 + 61);
    assert_eq!(&h.requests[0].2[22..86], &cost[..]);
    assert_eq!(h.requests[0].3, credential.to_vec());
    assert_eq!(response(&h), answer);
}

#[test]
fn create_invoice_cuts_values_that_are_too_long() {
    let mut h = invoice_store();
    put(&mut h, b"public_request", &[b't'; 80]);
    let task = [b't'; 64];
    put(&mut h, &[&b"task_cost:"[..], &task[..]].concat(), &[b'7'; 80]);
    put(&mut h, &[&b"task_list:"[..], &task[..]].concat(), b"L1");
    h.relay_answer = Some(vec![b'r'; 5000]);
    assert_eq!(drive(&mut h, public_create_invoice(1)), 0);
    assert_eq!(h.reads[1].0, [&b"task_cost:"[..], &task[..]].concat());
    assert_eq!(&h.requests[0].2[22..86], &[b'7'; 64][..]);
    assert_eq!(h.requests[0].2[86], b',');
    assert_eq!(response(&h), vec![b'r'; 4096]);
}

#[test]
fn resume_cuts_a_reply_at_the_announced_capacity() {
    let out = [b'c'; 200];
    let task = Buffer::<64>::from_slice(b"t1");
    let (state, call) = resume(State::InvoiceCost { task }, &out, 200);
    match state {
        State::InvoiceList { cost } => assert_eq!(cost.as_slice(), &out[..64]),
        _ => panic!("expected the read of the list"),
    }
    assert!(matches!(call, Call::Read { capacity: 64, .. }));
    let (_, call) = resume(State::InvoiceRelay, &[b'r'; 5000], 5000);
    match call {
        Call::Write { key, value } => {
            assert_eq!(key.as_slice(), b"public_response");
            assert_eq!(value.as_slice(), &[b'r'; 4096][..]);
        }
        _ => panic!("expected a write"),
    }
}

#[test]
fn resume_stops_the_invoice_at_the_first_absent_value() {
    let task = Buffer::<64>::from_slice(b"t1");
    let cost = Buffer::<64>::from_slice(b"500");
    let list = Buffer::<64>::from_slice(b"L1");
    let waiting = [
        State::InvoiceTask,
        State::InvoiceCost { task },
        State::InvoiceList { cost },
        State::InvoiceCredential { cost, list },
    ];
    for state in waiting {
        for returned in [0, -1, i32::MIN] {
            let (next, call) = resume(state, b"stale bytes", returned);
            assert!(matches!(next, State::Answered));
            match call {
                Call::Write { key, value } => {
                    assert_eq!(key.as_slice(), b"public_response");
                    assert_eq!(value.as_slice(), INVALID);
                }
                _ => panic!("expected the failure answer"),
            }
        }
    }
}

#[test]
fn task_status_without_a_marker_is_not_paid() {
    let mut h = host();
    put(&mut h, b"public_request", b"t1");
    let status = drive(&mut h, task_status(3));
    assert_eq!(status, 0);
    assert_eq!(h.reads, vec![(b"public_request".to_vec(), 64), (b"task_paid:t1".to_vec(), 64)]);
    assert_eq!(h.writes, vec![(b"public_response".to_vec(), b"{\"paid\":false}".to_vec())]);
}

#[test]
fn task_status_with_a_marker_is_paid() {
    let mut h = host();
    put(&mut h, b"public_request", b"t1");
    put(&mut h, b"task_paid:t1", b"1");
    let status = drive(&mut h, task_status(3));
    assert_eq!(status, 0);
    assert_eq!(h.writes, vec![(b"public_response".to_vec(), b"{\"paid\":true}".to_vec())]);
}

#[test]
fn task_status_does_not_read_what_the_marker_holds() {
    for marker in [&b"0"[..], b"false", b"no", b"\x00"] {
        let mut h = host();
        put(&mut h, b"public_request", b"t1");
        put(&mut h, b"task_paid:t1", marker);
        drive(&mut h, task_status(3));
        assert_eq!(response(&h), b"{\"paid\":true}");
    }
}

#[test]
fn task_status_with_an_empty_marker_is_not_paid() {
    let mut h = host();
    put(&mut h, b"public_request", b"t1");
    put(&mut h, b"task_paid:t1", b"");
    drive(&mut h, task_status(3));
    assert_eq!(response(&h), b"{\"paid\":false}");
}

#[test]
fn task_status_without_a_request_is_not_paid() {
    let mut h = host();
    put(&mut h, b"task_paid:", b"1");
    let status = drive(&mut h, task_status(3));
    assert_eq!(status, 0);
    assert_eq!(h.reads, vec![(b"public_request".to_vec(), 64)]);
    assert_eq!(h.writes, vec![(b"public_response".to_vec(), b"{\"paid\":false}".to_vec())]);
}

#[test]
fn task_status_of_another_task_is_not_paid() {
    let mut h = host();
    put(&mut h, b"public_request", b"t2");
    put(&mut h, b"task_paid:t1", b"1");
    drive(&mut h, task_status(3));
    assert_eq!(response(&h), b"{\"paid\":false}");
}

#[test]
fn generate_id_without_a_counter_starts_at_one() {
    let mut h = host();
    let status = drive(&mut h, generate_id(9));
    assert_eq!(status, 0);
    assert_eq!(h.reads, vec![(b"id_counter".to_vec(), 32)]);
    assert_eq!(
        h.writes,
        vec![
            (b"id_counter".to_vec(), b"1".to_vec()),
            (b"public_response".to_vec(), b"{\"id\":\"pt_1\"}".to_vec()),
        ]
    );
    assert_eq!(h.public.get(&b"id_counter".to_vec()).unwrap(), b"1");
    assert!(h.requests.is_empty());
}

#[test]
fn generate_id_counts_up_by_one_each_time() {
    let mut h = host();
    for expected in 1u64..=25 {
        assert_eq!(drive(&mut h, generate_id(0)), 0);
        h.calls = 0;
        assert_eq!(
            h.public.get(&b"id_counter".to_vec()).unwrap(),
            expected.to_string().as_bytes()
        );
        assert_eq!(response(&h), format!("{{\"id\":\"pt_{}\"}}", expected).into_bytes());
    }
}

#[test]
fn generate_id_goes_on_from_the_stored_counter() {
    let mut h = host();
    put(&mut h, b"id_counter", b"41");
    drive(&mut h, generate_id(0));
    assert_eq!(h.public.get(&b"id_counter".to_vec()).unwrap(), b"42");
    assert_eq!(response(&h), b"{\"id\":\"pt_42\"}");
}

#[test]
fn generate_id_wraps_after_the_largest_counter() {
    let mut h = host();
    put(&mut h, b"id_counter", b"18446744073709551615");
    drive(&mut h, generate_id(0));
    assert_eq!(h.public.get(&b"id_counter".to_vec()).unwrap(), b"0");
    assert_eq!(response(&h), b"{\"id\":\"pt_0\"}");
    h.calls = 0;
    drive(&mut h, generate_id(0));
    assert_eq!(h.public.get(&b"id_counter".to_vec()).unwrap(), b"1");
    assert_eq!(response(&h), b"{\"id\":\"pt_1\"}");
}

#[test]
fn generate_id_reaches_the_largest_counter() {
    let mut h = host();
    put(&mut h, b"id_counter", b"18446744073709551614");
    drive(&mut h, generate_id(0));
    assert_eq!(h.public.get(&b"id_counter".to_vec()).unwrap(), b"18446744073709551615");
    assert_eq!(response(&h), b"{\"id\":\"pt_18446744073709551615\"}");
}

#[test]
fn generate_id_with_an_unreadable_counter_starts_at_one() {
    let mut h = host();
    put(&mut h, b"id_counter", b"junk");
    drive(&mut h, generate_id(0));
    assert_eq!(h.public.get(&b"id_counter".to_vec()).unwrap(), b"1");
    assert_eq!(response(&h), b"{\"id\":\"pt_1\"}");
}

#[test]
fn generate_id_reads_the_leading_digits_of_the_counter() {
    let mut h = host();
    put(&mut h, b"id_counter", b"12abc");
    drive(&mut h, generate_id(0));
    assert_eq!(h.public.get(&b"id_counter".to_vec()).unwrap(), b"13");
}

#[test]
fn generate_id_with_a_counter_beyond_the_range_wraps() {
    let mut h = host();
    put(&mut h, b"id_counter", b"99999999999999999999999");
    drive(&mut h, generate_id(0));
    assert_eq!(h.public.get(&b"id_counter".to_vec()).unwrap(), b"0");
    assert_eq!(response(&h), b"{\"id\":\"pt_0\"}");
}

#[test]
fn noop_reports_success() {
    assert_eq!(noop(), 0);
}

#[test]
fn entry_points_ignore_the_request_identifier() {
    for request_id in [i32::MIN, -1, 0, 1, i32::MAX] {
        let mut h = invoice_store();
        assert_eq!(drive(&mut h, public_create_invoice(request_id)), 0);
        assert_eq!(h.requests.len(), 1);
        let mut g = host();
        assert_eq!(drive(&mut g, generate_id(request_id)), 0);
        assert_eq!(response(&g), b"{\"id\":\"pt_1\"}");
        let mut s = host();
        assert_eq!(drive(&mut s, task_status(request_id)), 0);
        assert_eq!(response(&s), b"{\"paid\":false}");
    }
}

#[test]
fn every_handler_writes_one_answer() {
    let mut with_task = host();
    put(&mut with_task, b"public_request", b"t1");
    let stores = [host(), invoice_store(), with_task];
    for base in stores {
        for entry in 0..3 {
            let mut h = host();
            h.public = base.public.clone();
            h.secret = base.secret.clone();
            h.relay_answer = base.relay_answer.clone();
            let start = match entry {
                0 => public_create_invoice(0),
                1 => task_status(0),
                _ => generate_id(0),
            };
            assert_eq!(drive(&mut h, start), 0);
            let answers =
                h.writes.iter().filter(|(key, _)| key.as_slice() == b"public_response").count();
            assert_eq!(answers, 1);
            assert_eq!(h.writes.last().unwrap().0, b"public_response");
        }
    }
}

#[test]
fn a_finished_handler_keeps_returning() {
    let (state, call) = resume(State::Answered, b"", 0);
    assert!(matches!(state, State::Finished));
    assert!(matches!(call, Call::Return { status: 0 }));
    let (state, call) = resume(state, b"anything", 8);
    assert!(matches!(state, State::Finished));
    assert!(matches!(call, Call::Return { status: 0 }));
}

#[test]
fn resume_treats_a_write_acknowledgement_of_any_kind_alike() {
    for returned in [-1, 0, 1, 15] {
        let (state, call) = resume(State::IdStored { counter: 5 }, b"", returned);
        assert!(matches!(state, State::Answered));
        match call {
            Call::Write { key, value } => {
                assert_eq!(key.as_slice(), b"public_response");
                assert_eq!(value.as_slice(), b"{\"id\":\"pt_5\"}");
            }
            _ => panic!("expected a write"),
        }
    }
}

#[test]
fn read_calls_name_key_and_capacity() {
    match read_public_request() {
        Call::Read { key, capacity } => {
            assert_eq!(key.as_slice(), b"public_request");
            assert_eq!(capacity, 64);
        }
        _ => panic!("expected a read"),
    }
    let task = Buffer::<64>::from_slice(b"t1");
    match read_key_bytes(b"task_cost:", &task, 64) {
        Call::Read { key, capacity } => {
            assert_eq!(key.as_slice(), b"task_cost:t1");
            assert_eq!(capacity, 64);
        }
        _ => panic!("expected a read"),
    }
    match read_secret_bytes(b"list_wallet_inkey:", &task, 96) {
        Call::ReadSecret { key, capacity } => {
            assert_eq!(key.as_slice(), b"list_wallet_inkey:t1");
            assert_eq!(capacity, 96);
        }
        _ => panic!("expected a secret read"),
    }
}

#[test]
fn read_call_cuts_a_key_that_is_too_long() {
    let prefix = [b'p'; 100];
    let suffix = Buffer::<64>::from_slice(&[b's'; 64]);
    match read_key_bytes(&prefix, &suffix, 8) {
        Call::Read { key, .. } => {
            assert_eq!(key.len(), 128);
            assert_eq!(&key.as_slice()[..100], &prefix[..]);
            assert_eq!(&key.as_slice()[100..], &[b's'; 28][..]);
        }
        _ => panic!("expected a read"),
    }
}

#[test]
fn write_calls_name_key_and_value() {
    match write_response(b"{\"paid\":true}") {
        Call::Write { key, value } => {
            assert_eq!(key.as_slice(), b"public_response");
            assert_eq!(value.as_slice(), b"{\"paid\":true}");
            assert!(matches!(value, Value::Lent(_)));
        }
        _ => panic!("expected a write"),
    }
    match write_held_response(Buffer::<64>::from_slice(b"{\"id\":\"pt_9\"}")) {
        Call::Write { key, value } => {
            assert_eq!(key.as_slice(), b"public_response");
            assert_eq!(value.as_slice(), b"{\"id\":\"pt_9\"}");
        }
        _ => panic!("expected a write"),
    }
    match write_counter(1234567890123) {
        Call::Write { key, value } => {
            assert_eq!(key.as_slice(), b"id_counter");
            assert_eq!(value.as_slice(), b"1234567890123");
        }
        _ => panic!("expected a write"),
    }
    match write_counter(u64::MAX) {
        Call::Write { key, value } => {
            assert_eq!(key.as_slice(), b"id_counter");
            assert_eq!(value.as_slice(), b"18446744073709551615");
        }
        _ => panic!("expected a write"),
    }
}

#[test]
fn write_response_hands_on_every_byte() {
    for len in [0usize, 1, 4095, 4096, 4097, 10_000, 100_000] {
        let value: Vec<u8> = (0..len).map(|i| (i % 251) as u8).collect();
        match write_response(&value) {
            Call::Write { key, value: written } => {
                assert_eq!(key.as_slice(), b"public_response");
                assert_eq!(written.as_slice().len(), len);
                assert_eq!(written.as_slice(), &value[..]);
            }
            _ => panic!("expected a write"),
        }
    }
}
