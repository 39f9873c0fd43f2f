//! Tests of the demo handler, the demo factory, the wired demo run, and the
//! small building blocks they rely on.

use fakeserver::conn_counter_header;
use fakeserver::decimal::u64_to_string;
use fakeserver::demo_serve;
use fakeserver::serve;
use fakeserver::serve_requests;
use fakeserver::synth_conn;
use fakeserver::synth_request;
use fakeserver::ConnInfo;
use fakeserver::ConnOutcome;
use fakeserver::DemoApp;
use fakeserver::DemoFactory;
use fakeserver::DispatchOutcome;
use fakeserver::Headers;
use fakeserver::PollReady;
use fakeserver::Request;
use fakeserver::Service;

fn counter_header_value(out: &DispatchOutcome<fakeserver::Response>, name: &str) -> String {
    match out {
        DispatchOutcome::Done(resp) => resp.headers.get(name).expect("header missing").clone(),
        _ => panic!("expected a successful call"),
    }
}

#[test]
fn decimal_rendering() {
    assert_eq!(u64_to_string(0), "0");
    assert_eq!(u64_to_string(7), "7");
    assert_eq!(u64_to_string(10), "10");
    assert_eq!(u64_to_string(42), "42");
    assert_eq!(u64_to_string(1234567890), "1234567890");
    assert_eq!(u64_to_string(u64::MAX), "18446744073709551615");
}

#[test]
fn headers_insert_get_replace() {
    let mut h = Headers::new();
    assert!(h.is_empty());
    assert_eq!(h.len(), 0);
    h.insert("a".to_string(), "1".to_string());
    assert_eq!(h.len(), 1);
    assert!(h.contains_key("a"));
    assert!(!h.contains_key("b"));
    assert_eq!(h.get("a").map(|v| v.as_str()), Some("1"));
    h.insert("a".to_string(), "2".to_string());
    assert_eq!(h.len(), 1);
    assert_eq!(h.get("a").map(|v| v.as_str()), Some("2"));
    h.insert("b".to_string(), "3".to_string());
    assert_eq!(h.len(), 2);
}

#[test]
fn synthetic_arrivals_have_fixed_shapes() {
    let conn = synth_conn(3);
    assert_eq!(conn.host_and_port, "Fake info, connection #3");
    let req = synth_request();
    assert_eq!(req.path_and_query, "/fake/path?page=1");
    assert!(req.headers.is_empty());
    assert!(req.body.is_empty());
}

#[test]
fn demo_failure_rule_exact_outcomes() {
    // counter values 0..=5: success, success, failure, success, success, success
    let expected = [true, true, false, true, true, true];
    for (c, expect_ok) in expected.iter().enumerate() {
        let mut app = DemoApp { counter: c as u64, counter_header: "X-Counter".to_string() };
        assert!(matches!(app.poll_ready(), PollReady::Ready));
        let r = app.call(synth_request());
        assert_eq!(r.is_ok(), *expect_ok, "counter value {}", c);
        assert_eq!(app.counter, c as u64 + 1);
        if let Err(e) = r {
            assert_eq!(e.detail, "Failing 25% of the time, just for fun");
        }
    }
}

#[test]
fn demo_response_echoes_request() {
    let mut app = DemoApp::default();
    let mut req = synth_request();
    req.body = vec![10, 20, 30];
    req.headers.insert("Accept".to_string(), "everything".to_string());
    let resp = app.call(req).unwrap();
    assert_eq!(resp.status, 200);
    assert_eq!(resp.body, vec![10, 20, 30]);
    assert_eq!(resp.headers.len(), 2);
    assert_eq!(resp.headers.get("Accept").map(|v| v.as_str()), Some("everything"));
    assert_eq!(resp.headers.get("X-Counter").map(|v| v.as_str()), Some("0"));
}

#[test]
fn demo_counter_values_are_consecutive() {
    let mut app = DemoApp::default();
    let reqs = (0..6).map(|_| synth_request()).collect::<Vec<Request>>();
    let outs = serve_requests(&mut app, reqs);
    assert_eq!(outs.len(), 6);
    assert_eq!(app.counter, 6);
    let mut stamped = Vec::new();
    let mut failed_at = Vec::new();
    for (j, out) in outs.iter().enumerate() {
        match out {
            DispatchOutcome::Done(resp) => {
                let v = resp.headers.get("X-Counter").expect("stamp missing");
                stamped.push(v.parse::<u64>().unwrap());
            },
            DispatchOutcome::Failed(_) => failed_at.push(j as u64),
            DispatchOutcome::Abandoned(_) => panic!("demo call abandoned"),
        }
    }
    // the successful calls observed 0, 1, 3, 4, 5 in order; the one failure
    // sits at index 2, the only value of 0..=5 the failure rule rejects, so
    // the observed values are exactly 0..=5 with no repeats and no gaps
    assert_eq!(stamped, vec![0, 1, 3, 4, 5]);
    assert_eq!(failed_at, vec![2]);
}

#[test]
fn demo_factory_lends_and_reclaims_counter() {
    let mut factory = DemoFactory { counter: 5 };
    assert!(matches!(factory.poll_ready(), PollReady::Ready));
    let conn = ConnInfo { host_and_port: "peer:1234".to_string() };
    let expected_name = conn_counter_header(&conn);
    assert_eq!(expected_name, "Conn: peer:1234, X-Counter");
    let mut app = factory.call(conn).unwrap();
    assert_eq!(app.counter, 5);
    assert_eq!(app.counter_header, "Conn: peer:1234, X-Counter");
    app.call(synth_request()).unwrap();
    assert_eq!(factory.counter, 5);
    factory.reclaim(app);
    assert_eq!(factory.counter, 6);
}

#[test]
fn generic_serve_without_reclaim_restarts_counter() {
    // without reclaiming, every connection's service starts from the
    // factory's unchanged counter
    let mut factory = DemoFactory::new();
    let arrivals = vec![
        (synth_conn(1), vec![synth_request()]),
        (synth_conn(2), vec![synth_request()]),
    ];
    let log = serve(&mut factory, arrivals);
    assert_eq!(log.len(), 2);
    assert_eq!(factory.counter, 0);
    for (i, entry) in log.iter().enumerate() {
        let conn = synth_conn(i as u64 + 1);
        let name = conn_counter_header(&conn);
        match entry {
            ConnOutcome::Served(outs) => {
                assert_eq!(outs.len(), 1);
                assert_eq!(counter_header_value(&outs[0], &name), "0");
            },
            _ => panic!("expected a served connection"),
        }
    }
}

#[test]
fn end_to_end_three_connections_two_requests() {
    let mut factory = DemoFactory::new();
    let mut arrivals = Vec::new();
    for n in 1..=3u64 {
        arrivals.push((synth_conn(n), vec![synth_request(), synth_request()]));
    }
    let log = demo_serve(&mut factory, arrivals);
    assert_eq!(log.len(), 3);
    assert_eq!(factory.counter, 6);
    let mut stamps = Vec::new();
    let mut failures = Vec::new();
    for (i, entry) in log.iter().enumerate() {
        let name = conn_counter_header(&synth_conn(i as u64 + 1));
        match entry {
            ConnOutcome::Served(outs) => {
                assert_eq!(outs.len(), 2);
                for (j, out) in outs.iter().enumerate() {
                    match out {
                        DispatchOutcome::Done(resp) => {
                            assert_eq!(resp.status, 200);
                            let v = resp.headers.get(&name).expect("stamp missing");
                            stamps.push(v.parse::<u64>().unwrap());
                        },
                        DispatchOutcome::Failed(e) => {
                            assert_eq!(e.detail, "Failing 25% of the time, just for fun");
                            failures.push(2 * i + j);
                        },
                        DispatchOutcome::Abandoned(_) => panic!("demo call abandoned"),
                    }
                }
            },
            _ => panic!("expected a served connection"),
        }
    }
    // the 3rd request overall (counter value 2) fails; all others succeed
    assert_eq!(failures, vec![2]);
    // counter-stamped headers are strictly increasing across the run
    assert_eq!(stamps, vec![0, 1, 3, 4, 5]);
}
