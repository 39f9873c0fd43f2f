//! Tests of the two-phase protocol: the functional adapters, single
//! dispatch steps, and the engine's abandonment behaviour.

use fakeserver::app_factory_fn;
use fakeserver::app_fn;
use fakeserver::dispatch;
use fakeserver::serve;
use fakeserver::serve_requests;
use fakeserver::synth_conn;
use fakeserver::synth_request;
use fakeserver::ConnInfo;
use fakeserver::ConnOutcome;
use fakeserver::DemoApp;
use fakeserver::DispatchOutcome;
use fakeserver::EchoApp;
use fakeserver::PollReady;
use fakeserver::Request;
use fakeserver::Response;
use fakeserver::Service;
use fakeserver::SvcError;

#[test]
fn adapter_poll_ready_always_ready() {
    let mut app = app_fn(|req: Request| -> Result<Response, SvcError> {
        Ok(Response { status: 204, headers: req.headers, body: req.body })
    });
    for _ in 0..5 {
        assert!(matches!(app.poll_ready(), PollReady::Ready));
    }
}

#[test]
fn adapter_call_returns_function_result() {
    let mut app = app_fn(|req: Request| -> Result<Response, SvcError> {
        Ok(Response { status: 204, headers: req.headers, body: req.body })
    });
    assert!(matches!(app.poll_ready(), PollReady::Ready));
    let mut req = synth_request();
    req.body = vec![9, 8, 7];
    let resp = app.call(req).unwrap();
    assert_eq!(resp.status, 204);
    assert_eq!(resp.body, vec![9, 8, 7]);
}

#[test]
fn factory_adapter_poll_ready_always_ready() {
    let mut factory = app_factory_fn(|_conn: ConnInfo| -> Result<DemoApp, SvcError> {
        Ok(DemoApp::default())
    });
    for _ in 0..5 {
        assert!(matches!(factory.poll_ready(), PollReady::Ready));
    }
}

#[test]
fn factory_adapter_call_returns_function_result() {
    let mut factory = app_factory_fn(|_conn: ConnInfo| -> Result<DemoApp, SvcError> {
        Ok(DemoApp::default())
    });
    assert!(matches!(factory.poll_ready(), PollReady::Ready));
    let conn = ConnInfo { host_and_port: "somewhere:80".to_string() };
    let app = factory.call(conn).unwrap();
    assert_eq!(app.counter, 0);
}

#[test]
fn ready_then_call_is_accepted() {
    let mut app = DemoApp::default();
    assert!(matches!(app.poll_ready(), PollReady::Ready));
    let out = dispatch(&mut app, synth_request());
    assert!(matches!(out, DispatchOutcome::Done(_)));
}

#[test]
fn abandon_on_not_ready_keeps_looping() {
    let mut app = EchoApp { accept: false };
    let reqs = vec![synth_request(), synth_request(), synth_request()];
    let outs = serve_requests(&mut app, reqs);
    assert_eq!(outs.len(), 3);
    for out in &outs {
        assert!(matches!(out, DispatchOutcome::Abandoned(PollReady::NotReady(_))));
    }
}

#[test]
fn echo_service_echoes_once_ready() {
    let mut app = EchoApp { accept: true };
    let mut req = synth_request();
    req.body = vec![1, 2, 3];
    let outs = serve_requests(&mut app, vec![req]);
    assert_eq!(outs.len(), 1);
    match &outs[0] {
        DispatchOutcome::Done(resp) => {
            assert_eq!(resp.status, 200);
            assert_eq!(resp.body, vec![1, 2, 3]);
            assert_eq!(resp.headers.len(), 0);
        },
        _ => panic!("expected a successful echo"),
    }
}

#[test]
fn factory_setup_failure_abandons_only_that_connection() {
    let mut factory = app_factory_fn(|conn: ConnInfo| -> Result<EchoApp, SvcError> {
        if conn.host_and_port.ends_with("#1") {
            Err(SvcError { detail: "refused".to_string() })
        } else {
            Ok(EchoApp { accept: true })
        }
    });
    let arrivals = vec![
        (synth_conn(1), vec![synth_request()]),
        (synth_conn(2), vec![synth_request()]),
    ];
    let log = serve(&mut factory, arrivals);
    assert_eq!(log.len(), 2);
    match &log[0] {
        ConnOutcome::SetupFailed(e) => assert_eq!(e.detail, "refused"),
        _ => panic!("expected the first connection's setup to fail"),
    }
    match &log[1] {
        ConnOutcome::Served(outs) => {
            assert_eq!(outs.len(), 1);
            assert!(matches!(outs[0], DispatchOutcome::Done(_)));
        },
        _ => panic!("expected the second connection to be served"),
    }
}

#[test]
fn not_ready_then_ready_resumes_service() {
    let mut app = EchoApp { accept: false };
    let outs = serve_requests(&mut app, vec![synth_request()]);
    assert!(matches!(outs[0], DispatchOutcome::Abandoned(_)));
    app.accept = true;
    let outs = serve_requests(&mut app, vec![synth_request()]);
    assert!(matches!(outs[0], DispatchOutcome::Done(_)));
}
