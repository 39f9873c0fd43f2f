//! The dispatch engine. It drives the two-phase protocol over scripted
//! arrival events: for each arrival it polls readiness, abandons the event
//! when readiness is not confirmed, and otherwise issues the call and records
//! the result. The connection layer additionally hands each accepted
//! connection's requests to the per-connection request loop.
//!
//! No failure is ever propagated out of a loop: every outcome, including an
//! abandoned event, is recorded and the loop moves to the next event, so a
//! loop always produces exactly one outcome per event.

use vstd::prelude::*;

verus! {

use crate::decimal::dec_digits;
use crate::http::ConnInfo;
use crate::http::Headers;
use crate::http::Request;
use crate::http::Response;
use crate::service::PollReady;
use crate::service::Service;
use crate::service::SvcError;

/// The recorded fate of one unit of work.
pub enum DispatchOutcome<O> {
    /// Readiness was not confirmed; the work was abandoned, keeping the
    /// readiness answer.
    Abandoned(PollReady),
    /// The call was issued and succeeded.
    Done(O),
    /// The call was issued and failed.
    Failed(SvcError),
}

/// How one engine step relates the service state before (`pre`) and after
/// (`post`) to the recorded outcome: either readiness was not confirmed and
/// the step is the failed check alone, or the check answered `Ready` on some
/// intermediate state that the call then ran from.
pub open spec fn step_spec<I, O, S: Service<I, O>>(
    pre: S,
    input: I,
    post: S,
    out: DispatchOutcome<O>,
) -> bool {
    match out {
        DispatchOutcome::Abandoned(p) => !(p is Ready) && pre.poll_spec(p, post),
        DispatchOutcome::Done(o) => exists|mid: S|
            #[trigger] pre.poll_spec(PollReady::Ready, mid) && mid.call_spec(input, post, Ok(o)),
        DispatchOutcome::Failed(e) => exists|mid: S|
            #[trigger] pre.poll_spec(PollReady::Ready, mid) && mid.call_spec(input, post, Err(e)),
    }
}

/// One unit of work: polls the service's readiness and, exactly when the
/// answer is `Ready`, issues the call. A `Ready` answer always suffices for
/// the call to be accepted, and a failed check only ever abandons this one
/// input.
pub fn dispatch<I, O, S: Service<I, O>>(s: &mut S, input: I) -> (out: DispatchOutcome<O>)
    requires
        old(s).inv(),
    ensures
        final(s).inv(),
        step_spec(*old(s), input, *final(s), out),
{
    let ghost pre = *s;
    let r = s.poll_ready();
    match r {
        PollReady::Ready => {
            let ghost mid = *s;
            let ghost gin = input;
            match s.call(input) {
                Ok(o) => {
                    proof {
                        assert(pre.poll_spec(PollReady::Ready, mid));
                        assert(mid.call_spec(gin, *s, Ok(o)));
                    }
                    DispatchOutcome::Done(o)
                },
                Err(e) => {
                    proof {
                        assert(pre.poll_spec(PollReady::Ready, mid));
                        assert(mid.call_spec(gin, *s, Err(e)));
                    }
                    DispatchOutcome::Failed(e)
                },
            }
        },
        p => DispatchOutcome::Abandoned(p),
    }
}

/// The request loop's whole behaviour: the service walked from `pre` to
/// `post` through one engine step per input, producing `outs`, one outcome
/// per input in issuance order.
pub open spec fn dispatch_chain<I, O, S: Service<I, O>>(
    pre: S,
    inputs: Seq<I>,
    post: S,
    outs: Seq<DispatchOutcome<O>>,
) -> bool
    decreases inputs.len(),
{
    if inputs.len() == 0 {
        post == pre && outs.len() == 0
    } else {
        &&& outs.len() == inputs.len()
        &&& exists|mid: S|
            #[trigger] step_spec(pre, inputs[0], mid, outs[0]) && dispatch_chain(
                mid,
                inputs.skip(1),
                post,
                outs.skip(1),
            )
    }
}

/// A chain extends by one step at its end.
proof fn lemma_dispatch_chain_snoc<I, O, S: Service<I, O>>(
    pre: S,
    inputs: Seq<I>,
    mid: S,
    outs: Seq<DispatchOutcome<O>>,
    input: I,
    post: S,
    out: DispatchOutcome<O>,
)
    requires
        dispatch_chain(pre, inputs, mid, outs),
        step_spec(mid, input, post, out),
    ensures
        dispatch_chain(pre, inputs.push(input), post, outs.push(out)),
    decreases inputs.len(),
{
    if inputs.len() == 0 {
        assert(inputs.push(input).skip(1) =~= Seq::<I>::empty());
        assert(outs.push(out).skip(1) =~= Seq::<DispatchOutcome<O>>::empty());
        assert(dispatch_chain(
            post,
            inputs.push(input).skip(1),
            post,
            outs.push(out).skip(1),
        ));
        assert(step_spec(pre, inputs.push(input)[0], post, outs.push(out)[0]));
    } else {
        let m = choose|m: S|
            #[trigger] step_spec(pre, inputs[0], m, outs[0]) && dispatch_chain(
                m,
                inputs.skip(1),
                mid,
                outs.skip(1),
            );
        lemma_dispatch_chain_snoc(m, inputs.skip(1), mid, outs.skip(1), input, post, out);
        assert(inputs.push(input).skip(1) =~= inputs.skip(1).push(input));
        assert(outs.push(out).skip(1) =~= outs.skip(1).push(out));
        assert(step_spec(pre, inputs.push(input)[0], m, outs.push(out)[0]));
    }
}

/// The per-connection request loop: performs one engine step for each
/// request in arrival order. A failed readiness check abandons only that
/// request; the loop always runs to the end of its input and records exactly
/// one outcome per request.
pub fn serve_requests<S: Service<Request, Response>>(app: &mut S, reqs: Vec<Request>) -> (outs: Vec<
    DispatchOutcome<Response>,
>)
    requires
        old(app).inv(),
    ensures
        final(app).inv(),
        outs@.len() == reqs@.len(),
        dispatch_chain(*old(app), reqs@, *final(app), outs@),
{
    let ghost all_reqs = reqs@;
    let mut reqs = reqs;
    let mut outs: Vec<DispatchOutcome<Response>> = Vec::new();
    while reqs.len() > 0
        invariant
            app.inv(),
            outs@.len() + reqs@.len() == all_reqs.len(),
            reqs@ =~= all_reqs.skip(outs@.len() as int),
            dispatch_chain(*old(app), all_reqs.take(outs@.len() as int), *app, outs@),
        decreases reqs@.len(),
    {
        let ghost k = outs@.len() as int;
        let ghost pre_state = *app;
        let req = reqs.remove(0);
        let ghost greq = req;
        assert(greq == all_reqs[k]);
        let out = dispatch(app, req);
        proof {
            lemma_dispatch_chain_snoc(
                *old(app),
                all_reqs.take(k),
                pre_state,
                outs@,
                greq,
                *app,
                out,
            );
            assert(all_reqs.take(k + 1) =~= all_reqs.take(k).push(greq));
            assert(reqs@ =~= all_reqs.skip(k + 1));
        }
        outs.push(out);
    }
    proof {
        assert(all_reqs.take(outs@.len() as int) =~= all_reqs);
    }
    outs
}

/// The recorded fate of one connection arrival.
pub enum ConnOutcome {
    /// The factory's readiness was not confirmed; the connection was
    /// abandoned, keeping the readiness answer.
    NotAccepted(PollReady),
    /// The factory accepted, but producing the per-connection service
    /// failed; the connection was abandoned.
    SetupFailed(SvcError),
    /// A per-connection service was produced and its request loop ran: the
    /// recorded fates of the connection's requests, in issuance order.
    Served(Vec<DispatchOutcome<Response>>),
}

/// How one connection arrival relates the factory state before (`pre`) and
/// after (`post`) to the recorded outcome. When a service is produced, its
/// request loop walks it from its produced state `app0` to some final state
/// `app1`, which the engine then discards.
pub open spec fn conn_step_spec<S: Service<Request, Response>, F: Service<ConnInfo, S>>(
    pre: F,
    conn: ConnInfo,
    reqs: Seq<Request>,
    post: F,
    out: ConnOutcome,
) -> bool {
    match out {
        ConnOutcome::NotAccepted(p) => !(p is Ready) && pre.poll_spec(p, post),
        ConnOutcome::SetupFailed(e) => exists|mid: F|
            #[trigger] pre.poll_spec(PollReady::Ready, mid) && mid.call_spec(conn, post, Err(e)),
        ConnOutcome::Served(outs) => exists|w: (F, S, S)|
            #[trigger] served_witness::<S, F>(pre, conn, reqs, post, outs@, w),
    }
}

/// One way a connection could have been served: `w.0` is the factory state
/// the readiness check left behind, `w.1` the produced service, `w.2` the
/// state the request loop walked that service to.
pub open spec fn served_witness<S: Service<Request, Response>, F: Service<ConnInfo, S>>(
    pre: F,
    conn: ConnInfo,
    reqs: Seq<Request>,
    post: F,
    outs: Seq<DispatchOutcome<Response>>,
    w: (F, S, S),
) -> bool {
    &&& pre.poll_spec(PollReady::Ready, w.0)
    &&& w.0.call_spec(conn, post, Ok(w.1))
    &&& dispatch_chain(w.1, reqs, w.2, outs)
}

/// The connection loop's whole behaviour: the factory walked from `pre` to
/// `post` through one connection step per arrival, producing `log`, one
/// outcome per arrival in arrival order.
pub open spec fn conn_chain<S: Service<Request, Response>, F: Service<ConnInfo, S>>(
    pre: F,
    arrivals: Seq<(ConnInfo, Seq<Request>)>,
    post: F,
    log: Seq<ConnOutcome>,
) -> bool
    decreases arrivals.len(),
{
    if arrivals.len() == 0 {
        post == pre && log.len() == 0
    } else {
        &&& log.len() == arrivals.len()
        &&& exists|mid: F|
            #[trigger] conn_step_spec::<S, F>(pre, arrivals[0].0, arrivals[0].1, mid, log[0])
                && conn_chain::<S, F>(mid, arrivals.skip(1), post, log.skip(1))
    }
}

/// A connection chain extends by one step at its end.
proof fn lemma_conn_chain_snoc<S: Service<Request, Response>, F: Service<ConnInfo, S>>(
    pre: F,
    arrivals: Seq<(ConnInfo, Seq<Request>)>,
    mid: F,
    log: Seq<ConnOutcome>,
    arrival: (ConnInfo, Seq<Request>),
    post: F,
    out: ConnOutcome,
)
    requires
        conn_chain::<S, F>(pre, arrivals, mid, log),
        conn_step_spec::<S, F>(mid, arrival.0, arrival.1, post, out),
    ensures
        conn_chain::<S, F>(pre, arrivals.push(arrival), post, log.push(out)),
    decreases arrivals.len(),
{
    if arrivals.len() == 0 {
        assert(arrivals.push(arrival).skip(1) =~= Seq::<(ConnInfo, Seq<Request>)>::empty());
        assert(log.push(out).skip(1) =~= Seq::<ConnOutcome>::empty());
        assert(conn_chain::<S, F>(
            post,
            arrivals.push(arrival).skip(1),
            post,
            log.push(out).skip(1),
        ));
        assert(conn_step_spec::<S, F>(
            pre,
            arrivals.push(arrival)[0].0,
            arrivals.push(arrival)[0].1,
            post,
            log.push(out)[0],
        ));
    } else {
        let m = choose|m: F|
            #[trigger] conn_step_spec::<S, F>(pre, arrivals[0].0, arrivals[0].1, m, log[0])
                && conn_chain::<S, F>(m, arrivals.skip(1), mid, log.skip(1));
        lemma_conn_chain_snoc::<S, F>(
            m,
            arrivals.skip(1),
            mid,
            log.skip(1),
            arrival,
            post,
            out,
        );
        assert(arrivals.push(arrival).skip(1) =~= arrivals.skip(1).push(arrival));
        assert(log.push(out).skip(1) =~= log.skip(1).push(out));
        assert(conn_step_spec::<S, F>(
            pre,
            arrivals.push(arrival)[0].0,
            arrivals.push(arrival)[0].1,
            m,
            log.push(out)[0],
        ));
    }
}

/// The arrival script as the connection chain sees it: each connection's
/// metadata with that connection's requests.
pub open spec fn arrivals_view(arrivals: Seq<(ConnInfo, Vec<Request>)>) -> Seq<
    (ConnInfo, Seq<Request>),
> {
    arrivals.map_values(|a: (ConnInfo, Vec<Request>)| (a.0, a.1@))
}

/// The connection loop: performs one connection step for each arrival in
/// arrival order, handing each produced service to the request loop with
/// that connection's requests. A failed readiness check or a failed
/// production abandons only that connection; the loop always runs to the end
/// of its script and records exactly one outcome per arrival.
///
/// The factory must produce only well-formed services: anything it can hand
/// out must satisfy that service's own invariant.
pub fn serve<S: Service<Request, Response>, F: Service<ConnInfo, S>>(
    factory: &mut F,
    arrivals: Vec<(ConnInfo, Vec<Request>)>,
) -> (log: Vec<ConnOutcome>)
    requires
        old(factory).inv(),
        forall|fpre: F, conn: ConnInfo, fpost: F, app: S|
            #[trigger] fpre.call_spec(conn, fpost, Ok(app)) ==> app.inv(),
    ensures
        final(factory).inv(),
        log@.len() == arrivals@.len(),
        conn_chain::<S, F>(*old(factory), arrivals_view(arrivals@), *final(factory), log@),
{
    let ghost script = arrivals_view(arrivals@);
    let mut arrivals = arrivals;
    let mut log: Vec<ConnOutcome> = Vec::new();
    while arrivals.len() > 0
        invariant
            factory.inv(),
            forall|fpre: F, conn: ConnInfo, fpost: F, app: S|
                #[trigger] fpre.call_spec(conn, fpost, Ok(app)) ==> app.inv(),
            log@.len() + arrivals@.len() == script.len(),
            arrivals_view(arrivals@) =~= script.skip(log@.len() as int),
            conn_chain::<S, F>(*old(factory), script.take(log@.len() as int), *factory, log@),
        decreases arrivals@.len(),
    {
        let ghost k = log@.len() as int;
        let ghost pre_f = *factory;
        let ghost arr_pre = arrivals@;
        let (conn, reqs) = arrivals.remove(0);
        let ghost gconn = conn;
        let ghost greqs = reqs@;
        assert(arrivals_view(arr_pre)[0] == script[k]) by {
            assert(arrivals_view(arr_pre) =~= script.skip(k));
        }
        assert(script[k] == (gconn, greqs));
        let out = dispatch(factory, conn);
        let entry: ConnOutcome = match out {
            DispatchOutcome::Abandoned(p) => {
                let ghost gp = p;
                proof {
                    assert(conn_step_spec::<S, F>(
                        pre_f,
                        gconn,
                        greqs,
                        *factory,
                        ConnOutcome::NotAccepted(gp),
                    ));
                }
                ConnOutcome::NotAccepted(p)
            },
            DispatchOutcome::Failed(e) => {
                let ghost ge = e;
                proof {
                    let mid = choose|mid: F|
                        #[trigger] pre_f.poll_spec(PollReady::Ready, mid) && mid.call_spec(
                            gconn,
                            *factory,
                            Err(ge),
                        );
                    assert(pre_f.poll_spec(PollReady::Ready, mid));
                    assert(mid.call_spec(gconn, *factory, Err(ge)));
                    assert(conn_step_spec::<S, F>(
                        pre_f,
                        gconn,
                        greqs,
                        *factory,
                        ConnOutcome::SetupFailed(ge),
                    ));
                }
                ConnOutcome::SetupFailed(e)
            },
            DispatchOutcome::Done(app) => {
                let mut app = app;
                let ghost mid = choose|mid: F|
                    #[trigger] pre_f.poll_spec(PollReady::Ready, mid) && mid.call_spec(
                        gconn,
                        *factory,
                        Ok(app),
                    );
                let ghost app0 = app;
                assert(app0.inv());
                let outs = serve_requests(&mut app, reqs);
                proof {
                    assert(pre_f.poll_spec(PollReady::Ready, mid));
                    assert(mid.call_spec(gconn, *factory, Ok(app0)));
                    assert(dispatch_chain(app0, greqs, app, outs@));
                    assert(served_witness::<S, F>(
                        pre_f,
                        gconn,
                        greqs,
                        *factory,
                        outs@,
                        (mid, app0, app),
                    ));
                    let gentry = ConnOutcome::Served(outs);
                    assert(gentry matches ConnOutcome::Served(o) && o == outs);
                    assert(conn_step_spec::<S, F>(pre_f, gconn, greqs, *factory, gentry));
                }
                ConnOutcome::Served(outs)
            },
        };
        proof {
            assert(conn_step_spec::<S, F>(pre_f, gconn, greqs, *factory, entry));
            lemma_conn_chain_snoc::<S, F>(
                *old(factory),
                script.take(k),
                pre_f,
                log@,
                (gconn, greqs),
                *factory,
                entry,
            );
            assert(script.take(k + 1) =~= script.take(k).push((gconn, greqs)));
            assert(arrivals@ =~= arr_pre.skip(1));
            assert forall|i: int| 0 <= i < arrivals@.len() implies arrivals_view(arrivals@)[i]
                == script.skip(k + 1)[i] by {
                assert(arrivals_view(arrivals@)[i] == arrivals_view(arr_pre)[i + 1]);
            }
            assert(arrivals_view(arrivals@) =~= script.skip(k + 1));
        }
        log.push(entry);
    }
    proof {
        assert(script.take(log@.len() as int) =~= script);
    }
    log
}

/// The connection metadata the simulated arrival source produces for the
/// `n`-th connection.
pub open spec fn synth_host(n: nat) -> Seq<char> {
    "Fake info, connection #"@ + dec_digits(n)
}

/// Builds the metadata for the `n`-th simulated connection arrival.
pub fn synth_conn(n: u64) -> (c: ConnInfo)
    ensures
        c.host_and_port@ == synth_host(n as nat),
{
    let mut s = String::from_str("Fake info, connection #");
    let digits = crate::decimal::u64_to_string(n);
    s.append(digits.as_str());
    proof {
        assert(s@ =~= synth_host(n as nat));
    }
    ConnInfo { host_and_port: s }
}

/// The path-and-query of every simulated request arrival.
pub open spec fn synth_path() -> Seq<char> {
    "/fake/path?page=1"@
}

/// Builds one simulated request arrival: the fixed synthetic path, no
/// headers, an empty body.
pub fn synth_request() -> (r: Request)
    ensures
        r.path_and_query@ == synth_path(),
        r.headers@ == Map::<Seq<char>, Seq<char>>::empty(),
        r.body@ == Seq::<u8>::empty(),
{
    Request {
        path_and_query: String::from_str("/fake/path?page=1"),
        headers: Headers::new(),
        body: Vec::new(),
    }
}

} // verus!
