//! Demo handlers. `DemoApp` illustrates counter state threaded through every
//! call with a deterministic synthetic failure rule; `DemoFactory` derives one
//! `DemoApp` per connection while sharing the counter across connections by
//! handing it out and reclaiming it. `EchoApp` is a plain echoing service
//! whose readiness is under manual control.

use vstd::prelude::*;

verus! {

use crate::decimal::dec_digits;
use crate::decimal::u64_to_string;
use crate::engine::arrivals_view;
use crate::engine::dispatch;
use crate::engine::dispatch_chain;
use crate::engine::serve_requests;
use crate::engine::step_spec;
use crate::engine::ConnOutcome;
use crate::engine::DispatchOutcome;
use crate::http::ConnInfo;
use crate::http::Request;
use crate::http::Response;
use crate::service::PollReady;
use crate::service::Service;
use crate::service::SvcError;
use vstd::pervasive::unreached;

/// The demo failure rule: the call that observes counter value `c` fails if
/// and only if `c % 4 == 2`.
pub open spec fn demo_fails(c: u64) -> bool {
    c % 4 == 2
}

/// The error detail of a synthetic demo failure.
pub open spec fn demo_failure_detail() -> Seq<char> {
    "Failing 25% of the time, just for fun"@
}

/// A request handler with counter state. Each call observes the current
/// counter value, increments the counter, and then either fails (under the
/// demo failure rule) or echoes the request with the observed value stamped
/// into the header named by `counter_header`.
pub struct DemoApp {
    pub counter: u64,
    pub counter_header: String,
}

impl Default for DemoApp {
    /// A fresh handler: counter at zero, stamping the `X-Counter` header.
    fn default() -> (r: DemoApp)
        ensures
            r.counter == 0,
            r.counter_header@ == "X-Counter"@,
    {
        DemoApp { counter: 0, counter_header: String::from_str("X-Counter") }
    }
}

impl Service<Request, Response> for DemoApp {
    open spec fn inv(&self) -> bool {
        true
    }

    /// The handler can accept work until its counter is exhausted.
    open spec fn ready(&self) -> bool {
        self.counter < u64::MAX
    }

    /// A readiness check answers `Ready` exactly while the counter is not
    /// exhausted, and never changes the handler.
    open spec fn poll_spec(&self, r: PollReady, post: Self) -> bool {
        &&& post == *self
        &&& if self.counter < u64::MAX {
            r is Ready
        } else {
            r is NotReady
        }
    }

    /// A call observes the current counter value `c`, leaves the counter at
    /// `c + 1`, and fails exactly when the failure rule says so; otherwise it
    /// returns status 200, the request body unchanged, and the request
    /// headers with the observed value stamped under `counter_header`.
    open spec fn call_spec(&self, input: Request, post: Self, r: Result<Response, SvcError>) -> bool {
        &&& post.counter == self.counter + 1
        &&& post.counter_header == self.counter_header
        &&& match r {
            Ok(resp) => {
                &&& !demo_fails(self.counter)
                &&& resp.status == 200
                &&& resp.body@ == input.body@
                &&& resp.headers@ == input.headers@.insert(
                    self.counter_header@,
                    dec_digits(self.counter as nat),
                )
            },
            Err(e) => demo_fails(self.counter) && e.detail@ == demo_failure_detail(),
        }
    }

    fn poll_ready(&mut self) -> (r: PollReady) {
        if self.counter < u64::MAX {
            PollReady::Ready
        } else {
            PollReady::NotReady(String::from_str("counter exhausted"))
        }
    }

    fn call(&mut self, input: Request) -> (r: Result<Response, SvcError>) {
        let observed = self.counter;
        self.counter = observed + 1;
        if observed % 4 == 2 {
            Err(
                SvcError {
                    detail: String::from_str("Failing 25% of the time, just for fun"),
                },
            )
        } else {
            let name = self.counter_header.clone();
            let value = u64_to_string(observed);
            let mut headers = input.headers;
            headers.insert(name, value);
            Ok(Response { status: 200, headers, body: input.body })
        }
    }
}

/// The header name a factory-derived handler stamps: it names the connection
/// the handler was made for.
pub open spec fn conn_header_key(host: Seq<char>) -> Seq<char> {
    "Conn: "@ + host + ", X-Counter"@
}

/// Builds the stamped header name for a connection.
pub fn conn_counter_header(conn: &ConnInfo) -> (s: String)
    ensures
        s@ == conn_header_key(conn.host_and_port@),
{
    let mut s = String::from_str("Conn: ");
    s.append(conn.host_and_port.as_str());
    s.append(", X-Counter");
    proof {
        assert(s@ =~= conn_header_key(conn.host_and_port@));
    }
    s
}

/// A connection factory that derives one [`DemoApp`] per connection. All
/// derived handlers share one counter: the factory lends its current counter
/// to each handler it produces and takes the advanced counter back through
/// [`DemoFactory::reclaim`] when the connection is done.
pub struct DemoFactory {
    pub counter: u64,
}

impl DemoFactory {
    /// A fresh factory with the shared counter at zero.
    pub fn new() -> (r: DemoFactory)
        ensures
            r.counter == 0,
    {
        DemoFactory { counter: 0 }
    }

    /// Takes the shared counter back from a handler this factory produced.
    pub fn reclaim(&mut self, app: DemoApp)
        ensures
            final(self).counter == app.counter,
    {
        self.counter = app.counter;
    }
}

impl Service<ConnInfo, DemoApp> for DemoFactory {
    open spec fn inv(&self) -> bool {
        true
    }

    open spec fn ready(&self) -> bool {
        true
    }

    /// The factory is always ready and a readiness check never changes it.
    open spec fn poll_spec(&self, r: PollReady, post: Self) -> bool {
        r is Ready && post == *self
    }

    /// Producing a handler always succeeds: the handler starts from the
    /// factory's current counter and stamps the header naming its
    /// connection. The factory itself is unchanged until it reclaims the
    /// counter.
    open spec fn call_spec(&self, conn: ConnInfo, post: Self, r: Result<DemoApp, SvcError>) -> bool {
        &&& post == *self
        &&& match r {
            Ok(app) => app.counter == self.counter && app.counter_header@ == conn_header_key(
                conn.host_and_port@,
            ),
            Err(_) => false,
        }
    }

    fn poll_ready(&mut self) -> (r: PollReady) {
        PollReady::Ready
    }

    fn call(&mut self, conn: ConnInfo) -> (r: Result<DemoApp, SvcError>) {
        let counter_header = conn_counter_header(&conn);
        Ok(DemoApp { counter: self.counter, counter_header })
    }
}

/// A service that echoes each request as a status-200 response, with its
/// readiness under manual control through the `accept` flag. It exercises
/// the engine's abandonment path, which a handler that is always ready never
/// reaches.
pub struct EchoApp {
    pub accept: bool,
}

impl Service<Request, Response> for EchoApp {
    open spec fn inv(&self) -> bool {
        true
    }

    open spec fn ready(&self) -> bool {
        self.accept
    }

    /// A readiness check answers `Ready` exactly while `accept` is set, and
    /// never changes the service.
    open spec fn poll_spec(&self, r: PollReady, post: Self) -> bool {
        &&& post == *self
        &&& if self.accept {
            r is Ready
        } else {
            r is NotReady
        }
    }

    /// A call always succeeds and echoes the request unchanged under status
    /// 200.
    open spec fn call_spec(&self, input: Request, post: Self, r: Result<Response, SvcError>) -> bool {
        &&& post == *self
        &&& match r {
            Ok(resp) => resp.status == 200 && resp.headers@ == input.headers@ && resp.body@
                == input.body@,
            Err(_) => false,
        }
    }

    fn poll_ready(&mut self) -> (r: PollReady) {
        if self.accept {
            PollReady::Ready
        } else {
            PollReady::NotReady(String::from_str("not accepting work"))
        }
    }

    fn call(&mut self, input: Request) -> (r: Result<Response, SvcError>) {
        Ok(Response { status: 200, headers: input.headers, body: input.body })
    }
}

/// What the engine records for one demo call that observes counter value `c`
/// and stamps the header named `header`: the call is never abandoned, it
/// fails exactly under the failure rule, and otherwise it echoes the request
/// with the observed value stamped.
pub open spec fn demo_outcome(
    c: u64,
    header: Seq<char>,
    req: Request,
    out: DispatchOutcome<Response>,
) -> bool {
    match out {
        DispatchOutcome::Done(resp) => {
            &&& !demo_fails(c)
            &&& resp.status == 200
            &&& resp.body@ == req.body@
            &&& resp.headers@ == req.headers@.insert(header, dec_digits(c as nat))
        },
        DispatchOutcome::Failed(e) => demo_fails(c) && e.detail@ == demo_failure_detail(),
        DispatchOutcome::Abandoned(_) => false,
    }
}

/// Over one engine run of a [`DemoApp`], the `j`-th call observes counter
/// value `pre.counter + j`, and the run advances the counter by exactly the
/// number of calls.
pub proof fn lemma_demo_chain(
    pre: DemoApp,
    reqs: Seq<Request>,
    post: DemoApp,
    outs: Seq<DispatchOutcome<Response>>,
)
    requires
        dispatch_chain(pre, reqs, post, outs),
        pre.counter + reqs.len() <= u64::MAX,
    ensures
        outs.len() == reqs.len(),
        post.counter == pre.counter + reqs.len(),
        post.counter_header == pre.counter_header,
        forall|j: int|
            0 <= j < reqs.len() ==> demo_outcome(
                (pre.counter + j) as u64,
                pre.counter_header@,
                reqs[j],
                #[trigger] outs[j],
            ),
    decreases reqs.len(),
{
    if reqs.len() > 0 {
        let mid = choose|mid: DemoApp|
            #[trigger] step_spec(pre, reqs[0], mid, outs[0]) && dispatch_chain(
                mid,
                reqs.skip(1),
                post,
                outs.skip(1),
            );
        match outs[0] {
            DispatchOutcome::Abandoned(p) => {
                assert(pre.poll_spec(p, mid));
                assert(false);
            },
            DispatchOutcome::Done(resp) => {
                let m2 = choose|m2: DemoApp|
                    #[trigger] pre.poll_spec(PollReady::Ready, m2) && m2.call_spec(
                        reqs[0],
                        mid,
                        Ok(resp),
                    );
                assert(m2 == pre);
                assert(mid.counter == pre.counter + 1);
            },
            DispatchOutcome::Failed(e) => {
                let m2 = choose|m2: DemoApp|
                    #[trigger] pre.poll_spec(PollReady::Ready, m2) && m2.call_spec(
                        reqs[0],
                        mid,
                        Err(e),
                    );
                assert(m2 == pre);
                assert(mid.counter == pre.counter + 1);
            },
        }
        lemma_demo_chain(mid, reqs.skip(1), post, outs.skip(1));
        assert forall|j: int| 0 <= j < reqs.len() implies demo_outcome(
            (pre.counter + j) as u64,
            pre.counter_header@,
            reqs[j],
            #[trigger] outs[j],
        ) by {
            if j > 0 {
                assert(outs.skip(1)[j - 1] == outs[j]);
                assert(reqs.skip(1)[j - 1] == reqs[j]);
                assert(demo_outcome(
                    (mid.counter + (j - 1)) as u64,
                    mid.counter_header@,
                    reqs.skip(1)[j - 1],
                    outs.skip(1)[j - 1],
                ));
            }
        }
    }
}

/// The counter values a run of `n` demo calls starting at `c0` observes, in
/// issuance order.
pub open spec fn observed_counters(c0: u64, n: int) -> Seq<u64> {
    Seq::new(n as nat, |j: int| (c0 + j) as u64)
}

/// Law: over one engine run of a [`DemoApp`], the observed counter values
/// are exactly the consecutive range that starts at the initial counter —
/// each call observes one distinct value, with no repeats and no gaps — and
/// each call's recorded outcome is determined by its observed value.
pub proof fn lemma_demo_counter_values(
    pre: DemoApp,
    reqs: Seq<Request>,
    post: DemoApp,
    outs: Seq<DispatchOutcome<Response>>,
)
    requires
        dispatch_chain(pre, reqs, post, outs),
        pre.counter + reqs.len() <= u64::MAX,
    ensures
        outs.len() == reqs.len(),
        post.counter == pre.counter + reqs.len(),
        forall|j: int|
            0 <= j < reqs.len() ==> demo_outcome(
                observed_counters(pre.counter, reqs.len() as int)[j],
                pre.counter_header@,
                reqs[j],
                #[trigger] outs[j],
            ),
        forall|j1: int, j2: int|
            0 <= j1 < j2 < reqs.len() ==> observed_counters(pre.counter, reqs.len() as int)[j1]
                != observed_counters(pre.counter, reqs.len() as int)[j2],
        observed_counters(pre.counter, reqs.len() as int).to_set() == Set::new(
            |v: u64| pre.counter <= v < pre.counter + reqs.len(),
        ),
{
    lemma_demo_chain(pre, reqs, post, outs);
    let obs = observed_counters(pre.counter, reqs.len() as int);
    assert forall|v: u64| obs.to_set().contains(v) <==> (pre.counter <= v < pre.counter
        + reqs.len()) by {
        if pre.counter <= v < pre.counter + reqs.len() {
            let j = v - pre.counter;
            assert(obs[j] == v);
            assert(obs.contains(v));
        }
        if obs.to_set().contains(v) {
            let j = choose|j: int| 0 <= j < obs.len() && obs[j] == v;
            assert(pre.counter <= v < pre.counter + reqs.len());
        }
    }
    assert(obs.to_set() =~= Set::new(|v: u64| pre.counter <= v < pre.counter + reqs.len()));
}

/// The number of requests in the first `i` connections of an arrival script.
pub open spec fn total_reqs(script: Seq<(ConnInfo, Seq<Request>)>, i: int) -> int
    decreases i,
{
    if i <= 0 {
        0
    } else {
        total_reqs(script, i - 1) + script[i - 1].1.len()
    }
}

proof fn lemma_total_reqs_mono(script: Seq<(ConnInfo, Seq<Request>)>, i: int, k: int)
    requires
        0 <= i <= k,
    ensures
        total_reqs(script, i) <= total_reqs(script, k),
    decreases k - i,
{
    if i < k {
        lemma_total_reqs_mono(script, i, k - 1);
    }
}

/// What the engine records for the `i`-th connection of a demo run whose
/// shared counter started at `c0`: the connection is always accepted and
/// served, with one outcome per request, and its `j`-th call observes the
/// globally `total_reqs(script, i) + j`-th counter value.
pub open spec fn demo_conn_outcome(
    c0: u64,
    script: Seq<(ConnInfo, Seq<Request>)>,
    i: int,
    out: ConnOutcome,
) -> bool {
    match out {
        ConnOutcome::Served(outs) => {
            &&& outs@.len() == script[i].1.len()
            &&& forall|j: int|
                0 <= j < outs@.len() ==> demo_outcome(
                    (c0 + total_reqs(script, i) + j) as u64,
                    conn_header_key(script[i].0.host_and_port@),
                    script[i].1[j],
                    #[trigger] outs@[j],
                )
        },
        _ => false,
    }
}

/// Runs the demo wiring over a whole arrival script: one [`DemoFactory`]
/// produces a [`DemoApp`] per accepted connection, the engine drives each
/// through that connection's requests, and the factory reclaims the shared
/// counter after each connection. Every connection is accepted and served,
/// and the counter values observed across all requests of all connections
/// are consecutive from the factory's starting counter.
pub fn demo_serve(factory: &mut DemoFactory, arrivals: Vec<(ConnInfo, Vec<Request>)>) -> (log: Vec<
    ConnOutcome,
>)
    requires
        old(factory).counter + total_reqs(arrivals_view(arrivals@), arrivals@.len() as int)
            <= u64::MAX,
    ensures
        log@.len() == arrivals@.len(),
        final(factory).counter == old(factory).counter + total_reqs(
            arrivals_view(arrivals@),
            arrivals@.len() as int,
        ),
        forall|i: int|
            0 <= i < log@.len() ==> demo_conn_outcome(
                old(factory).counter,
                arrivals_view(arrivals@),
                i,
                #[trigger] log@[i],
            ),
{
    let ghost script = arrivals_view(arrivals@);
    let ghost c0 = factory.counter;
    let mut arrivals = arrivals;
    let mut log: Vec<ConnOutcome> = Vec::new();
    while arrivals.len() > 0
        invariant
            log@.len() + arrivals@.len() == script.len(),
            arrivals_view(arrivals@) =~= script.skip(log@.len() as int),
            factory.counter == c0 + total_reqs(script, log@.len() as int),
            c0 + total_reqs(script, script.len() as int) <= u64::MAX,
            forall|i: int|
                0 <= i < log@.len() ==> demo_conn_outcome(c0, script, i, #[trigger] log@[i]),
        decreases arrivals@.len(),
    {
        let ghost k = log@.len() as int;
        let ghost arr_pre = arrivals@;
        let (conn, reqs) = arrivals.remove(0);
        let ghost gconn = conn;
        let ghost greqs = reqs@;
        assert(script[k] == (gconn, greqs)) by {
            assert(arrivals_view(arr_pre) =~= script.skip(k));
            assert(arrivals_view(arr_pre)[0] == script[k]);
        }
        let ghost pre_f = *factory;
        let out = dispatch(factory, conn);
        let mut app: DemoApp = match out {
            DispatchOutcome::Done(a) => a,
            DispatchOutcome::Abandoned(p) => {
                proof {
                    assert(pre_f.poll_spec(p, *factory));
                    assert(false);
                }
                unreached()
            },
            DispatchOutcome::Failed(e) => {
                proof {
                    let mid = choose|mid: DemoFactory|
                        #[trigger] pre_f.poll_spec(PollReady::Ready, mid) && mid.call_spec(
                            gconn,
                            *factory,
                            Err(e),
                        );
                    assert(false);
                }
                unreached()
            },
        };
        let ghost app0 = app;
        proof {
            let mid = choose|mid: DemoFactory|
                #[trigger] pre_f.poll_spec(PollReady::Ready, mid) && mid.call_spec(
                    gconn,
                    *factory,
                    Ok(app0),
                );
            assert(mid == pre_f);
            assert(app0.counter == pre_f.counter);
            assert(app0.counter_header@ == conn_header_key(gconn.host_and_port@));
            assert(total_reqs(script, k + 1) == total_reqs(script, k) + greqs.len());
            lemma_total_reqs_mono(script, k + 1, script.len() as int);
            assert(app0.counter + greqs.len() <= u64::MAX);
        }
        let outs = serve_requests(&mut app, reqs);
        let ghost gouts = outs@;
        let ghost gvec = outs;
        proof {
            lemma_demo_chain(app0, greqs, app, gouts);
        }
        factory.reclaim(app);
        let entry = ConnOutcome::Served(outs);
        proof {
            assert(entry matches ConnOutcome::Served(o) && o == gvec);
            assert forall|j: int| 0 <= j < gouts.len() implies demo_outcome(
                (c0 + total_reqs(script, k) + j) as u64,
                conn_header_key(script[k].0.host_and_port@),
                script[k].1[j],
                #[trigger] gouts[j],
            ) by {
                assert(demo_outcome(
                    (app0.counter + j) as u64,
                    app0.counter_header@,
                    greqs[j],
                    gouts[j],
                ));
            }
            assert(demo_conn_outcome(c0, script, k, entry));
            assert(arrivals@ =~= arr_pre.skip(1));
            assert forall|i: int| 0 <= i < arrivals@.len() implies arrivals_view(arrivals@)[i]
                == script.skip(k + 1)[i] by {
                assert(arrivals_view(arrivals@)[i] == arrivals_view(arr_pre)[i + 1]);
            }
            assert(arrivals_view(arrivals@) =~= script.skip(k + 1));
        }
        log.push(entry);
    }
    proof {
        assert(arrivals_view(arrivals@).len() == 0);
    }
    log
}

} // verus!
