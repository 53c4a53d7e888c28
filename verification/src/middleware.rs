use crate::wire::{dispatch, router_gives};
use spin_sdk::http::{Request, Response, Router};
use std::sync::Arc;
use task_local_extensions::Extensions;
use vstd::prelude::*;

verus! {

/// What an interceptor decides on a request.
pub enum Flow {
    /// Hand this request on to the rest of the chain.
    Forward(Request),
    /// End the run here with this response.
    Respond(Response),
}

/// An interceptor. It sees each request on its way in and decides whether
/// to hand it on, changed or not, or to answer it; where it hands the
/// request on, it sees the response on its way out and may change it. The
/// context store is shared by all interceptors of one run.
pub trait Middleware: 'static + Send + Sync {
    /// What the interceptor may decide on `req`, and how it may leave the
    /// context store. An interceptor that states nothing may decide
    /// anything.
    open spec fn decides(
        &self,
        req: Request,
        before: Extensions,
        flow: Flow,
        after: Extensions,
    ) -> bool {
        true
    }

    /// What the interceptor may make of the response `res` of the rest of
    /// the chain, and how it may leave the context store. An interceptor
    /// that states nothing may make anything of it.
    open spec fn rewrites(
        &self,
        res: Response,
        before: Extensions,
        out: Response,
        after: Extensions,
    ) -> bool {
        true
    }

    /// Invoked with a request on its way in.
    fn on_request(&self, req: Request, extensions: &mut Extensions) -> (flow: Flow)
        ensures
            self.decides(req, *old(extensions), flow, *final(extensions)),
    ;

    /// Invoked with the response to a request that was handed on.
    fn on_response(&self, res: Response, extensions: &mut Extensions) -> (out: Response)
        ensures
            self.rewrites(res, *old(extensions), out, *final(extensions)),
    ;
}

/// The request `req` passes every interceptor of `ms`, first to last, each
/// handing on what it got from the one before, and arrives as `out`.
pub open spec fn descends<M: Middleware>(
    ms: Seq<Arc<M>>,
    req: Request,
    before: Extensions,
    out: Request,
    after: Extensions,
) -> bool
    decreases ms.len(),
{
    if ms.len() == 0 {
        out == req && after == before
    } else {
        exists|next: Request, mid: Extensions| #[trigger]
            ms[0].decides(req, before, Flow::Forward(next), mid) && descends(
                ms.drop_first(),
                next,
                mid,
                out,
                after,
            )
    }
}

/// The response `res` passes every interceptor of `ms`, last to first, each
/// rewriting what it got from the one after, and leaves as `out`.
pub open spec fn ascends<M: Middleware>(
    ms: Seq<Arc<M>>,
    res: Response,
    before: Extensions,
    out: Response,
    after: Extensions,
) -> bool
    decreases ms.len(),
{
    if ms.len() == 0 {
        out == res && after == before
    } else {
        exists|inner: Response, mid: Extensions| #[trigger]
            ms[0].rewrites(inner, mid, out, after) && ascends(
                ms.drop_first(),
                res,
                before,
                inner,
                mid,
            )
    }
}

/// What a run of the chain `ms` in front of `router` may give on `req`.
/// With no interceptor, it is what the router gives to the request. Else
/// the head of the chain takes its step, with the others as the rest.
pub open spec fn outcome<M: Middleware>(
    ms: Seq<Arc<M>>,
    router: Router,
    req: Request,
    before: Extensions,
    res: Response,
    after: Extensions,
) -> bool
    decreases ms.len(), 0int,
{
    if ms.len() == 0 {
        router_gives(router, req, res) && after == before
    } else {
        head_step(ms[0], ms.drop_first(), router, req, before, res, after)
    }
}

/// The step of the interceptor `head` with the chain `rest` behind it. The
/// head decides on the request as it came, and what it decides has `res`
/// follow.
pub open spec fn head_step<M: Middleware>(
    head: Arc<M>,
    rest: Seq<Arc<M>>,
    router: Router,
    req: Request,
    before: Extensions,
    res: Response,
    after: Extensions,
) -> bool
    decreases rest.len(), 3int,
{
    exists|flow: Flow, mid: Extensions| #[trigger]
        head.decides(req, before, flow, mid) && follows(head, rest, router, flow, mid, res, after)
}

/// What follows from the decision `flow` of `head`. Where the head answers,
/// its answer is the response and nothing behind it is invoked. Where it
/// hands a request on, the rest runs on that request and the head rewrites
/// what the rest gives.
pub open spec fn follows<M: Middleware>(
    head: Arc<M>,
    rest: Seq<Arc<M>>,
    router: Router,
    flow: Flow,
    mid: Extensions,
    res: Response,
    after: Extensions,
) -> bool
    decreases rest.len(), 2int,
{
    match flow {
        Flow::Respond(answer) => res == answer && after == mid,
        Flow::Forward(next) => rewritten(head, rest, router, next, mid, res, after),
    }
}

/// The chain `rest` runs on `next`, and `head` rewrites what it gives into
/// `res`.
pub open spec fn rewritten<M: Middleware>(
    head: Arc<M>,
    rest: Seq<Arc<M>>,
    router: Router,
    next: Request,
    mid: Extensions,
    res: Response,
    after: Extensions,
) -> bool
    decreases rest.len(), 1int,
{
    exists|inner: Response, back: Extensions| #[trigger]
        head.rewrites(inner, back, res, after) && outcome(rest, router, next, mid, inner, back)
}

/// The decision that a step of `head` rests on.
pub proof fn lemma_step_taken<M: Middleware>(
    head: Arc<M>,
    rest: Seq<Arc<M>>,
    router: Router,
    req: Request,
    before: Extensions,
    res: Response,
    after: Extensions,
) -> (taken: (Flow, Extensions))
    requires
        head_step(head, rest, router, req, before, res, after),
    ensures
        head.decides(req, before, taken.0, taken.1),
        follows(head, rest, router, taken.0, taken.1, res, after),
{
    choose|flow: Flow, mid: Extensions| #[trigger]
        head.decides(req, before, flow, mid) && follows(head, rest, router, flow, mid, res, after)
}

/// What the rest gave, and `head` rewrote, where `head` handed `next` on.
pub proof fn lemma_rest_ran<M: Middleware>(
    head: Arc<M>,
    rest: Seq<Arc<M>>,
    router: Router,
    next: Request,
    mid: Extensions,
    res: Response,
    after: Extensions,
) -> (got: (Response, Extensions))
    requires
        rewritten(head, rest, router, next, mid, res, after),
    ensures
        head.rewrites(got.0, got.1, res, after),
        outcome(rest, router, next, mid, got.0, got.1),
{
    choose|inner: Response, back: Extensions| #[trigger]
        head.rewrites(inner, back, res, after) && outcome(rest, router, next, mid, inner, back)
}

/// A request that has passed the interceptors of `ms` passes one more.
pub proof fn lemma_descends_one_more<M: Middleware>(
    ms: Seq<Arc<M>>,
    m: Arc<M>,
    req: Request,
    before: Extensions,
    last: Request,
    mid: Extensions,
    out: Request,
    after: Extensions,
)
    requires
        descends(ms, req, before, last, mid),
        m.decides(last, mid, Flow::Forward(out), after),
    ensures
        descends(ms.push(m), req, before, out, after),
    decreases ms.len(),
{
    let longer = ms.push(m);
    if ms.len() == 0 {
        assert(longer[0] == m);
        assert(longer.drop_first() =~= ms);
        assert(longer[0].decides(req, before, Flow::Forward(out), after) && descends(
            longer.drop_first(),
            out,
            after,
            out,
            after,
        ));
    } else {
        let (next, step) = choose|next: Request, step: Extensions| #[trigger]
            ms[0].decides(req, before, Flow::Forward(next), step) && descends(
                ms.drop_first(),
                next,
                step,
                last,
                mid,
            );
        lemma_descends_one_more(ms.drop_first(), m, next, step, last, mid, out, after);
        assert(longer.drop_first() =~= ms.drop_first().push(m));
        assert(longer[0] == ms[0]);
        assert(longer[0].decides(req, before, Flow::Forward(next), step) && descends(
            longer.drop_first(),
            next,
            step,
            out,
            after,
        ));
    }
}

/// The two legs of a run make its outcome. Where the first `depth`
/// interceptors hand the request on, what follows answers with `answer` (the
/// router where all have handed on, else the interceptor at `depth`), and
/// the same interceptors rewrite that answer on its way out, the result is
/// an outcome of the whole chain.
pub proof fn lemma_legs_make_outcome<M: Middleware>(
    ms: Seq<Arc<M>>,
    depth: int,
    router: Router,
    req: Request,
    before: Extensions,
    last: Request,
    arrived: Extensions,
    answer: Response,
    answered: Extensions,
    res: Response,
    after: Extensions,
)
    requires
        0 <= depth <= ms.len(),
        descends(ms.take(depth), req, before, last, arrived),
        depth == ms.len() ==> router_gives(router, last, answer) && answered == arrived,
        depth < ms.len() ==> ms[depth].decides(last, arrived, Flow::Respond(answer), answered),
        ascends(ms.take(depth), answer, answered, res, after),
    ensures
        outcome(ms, router, req, before, res, after),
    decreases depth,
{
    let passed = ms.take(depth);
    if depth == 0 {
        if ms.len() > 0 {
            assert(ms[0].decides(req, before, Flow::Respond(answer), answered) && follows(
                ms[0],
                ms.drop_first(),
                router,
                Flow::Respond(answer),
                answered,
                res,
                after,
            ));
        }
    } else {
        let (next, mid) = choose|next: Request, mid: Extensions| #[trigger]
            passed[0].decides(req, before, Flow::Forward(next), mid) && descends(
                passed.drop_first(),
                next,
                mid,
                last,
                arrived,
            );
        let (inner, back) = choose|inner: Response, back: Extensions| #[trigger]
            passed[0].rewrites(inner, back, res, after) && ascends(
                passed.drop_first(),
                answer,
                answered,
                inner,
                back,
            );
        let rest = ms.drop_first();
        assert(passed.drop_first() =~= rest.take(depth - 1));
        lemma_legs_make_outcome(
            rest,
            depth - 1,
            router,
            next,
            mid,
            last,
            arrived,
            answer,
            answered,
            inner,
            back,
        );
        assert(ms[0].rewrites(inner, back, res, after) && outcome(
            rest,
            router,
            next,
            mid,
            inner,
            back,
        ));
        assert(ms[0].decides(req, before, Flow::Forward(next), mid) && follows(
            ms[0],
            rest,
            router,
            Flow::Forward(next),
            mid,
            res,
            after,
        ));
    }
}

/// The interceptor at the head of a chain wraps the rest of it: a run of
/// the chain is a step of the head with the others behind it. The head is
/// the first to see the request, as it came. Where it answers, nothing else
/// is invoked. Where it hands a request on, the rest of the chain runs on
/// what it handed on, and the head is the last to see the response: the
/// response of the run is what the head makes of the outcome of the rest.
pub proof fn law_head_wraps_rest<M: Middleware>(
    head: Arc<M>,
    rest: Seq<Arc<M>>,
    router: Router,
    req: Request,
    before: Extensions,
    res: Response,
    after: Extensions,
)
    ensures
        outcome(seq![head] + rest, router, req, before, res, after) <==> head_step(
            head,
            rest,
            router,
            req,
            before,
            res,
            after,
        ),
{
    let ms = seq![head] + rest;
    assert(ms[0] == head);
    assert(ms.drop_first() =~= rest);
}

/// The interceptor decides and rewrites as a function of what it is given:
/// the same request and context store give the same decision, the same
/// response and context store the same rewritten response.
pub open spec fn is_function<M: Middleware>(m: Arc<M>) -> bool {
    &&& forall|
        req: Request,
        before: Extensions,
        flow: Flow,
        after: Extensions,
        other: Flow,
        after_other: Extensions,
    | #[trigger]
        m.decides(req, before, flow, after) && #[trigger] m.decides(
            req,
            before,
            other,
            after_other,
        ) ==> flow == other && after == after_other
    &&& forall|
        res: Response,
        before: Extensions,
        out: Response,
        after: Extensions,
        other: Response,
        after_other: Extensions,
    | #[trigger]
        m.rewrites(res, before, out, after) && #[trigger] m.rewrites(
            res,
            before,
            other,
            after_other,
        ) ==> out == other && after == after_other
}

/// The interceptor neither reads the context store nor writes to it: it
/// leaves the store as it found it, and what it may do with one store it
/// may do with any other.
pub open spec fn ignores_store<M: Middleware>(m: Arc<M>) -> bool {
    &&& forall|req: Request, before: Extensions, flow: Flow, after: Extensions, other: Extensions|
        #[trigger] m.decides(req, before, flow, after) ==> after == before && #[trigger] m.decides(
            req,
            other,
            flow,
            other,
        )
    &&& forall|
        res: Response,
        before: Extensions,
        out: Response,
        after: Extensions,
        other: Extensions,
    | #[trigger]
        m.rewrites(res, before, out, after) ==> after == before && #[trigger] m.rewrites(
            res,
            other,
            out,
            other,
        )
}

/// The router answers as a function of the request: it gives one response
/// to one request.
pub open spec fn answers_as_function(router: Router) -> bool {
    forall|req: Request, res: Response, other: Response| #[trigger]
        router_gives(router, req, res) && #[trigger] router_gives(router, req, other) ==> res
            == other
}

/// A run adds nothing of its own to what the interceptors and the router
/// do. Where every interceptor of a chain decides and rewrites as a
/// function of what it is given, and the router answers as a function of
/// the request, two runs on the same request with the same context store to
/// start from give the same response and leave the same context store.
pub proof fn law_runs_agree<M: Middleware>(
    ms: Seq<Arc<M>>,
    router: Router,
    req: Request,
    before: Extensions,
    first: Response,
    after_first: Extensions,
    second: Response,
    after_second: Extensions,
)
    requires
        forall|i: int| 0 <= i < ms.len() ==> is_function(#[trigger] ms[i]),
        answers_as_function(router),
        outcome(ms, router, req, before, first, after_first),
        outcome(ms, router, req, before, second, after_second),
    ensures
        first == second,
        after_first == after_second,
    decreases ms.len(),
{
    if ms.len() > 0 {
        let head = ms[0];
        let rest = ms.drop_first();
        assert(is_function(head));
        let (flow, mid) = lemma_step_taken(head, rest, router, req, before, first, after_first);
        let (other, mid_other) = lemma_step_taken(
            head,
            rest,
            router,
            req,
            before,
            second,
            after_second,
        );
        assert(flow == other && mid == mid_other);
        match flow {
            Flow::Respond(answer) => {},
            Flow::Forward(next) => {
                let (inner, back) = lemma_rest_ran(
                    head,
                    rest,
                    router,
                    next,
                    mid,
                    first,
                    after_first,
                );
                let (inner_other, back_other) = lemma_rest_ran(
                    head,
                    rest,
                    router,
                    next,
                    mid,
                    second,
                    after_second,
                );
                assert forall|i: int| 0 <= i < rest.len() implies is_function(
                    #[trigger] rest[i],
                ) by {
                    assert(rest[i] == ms[i + 1]);
                }
                law_runs_agree(rest, router, next, mid, inner, back, inner_other, back_other);
            },
        }
    }
}

/// Two runs agree whatever context stores they start from, where no
/// interceptor looks at the store. Where every interceptor of a chain
/// decides and rewrites as a function of what it is given and ignores the
/// context store, and the router answers as a function of the request, two
/// runs on the same request give the same response, and each leaves its
/// context store as it found it.
pub proof fn law_runs_agree_whatever_the_store<M: Middleware>(
    ms: Seq<Arc<M>>,
    router: Router,
    req: Request,
    before_first: Extensions,
    first: Response,
    after_first: Extensions,
    before_second: Extensions,
    second: Response,
    after_second: Extensions,
)
    requires
        forall|i: int| 0 <= i < ms.len() ==> is_function(#[trigger] ms[i]) && ignores_store(ms[i]),
        answers_as_function(router),
        outcome(ms, router, req, before_first, first, after_first),
        outcome(ms, router, req, before_second, second, after_second),
    ensures
        first == second,
        after_first == before_first,
        after_second == before_second,
    decreases ms.len(),
{
    if ms.len() > 0 {
        let head = ms[0];
        let rest = ms.drop_first();
        assert(is_function(head) && ignores_store(head));
        let (flow, mid) = lemma_step_taken(
            head,
            rest,
            router,
            req,
            before_first,
            first,
            after_first,
        );
        let (other, mid_other) = lemma_step_taken(
            head,
            rest,
            router,
            req,
            before_second,
            second,
            after_second,
        );
        assert(head.decides(req, before_first, other, before_first));
        assert(flow == other);
        match flow {
            Flow::Respond(answer) => {},
            Flow::Forward(next) => {
                let (inner, back) = lemma_rest_ran(
                    head,
                    rest,
                    router,
                    next,
                    mid,
                    first,
                    after_first,
                );
                let (inner_other, back_other) = lemma_rest_ran(
                    head,
                    rest,
                    router,
                    next,
                    mid_other,
                    second,
                    after_second,
                );
                assert forall|i: int| 0 <= i < rest.len() implies is_function(
                    #[trigger] rest[i],
                ) && ignores_store(rest[i]) by {
                    assert(rest[i] == ms[i + 1]);
                }
                law_runs_agree_whatever_the_store(
                    rest,
                    router,
                    next,
                    mid,
                    inner,
                    back,
                    mid_other,
                    inner_other,
                    back_other,
                );
                assert(head.rewrites(inner_other, back, second, back));
            },
        }
    }
}

/// The way in of `req` ends at position `depth` of `ms`: the interceptors
/// before it hand the request on, each to the next, and the one at `depth`
/// answers what reaches it with `answer`.
pub open spec fn answered_at<M: Middleware>(
    ms: Seq<Arc<M>>,
    depth: int,
    req: Request,
    before: Extensions,
    answer: Response,
    after: Extensions,
) -> bool {
    &&& 0 <= depth < ms.len()
    &&& exists|last: Request, arrived: Extensions| #[trigger]
        descends(ms.take(depth), req, before, last, arrived) && ms[depth].decides(
            last,
            arrived,
            Flow::Respond(answer),
            after,
        )
}

/// How the way in of a request ended.
pub enum Arrival {
    /// Every interceptor handed the request on: this one is for the router.
    Router(Request),
    /// The interceptor at this position of the chain answered.
    Answered(usize, Response),
}

/// The rest of a chain: the interceptors that are still to be invoked, in
/// the order of their invocation, and the router behind them.
pub struct Next<'a, M: Middleware> {
    router: &'a Router,
    middlewares: &'a [Arc<M>],
}

impl<'a, M: Middleware> Next<'a, M> {
    /// The interceptors still to be invoked, in the order of invocation.
    pub closed spec fn chain(&self) -> Seq<Arc<M>> {
        self.middlewares@
    }

    /// The router behind the interceptors.
    pub closed spec fn router(&self) -> Router {
        *self.router
    }

    /// The continuation that invokes `middlewares`, first to last, and then
    /// `router`.
    pub fn new(router: &'a Router, middlewares: &'a [Arc<M>]) -> (next: Self)
        ensures
            next.chain() == middlewares@,
            next.router() == *router,
    {
        Next { router, middlewares }
    }

    /// The way in: invokes the interceptors in order, each on what the one
    /// before handed on, until one answers or none is left.
    pub fn descend(&self, req: Request, extensions: &mut Extensions) -> (arrival: Arrival)
        ensures
            match arrival {
                Arrival::Router(out) => descends(
                    self.chain(),
                    req,
                    *old(extensions),
                    out,
                    *final(extensions),
                ),
                Arrival::Answered(depth, answer) => answered_at(
                    self.chain(),
                    depth as int,
                    req,
                    *old(extensions),
                    answer,
                    *final(extensions),
                ),
            },
    {
        let ghost ms = self.middlewares@;
        let ghost first = req;
        let mut current = req;
        let mut i: usize = 0;
        while i < self.middlewares.len()
            invariant
                ms == self.middlewares@,
                first == req,
                i <= ms.len(),
                descends(ms.take(i as int), first, *old(extensions), current, *extensions),
            decreases ms.len() - i,
        {
            let ghost last = current;
            let ghost arrived = *extensions;
            match self.middlewares[i].on_request(current, extensions) {
                Flow::Forward(next) => {
                    proof {
                        lemma_descends_one_more(
                            ms.take(i as int),
                            ms[i as int],
                            first,
                            *old(extensions),
                            last,
                            arrived,
                            next,
                            *extensions,
                        );
                        assert(ms.take(i as int).push(ms[i as int]) =~= ms.take(i + 1));
                    }
                    current = next;
                },
                Flow::Respond(answer) => {
                    assert(descends(ms.take(i as int), first, *old(extensions), last, arrived)
                        && ms[i as int].decides(
                        last,
                        arrived,
                        Flow::Respond(answer),
                        *extensions,
                    ));
                    assert(answered_at(ms, i as int, first, *old(extensions), answer, *extensions));
                    return Arrival::Answered(i, answer);
                },
            }
            i += 1;
        }
        assert(ms.take(i as int) =~= ms);
        Arrival::Router(current)
    }

    /// The way out: the first `depth` interceptors rewrite `res`, the last
    /// of them first.
    pub fn ascend(&self, depth: usize, res: Response, extensions: &mut Extensions) -> (out:
        Response)
        requires
            depth <= self.chain().len(),
        ensures
            ascends(
                self.chain().take(depth as int),
                res,
                *old(extensions),
                out,
                *final(extensions),
            ),
    {
        let ghost ms = self.middlewares@;
        let ghost answer = res;
        let mut current = res;
        let mut j: usize = depth;
        while j > 0
            invariant
                ms == self.middlewares@,
                j <= depth <= ms.len(),
                ascends(
                    ms.subrange(j as int, depth as int),
                    answer,
                    *old(extensions),
                    current,
                    *extensions,
                ),
            decreases j,
        {
            let ghost inner = current;
            let ghost mid = *extensions;
            j -= 1;
            current = self.middlewares[j].on_response(current, extensions);
            proof {
                let longer = ms.subrange(j as int, depth as int);
                assert(longer.drop_first() =~= ms.subrange(j + 1, depth as int));
                assert(longer[0].rewrites(inner, mid, current, *extensions) && ascends(
                    longer.drop_first(),
                    answer,
                    *old(extensions),
                    inner,
                    mid,
                ));
            }
        }
        assert(ms.subrange(0, depth as int) =~= ms.take(depth as int));
        current
    }

    /// Runs the rest of the chain on `req`: the way in, the router where
    /// the request reaches it, and the way out through the interceptors
    /// that handed the request on.
    pub fn run(self, req: Request, extensions: &mut Extensions) -> (res: Response)
        ensures
            outcome(
                self.chain(),
                self.router(),
                req,
                *old(extensions),
                res,
                *final(extensions),
            ),
    {
        let ghost ms = self.middlewares@;
        match self.descend(req, extensions) {
            Arrival::Router(last) => {
                let ghost arrived = *extensions;
                let routed = dispatch(self.router, last);
                let ghost answer = routed;
                let res = self.ascend(self.middlewares.len(), routed, extensions);
                proof {
                    assert(ms.take(ms.len() as int) =~= ms);
                    lemma_legs_make_outcome(
                        ms,
                        ms.len() as int,
                        *self.router,
                        req,
                        *old(extensions),
                        last,
                        arrived,
                        answer,
                        arrived,
                        res,
                        *extensions,
                    );
                }
                res
            },
            Arrival::Answered(depth, answer) => {
                let ghost answered = *extensions;
                let ghost (last, arrived) = choose|last: Request, arrived: Extensions|
                    #[trigger] descends(
                        ms.take(depth as int),
                        req,
                        *old(extensions),
                        last,
                        arrived,
                    ) && ms[depth as int].decides(last, arrived, Flow::Respond(answer), answered);
                let res = self.ascend(depth, answer, extensions);
                proof {
                    lemma_legs_make_outcome(
                        ms,
                        depth as int,
                        *self.router,
                        req,
                        *old(extensions),
                        last,
                        arrived,
                        answer,
                        answered,
                        res,
                        *extensions,
                    );
                }
                res
            },
        }
    }
}

} // verus!
