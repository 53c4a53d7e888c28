use crate::middleware::{
    answers_as_function, ignores_store, is_function, law_runs_agree_whatever_the_store,
    lemma_rest_ran, lemma_step_taken, outcome, Flow, Middleware, Next,
};
use crate::wire::{router_gives, stored_count};
use spin_sdk::http::{Request, Response, Router};
use std::sync::Arc;
use task_local_extensions::Extensions;
use vstd::prelude::*;

verus! {

/// Attaches interceptors to a router and runs the chain they make. The
/// interceptor attached first is invoked first: it sees the request as it
/// came and the response as it leaves. Each interceptor wraps those attached
/// after it.
pub struct MiddlewareBuilder<M: Middleware> {
    router: Router,
    middleware_stack: Vec<Arc<M>>,
}

impl<M: Middleware> MiddlewareBuilder<M> {
    /// The interceptors attached so far, in the order of their attachment.
    pub closed spec fn attached(&self) -> Seq<Arc<M>> {
        self.middleware_stack@
    }

    /// The router that ends the chain.
    pub closed spec fn router(&self) -> Router {
        self.router
    }

    /// The interceptors in the order in which a run invokes them, which is
    /// the order of their attachment.
    pub open spec fn order(&self) -> Seq<Arc<M>> {
        self.attached()
    }

    /// A builder with `router` behind it and no interceptor attached.
    pub fn new(router: Router) -> (builder: Self)
        ensures
            builder.attached() == Seq::<Arc<M>>::empty(),
            builder.router() == router,
    {
        MiddlewareBuilder { router, middleware_stack: Vec::new() }
    }

    /// Attaches `middleware` behind the interceptors attached so far.
    pub fn with(self, middleware: M) -> (builder: Self)
        ensures
            builder.order().len() == self.order().len() + 1,
            builder.order().drop_last() == self.order(),
            *builder.order().last() == middleware,
            builder.router() == self.router(),
    {
        self.with_arc(Arc::new(middleware))
    }

    /// Attaches the shared `middleware` behind the interceptors attached so
    /// far.
    pub fn with_arc(self, middleware: Arc<M>) -> (builder: Self)
        ensures
            builder.order() == self.order().push(middleware),
            builder.router() == self.router(),
    {
        let ghost before = self.middleware_stack@;
        let mut builder = self;
        builder.middleware_stack.push(middleware);
        assert(before.push(middleware).drop_last() =~= before);
        builder
    }

    /// Runs the chain on `req`: the interceptors in the order of their
    /// attachment, then the router. The run starts with a context store of
    /// its own that holds nothing.
    pub fn run(self, req: Request) -> (res: Response)
        ensures
            exists|fresh: Extensions, left: Extensions|
                stored_count(fresh) == 0 && #[trigger] outcome(
                    self.order(),
                    self.router(),
                    req,
                    fresh,
                    res,
                    left,
                ),
    {
        let MiddlewareBuilder { router, middleware_stack } = self;
        let next = Next::new(&router, middleware_stack.as_slice());
        let mut extensions = Extensions::new();
        let ghost fresh = extensions;
        let res = next.run(req, &mut extensions);
        assert(stored_count(fresh) == 0 && outcome(
            self.order(),
            self.router(),
            req,
            fresh,
            res,
            extensions,
        ));
        res
    }
}

/// Of two interceptors attached to a builder, the one attached earlier wraps
/// the one attached later. The earlier one sees the request as it came; the
/// later one sees what the earlier one handed on; the router sees what the
/// later one handed on. The response passes the later one first and the
/// earlier one last: the response of the run is what the earlier one makes.
/// An interceptor that answers ends the way in: what lies behind it is not
/// invoked, and what lies before it rewrites its answer.
pub proof fn law_earlier_wraps_later<M: Middleware>(
    builder: MiddlewareBuilder<M>,
    earlier: Arc<M>,
    later: Arc<M>,
    req: Request,
    before: Extensions,
    res: Response,
    after: Extensions,
)
    requires
        builder.attached() == seq![earlier, later],
        outcome(builder.order(), builder.router(), req, before, res, after),
    ensures
        exists|flow: Flow, mid: Extensions| #[trigger]
            earlier.decides(req, before, flow, mid) && match flow {
                Flow::Respond(answer) => res == answer && after == mid,
                Flow::Forward(second) => exists|inner: Response, back: Extensions| #[trigger]
                    earlier.rewrites(inner, back, res, after) && exists|
                        deeper: Flow,
                        arrived: Extensions,
                    | #[trigger]
                        later.decides(second, mid, deeper, arrived) && match deeper {
                            Flow::Respond(answer) => inner == answer && back == arrived,
                            Flow::Forward(third) => exists|routed: Response| #[trigger]
                                router_gives(builder.router(), third, routed) && later.rewrites(
                                    routed,
                                    arrived,
                                    inner,
                                    back,
                                ),
                        },
            },
{
    let router = builder.router();
    let ms = builder.order();
    let rest = ms.drop_first();
    assert(ms[0] == earlier);
    assert(rest =~= seq![later]);
    let (flow, mid) = lemma_step_taken(earlier, rest, router, req, before, res, after);
    match flow {
        Flow::Respond(answer) => {},
        Flow::Forward(second) => {
            let (inner, back) = lemma_rest_ran(earlier, rest, router, second, mid, res, after);
            let none = rest.drop_first();
            assert(rest[0] == later);
            assert(none.len() == 0);
            let (deeper, arrived) = lemma_step_taken(
                later,
                none,
                router,
                second,
                mid,
                inner,
                back,
            );
            match deeper {
                Flow::Respond(answer) => {},
                Flow::Forward(third) => {
                    let (routed, turn) = lemma_rest_ran(
                        later,
                        none,
                        router,
                        third,
                        arrived,
                        inner,
                        back,
                    );
                    assert(router_gives(router, third, routed) && later.rewrites(
                        routed,
                        arrived,
                        inner,
                        back,
                    ));
                },
            }
            assert(later.decides(second, mid, deeper, arrived) && match deeper {
                Flow::Respond(answer) => inner == answer && back == arrived,
                Flow::Forward(third) => exists|routed: Response| #[trigger]
                    router_gives(router, third, routed) && later.rewrites(
                        routed,
                        arrived,
                        inner,
                        back,
                    ),
            });
            assert(earlier.rewrites(inner, back, res, after));
        },
    }
}

/// Two chains built apart in the same way run alike, and a run keeps no
/// state. Where two builders have the same interceptors attached in the
/// same order in front of the same router, every interceptor decides and
/// rewrites as a function of what it is given and ignores the context
/// store, and the router answers as a function of the request, a run of
/// each on the same request gives the same response.
pub proof fn law_chains_built_alike_run_alike<M: Middleware>(
    first_builder: MiddlewareBuilder<M>,
    second_builder: MiddlewareBuilder<M>,
    req: Request,
    first: Response,
    second: Response,
)
    requires
        first_builder.attached() == second_builder.attached(),
        first_builder.router() == second_builder.router(),
        forall|i: int|
            0 <= i < first_builder.attached().len() ==> is_function(
                #[trigger] first_builder.attached()[i],
            ) && ignores_store(first_builder.attached()[i]),
        answers_as_function(first_builder.router()),
        exists|fresh: Extensions, left: Extensions|
            stored_count(fresh) == 0 && #[trigger] outcome(
                first_builder.order(),
                first_builder.router(),
                req,
                fresh,
                first,
                left,
            ),
        exists|fresh: Extensions, left: Extensions|
            stored_count(fresh) == 0 && #[trigger] outcome(
                second_builder.order(),
                second_builder.router(),
                req,
                fresh,
                second,
                left,
            ),
    ensures
        first == second,
{
    let order = first_builder.order();
    let router = first_builder.router();
    let (fresh, left) = choose|fresh: Extensions, left: Extensions|
        stored_count(fresh) == 0 && #[trigger] outcome(order, router, req, fresh, first, left);
    let (fresh_other, left_other) = choose|fresh: Extensions, left: Extensions|
        stored_count(fresh) == 0 && #[trigger] outcome(order, router, req, fresh, second, left);
    law_runs_agree_whatever_the_store(
        order,
        router,
        req,
        fresh,
        first,
        left,
        fresh_other,
        second,
        left_other,
    );
}

} // verus!
