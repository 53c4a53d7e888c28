use crate::builder::MiddlewareBuilder;
use crate::cors::{handle_preflight, law_decorated_states_policy, response_with_cors, Config};
use crate::middleware::{lemma_rest_ran, lemma_step_taken, outcome, Flow, Middleware};
use crate::text::{decimal, flag};
use crate::wire::{
    allow_credentials_key, allow_headers_key, allow_methods_key, allow_origin_key, is_options,
    looked_up, max_age_key, request_is_options, response_body, response_headers,
    response_status, router_gives, stored_count,
};
use spin_sdk::http::{Request, Response, Router};
use std::sync::Arc;
use task_local_extensions::Extensions;
use vstd::prelude::*;

verus! {

/// The interceptor that enforces a CORS policy. It answers every OPTIONS
/// request itself, as a preflight, and decorates the response to every
/// other request.
pub struct CorsMiddleware {
    cors_config: Config,
}

impl CorsMiddleware {
    /// The policy that the interceptor enforces.
    pub closed spec fn config(&self) -> Config {
        self.cors_config
    }

    /// The interceptor that enforces `cors_config`.
    pub fn new(cors_config: Config) -> (middleware: Self)
        ensures
            middleware.config() == cors_config,
    {
        CorsMiddleware { cors_config }
    }
}

impl Middleware for CorsMiddleware {
    /// An OPTIONS request is answered as a preflight and goes no further.
    /// Every other request is handed on as it came. The context store is
    /// left alone.
    open spec fn decides(&self, req: Request, before: Extensions, flow: Flow, after: Extensions) -> bool {
        &&& after == before
        &&& if request_is_options(req) {
            flow matches Flow::Respond(answer) && self.config().answers_preflight(req, answer)
        } else {
            flow == Flow::Forward(req)
        }
    }

    /// Every response is decorated, whatever the request was. The context
    /// store is left alone.
    open spec fn rewrites(
        &self,
        res: Response,
        before: Extensions,
        out: Response,
        after: Extensions,
    ) -> bool {
        &&& after == before
        &&& self.config().decorates(res, out)
    }

    fn on_request(&self, req: Request, extensions: &mut Extensions) -> (flow: Flow) {
        if is_options(&req) {
            Flow::Respond(handle_preflight(&req, &self.cors_config))
        } else {
            Flow::Forward(req)
        }
    }

    fn on_response(&self, res: Response, extensions: &mut Extensions) -> (out: Response) {
        let mut out = res;
        response_with_cors(&mut out, &self.cors_config);
        out
    }
}

/// Status, headers and body of two responses are the same.
pub open spec fn same_response(first: Response, second: Response) -> bool {
    &&& response_status(first) == response_status(second)
    &&& response_headers(first) == response_headers(second)
    &&& response_body(first) == response_body(second)
}

/// A request that is not OPTIONS, run through a chain that a CORS
/// interceptor heads, gets a response that states the policy of that
/// interceptor in all four mandatory CORS headers (and the max-age where
/// one is configured), whatever origin the request states, if any, and
/// whatever the rest of the chain and the router answer.
pub proof fn law_simple_response_is_decorated(
    ms: Seq<Arc<CorsMiddleware>>,
    router: Router,
    req: Request,
    before: Extensions,
    res: Response,
    after: Extensions,
)
    requires
        ms.len() > 0,
        !request_is_options(req),
        outcome(ms, router, req, before, res, after),
    ensures
        looked_up(response_headers(res), allow_origin_key()) == Some(
            Some(ms[0].config().stated_origins()),
        ),
        looked_up(response_headers(res), allow_methods_key()) == Some(
            Some(ms[0].config().allowed_methods@),
        ),
        looked_up(response_headers(res), allow_headers_key()) == Some(
            Some(ms[0].config().allowed_headers@),
        ),
        looked_up(response_headers(res), allow_credentials_key()) == Some(
            Some(flag(ms[0].config().allow_credentials)),
        ),
        ms[0].config().max_age matches Some(age) ==> looked_up(
            response_headers(res),
            max_age_key(),
        ) == Some(Some(decimal(age as nat))),
{
    let rest = ms.drop_first();
    let (flow, mid) = lemma_step_taken(ms[0], rest, router, req, before, res, after);
    let (inner, back) = lemma_rest_ran(ms[0], rest, router, req, mid, res, after);
    law_decorated_states_policy(ms[0].config(), response_headers(inner));
}

/// An OPTIONS request run through a chain that a CORS interceptor heads is
/// answered by that interceptor as a preflight: neither the rest of the
/// chain nor the router has a say in the response, and the context store
/// is left as it was.
pub proof fn law_options_is_answered_at_once(
    ms: Seq<Arc<CorsMiddleware>>,
    router: Router,
    req: Request,
    before: Extensions,
    res: Response,
    after: Extensions,
)
    requires
        ms.len() > 0,
        request_is_options(req),
        outcome(ms, router, req, before, res, after),
    ensures
        ms[0].config().answers_preflight(req, res),
        after == before,
{
    let (flow, mid) = lemma_step_taken(ms[0], ms.drop_first(), router, req, before, res, after);
}

/// Two policies state the same: the same origins, methods and headers,
/// the same credentials flag and the same max-age.
pub open spec fn same_policy(first: Config, second: Config) -> bool {
    &&& first.allowed_origins@ == second.allowed_origins@
    &&& first.allowed_methods@ == second.allowed_methods@
    &&& first.allowed_headers@ == second.allowed_headers@
    &&& first.allow_credentials == second.allow_credentials
    &&& first.max_age == second.max_age
}

/// Two routers answer alike: what they give to one request has the same
/// status, headers and body.
pub open spec fn routers_alike(first: Router, second: Router) -> bool {
    forall|req: Request, res: Response, other: Response| #[trigger]
        router_gives(first, req, res) && #[trigger] router_gives(second, req, other)
            ==> same_response(res, other)
}

/// A run keeps no state, and what it gives depends on nothing but the
/// policies, the request and the router. Two chains of CORS interceptors,
/// built apart with the same policies in the same order, in front of
/// routers that answer alike, give to one request responses with the same
/// status, headers and body, whatever context stores the runs start with.
/// Each run leaves its context store as it found it.
pub proof fn law_cors_runs_agree(
    first_chain: Seq<Arc<CorsMiddleware>>,
    second_chain: Seq<Arc<CorsMiddleware>>,
    first_router: Router,
    second_router: Router,
    req: Request,
    first_before: Extensions,
    first: Response,
    first_after: Extensions,
    second_before: Extensions,
    second: Response,
    second_after: Extensions,
)
    requires
        first_chain.len() == second_chain.len(),
        forall|i: int|
            0 <= i < first_chain.len() ==> same_policy(
                #[trigger] first_chain[i].config(),
                second_chain[i].config(),
            ),
        routers_alike(first_router, second_router),
        outcome(first_chain, first_router, req, first_before, first, first_after),
        outcome(second_chain, second_router, req, second_before, second, second_after),
    ensures
        same_response(first, second),
        first_after == first_before,
        second_after == second_before,
    decreases first_chain.len(),
{
    if first_chain.len() > 0 {
        let a = first_chain[0];
        let b = second_chain[0];
        let first_rest = first_chain.drop_first();
        let second_rest = second_chain.drop_first();
        assert(same_policy(first_chain[0].config(), second_chain[0].config()));
        let (flow, mid) = lemma_step_taken(
            a,
            first_rest,
            first_router,
            req,
            first_before,
            first,
            first_after,
        );
        let (other, mid_other) = lemma_step_taken(
            b,
            second_rest,
            second_router,
            req,
            second_before,
            second,
            second_after,
        );
        if !request_is_options(req) {
            let (inner, back) = lemma_rest_ran(
                a,
                first_rest,
                first_router,
                req,
                mid,
                first,
                first_after,
            );
            let (inner_other, back_other) = lemma_rest_ran(
                b,
                second_rest,
                second_router,
                req,
                mid_other,
                second,
                second_after,
            );
            assert forall|i: int| 0 <= i < first_rest.len() implies same_policy(
                #[trigger] first_rest[i].config(),
                second_rest[i].config(),
            ) by {
                assert(same_policy(first_chain[i + 1].config(), second_chain[i + 1].config()));
            }
            law_cors_runs_agree(
                first_rest,
                second_rest,
                first_router,
                second_router,
                req,
                mid,
                inner,
                back,
                mid_other,
                inner_other,
                back_other,
            );
        }
    }
}

/// Two builders of CORS chains, built apart with the same policies in the
/// same order in front of routers that answer alike, give to one request
/// responses with the same status, headers and body.
pub proof fn law_cors_chains_built_alike_answer_alike(
    first_builder: MiddlewareBuilder<CorsMiddleware>,
    second_builder: MiddlewareBuilder<CorsMiddleware>,
    req: Request,
    first: Response,
    second: Response,
)
    requires
        first_builder.order().len() == second_builder.order().len(),
        forall|i: int|
            0 <= i < first_builder.order().len() ==> same_policy(
                #[trigger] first_builder.order()[i].config(),
                second_builder.order()[i].config(),
            ),
        routers_alike(first_builder.router(), second_builder.router()),
        exists|fresh: Extensions, left: Extensions|
            stored_count(fresh) == 0 && #[trigger] outcome(
                first_builder.order(),
                first_builder.router(),
                req,
                fresh,
                first,
                left,
            ),
        exists|fresh: Extensions, left: Extensions|
            stored_count(fresh) == 0 && #[trigger] outcome(
                second_builder.order(),
                second_builder.router(),
                req,
                fresh,
                second,
                left,
            ),
    ensures
        same_response(first, second),
{
    let (fresh, left) = choose|fresh: Extensions, left: Extensions|
        stored_count(fresh) == 0 && #[trigger] outcome(
            first_builder.order(),
            first_builder.router(),
            req,
            fresh,
            first,
            left,
        );
    let (fresh_other, left_other) = choose|fresh: Extensions, left: Extensions|
        stored_count(fresh) == 0 && #[trigger] outcome(
            second_builder.order(),
            second_builder.router(),
            req,
            fresh,
            second,
            left,
        );
    law_cors_runs_agree(
        first_builder.order(),
        second_builder.order(),
        first_builder.router(),
        second_builder.router(),
        req,
        fresh,
        first,
        left,
        fresh_other,
        second,
        left_other,
    );
}

} // verus!
