//! The intercepted service: an inner service, the options of the
//! interception and the request mutators in the order of their
//! registration.

use crate::event::{clock_now, CallContext};
use crate::options::Options;
use crate::path::{is_addressed, method_of, parse_path_checked, path_fault, service_of, PathError};
use crate::request::{is_marked, path_of, request_header, request_path, with_marker};
use crate::trace::{extract, inbound_trace_id, is_random_id};
use hyper::{Body, Request};
use vstd::prelude::*;

verus! {

/// The marker that a request carries among its extensions once it has been
/// intercepted.
pub const INTERCEPTED: u32 = 32;

/// The mutator can be called on every request.
pub open spec fn accepts_all<R, F: Fn(R) -> R>(mutator: F) -> bool {
    forall|req: R| call_requires(mutator, (req,))
}

/// The mutator answers each request in one way only.
pub open spec fn is_deterministic<R, F: Fn(R) -> R>(mutator: F) -> bool {
    forall|req: R, a: R, b: R|
        call_ensures(mutator, (req,), a) && call_ensures(mutator, (req,), b) ==> a == b
}

/// `output` is a request that the mutators can give for `input` when each
/// is called, in the order of the sequence, on what the one before it
/// gave.
pub open spec fn yields<R, F: Fn(R) -> R>(mutators: Seq<F>, input: R, output: R) -> bool
    decreases mutators.len(),
{
    if mutators.len() == 0 {
        output == input
    } else {
        exists|mid: R|
            yields(mutators.drop_last(), input, mid) && #[trigger] call_ensures(
                mutators.last(),
                (mid,),
                output,
            )
    }
}

/// Running two sequences of mutators one after the other is running their
/// concatenation.
pub proof fn lemma_yields_concat<R, F: Fn(R) -> R>(
    first: Seq<F>,
    second: Seq<F>,
    input: R,
    mid: R,
    output: R,
)
    requires
        yields(first, input, mid),
        yields(second, mid, output),
    ensures
        yields(first + second, input, output),
    decreases second.len(),
{
    let all = first + second;
    if second.len() == 0 {
        assert(all =~= first);
    } else {
        let before = choose|before: R|
            yields(second.drop_last(), mid, before) && #[trigger] call_ensures(
                second.last(),
                (before,),
                output,
            );
        lemma_yields_concat(first, second.drop_last(), input, mid, before);
        assert(all.drop_last() =~= first + second.drop_last());
        assert(all.last() == second.last());
    }
}

/// What a concatenation of mutators gives is what its second part gives for
/// something that its first part gives.
pub proof fn lemma_yields_split<R, F: Fn(R) -> R>(
    first: Seq<F>,
    second: Seq<F>,
    input: R,
    output: R,
)
    requires
        yields(first + second, input, output),
    ensures
        exists|mid: R| #[trigger] yields(first, input, mid) && yields(second, mid, output),
    decreases second.len(),
{
    let all = first + second;
    if second.len() == 0 {
        assert(all =~= first);
        assert(yields(first, input, output) && yields(second, output, output));
    } else {
        let before = choose|before: R|
            yields(all.drop_last(), input, before) && #[trigger] call_ensures(
                all.last(),
                (before,),
                output,
            );
        assert(all.drop_last() =~= first + second.drop_last());
        assert(all.last() == second.last());
        lemma_yields_split(first, second.drop_last(), input, before);
        let mid = choose|mid: R| #[trigger]
            yields(first, input, mid) && yields(second.drop_last(), mid, before);
        assert(yields(second, mid, output));
        assert(yields(first, input, mid) && yields(second, mid, output));
    }
}

/// Three mutators registered in the order `m1`, `m2`, `m3` are applied in
/// that order: `m1` to the request that came in, `m2` to what `m1` gave,
/// and `m3` to what `m2` gave.
pub proof fn lemma_three_in_order<R, F: Fn(R) -> R>(m1: F, m2: F, m3: F, input: R, output: R)
    ensures
        yields(seq![m1, m2, m3], input, output) <==> exists|a: R, b: R|
            call_ensures(m1, (input,), a) && #[trigger] call_ensures(m2, (a,), b) && call_ensures(
                m3,
                (b,),
                output,
            ),
{
    let all = seq![m1, m2, m3];
    let two = seq![m1, m2];
    let one = seq![m1];
    assert(all.drop_last() =~= two);
    assert(two.drop_last() =~= one);
    assert(one.drop_last() =~= Seq::<F>::empty());
    assert(all.last() == m3 && two.last() == m2 && one.last() == m1);
    assert forall|a: R| yields(one, input, a) <==> call_ensures(m1, (input,), a) by {
        if call_ensures(m1, (input,), a) {
            assert(yields(one.drop_last(), input, input));
        }
        if yields(one, input, a) {
            let mid = choose|mid: R|
                yields(one.drop_last(), input, mid) && #[trigger] call_ensures(
                    one.last(),
                    (mid,),
                    a,
                );
            assert(mid == input);
        }
    }
    assert forall|b: R|
        yields(two, input, b) <==> exists|a: R|
            call_ensures(m1, (input,), a) && #[trigger] call_ensures(m2, (a,), b) by {
        if yields(two, input, b) {
            let a = choose|a: R| yields(one, input, a) && #[trigger] call_ensures(m2, (a,), b);
            assert(call_ensures(m1, (input,), a) && call_ensures(m2, (a,), b));
        }
        if exists|a: R| call_ensures(m1, (input,), a) && #[trigger] call_ensures(m2, (a,), b) {
            let a = choose|a: R|
                call_ensures(m1, (input,), a) && #[trigger] call_ensures(m2, (a,), b);
            assert(yields(one, input, a) && call_ensures(two.last(), (a,), b));
        }
    }
    if yields(all, input, output) {
        let b = choose|b: R| yields(two, input, b) && #[trigger] call_ensures(m3, (b,), output);
        let a = choose|a: R| call_ensures(m1, (input,), a) && #[trigger] call_ensures(m2, (a,), b);
        assert(call_ensures(m1, (input,), a) && call_ensures(m2, (a,), b) && call_ensures(
            m3,
            (b,),
            output,
        ));
    }
    if exists|a: R, b: R|
        call_ensures(m1, (input,), a) && #[trigger] call_ensures(m2, (a,), b) && call_ensures(
            m3,
            (b,),
            output,
        ) {
        let (a, b) = choose|a: R, b: R|
            call_ensures(m1, (input,), a) && #[trigger] call_ensures(m2, (a,), b) && call_ensures(
                m3,
                (b,),
                output,
            );
        assert(call_ensures(m1, (input,), a) && call_ensures(m2, (a,), b));
        assert(yields(two, input, b) && call_ensures(all.last(), (b,), output));
    }
}

/// Mutators that each answer a request in one way only give, in a fixed
/// order, one request only for the request that came in.
pub proof fn lemma_yields_deterministic<R, F: Fn(R) -> R>(
    mutators: Seq<F>,
    input: R,
    a: R,
    b: R,
)
    requires
        forall|i: int| 0 <= i < mutators.len() ==> is_deterministic(#[trigger] mutators[i]),
        yields(mutators, input, a),
        yields(mutators, input, b),
    ensures
        a == b,
    decreases mutators.len(),
{
    if mutators.len() > 0 {
        let head = mutators.drop_last();
        let before_a = choose|mid: R|
            yields(head, input, mid) && #[trigger] call_ensures(mutators.last(), (mid,), a);
        let before_b = choose|mid: R|
            yields(head, input, mid) && #[trigger] call_ensures(mutators.last(), (mid,), b);
        assert forall|i: int| 0 <= i < head.len() implies is_deterministic(#[trigger] head[i]) by {
            assert(head[i] == mutators[i]);
        }
        lemma_yields_deterministic(head, input, before_a, before_b);
        assert(is_deterministic(mutators[mutators.len() - 1]));
    }
}

/// A service behind an interception: each request passes the registered
/// mutators, in the order of their registration, before the inner service
/// gets it.
#[derive(Debug, Clone)]
pub struct InterceptedService<S, F> {
    inner: S,
    options: Options,
    funcs: Vec<F>,
}

/// What an intercepted service is made of.
pub struct ServiceView<S, F> {
    /// The service that gets the requests.
    pub inner: S,
    /// The options of the interception.
    pub options: Options,
    /// The mutators, in the order of their registration.
    pub mutators: Seq<F>,
}

impl<S, F> View for InterceptedService<S, F> {
    type V = ServiceView<S, F>;

    closed spec fn view(&self) -> ServiceView<S, F> {
        ServiceView { inner: self.inner, options: self.options, mutators: self.funcs@ }
    }
}

/// Puts `t` behind an interception with `options` and no mutators.
pub fn intercept<S, F>(t: S, options: Options) -> (service: InterceptedService<S, F>)
    ensures
        service@.inner == t,
        service@.options == options,
        service@.mutators == Seq::<F>::empty(),
{
    InterceptedService { inner: t, options, funcs: Vec::new() }
}

impl<S, F: Fn(Request<Body>) -> Request<Body>> InterceptedService<S, F> {
    /// Every registered mutator can be called on every request.
    pub open spec fn wf(&self) -> bool {
        forall|i: int| 0 <= i < self@.mutators.len() ==> accepts_all(#[trigger] self@.mutators[i])
    }

    /// Registers `fun` behind the mutators registered so far.
    pub fn with(self, fun: F) -> (service: Self)
        ensures
            service@.inner == self@.inner,
            service@.options == self@.options,
            service@.mutators == self@.mutators.push(fun),
            self.wf() && accepts_all(fun) ==> service.wf(),
    {
        let mut service = self;
        service.funcs.push(fun);
        service
    }

    /// The inner service.
    pub fn inner(&self) -> (inner: &S)
        ensures
            *inner == self@.inner,
    {
        &self.inner
    }

    /// The options of the interception.
    pub fn options(&self) -> (options: &Options)
        ensures
            *options == self@.options,
    {
        &self.options
    }

    /// Passes `req` through the registered mutators, in the order of their
    /// registration: each gets what the one before it gave.
    pub fn mutate(&self, req: Request<Body>) -> (mutated: Request<Body>)
        requires
            self.wf(),
        ensures
            yields(self@.mutators, req, mutated),
    {
        let mut current = req;
        let mut i: usize = 0;
        while i < self.funcs.len()
            invariant
                i <= self.funcs@.len(),
                self.wf(),
                self@.mutators == self.funcs@,
                yields(self.funcs@.take(i as int), req, current),
            decreases self.funcs@.len() - i,
        {
            let ghost before = current;
            let fun = &self.funcs[i];
            assert(accepts_all(self@.mutators[i as int]));
            current = fun(current);
            proof {
                let done = self.funcs@.take(i + 1);
                assert(done.drop_last() =~= self.funcs@.take(i as int));
                assert(done.last() == self.funcs@[i as int]);
                assert(call_ensures(done.last(), (before,), current));
            }
            i = i + 1;
        }
        proof {
            assert(self.funcs@.take(i as int) =~= self.funcs@);
        }
        current
    }

    /// Takes a call up to the point where the inner service gets the
    /// request.
    ///
    /// The identity of the call is read from the path of `req` as it came
    /// in. The request is marked as intercepted and passed through the
    /// mutators; the clock is read; the trace identifier is taken from the
    /// request that the mutators gave, or made afresh. A request whose path
    /// names no call is refused, and no mutator sees it.
    pub fn begin_call(&self, req: Request<Body>) -> (begun: Result<
        (Request<Body>, CallContext),
        PathError,
    >)
        requires
            self.wf(),
        ensures
            match begun {
                Ok((dispatched, context)) => {
                    &&& is_addressed(request_path(req))
                    &&& context.info.service@ == service_of(request_path(req))
                    &&& context.info.method@ == method_of(request_path(req))
                    &&& exists|marked: Request<Body>|
                        is_marked(req, INTERCEPTED, marked) && #[trigger] yields(
                            self@.mutators,
                            marked,
                            dispatched,
                        )
                    &&& match inbound_trace_id(
                        request_header(dispatched, self@.options.header.0@),
                    ) {
                        Some(text) => context.trace_id@ == text,
                        None => is_random_id(context.trace_id@),
                    }
                },
                Err(fault) => path_fault(request_path(req)) == Some(fault),
            },
    {
        let info = match parse_path_checked(path_of(&req)) {
            Ok(info) => info,
            Err(fault) => {
                return Err(fault);
            },
        };
        let marked = with_marker(req, INTERCEPTED);
        let dispatched = self.mutate(marked);
        let started = clock_now();
        let trace_id = extract(&dispatched, &self.options.header);
        Ok((dispatched, CallContext { info, trace_id, started }))
    }
}

impl<S, F> InterceptedService<S, F> {
    /// The inner service, to be driven.
    pub fn inner_mut(&mut self) -> (inner: &mut S)
        ensures
            *inner == old(self)@.inner,
            final(self)@.inner == *final(inner),
            final(self)@.options == old(self)@.options,
            final(self)@.mutators == old(self)@.mutators,
    {
        &mut self.inner
    }
}

} // verus!
