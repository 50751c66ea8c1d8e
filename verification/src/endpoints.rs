//! The four endpoints, and a harness that runs one invocation of any of
//! them.
//!
//! Each endpoint works through the adapter handed to it: `answer` and
//! `answer_wrong` finish a constant, `echo` finishes its single argument
//! back, `fail` aborts with a fixed diagnostic. [`invoke`] opens a fresh
//! context for an argument list, runs the chosen endpoint, and surfaces
//! either the finished results or the terminal error; [`spec_invoke`] states
//! the outcome as a function of the endpoint and the arguments alone.

use vstd::prelude::*;

use crate::adapter::ErrorModel;
use crate::adapter::ExecutionContext;
use crate::adapter::InvocationError;
use crate::encoding::be_value;
use crate::encoding::canonical_bytes;
use crate::encoding::lemma_canonical_round_trip;
use crate::encoding::lemma_pow256_eight;
use crate::encoding::pow256;

verus! {

/// The externally callable entry points of the contract.
#[derive(Clone, Copy, Debug, PartialEq, Eq, Structural)]
pub enum Endpoint {
    Answer,
    AnswerWrong,
    Echo,
    Fail,
}

/// How one invocation ended: a finished result buffer, or an abort with its
/// error.
pub enum InvocationOutcome {
    Finished { results: Seq<Seq<u8>> },
    Aborted { error: ErrorModel },
}

/// The values a finished invocation surfaced; an aborted one surfaced none.
pub open spec fn finished_results(outcome: InvocationOutcome) -> Seq<Seq<u8>> {
    match outcome {
        InvocationOutcome::Finished { results } => results,
        InvocationOutcome::Aborted { .. } => Seq::empty(),
    }
}

/// The diagnostic payload that `fail` aborts with: the bytes of `"fail"`.
pub open spec fn fail_payload() -> Seq<u8> {
    seq![102u8, 97u8, 105u8, 108u8]
}

/// The outcome of invoking `ep` on the argument list `args`: a function of
/// those two alone.
pub open spec fn spec_invoke(ep: Endpoint, args: Seq<Seq<u8>>) -> InvocationOutcome {
    match ep {
        Endpoint::Answer => InvocationOutcome::Finished { results: seq![canonical_bytes(42)] },
        Endpoint::AnswerWrong => InvocationOutcome::Finished {
            results: seq![canonical_bytes(24)],
        },
        Endpoint::Echo => if args.len() != 1 {
            InvocationOutcome::Aborted { error: ErrorModel::ArgumentCountError }
        } else if be_value(args[0]) >= pow256(8) {
            InvocationOutcome::Aborted { error: ErrorModel::DecodeError }
        } else {
            InvocationOutcome::Finished { results: seq![canonical_bytes(be_value(args[0]))] }
        },
        Endpoint::Fail => InvocationOutcome::Aborted {
            error: ErrorModel::SignaledError { payload: fail_payload() },
        },
    }
}

/// Unconditionally finishes the constant 42.
pub fn answer(ctx: &mut ExecutionContext) -> (r: Result<(), InvocationError>)
    ensures
        r == Ok::<(), InvocationError>(()),
        final(ctx).args_view() == old(ctx).args_view(),
        final(ctx).results_view() == old(ctx).results_view().push(canonical_bytes(42)),
{
    ctx.finish_u64(42);
    Ok(())
}

/// Unconditionally finishes the constant 24: the deliberately mismatched
/// twin of `answer`, kept for tests that assert a wrong answer.
pub fn answer_wrong(ctx: &mut ExecutionContext) -> (r: Result<(), InvocationError>)
    ensures
        r == Ok::<(), InvocationError>(()),
        final(ctx).args_view() == old(ctx).args_view(),
        final(ctx).results_view() == old(ctx).results_view().push(canonical_bytes(24)),
{
    ctx.finish_u64(24);
    Ok(())
}

/// Requires exactly one argument, decodes it as an unsigned 64-bit integer,
/// and finishes the same value back.
pub fn echo(ctx: &mut ExecutionContext) -> (r: Result<(), InvocationError>)
    ensures
        final(ctx).args_view() == old(ctx).args_view(),
        old(ctx).args_view().len() != 1 ==> r == Err::<(), InvocationError>(
            InvocationError::ArgumentCountError,
        ),
        old(ctx).args_view().len() != 1 ==> final(ctx).results_view() == old(ctx).results_view(),
        old(ctx).args_view().len() == 1 && be_value(old(ctx).args_view()[0]) >= pow256(8)
            ==> r == Err::<(), InvocationError>(InvocationError::DecodeError),
        old(ctx).args_view().len() == 1 && be_value(old(ctx).args_view()[0]) >= pow256(8)
            ==> final(ctx).results_view() == old(ctx).results_view(),
        old(ctx).args_view().len() == 1 && be_value(old(ctx).args_view()[0]) < pow256(8)
            ==> r == Ok::<(), InvocationError>(()),
        old(ctx).args_view().len() == 1 && be_value(old(ctx).args_view()[0]) < pow256(8)
            ==> final(ctx).results_view()
            == old(ctx).results_view().push(canonical_bytes(be_value(old(ctx).args_view()[0]))),
{
    proof {
        lemma_pow256_eight();
    }
    match ctx.check_num_arguments(1) {
        Ok(()) => {},
        Err(e) => {
            return Err(e);
        },
    }
    let arg = match ctx.get_argument_u64(0) {
        Ok(value) => value,
        Err(e) => {
            return Err(e);
        },
    };
    ctx.finish_u64(arg);
    Ok(())
}

/// Unconditionally aborts the invocation with the payload `"fail"`.
pub fn fail(ctx: &mut ExecutionContext) -> (r: Result<(), InvocationError>)
    ensures
        *final(ctx) == *old(ctx),
        (r matches Err(e) && e@ == (ErrorModel::SignaledError { payload: fail_payload() })),
{
    let message: Vec<u8> = vec![102u8, 97u8, 105u8, 108u8];
    proof {
        assert(message@ =~= fail_payload());
    }
    Err(ctx.signal_error(message))
}

/// Runs one invocation of `ep` on the argument list `args`: a fresh context,
/// the endpoint, then either the finished results or the terminal error,
/// exactly as [`spec_invoke`] states.
pub fn invoke(ep: Endpoint, args: Vec<Vec<u8>>) -> (r: Result<Vec<Vec<u8>>, InvocationError>)
    ensures
        match r {
            Ok(results) => spec_invoke(ep, args.deep_view()) == (InvocationOutcome::Finished {
                results: results.deep_view(),
            }),
            Err(e) => spec_invoke(ep, args.deep_view()) == (InvocationOutcome::Aborted {
                error: e@,
            }),
        },
{
    let ghost spec_args = args.deep_view();
    let mut ctx = ExecutionContext::new(args);
    let step: Result<(), InvocationError> = match ep {
        Endpoint::Answer => answer(&mut ctx),
        Endpoint::AnswerWrong => answer_wrong(&mut ctx),
        Endpoint::Echo => echo(&mut ctx),
        Endpoint::Fail => fail(&mut ctx),
    };
    match step {
        Ok(()) => {
            proof {
                assert(ctx.results_view() =~~= finished_results(spec_invoke(ep, spec_args)));
            }
            let results = ctx.into_results();
            Ok(results)
        },
        Err(e) => Err(e),
    }
}

/// Invoking `answer` always finishes exactly one value: the encoding of 42,
/// whatever the arguments were.
pub proof fn lemma_answer_yields_42(args: Seq<Seq<u8>>)
    ensures
        spec_invoke(Endpoint::Answer, args) == (InvocationOutcome::Finished {
            results: seq![canonical_bytes(42)],
        }),
        be_value(canonical_bytes(42)) == 42,
{
    lemma_canonical_round_trip(42);
}

/// Invoking `answer_wrong` always finishes exactly one value: the encoding
/// of 24, which differs from the encoding of 42.
pub proof fn lemma_answer_wrong_yields_24(args: Seq<Seq<u8>>)
    ensures
        spec_invoke(Endpoint::AnswerWrong, args) == (InvocationOutcome::Finished {
            results: seq![canonical_bytes(24)],
        }),
        be_value(canonical_bytes(24)) == 24,
        canonical_bytes(24) != canonical_bytes(42),
{
    lemma_canonical_round_trip(24);
    lemma_canonical_round_trip(42);
}

/// Echo round trip: for every unsigned 64-bit value, invoking `echo` with
/// the one argument holding its encoding finishes exactly that encoding
/// back.
pub proof fn lemma_echo_round_trip(v: u64)
    ensures
        spec_invoke(Endpoint::Echo, seq![canonical_bytes(v as nat)])
            == (InvocationOutcome::Finished { results: seq![canonical_bytes(v as nat)] }),
{
    lemma_canonical_round_trip(v as nat);
    lemma_pow256_eight();
}

/// Invoking `echo` with zero, or with two or more, arguments aborts with
/// `ArgumentCountError`.
pub proof fn lemma_echo_rejects_wrong_argument_count(args: Seq<Seq<u8>>)
    requires
        args.len() != 1,
    ensures
        spec_invoke(Endpoint::Echo, args) == (InvocationOutcome::Aborted {
            error: ErrorModel::ArgumentCountError,
        }),
{
}

/// Invoking `fail` always aborts with the payload `"fail"` and finishes no
/// results, whatever the arguments were.
pub proof fn lemma_fail_aborts(args: Seq<Seq<u8>>)
    ensures
        spec_invoke(Endpoint::Fail, args) == (InvocationOutcome::Aborted {
            error: ErrorModel::SignaledError { payload: fail_payload() },
        }),
        finished_results(spec_invoke(Endpoint::Fail, args)) == Seq::<Seq<u8>>::empty(),
{
}

/// Invocations are independent. The outcome is a function of the endpoint
/// and its argument list alone, every invocation starts from an empty result
/// buffer, and an endpoint only ever appends to the buffer it is given: run
/// against any leftover buffer, what it adds is unchanged and recoverable,
/// and run as an invocation it surfaces exactly its own finishes.
pub proof fn lemma_invocations_independent(ep: Endpoint, args: Seq<Seq<u8>>, prior: Seq<Seq<u8>>)
    ensures
        (prior + finished_results(spec_invoke(ep, args))).skip(prior.len() as int)
            == finished_results(spec_invoke(ep, args)),
        Seq::<Seq<u8>>::empty() + finished_results(spec_invoke(ep, args)) == finished_results(
            spec_invoke(ep, args),
        ),
{
    let own = finished_results(spec_invoke(ep, args));
    assert((prior + own).skip(prior.len() as int) =~= own);
    assert(Seq::<Seq<u8>>::empty() + own =~= own);
}

} // verus!

