//! The execution-environment adapter: the capability set handed to an
//! endpoint for one invocation.
//!
//! An [`ExecutionContext`] holds the invocation's argument list (ordered byte
//! buffers, fixed for the whole invocation) and its result buffer (the values
//! finished so far, in order). All of it is scoped to a single invocation:
//! nothing persists across calls.

use vstd::prelude::*;

use crate::encoding::be_value;
use crate::encoding::canonical_bytes;
use crate::encoding::decode_u64;
use crate::encoding::encode_u64;
use crate::encoding::pow256;

verus! {

/// Why an invocation aborted. Every variant is fatal to the invocation that
/// raised it; none is recovered from internally.
#[derive(Debug, PartialEq, Eq)]
pub enum InvocationError {
    /// The argument count differed from what the endpoint expected.
    ArgumentCountError,
    /// An argument index lay outside the argument list.
    IndexOutOfRange,
    /// An argument's bytes did not spell a valid unsigned 64-bit integer.
    DecodeError,
    /// The endpoint aborted explicitly; the payload is its diagnostic.
    SignaledError(Vec<u8>),
}

/// The mathematical shape of an [`InvocationError`]: the signaled payload as
/// a byte sequence, the other variants as bare tags.
pub enum ErrorModel {
    ArgumentCountError,
    IndexOutOfRange,
    DecodeError,
    SignaledError { payload: Seq<u8> },
}

impl View for InvocationError {
    type V = ErrorModel;

    open spec fn view(&self) -> ErrorModel {
        match self {
            InvocationError::ArgumentCountError => ErrorModel::ArgumentCountError,
            InvocationError::IndexOutOfRange => ErrorModel::IndexOutOfRange,
            InvocationError::DecodeError => ErrorModel::DecodeError,
            InvocationError::SignaledError(payload) => ErrorModel::SignaledError {
                payload: payload@,
            },
        }
    }
}

/// The capability set for one invocation: argument introspection, result
/// finishing, error signaling.
pub struct ExecutionContext {
    args: Vec<Vec<u8>>,
    results: Vec<Vec<u8>>,
}

impl ExecutionContext {
    /// The argument list, each argument as the byte sequence it holds.
    pub closed spec fn args_view(&self) -> Seq<Seq<u8>> {
        self.args.deep_view()
    }

    /// The result buffer: the byte sequences finished so far, oldest first.
    pub closed spec fn results_view(&self) -> Seq<Seq<u8>> {
        self.results.deep_view()
    }

    /// Opens an invocation: the given arguments, an empty result buffer.
    pub fn new(args: Vec<Vec<u8>>) -> (ctx: Self)
        ensures
            ctx.args_view() == args.deep_view(),
            ctx.results_view() == Seq::<Seq<u8>>::empty(),
    {
        let ctx = ExecutionContext { args, results: Vec::new() };
        proof {
            assert(ctx.results_view() =~= Seq::<Seq<u8>>::empty());
        }
        ctx
    }

    /// How many arguments this invocation received.
    pub fn num_arguments(&self) -> (n: usize)
        ensures
            n == self.args_view().len(),
    {
        self.args.len()
    }

    /// No observable effect when the argument count is `expected`; the
    /// `ArgumentCountError` verdict otherwise.
    pub fn check_num_arguments(&self, expected: usize) -> (r: Result<(), InvocationError>)
        ensures
            self.args_view().len() == expected ==> r == Ok::<(), InvocationError>(()),
            self.args_view().len() != expected ==> r == Err::<(), InvocationError>(
                InvocationError::ArgumentCountError,
            ),
    {
        if self.args.len() == expected {
            Ok(())
        } else {
            Err(InvocationError::ArgumentCountError)
        }
    }

    /// The argument at `index` decoded as an unsigned 64-bit integer;
    /// `IndexOutOfRange` when the index lies outside the argument list,
    /// `DecodeError` when the bytes spell a value too large for 64 bits.
    pub fn get_argument_u64(&self, index: usize) -> (r: Result<u64, InvocationError>)
        ensures
            index >= self.args_view().len() ==> r == Err::<u64, InvocationError>(
                InvocationError::IndexOutOfRange,
            ),
            index < self.args_view().len() && be_value(self.args_view()[index as int]) >= pow256(8)
                ==> r == Err::<u64, InvocationError>(InvocationError::DecodeError),
            index < self.args_view().len() && be_value(self.args_view()[index as int]) < pow256(8)
                ==> r == Ok::<u64, InvocationError>(
                (be_value(self.args_view()[index as int]) as u64),
            ),
    {
        if index >= self.args.len() {
            return Err(InvocationError::IndexOutOfRange);
        }
        proof {
            assert(self.args_view()[index as int] == self.args@[index as int]@);
        }
        match decode_u64(&self.args[index]) {
            Some(value) => Ok(value),
            None => Err(InvocationError::DecodeError),
        }
    }

    /// Appends `value`, canonically encoded, to the result buffer. Always
    /// succeeds; the order of successive calls is preserved.
    pub fn finish_u64(&mut self, value: u64)
        ensures
            final(self).args_view() == old(self).args_view(),
            final(self).results_view() == old(self).results_view().push(
                canonical_bytes(value as nat),
            ),
    {
        let encoded = encode_u64(value);
        self.results.push(encoded);
        proof {
            assert(self.results_view() =~~= old(self).results_view().push(
                canonical_bytes(value as nat),
            ));
        }
    }

    /// Wraps a diagnostic payload as the terminal error of this invocation;
    /// the endpoint returns it and makes no further adapter calls.
    pub fn signal_error(&self, message: Vec<u8>) -> (e: InvocationError)
        ensures
            e@ == (ErrorModel::SignaledError { payload: message@ }),
    {
        InvocationError::SignaledError(message)
    }

    /// Closes the invocation, surfacing the result buffer.
    pub fn into_results(self) -> (r: Vec<Vec<u8>>)
        ensures
            r.deep_view() == self.results_view(),
    {
        self.results
    }
}

} // verus!
