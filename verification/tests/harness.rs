use contract_harness::adapter::ExecutionContext;
use contract_harness::adapter::InvocationError;
use contract_harness::encoding::decode_u64;
use contract_harness::encoding::encode_u64;
use contract_harness::endpoints::invoke;
use contract_harness::endpoints::Endpoint;

#[test]
fn answer_finishes_42() {
    let r = invoke(Endpoint::Answer, vec![]);
    assert_eq!(r, Ok(vec![vec![42u8]]));
}

#[test]
fn answer_ignores_arguments() {
    let r = invoke(Endpoint::Answer, vec![vec![1u8], vec![2u8]]);
    assert_eq!(r, Ok(vec![vec![42u8]]));
}

#[test]
fn answer_wrong_finishes_24_not_42() {
    let r = invoke(Endpoint::AnswerWrong, vec![]);
    assert_eq!(r, Ok(vec![vec![24u8]]));
    assert_ne!(r, Ok(vec![vec![42u8]]));
}

#[test]
fn echo_returns_the_single_argument() {
    let r = invoke(Endpoint::Echo, vec![encode_u64(7)]);
    assert_eq!(r, Ok(vec![vec![7u8]]));
}

#[test]
fn echo_round_trips_multi_byte_value() {
    let r = invoke(Endpoint::Echo, vec![encode_u64(300)]);
    assert_eq!(r, Ok(vec![vec![1u8, 44u8]]));
}

#[test]
fn echo_round_trips_zero() {
    let r = invoke(Endpoint::Echo, vec![encode_u64(0)]);
    assert_eq!(r, Ok(vec![vec![]]));
}

#[test]
fn echo_round_trips_largest_value() {
    let r = invoke(Endpoint::Echo, vec![encode_u64(u64::MAX)]);
    assert_eq!(r, Ok(vec![vec![255u8; 8]]));
}

#[test]
fn echo_canonicalizes_leading_zeros() {
    let r = invoke(Endpoint::Echo, vec![vec![0u8, 0u8, 42u8]]);
    assert_eq!(r, Ok(vec![vec![42u8]]));
}

#[test]
fn echo_accepts_nine_bytes_under_the_limit() {
    let mut arg = vec![0u8];
    arg.extend_from_slice(&[255u8; 8]);
    let r = invoke(Endpoint::Echo, vec![arg]);
    assert_eq!(r, Ok(vec![vec![255u8; 8]]));
}

#[test]
fn echo_rejects_value_over_64_bits() {
    let mut arg = vec![1u8];
    arg.extend_from_slice(&[0u8; 8]);
    let r = invoke(Endpoint::Echo, vec![arg]);
    assert_eq!(r, Err(InvocationError::DecodeError));
}

#[test]
fn echo_with_no_arguments_fails() {
    let r = invoke(Endpoint::Echo, vec![]);
    assert_eq!(r, Err(InvocationError::ArgumentCountError));
}

#[test]
fn echo_with_two_arguments_fails() {
    let r = invoke(Endpoint::Echo, vec![encode_u64(1), encode_u64(2)]);
    assert_eq!(r, Err(InvocationError::ArgumentCountError));
}

#[test]
fn fail_aborts_with_fail_payload() {
    let r = invoke(Endpoint::Fail, vec![]);
    assert_eq!(r, Err(InvocationError::SignaledError(b"fail".to_vec())));
}

#[test]
fn consecutive_invocations_are_independent() {
    let first = invoke(Endpoint::Answer, vec![]);
    assert_eq!(first, Ok(vec![vec![42u8]]));
    let second = invoke(Endpoint::Echo, vec![encode_u64(9)]);
    assert_eq!(second, Ok(vec![vec![9u8]]));
    let third = invoke(Endpoint::Answer, vec![]);
    assert_eq!(third, first);
}

#[test]
fn num_arguments_counts_the_argument_list() {
    let ctx = ExecutionContext::new(vec![vec![1u8], vec![2u8], vec![3u8]]);
    assert_eq!(ctx.num_arguments(), 3);
}

#[test]
fn check_num_arguments_accepts_a_matching_count() {
    let ctx = ExecutionContext::new(vec![vec![1u8]]);
    assert_eq!(ctx.check_num_arguments(1), Ok(()));
}

#[test]
fn check_num_arguments_rejects_a_mismatched_count() {
    let ctx = ExecutionContext::new(vec![vec![1u8]]);
    assert_eq!(ctx.check_num_arguments(2), Err(InvocationError::ArgumentCountError));
}

#[test]
fn get_argument_decodes_the_indexed_argument() {
    let ctx = ExecutionContext::new(vec![encode_u64(5), encode_u64(300)]);
    assert_eq!(ctx.get_argument_u64(0), Ok(5));
    assert_eq!(ctx.get_argument_u64(1), Ok(300));
}

#[test]
fn get_argument_rejects_an_index_outside_the_list() {
    let ctx = ExecutionContext::new(vec![encode_u64(5)]);
    assert_eq!(ctx.get_argument_u64(1), Err(InvocationError::IndexOutOfRange));
    assert_eq!(ctx.get_argument_u64(usize::MAX), Err(InvocationError::IndexOutOfRange));
}

#[test]
fn finish_preserves_the_order_of_calls() {
    let mut ctx = ExecutionContext::new(vec![]);
    ctx.finish_u64(1);
    ctx.finish_u64(2);
    ctx.finish_u64(300);
    assert_eq!(ctx.into_results(), vec![vec![1u8], vec![2u8], vec![1u8, 44u8]]);
}

#[test]
fn encode_zero_is_the_empty_buffer() {
    assert_eq!(encode_u64(0), Vec::<u8>::new());
}

#[test]
fn encode_spells_base_256_digits() {
    assert_eq!(encode_u64(42), vec![42u8]);
    assert_eq!(encode_u64(256), vec![1u8, 0u8]);
    assert_eq!(encode_u64(0x0102_0304), vec![1u8, 2u8, 3u8, 4u8]);
}

#[test]
fn decode_inverts_encode() {
    for v in [0u64, 1, 255, 256, 300, 65535, 65536, u64::MAX - 1, u64::MAX] {
        assert_eq!(decode_u64(&encode_u64(v)), Some(v));
    }
}

#[test]
fn decode_accepts_leading_zeros() {
    assert_eq!(decode_u64(&vec![0u8, 42u8]), Some(42));
}

#[test]
fn decode_rejects_a_value_over_64_bits() {
    assert_eq!(decode_u64(&vec![255u8; 9]), None);
}
