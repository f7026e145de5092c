//! The byte-stuffed stream accumulator, fed chunk by chunk.

use ergot::cobs_acc::{feed_one_frame, CobsAccumulator, FeedResult, SliceStorage};

fn acc_with_capacity(cap: usize) -> CobsAccumulator<SliceStorage> {
    CobsAccumulator::new(SliceStorage::new(vec![0u8; cap]))
}

#[test]
fn single_zero_is_an_empty_frame_error() {
    let mut acc = acc_with_capacity(64);
    match acc.feed_raw(&[0x00]) {
        FeedResult::DeserError(remaining) => assert!(remaining.is_empty()),
        _ => panic!("a lone terminator should be a decode error"),
    }
}

#[test]
fn oversized_chunk_sets_overflow_then_terminator_clears_it() {
    let mut acc = acc_with_capacity(8);
    // strictly larger than storage, no terminator: the frame is lost whole
    let big = [1u8; 10];
    match acc.feed_raw(&big) {
        FeedResult::OverFull(remaining) => assert!(remaining.is_empty()),
        _ => panic!("an oversized chunk should overflow"),
    }
    // the next chunk carries a terminator: overflow clears, the rest of the
    // chunk is handed back
    match acc.feed_raw(&[5, 6, 0, 9, 9]) {
        FeedResult::OverFull(remaining) => assert_eq!(remaining, vec![9, 9]),
        _ => panic!("the terminator should end the overflow"),
    }
    // and the accumulator works again afterwards
    match feed_one_frame(&mut acc, &[1, 2, 3]) {
        FeedResult::SuccessInput { data, remaining } => {
            assert_eq!(data, vec![1, 2, 3]);
            assert!(remaining.is_empty());
        }
        _ => panic!("recovery frame should decode"),
    }
}

#[test]
fn one_frame_in_three_chunks() {
    let mut acc = acc_with_capacity(256);
    let body: Vec<u8> = (1..=100u8).collect();
    let mut line = cobs::encode_vec(&body);
    line.push(0);
    assert!(line.len() > 51);

    // sizes 1, 50, rest
    match acc.feed_raw(&line[..1]) {
        FeedResult::Consumed => {}
        _ => panic!("first chunk should be buffered"),
    }
    match acc.feed_raw(&line[1..51]) {
        FeedResult::Consumed => {}
        _ => panic!("second chunk should be buffered"),
    }
    match acc.feed_raw(&line[51..]) {
        FeedResult::Success { data, remaining } => {
            assert_eq!(data, body);
            assert!(remaining.is_empty());
        }
        other => panic!(
            "third chunk should complete the frame, got {}",
            feed_kind(&other)
        ),
    }
}

#[test]
fn whole_frame_in_one_chunk_decodes_in_place() {
    let mut acc = acc_with_capacity(64);
    match feed_one_frame(&mut acc, &[10, 0, 20, 0, 30]) {
        FeedResult::SuccessInput { data, remaining } => {
            assert_eq!(data, vec![10, 0, 20, 0, 30]);
            assert!(remaining.is_empty());
        }
        _ => panic!("a whole frame should decode straight from the chunk"),
    }
}

#[test]
fn two_frames_in_one_chunk_leave_a_remainder() {
    let mut acc = acc_with_capacity(64);
    let mut line = cobs::encode_vec(&[1u8, 2, 3]);
    line.push(0);
    let mut second = cobs::encode_vec(&[9u8, 8]);
    second.push(0);
    let mut both = line.clone();
    both.extend_from_slice(&second);

    match acc.feed_raw(&both) {
        FeedResult::SuccessInput { data, remaining } => {
            assert_eq!(data, vec![1, 2, 3]);
            assert_eq!(remaining, second);
        }
        _ => panic!("the first frame should decode"),
    }
    match acc.feed_raw(&second) {
        FeedResult::SuccessInput { data, remaining } => {
            assert_eq!(data, vec![9, 8]);
            assert!(remaining.is_empty());
        }
        _ => panic!("the second frame should decode"),
    }
}

#[test]
fn garbage_before_terminator_is_a_decode_error() {
    let mut acc = acc_with_capacity(64);
    // 0xFF promises 254 data bytes; the terminator arrives long before
    match acc.feed_raw(&[0xFF, 1, 2, 0, 77]) {
        FeedResult::DeserError(remaining) => assert_eq!(remaining, vec![77]),
        _ => panic!("a truncated run should be a decode error"),
    }
}

fn feed_kind(r: &FeedResult) -> &'static str {
    match r {
        FeedResult::Consumed => "Consumed",
        FeedResult::OverFull(_) => "OverFull",
        FeedResult::DeserError(_) => "DeserError",
        FeedResult::SuccessInput { .. } => "SuccessInput",
        FeedResult::Success { .. } => "Success",
    }
}
