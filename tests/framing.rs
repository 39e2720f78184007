use snappy_agent::framing::{FrameAccumulator, FrameError, MAX_ACCUMULATOR};

fn feed_all(acc: &mut FrameAccumulator, chunks: &[&[u8]]) -> Vec<Vec<u8>> {
    let mut frames = Vec::new();
    for chunk in chunks {
        assert_eq!(acc.feed(chunk), Ok(()));
        frames.extend(acc.extract_frames());
    }
    frames
}

#[test]
fn two_frames_in_one_chunk() {
    let mut acc = FrameAccumulator::new();
    let frames = feed_all(&mut acc, &[b"AB\r\nCD\r\n"]);
    assert_eq!(frames, vec![b"AB".to_vec(), b"CD".to_vec()]);
    assert_eq!(acc.len(), 0);
}

#[test]
fn every_split_gives_the_same_frames() {
    let input: &[u8] = b"AB\r\nCD\r\n";
    for i in 0..=input.len() {
        for j in i..=input.len() {
            let mut acc = FrameAccumulator::new();
            let frames = feed_all(&mut acc, &[&input[..i], &input[i..j], &input[j..]]);
            assert_eq!(frames, vec![b"AB".to_vec(), b"CD".to_vec()], "split at {} and {}", i, j);
            assert_eq!(acc.len(), 0);
        }
    }
}

#[test]
fn byte_by_byte_feed_gives_the_same_frames() {
    let input: &[u8] = b"AB\r\nCD\r\n";
    let mut acc = FrameAccumulator::new();
    let chunks: Vec<&[u8]> = input.chunks(1).collect();
    let frames = feed_all(&mut acc, &chunks);
    assert_eq!(frames, vec![b"AB".to_vec(), b"CD".to_vec()]);
}

#[test]
fn next_frame_returns_one_frame_at_a_time() {
    let mut acc = FrameAccumulator::new();
    assert_eq!(acc.feed(b"AB\r\nCD\r\nEF"), Ok(()));
    assert_eq!(acc.next_frame(), Some(b"AB".to_vec()));
    assert_eq!(acc.next_frame(), Some(b"CD".to_vec()));
    assert_eq!(acc.next_frame(), None);
    assert_eq!(acc.contents(), b"EF".to_vec());
}

#[test]
fn lone_carriage_return_is_not_a_delimiter() {
    let mut acc = FrameAccumulator::new();
    assert_eq!(acc.feed(b"A\rB\nC\r"), Ok(()));
    assert_eq!(acc.next_frame(), None);
    assert_eq!(acc.feed(b"\n"), Ok(()));
    assert_eq!(acc.next_frame(), Some(b"A\rB\nC".to_vec()));
}

#[test]
fn empty_frame_between_delimiters() {
    let mut acc = FrameAccumulator::new();
    assert_eq!(acc.feed(b"\r\n\r\nX\r\n"), Ok(()));
    assert_eq!(acc.extract_frames(), vec![Vec::new(), Vec::new(), b"X".to_vec()]);
}

#[test]
fn overflow_without_delimiter_resets() {
    let mut acc = FrameAccumulator::new();
    let noise = vec![0x41u8; MAX_ACCUMULATOR + 1];
    assert_eq!(acc.feed(&noise), Err(FrameError::Overflow));
    assert_eq!(acc.len(), 0);
    assert_eq!(acc.next_frame(), None);
}

#[test]
fn overflow_across_feeds_resets() {
    let mut acc = FrameAccumulator::new();
    assert_eq!(acc.feed(&vec![0x41u8; MAX_ACCUMULATOR]), Ok(()));
    assert_eq!(acc.len(), MAX_ACCUMULATOR);
    assert_eq!(acc.feed(b"B"), Err(FrameError::Overflow));
    assert_eq!(acc.len(), 0);
    assert_eq!(acc.extract_frames(), Vec::<Vec<u8>>::new());
}

#[test]
fn ceiling_exactly_is_kept() {
    let mut acc = FrameAccumulator::new();
    assert_eq!(acc.feed(&vec![0x41u8; MAX_ACCUMULATOR]), Ok(()));
    assert_eq!(acc.len(), MAX_ACCUMULATOR);
}

#[test]
fn long_input_with_delimiter_is_kept() {
    let mut acc = FrameAccumulator::new();
    let mut data = vec![0x41u8; MAX_ACCUMULATOR + 10];
    data.extend_from_slice(b"\r\n");
    assert_eq!(acc.feed(&data), Ok(()));
    let frames = acc.extract_frames();
    assert_eq!(frames.len(), 1);
    assert_eq!(frames[0].len(), MAX_ACCUMULATOR + 10);
}

#[test]
fn clear_empties_the_buffer() {
    let mut acc = FrameAccumulator::new();
    assert_eq!(acc.feed(b"partial"), Ok(()));
    acc.clear();
    assert_eq!(acc.len(), 0);
}
