use strata::icon::{IconReader, IconStep, ICON_CHUNK, MAX_ICON_BYTES};

/// Reads `input` as a stream that yields as many bytes as asked, at most
/// what is left, the way a memory stream does.
fn read_all(input: &[u8], limit: usize) -> Result<Vec<u8>, IconStep> {
    let mut reader = IconReader::new(limit);
    let mut offset = 0;
    loop {
        let wanted = reader.next_read_size();
        let end = (offset + wanted).min(input.len());
        let chunk = &input[offset..end];
        offset = end;
        match reader.accept(chunk) {
            IconStep::More => {}
            IconStep::Complete => return Ok(reader.into_bytes()),
            IconStep::TooLarge => return Err(IconStep::TooLarge),
        }
    }
}

#[test]
fn camera_icon_reads_are_bounded_even_without_size_metadata() {
    for (size, limit, succeeds) in [(0, 0, true), (8193, 8193, true), (8193, 8192, false)] {
        let input = vec![7; size];
        let result = read_all(&input, limit);
        assert_eq!(result.is_ok(), succeeds);
        if succeeds {
            assert_eq!(result.expect("icon bytes"), input);
        }
    }
}

#[test]
fn reads_ask_one_byte_past_the_room_left_up_to_a_chunk() {
    let mut reader = IconReader::new(10);
    assert_eq!(reader.next_read_size(), 11);
    assert_eq!(reader.accept(&[1, 2, 3]), IconStep::More);
    assert_eq!(reader.next_read_size(), 8);
    let big = IconReader::new(MAX_ICON_BYTES);
    assert_eq!(big.next_read_size(), ICON_CHUNK);
}

#[test]
fn a_chunk_past_the_limit_is_refused_and_nothing_is_kept() {
    let mut reader = IconReader::new(4);
    assert_eq!(reader.accept(&[1, 2]), IconStep::More);
    assert_eq!(reader.accept(&[3, 4, 5]), IconStep::TooLarge);
    assert_eq!(reader.accept(&[3, 4]), IconStep::More);
    assert_eq!(reader.accept(&[]), IconStep::Complete);
    assert_eq!(reader.into_bytes(), vec![1, 2, 3, 4]);
}

#[test]
fn an_icon_of_exactly_the_limit_is_accepted() {
    let input: Vec<u8> = (0..20000u32).map(|i| (i % 251) as u8).collect();
    assert_eq!(read_all(&input, input.len()), Ok(input.clone()));
    assert_eq!(read_all(&input, input.len() - 1), Err(IconStep::TooLarge));
}

#[test]
fn a_stream_in_uneven_chunks_is_read_whole_or_refused() {
    let chunks: [&[u8]; 3] = [&[1, 2, 3], &[4], &[5, 6]];
    let mut reader = IconReader::new(6);
    for chunk in chunks {
        assert_eq!(reader.accept(chunk), IconStep::More);
    }
    assert_eq!(reader.accept(&[]), IconStep::Complete);
    assert_eq!(reader.into_bytes(), vec![1, 2, 3, 4, 5, 6]);

    let mut small = IconReader::new(5);
    assert_eq!(small.accept(chunks[0]), IconStep::More);
    assert_eq!(small.accept(chunks[1]), IconStep::More);
    assert_eq!(small.accept(chunks[2]), IconStep::TooLarge);
    assert_eq!(small.into_bytes(), vec![1, 2, 3, 4]);
}
