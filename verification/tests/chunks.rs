use yuttari::chunker::split;

#[test]
fn empty_input_has_no_chunks() {
    assert!(split(b"", 256).is_empty());
    assert!(split(b"", 1).is_empty());
}

#[test]
fn six_hundred_bytes_make_three_chunks() {
    let input: Vec<u8> = (0..600u32).map(|i| (i % 251) as u8).collect();
    let chunks = split(&input, 256);
    assert_eq!(chunks.len(), 3);
    assert_eq!(chunks[0].len(), 256);
    assert_eq!(chunks[1].len(), 256);
    assert_eq!(chunks[2].len(), 88);
    assert_eq!(chunks[0], input[..256].to_vec());
    assert_eq!(chunks[1], input[256..512].to_vec());
    assert_eq!(chunks[2], input[512..].to_vec());
}

#[test]
fn chunks_cover_the_input_in_order() {
    for len in [0usize, 1, 2, 3, 7, 8, 9, 255, 256, 257, 512, 1000] {
        for size in [1usize, 2, 3, 8, 256, 1000, 5000] {
            let input: Vec<u8> = (0..len).map(|i| (i * 7 % 256) as u8).collect();
            let chunks = split(&input, size);
            assert_eq!(chunks.concat(), input);
            assert_eq!(chunks.len(), (len + size - 1) / size);
            for (i, chunk) in chunks.iter().enumerate() {
                assert!(!chunk.is_empty());
                assert!(chunk.len() <= size);
                if i + 1 < chunks.len() {
                    assert_eq!(chunk.len(), size);
                }
            }
        }
    }
}

#[test]
fn input_of_exactly_one_chunk() {
    let input = [5u8; 256];
    let chunks = split(&input, 256);
    assert_eq!(chunks.len(), 1);
    assert_eq!(chunks[0], input.to_vec());
}

#[test]
fn chunks_agree_with_the_standard_library() {
    let input: Vec<u8> = (0..1234u32).map(|i| (i % 256) as u8).collect();
    for size in [1usize, 5, 256, 1234, 2000] {
        let expected: Vec<Vec<u8>> = input.chunks(size).map(|c| c.to_vec()).collect();
        assert_eq!(split(&input, size), expected);
    }
}
