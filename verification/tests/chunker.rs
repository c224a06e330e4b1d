use lala::chunker::chunk;

#[test]
fn empty_text_returns_empty_vec() {
    assert!(chunk("", 512, 64).is_empty());
}

#[test]
fn text_shorter_than_chunk_size_returns_single_chunk() {
    let text = "short text";
    let result = chunk(text, 512, 64);
    assert_eq!(result.len(), 1);
    assert_eq!(result[0], text);
}

#[test]
fn overlap_greater_than_chunk_size_treated_as_zero() {
    let text = "a".repeat(100);
    let result = chunk(&text, 10, 20);
    assert_eq!(result.len(), 10);
}

#[test]
fn chunks_overlap_correctly() {
    let text = "a".repeat(20);
    // chunk_size=10, overlap=5 → step=5
    // chunks starting at 0, 5, 10 (last chunk covers 10..20)
    let result = chunk(&text, 10, 5);
    assert_eq!(result.len(), 3);
    for c in &result {
        assert!(c.len() <= 10);
    }
}

#[test]
fn zero_chunk_size_gives_no_chunk() {
    assert!(chunk("some text", 0, 0).is_empty());
}

#[test]
fn text_of_exactly_chunk_size_is_one_chunk() {
    assert_eq!(chunk("abcd", 4, 1), vec!["abcd".to_string()]);
}

#[test]
fn windows_slide_by_size_minus_overlap() {
    let result = chunk("Hello world! This is a test.", 10, 3);
    assert_eq!(
        result,
        vec![
            "Hello worl".to_string(),
            "orld! This".to_string(),
            "his is a t".to_string(),
            "a test.".to_string(),
        ]
    );
}

#[test]
fn windows_count_characters_not_bytes() {
    let result = chunk("héllo wörld", 4, 1);
    assert_eq!(
        result,
        vec!["héll".to_string(), "lo w".to_string(), "wörl".to_string(), "ld".to_string()]
    );
}

#[test]
fn large_overlap_chunks_like_no_overlap() {
    let text = "abcdefghijklmnopq";
    assert_eq!(chunk(text, 5, 5), chunk(text, 5, 0));
    assert_eq!(chunk(text, 5, 9), vec!["abcde", "fghij", "klmno", "pq"]);
}

#[test]
fn chunks_stitch_back_into_the_text() {
    let text = "the quick brown fox jumps over the lazy dog";
    let size = 8;
    let overlap = 3;
    let step = size - overlap;
    let result = chunk(text, size, overlap);
    let mut rebuilt = String::new();
    for (i, c) in result.iter().enumerate() {
        let chars: Vec<char> = c.chars().collect();
        if i + 1 < result.len() {
            assert_eq!(chars.len(), size);
            rebuilt.extend(chars[..step].iter());
            let next: Vec<char> = result[i + 1].chars().collect();
            assert_eq!(chars[step..], next[..overlap]);
        } else {
            assert!(chars.len() <= size && !chars.is_empty());
            rebuilt.extend(chars.iter());
        }
    }
    assert_eq!(rebuilt, text);
}
