use git_analyse::chunks::split_code_into_chunks;

#[test]
fn test_split_code_into_chunks() {
    let code = "A".repeat(10000);
    let chunks = split_code_into_chunks(&code, 3000);
    assert_eq!(chunks.len(), 4);
}

#[test]
fn ten_thousand_characters_make_four_sized_chunks() {
    let code = "A".repeat(10000);
    let chunks = split_code_into_chunks(&code, 3000);
    assert_eq!(chunks.len(), 4);
    assert_eq!(chunks[0].chars().count(), 3000);
    assert_eq!(chunks[1].chars().count(), 3000);
    assert_eq!(chunks[2].chars().count(), 3000);
    assert_eq!(chunks[3].chars().count(), 1000);
}

#[test]
fn chunks_concatenate_back_to_the_corpus() {
    let code = "pub fn main() { println!(\"hello\"); }\n".repeat(7);
    let chunks = split_code_into_chunks(&code, 11);
    let joined: String = chunks.concat();
    assert_eq!(joined, code);
}

#[test]
fn empty_corpus_yields_no_chunks() {
    assert_eq!(split_code_into_chunks("", 1).len(), 0);
    assert_eq!(split_code_into_chunks("", 8192).len(), 0);
}

#[test]
fn exact_chunk_boundaries() {
    let chunks = split_code_into_chunks("abcdef", 4);
    assert_eq!(chunks, vec!["abcd".to_string(), "ef".to_string()]);
}

#[test]
fn chunks_split_on_characters_not_bytes() {
    let chunks = split_code_into_chunks("ééé", 2);
    assert_eq!(chunks, vec!["éé".to_string(), "é".to_string()]);
}
