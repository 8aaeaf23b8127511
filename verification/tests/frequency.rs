use freqpool::{frequency_in_string, frequency_single_threaded, reduce, split, CharCounts};

fn counts_of(input: &str, concurrency: usize) -> CharCounts {
    let chars: Vec<char> = input.chars().collect();
    let chunks = split(&chars, concurrency);
    reduce(&chunks)
}

fn assert_same_counts(a: &CharCounts, b: &CharCounts) {
    assert_eq!(a.len(), b.len());
    for (key, count) in a.entries_vec() {
        assert_eq!(b.get(key), count);
    }
}

#[test]
fn empty_input_gives_empty_mapping() {
    let counts = counts_of("", 8);
    assert_eq!(counts.len(), 0);
    assert_eq!(counts.get('a'), 0);
}

#[test]
fn repeated_letter_single_chunk() {
    let counts = counts_of("aaaa", 1);
    assert_eq!(counts.get('a'), 4);
    assert_eq!(counts.len(), 1);
}

#[test]
fn case_folds_across_chunks() {
    let counts = counts_of("AaBb", 4);
    assert_eq!(counts.get('a'), 2);
    assert_eq!(counts.get('b'), 2);
    assert_eq!(counts.len(), 2);
}

#[test]
fn partition_invariance_on_large_input() {
    let sentence = "To be or Not to Be, that is the question. \
                    Said the guy named Hamlet before he set out to take revenge on his uncle.";
    let input = sentence.repeat(1024);
    let one = counts_of(&input, 1);
    let two = counts_of(&input, 2);
    let eight = counts_of(&input, 8);
    assert_same_counts(&one, &two);
    assert_same_counts(&one, &eight);
    assert_eq!(one.get('t'), 13 * 1024);
}

#[test]
fn frequency_in_string_filters_and_folds() {
    let counts = frequency_in_string(String::from("Ab1! a?B"));
    assert_eq!(counts.get('a'), 2);
    assert_eq!(counts.get('b'), 2);
    assert_eq!(counts.get('1'), 0);
    assert_eq!(counts.get('!'), 0);
    assert_eq!(counts.get('A'), 0);
    assert_eq!(counts.len(), 2);
}

#[test]
fn frequency_in_string_keeps_non_ascii_letters() {
    let counts = frequency_in_string(String::from("σΣλ λé"));
    // Only ASCII uppercase letters fold; Greek capital sigma stays itself.
    assert_eq!(counts.get('σ'), 1);
    assert_eq!(counts.get('Σ'), 1);
    assert_eq!(counts.get('λ'), 2);
    assert_eq!(counts.get('é'), 1);
    assert_eq!(counts.len(), 4);
}

#[test]
fn frequency_single_threaded_concatenates_lines() {
    let lines = vec![String::from("ab"), String::from("BA"), String::from("c")];
    let counts = frequency_single_threaded(&lines);
    assert_eq!(counts.get('a'), 2);
    assert_eq!(counts.get('b'), 2);
    assert_eq!(counts.get('c'), 1);
    assert_eq!(counts.len(), 3);
}

#[test]
fn split_concatenation_reproduces_input() {
    let chars: Vec<char> = "héllo wörld".chars().collect();
    let chunks = split(&chars, 4);
    assert!(chunks.len() >= 1);
    assert!(chunks.len() <= 4);
    let rebuilt: Vec<char> = chunks.into_iter().flatten().collect();
    assert_eq!(rebuilt, chars);
}

#[test]
fn split_empty_input_yields_one_empty_chunk() {
    let chars: Vec<char> = Vec::new();
    let chunks = split(&chars, 8);
    assert_eq!(chunks.len(), 1);
    assert!(chunks[0].is_empty());
}

#[test]
fn split_treats_zero_concurrency_as_one() {
    let chars: Vec<char> = "abcdef".chars().collect();
    let chunks = split(&chars, 0);
    assert_eq!(chunks.len(), 1);
    assert_eq!(chunks[0], chars);
}

#[test]
fn to_lower_folds_only_ascii_uppercase() {
    assert_eq!(freqpool::to_lower('A'), 'a');
    assert_eq!(freqpool::to_lower('Z'), 'z');
    assert_eq!(freqpool::to_lower('a'), 'a');
    assert_eq!(freqpool::to_lower('Σ'), 'Σ');
    assert_eq!(freqpool::to_lower('['), '[');
    assert_eq!(freqpool::to_lower('7'), '7');
}

#[test]
fn multibyte_letters_survive_chunking() {
    let counts = counts_of("σλσλσσ", 3);
    assert_eq!(counts.get('σ'), 4);
    assert_eq!(counts.get('λ'), 2);
    assert_eq!(counts.len(), 2);
}

#[test]
fn more_workers_than_characters() {
    let chars: Vec<char> = "ab".chars().collect();
    let chunks = split(&chars, 8);
    assert!(chunks.len() >= 1);
    assert!(chunks.len() <= 8);
    let counts = counts_of("ab", 8);
    assert_eq!(counts.get('a'), 1);
    assert_eq!(counts.get('b'), 1);
}
