use wordfreq::counter::count;
use wordfreq::tokenizer::tokenize;

#[test]
fn hello_world_wonderful_counts() {
    let table = count("hello world wonderful world");
    assert_eq!(table.len(), 3);
    assert_eq!(table.get("hello"), 1);
    assert_eq!(table.get("world"), 2);
    assert_eq!(table.get("wonderful"), 1);
}

#[test]
fn repeated_single_token() {
    let table = count("a a a");
    assert_eq!(table.len(), 1);
    assert_eq!(table.get("a"), 3);
}

#[test]
fn whitespace_only_is_empty() {
    let table = count("  ");
    assert_eq!(table.len(), 0);
}

#[test]
fn empty_input_is_empty() {
    let table = count("");
    assert_eq!(table.len(), 0);
}

#[test]
fn absent_token_counts_zero() {
    let table = count("hello world");
    assert_eq!(table.get("missing"), 0);
}

#[test]
fn counts_sum_to_token_total() {
    let text = "the quick brown fox jumps over the lazy dog the end";
    let toks = tokenize(text);
    let table = count(text);
    let mut sum: u64 = 0;
    for i in 0..table.len() {
        sum += table.count_at(i);
    }
    assert_eq!(sum, toks.len() as u64);
}

#[test]
fn keys_are_exactly_the_tokens() {
    let text = "b a b c a b";
    let toks = tokenize(text);
    let table = count(text);
    for i in 0..table.len() {
        let key = table.key_at(i);
        assert!(toks.iter().any(|t| t == key));
    }
    for t in toks.iter() {
        let mut found = false;
        for i in 0..table.len() {
            if table.key_at(i) == t.as_str() {
                assert!(!found);
                found = true;
            }
        }
        assert!(found);
    }
}

#[test]
fn recounting_gives_identical_table() {
    let text = "to be or not to be";
    let first = count(text);
    let second = count(text);
    assert_eq!(first.len(), second.len());
    for i in 0..first.len() {
        assert_eq!(first.key_at(i), second.key_at(i));
        assert_eq!(first.count_at(i), second.count_at(i));
    }
}

#[test]
fn first_seen_order_is_kept() {
    let table = count("b a b c a b");
    assert_eq!(table.key_at(0), "b");
    assert_eq!(table.key_at(1), "a");
    assert_eq!(table.key_at(2), "c");
    assert_eq!(table.count_at(0), 3);
    assert_eq!(table.count_at(1), 2);
    assert_eq!(table.count_at(2), 1);
}

#[test]
fn mixed_whitespace_separates_tokens() {
    let table = count("one\ttwo\nthree\r\nfour  five\tone");
    assert_eq!(table.len(), 5);
    assert_eq!(table.get("one"), 2);
    assert_eq!(table.get("two"), 1);
    assert_eq!(table.get("three"), 1);
    assert_eq!(table.get("four"), 1);
    assert_eq!(table.get("five"), 1);
}

#[test]
fn no_normalization_of_tokens() {
    let table = count("Apple apple apple, apple");
    assert_eq!(table.get("Apple"), 1);
    assert_eq!(table.get("apple"), 2);
    assert_eq!(table.get("apple,"), 1);
}

#[test]
fn tokenize_splits_on_whitespace_runs() {
    let toks = tokenize("  hello \t world  ");
    assert_eq!(toks.len(), 2);
    assert_eq!(toks[0], "hello");
    assert_eq!(toks[1], "world");
}

#[test]
fn tokenize_empty_and_blank() {
    assert_eq!(tokenize("").len(), 0);
    assert_eq!(tokenize(" \t\n\r").len(), 0);
}

#[test]
fn tokenize_keeps_order_and_repeats() {
    let toks = tokenize("hello world wonderful world");
    assert_eq!(toks.len(), 4);
    assert_eq!(toks[0], "hello");
    assert_eq!(toks[1], "world");
    assert_eq!(toks[2], "wonderful");
    assert_eq!(toks[3], "world");
}
