use text_analyzer::{Operation, ProcessError, TextProcessor};

#[test]
fn test_remove_punkt() {
    let text = "Dog, can ! bark.;".to_string();
    let exp = "dog can bark".to_string();
    let res = TextProcessor::new()
        .pipe(Operation::RemovePunkt)
        .pipe(Operation::TrimSpaces)
        .pipe(Operation::Lowercase)
        .process(text)
        .unwrap();
    assert_eq!(res, exp);
}

#[test]
fn test_ngrams() {
    let text = "a dog can bark".to_string();
    let exp = "a dog; dog can; can bark";
    let res = TextProcessor::new()
        .pipe(Operation::NGrams("; ".to_string(), 2))
        .process(text)
        .unwrap();
    assert_eq!(res, exp);
}

fn run_one(op: Operation, text: &str) -> String {
    TextProcessor::new()
        .pipe(op)
        .process(text.to_string())
        .unwrap()
}

#[test]
fn empty_pipeline_returns_input() {
    let res = TextProcessor::new().process("Dog, can !".to_string()).unwrap();
    assert_eq!(res, "Dog, can !");
}

#[test]
fn trim_spaces_normalizes() {
    let res = run_one(Operation::TrimSpaces, "  a\t\tdog \n barks \r\n");
    assert_eq!(res, "a dog barks");
}

#[test]
fn trim_spaces_idempotent_example() {
    let once = run_one(Operation::TrimSpaces, "  a\t b\n c  ");
    let twice = run_one(Operation::TrimSpaces, &once);
    assert_eq!(once, twice);
    assert_eq!(once, "a b c");
}

#[test]
fn trim_spaces_all_whitespace() {
    assert_eq!(run_one(Operation::TrimSpaces, " \t\n  "), "");
}

#[test]
fn lowercase_maps() {
    assert_eq!(run_one(Operation::Lowercase, "DoG BaRKs"), "dog barks");
}

#[test]
fn lowercase_idempotent_example() {
    let once = run_one(Operation::Lowercase, "MiXeD CaSe");
    let twice = run_one(Operation::Lowercase, &once);
    assert_eq!(once, twice);
    assert_eq!(once, "mixed case");
}

#[test]
fn remove_punkt_exact() {
    assert_eq!(run_one(Operation::RemovePunkt, "a-b_c;d,e."), "abcde");
}

#[test]
fn remove_punkt_keeps_non_ascii() {
    assert_eq!(run_one(Operation::RemovePunkt, "héllo, wörld!"), "héllo wörld");
}

#[test]
fn remove_punkt_idempotent_example() {
    let once = run_one(Operation::RemovePunkt, "a!b?c.");
    let twice = run_one(Operation::RemovePunkt, &once);
    assert_eq!(once, twice);
    assert_eq!(once, "abc");
}

#[test]
fn ngrams_window_exceeds_word_count() {
    let res = run_one(Operation::NGrams("; ".to_string(), 5), "a dog barks");
    assert_eq!(res, "");
}

#[test]
fn ngrams_window_equals_word_count() {
    let res = run_one(Operation::NGrams("; ".to_string(), 3), "a dog barks");
    assert_eq!(res, "a dog barks");
}

#[test]
fn ngrams_of_one() {
    let res = run_one(Operation::NGrams(",".to_string(), 1), "a  dog barks");
    assert_eq!(res, "a,dog,barks");
}

#[test]
fn ngrams_zero_window_is_rejected() {
    let res = TextProcessor::new()
        .pipe(Operation::NGrams(",".to_string(), 0))
        .process("a dog".to_string());
    assert_eq!(res, Err(ProcessError::InvalidNGramSize));
}

#[test]
fn ngrams_zero_window_rejected_even_later_in_pipeline() {
    let res = TextProcessor::new()
        .pipe(Operation::TrimSpaces)
        .pipe(Operation::NGrams(",".to_string(), 0))
        .process("a dog".to_string());
    assert_eq!(res, Err(ProcessError::InvalidNGramSize));
}

#[test]
fn every_operation_keeps_empty_input_empty() {
    assert_eq!(run_one(Operation::RemovePunkt, ""), "");
    assert_eq!(run_one(Operation::TrimSpaces, ""), "");
    assert_eq!(run_one(Operation::Lowercase, ""), "");
    assert_eq!(run_one(Operation::NGrams("; ".to_string(), 2), ""), "");
}

#[test]
fn appended_pipeline_composes() {
    let text = "The DOG, barks!".to_string();
    let combined = TextProcessor::new()
        .pipe(Operation::RemovePunkt)
        .pipe(Operation::Lowercase)
        .process(text.clone())
        .unwrap();
    let first = run_one(Operation::RemovePunkt, &text);
    let second = run_one(Operation::Lowercase, &first);
    assert_eq!(combined, second);
}

#[test]
fn order_of_operations_matters() {
    let a = TextProcessor::new()
        .pipe(Operation::NGrams("  |  ".to_string(), 2))
        .pipe(Operation::TrimSpaces)
        .process("a dog barks".to_string())
        .unwrap();
    let b = TextProcessor::new()
        .pipe(Operation::TrimSpaces)
        .pipe(Operation::NGrams("  |  ".to_string(), 2))
        .process("a dog barks".to_string())
        .unwrap();
    assert_eq!(a, "a dog | dog barks");
    assert_eq!(b, "a dog  |  dog barks");
}
