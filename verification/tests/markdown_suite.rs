use qm_core::markdown::{
    extract_question_number, finalize_question, parse_markdown_file, remove_question_number_prefix,
    ParsedAnswer, ParsedQuestion,
};

#[test]
fn test_extract_question_number() {
    assert_eq!(extract_question_number("1. What is this?"), Some(1));
    assert_eq!(extract_question_number("10. Another question?"), Some(10));
    assert_eq!(extract_question_number("No number here"), None);
}

#[test]
fn test_remove_question_number_prefix() {
    assert_eq!(
        remove_question_number_prefix("1. What is this?"),
        "What is this?"
    );
    assert_eq!(
        remove_question_number_prefix("10. Another question?"),
        "Another question?"
    );
}

#[test]
fn extract_question_number_rejects_overflow() {
    assert_eq!(extract_question_number("2147483647. max"), Some(2147483647));
    assert_eq!(extract_question_number("2147483648. too big"), None);
    assert_eq!(extract_question_number("7 no dot"), None);
}

#[test]
fn finalize_question_trims_answer() {
    let q = ParsedQuestion {
        question_number: 1,
        question: "Q".to_string(),
        answer: ParsedAnswer { markdown: String::new() },
    };
    let done = finalize_question(Some(q), "  body \n").unwrap();
    assert_eq!(done.answer.markdown, "body");
    assert!(finalize_question(None, "anything").is_none());
}

#[test]
fn parse_markdown_document() {
    let content = "\
## Topic One

### 1. First question?
**Answer:**
Line one.
Line two.

---

### 2. Second question?
**Answer:**
Only line.

## Topic Two

### 1. Other question?
**Answer:**
Other answer.
";
    let topics = parse_markdown_file(content).unwrap();
    assert_eq!(topics.len(), 2);
    assert_eq!(topics[0].name, "Topic One");
    assert_eq!(topics[0].questions.len(), 2);
    assert_eq!(topics[0].questions[0].question_number, 1);
    assert_eq!(topics[0].questions[0].question, "First question?");
    assert_eq!(topics[0].questions[0].answer.markdown, "Line one.\nLine two.");
    assert_eq!(topics[0].questions[1].question, "Second question?");
    assert_eq!(topics[0].questions[1].answer.markdown, "Only line.");
    assert_eq!(topics[1].name, "Topic Two");
    assert_eq!(topics[1].questions.len(), 1);
    assert_eq!(topics[1].questions[0].answer.markdown, "Other answer.");
}

#[test]
fn parse_markdown_skips_unnumbered_headings() {
    let content = "## T\n### not numbered\n### 3. Real?\n**Answer:**\nYes.\n";
    let topics = parse_markdown_file(content).unwrap();
    assert_eq!(topics.len(), 1);
    assert_eq!(topics[0].questions.len(), 1);
    assert_eq!(topics[0].questions[0].question_number, 3);
    assert_eq!(topics[0].questions[0].question, "Real?");
    assert_eq!(topics[0].questions[0].answer.markdown, "Yes.");
}

#[test]
fn parse_markdown_handles_crlf_and_empty() {
    assert!(parse_markdown_file("").unwrap().is_empty());
    let topics = parse_markdown_file("## A\r\n### 1. Q?\r\n**Answer:**\r\nB.\r\n").unwrap();
    assert_eq!(topics.len(), 1);
    assert_eq!(topics[0].name, "A");
    assert_eq!(topics[0].questions[0].answer.markdown, "B.");
}
