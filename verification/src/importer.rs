//! Result shapes the markdown import reports back to the caller.

use vstd::prelude::*;

verus! {

/// One imported question, as reported.
#[derive(Clone, Debug, PartialEq)]
pub struct QuestionImportDetail {
    pub question_id: String,
    pub question_number: i32,
    pub question: String,
}

/// One imported topic with its questions, as reported.
#[derive(Clone, Debug, PartialEq)]
pub struct TopicImportDetail {
    pub topic_id: String,
    pub topic_name: String,
    pub questions_count: usize,
    pub questions: Vec<QuestionImportDetail>,
}

/// Outcome of importing a markdown document.
#[derive(Clone, Debug, PartialEq)]
pub struct MarkdownImportResult {
    pub success: bool,
    pub topics_imported: usize,
    pub questions_imported: usize,
    pub message: String,
    pub errors: Vec<String>,
    pub topics_details: Vec<TopicImportDetail>,
}

} // verus!
