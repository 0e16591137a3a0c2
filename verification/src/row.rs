//! Typed rows of the local store.
//!
//! Every row, whatever its collection, carries the three
//! synchronization-control attributes beside its domain fields: a
//! monotonically increasing `revision`, a nullable `confirmed_at`
//! (null means dirty, i.e. not yet acknowledged by the remote), and a
//! soft-delete flag with its timestamp.

use vstd::prelude::*;

verus! {

use crate::Collection;

/// Domain fields of a topic row (the ownership root).
#[derive(Clone, Debug, PartialEq)]
pub struct TopicFields {
    pub name: String,
    pub description: Option<String>,
    pub slug: String,
    pub icon: Option<String>,
    pub color: Option<String>,
    pub subtopics: Option<String>,
    pub order_index: i64,
    pub created_at: String,
    pub updated_at: String,
}

/// Domain fields of a question row; `topic_id` references its owning
/// topic.
#[derive(Clone, Debug, PartialEq)]
pub struct QuestionFields {
    pub topic_id: String,
    pub subtopic: Option<String>,
    pub question_number: i64,
    pub question: String,
    pub answer: String,
    pub tags: Option<String>,
    pub difficulty: Option<String>,
    pub order_index: i64,
    pub created_at: String,
    pub updated_at: String,
}

/// Domain fields of a progress row, keyed by its question.
#[derive(Clone, Debug, PartialEq)]
pub struct ProgressFields {
    pub topic_id: String,
    pub status: String,
    pub confidence_level: i64,
    pub times_reviewed: i64,
    pub times_correct: i64,
    pub times_incorrect: i64,
    pub last_reviewed_at: Option<String>,
    pub next_review_at: Option<String>,
    pub created_at: String,
    pub updated_at: String,
}

/// Domain fields of a quiz-session row.
#[derive(Clone, Debug, PartialEq)]
pub struct SessionFields {
    pub session_type: String,
    pub topic_ids: Option<String>,
    pub question_ids: Option<String>,
    pub current_index: i64,
    pub started_at: String,
    pub completed_at: Option<String>,
    pub results: Option<String>,
}

/// The domain fields of a row, tagged by its collection.
#[derive(Clone, Debug, PartialEq)]
pub enum Fields {
    Topic(TopicFields),
    Question(QuestionFields),
    Progress(ProgressFields),
    Session(SessionFields),
}

/// Spec view of an optional string.
pub open spec fn ostr(o: Option<String>) -> Option<Seq<char>> {
    match o {
        Some(s) => Some(s@),
        None => None,
    }
}

/// Spec view of an optional 64-bit integer.
pub open spec fn oint(o: Option<i64>) -> Option<int> {
    match o {
        Some(n) => Some(n as int),
        None => None,
    }
}

/// Spec-level topic fields.
pub struct TopicFieldsV {
    pub name: Seq<char>,
    pub description: Option<Seq<char>>,
    pub slug: Seq<char>,
    pub icon: Option<Seq<char>>,
    pub color: Option<Seq<char>>,
    pub subtopics: Option<Seq<char>>,
    pub order_index: int,
    pub created_at: Seq<char>,
    pub updated_at: Seq<char>,
}

/// Spec-level question fields.
pub struct QuestionFieldsV {
    pub topic_id: Seq<char>,
    pub subtopic: Option<Seq<char>>,
    pub question_number: int,
    pub question: Seq<char>,
    pub answer: Seq<char>,
    pub tags: Option<Seq<char>>,
    pub difficulty: Option<Seq<char>>,
    pub order_index: int,
    pub created_at: Seq<char>,
    pub updated_at: Seq<char>,
}

/// Spec-level progress fields.
pub struct ProgressFieldsV {
    pub topic_id: Seq<char>,
    pub status: Seq<char>,
    pub confidence_level: int,
    pub times_reviewed: int,
    pub times_correct: int,
    pub times_incorrect: int,
    pub last_reviewed_at: Option<Seq<char>>,
    pub next_review_at: Option<Seq<char>>,
    pub created_at: Seq<char>,
    pub updated_at: Seq<char>,
}

/// Spec-level session fields.
pub struct SessionFieldsV {
    pub session_type: Seq<char>,
    pub topic_ids: Option<Seq<char>>,
    pub question_ids: Option<Seq<char>>,
    pub current_index: int,
    pub started_at: Seq<char>,
    pub completed_at: Option<Seq<char>>,
    pub results: Option<Seq<char>>,
}

/// Spec-level tagged fields.
pub enum FieldsV {
    Topic(TopicFieldsV),
    Question(QuestionFieldsV),
    Progress(ProgressFieldsV),
    Session(SessionFieldsV),
}

impl View for TopicFields {
    type V = TopicFieldsV;

    open spec fn view(&self) -> TopicFieldsV {
        TopicFieldsV {
            name: self.name@,
            description: ostr(self.description),
            slug: self.slug@,
            icon: ostr(self.icon),
            color: ostr(self.color),
            subtopics: ostr(self.subtopics),
            order_index: self.order_index as int,
            created_at: self.created_at@,
            updated_at: self.updated_at@,
        }
    }
}

impl View for QuestionFields {
    type V = QuestionFieldsV;

    open spec fn view(&self) -> QuestionFieldsV {
        QuestionFieldsV {
            topic_id: self.topic_id@,
            subtopic: ostr(self.subtopic),
            question_number: self.question_number as int,
            question: self.question@,
            answer: self.answer@,
            tags: ostr(self.tags),
            difficulty: ostr(self.difficulty),
            order_index: self.order_index as int,
            created_at: self.created_at@,
            updated_at: self.updated_at@,
        }
    }
}

impl View for ProgressFields {
    type V = ProgressFieldsV;

    open spec fn view(&self) -> ProgressFieldsV {
        ProgressFieldsV {
            topic_id: self.topic_id@,
            status: self.status@,
            confidence_level: self.confidence_level as int,
            times_reviewed: self.times_reviewed as int,
            times_correct: self.times_correct as int,
            times_incorrect: self.times_incorrect as int,
            last_reviewed_at: ostr(self.last_reviewed_at),
            next_review_at: ostr(self.next_review_at),
            created_at: self.created_at@,
            updated_at: self.updated_at@,
        }
    }
}

impl View for SessionFields {
    type V = SessionFieldsV;

    open spec fn view(&self) -> SessionFieldsV {
        SessionFieldsV {
            session_type: self.session_type@,
            topic_ids: ostr(self.topic_ids),
            question_ids: ostr(self.question_ids),
            current_index: self.current_index as int,
            started_at: self.started_at@,
            completed_at: ostr(self.completed_at),
            results: ostr(self.results),
        }
    }
}

impl View for Fields {
    type V = FieldsV;

    open spec fn view(&self) -> FieldsV {
        match self {
            Fields::Topic(f) => FieldsV::Topic(f@),
            Fields::Question(f) => FieldsV::Question(f@),
            Fields::Progress(f) => FieldsV::Progress(f@),
            Fields::Session(f) => FieldsV::Session(f@),
        }
    }
}

impl Fields {
    /// The collection these fields belong to.
    pub fn collection(&self) -> (c: Collection)
        ensures
            c == self@.collection(),
    {
        match self {
            Fields::Topic(_) => Collection::Topics,
            Fields::Question(_) => Collection::Questions,
            Fields::Progress(_) => Collection::Progress,
            Fields::Session(_) => Collection::QuizSessions,
        }
    }
}

impl FieldsV {
    /// The collection a set of fields belongs to.
    pub open spec fn collection(self) -> Collection {
        match self {
            FieldsV::Topic(_) => Collection::Topics,
            FieldsV::Question(_) => Collection::Questions,
            FieldsV::Progress(_) => Collection::Progress,
            FieldsV::Session(_) => Collection::QuizSessions,
        }
    }

    /// The owning topic key named by the fields, where the collection
    /// has one.
    pub open spec fn topic_id(self) -> Option<Seq<char>> {
        match self {
            FieldsV::Topic(_) => None,
            FieldsV::Question(f) => Some(f.topic_id),
            FieldsV::Progress(f) => Some(f.topic_id),
            FieldsV::Session(_) => None,
        }
    }
}

/// One row of the local store: a primary key, domain fields, and the
/// three synchronization-control attributes.
#[derive(Clone, Debug, PartialEq)]
pub struct Row {
    pub key: String,
    pub fields: Fields,
    pub revision: i64,
    pub confirmed_at: Option<i64>,
    pub deleted: bool,
    pub deleted_at: Option<i64>,
}

/// Spec-level row.
pub struct RowV {
    pub key: Seq<char>,
    pub fields: FieldsV,
    pub revision: int,
    pub confirmed_at: Option<int>,
    pub deleted: bool,
    pub deleted_at: Option<int>,
}

impl View for Row {
    type V = RowV;

    open spec fn view(&self) -> RowV {
        RowV {
            key: self.key@,
            fields: self.fields@,
            revision: self.revision as int,
            confirmed_at: oint(self.confirmed_at),
            deleted: self.deleted,
            deleted_at: oint(self.deleted_at),
        }
    }
}

impl RowV {
    /// A row is dirty exactly when it has never been confirmed as
    /// synchronized; dirtiness is the sole criterion for pushing.
    pub open spec fn dirty(self) -> bool {
        self.confirmed_at is None
    }
}

} // verus!
