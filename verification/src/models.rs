//! Domain models of the study database: topics, questions, progress
//! tracking, and quiz sessions, with their create/update payloads.

use vstd::prelude::*;

verus! {

use crate::ids::generate_id;
use crate::timefmt::now_rfc3339;

/// A topic: the ownership root of the content hierarchy.
#[derive(Clone, Debug, PartialEq)]
pub struct Topic {
    pub id: String,
    pub name: String,
    pub description: String,
    pub slug: String,
    pub icon: String,
    pub color: String,
    pub subtopics: Option<Vec<String>>,
    pub order: i32,
    pub created_at: String,
    pub updated_at: String,
}

/// Payload for creating a topic.
#[derive(Clone, Debug, PartialEq)]
pub struct CreateTopicDto {
    pub name: String,
    pub description: String,
    pub slug: String,
    pub icon: String,
    pub color: String,
    pub subtopics: Option<Vec<String>>,
    pub order: i32,
}

/// Payload for updating a topic; absent fields stay unchanged.
#[derive(Clone, Debug, PartialEq)]
pub struct UpdateTopicDto {
    pub name: Option<String>,
    pub description: Option<String>,
    pub slug: Option<String>,
    pub icon: Option<String>,
    pub color: Option<String>,
    pub subtopics: Option<Vec<String>>,
    pub order: Option<i32>,
}

/// A question's answer, as markdown text.
#[derive(Clone, Debug, PartialEq)]
pub struct Answer {
    pub markdown: String,
}

/// A question, owned by one topic.
#[derive(Clone, Debug, PartialEq)]
pub struct Question {
    pub id: String,
    pub topic_id: String,
    pub subtopic: Option<String>,
    pub question_number: i32,
    pub question: String,
    pub answer: Answer,
    pub tags: Vec<String>,
    pub difficulty: String,
    pub order: i32,
    pub created_at: String,
    pub updated_at: String,
}

/// Payload for creating a question.
#[derive(Clone, Debug, PartialEq)]
pub struct CreateQuestionDto {
    pub topic_id: String,
    pub subtopic: Option<String>,
    pub question_number: i32,
    pub question: String,
    pub answer: Answer,
    pub tags: Vec<String>,
    pub difficulty: String,
    pub order: i32,
}

/// Payload for updating a question; absent fields stay unchanged.
#[derive(Clone, Debug, PartialEq)]
pub struct UpdateQuestionDto {
    pub topic_id: Option<String>,
    pub subtopic: Option<String>,
    pub question_number: Option<i32>,
    pub question: Option<String>,
    pub answer: Option<Answer>,
    pub tags: Option<Vec<String>>,
    pub difficulty: Option<String>,
    pub order: Option<i32>,
}

/// How far a question has been studied.
#[derive(Clone, Copy, Debug, PartialEq, Eq, Structural)]
pub enum ProgressStatus {
    NotStudied,
    Studying,
    Mastered,
    NeedsReview,
}

impl Default for ProgressStatus {
    fn default() -> (r: Self)
        ensures
            r == ProgressStatus::NotStudied,
    {
        ProgressStatus::NotStudied
    }
}

impl ProgressStatus {
    /// The textual form this status is persisted under.
    pub fn name(&self) -> (r: &'static str)
        ensures
            r@ == self.spec_name(),
    {
        match self {
            ProgressStatus::NotStudied => "NotStudied",
            ProgressStatus::Studying => "Studying",
            ProgressStatus::Mastered => "Mastered",
            ProgressStatus::NeedsReview => "NeedsReview",
        }
    }

    /// Spec-level textual form.
    pub open spec fn spec_name(self) -> Seq<char> {
        match self {
            ProgressStatus::NotStudied => "NotStudied"@,
            ProgressStatus::Studying => "Studying"@,
            ProgressStatus::Mastered => "Mastered"@,
            ProgressStatus::NeedsReview => "NeedsReview"@,
        }
    }

    /// The closed decoder for persisted status text. An unknown value
    /// falls back to `NotStudied`, the documented default, instead of
    /// being misclassified silently.
    pub fn from_name(name: &String) -> (r: ProgressStatus)
        ensures
            r == Self::spec_from_name(name@),
    {
        if crate::str_eq(name, "Studying") {
            ProgressStatus::Studying
        } else if crate::str_eq(name, "Mastered") {
            ProgressStatus::Mastered
        } else if crate::str_eq(name, "NeedsReview") {
            ProgressStatus::NeedsReview
        } else {
            ProgressStatus::NotStudied
        }
    }

    /// Spec-level decoder, with the documented fallback.
    pub open spec fn spec_from_name(name: Seq<char>) -> ProgressStatus {
        if name == "Studying"@ {
            ProgressStatus::Studying
        } else if name == "Mastered"@ {
            ProgressStatus::Mastered
        } else if name == "NeedsReview"@ {
            ProgressStatus::NeedsReview
        } else {
            ProgressStatus::NotStudied
        }
    }
}

/// Per-question study progress.
#[derive(Clone, Debug, PartialEq)]
pub struct QuestionProgress {
    pub question_id: String,
    pub topic_id: String,
    pub status: ProgressStatus,
    pub confidence_level: i32,
    pub times_reviewed: i32,
    pub times_correct: i32,
    pub times_incorrect: i32,
    pub last_reviewed_at: Option<String>,
    pub next_review_at: Option<String>,
    pub created_at: String,
    pub updated_at: String,
}

impl QuestionProgress {
    /// A fresh progress entry: not studied, nothing counted yet.
    pub fn new(question_id: String, topic_id: String) -> (r: Self)
        ensures
            r.question_id@ == question_id@,
            r.topic_id@ == topic_id@,
            r.status == ProgressStatus::NotStudied,
            r.confidence_level == 0,
            r.times_reviewed == 0,
            r.times_correct == 0,
            r.times_incorrect == 0,
            r.last_reviewed_at is None,
            r.next_review_at is None,
            r.created_at@ == r.updated_at@,
    {
        let now = now_rfc3339();
        let now2 = now.clone();
        QuestionProgress {
            question_id,
            topic_id,
            status: ProgressStatus::NotStudied,
            confidence_level: 0,
            times_reviewed: 0,
            times_correct: 0,
            times_incorrect: 0,
            last_reviewed_at: None,
            next_review_at: None,
            created_at: now,
            updated_at: now2,
        }
    }
}

/// Payload for recording a study event on a question.
#[derive(Clone, Debug, PartialEq)]
pub struct UpdateProgressDto {
    pub status: Option<ProgressStatus>,
    pub confidence_level: Option<i32>,
    pub was_correct: Option<bool>,
}

/// How a quiz session picks its questions.
#[derive(Clone, Copy, Debug, PartialEq, Eq, Structural)]
pub enum QuizSessionType {
    Random,
    Sequential,
    QuickRefresher,
    TopicFocused,
    DifficultyFocused,
}

impl QuizSessionType {
    /// The textual form this session type is persisted under.
    pub fn name(&self) -> (r: &'static str)
        ensures
            r@ == self.spec_name(),
    {
        match self {
            QuizSessionType::Random => "Random",
            QuizSessionType::Sequential => "Sequential",
            QuizSessionType::QuickRefresher => "QuickRefresher",
            QuizSessionType::TopicFocused => "TopicFocused",
            QuizSessionType::DifficultyFocused => "DifficultyFocused",
        }
    }

    /// Spec-level textual form.
    pub open spec fn spec_name(self) -> Seq<char> {
        match self {
            QuizSessionType::Random => "Random"@,
            QuizSessionType::Sequential => "Sequential"@,
            QuizSessionType::QuickRefresher => "QuickRefresher"@,
            QuizSessionType::TopicFocused => "TopicFocused"@,
            QuizSessionType::DifficultyFocused => "DifficultyFocused"@,
        }
    }

    /// The closed decoder for persisted session-type text; unknown
    /// values fall back to `Random`, the documented default.
    pub fn from_name(name: &String) -> (r: QuizSessionType)
        ensures
            r == Self::spec_from_name(name@),
    {
        if crate::str_eq(name, "Sequential") {
            QuizSessionType::Sequential
        } else if crate::str_eq(name, "QuickRefresher") {
            QuizSessionType::QuickRefresher
        } else if crate::str_eq(name, "TopicFocused") {
            QuizSessionType::TopicFocused
        } else if crate::str_eq(name, "DifficultyFocused") {
            QuizSessionType::DifficultyFocused
        } else {
            QuizSessionType::Random
        }
    }

    /// Spec-level decoder, with the documented fallback.
    pub open spec fn spec_from_name(name: Seq<char>) -> QuizSessionType {
        if name == "Sequential"@ {
            QuizSessionType::Sequential
        } else if name == "QuickRefresher"@ {
            QuizSessionType::QuickRefresher
        } else if name == "TopicFocused"@ {
            QuizSessionType::TopicFocused
        } else if name == "DifficultyFocused"@ {
            QuizSessionType::DifficultyFocused
        } else {
            QuizSessionType::Random
        }
    }
}

/// One answered question within a quiz session.
#[derive(Clone, Debug, PartialEq)]
pub struct QuizResult {
    pub question_id: String,
    pub was_correct: bool,
    pub confidence_rating: i32,
    pub time_spent_seconds: Option<i32>,
    pub answered_at: String,
}

/// A quiz session over a chosen set of questions.
#[derive(Clone, Debug, PartialEq)]
pub struct QuizSession {
    pub id: String,
    pub session_type: QuizSessionType,
    pub topic_ids: Vec<String>,
    pub question_ids: Vec<String>,
    pub current_index: i32,
    pub started_at: String,
    pub completed_at: Option<String>,
    pub results: Vec<QuizResult>,
}

impl QuizSession {
    /// A fresh session over the given questions, started now, with a
    /// newly generated identifier.
    pub fn new(
        session_type: QuizSessionType,
        topic_ids: Vec<String>,
        question_ids: Vec<String>,
    ) -> (r: Self)
        ensures
            r.id@.len() == 36,
            r.session_type == session_type,
            r.topic_ids == topic_ids,
            r.question_ids == question_ids,
            r.current_index == 0,
            r.completed_at is None,
            r.results@.len() == 0,
    {
        QuizSession {
            id: generate_id(),
            session_type,
            topic_ids,
            question_ids,
            current_index: 0,
            started_at: now_rfc3339(),
            completed_at: None,
            results: Vec::new(),
        }
    }

    /// Whether the session has been completed.
    pub fn is_completed(&self) -> (r: bool)
        ensures
            r == (self.completed_at is Some),
    {
        self.completed_at.is_some()
    }
}

/// Payload for creating a quiz session.
#[derive(Clone, Debug, PartialEq)]
pub struct CreateQuizSessionDto {
    pub session_type: QuizSessionType,
    pub topic_ids: Option<Vec<String>>,
    pub difficulty: Option<String>,
    pub max_questions: Option<i32>,
}

/// The persisted container of all progress entries.
#[derive(Clone, Debug, PartialEq)]
pub struct ProgressContainer {
    pub version: String,
    pub progress: Vec<QuestionProgress>,
}

impl Default for ProgressContainer {
    fn default() -> (r: Self)
        ensures
            r.version@ == "2.1"@,
            r.progress@.len() == 0,
    {
        ProgressContainer { version: string_2_1(), progress: Vec::new() }
    }
}

/// The persisted index of quiz sessions, for lazy loading.
#[derive(Clone, Debug, PartialEq)]
pub struct QuizSessionsIndex {
    pub version: String,
    pub session_ids: Vec<String>,
    pub total_sessions: usize,
}

impl Default for QuizSessionsIndex {
    fn default() -> (r: Self)
        ensures
            r.version@ == "2.1"@,
            r.session_ids@.len() == 0,
            r.total_sessions == 0,
    {
        QuizSessionsIndex { version: string_2_1(), session_ids: Vec::new(), total_sessions: 0 }
    }
}

/// The persisted format version of the progress and session files.
fn string_2_1() -> (r: String)
    ensures
        r@ == "2.1"@,
{
    <String as vstd::string::StringExecFns>::from_str("2.1")
}


/// The clamped confidence scale.
pub open spec fn clamp_confidence(c: int) -> int {
    if c < 0 {
        0
    } else if c > 5 {
        5
    } else {
        c
    }
}

/// The spaced-repetition interval, in days, before a question is due
/// again: low confidence comes back tomorrow, medium in days, high in
/// weeks, stretching once it has been reviewed a few times.
pub open spec fn review_interval_days(confidence: int, times_reviewed: int) -> int {
    if 0 <= confidence <= 1 {
        1
    } else if 2 <= confidence <= 3 && 0 <= times_reviewed <= 2 {
        3
    } else if 2 <= confidence <= 3 {
        7
    } else if 4 <= confidence <= 5 && 0 <= times_reviewed <= 2 {
        14
    } else if 4 <= confidence <= 5 {
        30
    } else {
        7
    }
}

impl QuestionProgress {
    /// Records a study event: replaces the status and the (clamped)
    /// confidence where given, counts a quiz answer where given, and
    /// stamps the review times — the next review falling out of the
    /// spaced-repetition interval for the new confidence and count.
    pub fn apply_update(&mut self, dto: &UpdateProgressDto)
        requires
            old(self).times_reviewed < i32::MAX,
            old(self).times_correct < i32::MAX,
            old(self).times_incorrect < i32::MAX,
        ensures
            final(self).status == (match dto.status {
                Some(st) => st,
                None => old(self).status,
            }),
            final(self).confidence_level as int == (match dto.confidence_level {
                Some(c) => clamp_confidence(c as int),
                None => old(self).confidence_level as int,
            }),
            final(self).times_reviewed as int == old(self).times_reviewed as int + (
            if dto.was_correct is Some {
                1int
            } else {
                0int
            }),
            final(self).times_correct as int == old(self).times_correct as int + (
            if dto.was_correct == Some(true) {
                1int
            } else {
                0int
            }),
            final(self).times_incorrect as int == old(self).times_incorrect as int + (
            if dto.was_correct == Some(false) {
                1int
            } else {
                0int
            }),
            final(self).last_reviewed_at is Some,
            final(self).next_review_at is Some,
            final(self).question_id == old(self).question_id,
            final(self).topic_id == old(self).topic_id,
            final(self).created_at == old(self).created_at,
    {
        match dto.status {
            Some(st) => {
                self.status = st;
            }
            None => {}
        }
        match dto.confidence_level {
            Some(c) => {
                self.confidence_level = if c < 0 {
                    0
                } else if c > 5 {
                    5
                } else {
                    c
                };
            }
            None => {}
        }
        match dto.was_correct {
            Some(was_correct) => {
                self.times_reviewed = self.times_reviewed + 1;
                if was_correct {
                    self.times_correct = self.times_correct + 1;
                } else {
                    self.times_incorrect = self.times_incorrect + 1;
                }
            }
            None => {}
        }
        let now = now_rfc3339();
        self.last_reviewed_at = Some(now.clone());
        self.updated_at = now;
        let days = interval_days(self.confidence_level, self.times_reviewed);
        self.next_review_at = Some(now_plus_days_rfc3339(days));
    }
}

/// The spaced-repetition interval for the current confidence and
/// review count.
fn interval_days(confidence: i32, times_reviewed: i32) -> (r: i64)
    ensures
        r as int == review_interval_days(confidence as int, times_reviewed as int),
        1 <= r <= 30,
{
    if 0 <= confidence && confidence <= 1 {
        1
    } else if 2 <= confidence && confidence <= 3 && 0 <= times_reviewed && times_reviewed <= 2 {
        3
    } else if 2 <= confidence && confidence <= 3 {
        7
    } else if 4 <= confidence && confidence <= 5 && 0 <= times_reviewed && times_reviewed <= 2 {
        14
    } else if 4 <= confidence && confidence <= 5 {
        30
    } else {
        7
    }
}

/// Relies on chrono's `Utc::now`, `TimeDelta::days` and `to_rfc3339`:
/// the instant the given number of days from now, rendered as
/// RFC 3339. The result depends on the wall clock, so only its being
/// nonempty is promised. `TimeDelta::days` panics on a huge delta and
/// the addition panics on date overflow, so the admitted deltas are
/// kept small; a year of headroom covers every review interval.
#[verifier::external_body]
fn now_plus_days_rfc3339(days: i64) -> (r: String)
    requires
        0 <= days <= 365,
    ensures
        r@.len() > 0,
{
    (chrono::Utc::now() + chrono::Duration::days(days)).to_rfc3339()
}

impl QuizSession {
    /// Records one answered question: refused when the question is not
    /// part of the session or was already answered; otherwise the
    /// result is appended and the cursor advances past it.
    pub fn submit_result(&mut self, result: QuizResult) -> (r: Result<(), String>)
        requires
            old(self).results@.len() < i32::MAX,
        ensures
            ({
                let in_session = exists|i: int|
                    0 <= i < old(self).question_ids@.len() && (#[trigger] old(
                        self,
                    ).question_ids@[i])@ == result.question_id@;
                let answered = exists|i: int|
                    0 <= i < old(self).results@.len() && (#[trigger] old(
                        self,
                    ).results@[i]).question_id@ == result.question_id@;
                match r {
                    Ok(()) => {
                        &&& in_session
                        &&& !answered
                        &&& final(self).results@ =~= old(self).results@.push(result)
                        &&& final(self).current_index as int == old(self).results@.len() + 1
                        &&& final(self).completed_at == old(self).completed_at
                        &&& final(self).id == old(self).id
                    }
                    Err(_) => (!in_session || answered) && *final(self) == *old(self),
                }
            }),
    {
        let mut found = false;
        let mut i: usize = 0;
        while i < self.question_ids.len()
            invariant
                i <= self.question_ids@.len(),
                found == exists|j: int|
                    0 <= j < i && (#[trigger] self.question_ids@[j])@ == result.question_id@,
                self == old(self),
            decreases self.question_ids@.len() - i,
        {
            if self.question_ids[i].eq(&result.question_id) {
                found = true;
            }
            i = i + 1;
        }
        if !found {
            return Err(
                <String as vstd::string::StringExecFns>::from_str(
                    "question is not part of this quiz session",
                ),
            );
        }
        let mut answered = false;
        let mut j: usize = 0;
        while j < self.results.len()
            invariant
                j <= self.results@.len(),
                answered == exists|a: int|
                    0 <= a < j && (#[trigger] self.results@[a]).question_id@
                        == result.question_id@,
                self == old(self),
            decreases self.results@.len() - j,
        {
            if self.results[j].question_id.eq(&result.question_id) {
                answered = true;
            }
            j = j + 1;
        }
        if answered {
            return Err(
                <String as vstd::string::StringExecFns>::from_str(
                    "question has already been answered",
                ),
            );
        }
        self.results.push(result);
        let n = self.results.len();
        self.current_index = n as i32;
        Ok(())
    }

    /// Marks the session as completed now; a session already completed
    /// is refused.
    pub fn complete(&mut self) -> (r: Result<(), String>)
        ensures
            match r {
                Ok(()) => {
                    &&& old(self).completed_at is None
                    &&& final(self).completed_at is Some
                    &&& final(self).results == old(self).results
                    &&& final(self).current_index == old(self).current_index
                    &&& final(self).id == old(self).id
                    &&& final(self).question_ids == old(self).question_ids
                }
                Err(_) => old(self).completed_at is Some && *final(self) == *old(self),
            },
    {
        if self.completed_at.is_some() {
            return Err(
                <String as vstd::string::StringExecFns>::from_str(
                    "quiz session is already completed",
                ),
            );
        }
        self.completed_at = Some(now_rfc3339());
        Ok(())
    }
}


/// Whether a question other than the excluded one already carries the
/// number.
pub open spec fn q_number_taken(qs: Seq<Question>, n: int, exclude: Option<Seq<char>>) -> bool {
    exists|i: int|
        0 <= i < qs.len() && (#[trigger] qs[i]).question_number == n && (match exclude {
            Some(id) => qs[i].id@ != id,
            None => true,
        })
}

/// The largest question number in a topic, or zero in an empty one.
pub open spec fn max_q_number(qs: Seq<Question>) -> int
    decreases qs.len(),
{
    if qs.len() == 0 {
        0
    } else if qs.len() == 1 {
        qs[0].question_number as int
    } else if qs.last().question_number as int > max_q_number(qs.drop_last()) {
        qs.last().question_number as int
    } else {
        max_q_number(qs.drop_last())
    }
}

/// The number a question gets within a topic on creation: the
/// requested one if free, else one past the topic's largest.
pub fn resolve_question_number(questions: &Vec<Question>, requested: i32) -> (r: i32)
    requires
        forall|i: int| 0 <= i < questions@.len()
            ==> (#[trigger] questions@[i]).question_number < i32::MAX,
    ensures
        r as int == (if q_number_taken(questions@, requested as int, None) {
            max_q_number(questions@) + 1
        } else {
            requested as int
        }),
{
    let mut taken = false;
    let mut i: usize = 0;
    while i < questions.len()
        invariant
            i <= questions@.len(),
            taken == exists|j: int|
                0 <= j < i && (#[trigger] questions@[j]).question_number == requested,
        decreases questions@.len() - i,
    {
        if questions[i].question_number == requested {
            taken = true;
        }
        i = i + 1;
    }
    if !taken {
        return requested;
    }
    max_question_number(questions) + 1
}

/// The number a question gets when renumbered within a topic: the
/// requested one if no other question holds it, else one past the
/// topic's largest.
pub fn resolve_question_number_excluding(
    questions: &Vec<Question>,
    requested: i32,
    exclude: &String,
) -> (r: i32)
    requires
        forall|i: int| 0 <= i < questions@.len()
            ==> (#[trigger] questions@[i]).question_number < i32::MAX,
    ensures
        r as int == (if q_number_taken(questions@, requested as int, Some(exclude@)) {
            max_q_number(questions@) + 1
        } else {
            requested as int
        }),
{
    let mut taken = false;
    let mut i: usize = 0;
    while i < questions.len()
        invariant
            i <= questions@.len(),
            taken == exists|j: int|
                0 <= j < i && (#[trigger] questions@[j]).question_number == requested
                    && questions@[j].id@ != exclude@,
        decreases questions@.len() - i,
    {
        if questions[i].question_number == requested && !questions[i].id.eq(exclude) {
            taken = true;
        }
        i = i + 1;
    }
    if !taken {
        return requested;
    }
    max_question_number(questions) + 1
}

/// The largest question number in the topic, or zero when empty.
fn max_question_number(questions: &Vec<Question>) -> (r: i32)
    requires
        forall|i: int| 0 <= i < questions@.len()
            ==> (#[trigger] questions@[i]).question_number < i32::MAX,
    ensures
        r as int == max_q_number(questions@),
        r < i32::MAX,
{
    let mut max: i32 = 0;
    let mut j: usize = 0;
    proof {
        assert(questions@.take(0) =~= Seq::<Question>::empty());
    }
    while j < questions.len()
        invariant
            j <= questions@.len(),
            max as int == max_q_number(questions@.take(j as int)),
            max < i32::MAX || j == 0,
            forall|a: int| 0 <= a < questions@.len()
                ==> (#[trigger] questions@[a]).question_number < i32::MAX,
            j == 0 ==> max == 0,
        decreases questions@.len() - j,
    {
        proof {
            assert(questions@.take(j as int + 1).drop_last() =~= questions@.take(j as int));
            assert(questions@.take(j as int + 1).last() == questions@[j as int]);
        }
        if j == 0 {
            max = questions[0].question_number;
            proof {
                assert(questions@.take(1).len() == 1);
                assert(questions@.take(1)[0] == questions@[0]);
            }
        } else if questions[j].question_number > max {
            max = questions[j].question_number;
        }
        j = j + 1;
    }
    proof {
        assert(questions@.take(questions@.len() as int) =~= questions@);
    }
    max
}

} // verus!
