//! Quiz question selection: given the candidate questions the caller
//! gathered (each with its study progress), picks and orders the
//! question ids a new session will ask.

use rand::seq::SliceRandom;
use vstd::prelude::*;

verus! {

use vstd::multiset::Multiset;

use crate::models::{CreateQuizSessionDto, ProgressStatus, Question, QuestionProgress,
    QuizSessionType};

/// One candidate question with its study progress.
#[derive(Clone, Debug, PartialEq)]
pub struct QuizCandidate {
    pub question: Question,
    pub progress: QuestionProgress,
}

/// The candidates' question ids, in order.
pub open spec fn cand_ids(cs: Seq<QuizCandidate>) -> Seq<Seq<char>> {
    cs.map_values(|c: QuizCandidate| c.question.id@)
}

/// The id contents of an id list.
pub open spec fn ids_view(v: Seq<String>) -> Seq<Seq<char>> {
    v.map_values(|s: String| s@)
}

/// Candidates ordered by their question's display order, ascending.
pub open spec fn sorted_by_order(cs: Seq<QuizCandidate>) -> bool {
    forall|i: int, j: int|
        0 <= i < j < cs.len() ==> cs[i].question.order <= cs[j].question.order
}

/// Whether a candidate's question is mastered.
pub open spec fn is_mastered(c: QuizCandidate) -> bool {
    c.progress.status == ProgressStatus::Mastered
}

/// The ids of the mastered candidates, in order.
pub open spec fn mastered_ids(cs: Seq<QuizCandidate>) -> Seq<Seq<char>> {
    cand_ids(cs.filter(|c: QuizCandidate| is_mastered(c)))
}

/// Relies on rand's `SliceRandom::shuffle`, driven by `rand::rng`:
/// it permutes the ids in place. Which permutation comes out is
/// random, so nothing beyond multiset preservation is promised, and
/// two calls on equal input may disagree.
#[verifier::external_body]
fn shuffle_ids(v: &mut Vec<String>)
    ensures
        ids_view(final(v)@).to_multiset() == ids_view(old(v)@).to_multiset(),
{
    let mut rng = rand::rng();
    v.shuffle(&mut rng);
}

/// Copies the candidates' ids out, in order.
fn ids_of(cands: &Vec<QuizCandidate>) -> (r: Vec<String>)
    ensures
        ids_view(r@) =~= cand_ids(cands@),
{
    let mut r: Vec<String> = Vec::new();
    let mut i: usize = 0;
    while i < cands.len()
        invariant
            i <= cands@.len(),
            r@.len() == i,
            forall|j: int| 0 <= j < i ==> (#[trigger] r@[j])@ == cands@[j].question.id@,
        decreases cands@.len() - i,
    {
        r.push(cands[i].question.id.clone());
        i = i + 1;
    }
    r
}

/// Random selection: every candidate once, in an order the generator
/// picks.
pub fn select_random(cands: &Vec<QuizCandidate>) -> (r: Vec<String>)
    ensures
        ids_view(r@).to_multiset() == cand_ids(cands@).to_multiset(),
{
    let mut ids = ids_of(cands);
    shuffle_ids(&mut ids);
    ids
}

/// Sequential selection: every candidate once, by question order
/// ascending.
pub fn select_sequential(cands: Vec<QuizCandidate>) -> (r: Vec<String>)
    ensures
        exists|perm: Seq<QuizCandidate>|
            #[trigger] perm.to_multiset() == cands@.to_multiset() && sorted_by_order(perm)
                && ids_view(r@) =~= cand_ids(perm),
{
    let sorted = sort_candidates(cands);
    let ids = ids_of(&sorted);
    proof {
        assert(sorted@.to_multiset() == cands@.to_multiset() && sorted_by_order(sorted@)
            && ids_view(ids@) =~= cand_ids(sorted@));
    }
    ids
}

/// Quick refresher: only the mastered candidates, in a random order;
/// refused when none is mastered.
pub fn select_quick_refresher(cands: &Vec<QuizCandidate>) -> (r: Result<Vec<String>, String>)
    ensures
        match r {
            Ok(ids) => ids_view(ids@).to_multiset() == mastered_ids(cands@).to_multiset(),
            Err(_) => forall|i: int| 0 <= i < cands@.len() ==> !is_mastered(#[trigger] cands@[i]),
        },
{
    let mut ids: Vec<String> = Vec::new();
    let mut i: usize = 0;
    proof {
        assert(cands@.take(0) =~= Seq::<QuizCandidate>::empty());
        reveal(Seq::filter);
        assert(ids_view(ids@) =~= mastered_ids(cands@.take(0)));
    }
    while i < cands.len()
        invariant
            i <= cands@.len(),
            ids_view(ids@) =~= mastered_ids(cands@.take(i as int)),
            forall|j: int| 0 <= j < i ==> (ids@.len() == 0 ==> !is_mastered(#[trigger] cands@[j])),
        decreases cands@.len() - i,
    {
        proof {
            assert(cands@.take(i as int + 1) =~= cands@.take(i as int).push(cands@[i as int]));
            crate::store::lemma_filter_push(
                cands@.take(i as int),
                cands@[i as int],
                |c: QuizCandidate| is_mastered(c),
            );
            crate::collect::lemma_map_push(
                cands@.take(i as int).filter(|c: QuizCandidate| is_mastered(c)),
                |c: QuizCandidate| c.question.id@,
                cands@[i as int],
            );
        }
        let m = match cands[i].progress.status {
            ProgressStatus::Mastered => true,
            _ => false,
        };
        if m {
            ids.push(cands[i].question.id.clone());
            proof {
                assert(ids@ =~= ids@.drop_last().push(ids@.last()));
                crate::collect::lemma_map_push(ids@.drop_last(), |s: String| s@, ids@.last());
            }
        }
        i = i + 1;
    }
    proof {
        assert(cands@.take(cands@.len() as int) =~= cands@);
    }
    if ids.len() == 0 {
        return Err(
            <String as vstd::string::StringExecFns>::from_str(
                "No mastered questions available for quick refresher",
            ),
        );
    }
    shuffle_ids(&mut ids);
    Ok(ids)
}

/// Sorts candidates by question order ascending, extracting a minimal
/// remaining candidate at a time.
fn sort_candidates(cands: Vec<QuizCandidate>) -> (r: Vec<QuizCandidate>)
    ensures
        r@.to_multiset() == cands@.to_multiset(),
        sorted_by_order(r@),
{
    broadcast use vstd::seq_lib::group_to_multiset_ensures;

    let mut rest = cands;
    let mut out: Vec<QuizCandidate> = Vec::new();
    proof {
        assert(out@.to_multiset().add(rest@.to_multiset()) =~= rest@.to_multiset());
    }
    while rest.len() > 0
        invariant
            out@.to_multiset().add(rest@.to_multiset()) =~= cands@.to_multiset(),
            sorted_by_order(out@),
            forall|a: int, b: int|
                0 <= a < out@.len() && 0 <= b < rest@.len()
                    ==> (#[trigger] out@[a]).question.order <= (#[trigger] rest@[b]).question.order,
        decreases rest@.len(),
    {
        broadcast use vstd::seq_lib::group_to_multiset_ensures;

        let mut min: usize = 0;
        let mut j: usize = 1;
        while j < rest.len()
            invariant
                min < j <= rest@.len() || (j <= rest@.len() && min == 0),
                min < rest@.len(),
                rest@.len() > 0,
                forall|a: int| 0 <= a < j
                    ==> rest@[min as int].question.order <= (#[trigger] rest@[a]).question.order,
            decreases rest@.len() - j,
        {
            if rest[j].question.order < rest[min].question.order {
                min = j;
            }
            j = j + 1;
        }
        let c = rest.remove(min);
        let ghost pre_out = out@;
        out.push(c);
        proof {
            assert(out@ =~= pre_out.push(out@.last()));
            assert(out@.to_multiset().add(rest@.to_multiset()) =~= cands@.to_multiset());
        }
    }
    proof {
        assert(rest@.to_multiset() =~= Multiset::<QuizCandidate>::empty());
        assert(out@.to_multiset() =~= cands@.to_multiset());
    }
    out
}

/// How many questions the session may ask: the caller's cap, or
/// everything when no cap (or a nonsensical negative one) was given.
pub open spec fn limit_of(max_questions: Option<i32>, available: int) -> int {
    match max_questions {
        Some(m) => if m < 0 {
            available
        } else if m <= available {
            m as int
        } else {
            available
        },
        None => available,
    }
}

/// Picks and orders the question ids for a new session: random order
/// for random, topic-focused and difficulty-focused sessions (those
/// are already filtered by the caller), question order for sequential
/// ones, and only mastered questions for a quick refresher. At most
/// `max_questions` ids are kept.
pub fn select_questions(dto: &CreateQuizSessionDto, cands: Vec<QuizCandidate>) -> (r: Result<
    Vec<String>,
    String,
>)
    ensures
        match r {
            Ok(ids) => exists|full: Seq<Seq<char>>|
                #[trigger] strategy_outcome(dto.session_type, cands@, full) && ids_view(ids@)
                    =~= full.take(limit_of(dto.max_questions, full.len() as int)),
            Err(_) => dto.session_type == QuizSessionType::QuickRefresher && (forall|i: int|
                0 <= i < cands@.len() ==> !is_mastered(#[trigger] cands@[i])),
        },
{
    let mut selected: Vec<String> = match dto.session_type {
        QuizSessionType::Random => select_random(&cands),
        QuizSessionType::TopicFocused => select_random(&cands),
        QuizSessionType::DifficultyFocused => select_random(&cands),
        QuizSessionType::Sequential => select_sequential(cands),
        QuizSessionType::QuickRefresher => {
            match select_quick_refresher(&cands) {
                Ok(ids) => ids,
                Err(e) => {
                    return Err(e);
                }
            }
        }
    };
    let ghost full = ids_view(selected@);
    let limit = match dto.max_questions {
        Some(m) => if m < 0 {
            selected.len()
        } else if (m as usize) <= selected.len() {
            m as usize
        } else {
            selected.len()
        },
        None => selected.len(),
    };
    proof {
        assert(strategy_outcome(dto.session_type, cands@, full));
    }
    selected.truncate(limit);
    proof {
        assert(ids_view(selected@) =~= full.take(limit_of(dto.max_questions, full.len() as int)));
    }
    Ok(selected)
}

/// What each strategy promises of the full (untruncated) id sequence.
pub open spec fn strategy_outcome(
    kind: QuizSessionType,
    cands: Seq<QuizCandidate>,
    full: Seq<Seq<char>>,
) -> bool {
    match kind {
        QuizSessionType::Sequential => exists|perm: Seq<QuizCandidate>|
            #[trigger] perm.to_multiset() == cands.to_multiset() && sorted_by_order(perm) && full
                =~= cand_ids(perm),
        QuizSessionType::QuickRefresher => full.to_multiset() == mastered_ids(cands).to_multiset(),
        _ => full.to_multiset() == cand_ids(cands).to_multiset(),
    }
}

} // verus!
