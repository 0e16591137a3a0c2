//! Rendering domain fields into wire payloads and reading them back.
//!
//! Encoding serializes every non-null field under its wire name; null
//! fields are omitted. Decoding validates the payload at the applier
//! boundary: a missing or non-text required text field is a typed
//! error naming the field; integer fields and the two status-like
//! enum-as-string fields fall back to their documented defaults; an
//! absent optional field stays null.

use vstd::prelude::*;

verus! {

use vstd::string::StringExecFns;

use crate::record::{lookup, EntryV, Payload, Value, ValueV};
use crate::row::{ostr, TopicFields, TopicFieldsV, QuestionFields, QuestionFieldsV,
    ProgressFields, ProgressFieldsV, SessionFields, SessionFieldsV};

/// The text value stored under a key, if the key holds text.
pub open spec fn text_of(p: Seq<EntryV>, k: Seq<char>) -> Option<Seq<char>> {
    match lookup(p, k) {
        Some(ValueV::Text(s)) => Some(s),
        _ => None,
    }
}

/// The integer stored under a key, defaulting to zero when the key is
/// absent or holds no integer.
pub open spec fn int_of(p: Seq<EntryV>, k: Seq<char>) -> int {
    match lookup(p, k) {
        Some(ValueV::Int(n)) => n,
        _ => 0,
    }
}

/// The text stored under a key, with a default for an absent value.
pub open spec fn text_or(p: Seq<EntryV>, k: Seq<char>, d: Seq<char>) -> Seq<char> {
    match text_of(p, k) {
        Some(s) => s,
        None => d,
    }
}

/// Splitting a lookup over concatenation: the earlier entries win.
pub proof fn lemma_lookup_concat(a: Seq<EntryV>, b: Seq<EntryV>, k: Seq<char>)
    ensures
        lookup(a + b, k) == (match lookup(a, k) {
            Some(v) => Some(v),
            None => lookup(b, k)
        }),
    decreases a.len(),
{
    if a.len() == 0 {
        assert(a + b =~= b);
    } else {
        assert((a + b).len() > 0);
        assert((a + b).first() == a.first());
        assert((a + b).drop_first() =~= a.drop_first() + b);
        lemma_lookup_concat(a.drop_first(), b, k);
    }
}

/// A singleton text entry.
pub open spec fn te(k: Seq<char>, v: Seq<char>) -> Seq<EntryV> {
    seq![EntryV { key: k, value: ValueV::Text(v) }]
}

/// A singleton integer entry.
pub open spec fn ie(k: Seq<char>, v: int) -> Seq<EntryV> {
    seq![EntryV { key: k, value: ValueV::Int(v) }]
}

/// An optional text entry: empty when the field is null.
pub open spec fn oe(k: Seq<char>, v: Option<Seq<char>>) -> Seq<EntryV> {
    match v {
        Some(s) => te(k, s),
        None => Seq::empty(),
    }
}

/// Looking a key up in a singleton text entry.
pub proof fn lemma_te_lookup(kk: Seq<char>, v: Seq<char>, k: Seq<char>)
    ensures
        lookup(te(kk, v), k) == (if kk == k {
            Some(ValueV::Text(v))
        } else {
            None::<ValueV>
        }),
{
    reveal_with_fuel(lookup, 3);
    assert(te(kk, v).first() == (EntryV { key: kk, value: ValueV::Text(v) }));
    assert(te(kk, v).drop_first() =~= Seq::<EntryV>::empty());
}

/// Looking a key up in a singleton integer entry.
pub proof fn lemma_ie_lookup(kk: Seq<char>, v: int, k: Seq<char>)
    ensures
        lookup(ie(kk, v), k) == (if kk == k {
            Some(ValueV::Int(v))
        } else {
            None::<ValueV>
        }),
{
    reveal_with_fuel(lookup, 3);
    assert(ie(kk, v).first() == (EntryV { key: kk, value: ValueV::Int(v) }));
    assert(ie(kk, v).drop_first() =~= Seq::<EntryV>::empty());
}

/// Looking a key up in an optional text entry.
pub proof fn lemma_oe_lookup(kk: Seq<char>, v: Option<Seq<char>>, k: Seq<char>)
    ensures
        lookup(oe(kk, v), k) == (if kk == k && v is Some {
            Some(ValueV::Text(v->Some_0))
        } else {
            None::<ValueV>
        }),
{
    reveal_with_fuel(lookup, 3);
    match v {
        Some(s) => {
            lemma_te_lookup(kk, s, k);
        }
        None => {}
    }
}

/// Finds the text value stored under a key, cloning it out of the
/// payload.
pub fn get_text(p: &Payload, k: &str) -> (r: Option<String>)
    ensures
        ostr(r) == text_of(p@, k@),
{
    let key = String::from_str(k);
    match p.get(&key) {
        Some(Value::Text(s)) => Some(s.clone()),
        _ => None,
    }
}

/// Finds the integer stored under a key, defaulting to zero.
pub fn get_int(p: &Payload, k: &str) -> (r: i64)
    ensures
        r as int == int_of(p@, k@),
{
    let key = String::from_str(k);
    match p.get(&key) {
        Some(Value::Int(n)) => *n,
        _ => 0,
    }
}

/// Finds the text stored under a key, with a default for an absent
/// value.
pub fn get_text_or(p: &Payload, k: &str, d: &str) -> (r: String)
    ensures
        r@ == text_or(p@, k@, d@),
{
    match get_text(p, k) {
        Some(s) => s,
        None => String::from_str(d),
    }
}

/// Clones an optional string field.
pub fn clone_opt(o: &Option<String>) -> (r: Option<String>)
    ensures
        ostr(r) == ostr(*o),
{
    match o {
        Some(s) => Some(s.clone()),
        None => None,
    }
}

/// The payload of a live topic row.
pub open spec fn enc_topic(f: TopicFieldsV) -> Seq<EntryV> {
    te("name"@, f.name) + (oe("description"@, f.description) + (te("slug"@, f.slug) + (oe("icon"@, f.icon) + (oe("color"@, f.color) + (oe("subtopics"@, f.subtopics) + (ie("orderIndex"@, f.order_index) + (te("createdAt"@, f.created_at) + (te("updatedAt"@, f.updated_at)))))))))
}

/// Reading back a live topic row's payload; the error names the first
/// missing required field.
pub open spec fn dec_topic(p: Seq<EntryV>) -> Result<TopicFieldsV, Seq<char>> {
    if text_of(p, "name"@) is None {
        Err("name"@)
    } else if text_of(p, "slug"@) is None {
        Err("slug"@)
    } else if text_of(p, "createdAt"@) is None {
        Err("createdAt"@)
    } else if text_of(p, "updatedAt"@) is None {
        Err("updatedAt"@)
    } else {
        Ok(TopicFieldsV {
            name: text_of(p, "name"@)->Some_0,
            description: text_of(p, "description"@),
            slug: text_of(p, "slug"@)->Some_0,
            icon: text_of(p, "icon"@),
            color: text_of(p, "color"@),
            subtopics: text_of(p, "subtopics"@),
            order_index: int_of(p, "orderIndex"@),
            created_at: text_of(p, "createdAt"@)->Some_0,
            updated_at: text_of(p, "updatedAt"@)->Some_0,
        })
    }
}

/// What was serialized is read back unchanged: the codec loses no
/// topic field.
pub proof fn lemma_topic_round_trip(f: TopicFieldsV)
    ensures
        dec_topic(enc_topic(f)) == Ok::<TopicFieldsV, Seq<char>>(f),
{
    broadcast use vstd::string::group_string_axioms;

    reveal_strlit("name");
    reveal_strlit("description");
    reveal_strlit("slug");
    reveal_strlit("icon");
    reveal_strlit("color");
    reveal_strlit("subtopics");
    reveal_strlit("orderIndex");
    reveal_strlit("createdAt");
    reveal_strlit("updatedAt");
    assert(("name"@).len() == 4);
    assert(("name"@)[0] == 'n');
    assert(("name"@)[1] == 'a');
    assert(("description"@).len() == 11);
    assert(("description"@)[0] == 'd');
    assert(("description"@)[1] == 'e');
    assert(("slug"@).len() == 4);
    assert(("slug"@)[0] == 's');
    assert(("slug"@)[1] == 'l');
    assert(("icon"@).len() == 4);
    assert(("icon"@)[0] == 'i');
    assert(("icon"@)[1] == 'c');
    assert(("color"@).len() == 5);
    assert(("color"@)[0] == 'c');
    assert(("color"@)[1] == 'o');
    assert(("subtopics"@).len() == 9);
    assert(("subtopics"@)[0] == 's');
    assert(("subtopics"@)[1] == 'u');
    assert(("orderIndex"@).len() == 10);
    assert(("orderIndex"@)[0] == 'o');
    assert(("orderIndex"@)[1] == 'r');
    assert(("createdAt"@).len() == 9);
    assert(("createdAt"@)[0] == 'c');
    assert(("createdAt"@)[1] == 'r');
    assert(("updatedAt"@).len() == 9);
    assert(("updatedAt"@)[0] == 'u');
    assert(("updatedAt"@)[1] == 'p');
    let p = enc_topic(f);
    let r8 = te("updatedAt"@, f.updated_at);
    let r7 = te("createdAt"@, f.created_at) + r8;
    let r6 = ie("orderIndex"@, f.order_index) + r7;
    let r5 = oe("subtopics"@, f.subtopics) + r6;
    let r4 = oe("color"@, f.color) + r5;
    let r3 = oe("icon"@, f.icon) + r4;
    let r2 = te("slug"@, f.slug) + r3;
    let r1 = oe("description"@, f.description) + r2;
    let r0 = te("name"@, f.name) + r1;
    assert(p == r0);
    assert(text_of(p, "name"@) == Some(f.name)) by {
        lemma_te_lookup("name"@, f.name, "name"@);
        lemma_lookup_concat(te("name"@, f.name), r1, "name"@);
    }
    assert(text_of(p, "description"@) == f.description) by {
        lemma_te_lookup("name"@, f.name, "description"@);
        lemma_lookup_concat(te("name"@, f.name), r1, "description"@);
        lemma_oe_lookup("description"@, f.description, "description"@);
        lemma_lookup_concat(oe("description"@, f.description), r2, "description"@);
        lemma_te_lookup("slug"@, f.slug, "description"@);
        lemma_lookup_concat(te("slug"@, f.slug), r3, "description"@);
        lemma_oe_lookup("icon"@, f.icon, "description"@);
        lemma_lookup_concat(oe("icon"@, f.icon), r4, "description"@);
        lemma_oe_lookup("color"@, f.color, "description"@);
        lemma_lookup_concat(oe("color"@, f.color), r5, "description"@);
        lemma_oe_lookup("subtopics"@, f.subtopics, "description"@);
        lemma_lookup_concat(oe("subtopics"@, f.subtopics), r6, "description"@);
        lemma_ie_lookup("orderIndex"@, f.order_index, "description"@);
        lemma_lookup_concat(ie("orderIndex"@, f.order_index), r7, "description"@);
        lemma_te_lookup("createdAt"@, f.created_at, "description"@);
        lemma_lookup_concat(te("createdAt"@, f.created_at), r8, "description"@);
        lemma_te_lookup("updatedAt"@, f.updated_at, "description"@);
    }
    assert(text_of(p, "slug"@) == Some(f.slug)) by {
        lemma_te_lookup("name"@, f.name, "slug"@);
        lemma_lookup_concat(te("name"@, f.name), r1, "slug"@);
        lemma_oe_lookup("description"@, f.description, "slug"@);
        lemma_lookup_concat(oe("description"@, f.description), r2, "slug"@);
        lemma_te_lookup("slug"@, f.slug, "slug"@);
        lemma_lookup_concat(te("slug"@, f.slug), r3, "slug"@);
    }
    assert(text_of(p, "icon"@) == f.icon) by {
        lemma_te_lookup("name"@, f.name, "icon"@);
        lemma_lookup_concat(te("name"@, f.name), r1, "icon"@);
        lemma_oe_lookup("description"@, f.description, "icon"@);
        lemma_lookup_concat(oe("description"@, f.description), r2, "icon"@);
        lemma_te_lookup("slug"@, f.slug, "icon"@);
        lemma_lookup_concat(te("slug"@, f.slug), r3, "icon"@);
        lemma_oe_lookup("icon"@, f.icon, "icon"@);
        lemma_lookup_concat(oe("icon"@, f.icon), r4, "icon"@);
        lemma_oe_lookup("color"@, f.color, "icon"@);
        lemma_lookup_concat(oe("color"@, f.color), r5, "icon"@);
        lemma_oe_lookup("subtopics"@, f.subtopics, "icon"@);
        lemma_lookup_concat(oe("subtopics"@, f.subtopics), r6, "icon"@);
        lemma_ie_lookup("orderIndex"@, f.order_index, "icon"@);
        lemma_lookup_concat(ie("orderIndex"@, f.order_index), r7, "icon"@);
        lemma_te_lookup("createdAt"@, f.created_at, "icon"@);
        lemma_lookup_concat(te("createdAt"@, f.created_at), r8, "icon"@);
        lemma_te_lookup("updatedAt"@, f.updated_at, "icon"@);
    }
    assert(text_of(p, "color"@) == f.color) by {
        lemma_te_lookup("name"@, f.name, "color"@);
        lemma_lookup_concat(te("name"@, f.name), r1, "color"@);
        lemma_oe_lookup("description"@, f.description, "color"@);
        lemma_lookup_concat(oe("description"@, f.description), r2, "color"@);
        lemma_te_lookup("slug"@, f.slug, "color"@);
        lemma_lookup_concat(te("slug"@, f.slug), r3, "color"@);
        lemma_oe_lookup("icon"@, f.icon, "color"@);
        lemma_lookup_concat(oe("icon"@, f.icon), r4, "color"@);
        lemma_oe_lookup("color"@, f.color, "color"@);
        lemma_lookup_concat(oe("color"@, f.color), r5, "color"@);
        lemma_oe_lookup("subtopics"@, f.subtopics, "color"@);
        lemma_lookup_concat(oe("subtopics"@, f.subtopics), r6, "color"@);
        lemma_ie_lookup("orderIndex"@, f.order_index, "color"@);
        lemma_lookup_concat(ie("orderIndex"@, f.order_index), r7, "color"@);
        lemma_te_lookup("createdAt"@, f.created_at, "color"@);
        lemma_lookup_concat(te("createdAt"@, f.created_at), r8, "color"@);
        lemma_te_lookup("updatedAt"@, f.updated_at, "color"@);
    }
    assert(text_of(p, "subtopics"@) == f.subtopics) by {
        lemma_te_lookup("name"@, f.name, "subtopics"@);
        lemma_lookup_concat(te("name"@, f.name), r1, "subtopics"@);
        lemma_oe_lookup("description"@, f.description, "subtopics"@);
        lemma_lookup_concat(oe("description"@, f.description), r2, "subtopics"@);
        lemma_te_lookup("slug"@, f.slug, "subtopics"@);
        lemma_lookup_concat(te("slug"@, f.slug), r3, "subtopics"@);
        lemma_oe_lookup("icon"@, f.icon, "subtopics"@);
        lemma_lookup_concat(oe("icon"@, f.icon), r4, "subtopics"@);
        lemma_oe_lookup("color"@, f.color, "subtopics"@);
        lemma_lookup_concat(oe("color"@, f.color), r5, "subtopics"@);
        lemma_oe_lookup("subtopics"@, f.subtopics, "subtopics"@);
        lemma_lookup_concat(oe("subtopics"@, f.subtopics), r6, "subtopics"@);
        lemma_ie_lookup("orderIndex"@, f.order_index, "subtopics"@);
        lemma_lookup_concat(ie("orderIndex"@, f.order_index), r7, "subtopics"@);
        lemma_te_lookup("createdAt"@, f.created_at, "subtopics"@);
        lemma_lookup_concat(te("createdAt"@, f.created_at), r8, "subtopics"@);
        lemma_te_lookup("updatedAt"@, f.updated_at, "subtopics"@);
    }
    assert(int_of(p, "orderIndex"@) == f.order_index) by {
        lemma_te_lookup("name"@, f.name, "orderIndex"@);
        lemma_lookup_concat(te("name"@, f.name), r1, "orderIndex"@);
        lemma_oe_lookup("description"@, f.description, "orderIndex"@);
        lemma_lookup_concat(oe("description"@, f.description), r2, "orderIndex"@);
        lemma_te_lookup("slug"@, f.slug, "orderIndex"@);
        lemma_lookup_concat(te("slug"@, f.slug), r3, "orderIndex"@);
        lemma_oe_lookup("icon"@, f.icon, "orderIndex"@);
        lemma_lookup_concat(oe("icon"@, f.icon), r4, "orderIndex"@);
        lemma_oe_lookup("color"@, f.color, "orderIndex"@);
        lemma_lookup_concat(oe("color"@, f.color), r5, "orderIndex"@);
        lemma_oe_lookup("subtopics"@, f.subtopics, "orderIndex"@);
        lemma_lookup_concat(oe("subtopics"@, f.subtopics), r6, "orderIndex"@);
        lemma_ie_lookup("orderIndex"@, f.order_index, "orderIndex"@);
        lemma_lookup_concat(ie("orderIndex"@, f.order_index), r7, "orderIndex"@);
    }
    assert(text_of(p, "createdAt"@) == Some(f.created_at)) by {
        lemma_te_lookup("name"@, f.name, "createdAt"@);
        lemma_lookup_concat(te("name"@, f.name), r1, "createdAt"@);
        lemma_oe_lookup("description"@, f.description, "createdAt"@);
        lemma_lookup_concat(oe("description"@, f.description), r2, "createdAt"@);
        lemma_te_lookup("slug"@, f.slug, "createdAt"@);
        lemma_lookup_concat(te("slug"@, f.slug), r3, "createdAt"@);
        lemma_oe_lookup("icon"@, f.icon, "createdAt"@);
        lemma_lookup_concat(oe("icon"@, f.icon), r4, "createdAt"@);
        lemma_oe_lookup("color"@, f.color, "createdAt"@);
        lemma_lookup_concat(oe("color"@, f.color), r5, "createdAt"@);
        lemma_oe_lookup("subtopics"@, f.subtopics, "createdAt"@);
        lemma_lookup_concat(oe("subtopics"@, f.subtopics), r6, "createdAt"@);
        lemma_ie_lookup("orderIndex"@, f.order_index, "createdAt"@);
        lemma_lookup_concat(ie("orderIndex"@, f.order_index), r7, "createdAt"@);
        lemma_te_lookup("createdAt"@, f.created_at, "createdAt"@);
        lemma_lookup_concat(te("createdAt"@, f.created_at), r8, "createdAt"@);
    }
    assert(text_of(p, "updatedAt"@) == Some(f.updated_at)) by {
        lemma_te_lookup("name"@, f.name, "updatedAt"@);
        lemma_lookup_concat(te("name"@, f.name), r1, "updatedAt"@);
        lemma_oe_lookup("description"@, f.description, "updatedAt"@);
        lemma_lookup_concat(oe("description"@, f.description), r2, "updatedAt"@);
        lemma_te_lookup("slug"@, f.slug, "updatedAt"@);
        lemma_lookup_concat(te("slug"@, f.slug), r3, "updatedAt"@);
        lemma_oe_lookup("icon"@, f.icon, "updatedAt"@);
        lemma_lookup_concat(oe("icon"@, f.icon), r4, "updatedAt"@);
        lemma_oe_lookup("color"@, f.color, "updatedAt"@);
        lemma_lookup_concat(oe("color"@, f.color), r5, "updatedAt"@);
        lemma_oe_lookup("subtopics"@, f.subtopics, "updatedAt"@);
        lemma_lookup_concat(oe("subtopics"@, f.subtopics), r6, "updatedAt"@);
        lemma_ie_lookup("orderIndex"@, f.order_index, "updatedAt"@);
        lemma_lookup_concat(ie("orderIndex"@, f.order_index), r7, "updatedAt"@);
        lemma_te_lookup("createdAt"@, f.created_at, "updatedAt"@);
        lemma_lookup_concat(te("createdAt"@, f.created_at), r8, "updatedAt"@);
        lemma_te_lookup("updatedAt"@, f.updated_at, "updatedAt"@);
    }
}

/// The payload of a live question row.
pub open spec fn enc_question(f: QuestionFieldsV) -> Seq<EntryV> {
    te("topicSyncUuid"@, f.topic_id) + (oe("subtopic"@, f.subtopic) + (ie("questionNumber"@, f.question_number) + (te("question"@, f.question) + (te("answer"@, f.answer) + (oe("tags"@, f.tags) + (oe("difficulty"@, f.difficulty) + (ie("orderIndex"@, f.order_index) + (te("createdAt"@, f.created_at) + (te("updatedAt"@, f.updated_at))))))))))
}

/// Reading back a live question row's payload; the error names the first
/// missing required field.
pub open spec fn dec_question(p: Seq<EntryV>) -> Result<QuestionFieldsV, Seq<char>> {
    if text_of(p, "topicSyncUuid"@) is None {
        Err("topicSyncUuid"@)
    } else if text_of(p, "question"@) is None {
        Err("question"@)
    } else if text_of(p, "answer"@) is None {
        Err("answer"@)
    } else if text_of(p, "createdAt"@) is None {
        Err("createdAt"@)
    } else if text_of(p, "updatedAt"@) is None {
        Err("updatedAt"@)
    } else {
        Ok(QuestionFieldsV {
            topic_id: text_of(p, "topicSyncUuid"@)->Some_0,
            subtopic: text_of(p, "subtopic"@),
            question_number: int_of(p, "questionNumber"@),
            question: text_of(p, "question"@)->Some_0,
            answer: text_of(p, "answer"@)->Some_0,
            tags: text_of(p, "tags"@),
            difficulty: text_of(p, "difficulty"@),
            order_index: int_of(p, "orderIndex"@),
            created_at: text_of(p, "createdAt"@)->Some_0,
            updated_at: text_of(p, "updatedAt"@)->Some_0,
        })
    }
}

/// What was serialized is read back unchanged: the codec loses no
/// question field.
pub proof fn lemma_question_round_trip(f: QuestionFieldsV)
    ensures
        dec_question(enc_question(f)) == Ok::<QuestionFieldsV, Seq<char>>(f),
{
    broadcast use vstd::string::group_string_axioms;

    reveal_strlit("topicSyncUuid");
    reveal_strlit("subtopic");
    reveal_strlit("questionNumber");
    reveal_strlit("question");
    reveal_strlit("answer");
    reveal_strlit("tags");
    reveal_strlit("difficulty");
    reveal_strlit("orderIndex");
    reveal_strlit("createdAt");
    reveal_strlit("updatedAt");
    assert(("topicSyncUuid"@).len() == 13);
    assert(("topicSyncUuid"@)[0] == 't');
    assert(("topicSyncUuid"@)[1] == 'o');
    assert(("subtopic"@).len() == 8);
    assert(("subtopic"@)[0] == 's');
    assert(("subtopic"@)[1] == 'u');
    assert(("questionNumber"@).len() == 14);
    assert(("questionNumber"@)[0] == 'q');
    assert(("questionNumber"@)[1] == 'u');
    assert(("question"@).len() == 8);
    assert(("question"@)[0] == 'q');
    assert(("question"@)[1] == 'u');
    assert(("answer"@).len() == 6);
    assert(("answer"@)[0] == 'a');
    assert(("answer"@)[1] == 'n');
    assert(("tags"@).len() == 4);
    assert(("tags"@)[0] == 't');
    assert(("tags"@)[1] == 'a');
    assert(("difficulty"@).len() == 10);
    assert(("difficulty"@)[0] == 'd');
    assert(("difficulty"@)[1] == 'i');
    assert(("orderIndex"@).len() == 10);
    assert(("orderIndex"@)[0] == 'o');
    assert(("orderIndex"@)[1] == 'r');
    assert(("createdAt"@).len() == 9);
    assert(("createdAt"@)[0] == 'c');
    assert(("createdAt"@)[1] == 'r');
    assert(("updatedAt"@).len() == 9);
    assert(("updatedAt"@)[0] == 'u');
    assert(("updatedAt"@)[1] == 'p');
    let p = enc_question(f);
    let r9 = te("updatedAt"@, f.updated_at);
    let r8 = te("createdAt"@, f.created_at) + r9;
    let r7 = ie("orderIndex"@, f.order_index) + r8;
    let r6 = oe("difficulty"@, f.difficulty) + r7;
    let r5 = oe("tags"@, f.tags) + r6;
    let r4 = te("answer"@, f.answer) + r5;
    let r3 = te("question"@, f.question) + r4;
    let r2 = ie("questionNumber"@, f.question_number) + r3;
    let r1 = oe("subtopic"@, f.subtopic) + r2;
    let r0 = te("topicSyncUuid"@, f.topic_id) + r1;
    assert(p == r0);
    assert(text_of(p, "topicSyncUuid"@) == Some(f.topic_id)) by {
        lemma_te_lookup("topicSyncUuid"@, f.topic_id, "topicSyncUuid"@);
        lemma_lookup_concat(te("topicSyncUuid"@, f.topic_id), r1, "topicSyncUuid"@);
    }
    assert(text_of(p, "subtopic"@) == f.subtopic) by {
        lemma_te_lookup("topicSyncUuid"@, f.topic_id, "subtopic"@);
        lemma_lookup_concat(te("topicSyncUuid"@, f.topic_id), r1, "subtopic"@);
        lemma_oe_lookup("subtopic"@, f.subtopic, "subtopic"@);
        lemma_lookup_concat(oe("subtopic"@, f.subtopic), r2, "subtopic"@);
        lemma_ie_lookup("questionNumber"@, f.question_number, "subtopic"@);
        lemma_lookup_concat(ie("questionNumber"@, f.question_number), r3, "subtopic"@);
        lemma_te_lookup("question"@, f.question, "subtopic"@);
        lemma_lookup_concat(te("question"@, f.question), r4, "subtopic"@);
        lemma_te_lookup("answer"@, f.answer, "subtopic"@);
        lemma_lookup_concat(te("answer"@, f.answer), r5, "subtopic"@);
        lemma_oe_lookup("tags"@, f.tags, "subtopic"@);
        lemma_lookup_concat(oe("tags"@, f.tags), r6, "subtopic"@);
        lemma_oe_lookup("difficulty"@, f.difficulty, "subtopic"@);
        lemma_lookup_concat(oe("difficulty"@, f.difficulty), r7, "subtopic"@);
        lemma_ie_lookup("orderIndex"@, f.order_index, "subtopic"@);
        lemma_lookup_concat(ie("orderIndex"@, f.order_index), r8, "subtopic"@);
        lemma_te_lookup("createdAt"@, f.created_at, "subtopic"@);
        lemma_lookup_concat(te("createdAt"@, f.created_at), r9, "subtopic"@);
        lemma_te_lookup("updatedAt"@, f.updated_at, "subtopic"@);
    }
    assert(int_of(p, "questionNumber"@) == f.question_number) by {
        lemma_te_lookup("topicSyncUuid"@, f.topic_id, "questionNumber"@);
        lemma_lookup_concat(te("topicSyncUuid"@, f.topic_id), r1, "questionNumber"@);
        lemma_oe_lookup("subtopic"@, f.subtopic, "questionNumber"@);
        lemma_lookup_concat(oe("subtopic"@, f.subtopic), r2, "questionNumber"@);
        lemma_ie_lookup("questionNumber"@, f.question_number, "questionNumber"@);
        lemma_lookup_concat(ie("questionNumber"@, f.question_number), r3, "questionNumber"@);
    }
    assert(text_of(p, "question"@) == Some(f.question)) by {
        lemma_te_lookup("topicSyncUuid"@, f.topic_id, "question"@);
        lemma_lookup_concat(te("topicSyncUuid"@, f.topic_id), r1, "question"@);
        lemma_oe_lookup("subtopic"@, f.subtopic, "question"@);
        lemma_lookup_concat(oe("subtopic"@, f.subtopic), r2, "question"@);
        lemma_ie_lookup("questionNumber"@, f.question_number, "question"@);
        lemma_lookup_concat(ie("questionNumber"@, f.question_number), r3, "question"@);
        lemma_te_lookup("question"@, f.question, "question"@);
        lemma_lookup_concat(te("question"@, f.question), r4, "question"@);
    }
    assert(text_of(p, "answer"@) == Some(f.answer)) by {
        lemma_te_lookup("topicSyncUuid"@, f.topic_id, "answer"@);
        lemma_lookup_concat(te("topicSyncUuid"@, f.topic_id), r1, "answer"@);
        lemma_oe_lookup("subtopic"@, f.subtopic, "answer"@);
        lemma_lookup_concat(oe("subtopic"@, f.subtopic), r2, "answer"@);
        lemma_ie_lookup("questionNumber"@, f.question_number, "answer"@);
        lemma_lookup_concat(ie("questionNumber"@, f.question_number), r3, "answer"@);
        lemma_te_lookup("question"@, f.question, "answer"@);
        lemma_lookup_concat(te("question"@, f.question), r4, "answer"@);
        lemma_te_lookup("answer"@, f.answer, "answer"@);
        lemma_lookup_concat(te("answer"@, f.answer), r5, "answer"@);
    }
    assert(text_of(p, "tags"@) == f.tags) by {
        lemma_te_lookup("topicSyncUuid"@, f.topic_id, "tags"@);
        lemma_lookup_concat(te("topicSyncUuid"@, f.topic_id), r1, "tags"@);
        lemma_oe_lookup("subtopic"@, f.subtopic, "tags"@);
        lemma_lookup_concat(oe("subtopic"@, f.subtopic), r2, "tags"@);
        lemma_ie_lookup("questionNumber"@, f.question_number, "tags"@);
        lemma_lookup_concat(ie("questionNumber"@, f.question_number), r3, "tags"@);
        lemma_te_lookup("question"@, f.question, "tags"@);
        lemma_lookup_concat(te("question"@, f.question), r4, "tags"@);
        lemma_te_lookup("answer"@, f.answer, "tags"@);
        lemma_lookup_concat(te("answer"@, f.answer), r5, "tags"@);
        lemma_oe_lookup("tags"@, f.tags, "tags"@);
        lemma_lookup_concat(oe("tags"@, f.tags), r6, "tags"@);
        lemma_oe_lookup("difficulty"@, f.difficulty, "tags"@);
        lemma_lookup_concat(oe("difficulty"@, f.difficulty), r7, "tags"@);
        lemma_ie_lookup("orderIndex"@, f.order_index, "tags"@);
        lemma_lookup_concat(ie("orderIndex"@, f.order_index), r8, "tags"@);
        lemma_te_lookup("createdAt"@, f.created_at, "tags"@);
        lemma_lookup_concat(te("createdAt"@, f.created_at), r9, "tags"@);
        lemma_te_lookup("updatedAt"@, f.updated_at, "tags"@);
    }
    assert(text_of(p, "difficulty"@) == f.difficulty) by {
        lemma_te_lookup("topicSyncUuid"@, f.topic_id, "difficulty"@);
        lemma_lookup_concat(te("topicSyncUuid"@, f.topic_id), r1, "difficulty"@);
        lemma_oe_lookup("subtopic"@, f.subtopic, "difficulty"@);
        lemma_lookup_concat(oe("subtopic"@, f.subtopic), r2, "difficulty"@);
        lemma_ie_lookup("questionNumber"@, f.question_number, "difficulty"@);
        lemma_lookup_concat(ie("questionNumber"@, f.question_number), r3, "difficulty"@);
        lemma_te_lookup("question"@, f.question, "difficulty"@);
        lemma_lookup_concat(te("question"@, f.question), r4, "difficulty"@);
        lemma_te_lookup("answer"@, f.answer, "difficulty"@);
        lemma_lookup_concat(te("answer"@, f.answer), r5, "difficulty"@);
        lemma_oe_lookup("tags"@, f.tags, "difficulty"@);
        lemma_lookup_concat(oe("tags"@, f.tags), r6, "difficulty"@);
        lemma_oe_lookup("difficulty"@, f.difficulty, "difficulty"@);
        lemma_lookup_concat(oe("difficulty"@, f.difficulty), r7, "difficulty"@);
        lemma_ie_lookup("orderIndex"@, f.order_index, "difficulty"@);
        lemma_lookup_concat(ie("orderIndex"@, f.order_index), r8, "difficulty"@);
        lemma_te_lookup("createdAt"@, f.created_at, "difficulty"@);
        lemma_lookup_concat(te("createdAt"@, f.created_at), r9, "difficulty"@);
        lemma_te_lookup("updatedAt"@, f.updated_at, "difficulty"@);
    }
    assert(int_of(p, "orderIndex"@) == f.order_index) by {
        lemma_te_lookup("topicSyncUuid"@, f.topic_id, "orderIndex"@);
        lemma_lookup_concat(te("topicSyncUuid"@, f.topic_id), r1, "orderIndex"@);
        lemma_oe_lookup("subtopic"@, f.subtopic, "orderIndex"@);
        lemma_lookup_concat(oe("subtopic"@, f.subtopic), r2, "orderIndex"@);
        lemma_ie_lookup("questionNumber"@, f.question_number, "orderIndex"@);
        lemma_lookup_concat(ie("questionNumber"@, f.question_number), r3, "orderIndex"@);
        lemma_te_lookup("question"@, f.question, "orderIndex"@);
        lemma_lookup_concat(te("question"@, f.question), r4, "orderIndex"@);
        lemma_te_lookup("answer"@, f.answer, "orderIndex"@);
        lemma_lookup_concat(te("answer"@, f.answer), r5, "orderIndex"@);
        lemma_oe_lookup("tags"@, f.tags, "orderIndex"@);
        lemma_lookup_concat(oe("tags"@, f.tags), r6, "orderIndex"@);
        lemma_oe_lookup("difficulty"@, f.difficulty, "orderIndex"@);
        lemma_lookup_concat(oe("difficulty"@, f.difficulty), r7, "orderIndex"@);
        lemma_ie_lookup("orderIndex"@, f.order_index, "orderIndex"@);
        lemma_lookup_concat(ie("orderIndex"@, f.order_index), r8, "orderIndex"@);
    }
    assert(text_of(p, "createdAt"@) == Some(f.created_at)) by {
        lemma_te_lookup("topicSyncUuid"@, f.topic_id, "createdAt"@);
        lemma_lookup_concat(te("topicSyncUuid"@, f.topic_id), r1, "createdAt"@);
        lemma_oe_lookup("subtopic"@, f.subtopic, "createdAt"@);
        lemma_lookup_concat(oe("subtopic"@, f.subtopic), r2, "createdAt"@);
        lemma_ie_lookup("questionNumber"@, f.question_number, "createdAt"@);
        lemma_lookup_concat(ie("questionNumber"@, f.question_number), r3, "createdAt"@);
        lemma_te_lookup("question"@, f.question, "createdAt"@);
        lemma_lookup_concat(te("question"@, f.question), r4, "createdAt"@);
        lemma_te_lookup("answer"@, f.answer, "createdAt"@);
        lemma_lookup_concat(te("answer"@, f.answer), r5, "createdAt"@);
        lemma_oe_lookup("tags"@, f.tags, "createdAt"@);
        lemma_lookup_concat(oe("tags"@, f.tags), r6, "createdAt"@);
        lemma_oe_lookup("difficulty"@, f.difficulty, "createdAt"@);
        lemma_lookup_concat(oe("difficulty"@, f.difficulty), r7, "createdAt"@);
        lemma_ie_lookup("orderIndex"@, f.order_index, "createdAt"@);
        lemma_lookup_concat(ie("orderIndex"@, f.order_index), r8, "createdAt"@);
        lemma_te_lookup("createdAt"@, f.created_at, "createdAt"@);
        lemma_lookup_concat(te("createdAt"@, f.created_at), r9, "createdAt"@);
    }
    assert(text_of(p, "updatedAt"@) == Some(f.updated_at)) by {
        lemma_te_lookup("topicSyncUuid"@, f.topic_id, "updatedAt"@);
        lemma_lookup_concat(te("topicSyncUuid"@, f.topic_id), r1, "updatedAt"@);
        lemma_oe_lookup("subtopic"@, f.subtopic, "updatedAt"@);
        lemma_lookup_concat(oe("subtopic"@, f.subtopic), r2, "updatedAt"@);
        lemma_ie_lookup("questionNumber"@, f.question_number, "updatedAt"@);
        lemma_lookup_concat(ie("questionNumber"@, f.question_number), r3, "updatedAt"@);
        lemma_te_lookup("question"@, f.question, "updatedAt"@);
        lemma_lookup_concat(te("question"@, f.question), r4, "updatedAt"@);
        lemma_te_lookup("answer"@, f.answer, "updatedAt"@);
        lemma_lookup_concat(te("answer"@, f.answer), r5, "updatedAt"@);
        lemma_oe_lookup("tags"@, f.tags, "updatedAt"@);
        lemma_lookup_concat(oe("tags"@, f.tags), r6, "updatedAt"@);
        lemma_oe_lookup("difficulty"@, f.difficulty, "updatedAt"@);
        lemma_lookup_concat(oe("difficulty"@, f.difficulty), r7, "updatedAt"@);
        lemma_ie_lookup("orderIndex"@, f.order_index, "updatedAt"@);
        lemma_lookup_concat(ie("orderIndex"@, f.order_index), r8, "updatedAt"@);
        lemma_te_lookup("createdAt"@, f.created_at, "updatedAt"@);
        lemma_lookup_concat(te("createdAt"@, f.created_at), r9, "updatedAt"@);
        lemma_te_lookup("updatedAt"@, f.updated_at, "updatedAt"@);
    }
}

/// The payload of a live progress row.
pub open spec fn enc_progress(key: Seq<char>, f: ProgressFieldsV) -> Seq<EntryV> {
    te("questionSyncUuid"@, key) + (te("topicSyncUuid"@, f.topic_id) + (te("status"@, f.status) + (ie("confidenceLevel"@, f.confidence_level) + (ie("timesReviewed"@, f.times_reviewed) + (ie("timesCorrect"@, f.times_correct) + (ie("timesIncorrect"@, f.times_incorrect) + (oe("lastReviewedAt"@, f.last_reviewed_at) + (oe("nextReviewAt"@, f.next_review_at) + (te("createdAt"@, f.created_at) + (te("updatedAt"@, f.updated_at)))))))))))
}

/// Reading back a live progress row's payload; the error names the first
/// missing required field.
pub open spec fn dec_progress(p: Seq<EntryV>) -> Result<ProgressFieldsV, Seq<char>> {
    if text_of(p, "topicSyncUuid"@) is None {
        Err("topicSyncUuid"@)
    } else if text_of(p, "createdAt"@) is None {
        Err("createdAt"@)
    } else if text_of(p, "updatedAt"@) is None {
        Err("updatedAt"@)
    } else {
        Ok(ProgressFieldsV {
            topic_id: text_of(p, "topicSyncUuid"@)->Some_0,
            status: text_or(p, "status"@, "NotStudied"@),
            confidence_level: int_of(p, "confidenceLevel"@),
            times_reviewed: int_of(p, "timesReviewed"@),
            times_correct: int_of(p, "timesCorrect"@),
            times_incorrect: int_of(p, "timesIncorrect"@),
            last_reviewed_at: text_of(p, "lastReviewedAt"@),
            next_review_at: text_of(p, "nextReviewAt"@),
            created_at: text_of(p, "createdAt"@)->Some_0,
            updated_at: text_of(p, "updatedAt"@)->Some_0,
        })
    }
}

/// The primary key a progress record upserts under: the question it
/// tracks, read from the payload, with the record key as fallback.
pub open spec fn dec_progress_key(p: Seq<EntryV>, rec_key: Seq<char>) -> Seq<char> {
    text_or(p, "questionSyncUuid"@, rec_key)
}

/// What was serialized is read back unchanged: the codec loses no
/// progress field.
pub proof fn lemma_progress_round_trip(key: Seq<char>, f: ProgressFieldsV)
    ensures
        dec_progress(enc_progress(key, f)) == Ok::<ProgressFieldsV, Seq<char>>(f),
        dec_progress_key(enc_progress(key, f), key) == key,
        forall|rk: Seq<char>| dec_progress_key(enc_progress(key, f), rk) == key,
{
    broadcast use vstd::string::group_string_axioms;

    reveal_strlit("questionSyncUuid");
    reveal_strlit("topicSyncUuid");
    reveal_strlit("status");
    reveal_strlit("confidenceLevel");
    reveal_strlit("timesReviewed");
    reveal_strlit("timesCorrect");
    reveal_strlit("timesIncorrect");
    reveal_strlit("lastReviewedAt");
    reveal_strlit("nextReviewAt");
    reveal_strlit("createdAt");
    reveal_strlit("updatedAt");
    assert(("questionSyncUuid"@).len() == 16);
    assert(("questionSyncUuid"@)[0] == 'q');
    assert(("questionSyncUuid"@)[1] == 'u');
    assert(("topicSyncUuid"@).len() == 13);
    assert(("topicSyncUuid"@)[0] == 't');
    assert(("topicSyncUuid"@)[1] == 'o');
    assert(("status"@).len() == 6);
    assert(("status"@)[0] == 's');
    assert(("status"@)[1] == 't');
    assert(("confidenceLevel"@).len() == 15);
    assert(("confidenceLevel"@)[0] == 'c');
    assert(("confidenceLevel"@)[1] == 'o');
    assert(("timesReviewed"@).len() == 13);
    assert(("timesReviewed"@)[0] == 't');
    assert(("timesReviewed"@)[1] == 'i');
    assert(("timesCorrect"@).len() == 12);
    assert(("timesCorrect"@)[0] == 't');
    assert(("timesCorrect"@)[1] == 'i');
    assert(("timesIncorrect"@).len() == 14);
    assert(("timesIncorrect"@)[0] == 't');
    assert(("timesIncorrect"@)[1] == 'i');
    assert(("lastReviewedAt"@).len() == 14);
    assert(("lastReviewedAt"@)[0] == 'l');
    assert(("lastReviewedAt"@)[1] == 'a');
    assert(("nextReviewAt"@).len() == 12);
    assert(("nextReviewAt"@)[0] == 'n');
    assert(("nextReviewAt"@)[1] == 'e');
    assert(("createdAt"@).len() == 9);
    assert(("createdAt"@)[0] == 'c');
    assert(("createdAt"@)[1] == 'r');
    assert(("updatedAt"@).len() == 9);
    assert(("updatedAt"@)[0] == 'u');
    assert(("updatedAt"@)[1] == 'p');
    reveal_strlit("NotStudied");
    let p = enc_progress(key, f);
    let r10 = te("updatedAt"@, f.updated_at);
    let r9 = te("createdAt"@, f.created_at) + r10;
    let r8 = oe("nextReviewAt"@, f.next_review_at) + r9;
    let r7 = oe("lastReviewedAt"@, f.last_reviewed_at) + r8;
    let r6 = ie("timesIncorrect"@, f.times_incorrect) + r7;
    let r5 = ie("timesCorrect"@, f.times_correct) + r6;
    let r4 = ie("timesReviewed"@, f.times_reviewed) + r5;
    let r3 = ie("confidenceLevel"@, f.confidence_level) + r4;
    let r2 = te("status"@, f.status) + r3;
    let r1 = te("topicSyncUuid"@, f.topic_id) + r2;
    let r0 = te("questionSyncUuid"@, key) + r1;
    assert(p == r0);
    assert(text_of(p, "questionSyncUuid"@) == Some(key)) by {
        lemma_te_lookup("questionSyncUuid"@, key, "questionSyncUuid"@);
        lemma_lookup_concat(te("questionSyncUuid"@, key), r1, "questionSyncUuid"@);
    }
    assert(text_of(p, "topicSyncUuid"@) == Some(f.topic_id)) by {
        lemma_te_lookup("questionSyncUuid"@, key, "topicSyncUuid"@);
        lemma_lookup_concat(te("questionSyncUuid"@, key), r1, "topicSyncUuid"@);
        lemma_te_lookup("topicSyncUuid"@, f.topic_id, "topicSyncUuid"@);
        lemma_lookup_concat(te("topicSyncUuid"@, f.topic_id), r2, "topicSyncUuid"@);
    }
    assert(text_of(p, "status"@) == Some(f.status)) by {
        lemma_te_lookup("questionSyncUuid"@, key, "status"@);
        lemma_lookup_concat(te("questionSyncUuid"@, key), r1, "status"@);
        lemma_te_lookup("topicSyncUuid"@, f.topic_id, "status"@);
        lemma_lookup_concat(te("topicSyncUuid"@, f.topic_id), r2, "status"@);
        lemma_te_lookup("status"@, f.status, "status"@);
        lemma_lookup_concat(te("status"@, f.status), r3, "status"@);
    }
    assert(int_of(p, "confidenceLevel"@) == f.confidence_level) by {
        lemma_te_lookup("questionSyncUuid"@, key, "confidenceLevel"@);
        lemma_lookup_concat(te("questionSyncUuid"@, key), r1, "confidenceLevel"@);
        lemma_te_lookup("topicSyncUuid"@, f.topic_id, "confidenceLevel"@);
        lemma_lookup_concat(te("topicSyncUuid"@, f.topic_id), r2, "confidenceLevel"@);
        lemma_te_lookup("status"@, f.status, "confidenceLevel"@);
        lemma_lookup_concat(te("status"@, f.status), r3, "confidenceLevel"@);
        lemma_ie_lookup("confidenceLevel"@, f.confidence_level, "confidenceLevel"@);
        lemma_lookup_concat(ie("confidenceLevel"@, f.confidence_level), r4, "confidenceLevel"@);
    }
    assert(int_of(p, "timesReviewed"@) == f.times_reviewed) by {
        lemma_te_lookup("questionSyncUuid"@, key, "timesReviewed"@);
        lemma_lookup_concat(te("questionSyncUuid"@, key), r1, "timesReviewed"@);
        lemma_te_lookup("topicSyncUuid"@, f.topic_id, "timesReviewed"@);
        lemma_lookup_concat(te("topicSyncUuid"@, f.topic_id), r2, "timesReviewed"@);
        lemma_te_lookup("status"@, f.status, "timesReviewed"@);
        lemma_lookup_concat(te("status"@, f.status), r3, "timesReviewed"@);
        lemma_ie_lookup("confidenceLevel"@, f.confidence_level, "timesReviewed"@);
        lemma_lookup_concat(ie("confidenceLevel"@, f.confidence_level), r4, "timesReviewed"@);
        lemma_ie_lookup("timesReviewed"@, f.times_reviewed, "timesReviewed"@);
        lemma_lookup_concat(ie("timesReviewed"@, f.times_reviewed), r5, "timesReviewed"@);
    }
    assert(int_of(p, "timesCorrect"@) == f.times_correct) by {
        lemma_te_lookup("questionSyncUuid"@, key, "timesCorrect"@);
        lemma_lookup_concat(te("questionSyncUuid"@, key), r1, "timesCorrect"@);
        lemma_te_lookup("topicSyncUuid"@, f.topic_id, "timesCorrect"@);
        lemma_lookup_concat(te("topicSyncUuid"@, f.topic_id), r2, "timesCorrect"@);
        lemma_te_lookup("status"@, f.status, "timesCorrect"@);
        lemma_lookup_concat(te("status"@, f.status), r3, "timesCorrect"@);
        lemma_ie_lookup("confidenceLevel"@, f.confidence_level, "timesCorrect"@);
        lemma_lookup_concat(ie("confidenceLevel"@, f.confidence_level), r4, "timesCorrect"@);
        lemma_ie_lookup("timesReviewed"@, f.times_reviewed, "timesCorrect"@);
        lemma_lookup_concat(ie("timesReviewed"@, f.times_reviewed), r5, "timesCorrect"@);
        lemma_ie_lookup("timesCorrect"@, f.times_correct, "timesCorrect"@);
        lemma_lookup_concat(ie("timesCorrect"@, f.times_correct), r6, "timesCorrect"@);
    }
    assert(int_of(p, "timesIncorrect"@) == f.times_incorrect) by {
        lemma_te_lookup("questionSyncUuid"@, key, "timesIncorrect"@);
        lemma_lookup_concat(te("questionSyncUuid"@, key), r1, "timesIncorrect"@);
        lemma_te_lookup("topicSyncUuid"@, f.topic_id, "timesIncorrect"@);
        lemma_lookup_concat(te("topicSyncUuid"@, f.topic_id), r2, "timesIncorrect"@);
        lemma_te_lookup("status"@, f.status, "timesIncorrect"@);
        lemma_lookup_concat(te("status"@, f.status), r3, "timesIncorrect"@);
        lemma_ie_lookup("confidenceLevel"@, f.confidence_level, "timesIncorrect"@);
        lemma_lookup_concat(ie("confidenceLevel"@, f.confidence_level), r4, "timesIncorrect"@);
        lemma_ie_lookup("timesReviewed"@, f.times_reviewed, "timesIncorrect"@);
        lemma_lookup_concat(ie("timesReviewed"@, f.times_reviewed), r5, "timesIncorrect"@);
        lemma_ie_lookup("timesCorrect"@, f.times_correct, "timesIncorrect"@);
        lemma_lookup_concat(ie("timesCorrect"@, f.times_correct), r6, "timesIncorrect"@);
        lemma_ie_lookup("timesIncorrect"@, f.times_incorrect, "timesIncorrect"@);
        lemma_lookup_concat(ie("timesIncorrect"@, f.times_incorrect), r7, "timesIncorrect"@);
    }
    assert(text_of(p, "lastReviewedAt"@) == f.last_reviewed_at) by {
        lemma_te_lookup("questionSyncUuid"@, key, "lastReviewedAt"@);
        lemma_lookup_concat(te("questionSyncUuid"@, key), r1, "lastReviewedAt"@);
        lemma_te_lookup("topicSyncUuid"@, f.topic_id, "lastReviewedAt"@);
        lemma_lookup_concat(te("topicSyncUuid"@, f.topic_id), r2, "lastReviewedAt"@);
        lemma_te_lookup("status"@, f.status, "lastReviewedAt"@);
        lemma_lookup_concat(te("status"@, f.status), r3, "lastReviewedAt"@);
        lemma_ie_lookup("confidenceLevel"@, f.confidence_level, "lastReviewedAt"@);
        lemma_lookup_concat(ie("confidenceLevel"@, f.confidence_level), r4, "lastReviewedAt"@);
        lemma_ie_lookup("timesReviewed"@, f.times_reviewed, "lastReviewedAt"@);
        lemma_lookup_concat(ie("timesReviewed"@, f.times_reviewed), r5, "lastReviewedAt"@);
        lemma_ie_lookup("timesCorrect"@, f.times_correct, "lastReviewedAt"@);
        lemma_lookup_concat(ie("timesCorrect"@, f.times_correct), r6, "lastReviewedAt"@);
        lemma_ie_lookup("timesIncorrect"@, f.times_incorrect, "lastReviewedAt"@);
        lemma_lookup_concat(ie("timesIncorrect"@, f.times_incorrect), r7, "lastReviewedAt"@);
        lemma_oe_lookup("lastReviewedAt"@, f.last_reviewed_at, "lastReviewedAt"@);
        lemma_lookup_concat(oe("lastReviewedAt"@, f.last_reviewed_at), r8, "lastReviewedAt"@);
        lemma_oe_lookup("nextReviewAt"@, f.next_review_at, "lastReviewedAt"@);
        lemma_lookup_concat(oe("nextReviewAt"@, f.next_review_at), r9, "lastReviewedAt"@);
        lemma_te_lookup("createdAt"@, f.created_at, "lastReviewedAt"@);
        lemma_lookup_concat(te("createdAt"@, f.created_at), r10, "lastReviewedAt"@);
        lemma_te_lookup("updatedAt"@, f.updated_at, "lastReviewedAt"@);
    }
    assert(text_of(p, "nextReviewAt"@) == f.next_review_at) by {
        lemma_te_lookup("questionSyncUuid"@, key, "nextReviewAt"@);
        lemma_lookup_concat(te("questionSyncUuid"@, key), r1, "nextReviewAt"@);
        lemma_te_lookup("topicSyncUuid"@, f.topic_id, "nextReviewAt"@);
        lemma_lookup_concat(te("topicSyncUuid"@, f.topic_id), r2, "nextReviewAt"@);
        lemma_te_lookup("status"@, f.status, "nextReviewAt"@);
        lemma_lookup_concat(te("status"@, f.status), r3, "nextReviewAt"@);
        lemma_ie_lookup("confidenceLevel"@, f.confidence_level, "nextReviewAt"@);
        lemma_lookup_concat(ie("confidenceLevel"@, f.confidence_level), r4, "nextReviewAt"@);
        lemma_ie_lookup("timesReviewed"@, f.times_reviewed, "nextReviewAt"@);
        lemma_lookup_concat(ie("timesReviewed"@, f.times_reviewed), r5, "nextReviewAt"@);
        lemma_ie_lookup("timesCorrect"@, f.times_correct, "nextReviewAt"@);
        lemma_lookup_concat(ie("timesCorrect"@, f.times_correct), r6, "nextReviewAt"@);
        lemma_ie_lookup("timesIncorrect"@, f.times_incorrect, "nextReviewAt"@);
        lemma_lookup_concat(ie("timesIncorrect"@, f.times_incorrect), r7, "nextReviewAt"@);
        lemma_oe_lookup("lastReviewedAt"@, f.last_reviewed_at, "nextReviewAt"@);
        lemma_lookup_concat(oe("lastReviewedAt"@, f.last_reviewed_at), r8, "nextReviewAt"@);
        lemma_oe_lookup("nextReviewAt"@, f.next_review_at, "nextReviewAt"@);
        lemma_lookup_concat(oe("nextReviewAt"@, f.next_review_at), r9, "nextReviewAt"@);
        lemma_te_lookup("createdAt"@, f.created_at, "nextReviewAt"@);
        lemma_lookup_concat(te("createdAt"@, f.created_at), r10, "nextReviewAt"@);
        lemma_te_lookup("updatedAt"@, f.updated_at, "nextReviewAt"@);
    }
    assert(text_of(p, "createdAt"@) == Some(f.created_at)) by {
        lemma_te_lookup("questionSyncUuid"@, key, "createdAt"@);
        lemma_lookup_concat(te("questionSyncUuid"@, key), r1, "createdAt"@);
        lemma_te_lookup("topicSyncUuid"@, f.topic_id, "createdAt"@);
        lemma_lookup_concat(te("topicSyncUuid"@, f.topic_id), r2, "createdAt"@);
        lemma_te_lookup("status"@, f.status, "createdAt"@);
        lemma_lookup_concat(te("status"@, f.status), r3, "createdAt"@);
        lemma_ie_lookup("confidenceLevel"@, f.confidence_level, "createdAt"@);
        lemma_lookup_concat(ie("confidenceLevel"@, f.confidence_level), r4, "createdAt"@);
        lemma_ie_lookup("timesReviewed"@, f.times_reviewed, "createdAt"@);
        lemma_lookup_concat(ie("timesReviewed"@, f.times_reviewed), r5, "createdAt"@);
        lemma_ie_lookup("timesCorrect"@, f.times_correct, "createdAt"@);
        lemma_lookup_concat(ie("timesCorrect"@, f.times_correct), r6, "createdAt"@);
        lemma_ie_lookup("timesIncorrect"@, f.times_incorrect, "createdAt"@);
        lemma_lookup_concat(ie("timesIncorrect"@, f.times_incorrect), r7, "createdAt"@);
        lemma_oe_lookup("lastReviewedAt"@, f.last_reviewed_at, "createdAt"@);
        lemma_lookup_concat(oe("lastReviewedAt"@, f.last_reviewed_at), r8, "createdAt"@);
        lemma_oe_lookup("nextReviewAt"@, f.next_review_at, "createdAt"@);
        lemma_lookup_concat(oe("nextReviewAt"@, f.next_review_at), r9, "createdAt"@);
        lemma_te_lookup("createdAt"@, f.created_at, "createdAt"@);
        lemma_lookup_concat(te("createdAt"@, f.created_at), r10, "createdAt"@);
    }
    assert(text_of(p, "updatedAt"@) == Some(f.updated_at)) by {
        lemma_te_lookup("questionSyncUuid"@, key, "updatedAt"@);
        lemma_lookup_concat(te("questionSyncUuid"@, key), r1, "updatedAt"@);
        lemma_te_lookup("topicSyncUuid"@, f.topic_id, "updatedAt"@);
        lemma_lookup_concat(te("topicSyncUuid"@, f.topic_id), r2, "updatedAt"@);
        lemma_te_lookup("status"@, f.status, "updatedAt"@);
        lemma_lookup_concat(te("status"@, f.status), r3, "updatedAt"@);
        lemma_ie_lookup("confidenceLevel"@, f.confidence_level, "updatedAt"@);
        lemma_lookup_concat(ie("confidenceLevel"@, f.confidence_level), r4, "updatedAt"@);
        lemma_ie_lookup("timesReviewed"@, f.times_reviewed, "updatedAt"@);
        lemma_lookup_concat(ie("timesReviewed"@, f.times_reviewed), r5, "updatedAt"@);
        lemma_ie_lookup("timesCorrect"@, f.times_correct, "updatedAt"@);
        lemma_lookup_concat(ie("timesCorrect"@, f.times_correct), r6, "updatedAt"@);
        lemma_ie_lookup("timesIncorrect"@, f.times_incorrect, "updatedAt"@);
        lemma_lookup_concat(ie("timesIncorrect"@, f.times_incorrect), r7, "updatedAt"@);
        lemma_oe_lookup("lastReviewedAt"@, f.last_reviewed_at, "updatedAt"@);
        lemma_lookup_concat(oe("lastReviewedAt"@, f.last_reviewed_at), r8, "updatedAt"@);
        lemma_oe_lookup("nextReviewAt"@, f.next_review_at, "updatedAt"@);
        lemma_lookup_concat(oe("nextReviewAt"@, f.next_review_at), r9, "updatedAt"@);
        lemma_te_lookup("createdAt"@, f.created_at, "updatedAt"@);
        lemma_lookup_concat(te("createdAt"@, f.created_at), r10, "updatedAt"@);
        lemma_te_lookup("updatedAt"@, f.updated_at, "updatedAt"@);
    }
}

/// The payload of a live quiz-session row.
pub open spec fn enc_session(f: SessionFieldsV) -> Seq<EntryV> {
    te("sessionType"@, f.session_type) + (oe("topicIds"@, f.topic_ids) + (oe("questionIds"@, f.question_ids) + (ie("currentIndex"@, f.current_index) + (te("startedAt"@, f.started_at) + (oe("completedAt"@, f.completed_at) + (oe("results"@, f.results)))))))
}

/// Reading back a live quiz-session row's payload; the error names the first
/// missing required field.
pub open spec fn dec_session(p: Seq<EntryV>) -> Result<SessionFieldsV, Seq<char>> {
    if text_of(p, "startedAt"@) is None {
        Err("startedAt"@)
    } else {
        Ok(SessionFieldsV {
            session_type: text_or(p, "sessionType"@, "Random"@),
            topic_ids: text_of(p, "topicIds"@),
            question_ids: text_of(p, "questionIds"@),
            current_index: int_of(p, "currentIndex"@),
            started_at: text_of(p, "startedAt"@)->Some_0,
            completed_at: text_of(p, "completedAt"@),
            results: text_of(p, "results"@),
        })
    }
}

/// What was serialized is read back unchanged: the codec loses no
/// session field.
pub proof fn lemma_session_round_trip(f: SessionFieldsV)
    ensures
        dec_session(enc_session(f)) == Ok::<SessionFieldsV, Seq<char>>(f),
{
    broadcast use vstd::string::group_string_axioms;

    reveal_strlit("sessionType");
    reveal_strlit("topicIds");
    reveal_strlit("questionIds");
    reveal_strlit("currentIndex");
    reveal_strlit("startedAt");
    reveal_strlit("completedAt");
    reveal_strlit("results");
    assert(("sessionType"@).len() == 11);
    assert(("sessionType"@)[0] == 's');
    assert(("sessionType"@)[1] == 'e');
    assert(("topicIds"@).len() == 8);
    assert(("topicIds"@)[0] == 't');
    assert(("topicIds"@)[1] == 'o');
    assert(("questionIds"@).len() == 11);
    assert(("questionIds"@)[0] == 'q');
    assert(("questionIds"@)[1] == 'u');
    assert(("currentIndex"@).len() == 12);
    assert(("currentIndex"@)[0] == 'c');
    assert(("currentIndex"@)[1] == 'u');
    assert(("startedAt"@).len() == 9);
    assert(("startedAt"@)[0] == 's');
    assert(("startedAt"@)[1] == 't');
    assert(("completedAt"@).len() == 11);
    assert(("completedAt"@)[0] == 'c');
    assert(("completedAt"@)[1] == 'o');
    assert(("results"@).len() == 7);
    assert(("results"@)[0] == 'r');
    assert(("results"@)[1] == 'e');
    reveal_strlit("Random");
    let p = enc_session(f);
    let r6 = oe("results"@, f.results);
    let r5 = oe("completedAt"@, f.completed_at) + r6;
    let r4 = te("startedAt"@, f.started_at) + r5;
    let r3 = ie("currentIndex"@, f.current_index) + r4;
    let r2 = oe("questionIds"@, f.question_ids) + r3;
    let r1 = oe("topicIds"@, f.topic_ids) + r2;
    let r0 = te("sessionType"@, f.session_type) + r1;
    assert(p == r0);
    assert(text_of(p, "sessionType"@) == Some(f.session_type)) by {
        lemma_te_lookup("sessionType"@, f.session_type, "sessionType"@);
        lemma_lookup_concat(te("sessionType"@, f.session_type), r1, "sessionType"@);
    }
    assert(text_of(p, "topicIds"@) == f.topic_ids) by {
        lemma_te_lookup("sessionType"@, f.session_type, "topicIds"@);
        lemma_lookup_concat(te("sessionType"@, f.session_type), r1, "topicIds"@);
        lemma_oe_lookup("topicIds"@, f.topic_ids, "topicIds"@);
        lemma_lookup_concat(oe("topicIds"@, f.topic_ids), r2, "topicIds"@);
        lemma_oe_lookup("questionIds"@, f.question_ids, "topicIds"@);
        lemma_lookup_concat(oe("questionIds"@, f.question_ids), r3, "topicIds"@);
        lemma_ie_lookup("currentIndex"@, f.current_index, "topicIds"@);
        lemma_lookup_concat(ie("currentIndex"@, f.current_index), r4, "topicIds"@);
        lemma_te_lookup("startedAt"@, f.started_at, "topicIds"@);
        lemma_lookup_concat(te("startedAt"@, f.started_at), r5, "topicIds"@);
        lemma_oe_lookup("completedAt"@, f.completed_at, "topicIds"@);
        lemma_lookup_concat(oe("completedAt"@, f.completed_at), r6, "topicIds"@);
        lemma_oe_lookup("results"@, f.results, "topicIds"@);
    }
    assert(text_of(p, "questionIds"@) == f.question_ids) by {
        lemma_te_lookup("sessionType"@, f.session_type, "questionIds"@);
        lemma_lookup_concat(te("sessionType"@, f.session_type), r1, "questionIds"@);
        lemma_oe_lookup("topicIds"@, f.topic_ids, "questionIds"@);
        lemma_lookup_concat(oe("topicIds"@, f.topic_ids), r2, "questionIds"@);
        lemma_oe_lookup("questionIds"@, f.question_ids, "questionIds"@);
        lemma_lookup_concat(oe("questionIds"@, f.question_ids), r3, "questionIds"@);
        lemma_ie_lookup("currentIndex"@, f.current_index, "questionIds"@);
        lemma_lookup_concat(ie("currentIndex"@, f.current_index), r4, "questionIds"@);
        lemma_te_lookup("startedAt"@, f.started_at, "questionIds"@);
        lemma_lookup_concat(te("startedAt"@, f.started_at), r5, "questionIds"@);
        lemma_oe_lookup("completedAt"@, f.completed_at, "questionIds"@);
        lemma_lookup_concat(oe("completedAt"@, f.completed_at), r6, "questionIds"@);
        lemma_oe_lookup("results"@, f.results, "questionIds"@);
    }
    assert(int_of(p, "currentIndex"@) == f.current_index) by {
        lemma_te_lookup("sessionType"@, f.session_type, "currentIndex"@);
        lemma_lookup_concat(te("sessionType"@, f.session_type), r1, "currentIndex"@);
        lemma_oe_lookup("topicIds"@, f.topic_ids, "currentIndex"@);
        lemma_lookup_concat(oe("topicIds"@, f.topic_ids), r2, "currentIndex"@);
        lemma_oe_lookup("questionIds"@, f.question_ids, "currentIndex"@);
        lemma_lookup_concat(oe("questionIds"@, f.question_ids), r3, "currentIndex"@);
        lemma_ie_lookup("currentIndex"@, f.current_index, "currentIndex"@);
        lemma_lookup_concat(ie("currentIndex"@, f.current_index), r4, "currentIndex"@);
    }
    assert(text_of(p, "startedAt"@) == Some(f.started_at)) by {
        lemma_te_lookup("sessionType"@, f.session_type, "startedAt"@);
        lemma_lookup_concat(te("sessionType"@, f.session_type), r1, "startedAt"@);
        lemma_oe_lookup("topicIds"@, f.topic_ids, "startedAt"@);
        lemma_lookup_concat(oe("topicIds"@, f.topic_ids), r2, "startedAt"@);
        lemma_oe_lookup("questionIds"@, f.question_ids, "startedAt"@);
        lemma_lookup_concat(oe("questionIds"@, f.question_ids), r3, "startedAt"@);
        lemma_ie_lookup("currentIndex"@, f.current_index, "startedAt"@);
        lemma_lookup_concat(ie("currentIndex"@, f.current_index), r4, "startedAt"@);
        lemma_te_lookup("startedAt"@, f.started_at, "startedAt"@);
        lemma_lookup_concat(te("startedAt"@, f.started_at), r5, "startedAt"@);
    }
    assert(text_of(p, "completedAt"@) == f.completed_at) by {
        lemma_te_lookup("sessionType"@, f.session_type, "completedAt"@);
        lemma_lookup_concat(te("sessionType"@, f.session_type), r1, "completedAt"@);
        lemma_oe_lookup("topicIds"@, f.topic_ids, "completedAt"@);
        lemma_lookup_concat(oe("topicIds"@, f.topic_ids), r2, "completedAt"@);
        lemma_oe_lookup("questionIds"@, f.question_ids, "completedAt"@);
        lemma_lookup_concat(oe("questionIds"@, f.question_ids), r3, "completedAt"@);
        lemma_ie_lookup("currentIndex"@, f.current_index, "completedAt"@);
        lemma_lookup_concat(ie("currentIndex"@, f.current_index), r4, "completedAt"@);
        lemma_te_lookup("startedAt"@, f.started_at, "completedAt"@);
        lemma_lookup_concat(te("startedAt"@, f.started_at), r5, "completedAt"@);
        lemma_oe_lookup("completedAt"@, f.completed_at, "completedAt"@);
        lemma_lookup_concat(oe("completedAt"@, f.completed_at), r6, "completedAt"@);
        lemma_oe_lookup("results"@, f.results, "completedAt"@);
    }
    assert(text_of(p, "results"@) == f.results) by {
        lemma_te_lookup("sessionType"@, f.session_type, "results"@);
        lemma_lookup_concat(te("sessionType"@, f.session_type), r1, "results"@);
        lemma_oe_lookup("topicIds"@, f.topic_ids, "results"@);
        lemma_lookup_concat(oe("topicIds"@, f.topic_ids), r2, "results"@);
        lemma_oe_lookup("questionIds"@, f.question_ids, "results"@);
        lemma_lookup_concat(oe("questionIds"@, f.question_ids), r3, "results"@);
        lemma_ie_lookup("currentIndex"@, f.current_index, "results"@);
        lemma_lookup_concat(ie("currentIndex"@, f.current_index), r4, "results"@);
        lemma_te_lookup("startedAt"@, f.started_at, "results"@);
        lemma_lookup_concat(te("startedAt"@, f.started_at), r5, "results"@);
        lemma_oe_lookup("completedAt"@, f.completed_at, "results"@);
        lemma_lookup_concat(oe("completedAt"@, f.completed_at), r6, "results"@);
        lemma_oe_lookup("results"@, f.results, "results"@);
    }
}
/// Serializes a live topic row's fields.
pub fn encode_topic(f: &TopicFields) -> (r: Payload)
    ensures
        r@ =~= enc_topic(f@),
{
    let mut p = Payload::empty();
    p.push_text(String::from_str("name"), f.name.clone());
    p.push_opt_text(String::from_str("description"), clone_opt(&f.description));
    p.push_text(String::from_str("slug"), f.slug.clone());
    p.push_opt_text(String::from_str("icon"), clone_opt(&f.icon));
    p.push_opt_text(String::from_str("color"), clone_opt(&f.color));
    p.push_opt_text(String::from_str("subtopics"), clone_opt(&f.subtopics));
    p.push_int(String::from_str("orderIndex"), f.order_index);
    p.push_text(String::from_str("createdAt"), f.created_at.clone());
    p.push_text(String::from_str("updatedAt"), f.updated_at.clone());
    p
}

/// Reads back a live topic row's payload, refusing one that misses a
/// required field.
pub fn decode_topic(p: &Payload) -> (r: Result<TopicFields, String>)
    ensures
        ({
            let d = dec_topic(p@);
            match r {
                Ok(f) => d == Ok::<TopicFieldsV, Seq<char>>(f@),
                Err(e) => d == Err::<TopicFieldsV, Seq<char>>(e@),
            }
        }),
{
    let name = match get_text(p, "name") {
        Some(s) => s,
        None => {
            return Err(String::from_str("name"));
        }
    };
    let slug = match get_text(p, "slug") {
        Some(s) => s,
        None => {
            return Err(String::from_str("slug"));
        }
    };
    let created_at = match get_text(p, "createdAt") {
        Some(s) => s,
        None => {
            return Err(String::from_str("createdAt"));
        }
    };
    let updated_at = match get_text(p, "updatedAt") {
        Some(s) => s,
        None => {
            return Err(String::from_str("updatedAt"));
        }
    };
    Ok(TopicFields {
        name,
        description: get_text(p, "description"),
        slug,
        icon: get_text(p, "icon"),
        color: get_text(p, "color"),
        subtopics: get_text(p, "subtopics"),
        order_index: get_int(p, "orderIndex"),
        created_at,
        updated_at,
    })
}

/// Serializes a live question row's fields.
pub fn encode_question(f: &QuestionFields) -> (r: Payload)
    ensures
        r@ =~= enc_question(f@),
{
    let mut p = Payload::empty();
    p.push_text(String::from_str("topicSyncUuid"), f.topic_id.clone());
    p.push_opt_text(String::from_str("subtopic"), clone_opt(&f.subtopic));
    p.push_int(String::from_str("questionNumber"), f.question_number);
    p.push_text(String::from_str("question"), f.question.clone());
    p.push_text(String::from_str("answer"), f.answer.clone());
    p.push_opt_text(String::from_str("tags"), clone_opt(&f.tags));
    p.push_opt_text(String::from_str("difficulty"), clone_opt(&f.difficulty));
    p.push_int(String::from_str("orderIndex"), f.order_index);
    p.push_text(String::from_str("createdAt"), f.created_at.clone());
    p.push_text(String::from_str("updatedAt"), f.updated_at.clone());
    p
}

/// Reads back a live question row's payload, refusing one that misses a
/// required field.
pub fn decode_question(p: &Payload) -> (r: Result<QuestionFields, String>)
    ensures
        ({
            let d = dec_question(p@);
            match r {
                Ok(f) => d == Ok::<QuestionFieldsV, Seq<char>>(f@),
                Err(e) => d == Err::<QuestionFieldsV, Seq<char>>(e@),
            }
        }),
{
    let topic_id = match get_text(p, "topicSyncUuid") {
        Some(s) => s,
        None => {
            return Err(String::from_str("topicSyncUuid"));
        }
    };
    let question = match get_text(p, "question") {
        Some(s) => s,
        None => {
            return Err(String::from_str("question"));
        }
    };
    let answer = match get_text(p, "answer") {
        Some(s) => s,
        None => {
            return Err(String::from_str("answer"));
        }
    };
    let created_at = match get_text(p, "createdAt") {
        Some(s) => s,
        None => {
            return Err(String::from_str("createdAt"));
        }
    };
    let updated_at = match get_text(p, "updatedAt") {
        Some(s) => s,
        None => {
            return Err(String::from_str("updatedAt"));
        }
    };
    Ok(QuestionFields {
        topic_id,
        subtopic: get_text(p, "subtopic"),
        question_number: get_int(p, "questionNumber"),
        question,
        answer,
        tags: get_text(p, "tags"),
        difficulty: get_text(p, "difficulty"),
        order_index: get_int(p, "orderIndex"),
        created_at,
        updated_at,
    })
}

/// Serializes a live progress row's fields.
pub fn encode_progress(key: &String, f: &ProgressFields) -> (r: Payload)
    ensures
        r@ =~= enc_progress(key@, f@),
{
    let mut p = Payload::empty();
    p.push_text(String::from_str("questionSyncUuid"), key.clone());
    p.push_text(String::from_str("topicSyncUuid"), f.topic_id.clone());
    p.push_text(String::from_str("status"), f.status.clone());
    p.push_int(String::from_str("confidenceLevel"), f.confidence_level);
    p.push_int(String::from_str("timesReviewed"), f.times_reviewed);
    p.push_int(String::from_str("timesCorrect"), f.times_correct);
    p.push_int(String::from_str("timesIncorrect"), f.times_incorrect);
    p.push_opt_text(String::from_str("lastReviewedAt"), clone_opt(&f.last_reviewed_at));
    p.push_opt_text(String::from_str("nextReviewAt"), clone_opt(&f.next_review_at));
    p.push_text(String::from_str("createdAt"), f.created_at.clone());
    p.push_text(String::from_str("updatedAt"), f.updated_at.clone());
    p
}

/// Reads back a live progress row's payload, refusing one that misses a
/// required field.
pub fn decode_progress(p: &Payload) -> (r: Result<ProgressFields, String>)
    ensures
        ({
            let d = dec_progress(p@);
            match r {
                Ok(f) => d == Ok::<ProgressFieldsV, Seq<char>>(f@),
                Err(e) => d == Err::<ProgressFieldsV, Seq<char>>(e@),
            }
        }),
{
    let topic_id = match get_text(p, "topicSyncUuid") {
        Some(s) => s,
        None => {
            return Err(String::from_str("topicSyncUuid"));
        }
    };
    let created_at = match get_text(p, "createdAt") {
        Some(s) => s,
        None => {
            return Err(String::from_str("createdAt"));
        }
    };
    let updated_at = match get_text(p, "updatedAt") {
        Some(s) => s,
        None => {
            return Err(String::from_str("updatedAt"));
        }
    };
    Ok(ProgressFields {
        topic_id,
        status: get_text_or(p, "status", "NotStudied"),
        confidence_level: get_int(p, "confidenceLevel"),
        times_reviewed: get_int(p, "timesReviewed"),
        times_correct: get_int(p, "timesCorrect"),
        times_incorrect: get_int(p, "timesIncorrect"),
        last_reviewed_at: get_text(p, "lastReviewedAt"),
        next_review_at: get_text(p, "nextReviewAt"),
        created_at,
        updated_at,
    })
}

/// Serializes a live quiz-session row's fields.
pub fn encode_session(f: &SessionFields) -> (r: Payload)
    ensures
        r@ =~= enc_session(f@),
{
    let mut p = Payload::empty();
    p.push_text(String::from_str("sessionType"), f.session_type.clone());
    p.push_opt_text(String::from_str("topicIds"), clone_opt(&f.topic_ids));
    p.push_opt_text(String::from_str("questionIds"), clone_opt(&f.question_ids));
    p.push_int(String::from_str("currentIndex"), f.current_index);
    p.push_text(String::from_str("startedAt"), f.started_at.clone());
    p.push_opt_text(String::from_str("completedAt"), clone_opt(&f.completed_at));
    p.push_opt_text(String::from_str("results"), clone_opt(&f.results));
    p
}

/// Reads back a live quiz-session row's payload, refusing one that misses a
/// required field.
pub fn decode_session(p: &Payload) -> (r: Result<SessionFields, String>)
    ensures
        ({
            let d = dec_session(p@);
            match r {
                Ok(f) => d == Ok::<SessionFieldsV, Seq<char>>(f@),
                Err(e) => d == Err::<SessionFieldsV, Seq<char>>(e@),
            }
        }),
{
    let started_at = match get_text(p, "startedAt") {
        Some(s) => s,
        None => {
            return Err(String::from_str("startedAt"));
        }
    };
    Ok(SessionFields {
        session_type: get_text_or(p, "sessionType", "Random"),
        topic_ids: get_text(p, "topicIds"),
        question_ids: get_text(p, "questionIds"),
        current_index: get_int(p, "currentIndex"),
        started_at,
        completed_at: get_text(p, "completedAt"),
        results: get_text(p, "results"),
    })
}

/// Reads the primary key a progress record upserts under.
pub fn decode_progress_key(p: &Payload, rec_key: &String) -> (r: String)
    ensures
        r@ == dec_progress_key(p@, rec_key@),
{
    match get_text(p, "questionSyncUuid") {
        Some(s) => s,
        None => rec_key.clone(),
    }
}

} // verus!