//! Wire-level types: the transport-agnostic change record, its open
//! key/value payload, and the resumption checkpoint.

use vstd::prelude::*;

verus! {

use crate::Collection;

/// A scalar payload value. Null-valued fields are never transmitted;
/// absence from the payload stands for null.
#[derive(Clone, Debug, PartialEq)]
pub enum Value {
    Text(String),
    Int(i64),
}

/// Spec-level payload value.
pub enum ValueV {
    Text(Seq<char>),
    Int(int),
}

impl View for Value {
    type V = ValueV;

    open spec fn view(&self) -> ValueV {
        match self {
            Value::Text(s) => ValueV::Text(s@),
            Value::Int(n) => ValueV::Int(*n as int),
        }
    }
}

/// One named field of a payload.
#[derive(Clone, Debug, PartialEq)]
pub struct PayloadEntry {
    pub key: String,
    pub value: Value,
}

/// Spec-level payload entry.
pub struct EntryV {
    pub key: Seq<char>,
    pub value: ValueV,
}

impl View for PayloadEntry {
    type V = EntryV;

    open spec fn view(&self) -> EntryV {
        EntryV { key: self.key@, value: self.value@ }
    }
}

/// Looks a key up in a payload; the first matching entry wins.
pub open spec fn lookup(entries: Seq<EntryV>, key: Seq<char>) -> Option<ValueV>
    decreases entries.len(),
{
    if entries.len() == 0 {
        None
    } else if entries.first().key == key {
        Some(entries.first().value)
    } else {
        lookup(entries.drop_first(), key)
    }
}

/// The open map of non-null domain fields carried by a change record.
#[derive(Clone, Debug, PartialEq)]
pub struct Payload {
    pub entries: Vec<PayloadEntry>,
}

impl View for Payload {
    type V = Seq<EntryV>;

    open spec fn view(&self) -> Seq<EntryV> {
        self.entries@.map_values(|e: PayloadEntry| e@)
    }
}

impl Payload {
    /// A payload with no fields, as carried by tombstone records.
    pub fn empty() -> (r: Payload)
        ensures
            r@ =~= Seq::<EntryV>::empty(),
    {
        Payload { entries: Vec::new() }
    }

    /// Appends a text field.
    pub fn push_text(&mut self, key: String, value: String)
        ensures
            final(self)@ =~= old(self)@.push(EntryV { key: key@, value: ValueV::Text(value@) }),
    {
        self.entries.push(PayloadEntry { key, value: Value::Text(value) });
    }

    /// Appends an integer field.
    pub fn push_int(&mut self, key: String, value: i64)
        ensures
            final(self)@ =~= old(self)@.push(EntryV { key: key@, value: ValueV::Int(value as int) }),
    {
        self.entries.push(PayloadEntry { key, value: Value::Int(value) });
    }

    /// Appends a text field only when the value is present, as null
    /// fields are omitted from the wire format.
    pub fn push_opt_text(&mut self, key: String, value: Option<String>)
        ensures
            final(self)@ =~= old(self)@ + opt_text_entry(key@, opt_str_view(value)),
    {
        match value {
            Some(v) => {
                self.entries.push(PayloadEntry { key, value: Value::Text(v) });
            }
            None => {}
        }
    }

    /// Finds the value stored under a key, if any.
    pub fn get(&self, key: &String) -> (r: Option<&Value>)
        ensures
            match r {
                Some(v) => lookup(self@, key@) == Some(v@),
                None => lookup(self@, key@) is None,
            },
    {
        let mut i: usize = 0;
        proof {
            assert(self@.skip(0) =~= self@);
        }
        while i < self.entries.len()
            invariant
                i <= self.entries.len(),
                lookup(self@, key@) == lookup(self@.skip(i as int), key@),
            decreases self.entries.len() - i,
        {
            assert(self@.skip(i as int).first() == self@[i as int]);
            assert(self@.skip(i as int).drop_first() =~= self@.skip(i as int + 1));
            if self.entries[i].key.eq(key) {
                return Some(&self.entries[i].value);
            }
            i = i + 1;
        }
        assert(self@.skip(i as int).len() == 0);
        None
    }
}

/// Spec view of an optional exec string.
pub open spec fn opt_str_view(o: Option<String>) -> Option<Seq<char>> {
    match o {
        Some(s) => Some(s@),
        None => None,
    }
}

/// The singleton entry sequence for a present optional text field, or
/// the empty sequence for an absent one.
pub open spec fn opt_text_entry(key: Seq<char>, value: Option<Seq<char>>) -> Seq<EntryV> {
    match value {
        Some(v) => seq![EntryV { key, value: ValueV::Text(v) }],
        None => Seq::empty(),
    }
}

/// The sole unit exchanged with the remote service: one changed row,
/// erased to a collection tag, key, payload map, revision, and
/// tombstone flag.
#[derive(Clone, Debug, PartialEq)]
pub struct ChangeRecord {
    pub collection: Collection,
    pub key: String,
    pub payload: Payload,
    pub revision: i64,
    pub deleted: bool,
}

/// Spec-level change record.
pub struct RecordV {
    pub collection: Collection,
    pub key: Seq<char>,
    pub payload: Seq<EntryV>,
    pub revision: int,
    pub deleted: bool,
}

impl View for ChangeRecord {
    type V = RecordV;

    open spec fn view(&self) -> RecordV {
        RecordV {
            collection: self.collection,
            key: self.key@,
            payload: self.payload@,
            revision: self.revision as int,
            deleted: self.deleted,
        }
    }
}

/// Opaque cursor into the remote change stream: the instant of the last
/// pulled change (an RFC 3339 string, exactly as persisted) and the
/// identifier that breaks ties at that instant.
#[derive(Clone, Debug, PartialEq)]
pub struct Checkpoint {
    pub updated_at: String,
    pub id: String,
}

/// Spec-level checkpoint.
pub struct CheckpointV {
    pub updated_at: Seq<char>,
    pub id: Seq<char>,
}

impl View for Checkpoint {
    type V = CheckpointV;

    open spec fn view(&self) -> CheckpointV {
        CheckpointV { updated_at: self.updated_at@, id: self.id@ }
    }
}

impl Collection {
    /// The table name used for this collection on the wire and in the
    /// local schema.
    pub fn table_name(&self) -> (r: &'static str)
        ensures
            r@ == self.spec_table_name(),
    {
        match self {
            Collection::Topics => "topics",
            Collection::Questions => "questions",
            Collection::Progress => "progress",
            Collection::QuizSessions => "quiz_sessions",
        }
    }

    /// Spec-level table name.
    pub open spec fn spec_table_name(self) -> Seq<char> {
        match self {
            Collection::Topics => "topics"@,
            Collection::Questions => "questions"@,
            Collection::Progress => "progress"@,
            Collection::QuizSessions => "quiz_sessions"@,
        }
    }

    /// The closed-enum decoder for wire table names. Unknown names map
    /// to `None`; callers decide whether to skip or reject such records.
    pub fn from_table_name(name: &String) -> (r: Option<Collection>)
        ensures
            r == Self::spec_from_table_name(name@),
    {
        if crate::str_eq(name, "topics") {
            Some(Collection::Topics)
        } else if crate::str_eq(name, "questions") {
            Some(Collection::Questions)
        } else if crate::str_eq(name, "progress") {
            Some(Collection::Progress)
        } else if crate::str_eq(name, "quiz_sessions") {
            Some(Collection::QuizSessions)
        } else {
            None
        }
    }

    /// Spec-level table-name decoder.
    pub open spec fn spec_from_table_name(name: Seq<char>) -> Option<Collection> {
        if name == "topics"@ {
            Some(Collection::Topics)
        } else if name == "questions"@ {
            Some(Collection::Questions)
        } else if name == "progress"@ {
            Some(Collection::Progress)
        } else if name == "quiz_sessions"@ {
            Some(Collection::QuizSessions)
        } else {
            None
        }
    }
}


impl Value {
    /// A content-equal copy.
    pub fn duplicate(&self) -> (r: Value)
        ensures
            r@ == self@,
    {
        match self {
            Value::Text(s) => Value::Text(s.clone()),
            Value::Int(n) => Value::Int(*n),
        }
    }
}

impl Payload {
    /// A content-equal copy.
    pub fn duplicate(&self) -> (r: Payload)
        ensures
            r@ =~= self@,
    {
        let mut entries: Vec<PayloadEntry> = Vec::new();
        let mut i: usize = 0;
        while i < self.entries.len()
            invariant
                i <= self.entries@.len(),
                entries@.len() == i,
                forall|j: int| 0 <= j < i ==> (#[trigger] entries@[j])@ == self.entries@[j]@,
            decreases self.entries@.len() - i,
        {
            let e = PayloadEntry {
                key: self.entries[i].key.clone(),
                value: self.entries[i].value.duplicate(),
            };
            entries.push(e);
            i = i + 1;
        }
        let r = Payload { entries };
        proof {
            assert forall|j: int| 0 <= j < self.entries@.len() implies r@[j] == self@[j] by {}
        }
        r
    }
}

impl ChangeRecord {
    /// A content-equal copy.
    pub fn duplicate(&self) -> (r: ChangeRecord)
        ensures
            r@.collection == self@.collection,
            r@.key == self@.key,
            r@.payload =~= self@.payload,
            r@.revision == self@.revision,
            r@.deleted == self@.deleted,
    {
        ChangeRecord {
            collection: self.collection,
            key: self.key.clone(),
            payload: self.payload.duplicate(),
            revision: self.revision,
            deleted: self.deleted,
        }
    }
}

} // verus!
