use vstd::prelude::*;

use crate::text::{normalize, normalized};

verus! {

/// One row of the imputations file: a stretch of work to record in Tempo.
/// `tempo_id` is the Tempo worklog once the row has been recorded.
#[derive(Debug)]
pub struct Imputation {
    pub tempo_id: Option<i64>,
    pub user: String,
    pub day: String,
    pub issue: String,
    pub description: String,
    pub time: String,
}

/// One row of the credentials file.
#[derive(Debug)]
pub struct Credential {
    pub user: String,
    pub pass: String,
}

/// Two imputations describe the same work: the same Tempo worklog, and the
/// same text in each field once lower-cased and trimmed.
pub open spec fn same_work(a: Imputation, b: Imputation) -> bool {
    &&& a.tempo_id == b.tempo_id
    &&& normalized(a.user@) == normalized(b.user@)
    &&& normalized(a.day@) == normalized(b.day@)
    &&& normalized(a.issue@) == normalized(b.issue@)
    &&& normalized(a.description@) == normalized(b.description@)
    &&& normalized(a.time@) == normalized(b.time@)
}

fn same_text(a: &String, b: &String) -> (r: bool)
    ensures
        r == (normalized(a@) == normalized(b@)),
{
    let x = normalize(a.as_str());
    let y = normalize(b.as_str());
    x == y
}

fn same_tempo_id(a: Option<i64>, b: Option<i64>) -> (r: bool)
    ensures
        r == (a == b),
{
    match (a, b) {
        (Some(x), Some(y)) => x == y,
        (None, None) => true,
        _ => false,
    }
}

impl Imputation {
    /// Whether `self` and `other` describe the same work (see [`same_work`]):
    /// equal Tempo ids, and every text field equal after `to_lowercase` and
    /// `trim`.
    pub fn compare(&self, other: &Imputation) -> (r: bool)
        ensures
            r == same_work(*self, *other),
    {
        same_tempo_id(self.tempo_id, other.tempo_id) && same_text(&self.user, &other.user)
            && same_text(&self.day, &other.day) && same_text(&self.issue, &other.issue)
            && same_text(&self.description, &other.description) && same_text(
            &self.time,
            &other.time,
        )
    }

    /// The empty imputation: no Tempo id and every text field empty.
    pub fn default() -> (r: Imputation)
        ensures
            r.tempo_id is None,
            r.user@ == Seq::<char>::empty(),
            r.day@ == Seq::<char>::empty(),
            r.issue@ == Seq::<char>::empty(),
            r.description@ == Seq::<char>::empty(),
            r.time@ == Seq::<char>::empty(),
    {
        Imputation {
            tempo_id: None,
            user: String::new(),
            day: String::new(),
            issue: String::new(),
            description: String::new(),
            time: String::new(),
        }
    }
}

/// Two imputations describe the same work exactly when they carry the same
/// Tempo id and every text field (user, day, issue, description and time)
/// reads the same once lower-cased and trimmed; a difference in any one
/// field, anywhere in it, makes them different work.
pub proof fn lemma_same_work_fields(a: Imputation, b: Imputation)
    ensures
        same_work(a, b) <==> (a.tempo_id == b.tempo_id && normalized(a.user@) == normalized(
            b.user@,
        ) && normalized(a.day@) == normalized(b.day@) && normalized(a.issue@) == normalized(
            b.issue@,
        ) && normalized(a.description@) == normalized(b.description@) && normalized(a.time@)
            == normalized(b.time@)),
        normalized(a.description@) != normalized(b.description@) ==> !same_work(a, b),
        normalized(a.user@) != normalized(b.user@) ==> !same_work(a, b),
        normalized(a.day@) != normalized(b.day@) ==> !same_work(a, b),
        normalized(a.issue@) != normalized(b.issue@) ==> !same_work(a, b),
        normalized(a.time@) != normalized(b.time@) ==> !same_work(a, b),
        a.tempo_id != b.tempo_id ==> !same_work(a, b),
{
}

/// Every imputation describes the same work as itself.
pub proof fn lemma_same_work_reflexive(a: Imputation)
    ensures
        same_work(a, a),
{
}

/// Describing the same work does not depend on the order of the two.
pub proof fn lemma_same_work_symmetric(a: Imputation, b: Imputation)
    ensures
        same_work(a, b) == same_work(b, a),
{
}

/// Two imputations that describe the same work as a third describe the same
/// work as each other.
pub proof fn lemma_same_work_transitive(a: Imputation, b: Imputation, c: Imputation)
    requires
        same_work(a, b),
        same_work(b, c),
    ensures
        same_work(a, c),
{
}

} // verus!
