use vstd::prelude::*;

use crate::imputation::{lemma_same_work_fields, same_work, Imputation};
use crate::text::normalized;

verus! {

/// What to do with one imputation once the stored copy of its worklog, if
/// any, is known.
#[derive(Debug, PartialEq, Eq, Structural)]
pub enum Plan {
    /// The worklog is recorded and unchanged: nothing to send.
    Skip,
    /// No worklog is recorded for it: create one.
    Create,
    /// The worklog with this id is recorded but differs: update it.
    Update(i64),
}

/// The plan for `imputation`: an imputation with a Tempo id whose stored
/// copy describes the same work is skipped, one whose stored copy differs is
/// updated, and any other (no id, or no stored copy) is created.
pub open spec fn planned(imputation: Imputation, stored: Option<Imputation>) -> Plan {
    match imputation.tempo_id {
        None => Plan::Create,
        Some(id) => match stored {
            None => Plan::Create,
            Some(s) => if same_work(imputation, s) {
                Plan::Skip
            } else {
                Plan::Update(id)
            },
        },
    }
}

/// The plan for `imputation` (see [`planned`]); `stored` is the copy of its
/// worklog that the database holds, looked up only where the imputation has
/// a Tempo id.
pub fn plan(imputation: &Imputation, stored: &Option<Imputation>) -> (r: Plan)
    ensures
        r == planned(*imputation, *stored),
{
    match imputation.tempo_id {
        None => Plan::Create,
        Some(id) => match stored {
            None => Plan::Create,
            Some(s) => if imputation.compare(s) {
                Plan::Skip
            } else {
                Plan::Update(id)
            },
        },
    }
}

/// An imputation with a Tempo id and a stored copy is skipped exactly when
/// the two have the same id and every text field, the description included,
/// reads the same once lower-cased and trimmed; otherwise its worklog is
/// updated under its own id. One without an id, or without a stored copy,
/// is created.
pub proof fn lemma_plan_by_fields(imputation: Imputation, stored: Option<Imputation>)
    ensures
        imputation.tempo_id is None ==> planned(imputation, stored) == Plan::Create,
        stored is None ==> planned(imputation, stored) == Plan::Create,
        imputation.tempo_id is Some && stored is Some ==> {
            let s = stored->0;
            let same = imputation.tempo_id == s.tempo_id && normalized(imputation.user@)
                == normalized(s.user@) && normalized(imputation.day@) == normalized(s.day@)
                && normalized(imputation.issue@) == normalized(s.issue@) && normalized(
                imputation.description@,
            ) == normalized(s.description@) && normalized(imputation.time@) == normalized(
                s.time@,
            );
            planned(imputation, stored) == (if same {
                Plan::Skip
            } else {
                Plan::Update(imputation.tempo_id->0)
            })
        },
{
    if stored is Some {
        lemma_same_work_fields(imputation, stored->0);
    }
}

/// Writing a Tempo id back leaves the number of rows and every other row as
/// they were, ids included; the row itself gets the id and keeps its text.
pub proof fn lemma_with_tempo_id_rows(s: Seq<Imputation>, row: int, tempo_id: i64)
    ensures
        with_tempo_id(s, row, tempo_id).len() == s.len(),
        forall|j: int|
            0 <= j < s.len() && j != row ==> #[trigger] with_tempo_id(s, row, tempo_id)[j]
                == s[j],
        0 <= row < s.len() ==> {
            let r = with_tempo_id(s, row, tempo_id)[row];
            &&& r.tempo_id == Some(tempo_id)
            &&& r.user == s[row].user
            &&& r.day == s[row].day
            &&& r.issue == s[row].issue
            &&& r.description == s[row].description
            &&& r.time == s[row].time
        },
{
}

/// A row that got the id of the worklog created for it, and whose worklog
/// the database holds as the row stands, is skipped on the next run.
pub proof fn lemma_recorded_row_is_skipped(s: Seq<Imputation>, row: int, tempo_id: i64)
    requires
        0 <= row < s.len(),
    ensures
        planned(
            with_tempo_id(s, row, tempo_id)[row],
            Some(with_tempo_id(s, row, tempo_id)[row]),
        ) == Plan::Skip,
{
}

/// Where the run through the imputations stands: the row number that the
/// next created worklog is written back to, and the user whose session is
/// open.
#[derive(Debug)]
pub struct Progress {
    pub index: i32,
    pub current_user: String,
}

impl Progress {
    /// The start of a run: row 0, no session.
    pub fn new() -> (r: Progress)
        ensures
            r.index == 0,
            r.current_user@ == Seq::<char>::empty(),
    {
        Progress { index: 0, current_user: String::new() }
    }

    /// Moves the session to `user`; whether a new session (a new HTTP
    /// client) is needed, which is when the user changes.
    pub fn switch_user(&mut self, user: &String) -> (renew: bool)
        ensures
            renew == (old(self).current_user@ != user@),
            final(self).current_user@ == user@,
            final(self).index == old(self).index,
    {
        if self.current_user == *user {
            false
        } else {
            self.current_user = user.clone();
            true
        }
    }

    /// Moves to the next row index (see [`step`] for when a run does so).
    pub fn advance(&mut self)
        requires
            old(self).index < i32::MAX,
        ensures
            final(self).index == old(self).index + 1,
            final(self).current_user@ == old(self).current_user@,
    {
        self.index = self.index + 1;
    }
}

/// The imputation at `row` with its Tempo id set to `tempo_id`; every other
/// row as it was.
pub open spec fn with_tempo_id(s: Seq<Imputation>, row: int, tempo_id: i64) -> Seq<Imputation> {
    if 0 <= row < s.len() {
        s.update(
            row,
            Imputation {
                tempo_id: Some(tempo_id),
                user: s[row].user,
                day: s[row].day,
                issue: s[row].issue,
                description: s[row].description,
                time: s[row].time,
            },
        )
    } else {
        s
    }
}

/// The rows of the imputations file after recording the worklog `tempo_id`
/// for the row `row` (counted from 0): that row gets the id, the others stay.
pub fn set_tempo_id(imputations: Vec<Imputation>, row: i32, tempo_id: i64) -> (r: Vec<
    Imputation,
>)
    requires
        imputations@.len() <= 2147483648,
    ensures
        r@ == with_tempo_id(imputations@, row as int, tempo_id),
{
    let mut v = imputations;
    if 0 <= row && (row as usize) < v.len() {
        let i = row as usize;
        let mut imp = v.remove(i);
        imp.tempo_id = Some(tempo_id);
        v.insert(i, imp);
        proof {
            assert(v@ =~= with_tempo_id(imputations@, row as int, tempo_id));
        }
    }
    v
}

/// An imputation with no Tempo id and every text field empty.
pub open spec fn is_blank(x: Imputation) -> bool {
    &&& x.tempo_id is None
    &&& x.user@ == Seq::<char>::empty()
    &&& x.day@ == Seq::<char>::empty()
    &&& x.issue@ == Seq::<char>::empty()
    &&& x.description@ == Seq::<char>::empty()
    &&& x.time@ == Seq::<char>::empty()
}

/// The rows without the row `row` (counted from 0), or all of them where
/// `row` is out of range.
pub open spec fn drop_row(s: Seq<Imputation>, row: int) -> Seq<Imputation> {
    if 0 <= row < s.len() {
        s.remove(row)
    } else {
        s
    }
}

/// The rows of the imputations file after removing the row `row`: where no
/// row is left (the file was empty, or its only row was removed), one blank
/// imputation is written so that the file keeps its header.
pub fn remove_row(imputations: Vec<Imputation>, row: i32) -> (r: Vec<Imputation>)
    requires
        imputations@.len() <= 2147483648,
    ensures
        drop_row(imputations@, row as int).len() == 0 ==> r@.len() == 1 && is_blank(r@[0]),
        drop_row(imputations@, row as int).len() > 0 ==> r@ == drop_row(imputations@, row as int),
{
    let mut v = imputations;
    if 0 <= row && (row as usize) < v.len() {
        v.remove(row as usize);
    }
    if v.len() == 0 {
        v.push(Imputation::default());
    }
    v
}

/// The answer of a lookup in a cache table from its first row: `None` where
/// there is no row, `Some(None)` where the row does not read, else the value
/// read. Found is `true` with the value, or `false` with an empty text.
pub fn lookup_outcome(first_row: Option<Option<String>>) -> (r: (bool, String))
    ensures
        match first_row {
            Some(Some(v)) => r.0 && r.1@ == v@,
            _ => !r.0 && r.1@ == Seq::<char>::empty(),
        },
{
    match first_row {
        Some(Some(v)) => (true, v),
        _ => (false, String::new()),
    }
}

/// The answer of a lookup of a recorded worklog from its first row, as
/// [`lookup_outcome`] reads it; a blank imputation where none is found.
pub fn work_lookup_outcome(first_row: Option<Option<Imputation>>) -> (r: (bool, Imputation))
    ensures
        match first_row {
            Some(Some(w)) => r.0 && r.1 == w,
            _ => !r.0 && is_blank(r.1),
        },
{
    match first_row {
        Some(Some(w)) => (true, w),
        _ => (false, Imputation::default()),
    }
}

/// The value that a cache lookup gives, where it found one; `None` means
/// that Jira must be asked (and the answer stored).
pub fn cached_value(lookup: (bool, String)) -> (r: Option<String>)
    ensures
        lookup.0 ==> r == Some(lookup.1),
        !lookup.0 ==> r is None,
{
    if lookup.0 {
        Some(lookup.1)
    } else {
        None
    }
}


/// The row bookkeeping of one imputation once its plan, its credential
/// (`None` where the credentials file has none for its user) and the
/// outcome of the login are known. A skipped imputation, or one without
/// credentials, leaves the row index as it is and writes nothing back; any
/// other reached the login and advances the index by one. The row to write
/// the new Tempo id back to is the index before the step, and only for a
/// worklog that was created, which takes a successful login.
pub fn step(progress: &mut Progress, plan: &Plan, credential: Option<usize>, login_ok: bool) -> (write_back: Option<i32>)
    requires
        !(*plan is Skip) && credential is Some ==> old(progress).index < i32::MAX,
    ensures
        final(progress).current_user@ == old(progress).current_user@,
        (*plan is Skip || credential is None) ==> final(progress).index == old(progress).index,
        !(*plan is Skip || credential is None) ==> final(progress).index == old(progress).index + 1,
        write_back == (if !(*plan is Skip) && credential is Some && *plan is Create && login_ok {
            Some(old(progress).index)
        } else {
            None
        }),
{
    match plan {
        Plan::Skip => None,
        _ => match credential {
            None => None,
            Some(_) => {
                let row = progress.index;
                progress.advance();
                match plan {
                    Plan::Create => if login_ok {
                        Some(row)
                    } else {
                        None
                    },
                    _ => None,
                }
            },
        },
    }
}

} // verus!
