//! The contributor table and its four operations.
//!
//! The store keeps one row per contribution: the uid that made it, when it
//! started, and at most one of two terminal outcomes (finished or expired).
//! The operations are an existence check and three mutations; each mutation
//! stamps the rows it touches with the wall-clock time of the call.

use vstd::prelude::*;

verus! {

/// A contributor's row: when the contribution started, and — for a
/// well-behaved caller — at most one of the two terminal outcomes.
/// Timestamps are UTC seconds since the Unix epoch.
pub struct ContributorRecord {
    pub uid: String,
    pub started_at: i64,
    pub finished_at: Option<i64>,
    pub expired_at: Option<i64>,
}

/// The mathematical model of one row.
pub ghost struct RecordModel {
    pub uid: Seq<char>,
    pub started_at: int,
    pub finished_at: Option<int>,
    pub expired_at: Option<int>,
}

impl View for ContributorRecord {
    type V = RecordModel;

    open spec fn view(&self) -> RecordModel {
        RecordModel {
            uid: self.uid@,
            started_at: self.started_at as int,
            finished_at: match self.finished_at {
                Some(t) => Some(t as int),
                None => None,
            },
            expired_at: match self.expired_at {
                Some(t) => Some(t as int),
                None => None,
            },
        }
    }
}

/// Whether some row of the table belongs to `uid`, whatever its terminal
/// state: started, finished and expired rows all count.
pub open spec fn contains_uid(table: Seq<RecordModel>, uid: Seq<char>) -> bool {
    exists|i: int| 0 <= i < table.len() && table[i].uid == uid
}

/// A freshly inserted row: started at `t`, no terminal outcome yet.
pub open spec fn started_record(uid: Seq<char>, t: int) -> RecordModel {
    RecordModel { uid: uid, started_at: t, finished_at: None, expired_at: None }
}

/// What inserting `uid` at time `t` does to the table: one new row is
/// appended, whether or not the uid already has rows.
pub open spec fn insert_model(table: Seq<RecordModel>, uid: Seq<char>, t: int) -> Seq<RecordModel> {
    table.push(started_record(uid, t))
}

/// `r` with its `finished_at` stamped `t`; every other field is kept.
pub open spec fn finish_record(r: RecordModel, t: int) -> RecordModel {
    RecordModel { uid: r.uid, started_at: r.started_at, finished_at: Some(t), expired_at: r.expired_at }
}

/// `r` with its `expired_at` stamped `t`; every other field is kept.
pub open spec fn expire_record(r: RecordModel, t: int) -> RecordModel {
    RecordModel { uid: r.uid, started_at: r.started_at, finished_at: r.finished_at, expired_at: Some(t) }
}

/// What finishing `uid` at time `t` does to one row.
pub open spec fn finish_step(r: RecordModel, uid: Seq<char>, t: int) -> RecordModel {
    if r.uid == uid {
        finish_record(r, t)
    } else {
        r
    }
}

/// What expiring `uid` at time `t` does to one row.
pub open spec fn expire_step(r: RecordModel, uid: Seq<char>, t: int) -> RecordModel {
    if r.uid == uid {
        expire_record(r, t)
    } else {
        r
    }
}

/// What finishing `uid` at time `t` does to the table: every row of that uid
/// gets `finished_at = t`; no row is added or removed.
pub open spec fn finish_model(table: Seq<RecordModel>, uid: Seq<char>, t: int) -> Seq<RecordModel> {
    Seq::new(table.len(), |i: int| finish_step(table[i], uid, t))
}

/// What expiring `uid` at time `t` does to the table: every row of that uid
/// gets `expired_at = t`; no row is added or removed.
pub open spec fn expire_model(table: Seq<RecordModel>, uid: Seq<char>, t: int) -> Seq<RecordModel> {
    Seq::new(table.len(), |i: int| expire_step(table[i], uid, t))
}

/// Seconds since the Unix epoch, read from the wall clock once per call.
///
/// Relies on `chrono::Utc::now`, which reads the system clock (and aborts if
/// that clock is set before the Unix epoch), and on
/// `chrono::DateTime::timestamp`, which converts the reading to whole
/// seconds. The result depends on the clock, so nothing is promised of it.
#[verifier::external_body]
fn utc_now_seconds() -> i64 {
    chrono::Utc::now().timestamp()
}

/// The contributor table. It is the single owner of its rows: every change
/// goes through the operations below, each of which is exact about the table
/// it leaves behind.
pub struct PersistentStorage {
    pub rows: Vec<ContributorRecord>,
}

impl View for PersistentStorage {
    type V = Seq<RecordModel>;

    open spec fn view(&self) -> Seq<RecordModel> {
        Seq::new(self.rows@.len(), |i: int| self.rows@[i]@)
    }
}

impl PersistentStorage {
    /// A store with no rows at all.
    pub fn new() -> (store: Self)
        ensures
            store@ == Seq::<RecordModel>::empty(),
    {
        let store = PersistentStorage { rows: Vec::new() };
        proof {
            assert(store@ =~= Seq::<RecordModel>::empty());
        }
        store
    }

    /// Existence check: true iff at least one row belongs to `uid`,
    /// regardless of its terminal state. Read-only.
    pub fn has_contributed(&self, uid: &str) -> (present: bool)
        ensures
            present == contains_uid(self@, uid@),
    {
        let target = uid.to_owned();
        let n: usize = self.rows.len();
        let mut i: usize = 0;
        while i < n
            invariant
                n == self.rows@.len(),
                i <= n,
                target@ == uid@,
                forall|j: int| 0 <= j < i ==> self@[j].uid != uid@,
            decreases n - i,
        {
            if self.rows[i].uid == target {
                proof {
                    assert(0 <= i < self@.len() && self@[i as int].uid == uid@);
                }
                return true;
            }
            i += 1;
        }
        false
    }

    /// Inserts a new row for `uid` started at `started_at`, with both
    /// terminal timestamps unset. A uid that already has rows gets one more:
    /// the store itself enforces no uniqueness.
    pub fn insert_contributor_at(&mut self, uid: &str, started_at: i64)
        ensures
            final(self)@ == insert_model(old(self)@, uid@, started_at as int),
    {
        let record = ContributorRecord {
            uid: uid.to_owned(),
            started_at,
            finished_at: None,
            expired_at: None,
        };
        self.rows.push(record);
        proof {
            assert(self@ =~= insert_model(old(self)@, uid@, started_at as int));
        }
    }

    /// Inserts a new row for `uid` started at the current wall-clock time.
    pub fn insert_contributor(&mut self, uid: &str)
        ensures
            exists|t: int| final(self)@ == insert_model(old(self)@, uid@, t),
    {
        let now: i64 = utc_now_seconds();
        self.insert_contributor_at(uid, now);
        proof {
            assert(self@ == insert_model(old(self)@, uid@, now as int));
        }
    }

    /// Sets `finished_at` to the given time on every row of `uid`, keeping every
    /// other field and every other row. With no row for `uid` the table is
    /// left exactly as it was: nothing is inserted and nothing fails.
    pub fn finish_contribution_at(&mut self, uid: &str, finished_at: i64)
        ensures
            final(self)@ == finish_model(old(self)@, uid@, finished_at as int),
    {
        let target = uid.to_owned();
        let n: usize = self.rows.len();
        let mut i: usize = 0;
        while i < n
            invariant
                n == self.rows@.len(),
                self.rows@.len() == old(self).rows@.len(),
                i <= n,
                target@ == uid@,
                forall|j: int| 0 <= j < i
                    ==> self@[j] == finish_step(old(self)@[j], uid@, finished_at as int),
                forall|j: int| i <= j < n ==> self@[j] == old(self)@[j],
            decreases n - i,
        {
            let ghost before = self@;
            if self.rows[i].uid == target {
                self.rows[i].finished_at = Some(finished_at);
            }
            proof {
                assert(self@[i as int] == finish_step(old(self)@[i as int], uid@, finished_at as int));
                assert forall|j: int| 0 <= j < i + 1
                    implies self@[j] == finish_step(old(self)@[j], uid@, finished_at as int) by {
                    if j < i {
                        assert(before[j] == finish_step(old(self)@[j], uid@, finished_at as int));
                        assert(self@[j] == before[j]);
                    }
                }
                assert forall|j: int| i + 1 <= j < n implies self@[j] == old(self)@[j] by {
                    assert(before[j] == old(self)@[j]);
                    assert(self@[j] == before[j]);
                }
            }
            i += 1;
        }
        proof {
            assert(self@ =~= finish_model(old(self)@, uid@, finished_at as int));
        }
    }

    /// Sets `finished_at` to the current wall-clock time on every row of
    /// `uid`; a missing row is not an error — the table is then left
    /// unchanged.
    pub fn finish_contribution(&mut self, uid: &str)
        ensures
            exists|t: int| final(self)@ == finish_model(old(self)@, uid@, t),
    {
        let now: i64 = utc_now_seconds();
        self.finish_contribution_at(uid, now);
        proof {
            assert(self@ == finish_model(old(self)@, uid@, now as int));
        }
    }

    /// Sets `expired_at` to the given time on every row of `uid`, keeping every
    /// other field and every other row. With no row for `uid` the table is
    /// left exactly as it was: nothing is inserted and nothing fails.
    pub fn expire_contribution_at(&mut self, uid: &str, expired_at: i64)
        ensures
            final(self)@ == expire_model(old(self)@, uid@, expired_at as int),
    {
        let target = uid.to_owned();
        let n: usize = self.rows.len();
        let mut i: usize = 0;
        while i < n
            invariant
                n == self.rows@.len(),
                self.rows@.len() == old(self).rows@.len(),
                i <= n,
                target@ == uid@,
                forall|j: int| 0 <= j < i
                    ==> self@[j] == expire_step(old(self)@[j], uid@, expired_at as int),
                forall|j: int| i <= j < n ==> self@[j] == old(self)@[j],
            decreases n - i,
        {
            let ghost before = self@;
            if self.rows[i].uid == target {
                self.rows[i].expired_at = Some(expired_at);
            }
            proof {
                assert(self@[i as int] == expire_step(old(self)@[i as int], uid@, expired_at as int));
                assert forall|j: int| 0 <= j < i + 1
                    implies self@[j] == expire_step(old(self)@[j], uid@, expired_at as int) by {
                    if j < i {
                        assert(before[j] == expire_step(old(self)@[j], uid@, expired_at as int));
                        assert(self@[j] == before[j]);
                    }
                }
                assert forall|j: int| i + 1 <= j < n implies self@[j] == old(self)@[j] by {
                    assert(before[j] == old(self)@[j]);
                    assert(self@[j] == before[j]);
                }
            }
            i += 1;
        }
        proof {
            assert(self@ =~= expire_model(old(self)@, uid@, expired_at as int));
        }
    }

    /// Sets `expired_at` to the current wall-clock time on every row of
    /// `uid`; a missing row is not an error — the table is then left
    /// unchanged.
    pub fn expire_contribution(&mut self, uid: &str)
        ensures
            exists|t: int| final(self)@ == expire_model(old(self)@, uid@, t),
    {
        let now: i64 = utc_now_seconds();
        self.expire_contribution_at(uid, now);
        proof {
            assert(self@ == expire_model(old(self)@, uid@, now as int));
        }
    }

    /// The first row of `uid`, if the uid has contributed at all.
    pub fn find_record(&self, uid: &str) -> (found: Option<&ContributorRecord>)
        ensures
            found is Some <==> contains_uid(self@, uid@),
            found matches Some(record) ==> record@.uid == uid@
                && (exists|i: int|
                    0 <= i < self@.len() && self@[i] == record@
                        && (forall|j: int| 0 <= j < i ==> self@[j].uid != uid@)),
    {
        let target = uid.to_owned();
        let n: usize = self.rows.len();
        let mut i: usize = 0;
        while i < n
            invariant
                n == self.rows@.len(),
                i <= n,
                target@ == uid@,
                forall|j: int| 0 <= j < i ==> self@[j].uid != uid@,
            decreases n - i,
        {
            if self.rows[i].uid == target {
                proof {
                    assert(0 <= i < self@.len() && self@[i as int].uid == uid@);
                }
                return Some(&self.rows[i]);
            }
            i += 1;
        }
        None
    }
}

/// Law: a store with no rows contains no uid: a uid that was never inserted
/// has not contributed.
pub proof fn lemma_empty_store_contains_nothing(uid: Seq<char>)
    ensures
        !contains_uid(Seq::<RecordModel>::empty(), uid),
{
}

/// Law: after an insert for `inserted`, a uid is present exactly when it is
/// `inserted` or was present before. In particular a never-inserted uid stays
/// absent, and an inserted one is present from then on.
pub proof fn lemma_insert_membership(
    table: Seq<RecordModel>,
    inserted: Seq<char>,
    t: int,
    uid: Seq<char>,
)
    ensures
        contains_uid(insert_model(table, inserted, t), uid) <==> (uid == inserted
            || contains_uid(table, uid)),
{
    let after = insert_model(table, inserted, t);
    if uid == inserted {
        assert(after[table.len() as int].uid == uid);
    }
    if contains_uid(table, uid) {
        let i = choose|i: int| 0 <= i < table.len() && table[i].uid == uid;
        assert(after[i].uid == uid);
    }
    if contains_uid(after, uid) {
        let i = choose|i: int| 0 <= i < after.len() && after[i].uid == uid;
        if i < table.len() {
            assert(table[i].uid == uid);
        }
    }
}

/// Law: finishing changes no row's uid, so which uids are present is exactly
/// as before — a finished contribution still counts as contributed, and a
/// never-inserted uid stays absent.
pub proof fn lemma_finish_membership(
    table: Seq<RecordModel>,
    finished: Seq<char>,
    t: int,
    uid: Seq<char>,
)
    ensures
        contains_uid(finish_model(table, finished, t), uid) == contains_uid(table, uid),
{
    let after = finish_model(table, finished, t);
    if contains_uid(table, uid) {
        let i = choose|i: int| 0 <= i < table.len() && table[i].uid == uid;
        assert(after[i].uid == uid);
    }
    if contains_uid(after, uid) {
        let i = choose|i: int| 0 <= i < after.len() && after[i].uid == uid;
        assert(table[i].uid == uid);
    }
}

/// Law: expiring changes no row's uid, so which uids are present is exactly
/// as before — an expired contribution still counts as contributed, and a
/// never-inserted uid stays absent.
pub proof fn lemma_expire_membership(
    table: Seq<RecordModel>,
    expired: Seq<char>,
    t: int,
    uid: Seq<char>,
)
    ensures
        contains_uid(expire_model(table, expired, t), uid) == contains_uid(table, uid),
{
    let after = expire_model(table, expired, t);
    if contains_uid(table, uid) {
        let i = choose|i: int| 0 <= i < table.len() && table[i].uid == uid;
        assert(after[i].uid == uid);
    }
    if contains_uid(after, uid) {
        let i = choose|i: int| 0 <= i < after.len() && after[i].uid == uid;
        assert(table[i].uid == uid);
    }
}

/// Law: finishing a uid with no row performs no insertion and changes
/// nothing: the table is left exactly as it was.
pub proof fn lemma_finish_absent_uid_is_noop(table: Seq<RecordModel>, uid: Seq<char>, t: int)
    requires
        !contains_uid(table, uid),
    ensures
        finish_model(table, uid, t) == table,
{
    assert forall|i: int| 0 <= i < table.len() implies finish_model(table, uid, t)[i]
        == table[i] by {
        assert(table[i].uid != uid);
    }
    assert(finish_model(table, uid, t) =~= table);
}

/// Law: expiring a uid with no row performs no insertion and changes
/// nothing: the table is left exactly as it was.
pub proof fn lemma_expire_absent_uid_is_noop(table: Seq<RecordModel>, uid: Seq<char>, t: int)
    requires
        !contains_uid(table, uid),
    ensures
        expire_model(table, uid, t) == table,
{
    assert forall|i: int| 0 <= i < table.len() implies expire_model(table, uid, t)[i]
        == table[i] by {
        assert(table[i].uid != uid);
    }
    assert(expire_model(table, uid, t) =~= table);
}

/// Law: inserting a uid that had no row and then finishing it leaves every
/// row of that uid (there is one) with `finished_at` set to the finishing
/// time and `expired_at` still unset.
pub proof fn lemma_insert_then_finish(table: Seq<RecordModel>, uid: Seq<char>, t1: int, t2: int)
    requires
        !contains_uid(table, uid),
    ensures
        ({
            let after = finish_model(insert_model(table, uid, t1), uid, t2);
            &&& after.len() == table.len() + 1
            &&& contains_uid(after, uid)
            &&& forall|i: int|
                0 <= i < after.len() && after[i].uid == uid ==> after[i].started_at == t1
                    && after[i].finished_at == Some(t2) && after[i].expired_at is None
        }),
{
    let inserted = insert_model(table, uid, t1);
    let after = finish_model(inserted, uid, t2);
    assert(after[table.len() as int].uid == uid);
    assert forall|i: int| 0 <= i < after.len() && after[i].uid == uid implies after[i].started_at
        == t1 && after[i].finished_at == Some(t2) && after[i].expired_at is None by {
        if i < table.len() {
            assert(table[i].uid != uid);
        }
    }
}

/// Law: inserting a uid that had no row and then expiring it leaves every
/// row of that uid (there is one) with `expired_at` set to the expiry time
/// and `finished_at` still unset.
pub proof fn lemma_insert_then_expire(table: Seq<RecordModel>, uid: Seq<char>, t1: int, t2: int)
    requires
        !contains_uid(table, uid),
    ensures
        ({
            let after = expire_model(insert_model(table, uid, t1), uid, t2);
            &&& after.len() == table.len() + 1
            &&& contains_uid(after, uid)
            &&& forall|i: int|
                0 <= i < after.len() && after[i].uid == uid ==> after[i].started_at == t1
                    && after[i].expired_at == Some(t2) && after[i].finished_at is None
        }),
{
    let inserted = insert_model(table, uid, t1);
    let after = expire_model(inserted, uid, t2);
    assert(after[table.len() as int].uid == uid);
    assert forall|i: int| 0 <= i < after.len() && after[i].uid == uid implies after[i].started_at
        == t1 && after[i].expired_at == Some(t2) && after[i].finished_at is None by {
        if i < table.len() {
            assert(table[i].uid != uid);
        }
    }
}

/// Law: the store enforces no exclusivity between the two outcomes.
/// Expiring and then finishing a freshly inserted uid leaves its rows with
/// both `expired_at` and `finished_at` set; neither call is rejected.
pub proof fn lemma_expire_then_finish_sets_both(
    table: Seq<RecordModel>,
    uid: Seq<char>,
    t1: int,
    t2: int,
    t3: int,
)
    requires
        !contains_uid(table, uid),
    ensures
        ({
            let after = finish_model(expire_model(insert_model(table, uid, t1), uid, t2), uid, t3);
            &&& after.len() == table.len() + 1
            &&& contains_uid(after, uid)
            &&& forall|i: int|
                0 <= i < after.len() && after[i].uid == uid ==> after[i].started_at == t1
                    && after[i].expired_at == Some(t2) && after[i].finished_at == Some(t3)
        }),
{
    let inserted = insert_model(table, uid, t1);
    let expired = expire_model(inserted, uid, t2);
    let after = finish_model(expired, uid, t3);
    assert(after[table.len() as int].uid == uid);
    assert forall|i: int| 0 <= i < after.len() && after[i].uid == uid implies after[i].started_at
        == t1 && after[i].expired_at == Some(t2) && after[i].finished_at == Some(t3) by {
        if i < table.len() {
            assert(table[i].uid != uid);
        }
    }
}

/// Configuration for the connection provisioner: where the database lives.
pub struct Options {
    pub database_url: String,
}

impl View for Options {
    type V = Seq<char>;

    open spec fn view(&self) -> Seq<char> {
        self.database_url@
    }
}

impl Options {
    pub fn new(database_url: String) -> (options: Self)
        ensures
            options@ == database_url@,
    {
        Options { database_url }
    }
}

} // verus!
