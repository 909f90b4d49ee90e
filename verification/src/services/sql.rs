//! The record store: what the vault asks of it, and a store in memory
//! that does it.
//!
//! Records are three texts each; the vault hands the store ciphertext in
//! base64 and looks records up by their first text, compared exactly.

use vstd::prelude::*;

use crate::models::credentials::{Credentials, CredentialsView};
use crate::models::enums::ErrorType;
use crate::models::error::{made, ErrorDetails, ErrorView};

verus! {

/// The records among `records` whose key is `key`, in their order.
pub open spec fn matching(records: Seq<CredentialsView>, key: Seq<char>) -> Seq<CredentialsView>
    decreases records.len(),
{
    if records.len() == 0 {
        Seq::empty()
    } else {
        let before = matching(records.drop_last(), key);
        if records.last().key == key {
            before.push(records.last())
        } else {
            before
        }
    }
}

/// The records among `records` whose key is not `key`, in their order.
pub open spec fn without(records: Seq<CredentialsView>, key: Seq<char>) -> Seq<CredentialsView>
    decreases records.len(),
{
    if records.len() == 0 {
        Seq::empty()
    } else {
        let before = without(records.drop_last(), key);
        if records.last().key == key {
            before
        } else {
            before.push(records.last())
        }
    }
}

/// Whether some record among `records` has the key `key`.
pub open spec fn holds(records: Seq<CredentialsView>, key: Seq<char>) -> bool {
    exists|i: int| 0 <= i < records.len() && #[trigger] records[i].key == key
}

/// The records with every record of the key of `cred` replaced by `cred`.
pub open spec fn replaced(records: Seq<CredentialsView>, cred: CredentialsView) -> Seq<
    CredentialsView,
> {
    Seq::new(
        records.len(),
        |i: int|
            if records[i].key == cred.key {
                cred
            } else {
                records[i]
            },
    )
}

/// The records after `cred` has been saved: appended where no record has
/// its key; else, where overwriting is allowed, put in the place of every
/// record with its key; else nothing changes.
pub open spec fn saved(
    records: Seq<CredentialsView>,
    cred: CredentialsView,
    overwrite: bool,
) -> Seq<CredentialsView> {
    if !holds(records, cred.key) {
        records.push(cred)
    } else if overwrite {
        replaced(records, cred)
    } else {
        records
    }
}

/// The credentials of a list as mathematical values.
pub open spec fn views(list: Seq<Credentials>) -> Seq<CredentialsView> {
    Seq::new(list.len(), |i: int| list[i]@)
}

/// What the vault asks of a record store. A store may fail at a call, and
/// then has changed nothing and reports its own error, of kind `Sqlite`;
/// a store that has no such error never fails.
pub trait SqliteService {
    /// The records that the store holds, oldest first.
    spec fn records(&self) -> Seq<CredentialsView>;

    /// The error with which the store fails where it fails; none for a
    /// store that never fails.
    spec fn failure(&self) -> Option<ErrorView>;

    /// All records with the given key, oldest first.
    fn get_from_sql(&mut self, key: &str) -> (out: Result<Vec<Credentials>, ErrorDetails>)
        ensures
            final(self).records() == old(self).records(),
            final(self).failure() == old(self).failure(),
            old(self).failure() is None ==> out is Ok,
            out matches Ok(found) ==> views(found@) == matching(old(self).records(), key@),
            out matches Err(e) ==> e@.kind == ErrorType::Sqlite && old(self).failure() == Some(e@),
    ;

    /// Saves a record: inserts it where its key is new, replaces the
    /// records of its key where `overwrite` allows, else leaves the store
    /// as it is.
    fn save_to_sql(&mut self, cred: Credentials, overwrite: bool) -> (out: Result<(), ErrorDetails>)
        ensures
            final(self).failure() == old(self).failure(),
            old(self).failure() is None ==> out is Ok,
            out is Ok ==> final(self).records() == saved(old(self).records(), cred@, overwrite),
            out matches Err(e) ==> e@.kind == ErrorType::Sqlite && old(self).failure() == Some(e@),
            out is Err ==> final(self).records() == old(self).records(),
    ;

    /// Removes every record with the given key. That there is none is no
    /// error.
    fn del_from_sql(&mut self, key: String) -> (out: Result<(), ErrorDetails>)
        ensures
            final(self).failure() == old(self).failure(),
            old(self).failure() is None ==> out is Ok,
            out is Ok ==> final(self).records() == without(old(self).records(), key@),
            out matches Err(e) ==> e@.kind == ErrorType::Sqlite && old(self).failure() == Some(e@),
            out is Err ==> final(self).records() == old(self).records(),
    ;

    /// Whether a record with the given key is stored.
    fn already_exist_in_sql(&mut self, key: &str) -> (out: Result<bool, ErrorDetails>)
        ensures
            final(self).records() == old(self).records(),
            final(self).failure() == old(self).failure(),
            old(self).failure() is None ==> out is Ok,
            out matches Ok(found) ==> found == holds(old(self).records(), key@),
            out matches Err(e) ==> e@.kind == ErrorType::Sqlite && old(self).failure() == Some(e@),
    ;
}

/// The error of a closed store in memory.
pub open spec fn store_closed() -> ErrorView {
    made(ErrorType::Sqlite, "the store is closed"@)
}

/// A record store in memory. It never fails until it is closed, and fails
/// at every call from then on.
pub struct MemoryStore {
    rows: Vec<Credentials>,
    closed: bool,
}

/// A key occurs among records exactly when some record matches it.
pub proof fn lemma_holds_iff_matching(records: Seq<CredentialsView>, key: Seq<char>)
    ensures
        holds(records, key) <==> matching(records, key).len() > 0,
    decreases records.len(),
{
    if records.len() > 0 {
        let front = records.drop_last();
        lemma_holds_iff_matching(front, key);
        if holds(records, key) {
            let i: int = choose|i: int| 0 <= i < records.len() && #[trigger] records[i].key == key;
            if i < records.len() - 1 {
                assert(front[i].key == key);
            }
        }
        if holds(front, key) {
            let i: int = choose|i: int| 0 <= i < front.len() && #[trigger] front[i].key == key;
            assert(records[i].key == key);
        }
        if records.last().key == key {
            assert(records[records.len() - 1].key == key);
        }
    }
}

impl MemoryStore {
    /// An empty store.
    pub fn new() -> (store: Self)
        ensures
            store.records() == Seq::<CredentialsView>::empty(),
            store.failure() is None,
    {
        let store = MemoryStore { rows: Vec::new(), closed: false };
        assert(store.records() =~= Seq::<CredentialsView>::empty());
        store
    }

    /// A store that holds the given records, in their order.
    pub fn from_rows(rows: Vec<Credentials>) -> (store: Self)
        ensures
            store.records() == views(rows@),
            store.failure() is None,
    {
        MemoryStore { rows, closed: false }
    }

    /// Closes the store: it keeps its records and fails at every call from
    /// now on, as a store does whose connection is lost.
    pub fn close(&mut self)
        ensures
            final(self).records() == old(self).records(),
            final(self).failure() == Some(store_closed()),
    {
        self.closed = true;
    }

    /// The error of a closed store.
    fn closed_error() -> (e: ErrorDetails)
        ensures
            e@ == store_closed(),
    {
        ErrorDetails::of_kind(ErrorType::Sqlite, "the store is closed")
    }

    /// A copy of every record the store holds, oldest first.
    pub fn rows(&self) -> (list: Vec<Credentials>)
        ensures
            views(list@) == self.records(),
    {
        let mut list: Vec<Credentials> = Vec::new();
        let mut i: usize = 0;
        while i < self.rows.len()
            invariant
                i <= self.rows@.len(),
                list@.len() == i,
                forall|j: int| 0 <= j < i ==> list@[j]@ == self.rows@[j]@,
            decreases self.rows@.len() - i,
        {
            list.push(self.rows[i].duplicate());
            i = i + 1;
        }
        assert(views(list@) =~= self.records());
        list
    }

    /// The number of records the store holds.
    pub fn len(&self) -> (n: usize)
        ensures
            n == self.records().len(),
    {
        self.rows.len()
    }
}

impl SqliteService for MemoryStore {
    closed spec fn records(&self) -> Seq<CredentialsView> {
        views(self.rows@)
    }

    closed spec fn failure(&self) -> Option<ErrorView> {
        if self.closed {
            Some(store_closed())
        } else {
            None
        }
    }

    fn get_from_sql(&mut self, key: &str) -> (out: Result<Vec<Credentials>, ErrorDetails>)
        ensures
            out is Ok <==> old(self).failure() is None,
    {
        if self.closed {
            return Err(Self::closed_error());
        }
        let wanted = key.to_owned();
        let mut found: Vec<Credentials> = Vec::new();
        let mut i: usize = 0;
        let ghost all = self.records();
        while i < self.rows.len()
            invariant
                i <= self.rows@.len(),
                all == views(self.rows@),
                wanted@ == key@,
                views(found@) == matching(all.take(i as int), key@),
            decreases self.rows@.len() - i,
        {
            let ghost before = views(found@);
            if self.rows[i].key == wanted {
                found.push(self.rows[i].duplicate());
                assert(views(found@) =~= before.push(all[i as int]));
            }
            proof {
                assert(all.take(i + 1).drop_last() =~= all.take(i as int));
                assert(all.take(i + 1).last() == all[i as int]);
            }
            i = i + 1;
        }
        assert(all.take(i as int) =~= all);
        Ok(found)
    }

    fn save_to_sql(&mut self, cred: Credentials, overwrite: bool) -> (out: Result<(), ErrorDetails>)
        ensures
            out is Ok <==> old(self).failure() is None,
    {
        if self.closed {
            return Err(Self::closed_error());
        }
        let ghost all = self.records();
        let n: usize = self.rows.len();
        let mut held = false;
        let mut i: usize = 0;
        while i < n
            invariant
                i <= n,
                n == self.rows@.len(),
                all == views(self.rows@),
                held == holds(all.take(i as int), cred@.key),
            decreases n - i,
        {
            let ghost seen = all.take(i as int);
            let ghost next = all.take(i + 1);
            if self.rows[i].key == cred.key {
                held = true;
                assert(next[i as int].key == cred@.key);
            } else {
                proof {
                    if holds(next, cred@.key) {
                        let j: int = choose|j: int|
                            0 <= j < next.len() && #[trigger] next[j].key == cred@.key;
                        assert(seen[j].key == cred@.key);
                    }
                    if holds(seen, cred@.key) {
                        let j: int = choose|j: int|
                            0 <= j < seen.len() && #[trigger] seen[j].key == cred@.key;
                        assert(next[j].key == cred@.key);
                    }
                }
            }
            i = i + 1;
        }
        assert(all.take(n as int) =~= all);
        if !held {
            self.rows.push(cred);
            assert(self.records() =~= all.push(cred@));
        } else if overwrite {
            let mut rows: Vec<Credentials> = Vec::new();
            let mut j: usize = 0;
            while j < n
                invariant
                    j <= n,
                    n == self.rows@.len(),
                    all == views(self.rows@),
                    rows@.len() == j,
                    forall|k: int| 0 <= k < j ==> rows@[k]@ == replaced(all, cred@)[k],
                decreases n - j,
            {
                if self.rows[j].key == cred.key {
                    rows.push(cred.duplicate());
                } else {
                    rows.push(self.rows[j].duplicate());
                }
                j = j + 1;
            }
            self.rows = rows;
            assert(self.records() =~= replaced(all, cred@));
        }
        Ok(())
    }

    fn del_from_sql(&mut self, key: String) -> (out: Result<(), ErrorDetails>)
        ensures
            out is Ok <==> old(self).failure() is None,
    {
        if self.closed {
            return Err(Self::closed_error());
        }
        let ghost all = self.records();
        let n: usize = self.rows.len();
        let mut rows: Vec<Credentials> = Vec::new();
        let mut i: usize = 0;
        while i < n
            invariant
                i <= n,
                n == self.rows@.len(),
                all == views(self.rows@),
                views(rows@) == without(all.take(i as int), key@),
            decreases n - i,
        {
            let ghost before = views(rows@);
            if !(self.rows[i].key == key) {
                rows.push(self.rows[i].duplicate());
                assert(views(rows@) =~= before.push(all[i as int]));
            }
            proof {
                assert(all.take(i + 1).drop_last() =~= all.take(i as int));
                assert(all.take(i + 1).last() == all[i as int]);
            }
            i = i + 1;
        }
        assert(all.take(n as int) =~= all);
        self.rows = rows;
        Ok(())
    }

    fn already_exist_in_sql(&mut self, key: &str) -> (out: Result<bool, ErrorDetails>)
        ensures
            out is Ok <==> old(self).failure() is None,
    {
        let ghost all = self.records();
        let found = self.get_from_sql(key);
        proof {
            lemma_holds_iff_matching(all, key@);
        }
        match found {
            Ok(list) => Ok(list.len() > 0),
            Err(e) => Err(e),
        }
    }
}

} // verus!
