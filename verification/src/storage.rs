//! The storage interface that every backend offers.

use vstd::prelude::*;
use crate::error::StorageError;
use crate::secret_set::{build, has_name, lookup, pairs_view, upsert, without, Entry};

verus! {

/// A backend that keeps name/value pairs durably.
pub trait Storage {
    /// What the backend holds: its pairs in the order of their names.
    open spec fn contents(&self) -> Seq<Entry> {
        arbitrary()
    }

    /// Puts `value` under `key`, whether or not the key exists. A failed
    /// write changes nothing.
    fn write(&mut self, key: &str, value: &str) -> (r: Result<(), StorageError>)
        ensures
            r is Ok ==> final(self).contents() == upsert(old(self).contents(), key@, value@),
            r is Err ==> final(self).contents() == old(self).contents(),
    ;

    /// The value under `key`; `None`, and no error, where there is none.
    fn read(&self, key: &str) -> (r: Result<Option<String>, StorageError>)
        ensures
            r matches Ok(Some(v)) ==> lookup(self.contents(), key@) == Some(v@),
            r matches Ok(None) ==> lookup(self.contents(), key@) is None,
    ;

    /// Gives the existing `key` a new value; `NotFound` where the key does
    /// not exist. A failed update changes nothing.
    fn update(&mut self, key: &str, value: &str) -> (r: Result<(), StorageError>)
        ensures
            r is Ok ==> has_name(old(self).contents(), key@) && final(self).contents() == upsert(
                old(self).contents(),
                key@,
                value@,
            ),
            r == Err::<(), StorageError>(StorageError::NotFound) ==> !has_name(
                old(self).contents(),
                key@,
            ),
            r is Err ==> final(self).contents() == old(self).contents(),
    ;

    /// What a load gives, for a backend whose own state tells it: the pairs
    /// in the order of their names, or the failure. `None` for a backend of
    /// which nothing can be told before it is asked.
    open spec fn load_outcome(&self) -> Option<Result<Seq<Entry>, StorageError>> {
        None
    }

    /// Every pair that the backend holds.
    fn get_all(&self) -> (r: Result<Vec<(String, String)>, StorageError>)
        ensures
            r matches Ok(pairs) ==> build(pairs_view(pairs@)) == self.contents(),
            self.load_outcome() matches Some(outcome) ==> match r {
                Ok(pairs) => outcome == Ok::<Seq<Entry>, StorageError>(build(pairs_view(pairs@))),
                Err(e) => outcome == Err::<Seq<Entry>, StorageError>(e),
            },
    ;

    /// Takes `key` out; `NotFound` where the key does not exist. A failed
    /// delete changes nothing.
    fn delete(&mut self, key: &str) -> (r: Result<(), StorageError>)
        ensures
            r is Ok ==> has_name(old(self).contents(), key@) && final(self).contents() == without(
                old(self).contents(),
                key@,
            ),
            r == Err::<(), StorageError>(StorageError::NotFound) ==> !has_name(
                old(self).contents(),
                key@,
            ),
            r is Err ==> final(self).contents() == old(self).contents(),
    ;
}

/// What a relational backend answers to an update or a delete, once it knows
/// how many rows the statement has changed: a statement that changed none
/// met no such key.
pub fn row_outcome(rows_changed: usize) -> (r: Result<(), StorageError>)
    ensures
        r == if rows_changed == 0 {
            Err::<(), StorageError>(StorageError::NotFound)
        } else {
            Ok::<(), StorageError>(())
        },
{
    if rows_changed == 0 {
        Err(StorageError::NotFound)
    } else {
        Ok(())
    }
}

} // verus!
