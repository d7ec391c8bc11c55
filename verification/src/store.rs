//! The secret store: the secrets in memory, mirrored from a backend, with
//! strict rules for adding, changing and deleting them.

use vstd::prelude::*;
use vstd::string::StringExecFns;
use crate::error::{SecretError, StorageError};
use crate::generator::{generate_random_string, generated};
use crate::order::name_equal;
use crate::secret_set::{build, has_name, lookup, names_of, pairs_view, upsert, without, Entry, SecretSet, lemma_sorted_distinct};
use crate::storage::Storage;
use crate::text::{blank, contains, holds, is_blank};

verus! {

/// The test that a name passes if it holds the pattern.
pub open spec fn has_pattern(pattern: Seq<char>) -> spec_fn(Seq<char>) -> bool {
    |name: Seq<char>| holds(name, pattern)
}

/// The names that hold the pattern, in their order.
pub open spec fn matching(s: Seq<Entry>, pattern: Seq<char>) -> Seq<Seq<char>> {
    names_of(s).filter(has_pattern(pattern))
}

/// The texts of a list of strings.
pub open spec fn texts(v: Seq<String>) -> Seq<Seq<char>> {
    v.map_values(|s: String| s@)
}

/// Why a secret cannot be added, if it cannot, given which of its two
/// fields are blank: a blank field comes first, then a name that is taken.
pub open spec fn add_refusal_given(
    s: Seq<Entry>,
    name: Seq<char>,
    name_blank: bool,
    value_blank: bool,
) -> Option<SecretError> {
    if name_blank || value_blank {
        Some(SecretError::EmptyField)
    } else if has_name(s, name) {
        Some(SecretError::AlreadyExists)
    } else {
        None
    }
}

/// Why a secret cannot be added, if it cannot.
pub open spec fn add_refusal(s: Seq<Entry>, name: Seq<char>, value: Seq<char>) -> Option<SecretError> {
    add_refusal_given(s, name, blank(name), blank(value))
}

/// Why a secret cannot be changed, if it cannot, given which of its two new
/// fields are blank: an old name that is not there comes first, then a
/// blank field, then a new name that another secret has.
pub open spec fn update_refusal_given(
    s: Seq<Entry>,
    old_name: Seq<char>,
    new_name: Seq<char>,
    name_blank: bool,
    value_blank: bool,
) -> Option<SecretError> {
    if !has_name(s, old_name) {
        Some(SecretError::NotSelected)
    } else if name_blank || value_blank {
        Some(SecretError::EmptyField)
    } else if new_name != old_name && has_name(s, new_name) {
        Some(SecretError::AlreadyExists)
    } else {
        None
    }
}

/// Why a secret cannot be changed, if it cannot.
pub open spec fn update_refusal(
    s: Seq<Entry>,
    old_name: Seq<char>,
    new_name: Seq<char>,
    new_value: Seq<char>,
) -> Option<SecretError> {
    update_refusal_given(s, old_name, new_name, blank(new_name), blank(new_value))
}

/// Why a secret cannot be added to a set, if it cannot, once it is known
/// which of its two fields are blank.
pub fn add_refused(secrets: &SecretSet, name: &str, name_blank: bool, value_blank: bool) -> (r:
    Option<SecretError>)
    ensures
        r == add_refusal_given(secrets@, name@, name_blank, value_blank),
{
    if name_blank || value_blank {
        Some(SecretError::EmptyField)
    } else if secrets.contains(name) {
        Some(SecretError::AlreadyExists)
    } else {
        None
    }
}

/// Why a secret of a set cannot be changed, if it cannot, once it is known
/// which of its two new fields are blank.
pub fn update_refused(
    secrets: &SecretSet,
    old_name: &str,
    new_name: &str,
    name_blank: bool,
    value_blank: bool,
) -> (r: Option<SecretError>)
    ensures
        r == update_refusal_given(secrets@, old_name@, new_name@, name_blank, value_blank),
{
    if !secrets.contains(old_name) {
        Some(SecretError::NotSelected)
    } else if name_blank || value_blank {
        Some(SecretError::EmptyField)
    } else if !name_equal(new_name, old_name) && secrets.contains(new_name) {
        Some(SecretError::AlreadyExists)
    } else {
        None
    }
}

/// The set with which a store starts, and the failure that it keeps, once
/// the backend has answered the load: what was loaded, of two pairs with
/// one name the later one; or nothing, and the failure.
pub fn settle_load(loaded: Result<Vec<(String, String)>, StorageError>) -> (r: (
    SecretSet,
    Option<StorageError>,
))
    ensures
        r.0.wf(),
        match loaded {
            Ok(pairs) => r.0@ == build(pairs_view(pairs@)) && r.1 is None,
            Err(e) => r.0@ == Seq::<Entry>::empty() && r.1 == Some(e),
        },
{
    match loaded {
        Ok(pairs) => (SecretSet::from_pairs(&pairs), None),
        Err(e) => (SecretSet::new(), Some(e)),
    }
}

/// Takes a write into the set once the backend has answered: a write that
/// succeeded is mirrored, one that failed leaves the set as it was.
pub fn settle_write(
    secrets: &mut SecretSet,
    name: &str,
    value: &str,
    written: Result<(), StorageError>,
) -> (r: Result<(), SecretError>)
    requires
        old(secrets).wf(),
    ensures
        final(secrets).wf(),
        match written {
            Ok(_) => r is Ok && final(secrets)@ == upsert(old(secrets)@, name@, value@),
            Err(e) => r == Err::<(), SecretError>(SecretError::Storage(e)) && final(secrets)@ == old(secrets)@,
        },
{
    match written {
        Ok(_) => {
            secrets.insert(String::from_str(name), String::from_str(value));
            Ok(())
        },
        Err(e) => Err(SecretError::Storage(e)),
    }
}

/// Takes a delete into the set once the backend has answered: a delete
/// that succeeded is mirrored, one that failed leaves the set as it was.
pub fn settle_delete(secrets: &mut SecretSet, name: &str, deleted: Result<(), StorageError>) -> (r:
    Result<(), SecretError>)
    requires
        old(secrets).wf(),
    ensures
        final(secrets).wf(),
        match deleted {
            Ok(_) => r is Ok && final(secrets)@ == without(old(secrets)@, name@),
            Err(e) => r == Err::<(), SecretError>(SecretError::Storage(e)) && final(secrets)@ == old(secrets)@,
        },
{
    match deleted {
        Ok(_) => {
            secrets.remove(name);
            Ok(())
        },
        Err(e) => Err(SecretError::Storage(e)),
    }
}

/// The secrets in memory and the backend that keeps them.
pub struct SecretStore<S: Storage> {
    pub secrets: SecretSet,
    pub storage: S,
    pub load_error: Option<StorageError>,
}

/// What adding `value` under `name` does to a store, and what it returns.
/// A refused secret changes nothing. Otherwise the backend decides: after a
/// write that succeeded the secret is in the backend and in memory, after
/// one that failed it is in neither.
pub open spec fn added<S: Storage>(
    pre: SecretStore<S>,
    post: SecretStore<S>,
    name: Seq<char>,
    value: Seq<char>,
    r: Result<(), SecretError>,
) -> bool {
    match add_refusal(pre.secrets@, name, value) {
        Some(e) => r == Err::<(), SecretError>(e) && post.secrets@ == pre.secrets@ && post.storage
            == pre.storage,
        None => match r {
            Ok(_) => post.secrets@ == upsert(pre.secrets@, name, value) && post.storage.contents()
                == upsert(pre.storage.contents(), name, value),
            Err(e) => e is Storage && post.secrets@ == pre.secrets@ && post.storage.contents()
                == pre.storage.contents(),
        },
    }
}

/// What changing the secret named `old_name` does to a store, and what it
/// returns. A refused change changes nothing. Otherwise the backend decides:
/// it deletes the old entry and then writes the new one. Where the delete
/// fails nothing has changed; where the write fails after it, the old entry
/// is gone from the backend and from memory.
pub open spec fn updated<S: Storage>(
    pre: SecretStore<S>,
    post: SecretStore<S>,
    old_name: Seq<char>,
    new_name: Seq<char>,
    new_value: Seq<char>,
    r: Result<(), SecretError>,
) -> bool {
    match update_refusal(pre.secrets@, old_name, new_name, new_value) {
        Some(e) => r == Err::<(), SecretError>(e) && post.secrets@ == pre.secrets@ && post.storage
            == pre.storage,
        None => match r {
            Ok(_) => post.secrets@ == upsert(without(pre.secrets@, old_name), new_name, new_value)
                && post.storage.contents() == upsert(
                without(pre.storage.contents(), old_name),
                new_name,
                new_value,
            ),
            Err(e) => e is Storage && ({
                ||| post.secrets@ == pre.secrets@ && post.storage.contents()
                    == pre.storage.contents()
                ||| post.secrets@ == without(pre.secrets@, old_name) && post.storage.contents()
                    == without(pre.storage.contents(), old_name)
            }),
        },
    }
}

/// What deleting the secret named `name` does to a store, and what it
/// returns. A name that is not there is refused. Otherwise the backend
/// decides: after a delete that succeeded the secret is gone from the
/// backend and from memory, after one that failed it is in both.
pub open spec fn deleted<S: Storage>(
    pre: SecretStore<S>,
    post: SecretStore<S>,
    name: Seq<char>,
    r: Result<(), SecretError>,
) -> bool {
    if !has_name(pre.secrets@, name) {
        r == Err::<(), SecretError>(SecretError::NotFound) && post.secrets@ == pre.secrets@
            && post.storage == pre.storage
    } else {
        match r {
            Ok(_) => post.secrets@ == without(pre.secrets@, name) && post.storage.contents()
                == without(pre.storage.contents(), name),
            Err(e) => e is Storage && post.secrets@ == pre.secrets@ && post.storage.contents()
                == pre.storage.contents(),
        }
    }
}

/// No two secrets of a store share a name: whatever was added, changed or
/// deleted, two places that hold one name are one place.
pub proof fn lemma_names_unique<S: Storage>(store: SecretStore<S>, i: int, j: int)
    requires
        store.wf(),
        0 <= i < store.secrets@.len(),
        0 <= j < store.secrets@.len(),
        store.secrets@[i].0 == store.secrets@[j].0,
    ensures
        i == j,
{
    lemma_sorted_distinct(store.secrets@, i, j);
}

impl<S: Storage> SecretStore<S> {
    /// The invariant: the secrets are in the order of their names, so no
    /// name occurs twice.
    pub open spec fn wf(&self) -> bool {
        self.secrets.wf()
    }

    /// Opens a store over a backend and loads what the backend holds. Where
    /// loading fails the store starts empty and keeps the failure for the
    /// caller to see. Over a backend whose state tells what a load gives,
    /// the store starts with just that.
    pub fn new(storage: S) -> (store: SecretStore<S>)
        ensures
            store.wf(),
            store.storage == storage,
            store.load_error is None ==> store.secrets@ == storage.contents(),
            store.load_error is Some ==> store.secrets@ == Seq::<Entry>::empty(),
            storage.load_outcome() matches Some(outcome) ==> match outcome {
                Ok(s) => store.secrets@ == s && store.load_error is None,
                Err(e) => store.secrets@ == Seq::<Entry>::empty() && store.load_error == Some(e),
            },
    {
        let (secrets, load_error) = settle_load(storage.get_all());
        SecretStore { secrets, storage, load_error }
    }

    /// The number of secrets.
    pub fn len(&self) -> (n: usize)
        ensures
            n == self.secrets@.len(),
    {
        self.secrets.len()
    }

    /// The value of the secret named `name`.
    pub fn get(&self, name: &str) -> (r: Option<&String>)
        ensures
            match r {
                Some(v) => lookup(self.secrets@, name@) == Some(v@),
                None => lookup(self.secrets@, name@) is None,
            },
    {
        self.secrets.get(name)
    }

    /// Adds a new secret. A blank name or value is refused, and so is a
    /// name that is taken. The backend is written first; the set in memory
    /// changes only if that write succeeded.
    pub fn add(&mut self, name: &str, value: &str) -> (r: Result<(), SecretError>)
        requires
            old(self).wf(),
        ensures
            final(self).wf(),
            final(self).load_error == old(self).load_error,
            added(*old(self), *final(self), name@, value@, r),
    {
        if let Some(e) = add_refused(&self.secrets, name, is_blank(name), is_blank(value)) {
            return Err(e);
        }
        let written = self.storage.write(name, value);
        settle_write(&mut self.secrets, name, value, written)
    }

    /// Adds a new secret with a random value of `length` characters: letters,
    /// and with `use_symbols` one digit and one symbol among them, which
    /// takes a length of two at least. The rules of `add` hold for it.
    pub fn generate(&mut self, name: &str, length: usize, use_symbols: bool) -> (r: Result<
        (),
        SecretError,
    >)
        requires
            old(self).wf(),
        ensures
            final(self).wf(),
            final(self).load_error == old(self).load_error,
            if use_symbols && length < 2 {
                r == Err::<(), SecretError>(SecretError::InvalidLength) && *final(self) == *old(self)
            } else {
                exists|value: Seq<char>|
                    generated(value, length as int, use_symbols) && #[trigger] added(
                        *old(self),
                        *final(self),
                        name@,
                        value,
                        r,
                    )
            },
    {
        if use_symbols && length < 2 {
            return Err(SecretError::InvalidLength);
        }
        let value = generate_random_string(length, use_symbols);
        self.add(name, value.as_str())
    }

    /// Changes the secret named `old_name` to `new_name` and `new_value`.
    /// The backend first deletes the old entry and then writes the new one.
    /// Where the delete fails nothing changes; where the write fails after
    /// it the secret is gone, from the backend and from memory.
    pub fn update(&mut self, old_name: &str, new_name: &str, new_value: &str) -> (r: Result<
        (),
        SecretError,
    >)
        requires
            old(self).wf(),
        ensures
            final(self).wf(),
            final(self).load_error == old(self).load_error,
            updated(*old(self), *final(self), old_name@, new_name@, new_value@, r),
    {
        let refused = update_refused(
            &self.secrets,
            old_name,
            new_name,
            is_blank(new_name),
            is_blank(new_value),
        );
        if let Some(e) = refused {
            return Err(e);
        }
        let deleted = self.storage.delete(old_name);
        match settle_delete(&mut self.secrets, old_name, deleted) {
            Err(e) => Err(e),
            Ok(_) => {
                let written = self.storage.write(new_name, new_value);
                settle_write(&mut self.secrets, new_name, new_value, written)
            },
        }
    }

    /// Deletes the secret named `name`. The backend deletes first; the set
    /// in memory changes only if that succeeded.
    pub fn delete(&mut self, name: &str) -> (r: Result<(), SecretError>)
        requires
            old(self).wf(),
        ensures
            final(self).wf(),
            final(self).load_error == old(self).load_error,
            deleted(*old(self), *final(self), name@, r),
    {
        if !self.secrets.contains(name) {
            return Err(SecretError::NotFound);
        }
        let deleted = self.storage.delete(name);
        settle_delete(&mut self.secrets, name, deleted)
    }

    /// The names that hold `pattern`, in the order of the names. Case
    /// counts. The store is not changed.
    pub fn filter(&self, pattern: &str) -> (names: Vec<String>)
        ensures
            texts(names@) == matching(self.secrets@, pattern@),
    {
        let mut names: Vec<String> = Vec::new();
        let mut i: usize = 0;
        proof {
            reveal(Seq::filter);
            assert(names_of(self.secrets@.subrange(0, 0)) =~= Seq::<Seq<char>>::empty());
            assert(texts(names@) =~= Seq::<Seq<char>>::empty());
        }
        while i < self.secrets.len()
            invariant
                0 <= i <= self.secrets@.len(),
                texts(names@) == matching(self.secrets@.subrange(0, i as int), pattern@),
            decreases self.secrets@.len() - i,
        {
            let e = self.secrets.entry(i);
            proof {
                reveal(Seq::filter);
                let p = self.secrets@.subrange(0, i + 1);
                assert(names_of(p).drop_last() =~= names_of(self.secrets@.subrange(0, i as int)));
                assert(names_of(p).last() == e.name@);
            }
            if contains(e.name.as_str(), pattern) {
                let ghost before = names@;
                names.push(e.name.clone());
                assert(texts(names@) =~= texts(before).push(e.name@));
            }
            i += 1;
        }
        assert(self.secrets@.subrange(0, i as int) =~= self.secrets@);
        names
    }
}

} // verus!
