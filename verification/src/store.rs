//! The credential store: create/read/update/delete on the `users` table,
//! modelled as a key-value store from user name to encoded password hash.
//! The invariant of the table — exactly one row per name — is `wf`, and
//! every operation preserves it.

use crate::error::Error;
use crate::models::{User, UserInsert};
use crate::util::hash_password;
use vstd::prelude::*;

verus! {

/// The map a sequence of user rows denotes: name to password hash, later
/// rows winning (under `distinct_names` no key is repeated, so no row is
/// shadowed).
pub open spec fn map_of(s: Seq<User>) -> Map<Seq<char>, Seq<char>>
    decreases s.len(),
{
    if s.len() == 0 {
        Map::empty()
    } else {
        map_of(s.drop_last()).insert(s.last().spec_name(), s.last().spec_password_hash())
    }
}

/// No two rows share a name.
pub open spec fn distinct_names(s: Seq<User>) -> bool {
    forall|i: int, j: int|
        0 <= i < j < s.len() ==> s[i].spec_name() != s[j].spec_name()
}

/// A name is a key of `map_of(s)` exactly when some row carries it.
pub proof fn lemma_map_of_contains_key(s: Seq<User>, k: Seq<char>)
    ensures
        map_of(s).contains_key(k) <==> exists|i: int|
            0 <= i < s.len() && s[i].spec_name() == k,
    decreases s.len(),
{
    if s.len() > 0 {
        lemma_map_of_contains_key(s.drop_last(), k);
        if s.last().spec_name() == k {
            assert(s[s.len() - 1].spec_name() == k);
        } else if map_of(s).contains_key(k) {
            let i = choose|i: int| 0 <= i < s.drop_last().len() && s.drop_last()[i].spec_name()
                == k;
            assert(s[i].spec_name() == k);
        } else {
            assert forall|i: int| 0 <= i < s.len() implies s[i].spec_name() != k by {
                if i < s.len() - 1 {
                    assert(s.drop_last()[i] == s[i]);
                }
            }
        }
    }
}

/// Under `distinct_names`, each row's hash is what the map stores at its
/// name.
pub proof fn lemma_map_of_index(s: Seq<User>, i: int)
    requires
        distinct_names(s),
        0 <= i < s.len(),
    ensures
        map_of(s).contains_key(s[i].spec_name()),
        map_of(s)[s[i].spec_name()] == s[i].spec_password_hash(),
    decreases s.len(),
{
    if i == s.len() - 1 {
    } else {
        lemma_map_of_index(s.drop_last(), i);
        assert(s.drop_last()[i] == s[i]);
        assert(s[i].spec_name() != s.last().spec_name());
    }
}

/// Appending a row inserts its pair into the denoted map.
pub proof fn lemma_map_of_push(s: Seq<User>, u: User)
    ensures
        map_of(s.push(u)) == map_of(s).insert(u.spec_name(), u.spec_password_hash()),
{
    assert(s.push(u).drop_last() =~= s);
    assert(s.push(u).last() == u);
}

/// Under `distinct_names`, removing a row removes exactly its key.
pub proof fn lemma_map_of_remove(s: Seq<User>, i: int)
    requires
        distinct_names(s),
        0 <= i < s.len(),
    ensures
        map_of(s.remove(i)) == map_of(s).remove(s[i].spec_name()),
    decreases s.len(),
{
    let k = s[i].spec_name();
    if i == s.len() - 1 {
        assert(s.remove(i) =~= s.drop_last());
        lemma_map_of_contains_key(s.drop_last(), k);
        assert forall|j: int| 0 <= j < s.drop_last().len() implies s.drop_last()[j].spec_name()
            != k by {
            assert(s.drop_last()[j] == s[j]);
        }
        assert(!map_of(s.drop_last()).contains_key(k));
        assert(map_of(s.drop_last()).insert(k, s.last().spec_password_hash()).remove(k)
            =~= map_of(s.drop_last()));
    } else {
        assert(s.remove(i).drop_last() =~= s.drop_last().remove(i));
        assert(s.remove(i).last() == s.last());
        lemma_map_of_remove(s.drop_last(), i);
        assert(s.drop_last()[i] == s[i]);
        assert(k != s.last().spec_name());
        assert(map_of(s.drop_last()).remove(k).insert(
            s.last().spec_name(),
            s.last().spec_password_hash(),
        ) =~= map_of(s.drop_last()).insert(
            s.last().spec_name(),
            s.last().spec_password_hash(),
        ).remove(k));
    }
}

/// The in-memory model of the `users` table: the storage engine is treated
/// as an opaque table store, and this is the table the credential
/// operations act on.
pub struct UserStore {
    users: Vec<User>,
}

impl View for UserStore {
    type V = Map<Seq<char>, Seq<char>>;

    closed spec fn view(&self) -> Map<Seq<char>, Seq<char>> {
        map_of(self.users@)
    }
}

impl UserStore {
    /// The table invariant: exactly one row per name.
    pub closed spec fn wf(&self) -> bool {
        distinct_names(self.users@)
    }

    /// An empty table.
    pub fn new() -> (s: UserStore)
        ensures
            s.wf(),
            s@ == Map::<Seq<char>, Seq<char>>::empty(),
    {
        UserStore { users: Vec::new() }
    }

    fn find_index(&self, name: &str) -> (r: Option<usize>)
        ensures
            match r {
                Some(i) => i < self.users@.len() && self.users@[i as int].spec_name() == name@,
                None => forall|i: int|
                    0 <= i < self.users@.len() ==> self.users@[i].spec_name() != name@,
            },
    {
        let name_owned: String = name.to_owned();
        let mut i: usize = 0;
        while i < self.users.len()
            invariant
                i <= self.users@.len(),
                name_owned@ == name@,
                forall|j: int| 0 <= j < i ==> self.users@[j].spec_name() != name@,
            decreases self.users@.len() - i,
        {
            if *self.users[i].name() == name_owned {
                return Some(i);
            }
            i = i + 1;
        }
        None
    }

    /// Whether a user with this name exists; read-only.
    pub fn contains(&self, name: &str) -> (b: bool)
        ensures
            b == self@.contains_key(name@),
    {
        proof {
            lemma_map_of_contains_key(self.users@, name@);
        }
        match self.find_index(name) {
            Some(_) => true,
            None => false,
        }
    }

    /// The stored password hash of `name`, if any; read-only.
    pub fn password_hash_of(&self, name: &str) -> (r: Option<&String>)
        requires
            self.wf(),
        ensures
            match r {
                Some(h) => self@.contains_key(name@) && h@ == self@[name@],
                None => !self@.contains_key(name@),
            },
    {
        proof {
            lemma_map_of_contains_key(self.users@, name@);
        }
        match self.find_index(name) {
            Some(i) => {
                proof {
                    lemma_map_of_index(self.users@, i as int);
                }
                Some(self.users[i].password_hash())
            },
            None => None,
        }
    }
}

/// The existence-precondition of user creation: a present name fails with
/// `UserAlreadyExists` (carrying the name), an absent one passes.
pub fn create_user_check(user_exists: bool, name: &str) -> (r: Result<(), Error>)
    ensures
        user_exists ==> (r matches Err(e) && e matches Error::UserAlreadyExists(n) && n@
            == name@),
        !user_exists ==> r matches Ok(()),
{
    if user_exists {
        Err(Error::UserAlreadyExists(name.to_owned()))
    } else {
        Ok(())
    }
}

/// The existence-precondition of user deletion and password update: an
/// absent name fails with `UserNotFound` (carrying the name).
pub fn require_user_exists(user_exists: bool, name: &str) -> (r: Result<(), Error>)
    ensures
        !user_exists ==> (r matches Err(e) && e matches Error::UserNotFound(n) && n@ == name@),
        user_exists ==> r matches Ok(()),
{
    if !user_exists {
        Err(Error::UserNotFound(name.to_owned()))
    } else {
        Ok(())
    }
}

/// Inserts an already-hashed row.  This is the half of user creation that
/// is fully determined by its arguments: given the row the hasher built,
/// it succeeds exactly when the name is absent, and then stores exactly
/// that row.
pub fn user_insert_hashed(store: &mut UserStore, ins: UserInsert) -> (r: Result<(), Error>)
    requires
        old(store).wf(),
    ensures
        final(store).wf(),
        old(store)@.contains_key(ins.spec_name()) ==> (r matches Err(e) && e matches
            Error::UserAlreadyExists(n) && n@ == ins.spec_name() && final(store)@ == old(
            store,
        )@),
        !old(store)@.contains_key(ins.spec_name()) ==> (r matches Ok(()) && final(store)@ == old(
            store,
        )@.insert(ins.spec_name(), ins.spec_password_hash())),
{
    let present = store.contains(ins.name().as_str());
    match create_user_check(present, ins.name().as_str()) {
        Err(e) => Err(e),
        Ok(()) => {
            let row = User::new(ins.name().clone(), ins.password_hash().clone());
            proof {
                lemma_map_of_contains_key(store.users@, ins.spec_name());
                lemma_map_of_push(store.users@, row);
            }
            store.users.push(row);
            Ok(())
        },
    }
}

/// Creates a user: checks existence by name first (a present name fails
/// with `UserAlreadyExists` and nothing changes), then hashes the password
/// with a fresh salt and inserts the new row.  The stored hash is some
/// scrypt encoding — which one depends on the salt the hasher drew.
pub fn user_create(store: &mut UserStore, name: &str, password: &[u8]) -> (r: Result<(), Error>)
    requires
        old(store).wf(),
    ensures
        final(store).wf(),
        old(store)@.contains_key(name@) ==> (r matches Err(e) && e matches
            Error::UserAlreadyExists(n) && n@ == name@ && final(store)@ == old(store)@),
        !old(store)@.contains_key(name@) ==> match r {
            Ok(()) => (exists|h: Seq<char>|
                final(store)@ == old(store)@.insert(name@, h)) && final(store)@[name@].len() > 8
                && final(store)@[name@].subrange(0, 8) == "$scrypt$"@,
            Err(e) => e is HashError && final(store)@ == old(store)@,
        },
{
    let present = store.contains(name);
    match create_user_check(present, name) {
        Err(e) => Err(e),
        Ok(()) => {
            let ins = match UserInsert::new_with_password(name.to_owned(), password) {
                Ok(i) => i,
                Err(e) => {
                    return Err(e);
                },
            };
            let ghost h = ins.spec_password_hash();
            match user_insert_hashed(store, ins) {
                Ok(()) => {
                    proof {
                        assert(store@ == old(store)@.insert(name@, h));
                    }
                    Ok(())
                },
                Err(e) => Err(e),
            }
        },
    }
}

/// Deletes a user: an absent name fails with `UserNotFound` and nothing
/// changes (so a second delete of the same name always fails the existence
/// check); a present one has exactly its row removed.
pub fn user_delete(store: &mut UserStore, name: &str) -> (r: Result<(), Error>)
    requires
        old(store).wf(),
    ensures
        final(store).wf(),
        !old(store)@.contains_key(name@) ==> (r matches Err(e) && e matches Error::UserNotFound(
            n,
        ) && n@ == name@ && final(store)@ == old(store)@),
        old(store)@.contains_key(name@) ==> (r matches Ok(()) && final(store)@ == old(
            store,
        )@.remove(name@)),
{
    proof {
        lemma_map_of_contains_key(store.users@, name@);
    }
    match store.find_index(name) {
        None => Err(Error::UserNotFound(name.to_owned())),
        Some(i) => {
            proof {
                lemma_map_of_remove(store.users@, i as int);
                assert forall|a: int, b: int|
                    0 <= a < b < store.users@.remove(i as int).len() implies store.users@.remove(
                    i as int,
                )[a].spec_name() != store.users@.remove(i as int)[b].spec_name() by {
                    let s = store.users@;
                    let a0: int = if a < i { a } else { a + 1 };
                    let b0: int = if b < i { b } else { b + 1 };
                    assert(s.remove(i as int)[a] == s[a0]);
                    assert(s.remove(i as int)[b] == s[b0]);
                }
            }
            store.users.remove(i);
            Ok(())
        },
    }
}

/// All user names, one per row, in storage order; read-only.  The result
/// lists each key of the table exactly once.
pub fn user_list(store: &UserStore) -> (r: Vec<String>)
    requires
        store.wf(),
    ensures
        forall|i: int| 0 <= i < r@.len() ==> store@.contains_key(#[trigger] r@[i]@),
        forall|k: Seq<char>|
            store@.contains_key(k) ==> exists|i: int| 0 <= i < r@.len() && r@[i]@ == k,
        forall|i: int, j: int| 0 <= i < j < r@.len() ==> r@[i]@ != r@[j]@,
{
    let mut names: Vec<String> = Vec::new();
    let mut i: usize = 0;
    while i < store.users.len()
        invariant
            store.wf(),
            i <= store.users@.len(),
            names@.len() == i,
            forall|j: int| 0 <= j < i ==> #[trigger] names@[j]@ == store.users@[j].spec_name(),
        decreases store.users@.len() - i,
    {
        names.push(store.users[i].name().clone());
        i = i + 1;
    }
    proof {
        assert forall|i2: int| 0 <= i2 < names@.len() implies store@.contains_key(
            #[trigger] names@[i2]@,
        ) by {
            lemma_map_of_index(store.users@, i2);
        }
        assert forall|k: Seq<char>| store@.contains_key(k) implies exists|i2: int|
            0 <= i2 < names@.len() && names@[i2]@ == k by {
            lemma_map_of_contains_key(store.users@, k);
            let w = choose|w: int| 0 <= w < store.users@.len() && store.users@[w].spec_name()
                == k;
            assert(names@[w]@ == k);
        }
    }
    names
}

/// Replaces the stored hash of `name` with the given, already-computed
/// one.  This is the half of a password change that is fully determined by
/// its arguments: it succeeds exactly when the name is present, re-keys
/// that row and touches nothing else; an absent name fails with
/// `UserNotFound` rather than creating a row.
pub fn user_update_hashed(store: &mut UserStore, name: &str, hash: String) -> (r: Result<
    (),
    Error,
>)
    requires
        old(store).wf(),
    ensures
        final(store).wf(),
        !old(store)@.contains_key(name@) ==> (r matches Err(e) && e matches Error::UserNotFound(
            n,
        ) && n@ == name@ && final(store)@ == old(store)@),
        old(store)@.contains_key(name@) ==> (r matches Ok(()) && final(store)@ == old(
            store,
        )@.insert(name@, hash@)),
{
    proof {
        lemma_map_of_contains_key(store.users@, name@);
    }
    match store.find_index(name) {
        None => Err(Error::UserNotFound(name.to_owned())),
        Some(i) => {
            proof {
                lemma_map_of_remove(store.users@, i as int);
                assert forall|a: int, b: int|
                    0 <= a < b < store.users@.remove(i as int).len() implies store.users@.remove(
                    i as int,
                )[a].spec_name() != store.users@.remove(i as int)[b].spec_name() by {
                    let s = store.users@;
                    let a0: int = if a < i { a } else { a + 1 };
                    let b0: int = if b < i { b } else { b + 1 };
                    assert(s.remove(i as int)[a] == s[a0]);
                    assert(s.remove(i as int)[b] == s[b0]);
                }
            }
            store.users.remove(i);
            let ghost mid = store.users@;
            let row = User::new(name.to_owned(), hash);
            proof {
                lemma_map_of_contains_key(mid, name@);
                lemma_map_of_push(mid, row);
            }
            store.users.push(row);
            proof {
                assert(old(store)@.remove(name@).insert(name@, hash@) =~= old(store)@.insert(
                    name@,
                    hash@,
                ));
                assert(store@ == old(store)@.insert(name@, hash@));
            }
            Ok(())
        },
    }
}

/// Sets the password of a user: checks existence by name first (an absent
/// name fails with `UserNotFound` and no row is created), then hashes the
/// new password with a fresh salt and replaces the stored hash of exactly
/// that row.
pub fn user_set_password(store: &mut UserStore, name: &str, password: &[u8]) -> (r: Result<
    (),
    Error,
>)
    requires
        old(store).wf(),
    ensures
        final(store).wf(),
        !old(store)@.contains_key(name@) ==> (r matches Err(e) && e matches Error::UserNotFound(
            n,
        ) && n@ == name@ && final(store)@ == old(store)@),
        old(store)@.contains_key(name@) ==> match r {
            Ok(()) => (exists|h: Seq<char>|
                final(store)@ == old(store)@.insert(name@, h)) && final(store)@[name@].len() > 8
                && final(store)@[name@].subrange(0, 8) == "$scrypt$"@,
            Err(e) => e is HashError && final(store)@ == old(store)@,
        },
{
    let present = store.contains(name);
    match require_user_exists(present, name) {
        Err(e) => Err(e),
        Ok(()) => {
            let hash = match hash_password(password) {
                Ok(h) => h,
                Err(e) => {
                    return Err(e);
                },
            };
            let ghost hv = hash@;
            match user_update_hashed(store, name, hash) {
                Ok(()) => {
                    proof {
                        assert(store@ == old(store)@.insert(name@, hv));
                    }
                    Ok(())
                },
                Err(e) => Err(e),
            }
        },
    }
}

/// Law: after a creation stored the pair `(name, h)`, the name is present,
/// so an immediately following `user_create` of the same name takes the
/// `UserAlreadyExists` branch of its contract and leaves the store — in
/// particular the stored hash `h` of the first call — unchanged.
pub proof fn lemma_create_then_create(m: Map<Seq<char>, Seq<char>>, name: Seq<char>, h: Seq<char>)
    requires
        !m.contains_key(name),
    ensures
        m.insert(name, h).contains_key(name),
        m.insert(name, h)[name] == h,
{
}

/// Law: creating three distinct users in an empty table and deleting the
/// middle one leaves exactly the other two names as the table's keys —
/// what `user_list` then returns, as a set.
pub proof fn lemma_list_after_create_delete(
    a: Seq<char>,
    b: Seq<char>,
    c: Seq<char>,
    ha: Seq<char>,
    hb: Seq<char>,
    hc: Seq<char>,
)
    requires
        a != b,
        b != c,
        a != c,
    ensures
        Map::<Seq<char>, Seq<char>>::empty().insert(a, ha).insert(b, hb).insert(c, hc).remove(
            b,
        ).dom() =~= set![a, c],
{
    let m = Map::<Seq<char>, Seq<char>>::empty().insert(a, ha).insert(b, hb).insert(c, hc).remove(
        b,
    );
    assert(m.contains_key(a));
    assert(m.contains_key(c));
    assert forall|k: Seq<char>| m.contains_key(k) implies set![a, c].contains(k) by {}
}

} // verus!
