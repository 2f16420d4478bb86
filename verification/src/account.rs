//! The user directory: an immutable account table loaded before any
//! session starts, looked up by username and never mutated.

use vstd::prelude::*;

verus! {

/// An account's role: only `Normal` may log in.
#[derive(Clone, Copy, PartialEq, Eq, Structural, Debug)]
pub enum Role {
    Normal,
    Blocked,
    NotAllowed,
}

/// One account record: credentials and the root of its directory jail.
pub struct UserAccount {
    pub name: String,
    pub pass: String,
    pub role: Role,
    /// Display form of the account's filesystem root.
    pub root: String,
}

impl UserAccount {
    /// An identical copy of the record.
    pub fn dup(&self) -> (r: UserAccount)
        ensures
            r == *self,
    {
        UserAccount {
            name: self.name.clone(),
            pass: self.pass.clone(),
            role: self.role,
            root: self.root.clone(),
        }
    }
}

/// The first account whose name matches, if any.
pub open spec fn lookup_spec(accs: Seq<UserAccount>, name: Seq<char>) -> Option<UserAccount>
    decreases accs.len(),
{
    if accs.len() == 0 {
        None
    } else if accs[0].name@ == name {
        Some(accs[0])
    } else {
        lookup_spec(accs.drop_first(), name)
    }
}

/// The process-wide account table.
pub struct UserDirectory {
    pub accounts: Vec<UserAccount>,
}

impl UserDirectory {
    pub open spec fn lookup(&self, name: Seq<char>) -> Option<UserAccount> {
        lookup_spec(self.accounts@, name)
    }

    pub fn new() -> (r: UserDirectory)
        ensures
            r.accounts@.len() == 0,
    {
        UserDirectory { accounts: Vec::new() }
    }

    pub fn add(&mut self, acc: UserAccount)
        ensures
            final(self).accounts@ == old(self).accounts@.push(acc),
    {
        self.accounts.push(acc);
    }

    /// Looks a username up, as the login sequence does.
    pub fn find(&self, name: &str) -> (r: Option<UserAccount>)
        ensures
            r == self.lookup(name@),
    {
        proof {
            assert(self.accounts@.subrange(0, self.accounts@.len() as int) =~= self.accounts@);
        }
        let mut i: usize = 0;
        while i < self.accounts.len()
            invariant
                0 <= i <= self.accounts@.len(),
                lookup_spec(self.accounts@, name@) == lookup_spec(
                    self.accounts@.subrange(i as int, self.accounts@.len() as int),
                    name@,
                ),
            decreases self.accounts@.len() - i,
        {
            proof {
                let tail = self.accounts@.subrange(i as int, self.accounts@.len() as int);
                assert(tail[0] == self.accounts@[i as int]);
                assert(tail.drop_first() =~= self.accounts@.subrange(
                    i as int + 1,
                    self.accounts@.len() as int,
                ));
            }
            let name_s = name.to_owned();
            if self.accounts[i].name.eq(&name_s) {
                return Some(self.accounts[i].dup());
            }
            i = i + 1;
        }
        None
    }
}

} // verus!
