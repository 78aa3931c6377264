use vstd::prelude::*;

use crate::errors::Error;

verus! {

/// The capability a directory entry grants: creating items, claiming
/// them, or both at once.
#[derive(Clone, Copy, Debug, PartialEq, Eq, Structural)]
pub enum Role {
    Poster,
    Claimant,
    Both,
}

/// Whether an entry registered with `have` grants the capability `need`.
pub open spec fn grants(have: Role, need: Role) -> bool {
    match need {
        Role::Poster => have is Poster || have is Both,
        Role::Claimant => have is Claimant || have is Both,
        Role::Both => have is Both,
    }
}

/// Two registrations overlap when they share at least one capability.
/// Registration rejects an entry that would overlap an existing one, so
/// an identity holds each capability through at most one entry.
pub open spec fn overlaps(a: Role, b: Role) -> bool {
    ||| (grants(a, Role::Poster) && grants(b, Role::Poster))
    ||| (grants(a, Role::Claimant) && grants(b, Role::Claimant))
}

/// Whether `have` grants the capability `need`, decided at run time.
pub fn role_grants(have: Role, need: Role) -> (r: bool)
    ensures
        r == grants(have, need),
{
    match need {
        Role::Poster => have == Role::Poster || have == Role::Both,
        Role::Claimant => have == Role::Claimant || have == Role::Both,
        Role::Both => have == Role::Both,
    }
}

/// Whether two registrations share a capability, decided at run time.
pub fn roles_overlap(a: Role, b: Role) -> (r: bool)
    ensures
        r == overlaps(a, b),
{
    (role_grants(a, Role::Poster) && role_grants(b, Role::Poster)) || (role_grants(
        a,
        Role::Claimant,
    ) && role_grants(b, Role::Claimant))
}

/// One directory entry: a role-tagged profile for an identity. The
/// identity is an opaque, externally authenticated name; the registry
/// only ever compares it for equality.
#[derive(Debug, PartialEq)]
pub struct Actor {
    pub identity: String,
    pub role: Role,
    /// Free-form profile text; the registry never interprets it.
    pub profile: String,
}

impl Clone for Actor {
    /// A cloned entry is equal to the original, field for field.
    fn clone(&self) -> (res: Self)
        ensures
            res == *self,
    {
        Actor {
            identity: self.identity.clone(),
            role: self.role,
            profile: self.profile.clone(),
        }
    }
}

/// `who` is registered with an entry granting the capability `need`.
pub open spec fn role_granted(actors: Seq<Actor>, who: Seq<char>, need: Role) -> bool {
    exists|i: int|
        0 <= i < actors.len() && actors[i].identity@ == who && grants(actors[i].role, need)
}

/// Some entry of `who` already covers part of the requested `role`.
pub open spec fn registered_overlapping(actors: Seq<Actor>, who: Seq<char>, role: Role) -> bool {
    exists|i: int|
        0 <= i < actors.len() && actors[i].identity@ == who && overlaps(actors[i].role, role)
}

/// Directory invariant: no two entries of one identity share a
/// capability, so each capability of an identity has a unique entry.
pub open spec fn directory_valid(actors: Seq<Actor>) -> bool {
    forall|i: int, j: int|
        0 <= i < actors.len() && 0 <= j < actors.len() && i != j ==> !(actors[i].identity@
            == actors[j].identity@ && overlaps(actors[i].role, actors[j].role))
}

/// The directory of registered actors: pure key-value semantics, keyed
/// by identity and role. Entries are never deleted.
pub struct ActorDirectory {
    entries: Vec<Actor>,
}

impl View for ActorDirectory {
    type V = Seq<Actor>;

    closed spec fn view(&self) -> Seq<Actor> {
        self.entries@
    }
}

impl ActorDirectory {
    /// The directory invariant; established by `new` and preserved by
    /// every operation.
    pub open spec fn wf(&self) -> bool {
        directory_valid(self@)
    }

    /// An empty directory.
    pub fn new() -> (d: ActorDirectory)
        ensures
            d@ == Seq::<Actor>::empty(),
            d.wf(),
    {
        ActorDirectory { entries: Vec::new() }
    }

    /// How many entries the directory holds.
    pub fn len(&self) -> (n: usize)
        ensures
            n == self@.len(),
    {
        self.entries.len()
    }

    /// Whether some entry of `who` overlaps the capabilities of `role`.
    pub fn has_overlapping(&self, who: &String, role: Role) -> (r: bool)
        ensures
            r == registered_overlapping(self@, who@, role),
    {
        let mut i: usize = 0;
        while i < self.entries.len()
            invariant
                i <= self.entries.len(),
                forall|k: int|
                    0 <= k < i ==> !(self@[k].identity@ == who@ && overlaps(self@[k].role, role)),
            decreases self.entries.len() - i,
        {
            let e = &self.entries[i];
            if e.identity == *who && roles_overlap(e.role, role) {
                return true;
            }
            i = i + 1;
        }
        false
    }

    /// Whether `who` is registered with an entry granting `need`.
    pub fn has_capability(&self, who: &String, need: Role) -> (r: bool)
        ensures
            r == role_granted(self@, who@, need),
    {
        let mut i: usize = 0;
        while i < self.entries.len()
            invariant
                i <= self.entries.len(),
                forall|k: int|
                    0 <= k < i ==> !(self@[k].identity@ == who@ && grants(self@[k].role, need)),
            decreases self.entries.len() - i,
        {
            let e = &self.entries[i];
            if e.identity == *who && role_grants(e.role, need) {
                return true;
            }
            i = i + 1;
        }
        false
    }

    /// Register `who` with a role and profile.
    ///
    /// Fails with `AlreadyRegistered`, leaving the directory unchanged,
    /// exactly when an existing entry of `who` already covers part of
    /// the requested role. Otherwise the new entry is appended and a
    /// copy of it is returned; the directory grows by one.
    pub fn register(&mut self, who: String, role: Role, profile: String) -> (result: Result<
        Actor,
        Error,
    >)
        requires
            old(self).wf(),
        ensures
            final(self).wf(),
            registered_overlapping(old(self)@, who@, role) ==> (result == Err::<Actor, Error>(
                Error::AlreadyRegistered,
            ) && final(self)@ == old(self)@),
            !registered_overlapping(old(self)@, who@, role) ==> (result matches Ok(a) && a.identity@
                == who@ && a.role == role && a.profile == profile && final(self)@ == old(
                self,
            )@.push(a)),
    {
        if self.has_overlapping(&who, role) {
            return Err(Error::AlreadyRegistered);
        }
        let entry = Actor { identity: who, role, profile };
        let copy = entry.clone();
        self.entries.push(entry);
        Ok(copy)
    }

    /// Look up the first entry registered for `who`, in registration
    /// order. Fails with `NotFound` exactly when `who` has no entry.
    pub fn lookup(&self, who: &String) -> (result: Result<Actor, Error>)
        ensures
            (exists|j: int| 0 <= j < self@.len() && self@[j].identity@ == who@) <==> result is Ok,
            result matches Ok(a) ==> exists|j: int|
                0 <= j < self@.len() && self@[j].identity@ == who@ && a == self@[j] && (forall|
                    k: int,
                |
                    0 <= k < j ==> self@[k].identity@ != who@),
            result is Err ==> result == Err::<Actor, Error>(Error::NotFound),
    {
        let mut i: usize = 0;
        while i < self.entries.len()
            invariant
                i <= self.entries.len(),
                forall|k: int| 0 <= k < i ==> self@[k].identity@ != who@,
            decreases self.entries.len() - i,
        {
            let e = &self.entries[i];
            if e.identity == *who {
                return Ok(e.clone());
            }
            i = i + 1;
        }
        Err(Error::NotFound)
    }

    /// Every entry, in registration order.
    pub fn list(&self) -> (result: Vec<Actor>)
        ensures
            result@ == self@,
    {
        let mut out: Vec<Actor> = Vec::new();
        let mut i: usize = 0;
        while i < self.entries.len()
            invariant
                i <= self.entries.len(),
                out@ == self@.take(i as int),
            decreases self.entries.len() - i,
        {
            out.push(self.entries[i].clone());
            i = i + 1;
        }
        proof {
            assert(self@.take(self@.len() as int) =~= self@);
        }
        out
    }
}

} // verus!
