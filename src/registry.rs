use vstd::prelude::*;
use crate::messages::UniversityContext;

verus! {

/// Why a directory or subscription operation was refused.
#[derive(Copy, Clone, Debug, PartialEq, Eq, Structural)]
pub enum RegistryError {
    /// No university has the given id.
    UniversityNotFound,
    /// The university exists but holds no department with the given id.
    DepartmentNotFound,
    /// The slug is already used (by a university, or by a department of the
    /// same university).
    AlreadyExists,
    /// An operation code in a subscription batch is neither subscribe nor
    /// unsubscribe.
    InvalidOperation,
    /// Every id has been handed out.
    IdSpaceExhausted,
}

/// Operation code of a subscription batch entry that subscribes.
pub const OPER_SUBSCRIBE: u16 = 0;

/// Operation code of a subscription batch entry that unsubscribes.
pub const OPER_UNSUBSCRIBE: u16 = 1;

/// One entry of a subscription batch: a department and what to do with it.
#[derive(Clone, Debug)]
pub struct SubscribeDetail {
    pub school_code: u32,
    pub department_code: u32,
    pub oper: u16,
}

/// A top-level directory entry.
#[derive(Clone, Debug)]
pub struct University {
    pub id: u32,
    pub slug: String,
    pub name: String,
}

/// A second-level directory entry, owned by one university.
#[derive(Clone, Debug)]
pub struct Department {
    pub university_id: u32,
    pub id: u32,
    pub slug: String,
    pub name: String,
}

/// One user subscribed to one department.
#[derive(Clone, Debug)]
pub struct Subscription {
    pub open_id: String,
    pub university_id: u32,
    pub department_id: u32,
}

/// Whether a user is subscribed to department `d` of university `u` after the
/// batch `ops` has been applied in order, where `before` says whether it was
/// subscribed before: the last entry that names that department decides.
pub open spec fn batch_outcome(ops: Seq<SubscribeDetail>, u: u32, d: u32, before: bool) -> bool
    decreases ops.len(),
{
    if ops.len() == 0 {
        before
    } else if ops.last().school_code == u && ops.last().department_code == d {
        ops.last().oper == OPER_SUBSCRIBE
    } else {
        batch_outcome(ops.drop_last(), u, d, before)
    }
}

spec fn has_university_in(s: Seq<University>, u: u32) -> bool {
    exists|i: int| 0 <= i < s.len() && s[i].id == u
}

spec fn university_slug_taken_in(s: Seq<University>, slug: Seq<char>) -> bool {
    exists|i: int| 0 <= i < s.len() && s[i].slug@ == slug
}

spec fn university_name_in(s: Seq<University>, u: u32) -> Seq<char> {
    let i = choose|i: int| 0 <= i < s.len() && s[i].id == u;
    s[i].name@
}

spec fn has_department_in(s: Seq<Department>, u: u32, d: u32) -> bool {
    exists|i: int|
        0 <= i < s.len() && s[i].university_id == u
            && s[i].id == d
}

spec fn department_slug_taken_in(s: Seq<Department>, u: u32, slug: Seq<char>) -> bool {
    exists|i: int|
        0 <= i < s.len() && s[i].university_id == u
            && s[i].slug@ == slug
}

spec fn department_name_in(s: Seq<Department>, u: u32, d: u32) -> Seq<char> {
    let i = choose|i: int|
        0 <= i < s.len() && s[i].university_id == u
            && s[i].id == d;
    s[i].name@
}

spec fn subscribed_in(s: Seq<Subscription>, user: Seq<char>, u: u32, d: u32) -> bool {
    exists|i: int|
        0 <= i < s.len() && s[i].open_id@ == user
            && s[i].university_id == u
            && s[i].department_id == d
}

spec fn university_slug_in(s: Seq<University>, u: u32) -> Seq<char> {
    let i = choose|i: int| 0 <= i < s.len() && s[i].id == u;
    s[i].slug@
}

spec fn department_slug_in(s: Seq<Department>, u: u32, d: u32) -> Seq<char> {
    let i = choose|i: int|
        0 <= i < s.len() && s[i].university_id == u
            && s[i].id == d;
    s[i].slug@
}

/// Which subscription records a removal selects: those of university
/// `university_id`, narrowed to one department and to one user where those
/// are given.
struct SubscriptionFilter {
    user: Option<String>,
    university_id: u32,
    department_id: Option<u32>,
}

impl SubscriptionFilter {
    spec fn selects(self, user: Seq<char>, u: u32, d: u32) -> bool {
        &&& u == self.university_id
        &&& (self.department_id matches Some(dd) ==> d == dd)
        &&& (self.user matches Some(x) ==> user == x@)
    }

    fn selects_exec(&self, user: &String, u: u32, d: u32) -> (r: bool)
        ensures
            r == self.selects(user@, u, d),
    {
        if u != self.university_id {
            return false;
        }
        match self.department_id {
            Some(dd) => {
                if d != dd {
                    return false;
                }
            },
            None => {},
        }
        match &self.user {
            Some(x) => *x == *user,
            None => true,
        }
    }
}

/// The directory of universities and departments together with the
/// subscriptions to departments.
///
/// Each subscription is stored once, as a (user, university, department)
/// record. A department's subscriber set and a user's subscription index are
/// the two projections of that one relation, so they cannot drift apart, and
/// the well-formedness invariant forbids a record whose department does not
/// exist.
pub struct Registry {
    universities: Vec<University>,
    departments: Vec<Department>,
    subscriptions: Vec<Subscription>,
    next_id: u32,
}

impl Registry {
    /// The university `u` exists.
    pub closed spec fn has_university(self, u: u32) -> bool {
        has_university_in(self.universities@, u)
    }

    /// Some university uses `slug`.
    pub closed spec fn university_slug_taken(self, slug: Seq<char>) -> bool {
        university_slug_taken_in(self.universities@, slug)
    }

    /// The display name of university `u` (meaningful where it exists).
    pub closed spec fn university_name(self, u: u32) -> Seq<char> {
        university_name_in(self.universities@, u)
    }

    /// The department `d` of university `u` exists.
    pub closed spec fn has_department(self, u: u32, d: u32) -> bool {
        has_department_in(self.departments@, u, d)
    }

    /// Some department of university `u` uses `slug`.
    pub closed spec fn department_slug_taken(self, u: u32, slug: Seq<char>) -> bool {
        department_slug_taken_in(self.departments@, u, slug)
    }

    /// The display name of department `d` of university `u` (meaningful where
    /// it exists).
    pub closed spec fn department_name(self, u: u32, d: u32) -> Seq<char> {
        department_name_in(self.departments@, u, d)
    }

    /// User `user` is subscribed to department `d` of university `u`.
    pub closed spec fn subscribed(self, user: Seq<char>, u: u32, d: u32) -> bool {
        subscribed_in(self.subscriptions@, user, u, d)
    }

    /// The subscriber set of a department.
    pub open spec fn subscribers(self, u: u32, d: u32) -> Set<Seq<char>> {
        Set::new(|user: Seq<char>| self.subscribed(user, u, d))
    }

    /// The subscription index of a user: the departments it subscribes to.
    pub open spec fn subscriptions_of(self, user: Seq<char>) -> Set<(u32, u32)> {
        Set::new(|p: (u32, u32)| self.subscribed(user, p.0, p.1))
    }

    /// `v` holds the subscriber set of department `d` of university `u`,
    /// each user once.
    pub open spec fn lists_subscribers(self, v: Seq<String>, u: u32, d: u32) -> bool {
        &&& forall|k: int| 0 <= k < v.len() ==> self.subscribed(#[trigger] v[k]@, u, d)
        &&& forall|x: Seq<char>|
            self.subscribed(x, u, d) ==> exists|k: int| 0 <= k < v.len() && #[trigger] v[k]@ == x
        &&& forall|k1: int, k2: int| 0 <= k1 < k2 < v.len() ==> v[k1]@ != v[k2]@
    }

    /// `v` holds every department of university `u` as (id, display name),
    /// each once.
    pub open spec fn lists_departments(self, v: Seq<(u32, String)>, u: u32) -> bool {
        &&& forall|k: int|
            0 <= k < v.len() ==> self.has_department(u, #[trigger] v[k].0) && v[k].1@
                == self.department_name(u, v[k].0)
        &&& forall|d: u32| self.has_department(u, d) ==> exists|k: int| 0 <= k < v.len() && #[trigger] v[k].0 == d
        &&& forall|k1: int, k2: int| 0 <= k1 < k2 < v.len() ==> v[k1].0 != v[k2].0
    }

    /// The slug of university `u` (meaningful where it exists).
    pub closed spec fn university_slug(self, u: u32) -> Seq<char> {
        university_slug_in(self.universities@, u)
    }

    /// The slug of department `d` of university `u` (meaningful where it
    /// exists).
    pub closed spec fn department_slug(self, u: u32, d: u32) -> Seq<char> {
        department_slug_in(self.departments@, u, d)
    }

    /// How many ids are left to hand out.
    pub closed spec fn ids_left(self) -> nat {
        (u32::MAX - self.next_id) as nat
    }

    /// No id is left to hand out.
    pub open spec fn exhausted(self) -> bool {
        self.ids_left() == 0
    }

    /// The registry's invariant: ids and slugs are unique where they must
    /// be, every department belongs to an existing university, and every
    /// subscription names an existing department, once.
    pub closed spec fn wf(self) -> bool {
        &&& forall|i: int, j: int|
            0 <= i < j < self.universities@.len() ==> self.universities@[i].id
                != self.universities@[j].id && self.universities@[i].slug@
                != self.universities@[j].slug@
        &&& forall|i: int|
            0 <= i < self.universities@.len() ==> self.universities@[i].id < self.next_id
        &&& forall|i: int, j: int|
            0 <= i < j < self.departments@.len() ==> self.departments@[i].id
                != self.departments@[j].id && (self.departments@[i].university_id
                == self.departments@[j].university_id ==> self.departments@[i].slug@
                != self.departments@[j].slug@)
        &&& forall|i: int|
            0 <= i < self.departments@.len() ==> #[trigger] self.departments@[i].id < self.next_id
        &&& forall|i: int|
            0 <= i < self.departments@.len() ==> self.has_university(
                #[trigger] self.departments@[i].university_id,
            )
        &&& forall|i: int|
            0 <= i < self.subscriptions@.len() ==> self.has_department(
                #[trigger] self.subscriptions@[i].university_id,
                self.subscriptions@[i].department_id,
            )
        &&& forall|i: int, j: int|
            0 <= i < j < self.subscriptions@.len() ==> !(self.subscriptions@[i].open_id@
                == self.subscriptions@[j].open_id@ && self.subscriptions@[i].university_id
                == self.subscriptions@[j].university_id && self.subscriptions@[i].department_id
                == self.subscriptions@[j].department_id)
    }

    /// `self` and `other` hold the same universities, with the same names.
    pub open spec fn same_universities(self, other: Registry) -> bool {
        &&& forall|u: u32| self.has_university(u) == other.has_university(u)
        &&& forall|u: u32| self.has_university(u) ==> self.university_name(u) == other.university_name(u)
        &&& forall|s: Seq<char>| self.university_slug_taken(s) == other.university_slug_taken(s)
    }

    /// `self` and `other` hold the same departments, with the same names.
    pub open spec fn same_departments(self, other: Registry) -> bool {
        &&& forall|u: u32, d: u32| self.has_department(u, d) == other.has_department(u, d)
        &&& forall|u: u32, d: u32|
            self.has_department(u, d) ==> self.department_name(u, d) == other.department_name(u, d)
        &&& forall|u: u32, s: Seq<char>|
            self.department_slug_taken(u, s) == other.department_slug_taken(u, s)
    }

    /// `self` and `other` hold the same subscriptions.
    pub open spec fn same_subscriptions(self, other: Registry) -> bool {
        forall|user: Seq<char>, u: u32, d: u32|
            self.subscribed(user, u, d) == other.subscribed(user, u, d)
    }

    proof fn lemma_university_name_at(self, i: int)
        requires
            self.wf(),
            0 <= i < self.universities@.len(),
        ensures
            self.has_university(self.universities@[i].id),
            self.university_name(self.universities@[i].id) == self.universities@[i].name@,
            self.university_slug(self.universities@[i].id) == self.universities@[i].slug@,
    {
        let u = self.universities@[i].id;
        assert(self.has_university(u));
        let j = choose|j: int| 0 <= j < self.universities@.len() && self.universities@[j].id == u;
        assert(i == j);
    }

    proof fn lemma_department_name_at(self, i: int)
        requires
            self.wf(),
            0 <= i < self.departments@.len(),
        ensures
            self.has_department(self.departments@[i].university_id, self.departments@[i].id),
            self.department_name(self.departments@[i].university_id, self.departments@[i].id)
                == self.departments@[i].name@,
            self.department_slug(self.departments@[i].university_id, self.departments@[i].id)
                == self.departments@[i].slug@,
    {
        let u = self.departments@[i].university_id;
        let d = self.departments@[i].id;
        assert(self.has_department(u, d));
        let j = choose|j: int|
            0 <= j < self.departments@.len() && self.departments@[j].university_id == u
                && self.departments@[j].id == d;
        assert(i == j);
    }

    fn find_university_slug(&self, slug: &String) -> (r: bool)
        ensures
            r == self.university_slug_taken(slug@),
    {
        let mut i: usize = 0;
        while i < self.universities.len()
            invariant
                i <= self.universities@.len(),
                forall|k: int| 0 <= k < i ==> self.universities@[k].slug@ != slug@,
            decreases self.universities@.len() - i,
        {
            if self.universities[i].slug == *slug {
                return true;
            }
            i = i + 1;
        }
        false
    }

    fn university_position(&self, u: u32) -> (r: Option<usize>)
        ensures
            r matches Some(i) ==> i < self.universities@.len() && self.universities@[i as int].id == u,
            r is None ==> !self.has_university(u),
    {
        let mut i: usize = 0;
        while i < self.universities.len()
            invariant
                i <= self.universities@.len(),
                forall|k: int| 0 <= k < i ==> self.universities@[k].id != u,
            decreases self.universities@.len() - i,
        {
            if self.universities[i].id == u {
                return Some(i);
            }
            i = i + 1;
        }
        None
    }

    /// Adds a university under a fresh id. A slug already in use is refused
    /// with `AlreadyExists`; a registry whose ids are used up refuses with
    /// `IdSpaceExhausted`. Nothing changes on an error.
    pub fn add_university(&mut self, slug: &str, name: &str) -> (r: Result<u32, RegistryError>)
        requires
            old(self).wf(),
        ensures
            final(self).wf(),
            old(self).university_slug_taken(slug@) ==> r == Err::<u32, RegistryError>(
                RegistryError::AlreadyExists,
            ),
            !old(self).university_slug_taken(slug@) && old(self).exhausted() ==> r == Err::<
                u32,
                RegistryError,
            >(RegistryError::IdSpaceExhausted),
            !old(self).university_slug_taken(slug@) && !old(self).exhausted() ==> r is Ok,
            r is Err ==> *final(self) == *old(self),
            r matches Ok(id) ==> {
                &&& !old(self).has_university(id)
                &&& final(self).has_university(id)
                &&& final(self).university_name(id) == name@
                &&& final(self).university_slug_taken(slug@)
                &&& final(self).ids_left() + 1 == old(self).ids_left()
                &&& forall|d: u32| !final(self).has_department(id, d)
                &&& forall|u: u32| u != id ==> final(self).has_university(u) == old(self).has_university(u)
                &&& forall|u: u32|
                    u != id && old(self).has_university(u) ==> final(self).university_name(u)
                        == old(self).university_name(u)
                &&& forall|s: Seq<char>|
                    s != slug@ ==> final(self).university_slug_taken(s) == old(self).university_slug_taken(s)
                &&& final(self).same_departments(*old(self))
                &&& final(self).same_subscriptions(*old(self))
            },
    {
        let slug_s = slug.to_owned();
        if self.find_university_slug(&slug_s) {
            return Err(RegistryError::AlreadyExists);
        }
        if self.next_id == u32::MAX {
            return Err(RegistryError::IdSpaceExhausted);
        }
        let id = self.next_id;
        let ghost prev = *self;
        self.universities.push(University { id, slug: slug_s, name: name.to_owned() });
        self.next_id = id + 1;
        proof {
            let n = prev.universities@.len() as int;
            assert(self.universities@[n].id == id);
            assert(self.universities@[n].slug@ == slug@);
            assert forall|u: u32| #[trigger] self.has_university(u) == (prev.has_university(u) || u == id) by {
                if prev.has_university(u) {
                    let k = choose|k: int| 0 <= k < prev.universities@.len() && prev.universities@[k].id == u;
                    assert(self.universities@[k] == prev.universities@[k]);
                }
                if self.has_university(u) && u != id {
                    let k = choose|k: int| 0 <= k < self.universities@.len() && self.universities@[k].id == u;
                    assert(k < n);
                    assert(prev.universities@[k] == self.universities@[k]);
                }
            }
            assert forall|s: Seq<char>| #[trigger] self.university_slug_taken(s) == (prev.university_slug_taken(s) || s == slug@) by {
                if prev.university_slug_taken(s) {
                    let k = choose|k: int| 0 <= k < prev.universities@.len() && prev.universities@[k].slug@ == s;
                    assert(self.universities@[k] == prev.universities@[k]);
                }
                if self.university_slug_taken(s) && s != slug@ {
                    let k = choose|k: int| 0 <= k < self.universities@.len() && self.universities@[k].slug@ == s;
                    assert(k < n);
                    assert(prev.universities@[k] == self.universities@[k]);
                }
            }
            assert forall|i: int| 0 <= i < self.departments@.len() implies
                self.has_university(#[trigger] self.departments@[i].university_id) by {
                assert(prev.has_university(prev.departments@[i].university_id));
            }
            assert(self.subscriptions == prev.subscriptions);
            assert(self.departments == prev.departments);
            assert forall|i: int, j: int| 0 <= i < j < self.universities@.len() implies
                self.universities@[i].id != self.universities@[j].id
                && self.universities@[i].slug@ != self.universities@[j].slug@ by {
                if j == n {
                    assert(prev.universities@[i] == self.universities@[i]);
                    assert(prev.university_slug_taken(self.universities@[i].slug@));
                }
            }
            assert forall|i: int| 0 <= i < self.subscriptions@.len() implies self.has_department(
                #[trigger] self.subscriptions@[i].university_id,
                self.subscriptions@[i].department_id,
            ) by {
                assert(prev.has_department(prev.subscriptions@[i].university_id, prev.subscriptions@[i].department_id));
            }
            assert(self.wf());
            self.lemma_university_name_at(n);
            assert forall|u: u32| u != id && prev.has_university(u) implies
                #[trigger] self.university_name(u) == prev.university_name(u) by {
                let k = choose|k: int| 0 <= k < prev.universities@.len() && prev.universities@[k].id == u;
                prev.lemma_university_name_at(k);
                self.lemma_university_name_at(k);
            }
            assert(self.same_departments(prev));
            assert(self.same_subscriptions(prev));
            assert forall|d: u32| !self.has_department(id, d) by {
                if prev.has_department(id, d) {
                    let k = choose|k: int|
                        0 <= k < prev.departments@.len() && prev.departments@[k].university_id == id
                            && prev.departments@[k].id == d;
                    assert(prev.has_university(prev.departments@[k].university_id));
                }
            }
        }
        Ok(id)
    }

    fn find_department_slug(&self, u: u32, slug: &String) -> (r: bool)
        ensures
            r == self.department_slug_taken(u, slug@),
    {
        let mut i: usize = 0;
        while i < self.departments.len()
            invariant
                i <= self.departments@.len(),
                forall|k: int|
                    0 <= k < i ==> !(self.departments@[k].university_id == u
                        && self.departments@[k].slug@ == slug@),
            decreases self.departments@.len() - i,
        {
            if self.departments[i].university_id == u && self.departments[i].slug == *slug {
                return true;
            }
            i = i + 1;
        }
        false
    }

    /// Adds a department to university `university_id` under a fresh id.
    /// Refused with `UniversityNotFound` where that university does not
    /// exist, with `AlreadyExists` where one of its departments already uses
    /// `slug`, and with `IdSpaceExhausted` where the ids are used up. Nothing
    /// changes on an error.
    pub fn add_department(&mut self, university_id: u32, slug: &str, name: &str) -> (r: Result<
        u32,
        RegistryError,
    >)
        requires
            old(self).wf(),
        ensures
            final(self).wf(),
            !old(self).has_university(university_id) ==> r == Err::<u32, RegistryError>(
                RegistryError::UniversityNotFound,
            ),
            old(self).has_university(university_id) && old(self).department_slug_taken(
                university_id,
                slug@,
            ) ==> r == Err::<u32, RegistryError>(RegistryError::AlreadyExists),
            old(self).has_university(university_id) && !old(self).department_slug_taken(
                university_id,
                slug@,
            ) && old(self).exhausted() ==> r == Err::<u32, RegistryError>(
                RegistryError::IdSpaceExhausted,
            ),
            old(self).has_university(university_id) && !old(self).department_slug_taken(
                university_id,
                slug@,
            ) && !old(self).exhausted() ==> r is Ok,
            r is Err ==> *final(self) == *old(self),
            r matches Ok(id) ==> {
                &&& forall|u: u32| !old(self).has_department(u, id)
                &&& final(self).has_department(university_id, id)
                &&& final(self).department_name(university_id, id) == name@
                &&& final(self).department_slug_taken(university_id, slug@)
                &&& final(self).ids_left() + 1 == old(self).ids_left()
                &&& forall|u: u32, d: u32|
                    d != id ==> final(self).has_department(u, d) == old(self).has_department(u, d)
                &&& forall|u: u32, d: u32|
                    d != id && old(self).has_department(u, d) ==> final(self).department_name(u, d)
                        == old(self).department_name(u, d)
                &&& forall|u: u32, s: Seq<char>|
                    !(u == university_id && s == slug@) ==> final(self).department_slug_taken(u, s)
                        == old(self).department_slug_taken(u, s)
                &&& final(self).same_universities(*old(self))
                &&& final(self).same_subscriptions(*old(self))
            },
    {
        if self.university_position(university_id).is_none() {
            return Err(RegistryError::UniversityNotFound);
        }
        let slug_s = slug.to_owned();
        if self.find_department_slug(university_id, &slug_s) {
            return Err(RegistryError::AlreadyExists);
        }
        if self.next_id == u32::MAX {
            return Err(RegistryError::IdSpaceExhausted);
        }
        let id = self.next_id;
        let ghost prev = *self;
        self.departments.push(Department { university_id, id, slug: slug_s, name: name.to_owned() });
        self.next_id = id + 1;
        proof {
            let n = prev.departments@.len() as int;
            assert(self.departments@[n].id == id);
            assert(self.subscriptions == prev.subscriptions);
            assert(self.universities == prev.universities);
            assert forall|u: u32, d: u32| #[trigger] self.has_department(u, d) == (prev.has_department(u, d) || (u == university_id && d == id)) by {
                if prev.has_department(u, d) {
                    let k = choose|k: int| 0 <= k < prev.departments@.len() && prev.departments@[k].university_id == u && prev.departments@[k].id == d;
                    assert(self.departments@[k] == prev.departments@[k]);
                }
                if self.has_department(u, d) && !(u == university_id && d == id) {
                    let k = choose|k: int| 0 <= k < self.departments@.len() && self.departments@[k].university_id == u && self.departments@[k].id == d;
                    assert(k < n);
                    assert(prev.departments@[k] == self.departments@[k]);
                }
            }
            assert forall|u: u32| !prev.has_department(u, id) by {
                if prev.has_department(u, id) {
                    let k = choose|k: int| 0 <= k < prev.departments@.len() && prev.departments@[k].university_id == u && prev.departments@[k].id == id;
                    assert(prev.departments@[k].id < prev.next_id);
                }
            }
            assert forall|u: u32, s: Seq<char>| #[trigger] self.department_slug_taken(u, s) == (prev.department_slug_taken(u, s) || (u == university_id && s == slug@)) by {
                if prev.department_slug_taken(u, s) {
                    let k = choose|k: int| 0 <= k < prev.departments@.len() && prev.departments@[k].university_id == u && prev.departments@[k].slug@ == s;
                    assert(self.departments@[k] == prev.departments@[k]);
                }
                if self.department_slug_taken(u, s) && !(u == university_id && s == slug@) {
                    let k = choose|k: int| 0 <= k < self.departments@.len() && self.departments@[k].university_id == u && self.departments@[k].slug@ == s;
                    assert(k < n);
                    assert(prev.departments@[k] == self.departments@[k]);
                }
            }
            assert forall|i: int, j: int| 0 <= i < j < self.departments@.len() implies
                self.departments@[i].id != self.departments@[j].id && (self.departments@[i].university_id
                == self.departments@[j].university_id ==> self.departments@[i].slug@
                != self.departments@[j].slug@) by {
                if j == n {
                    assert(prev.departments@[i] == self.departments@[i]);
                    assert(prev.departments@[i].id < prev.next_id);
                    if self.departments@[i].university_id == university_id {
                        assert(prev.department_slug_taken(university_id, self.departments@[i].slug@));
                    }
                }
            }
            assert forall|i: int| 0 <= i < self.departments@.len() implies
                self.has_university(#[trigger] self.departments@[i].university_id) by {
                if i < n {
                    assert(prev.departments@[i] == self.departments@[i]);
                }
            }
            assert forall|i: int| 0 <= i < self.departments@.len() implies #[trigger] self.departments@[i].id < self.next_id by {
                if i < n {
                    assert(prev.departments@[i] == self.departments@[i]);
                }
            }
            assert forall|i: int| 0 <= i < self.subscriptions@.len() implies self.has_department(
                #[trigger] self.subscriptions@[i].university_id,
                self.subscriptions@[i].department_id,
            ) by {
                assert(prev.has_department(prev.subscriptions@[i].university_id, prev.subscriptions@[i].department_id));
            }
            assert(self.wf());
            self.lemma_department_name_at(n);
            assert forall|u: u32, d: u32| d != id && prev.has_department(u, d) implies
                #[trigger] self.department_name(u, d) == prev.department_name(u, d) by {
                let k = choose|k: int| 0 <= k < prev.departments@.len() && prev.departments@[k].university_id == u && prev.departments@[k].id == d;
                prev.lemma_department_name_at(k);
                assert(self.departments@[k] == prev.departments@[k]);
                self.lemma_department_name_at(k);
            }
            assert(self.same_universities(prev));
            assert(self.same_subscriptions(prev));
        }
        Ok(id)
    }

    /// Drops every subscription record that `hit` selects and keeps the rest.
    fn drop_subscriptions(&mut self, hit: SubscriptionFilter)
        requires
            old(self).wf(),
        ensures
            final(self).wf(),
            final(self).same_universities(*old(self)),
            final(self).same_departments(*old(self)),
            final(self).universities == old(self).universities,
            final(self).departments == old(self).departments,
            final(self).next_id == old(self).next_id,
            forall|user: Seq<char>, u: u32, d: u32|
                #[trigger] final(self).subscribed(user, u, d) == (old(self).subscribed(user, u, d)
                    && !hit.selects(user, u, d)),
    {
        let ghost prev = *self;
        let mut kept: Vec<Subscription> = Vec::new();
        let ghost mut src: Seq<int> = Seq::empty();
        let mut i: usize = 0;
        while i < self.subscriptions.len()
            invariant
                *self == prev,
                i <= prev.subscriptions@.len(),
                src.len() == kept@.len(),
                forall|k: int|
                    0 <= k < kept@.len() ==> 0 <= #[trigger] src[k] < i && kept@[k]
                        == prev.subscriptions@[src[k]],
                forall|k1: int, k2: int| 0 <= k1 < k2 < kept@.len() ==> src[k1] < src[k2],
                forall|k: int|
                    0 <= k < kept@.len() ==> !hit.selects(
                        #[trigger] kept@[k].open_id@,
                        kept@[k].university_id,
                        kept@[k].department_id,
                    ),
                forall|j: int|
                    0 <= j < i && !hit.selects(
                        prev.subscriptions@[j].open_id@,
                        prev.subscriptions@[j].university_id,
                        prev.subscriptions@[j].department_id,
                    ) ==> exists|k: int| 0 <= k < kept@.len() && #[trigger] src[k] == j,
            decreases prev.subscriptions@.len() - i,
        {
            let s = &self.subscriptions[i];
            if !hit.selects_exec(&s.open_id, s.university_id, s.department_id) {
                let ghost old_src = src;
                let ghost old_len = kept@.len();
                kept.push(
                    Subscription {
                        open_id: s.open_id.clone(),
                        university_id: s.university_id,
                        department_id: s.department_id,
                    },
                );
                proof {
                    src = src.push(i as int);
                    assert forall|j: int|
                        0 <= j < i + 1 && !hit.selects(
                            prev.subscriptions@[j].open_id@,
                            prev.subscriptions@[j].university_id,
                            prev.subscriptions@[j].department_id,
                        ) implies exists|k: int| 0 <= k < kept@.len() && #[trigger] src[k] == j by {
                        if j < i {
                            let k = choose|k: int| 0 <= k < old_len && #[trigger] old_src[k] == j;
                            assert(src[k] == j);
                        } else {
                            assert(src[old_len as int] == j);
                        }
                    }
                }
            }
            i = i + 1;
        }
        self.subscriptions = kept;
        proof {
            assert(self.universities == prev.universities);
            assert(self.departments == prev.departments);
            assert forall|user: Seq<char>, u: u32, d: u32|
                #[trigger] self.subscribed(user, u, d) == (prev.subscribed(user, u, d)
                    && !hit.selects(user, u, d)) by {
                if self.subscribed(user, u, d) {
                    let k = choose|k: int|
                        0 <= k < self.subscriptions@.len() && self.subscriptions@[k].open_id@ == user
                            && self.subscriptions@[k].university_id == u
                            && self.subscriptions@[k].department_id == d;
                    assert(prev.subscriptions@[src[k]] == self.subscriptions@[k]);
                }
                if prev.subscribed(user, u, d) && !hit.selects(user, u, d) {
                    let j = choose|j: int|
                        0 <= j < prev.subscriptions@.len() && prev.subscriptions@[j].open_id@ == user
                            && prev.subscriptions@[j].university_id == u
                            && prev.subscriptions@[j].department_id == d;
                    let k = choose|k: int| 0 <= k < self.subscriptions@.len() && #[trigger] src[k] == j;
                    assert(self.subscriptions@[k] == prev.subscriptions@[j]);
                }
            }
            assert forall|k: int| 0 <= k < self.subscriptions@.len() implies self.has_department(
                #[trigger] self.subscriptions@[k].university_id,
                self.subscriptions@[k].department_id,
            ) by {
                let j = src[k];
                assert(prev.subscriptions@[j] == self.subscriptions@[k]);
                assert(prev.has_department(prev.subscriptions@[j].university_id, prev.subscriptions@[j].department_id));
            }
            assert forall|k1: int, k2: int| 0 <= k1 < k2 < self.subscriptions@.len() implies
                !(self.subscriptions@[k1].open_id@ == self.subscriptions@[k2].open_id@
                && self.subscriptions@[k1].university_id == self.subscriptions@[k2].university_id
                && self.subscriptions@[k1].department_id == self.subscriptions@[k2].department_id) by {
                assert(prev.subscriptions@[src[k1]] == self.subscriptions@[k1]);
                assert(prev.subscriptions@[src[k2]] == self.subscriptions@[k2]);
            }
            assert(self.wf());
        }
    }

    /// Records that `user` subscribes to department `d` of university `u`;
    /// an existing record is left as it is.
    fn add_subscription(&mut self, user: &String, u: u32, d: u32)
        requires
            old(self).wf(),
            old(self).has_department(u, d),
        ensures
            final(self).wf(),
            final(self).same_universities(*old(self)),
            final(self).same_departments(*old(self)),
            final(self).universities == old(self).universities,
            final(self).departments == old(self).departments,
            final(self).next_id == old(self).next_id,
            forall|x: Seq<char>, uu: u32, dd: u32|
                #[trigger] final(self).subscribed(x, uu, dd) == (old(self).subscribed(x, uu, dd)
                    || (x == user@ && uu == u && dd == d)),
    {
        let mut i: usize = 0;
        while i < self.subscriptions.len()
            invariant
                self.wf(),
                i <= self.subscriptions@.len(),
                forall|k: int|
                    0 <= k < i ==> !(self.subscriptions@[k].open_id@ == user@
                        && self.subscriptions@[k].university_id == u
                        && self.subscriptions@[k].department_id == d),
            decreases self.subscriptions@.len() - i,
        {
            let s = &self.subscriptions[i];
            if s.university_id == u && s.department_id == d && s.open_id == *user {
                return;
            }
            i = i + 1;
        }
        let ghost prev = *self;
        self.subscriptions.push(Subscription { open_id: user.clone(), university_id: u, department_id: d });
        proof {
            let n = prev.subscriptions@.len() as int;
            assert(self.universities == prev.universities);
            assert(self.departments == prev.departments);
            assert forall|x: Seq<char>, uu: u32, dd: u32|
                #[trigger] self.subscribed(x, uu, dd) == (prev.subscribed(x, uu, dd)
                    || (x == user@ && uu == u && dd == d)) by {
                if prev.subscribed(x, uu, dd) {
                    let k = choose|k: int|
                        0 <= k < prev.subscriptions@.len() && prev.subscriptions@[k].open_id@ == x
                            && prev.subscriptions@[k].university_id == uu
                            && prev.subscriptions@[k].department_id == dd;
                    assert(self.subscriptions@[k] == prev.subscriptions@[k]);
                }
                if x == user@ && uu == u && dd == d {
                    assert(self.subscriptions@[n].open_id@ == x);
                }
                if self.subscribed(x, uu, dd) && !(x == user@ && uu == u && dd == d) {
                    let k = choose|k: int|
                        0 <= k < self.subscriptions@.len() && self.subscriptions@[k].open_id@ == x
                            && self.subscriptions@[k].university_id == uu
                            && self.subscriptions@[k].department_id == dd;
                    assert(k < n);
                    assert(self.subscriptions@[k] == prev.subscriptions@[k]);
                }
            }
            assert forall|k: int| 0 <= k < self.subscriptions@.len() implies self.has_department(
                #[trigger] self.subscriptions@[k].university_id,
                self.subscriptions@[k].department_id,
            ) by {
                if k < n {
                    assert(self.subscriptions@[k] == prev.subscriptions@[k]);
                }
            }
            assert forall|k1: int, k2: int| 0 <= k1 < k2 < self.subscriptions@.len() implies
                !(self.subscriptions@[k1].open_id@ == self.subscriptions@[k2].open_id@
                && self.subscriptions@[k1].university_id == self.subscriptions@[k2].university_id
                && self.subscriptions@[k1].department_id == self.subscriptions@[k2].department_id) by {
                assert(self.subscriptions@[k1] == prev.subscriptions@[k1]);
                if k2 < n {
                    assert(self.subscriptions@[k2] == prev.subscriptions@[k2]);
                }
            }
            assert(self.wf());
        }
    }

    /// Why the registry refuses the batch entry `e`, if it does.
    pub open spec fn entry_fault(self, e: SubscribeDetail) -> Option<RegistryError> {
        if !self.has_university(e.school_code) {
            Some(RegistryError::UniversityNotFound)
        } else if !self.has_department(e.school_code, e.department_code) {
            Some(RegistryError::DepartmentNotFound)
        } else if e.oper != OPER_SUBSCRIBE && e.oper != OPER_UNSUBSCRIBE {
            Some(RegistryError::InvalidOperation)
        } else {
            None
        }
    }

    /// The refusal of the first refused entry of `ops` at position `i` or
    /// later, if there is one.
    pub open spec fn batch_fault_from(self, ops: Seq<SubscribeDetail>, i: int) -> Option<
        RegistryError,
    >
        decreases ops.len() - i,
    {
        if i < 0 || i >= ops.len() {
            None
        } else {
            match self.entry_fault(ops[i]) {
                Some(e) => Some(e),
                None => self.batch_fault_from(ops, i + 1),
            }
        }
    }

    proof fn lemma_no_fault_from(self, ops: Seq<SubscribeDetail>, i: int)
        requires
            0 <= i,
            self.batch_fault_from(ops, i) is None,
        ensures
            forall|j: int| i <= j < ops.len() ==> self.entry_fault(#[trigger] ops[j]) is None,
        decreases ops.len() - i,
    {
        if i < ops.len() {
            self.lemma_no_fault_from(ops, i + 1);
        }
    }

    fn check_entry(&self, e: &SubscribeDetail) -> (r: Option<RegistryError>)
        ensures
            r == self.entry_fault(*e),
    {
        if self.university_position(e.school_code).is_none() {
            Some(RegistryError::UniversityNotFound)
        } else if self.department_position(e.school_code, e.department_code).is_none() {
            Some(RegistryError::DepartmentNotFound)
        } else if e.oper != OPER_SUBSCRIBE && e.oper != OPER_UNSUBSCRIBE {
            Some(RegistryError::InvalidOperation)
        } else {
            None
        }
    }

    /// Applies a batch of subscribe and unsubscribe entries for user
    /// `open_id`, in order, as one unit: where any entry names a missing
    /// university or department or an unknown operation, the first such
    /// entry's refusal is returned and nothing changes. Subscribing twice and
    /// unsubscribing what is not subscribed are no-ops. The department's
    /// subscriber set and the user's subscription index change together.
    pub fn subscribe_user(&mut self, open_id: &String, details: &Vec<SubscribeDetail>) -> (r: Result<
        (),
        RegistryError,
    >)
        requires
            old(self).wf(),
        ensures
            final(self).wf(),
            final(self).ids_left() == old(self).ids_left(),
            r == match old(self).batch_fault_from(details@, 0) {
                Some(e) => Err::<(), RegistryError>(e),
                None => Ok(()),
            },
            r is Err ==> *final(self) == *old(self),
            r is Ok ==> {
                &&& final(self).same_universities(*old(self))
                &&& final(self).same_departments(*old(self))
                &&& forall|x: Seq<char>, u: u32, d: u32|
                    #[trigger] final(self).subscribed(x, u, d) == if x == open_id@ {
                        batch_outcome(details@, u, d, old(self).subscribed(x, u, d))
                    } else {
                        old(self).subscribed(x, u, d)
                    }
            },
    {
        let mut i: usize = 0;
        while i < details.len()
            invariant
                self.wf(),
                i <= details@.len(),
                self.batch_fault_from(details@, 0) == self.batch_fault_from(details@, i as int),
            decreases details@.len() - i,
        {
            match self.check_entry(&details[i]) {
                Some(e) => {
                    return Err(e);
                },
                None => {},
            }
            i = i + 1;
        }
        let ghost prev = *self;
        proof {
            prev.lemma_no_fault_from(details@, 0);
        }
        let mut i: usize = 0;
        while i < details.len()
            invariant
                i <= details@.len(),
                self.wf(),
                self.universities == prev.universities,
                self.departments == prev.departments,
                self.next_id == prev.next_id,
                forall|j: int| 0 <= j < details@.len() ==> prev.entry_fault(#[trigger] details@[j]) is None,
                forall|x: Seq<char>, u: u32, d: u32|
                    #[trigger] self.subscribed(x, u, d) == if x == open_id@ {
                        batch_outcome(details@.take(i as int), u, d, prev.subscribed(x, u, d))
                    } else {
                        prev.subscribed(x, u, d)
                    },
            decreases details@.len() - i,
        {
            let e = &details[i];
            assert(prev.entry_fault(details@[i as int]) is None);
            let ghost before = *self;
            if e.oper == OPER_SUBSCRIBE {
                self.add_subscription(open_id, e.school_code, e.department_code);
            } else {
                self.drop_subscriptions(
                    SubscriptionFilter {
                        user: Some(open_id.clone()),
                        university_id: e.school_code,
                        department_id: Some(e.department_code),
                    },
                );
            }
            proof {
                let t = details@.take(i as int + 1);
                assert(t.drop_last() =~= details@.take(i as int));
                assert(t.last() == details@[i as int]);
                assert forall|x: Seq<char>, u: u32, d: u32|
                    #[trigger] self.subscribed(x, u, d) == if x == open_id@ {
                        batch_outcome(t, u, d, prev.subscribed(x, u, d))
                    } else {
                        prev.subscribed(x, u, d)
                    } by {
                    assert(before.subscribed(x, u, d) == if x == open_id@ {
                        batch_outcome(details@.take(i as int), u, d, prev.subscribed(x, u, d))
                    } else {
                        prev.subscribed(x, u, d)
                    });
                }
            }
            i = i + 1;
        }
        proof {
            assert(details@.take(details@.len() as int) =~= details@);
        }
        Ok(())
    }

    /// The subscriber set of department `d` of university `u`, each user
    /// once. Refused with `UniversityNotFound` or `DepartmentNotFound` where
    /// the department does not exist.
    pub fn get_users(&self, u: u32, d: u32) -> (r: Result<Vec<String>, RegistryError>)
        requires
            self.wf(),
        ensures
            !self.has_university(u) ==> r == Err::<Vec<String>, RegistryError>(
                RegistryError::UniversityNotFound,
            ),
            self.has_university(u) && !self.has_department(u, d) ==> r == Err::<
                Vec<String>,
                RegistryError,
            >(RegistryError::DepartmentNotFound),
            self.has_department(u, d) ==> r is Ok,
            r matches Ok(v) ==> self.lists_subscribers(v@, u, d),
    {
        if self.university_position(u).is_none() {
            return Err(RegistryError::UniversityNotFound);
        }
        if self.department_position(u, d).is_none() {
            return Err(RegistryError::DepartmentNotFound);
        }
        let mut out: Vec<String> = Vec::new();
        let ghost mut src: Seq<int> = Seq::empty();
        let mut i: usize = 0;
        while i < self.subscriptions.len()
            invariant
                self.wf(),
                i <= self.subscriptions@.len(),
                src.len() == out@.len(),
                forall|k: int|
                    0 <= k < out@.len() ==> 0 <= #[trigger] src[k] < i && out@[k]@
                        == self.subscriptions@[src[k]].open_id@ && self.subscriptions@[src[k]].university_id == u
                        && self.subscriptions@[src[k]].department_id == d,
                forall|k1: int, k2: int| 0 <= k1 < k2 < out@.len() ==> src[k1] < src[k2],
                forall|j: int|
                    0 <= j < i && self.subscriptions@[j].university_id == u
                        && self.subscriptions@[j].department_id == d ==> exists|k: int|
                        0 <= k < out@.len() && #[trigger] src[k] == j,
            decreases self.subscriptions@.len() - i,
        {
            let s = &self.subscriptions[i];
            if s.university_id == u && s.department_id == d {
                let ghost old_src = src;
                let ghost old_len = out@.len();
                out.push(s.open_id.clone());
                proof {
                    src = src.push(i as int);
                    assert forall|j: int|
                        0 <= j < i + 1 && self.subscriptions@[j].university_id == u
                            && self.subscriptions@[j].department_id == d implies exists|k: int|
                        0 <= k < out@.len() && #[trigger] src[k] == j by {
                        if j < i {
                            let k = choose|k: int| 0 <= k < old_len && #[trigger] old_src[k] == j;
                            assert(src[k] == j);
                        } else {
                            assert(src[old_len as int] == j);
                        }
                    }
                }
            }
            i = i + 1;
        }
        proof {
            assert forall|k: int| 0 <= k < out@.len() implies self.subscribed(#[trigger] out@[k]@, u, d) by {
                let j = src[k];
                assert(self.subscriptions@[j].open_id@ == out@[k]@);
            }
            assert forall|x: Seq<char>| self.subscribed(x, u, d) implies exists|k: int|
                0 <= k < out@.len() && #[trigger] out@[k]@ == x by {
                let j = choose|j: int|
                    0 <= j < self.subscriptions@.len() && self.subscriptions@[j].open_id@ == x
                        && self.subscriptions@[j].university_id == u
                        && self.subscriptions@[j].department_id == d;
                let k = choose|k: int| 0 <= k < out@.len() && #[trigger] src[k] == j;
                assert(out@[k]@ == x);
            }
            assert forall|k1: int, k2: int| 0 <= k1 < k2 < out@.len() implies out@[k1]@ != out@[k2]@ by {
                assert(src[k1] < src[k2]);
            }
            assert(self.lists_subscribers(out@, u, d));
        }
        Ok(out)
    }

    /// The subscription index of user `open_id`: each (university,
    /// department) pair it subscribes to, once.
    pub fn wechat_get_subscribe(&self, open_id: &String) -> (r: Vec<(u32, u32)>)
        requires
            self.wf(),
        ensures
            forall|k: int| 0 <= k < r@.len() ==> self.subscribed(open_id@, #[trigger] r@[k].0, r@[k].1),
            forall|u: u32, d: u32|
                self.subscribed(open_id@, u, d) ==> exists|k: int| 0 <= k < r@.len() && #[trigger] r@[k] == (u, d),
            forall|k1: int, k2: int| 0 <= k1 < k2 < r@.len() ==> r@[k1] != r@[k2],
    {
        let mut out: Vec<(u32, u32)> = Vec::new();
        let ghost mut src: Seq<int> = Seq::empty();
        let mut i: usize = 0;
        while i < self.subscriptions.len()
            invariant
                self.wf(),
                i <= self.subscriptions@.len(),
                src.len() == out@.len(),
                forall|k: int|
                    0 <= k < out@.len() ==> 0 <= #[trigger] src[k] < i && out@[k] == (
                        self.subscriptions@[src[k]].university_id,
                        self.subscriptions@[src[k]].department_id,
                    ) && self.subscriptions@[src[k]].open_id@ == open_id@,
                forall|k1: int, k2: int| 0 <= k1 < k2 < out@.len() ==> src[k1] < src[k2],
                forall|j: int|
                    0 <= j < i && self.subscriptions@[j].open_id@ == open_id@ ==> exists|k: int|
                        0 <= k < out@.len() && #[trigger] src[k] == j,
            decreases self.subscriptions@.len() - i,
        {
            let s = &self.subscriptions[i];
            if s.open_id == *open_id {
                let ghost old_src = src;
                let ghost old_len = out@.len();
                out.push((s.university_id, s.department_id));
                proof {
                    src = src.push(i as int);
                    assert forall|j: int|
                        0 <= j < i + 1 && self.subscriptions@[j].open_id@ == open_id@ implies exists|k: int|
                        0 <= k < out@.len() && #[trigger] src[k] == j by {
                        if j < i {
                            let k = choose|k: int| 0 <= k < old_len && #[trigger] old_src[k] == j;
                            assert(src[k] == j);
                        } else {
                            assert(src[old_len as int] == j);
                        }
                    }
                }
            }
            i = i + 1;
        }
        proof {
            assert forall|k: int| 0 <= k < out@.len() implies self.subscribed(open_id@, #[trigger] out@[k].0, out@[k].1) by {
                let j = src[k];
                assert(self.subscriptions@[j].open_id@ == open_id@);
            }
            assert forall|u: u32, d: u32| self.subscribed(open_id@, u, d) implies exists|k: int|
                0 <= k < out@.len() && #[trigger] out@[k] == (u, d) by {
                let j = choose|j: int|
                    0 <= j < self.subscriptions@.len() && self.subscriptions@[j].open_id@ == open_id@
                        && self.subscriptions@[j].university_id == u
                        && self.subscriptions@[j].department_id == d;
                let k = choose|k: int| 0 <= k < out@.len() && #[trigger] src[k] == j;
                assert(out@[k] == (u, d));
            }
            assert forall|k1: int, k2: int| 0 <= k1 < k2 < out@.len() implies out@[k1] != out@[k2] by {
                assert(src[k1] < src[k2]);
            }
        }
        out
    }

    /// Every university as (id, display name), each once.
    pub fn wechat_get_university(&self) -> (r: Vec<(u32, String)>)
        requires
            self.wf(),
        ensures
            forall|k: int|
                0 <= k < r@.len() ==> self.has_university(#[trigger] r@[k].0) && r@[k].1@
                    == self.university_name(r@[k].0),
            forall|u: u32| self.has_university(u) ==> exists|k: int| 0 <= k < r@.len() && #[trigger] r@[k].0 == u,
            forall|k1: int, k2: int| 0 <= k1 < k2 < r@.len() ==> r@[k1].0 != r@[k2].0,
    {
        let mut out: Vec<(u32, String)> = Vec::new();
        let mut i: usize = 0;
        while i < self.universities.len()
            invariant
                self.wf(),
                i <= self.universities@.len(),
                out@.len() == i,
                forall|k: int|
                    0 <= k < i ==> (#[trigger] out@[k]).0 == self.universities@[k].id && out@[k].1@
                        == self.universities@[k].name@,
            decreases self.universities@.len() - i,
        {
            let e = &self.universities[i];
            out.push((e.id, e.name.clone()));
            i = i + 1;
        }
        proof {
            assert forall|k: int| 0 <= k < out@.len() implies self.has_university(#[trigger] out@[k].0)
                && out@[k].1@ == self.university_name(out@[k].0) by {
                self.lemma_university_name_at(k);
            }
            assert forall|u: u32| self.has_university(u) implies exists|k: int|
                0 <= k < out@.len() && #[trigger] out@[k].0 == u by {
                let j = choose|j: int| 0 <= j < self.universities@.len() && self.universities@[j].id == u;
                assert(out@[j].0 == u);
            }
        }
        out
    }

    /// Every department of university `university_id` as (id, display
    /// name), each once. Refused with `UniversityNotFound` where that
    /// university does not exist.
    pub fn wechat_get_department(&self, university_id: u32) -> (r: Result<Vec<(u32, String)>, RegistryError>)
        requires
            self.wf(),
        ensures
            !self.has_university(university_id) ==> r == Err::<Vec<(u32, String)>, RegistryError>(
                RegistryError::UniversityNotFound,
            ),
            self.has_university(university_id) ==> r is Ok,
            r matches Ok(v) ==> self.lists_departments(v@, university_id),
    {
        if self.university_position(university_id).is_none() {
            return Err(RegistryError::UniversityNotFound);
        }
        let mut out: Vec<(u32, String)> = Vec::new();
        let ghost mut src: Seq<int> = Seq::empty();
        let mut i: usize = 0;
        while i < self.departments.len()
            invariant
                self.wf(),
                i <= self.departments@.len(),
                src.len() == out@.len(),
                forall|k: int|
                    0 <= k < out@.len() ==> 0 <= #[trigger] src[k] < i && out@[k].0
                        == self.departments@[src[k]].id && out@[k].1@ == self.departments@[src[k]].name@
                        && self.departments@[src[k]].university_id == university_id,
                forall|k1: int, k2: int| 0 <= k1 < k2 < out@.len() ==> src[k1] < src[k2],
                forall|j: int|
                    0 <= j < i && self.departments@[j].university_id == university_id ==> exists|k: int|
                        0 <= k < out@.len() && #[trigger] src[k] == j,
            decreases self.departments@.len() - i,
        {
            let e = &self.departments[i];
            if e.university_id == university_id {
                let ghost old_src = src;
                let ghost old_len = out@.len();
                out.push((e.id, e.name.clone()));
                proof {
                    src = src.push(i as int);
                    assert forall|j: int|
                        0 <= j < i + 1 && self.departments@[j].university_id == university_id implies exists|k: int|
                        0 <= k < out@.len() && #[trigger] src[k] == j by {
                        if j < i {
                            let k = choose|k: int| 0 <= k < old_len && #[trigger] old_src[k] == j;
                            assert(src[k] == j);
                        } else {
                            assert(src[old_len as int] == j);
                        }
                    }
                }
            }
            i = i + 1;
        }
        proof {
            assert forall|k: int| 0 <= k < out@.len() implies self.has_department(university_id, #[trigger] out@[k].0)
                && out@[k].1@ == self.department_name(university_id, out@[k].0) by {
                self.lemma_department_name_at(src[k]);
            }
            assert forall|d: u32| self.has_department(university_id, d) implies exists|k: int|
                0 <= k < out@.len() && #[trigger] out@[k].0 == d by {
                let j = choose|j: int|
                    0 <= j < self.departments@.len() && self.departments@[j].university_id == university_id
                        && self.departments@[j].id == d;
                let k = choose|k: int| 0 <= k < out@.len() && #[trigger] src[k] == j;
                assert(out@[k].0 == d);
            }
            assert forall|k1: int, k2: int| 0 <= k1 < k2 < out@.len() implies out@[k1].0 != out@[k2].0 by {
                assert(src[k1] < src[k2]);
            }
            assert(self.lists_departments(out@, university_id));
        }
        Ok(out)
    }

    /// Drops the departments of university `u` (only department `d` where
    /// given), none of which has a subscriber.
    fn drop_departments(&mut self, u: u32, d: Option<u32>)
        requires
            old(self).wf(),
            forall|x: Seq<char>, dd: u32|
                (d matches Some(k) ==> dd == k) ==> !old(self).subscribed(x, u, dd),
        ensures
            final(self).wf(),
            final(self).universities == old(self).universities,
            final(self).subscriptions == old(self).subscriptions,
            final(self).next_id == old(self).next_id,
            forall|uu: u32, dd: u32|
                #[trigger] final(self).has_department(uu, dd) == (old(self).has_department(uu, dd)
                    && !(uu == u && (d matches Some(k) ==> dd == k))),
            forall|uu: u32, dd: u32|
                #[trigger] final(self).has_department(uu, dd) ==> final(self).department_name(uu, dd)
                    == old(self).department_name(uu, dd) && final(self).department_slug(uu, dd)
                    == old(self).department_slug(uu, dd),
            forall|uu: u32, sl: Seq<char>|
                #[trigger] final(self).department_slug_taken(uu, sl) == (exists|dd: u32|
                    final(self).has_department(uu, dd) && old(self).department_slug(uu, dd) == sl),
    {
        let ghost prev = *self;
        let mut kept: Vec<Department> = Vec::new();
        let ghost mut src: Seq<int> = Seq::empty();
        let mut i: usize = 0;
        while i < self.departments.len()
            invariant
                *self == prev,
                i <= prev.departments@.len(),
                src.len() == kept@.len(),
                forall|k: int|
                    0 <= k < kept@.len() ==> 0 <= #[trigger] src[k] < i && kept@[k]
                        == prev.departments@[src[k]],
                forall|k1: int, k2: int| 0 <= k1 < k2 < kept@.len() ==> src[k1] < src[k2],
                forall|k: int|
                    0 <= k < kept@.len() ==> !((#[trigger] kept@[k]).university_id == u && (d matches Some(
                        x,
                    ) ==> kept@[k].id == x)),
                forall|j: int|
                    0 <= j < i && !(prev.departments@[j].university_id == u && (d matches Some(x) ==> prev.departments@[j].id == x))
                        ==> exists|k: int| 0 <= k < kept@.len() && #[trigger] src[k] == j,
            decreases prev.departments@.len() - i,
        {
            let e = &self.departments[i];
            let selected = e.university_id == u && match d {
                Some(x) => e.id == x,
                None => true,
            };
            if !selected {
                let ghost old_src = src;
                let ghost old_len = kept@.len();
                kept.push(
                    Department {
                        university_id: e.university_id,
                        id: e.id,
                        slug: e.slug.clone(),
                        name: e.name.clone(),
                    },
                );
                proof {
                    src = src.push(i as int);
                    assert forall|j: int|
                        0 <= j < i + 1 && !(prev.departments@[j].university_id == u && (d matches Some(x) ==> prev.departments@[j].id == x))
                        implies exists|k: int| 0 <= k < kept@.len() && #[trigger] src[k] == j by {
                        if j < i {
                            let k = choose|k: int| 0 <= k < old_len && #[trigger] old_src[k] == j;
                            assert(src[k] == j);
                        } else {
                            assert(src[old_len as int] == j);
                        }
                    }
                }
            }
            i = i + 1;
        }
        self.departments = kept;
        proof {
            assert(self.universities == prev.universities);
            assert(self.subscriptions == prev.subscriptions);
            assert forall|uu: u32, dd: u32|
                #[trigger] self.has_department(uu, dd) == (prev.has_department(uu, dd)
                    && !(uu == u && (d matches Some(k) ==> dd == k))) by {
                if self.has_department(uu, dd) {
                    let k = choose|k: int|
                        0 <= k < self.departments@.len() && self.departments@[k].university_id == uu
                            && self.departments@[k].id == dd;
                    assert(prev.departments@[src[k]] == self.departments@[k]);
                }
                if prev.has_department(uu, dd) && !(uu == u && (d matches Some(k) ==> dd == k)) {
                    let j = choose|j: int|
                        0 <= j < prev.departments@.len() && prev.departments@[j].university_id == uu
                            && prev.departments@[j].id == dd;
                    let k = choose|k: int| 0 <= k < self.departments@.len() && #[trigger] src[k] == j;
                    assert(self.departments@[k] == prev.departments@[j]);
                }
            }
            assert forall|k1: int, k2: int| 0 <= k1 < k2 < self.departments@.len() implies
                self.departments@[k1].id != self.departments@[k2].id && (self.departments@[k1].university_id
                == self.departments@[k2].university_id ==> self.departments@[k1].slug@
                != self.departments@[k2].slug@) by {
                assert(prev.departments@[src[k1]] == self.departments@[k1]);
                assert(prev.departments@[src[k2]] == self.departments@[k2]);
            }
            assert forall|k: int| 0 <= k < self.departments@.len() implies #[trigger] self.departments@[k].id < self.next_id by {
                assert(prev.departments@[src[k]] == self.departments@[k]);
            }
            assert forall|k: int| 0 <= k < self.departments@.len() implies self.has_university(
                #[trigger] self.departments@[k].university_id,
            ) by {
                assert(prev.departments@[src[k]] == self.departments@[k]);
            }
            assert forall|k: int| 0 <= k < self.subscriptions@.len() implies self.has_department(
                #[trigger] self.subscriptions@[k].university_id,
                self.subscriptions@[k].department_id,
            ) by {
                let s = self.subscriptions@[k];
                assert(prev.has_department(s.university_id, s.department_id));
                assert(prev.subscribed(s.open_id@, s.university_id, s.department_id));
            }
            assert(self.wf());
            assert forall|uu: u32, dd: u32| #[trigger] self.has_department(uu, dd) implies
                self.department_name(uu, dd) == prev.department_name(uu, dd)
                && self.department_slug(uu, dd) == prev.department_slug(uu, dd) by {
                let k = choose|k: int|
                    0 <= k < self.departments@.len() && self.departments@[k].university_id == uu
                        && self.departments@[k].id == dd;
                self.lemma_department_name_at(k);
                prev.lemma_department_name_at(src[k]);
                assert(prev.departments@[src[k]] == self.departments@[k]);
            }
            assert forall|uu: u32, sl: Seq<char>|
                #[trigger] self.department_slug_taken(uu, sl) == (exists|dd: u32|
                    self.has_department(uu, dd) && prev.department_slug(uu, dd) == sl) by {
                if self.department_slug_taken(uu, sl) {
                    let k = choose|k: int|
                        0 <= k < self.departments@.len() && self.departments@[k].university_id == uu
                            && self.departments@[k].slug@ == sl;
                    self.lemma_department_name_at(k);
                    prev.lemma_department_name_at(src[k]);
                    assert(prev.departments@[src[k]] == self.departments@[k]);
                    let dd = self.departments@[k].id;
                    assert(self.has_department(uu, dd) && prev.department_slug(uu, dd) == sl);
                }
                if exists|dd: u32| self.has_department(uu, dd) && prev.department_slug(uu, dd) == sl {
                    let dd = choose|dd: u32| self.has_department(uu, dd) && prev.department_slug(uu, dd) == sl;
                    let k = choose|k: int|
                        0 <= k < self.departments@.len() && self.departments@[k].university_id == uu
                            && self.departments@[k].id == dd;
                    self.lemma_department_name_at(k);
                    prev.lemma_department_name_at(src[k]);
                    assert(prev.departments@[src[k]] == self.departments@[k]);
                }
            }
        }
    }

    proof fn lemma_department_slug_taken(self, u: u32, sl: Seq<char>)
        requires
            self.wf(),
        ensures
            self.department_slug_taken(u, sl) == (exists|d: u32|
                self.has_department(u, d) && self.department_slug(u, d) == sl),
    {
        if self.department_slug_taken(u, sl) {
            let k = choose|k: int|
                0 <= k < self.departments@.len() && self.departments@[k].university_id == u
                    && self.departments@[k].slug@ == sl;
            self.lemma_department_name_at(k);
            let d = self.departments@[k].id;
            assert(self.has_department(u, d) && self.department_slug(u, d) == sl);
        }
        if exists|d: u32| self.has_department(u, d) && self.department_slug(u, d) == sl {
            let d = choose|d: u32| self.has_department(u, d) && self.department_slug(u, d) == sl;
            let k = choose|k: int|
                0 <= k < self.departments@.len() && self.departments@[k].university_id == u
                    && self.departments@[k].id == d;
            self.lemma_department_name_at(k);
        }
    }

    proof fn lemma_department_slug_unique(self, u: u32, d1: u32, d2: u32)
        requires
            self.wf(),
            self.has_department(u, d1),
            self.has_department(u, d2),
            d1 != d2,
        ensures
            self.department_slug(u, d1) != self.department_slug(u, d2),
    {
        let k1 = choose|k: int|
            0 <= k < self.departments@.len() && self.departments@[k].university_id == u
                && self.departments@[k].id == d1;
        let k2 = choose|k: int|
            0 <= k < self.departments@.len() && self.departments@[k].university_id == u
                && self.departments@[k].id == d2;
        self.lemma_department_name_at(k1);
        self.lemma_department_name_at(k2);
        assert(k1 != k2);
    }

    /// Removes department `d` of university `u`: first every subscription to
    /// it, from the department's subscriber set and from each subscriber's
    /// index alike, then the department itself, in one step. Refused with
    /// `UniversityNotFound` or `DepartmentNotFound` where the department does
    /// not exist; nothing changes then.
    pub fn remove_department(&mut self, u: u32, d: u32) -> (r: Result<(), RegistryError>)
        requires
            old(self).wf(),
        ensures
            final(self).wf(),
            final(self).ids_left() == old(self).ids_left(),
            !old(self).has_university(u) ==> r == Err::<(), RegistryError>(
                RegistryError::UniversityNotFound,
            ),
            old(self).has_university(u) && !old(self).has_department(u, d) ==> r == Err::<
                (),
                RegistryError,
            >(RegistryError::DepartmentNotFound),
            old(self).has_department(u, d) ==> r is Ok,
            r is Err ==> *final(self) == *old(self),
            r is Ok ==> {
                &&& !final(self).has_department(u, d)
                &&& forall|uu: u32, dd: u32|
                    !(uu == u && dd == d) ==> final(self).has_department(uu, dd) == old(
                        self,
                    ).has_department(uu, dd)
                &&& forall|uu: u32, dd: u32|
                    final(self).has_department(uu, dd) ==> final(self).department_name(uu, dd)
                        == old(self).department_name(uu, dd)
                &&& forall|uu: u32, sl: Seq<char>|
                    final(self).department_slug_taken(uu, sl) == (old(self).department_slug_taken(
                        uu,
                        sl,
                    ) && !(uu == u && sl == old(self).department_slug(u, d)))
                &&& final(self).same_universities(*old(self))
                &&& forall|x: Seq<char>, uu: u32, dd: u32|
                    final(self).subscribed(x, uu, dd) == (old(self).subscribed(x, uu, dd) && !(uu
                        == u && dd == d))
            },
    {
        if self.university_position(u).is_none() {
            return Err(RegistryError::UniversityNotFound);
        }
        if self.department_position(u, d).is_none() {
            return Err(RegistryError::DepartmentNotFound);
        }
        let ghost prev = *self;
        self.drop_subscriptions(SubscriptionFilter { user: None, university_id: u, department_id: Some(d) });
        let ghost mid = *self;
        self.drop_departments(u, Some(d));
        proof {
            assert forall|x: Seq<char>, uu: u32, dd: u32|
                self.subscribed(x, uu, dd) == (prev.subscribed(x, uu, dd) && !(uu == u && dd == d)) by {
                assert(mid.subscribed(x, uu, dd) == (prev.subscribed(x, uu, dd) && !(uu == u && dd == d)));
            }
            assert(mid.departments == prev.departments);
            assert(mid.universities == prev.universities);
            assert forall|uu: u32, sl: Seq<char>|
                self.department_slug_taken(uu, sl) == (prev.department_slug_taken(uu, sl) && !(uu
                    == u && sl == prev.department_slug(u, d))) by {
                prev.lemma_department_slug_taken(uu, sl);
                if prev.department_slug_taken(uu, sl) && !(uu == u && sl == prev.department_slug(u, d)) {
                    let dd = choose|dd: u32| prev.has_department(uu, dd) && prev.department_slug(uu, dd) == sl;
                    assert(self.has_department(uu, dd));
                }
                if self.department_slug_taken(uu, sl) {
                    let dd = choose|dd: u32| self.has_department(uu, dd) && mid.department_slug(uu, dd) == sl;
                    assert(prev.has_department(uu, dd) && prev.department_slug(uu, dd) == sl);
                    if uu == u {
                        prev.lemma_department_slug_unique(u, d, dd);
                    }
                }
            }
        }
        Ok(())
    }

    /// Removes university `u` with everything under it: every subscription
    /// to one of its departments, then its departments, then the university
    /// itself, in one step. Refused with `UniversityNotFound` where it does
    /// not exist; nothing changes then.
    pub fn remove_university(&mut self, u: u32) -> (r: Result<(), RegistryError>)
        requires
            old(self).wf(),
        ensures
            final(self).wf(),
            final(self).ids_left() == old(self).ids_left(),
            !old(self).has_university(u) ==> r == Err::<(), RegistryError>(
                RegistryError::UniversityNotFound,
            ),
            old(self).has_university(u) ==> r is Ok,
            r is Err ==> *final(self) == *old(self),
            r is Ok ==> {
                &&& !final(self).has_university(u)
                &&& forall|uu: u32| uu != u ==> final(self).has_university(uu) == old(self).has_university(uu)
                &&& forall|uu: u32|
                    final(self).has_university(uu) ==> final(self).university_name(uu) == old(
                        self,
                    ).university_name(uu)
                &&& forall|sl: Seq<char>|
                    final(self).university_slug_taken(sl) == (old(self).university_slug_taken(sl)
                        && sl != old(self).university_slug(u))
                &&& forall|uu: u32, dd: u32|
                    final(self).has_department(uu, dd) == (old(self).has_department(uu, dd) && uu != u)
                &&& forall|uu: u32, dd: u32|
                    final(self).has_department(uu, dd) ==> final(self).department_name(uu, dd)
                        == old(self).department_name(uu, dd)
                &&& forall|uu: u32, sl: Seq<char>|
                    final(self).department_slug_taken(uu, sl) == (old(self).department_slug_taken(
                        uu,
                        sl,
                    ) && uu != u)
                &&& forall|x: Seq<char>, uu: u32, dd: u32|
                    final(self).subscribed(x, uu, dd) == (old(self).subscribed(x, uu, dd) && uu != u)
            },
    {
        let pos = match self.university_position(u) {
            Some(p) => p,
            None => {
                return Err(RegistryError::UniversityNotFound);
            },
        };
        let ghost prev = *self;
        self.drop_subscriptions(SubscriptionFilter { user: None, university_id: u, department_id: None });
        let ghost mid = *self;
        self.drop_departments(u, None);
        let ghost mid2 = *self;
        self.drop_university_at(pos);
        proof {
            assert forall|x: Seq<char>, uu: u32, dd: u32|
                self.subscribed(x, uu, dd) == (prev.subscribed(x, uu, dd) && uu != u) by {
                assert(mid.subscribed(x, uu, dd) == (prev.subscribed(x, uu, dd) && uu != u));
            }
            assert(mid.departments == prev.departments);
            assert(mid.universities == prev.universities);
            assert forall|uu: u32, dd: u32|
                self.has_department(uu, dd) == (prev.has_department(uu, dd) && uu != u) by {
                assert(mid2.has_department(uu, dd) == (prev.has_department(uu, dd) && uu != u));
            }
            assert forall|uu: u32, dd: u32| self.has_department(uu, dd) implies
                self.department_name(uu, dd) == prev.department_name(uu, dd) by {
                assert(mid2.has_department(uu, dd));
            }
            assert forall|uu: u32, sl: Seq<char>|
                self.department_slug_taken(uu, sl) == (prev.department_slug_taken(uu, sl) && uu != u) by {
                prev.lemma_department_slug_taken(uu, sl);
                assert(mid2.department_slug_taken(uu, sl) == (exists|dd: u32|
                    mid2.has_department(uu, dd) && mid.department_slug(uu, dd) == sl));
                if prev.department_slug_taken(uu, sl) && uu != u {
                    let dd = choose|dd: u32| prev.has_department(uu, dd) && prev.department_slug(uu, dd) == sl;
                    assert(mid2.has_department(uu, dd));
                }
                if self.department_slug_taken(uu, sl) {
                    let dd = choose|dd: u32| mid2.has_department(uu, dd) && mid.department_slug(uu, dd) == sl;
                    assert(prev.has_department(uu, dd));
                }
            }
        }
        Ok(())
    }

    /// Drops the university at position `pos`, which no department belongs
    /// to.
    fn drop_university_at(&mut self, pos: usize)
        requires
            old(self).wf(),
            pos < old(self).universities@.len(),
            forall|dd: u32| !old(self).has_department(old(self).universities@[pos as int].id, dd),
        ensures
            final(self).wf(),
            final(self).departments == old(self).departments,
            final(self).subscriptions == old(self).subscriptions,
            final(self).next_id == old(self).next_id,
            forall|uu: u32|
                #[trigger] final(self).has_university(uu) == (old(self).has_university(uu) && uu
                    != old(self).universities@[pos as int].id),
            forall|uu: u32|
                #[trigger] final(self).has_university(uu) ==> final(self).university_name(uu) == old(
                    self,
                ).university_name(uu),
            forall|sl: Seq<char>|
                #[trigger] final(self).university_slug_taken(sl) == (old(self).university_slug_taken(sl)
                    && sl != old(self).university_slug(old(self).universities@[pos as int].id)),
    {
        let ghost prev = *self;
        let ghost u = self.universities@[pos as int].id;
        self.universities.remove(pos);
        proof {
            let p = pos as int;
            assert forall|uu: u32| #[trigger] self.has_university(uu) == (prev.has_university(uu) && uu != u) by {
                if self.has_university(uu) {
                    let k = choose|k: int| 0 <= k < self.universities@.len() && self.universities@[k].id == uu;
                    if k < p {
                        assert(self.universities@[k] == prev.universities@[k]);
                    } else {
                        assert(self.universities@[k] == prev.universities@[k + 1]);
                    }
                }
                if prev.has_university(uu) && uu != u {
                    let k = choose|k: int| 0 <= k < prev.universities@.len() && prev.universities@[k].id == uu;
                    if k < p {
                        assert(self.universities@[k] == prev.universities@[k]);
                    } else {
                        assert(k != p);
                        assert(self.universities@[k - 1] == prev.universities@[k]);
                    }
                }
            }
            assert forall|i: int, j: int|
                0 <= i < j < self.universities@.len() implies self.universities@[i].id
                    != self.universities@[j].id && self.universities@[i].slug@
                    != self.universities@[j].slug@ by {
                let pi = if i < p { i } else { i + 1 };
                let pj = if j < p { j } else { j + 1 };
                assert(self.universities@[i] == prev.universities@[pi]);
                assert(self.universities@[j] == prev.universities@[pj]);
            }
            assert forall|i: int| 0 <= i < self.universities@.len() implies self.universities@[i].id < self.next_id by {
                let pi = if i < p { i } else { i + 1 };
                assert(self.universities@[i] == prev.universities@[pi]);
            }
            assert forall|i: int| 0 <= i < self.departments@.len() implies self.has_university(
                #[trigger] self.departments@[i].university_id,
            ) by {
                let e = self.departments@[i];
                assert(prev.has_department(e.university_id, e.id));
            }
            assert forall|k: int| 0 <= k < self.subscriptions@.len() implies self.has_department(
                #[trigger] self.subscriptions@[k].university_id,
                self.subscriptions@[k].department_id,
            ) by {
                assert(prev.has_department(self.subscriptions@[k].university_id, self.subscriptions@[k].department_id));
            }
            assert(self.wf());
            prev.lemma_university_name_at(p);
            assert forall|uu: u32| #[trigger] self.has_university(uu) implies self.university_name(uu)
                == prev.university_name(uu) by {
                let k = choose|k: int| 0 <= k < self.universities@.len() && self.universities@[k].id == uu;
                let pk = if k < p { k } else { k + 1 };
                assert(self.universities@[k] == prev.universities@[pk]);
                self.lemma_university_name_at(k);
                prev.lemma_university_name_at(pk);
            }
            assert forall|sl: Seq<char>| #[trigger] self.university_slug_taken(sl) == (prev.university_slug_taken(sl)
                && sl != prev.university_slug(u)) by {
                if self.university_slug_taken(sl) {
                    let k = choose|k: int| 0 <= k < self.universities@.len() && self.universities@[k].slug@ == sl;
                    let pk = if k < p { k } else { k + 1 };
                    assert(self.universities@[k] == prev.universities@[pk]);
                }
                if prev.university_slug_taken(sl) && sl != prev.university_slug(u) {
                    let k = choose|k: int| 0 <= k < prev.universities@.len() && prev.universities@[k].slug@ == sl;
                    assert(k != p);
                    let sk = if k < p { k } else { k - 1 };
                    assert(self.universities@[sk] == prev.universities@[k]);
                }
            }
        }
    }

    /// Takes user `open_id` off department `d` of university `u`, from the
    /// subscriber set and the user's index together; a no-op where it is not
    /// subscribed or the department is gone.
    pub fn retire_subscription(&mut self, open_id: &String, u: u32, d: u32)
        requires
            old(self).wf(),
        ensures
            final(self).wf(),
            final(self).ids_left() == old(self).ids_left(),
            final(self).same_universities(*old(self)),
            final(self).same_departments(*old(self)),
            forall|x: Seq<char>, uu: u32, dd: u32|
                #[trigger] final(self).subscribed(x, uu, dd) == (old(self).subscribed(x, uu, dd)
                    && !(x == open_id@ && uu == u && dd == d)),
    {
        self.drop_subscriptions(
            SubscriptionFilter { user: Some(open_id.clone()), university_id: u, department_id: Some(d) },
        );
    }

    fn department_position(&self, u: u32, d: u32) -> (r: Option<usize>)
        ensures
            r matches Some(i) ==> i < self.departments@.len() && self.departments@[i as int].university_id
                == u && self.departments@[i as int].id == d,
            r is None <==> !self.has_department(u, d),
    {
        let mut i: usize = 0;
        while i < self.departments.len()
            invariant
                i <= self.departments@.len(),
                forall|k: int|
                    0 <= k < i ==> !(self.departments@[k].university_id == u
                        && self.departments@[k].id == d),
            decreases self.departments@.len() - i,
        {
            if self.departments[i].university_id == u && self.departments[i].id == d {
                return Some(i);
            }
            i = i + 1;
        }
        None
    }

    /// The display names of university `u` and of its department `d`.
    /// Refused with `UniversityNotFound` or `DepartmentNotFound` where the
    /// department does not exist.
    pub fn names_of(&self, u: u32, d: u32) -> (r: Result<UniversityContext, RegistryError>)
        requires
            self.wf(),
        ensures
            !self.has_university(u) ==> r == Err::<UniversityContext, RegistryError>(
                RegistryError::UniversityNotFound,
            ),
            self.has_university(u) && !self.has_department(u, d) ==> r == Err::<
                UniversityContext,
                RegistryError,
            >(RegistryError::DepartmentNotFound),
            self.has_department(u, d) ==> (r matches Ok(c) && c.university_id == u && c.department_id
                == d && c.university_name@ == self.university_name(u) && c.department_name@
                == self.department_name(u, d)),
    {
        let ui = match self.university_position(u) {
            Some(i) => i,
            None => {
                return Err(RegistryError::UniversityNotFound);
            },
        };
        let di = match self.department_position(u, d) {
            Some(i) => i,
            None => {
                return Err(RegistryError::DepartmentNotFound);
            },
        };
        proof {
            self.lemma_university_name_at(ui as int);
            self.lemma_department_name_at(di as int);
        }
        Ok(
            UniversityContext {
                university_id: u,
                university_name: self.universities[ui].name.clone(),
                department_id: d,
                department_name: self.departments[di].name.clone(),
            },
        )
    }

    /// An empty directory with no subscriptions.
    pub fn new() -> (r: Registry)
        ensures
            r.wf(),
            r.ids_left() == u32::MAX - 1,
            forall|s: Seq<char>| !r.university_slug_taken(s),
            forall|u: u32, s: Seq<char>| !r.department_slug_taken(u, s),
            forall|u: u32| !r.has_university(u),
            forall|u: u32, d: u32| !r.has_department(u, d),
            forall|user: Seq<char>, u: u32, d: u32| !r.subscribed(user, u, d),
    {
        Registry {
            universities: Vec::new(),
            departments: Vec::new(),
            subscriptions: Vec::new(),
            next_id: 1,
        }
    }
}

} // verus!

verus! {

/// Applying the same subscription batch a second time changes nothing: for
/// every department, the outcome after the batch twice equals the outcome
/// after it once. In particular, subscribing a user to a department twice
/// leaves the subscriber set and the subscription index as subscribing once
/// does.
pub proof fn lemma_batch_idempotent(ops: Seq<SubscribeDetail>, u: u32, d: u32, before: bool)
    ensures
        batch_outcome(ops, u, d, batch_outcome(ops, u, d, before)) == batch_outcome(ops, u, d, before),
    decreases ops.len(),
{
    if ops.len() > 0 && !(ops.last().school_code == u && ops.last().department_code == d) {
        lemma_batch_idempotent(ops.drop_last(), u, d, before);
    }
}

/// A department's subscriber set and the users' subscription indexes are
/// transposes of each other, and no index names a department that does not
/// exist. Every operation of the registry keeps this, as each keeps `wf`.
pub proof fn lemma_index_is_transpose(r: Registry, user: Seq<char>, u: u32, d: u32)
    requires
        r.wf(),
    ensures
        r.subscribers(u, d).contains(user) <==> r.subscriptions_of(user).contains((u, d)),
        r.subscriptions_of(user).contains((u, d)) ==> r.has_department(u, d),
{
    if r.subscribed(user, u, d) {
        let i = choose|i: int|
            0 <= i < r.subscriptions@.len() && r.subscriptions@[i].open_id@ == user
                && r.subscriptions@[i].university_id == u && r.subscriptions@[i].department_id == d;
        assert(r.has_department(r.subscriptions@[i].university_id, r.subscriptions@[i].department_id));
    }
}

/// Once a department is gone (after `remove_department` or
/// `remove_university`), no user's subscription index holds it.
pub proof fn lemma_no_dangling_subscription(r: Registry, u: u32, d: u32)
    requires
        r.wf(),
        !r.has_department(u, d),
    ensures
        forall|user: Seq<char>| !r.subscriptions_of(user).contains((u, d)),
        r.subscribers(u, d) =~= Set::<Seq<char>>::empty(),
{
    assert forall|user: Seq<char>| !r.subscriptions_of(user).contains((u, d)) by {
        lemma_index_is_transpose(r, user, u, d);
    }
}

} // verus!
