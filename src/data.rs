use std::collections::HashMap;

use vstd::prelude::*;

use crate::command::Error;
use crate::user::User;

verus! {

broadcast use vstd::std_specs::hash::group_hash_axioms;

/// `n` is the smallest identifier that is not a key of `keys`.
pub open spec fn lowest_free(keys: Set<usize>, n: usize) -> bool {
    &&& !keys.contains(n)
    &&& forall|k: usize| k < n ==> keys.contains(k)
}

/// The identifiers `0, 1, ..., n - 1`.
pub open spec fn ids_below(n: nat) -> Set<usize> {
    Set::new(|k: usize| k < n)
}

/// What a store holds, as mathematics: the identifier the next record will
/// get, and the records by identifier.
pub struct DataView {
    pub next_id: usize,
    pub users: Map<usize, User>,
}

impl DataView {
    /// The cached next identifier is the lowest one not in use.
    pub open spec fn wf(self) -> bool {
        lowest_free(self.users.dom(), self.next_id)
    }

    /// The store that `new` makes.
    pub open spec fn empty() -> DataView {
        DataView { next_id: 0, users: Map::empty() }
    }

    /// `after` is `self` with `user` added under `id`.
    pub open spec fn added(self, user: User, id: usize, after: DataView) -> bool {
        &&& id == self.next_id
        &&& after.users == self.users.insert(id, user)
        &&& after.wf()
    }

    /// `after` is `self` once `id` has been removed, `removed` being what
    /// `remove_user` hands back.
    pub open spec fn removed(self, id: usize, removed: Option<User>, after: DataView) -> bool {
        if self.users.contains_key(id) {
            &&& removed == Some(self.users[id])
            &&& after.users == self.users.remove(id)
            &&& after.wf()
        } else {
            &&& removed is None
            &&& after == self
        }
    }
}

/// A collection of users keyed by a unique numeric identifier.
///
/// The store also caches the identifier that the next added user will get:
/// always the smallest one not in use, so that a freed identifier is reused.
#[derive(Debug)]
pub struct Data {
    /// The next available identifier.
    next_id: usize,
    /// The users by identifier.
    users: HashMap<usize, User>,
}

impl View for Data {
    type V = DataView;

    closed spec fn view(&self) -> DataView {
        DataView { next_id: self.next_id, users: self.users@ }
    }
}

impl Default for Data {
    fn default() -> (r: Data)
        ensures
            r@ == DataView::empty(),
    {
        Data::new()
    }
}

/// A set of identifiers that holds all of `0..n` has at least `n` elements.
proof fn lemma_ids_below_len(keys: Set<usize>, n: nat)
    requires
        keys.finite(),
        n <= usize::MAX + 1,
        forall|k: usize| k < n ==> keys.contains(k),
    ensures
        n <= keys.len(),
{
    lemma_ids_below_size(n);
    vstd::set_lib::lemma_len_subset(ids_below(n), keys);
}

proof fn lemma_ids_below_size(n: nat)
    requires
        n <= usize::MAX + 1,
    ensures
        ids_below(n).finite(),
        ids_below(n).len() == n,
    decreases n,
{
    if n > 0 {
        lemma_ids_below_size((n - 1) as nat);
        assert(ids_below(n) =~= ids_below((n - 1) as nat).insert((n - 1) as usize));
    } else {
        assert(ids_below(0) =~= Set::<usize>::empty());
    }
}

/// A set has at most one lowest free identifier.
pub proof fn lemma_lowest_free_unique(keys: Set<usize>, a: usize, b: usize)
    requires
        lowest_free(keys, a),
        lowest_free(keys, b),
    ensures
        a == b,
{
    if a < b {
        assert(keys.contains(a));
    } else if b < a {
        assert(keys.contains(b));
    }
}

impl Data {
    /// Creates a new, empty store.
    pub fn new() -> (r: Data)
        ensures
            r@ == DataView::empty(),
            r@.wf(),
    {
        Data { next_id: 0, users: HashMap::new() }
    }

    /// Sets `next_id` to the smallest identifier that is not a key of `users`.
    fn calculate_next_id(&mut self)
        ensures
            final(self)@.users == old(self)@.users,
            final(self)@.wf(),
    {
        let len = self.users.len();
        let mut next_id: usize = 0;
        while self.users.contains_key(&next_id)
            invariant
                len == self.users@.len(),
                next_id <= len,
                forall|k: usize| k < next_id ==> self.users@.contains_key(k),
            decreases len - next_id,
        {
            proof {
                lemma_ids_below_len(self.users@.dom(), (next_id + 1) as nat);
            }
            next_id += 1;
        }
        self.next_id = next_id;
    }

    /// Adds `user` under the lowest free identifier and returns that identifier.
    pub fn add_user(&mut self, user: User) -> (r: usize)
        requires
            old(self)@.wf(),
        ensures
            old(self)@.added(user, r, final(self)@),
    {
        let id = self.next_id;
        self.users.insert(id, user);
        self.calculate_next_id();
        id
    }

    /// The user stored under `id`, if any.
    pub fn user(&self, id: usize) -> (r: Option<&User>)
        ensures
            r == (if self@.users.contains_key(id) {
                Some(&self@.users[id])
            } else {
                None::<&User>
            }),
    {
        self.users.get(&id)
    }

    /// Removes the user stored under `id` and returns it. Where `id` is not
    /// in use, the store is left as it was and `None` comes back.
    ///
    /// A removed identifier below the cached next one becomes the next one.
    pub fn remove_user(&mut self, id: usize) -> (r: Option<User>)
        requires
            old(self)@.wf(),
        ensures
            old(self)@.removed(id, r, final(self)@),
            r is Some ==> final(self)@.next_id == if id < old(self)@.next_id {
                id
            } else {
                old(self)@.next_id
            },
    {
        if !self.users.contains_key(&id) {
            return None;
        }
        let user = self.users.remove(&id);
        self.calculate_next_id();
        proof {
            let keys = self@.users.dom();
            if id < old(self)@.next_id {
                lemma_lowest_free_unique(keys, self.next_id, id);
            } else {
                lemma_lowest_free_unique(keys, self.next_id, old(self)@.next_id);
            }
        }
        user
    }

    /// Removes every user. Returns whether there was any to remove.
    pub fn reset(&mut self) -> (r: bool)
        requires
            old(self)@.wf(),
        ensures
            r == !old(self)@.users.is_empty(),
            final(self)@ == DataView::empty(),
            !r ==> final(self)@ == old(self)@,
    {
        if self.users.is_empty() {
            proof {
                assert(self.users@ =~= Map::empty());
                lemma_lowest_free_unique(self@.users.dom(), self.next_id, 0);
            }
            return false;
        }
        self.users.clear();
        self.calculate_next_id();
        proof {
            lemma_lowest_free_unique(self@.users.dom(), self.next_id, 0);
        }
        true
    }

    /// The identifier that the next added user will get.
    pub fn next_id(&self) -> (r: usize)
        ensures
            r == self@.next_id,
    {
        self.next_id
    }

    /// Every stored user with its identifier, in no particular order.
    pub fn users(&self) -> (r: Vec<(usize, &User)>)
        ensures
            r@.len() == self@.users.len(),
            forall|i: int|
                0 <= i < r@.len() ==> self@.users.contains_key(#[trigger] r@[i].0)
                    && self@.users[r@[i].0] == *r@[i].1,
            forall|i: int, j: int|
                0 <= i < r@.len() && 0 <= j < r@.len() && #[trigger] r@[i].0 == #[trigger] r@[j].0
                    ==> i == j,
            forall|k: usize|
                #[trigger] self@.users.contains_key(k) ==> exists|i: int|
                    0 <= i < r@.len() && #[trigger] r@[i].0 == k,
    {
        let mut r: Vec<(usize, &User)> = Vec::new();
        let entries = self.users.iter();
        let ghost s = vstd::std_specs::iter::IteratorSpec::remaining(&entries);
        for pair in it: entries
            invariant
                it.seq() == s,
                r@.len() == it.index(),
                forall|i: int| 0 <= i < it.index() ==> #[trigger] r@[i] == (*s[i].0, s[i].1),
        {
            let (id, user) = pair;
            r.push((*id, user));
        }
        proof {
            assert forall|i: int, j: int|
                0 <= i < r@.len() && 0 <= j < r@.len() && #[trigger] r@[i].0 == #[trigger] r@[j].0
                    implies i == j by {
                assert(r@[i] == (*s[i].0, s[i].1));
                assert(r@[j] == (*s[j].0, s[j].1));
                assert(self@.users.contains_key(*s[i].0));
                assert(self@.users.contains_key(*s[j].0));
                assert(s[i] == s[j]);
            }
            assert forall|k: usize| #[trigger] self@.users.contains_key(k) implies exists|i: int|
                0 <= i < r@.len() && #[trigger] r@[i].0 == k by {
                assert(s.contains((&k, &self@.users[k])));
                let i = choose|i: int| 0 <= i < s.len() && s[i] == (&k, &self@.users[k]);
                assert(r@[i] == (*s[i].0, s[i].1));
            }
        }
        r
    }
}

/// Adding to a store whose identifiers are exactly `0..k` hands out `k`
/// and leaves the identifiers `0..=k`.
pub proof fn lemma_add_to_dense(before: DataView, user: User, id: usize, after: DataView, k: nat)
    requires
        before.wf(),
        before.users.dom() == ids_below(k),
        before.added(user, id, after),
    ensures
        id == k,
        after.users.dom() == ids_below(k + 1),
{
    let n = before.next_id;
    assert(!ids_below(k).contains(n));
    if (n as nat) > k {
        assert(ids_below(k).contains(k as usize));
    }
    assert(after.users.dom() =~= ids_below(k + 1));
}

/// A run of adds, with no removal, starting from the empty store: `views[i]`
/// is the store before the `i`-th add, which adds `users[i]` and returns `ids[i]`.
pub open spec fn adds_from_empty(views: Seq<DataView>, users: Seq<User>, ids: Seq<usize>) -> bool {
    &&& views.len() == users.len() + 1
    &&& ids.len() == users.len()
    &&& views[0] == DataView::empty()
    &&& forall|i: int|
        0 <= i < users.len() ==> #[trigger] views[i].added(users[i], ids[i], views[i + 1])
}

proof fn lemma_adds_from_empty_prefix(
    views: Seq<DataView>,
    users: Seq<User>,
    ids: Seq<usize>,
    n: nat,
)
    requires
        adds_from_empty(views, users, ids),
        n <= users.len(),
    ensures
        views[n as int].wf(),
        views[n as int].users.dom() == ids_below(n),
        forall|i: int| 0 <= i < n ==> ids[i] == i,
    decreases n,
{
    if n == 0 {
        assert(ids_below(0) =~= Set::<usize>::empty());
    } else {
        let m = (n - 1) as nat;
        lemma_adds_from_empty_prefix(views, users, ids, m);
        assert(views[m as int].added(users[m as int], ids[m as int], views[m as int + 1]));
        lemma_add_to_dense(views[m as int], users[m as int], ids[m as int], views[n as int], m);
    }
}

/// Starting from an empty store and never removing, the `k`-th add
/// (counting from zero) returns the identifier `k`.
pub proof fn lemma_ids_count_up(views: Seq<DataView>, users: Seq<User>, ids: Seq<usize>)
    requires
        adds_from_empty(views, users, ids),
    ensures
        forall|k: int| 0 <= k < ids.len() ==> ids[k] == k,
        views.last().users.dom() == ids_below(users.len()),
{
    lemma_adds_from_empty_prefix(views, users, ids, users.len());
}


/// What a saved store reads back as: nothing saved is the empty store; a
/// saved identifier and users make a store only where the identifier is the
/// lowest free one.
pub open spec fn loaded(stored: Option<(usize, HashMap<usize, User>)>) -> Option<DataView> {
    match stored {
        None => Some(DataView::empty()),
        Some(p) => if lowest_free(p.1@.dom(), p.0) {
            Some(DataView { next_id: p.0, users: p.1@ })
        } else {
            None
        },
    }
}

/// `stored` is what `data` saves as.
pub open spec fn saved(data: DataView, stored: (usize, HashMap<usize, User>)) -> bool {
    stored.0 == data.next_id && stored.1@ == data.users
}

/// Rebuilds a store from what was saved: `None` where nothing was (no file,
/// or an empty one), else the next identifier and the users.
///
/// A saved next identifier that is not the lowest free one is refused.
pub fn read_data(stored: Option<(usize, HashMap<usize, User>)>) -> (r: Result<Data, Error>)
    ensures
        r is Ok <==> loaded(stored) is Some,
        r matches Ok(d) ==> Some(d@) == loaded(stored) && d@.wf(),
        r matches Err(e) ==> (e matches Error::InconsistentNextId { stored: s, expected: x }
            && stored matches Some(p) && s == p.0 && lowest_free(p.1@.dom(), x)),
{
    match stored {
        None => Ok(Data::new()),
        Some((next_id, users)) => {
            let mut data = Data { next_id: 0, users };
            data.calculate_next_id();
            if data.next_id == next_id {
                Ok(data)
            } else {
                proof {
                    if lowest_free(data@.users.dom(), next_id) {
                        lemma_lowest_free_unique(data@.users.dom(), next_id, data.next_id);
                    }
                }
                Err(Error::InconsistentNextId { stored: next_id, expected: data.next_id })
            }
        },
    }
}

/// What `data` is saved as: its next identifier and a copy of its users.
pub fn save_data(data: &Data) -> (r: (usize, HashMap<usize, User>))
    ensures
        saved(data@, r),
{
    (data.next_id, data.users.clone())
}

/// Saving a store and reading back what was saved gives the same store: the
/// same users under the same identifiers, and the same next identifier.
pub proof fn lemma_round_trip(data: DataView, stored: (usize, HashMap<usize, User>))
    requires
        data.wf(),
        saved(data, stored),
    ensures
        loaded(Some(stored)) == Some(data),
{
}

} // verus!
