//! A shopping-list store held in memory: each user has a list of their own.

use vstd::prelude::*;
use crate::item::{
    add_to_list, added, remove_from_list, update_in_list, updated, without_id, CreateItem, Item,
    UpdateItem,
};
use crate::text::str_equal;
use crate::user::UserId;

verus! {

/// The last index in `es` whose user is `u`; -1 when there is none.
pub open spec fn find_user(es: Seq<(UserId, Vec<Item>)>, u: Seq<char>) -> int
    decreases es.len(),
{
    if es.len() == 0 {
        -1
    } else if es.last().0@ == u {
        es.len() - 1
    } else {
        find_user(es.drop_last(), u)
    }
}

/// What `find_user` finds.
proof fn lemma_find_user(es: Seq<(UserId, Vec<Item>)>, u: Seq<char>)
    ensures
        -1 <= find_user(es, u) < es.len(),
        find_user(es, u) >= 0 ==> es[find_user(es, u)].0@ == u,
        forall|k: int| find_user(es, u) < k < es.len() ==> #[trigger] es[k].0@ != u,
    decreases es.len(),
{
    if es.len() > 0 {
        lemma_find_user(es.drop_last(), u);
        if es.last().0@ != u {
            assert forall|k: int| find_user(es, u) < k < es.len() implies #[trigger] es[k].0@ != u by {
                if k < es.len() - 1 {
                    assert(es[k] == es.drop_last()[k]);
                }
            }
        }
    }
}

/// `find_user` reads only the users of the entries.
proof fn lemma_find_user_same_keys(
    a: Seq<(UserId, Vec<Item>)>,
    b: Seq<(UserId, Vec<Item>)>,
    u: Seq<char>,
)
    requires
        a.len() == b.len(),
        forall|k: int| 0 <= k < a.len() ==> #[trigger] a[k].0@ == b[k].0@,
    ensures
        find_user(a, u) == find_user(b, u),
    decreases a.len(),
{
    if a.len() > 0 {
        assert forall|k: int| 0 <= k < a.drop_last().len() implies #[trigger] a.drop_last()[k].0@
            == b.drop_last()[k].0@ by {
            assert(a.drop_last()[k] == a[k]);
            assert(b.drop_last()[k] == b[k]);
        }
        lemma_find_user_same_keys(a.drop_last(), b.drop_last(), u);
    }
}

/// A store of shopping lists held in memory, one list per user. The
/// password that comes with a request is not checked here. The lists are
/// kept as (user, list) pairs found by comparing names, so that each lookup
/// is proved; lookups in a `HashMap` with `String` keys would stay unproved.
pub struct InMemoryRepo {
    entries: Vec<(UserId, Vec<Item>)>,
}

impl InMemoryRepo {
    /// The list of user `u`: empty for a user who has never added an item.
    pub closed spec fn items_of(&self, u: Seq<char>) -> Seq<Item> {
        let j = find_user(self.entries@, u);
        if j < 0 {
            Seq::empty()
        } else {
            self.entries@[j].1@
        }
    }

    /// An empty store.
    pub fn new() -> (res: Self)
        ensures
            forall|u: Seq<char>| #[trigger] res.items_of(u) == Seq::<Item>::empty(),
    {
        InMemoryRepo { entries: Vec::new() }
    }

    /// The index of the entry of `user`, if there is one.
    fn find(&self, user: &UserId) -> (res: Option<usize>)
        ensures
            match res {
                Some(j) => j as int == find_user(self.entries@, user@) && j < self.entries@.len()
                    && self.entries@[j as int].0@ == user@,
                None => find_user(self.entries@, user@) == -1,
            },
    {
        proof {
            lemma_find_user(self.entries@, user@);
        }
        let mut i = self.entries.len();
        assert(self.entries@.subrange(0, i as int) =~= self.entries@);
        while i > 0
            invariant
                i <= self.entries@.len(),
                find_user(self.entries@, user@) == find_user(self.entries@.subrange(0, i as int), user@),
            decreases i,
        {
            let ghost pre = self.entries@.subrange(0, i as int);
            assert(pre.drop_last() =~= self.entries@.subrange(0, i - 1));
            assert(pre.last() == self.entries@[i - 1]);
            if str_equal(self.entries[i - 1].0.0.as_str(), user.0.as_str()) {
                return Some(i - 1);
            }
            i = i - 1;
        }
        None
    }

    /// The number of items on the list of `user`.
    pub fn item_count(&self, user: &UserId) -> (res: usize)
        ensures
            res == self.items_of(user@).len(),
    {
        match self.find(user) {
            Some(j) => self.entries[j].1.len(),
            None => 0,
        }
    }

    /// The list of `user`, in the order it is kept.
    pub fn list_items(&self, user: UserId, password: &str) -> (res: Vec<Item>)
        ensures
            res@ == self.items_of(user@),
    {
        match self.find(&user) {
            Some(j) => {
                let list = self.entries[j].1.clone();
                assert(list@ =~= self.entries@[j as int].1@);
                list
            },
            None => Vec::new(),
        }
    }

    /// Replacing the list of entry `j` while keeping its user leaves every
    /// user found where it was.
    proof fn lemma_replace_list(
        old_es: Seq<(UserId, Vec<Item>)>,
        new_es: Seq<(UserId, Vec<Item>)>,
        j: int,
    )
        requires
            0 <= j < old_es.len(),
            new_es == old_es.update(j, (new_es[j].0, new_es[j].1)),
            new_es[j].0@ == old_es[j].0@,
        ensures
            forall|v: Seq<char>| #[trigger] find_user(new_es, v) == find_user(old_es, v),
            forall|v: Seq<char>|
                v != old_es[j].0@ && #[trigger] find_user(old_es, v) >= 0 ==> new_es[find_user(
                    old_es,
                    v,
                )] == old_es[find_user(old_es, v)],
    {
        assert forall|v: Seq<char>|
            v != old_es[j].0@ && #[trigger] find_user(old_es, v) >= 0 implies new_es[find_user(
                old_es,
                v,
            )] == old_es[find_user(old_es, v)] by {
            lemma_find_user(old_es, v);
        }
        assert forall|v: Seq<char>| #[trigger] find_user(new_es, v) == find_user(old_es, v) by {
            assert forall|k: int| 0 <= k < new_es.len() implies #[trigger] new_es[k].0@
                == old_es[k].0@ by {
                if k != j {
                    assert(new_es[k] == old_es[k]);
                }
            }
            lemma_find_user_same_keys(new_es, old_es, v);
        }
    }

    /// After the list of `user` (entry `j`) is taken out and put back
    /// changed, `user` has the new list and every other user keeps theirs.
    proof fn lemma_list_put_back(old_repo: InMemoryRepo, new_repo: InMemoryRepo, j: int, user: Seq<char>)
        requires
            0 <= j < old_repo.entries@.len(),
            j == find_user(old_repo.entries@, user),
            old_repo.entries@[j].0@ == user,
            new_repo.entries@ == old_repo.entries@.remove(j).insert(j, new_repo.entries@[j]),
            new_repo.entries@[j].0 == old_repo.entries@[j].0,
        ensures
            new_repo.items_of(user) == new_repo.entries@[j].1@,
            forall|v: Seq<char>| v != user ==> #[trigger] new_repo.items_of(v) == old_repo.items_of(v),
    {
        let old_es = old_repo.entries@;
        let new_es = new_repo.entries@;
        assert(new_es =~= old_es.update(j, (new_es[j].0, new_es[j].1)));
        Self::lemma_replace_list(old_es, new_es, j);
        assert forall|v: Seq<char>| v != user implies #[trigger] new_repo.items_of(v) == old_repo.items_of(v) by {
            assert(find_user(new_es, v) == find_user(old_es, v));
        }
    }

    /// Appends the item for `item` to the list of `user`, with the next id and
    /// order of that list; the other lists are unchanged.
    pub fn add_item(&mut self, item: CreateItem, user: UserId, password: &str)
        requires
            (old(self).items_of(user@).len() as i32) < i32::MAX,
        ensures
            final(self).items_of(user@) == added(old(self).items_of(user@), item),
            forall|v: Seq<char>|
                v != user@ ==> #[trigger] final(self).items_of(v) == old(self).items_of(v),
    {
        let ghost old_es = self.entries@;
        let ghost old_repo = *self;
        match self.find(&user) {
            Some(j) => {
                let (uid, mut list) = self.entries.remove(j);
                add_to_list(&mut list, item);
                self.entries.insert(j, (uid, list));
                proof {
                    Self::lemma_list_put_back(old_repo, *self, j as int, user@);
                }
            },
            None => {
                let mut list: Vec<Item> = Vec::new();
                add_to_list(&mut list, item);
                self.entries.push((user, list));
                proof {
                    assert forall|v: Seq<char>| v != user@ implies #[trigger] find_user(
                        self.entries@,
                        v,
                    ) == find_user(old_es, v) && (find_user(old_es, v) >= 0 ==> self.entries@[find_user(old_es, v)] == old_es[find_user(old_es, v)]) by {
                        assert(self.entries@.drop_last() =~= old_es);
                        lemma_find_user(old_es, v);
                    }
                    assert(self.entries@.drop_last() =~= old_es);
                }
            },
        }
    }

    /// Takes the items with id `item_id` off the list of `user`, whatever the
    /// quantity; the other lists are unchanged.
    pub fn remove_item(&mut self, item_id: i32, quantity: i32, user: UserId, password: &str)
        ensures
            final(self).items_of(user@) == without_id(old(self).items_of(user@), item_id),
            forall|v: Seq<char>|
                v != user@ ==> #[trigger] final(self).items_of(v) == old(self).items_of(v),
    {
        let ghost old_es = self.entries@;
        let ghost old_repo = *self;
        match self.find(&user) {
            Some(j) => {
                let (uid, mut list) = self.entries.remove(j);
                remove_from_list(&mut list, item_id);
                self.entries.insert(j, (uid, list));
                proof {
                    Self::lemma_list_put_back(old_repo, *self, j as int, user@);
                }
            },
            None => {
                assert(without_id(Seq::<Item>::empty(), item_id) =~= Seq::<Item>::empty());
            },
        }
    }

    /// Changes the first item with id `item_id` in the list of `user` as
    /// `update` says; the other lists are unchanged.
    pub fn update_item(&mut self, item_id: i32, update: UpdateItem, user: UserId, password: &str)
        ensures
            final(self).items_of(user@) == updated(old(self).items_of(user@), item_id, update),
            forall|v: Seq<char>|
                v != user@ ==> #[trigger] final(self).items_of(v) == old(self).items_of(v),
    {
        let ghost old_es = self.entries@;
        let ghost old_repo = *self;
        match self.find(&user) {
            Some(j) => {
                let (uid, mut list) = self.entries.remove(j);
                update_in_list(&mut list, item_id, update);
                self.entries.insert(j, (uid, list));
                proof {
                    Self::lemma_list_put_back(old_repo, *self, j as int, user@);
                }
            },
            None => {
                assert(updated(Seq::<Item>::empty(), item_id, update) =~= Seq::<Item>::empty());
            },
        }
    }
}

} // verus!
