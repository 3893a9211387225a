//! The friend graph: directed friendships with the details recorded when
//! each was made, and the nicknames of known users.

use vstd::prelude::*;
use std::collections::HashMap;
use crate::clock::utc_now_timestamp;

verus! {

broadcast use vstd::std_specs::hash::group_hash_axioms;

/// A friend as recorded by a user.
#[derive(Debug, Clone)]
pub struct Friend {
    pub user_id: u32,
    pub nickname: String,
    pub added_at: i64,
}

/// Why a friendship request was refused.
#[derive(Debug, Clone, Copy, PartialEq, Eq)]
pub enum FriendError {
    /// A user cannot befriend themself.
    SelfFriend,
    /// The friendship exists already.
    AlreadyFriends,
    /// The user has no friends at all.
    NoFriendList,
    /// The user has friends, but not this one.
    NotFriends,
}

/// Friendship counts.
#[derive(Debug, Clone, Copy)]
pub struct FriendStats {
    pub total_users: usize,
    pub total_friendships: usize,
    pub users_with_friends: usize,
    pub max_friends: usize,
}

/// One recorded friendship: `owner` lists `friend`.
#[derive(Debug, Clone)]
struct FriendLink {
    owner: u32,
    friend: Friend,
}

/// The content of a friendship record.
pub struct LinkView {
    pub owner: u32,
    pub friend: u32,
    pub nickname: Seq<char>,
    pub added_at: i64,
}

pub open spec fn has_link(links: Seq<LinkView>, owner: u32, friend: u32) -> bool {
    exists|i: int| 0 <= i < links.len() && links[i].owner == owner && links[i].friend == friend
}

pub open spec fn has_owner(links: Seq<LinkView>, owner: u32) -> bool {
    exists|i: int| 0 <= i < links.len() && links[i].owner == owner
}

/// The records of `owner`, in the order they were made.
pub open spec fn links_of(links: Seq<LinkView>, owner: u32) -> Seq<LinkView> {
    links.filter(|l: LinkView| l.owner == owner)
}

/// Every (owner, friend) pair is recorded at most once.
pub open spec fn unique_links(links: Seq<LinkView>) -> bool {
    forall|i: int, j: int|
        0 <= i < links.len() && 0 <= j < links.len() && i != j ==> !(links[i].owner == links[j].owner
            && links[i].friend == links[j].friend)
}

pub open spec fn friend_view(f: Friend) -> (u32, Seq<char>, i64) {
    (f.user_id, f.nickname@, f.added_at)
}

pub open spec fn link_as_friend(l: LinkView) -> (u32, Seq<char>, i64) {
    (l.friend, l.nickname, l.added_at)
}

spec fn link_view(l: FriendLink) -> LinkView {
    LinkView {
        owner: l.owner,
        friend: l.friend.user_id,
        nickname: l.friend.nickname@,
        added_at: l.friend.added_at,
    }
}

spec fn link_views(ls: Seq<FriendLink>) -> Seq<LinkView> {
    ls.map_values(|l: FriendLink| link_view(l))
}

/// The friend graph and the nickname registry.
pub struct FriendHandler {
    links: Vec<FriendLink>,
    user_nicknames: HashMap<u32, String>,
}

impl FriendHandler {
    /// The friendship records, oldest first.
    pub closed spec fn links(&self) -> Seq<LinkView> {
        link_views(self.links@)
    }

    /// The known users' nicknames.
    pub closed spec fn nicknames(&self) -> Map<u32, Seq<char>> {
        self.user_nicknames@.map_values(|s: String| s@)
    }

    pub closed spec fn wf(&self) -> bool {
        unique_links(self.links())
    }

    /// An empty graph.
    pub fn new() -> (h: Self)
        ensures
            h.wf(),
            h.links() == Seq::<LinkView>::empty(),
            h.nicknames() == Map::<u32, Seq<char>>::empty(),
    {
        let h = FriendHandler { links: Vec::new(), user_nicknames: HashMap::new() };
        assert(h.links() =~= Seq::<LinkView>::empty());
        assert(h.nicknames() =~= Map::<u32, Seq<char>>::empty());
        h
    }

    /// Records or replaces a user's nickname.
    pub fn register_user(&mut self, user_id: u32, nickname: String)
        requires
            old(self).wf(),
        ensures
            final(self).wf(),
            final(self).links() == old(self).links(),
            final(self).nicknames() == old(self).nicknames().insert(user_id, nickname@),
    {
        let ghost nv = nickname@;
        self.user_nicknames.insert(user_id, nickname);
        assert(self.nicknames() =~= old(self).nicknames().insert(user_id, nv));
    }

    fn find_link(&self, owner: u32, friend: u32) -> (r: Option<usize>)
        ensures
            match r {
                Some(i) => i < self.links().len() && self.links()[i as int].owner == owner
                    && self.links()[i as int].friend == friend,
                None => !has_link(self.links(), owner, friend),
            },
    {
        let mut i: usize = 0;
        while i < self.links.len()
            invariant
                i <= self.links().len(),
                self.links().len() == self.links@.len(),
                forall|k: int|
                    0 <= k < i ==> !(#[trigger] self.links()[k].owner == owner && self.links()[k].friend
                        == friend),
            decreases self.links@.len() - i,
        {
            if self.links[i].owner == owner && self.links[i].friend.user_id == friend {
                return Some(i);
            }
            i = i + 1;
        }
        None
    }

    fn any_link_of(&self, owner: u32) -> (r: bool)
        ensures
            r == has_owner(self.links(), owner),
    {
        let mut i: usize = 0;
        while i < self.links.len()
            invariant
                i <= self.links().len(),
                self.links().len() == self.links@.len(),
                forall|k: int| 0 <= k < i ==> #[trigger] self.links()[k].owner != owner,
            decreases self.links@.len() - i,
        {
            if self.links[i].owner == owner {
                assert(self.links()[i as int].owner == owner);
                return true;
            }
            i = i + 1;
        }
        false
    }

    /// Makes `friend_user_id` a friend of `user_id` under the given nickname,
    /// stamped with the current time, and records the nickname. Refused for
    /// oneself and for an existing friendship, with nothing changed.
    pub fn add_friend(&mut self, user_id: u32, friend_user_id: u32, friend_nickname: String) -> (r: Result<(), FriendError>)
        requires
            old(self).wf(),
        ensures
            final(self).wf(),
            user_id == friend_user_id ==> r == Err::<(), FriendError>(FriendError::SelfFriend)
                && final(self).links() == old(self).links() && final(self).nicknames() == old(
                self,
            ).nicknames(),
            user_id != friend_user_id && has_link(old(self).links(), user_id, friend_user_id) ==> r
                == Err::<(), FriendError>(FriendError::AlreadyFriends) && final(self).links() == old(
                self,
            ).links() && final(self).nicknames() == old(self).nicknames(),
            user_id != friend_user_id && !has_link(old(self).links(), user_id, friend_user_id) ==> {
                &&& r is Ok
                &&& final(self).links().len() == old(self).links().len() + 1
                &&& final(self).links().drop_last() == old(self).links()
                &&& final(self).links().last().owner == user_id
                &&& final(self).links().last().friend == friend_user_id
                &&& final(self).links().last().nickname == friend_nickname@
                &&& final(self).nicknames() == old(self).nicknames().insert(friend_user_id, friend_nickname@)
            },
            user_id != friend_user_id ==> has_link(final(self).links(), user_id, friend_user_id),
    {
        if user_id == friend_user_id {
            return Err(FriendError::SelfFriend);
        }
        if self.find_link(user_id, friend_user_id).is_some() {
            return Err(FriendError::AlreadyFriends);
        }
        let added_at = utc_now_timestamp();
        let ghost old_links = self.links();
        let ghost nv = friend_nickname@;
        let nick_copy = friend_nickname.clone();
        self.links.push(
            FriendLink {
                owner: user_id,
                friend: Friend { user_id: friend_user_id, nickname: friend_nickname, added_at },
            },
        );
        assert(self.links().drop_last() =~= old_links);
        assert(self.links()[old_links.len() as int].owner == user_id);
        self.user_nicknames.insert(friend_user_id, nick_copy);
        assert(self.nicknames() =~= old(self).nicknames().insert(friend_user_id, nv));
        proof {
            let ls = self.links();
            assert forall|i: int, j: int|
                0 <= i < ls.len() && 0 <= j < ls.len() && i != j implies !(ls[i].owner == ls[j].owner
                && ls[i].friend == ls[j].friend) by {
                if i < old_links.len() && j < old_links.len() {
                    assert(ls[i] == old_links[i]);
                    assert(ls[j] == old_links[j]);
                } else if i < old_links.len() {
                    assert(ls[i] == old_links[i]);
                } else {
                    assert(ls[j] == old_links[j]);
                }
            }
        }
        Ok(())
    }

    /// Ends a friendship. Refused when the user has no friends at all, or
    /// not this one, with nothing changed.
    pub fn remove_friend(&mut self, user_id: u32, friend_user_id: u32) -> (r: Result<(), FriendError>)
        requires
            old(self).wf(),
        ensures
            final(self).wf(),
            final(self).nicknames() == old(self).nicknames(),
            !has_owner(old(self).links(), user_id) ==> r == Err::<(), FriendError>(
                FriendError::NoFriendList,
            ) && final(self).links() == old(self).links(),
            has_owner(old(self).links(), user_id) && !has_link(old(self).links(), user_id, friend_user_id)
                ==> r == Err::<(), FriendError>(FriendError::NotFriends) && final(self).links() == old(
                self,
            ).links(),
            has_link(old(self).links(), user_id, friend_user_id) ==> r is Ok && exists|i: int|
                0 <= i < old(self).links().len() && old(self).links()[i].owner == user_id && old(
                    self,
                ).links()[i].friend == friend_user_id && final(self).links() == old(self).links().remove(i),
            !has_link(final(self).links(), user_id, friend_user_id),
    {
        if !self.any_link_of(user_id) {
            return Err(FriendError::NoFriendList);
        }
        let idx = match self.find_link(user_id, friend_user_id) {
            Some(i) => i,
            None => return Err(FriendError::NotFriends),
        };
        let ghost old_links = self.links();
        self.links.remove(idx);
        assert(self.links() =~= old_links.remove(idx as int));
        proof {
            let ls = self.links();
            assert forall|i: int, j: int|
                0 <= i < ls.len() && 0 <= j < ls.len() && i != j implies !(ls[i].owner == ls[j].owner
                && ls[i].friend == ls[j].friend) by {
                let oi = if i < idx { i } else { i + 1 };
                let oj = if j < idx { j } else { j + 1 };
                assert(ls[i] == old_links[oi]);
                assert(ls[j] == old_links[oj]);
            }
            if has_link(ls, user_id, friend_user_id) {
                let k = choose|k: int| 0 <= k < ls.len() && ls[k].owner == user_id && ls[k].friend == friend_user_id;
                let ok = if k < idx { k } else { k + 1 };
                assert(ls[k] == old_links[ok]);
                assert(false);
            }
        }
        Ok(())
    }

    /// Whether `friend_user_id` is a friend of `user_id`.
    pub fn is_friend(&self, user_id: u32, friend_user_id: u32) -> (r: bool)
        ensures
            r == has_link(self.links(), user_id, friend_user_id),
    {
        self.find_link(user_id, friend_user_id).is_some()
    }

    /// Whether each of the two lists the other.
    pub fn are_mutual_friends(&self, user1_id: u32, user2_id: u32) -> (r: bool)
        ensures
            r == (has_link(self.links(), user1_id, user2_id) && has_link(self.links(), user2_id, user1_id)),
    {
        let a = self.find_link(user1_id, user2_id).is_some();
        let b = self.find_link(user2_id, user1_id).is_some();
        a && b
    }

    /// How many friends the user lists.
    pub fn get_friend_count(&self, user_id: u32) -> (n: usize)
        ensures
            n == links_of(self.links(), user_id).len(),
    {
        let mut n: usize = 0;
        let mut i: usize = 0;
        while i < self.links.len()
            invariant
                i <= self.links().len(),
                self.links().len() == self.links@.len(),
                n == self.links().take(i as int).filter(|l: LinkView| l.owner == user_id).len(),
            decreases self.links@.len() - i,
        {
            proof {
                lemma_filter_step(self.links(), i as int, |l: LinkView| l.owner == user_id);
                self.links().take(i as int).lemma_filter_len(|l: LinkView| l.owner == user_id);
            }
            if self.links[i].owner == user_id {
                n = n + 1;
            }
            i = i + 1;
        }
        assert(self.links().take(i as int) =~= self.links());
        n
    }

    /// The friends the user lists, oldest first.
    pub fn get_friend_list(&self, user_id: u32) -> (v: Vec<Friend>)
        ensures
            v@.map_values(|f: Friend| friend_view(f)) == links_of(self.links(), user_id).map_values(
                |l: LinkView| link_as_friend(l),
            ),
    {
        let mut v: Vec<Friend> = Vec::new();
        let mut i: usize = 0;
        while i < self.links.len()
            invariant
                i <= self.links().len(),
                self.links().len() == self.links@.len(),
                v@.map_values(|f: Friend| friend_view(f)) == self.links().take(i as int).filter(
                    |l: LinkView| l.owner == user_id,
                ).map_values(|l: LinkView| link_as_friend(l)),
            decreases self.links@.len() - i,
        {
            proof {
                lemma_filter_step(self.links(), i as int, |l: LinkView| l.owner == user_id);
            }
            if self.links[i].owner == user_id {
                let f = &self.links[i].friend;
                let copy = Friend { user_id: f.user_id, nickname: f.nickname.clone(), added_at: f.added_at };
                let ghost before = v@.map_values(|f: Friend| friend_view(f));
                v.push(copy);
                assert(v@.map_values(|f: Friend| friend_view(f)) =~= before.push(friend_view(copy)));
            }
            i = i + 1;
            assert(v@.map_values(|f: Friend| friend_view(f)) =~= self.links().take(i as int).filter(
                |l: LinkView| l.owner == user_id,
            ).map_values(|l: LinkView| link_as_friend(l)));
        }
        assert(self.links().take(i as int) =~= self.links());
        v
    }
}

/// The friends of `a`, in `a`'s order, that `b` also lists.
pub open spec fn mutual_friend_ids(links: Seq<LinkView>, a: u32, b: u32) -> Seq<u32> {
    links_of(links, a).filter(|l: LinkView| has_link(links, b, l.friend)).map_values(
        |l: LinkView| l.friend,
    )
}

/// The records that remain when a user leaves: none naming them.
pub open spec fn links_without(links: Seq<LinkView>, user: u32) -> Seq<LinkView> {
    links.filter(|l: LinkView| l.owner != user && l.friend != user)
}

/// The users that list at least one friend.
pub open spec fn owners(links: Seq<LinkView>) -> Set<u32> {
    Set::new(|o: u32| has_owner(links, o))
}

impl FriendHandler {
    /// The friends of `user1_id` that `user2_id` lists too, in `user1_id`'s order.
    pub fn get_mutual_friends(&self, user1_id: u32, user2_id: u32) -> (v: Vec<u32>)
        ensures
            v@ == mutual_friend_ids(self.links(), user1_id, user2_id),
    {
        let ghost ls = self.links();
        let ghost mine = |l: LinkView| l.owner == user1_id;
        let ghost shared = |l: LinkView| has_link(ls, user2_id, l.friend);
        let ghost fr = |l: LinkView| l.friend;
        let mut v: Vec<u32> = Vec::new();
        let mut i: usize = 0;
        while i < self.links.len()
            invariant
                ls == self.links(),
                i <= ls.len(),
                ls.len() == self.links@.len(),
                mine == (|l: LinkView| l.owner == user1_id),
                shared == (|l: LinkView| has_link(ls, user2_id, l.friend)),
                fr == (|l: LinkView| l.friend),
                v@ == ls.take(i as int).filter(mine).filter(shared).map_values(fr),
            decreases self.links@.len() - i,
        {
            let ghost before = v@;
            let ghost pre = ls.take(i as int).filter(mine);
            let ghost x = ls[i as int];
            proof {
                lemma_filter_step(ls, i as int, mine);
                pre.lemma_filter_push(x, shared);
            }
            if self.links[i].owner == user1_id {
                let f = self.links[i].friend.user_id;
                assert(x.friend == f);
                if self.find_link(user2_id, f).is_some() {
                    v.push(f);
                    assert(pre.push(x).filter(shared).map_values(fr) =~= pre.filter(shared).map_values(
                        fr,
                    ).push(f));
                }
            }
            i = i + 1;
        }
        assert(ls.take(i as int) =~= ls);
        v
    }

    /// Forgets a user: every friendship that names them, either way, and
    /// their nickname.
    pub fn cleanup_user(&mut self, user_id: u32)
        requires
            old(self).wf(),
        ensures
            final(self).wf(),
            final(self).links() == links_without(old(self).links(), user_id),
            final(self).nicknames() == old(self).nicknames().remove(user_id),
    {
        let ghost ls = self.links();
        let ghost keep = |l: LinkView| l.owner != user_id && l.friend != user_id;
        let mut kept: Vec<FriendLink> = Vec::new();
        let mut i: usize = 0;
        while i < self.links.len()
            invariant
                ls == self.links(),
                i <= ls.len(),
                ls.len() == self.links@.len(),
                keep == (|l: LinkView| l.owner != user_id && l.friend != user_id),
                link_views(kept@) == ls.take(i as int).filter(keep),
            decreases self.links@.len() - i,
        {
            proof {
                lemma_filter_step(ls, i as int, keep);
            }
            let l = &self.links[i];
            if l.owner != user_id && l.friend.user_id != user_id {
                let copy = FriendLink {
                    owner: l.owner,
                    friend: Friend {
                        user_id: l.friend.user_id,
                        nickname: l.friend.nickname.clone(),
                        added_at: l.friend.added_at,
                    },
                };
                let ghost before = kept@;
                kept.push(copy);
                assert(link_views(kept@) =~= link_views(before).push(link_view(copy)));
                assert(link_view(copy) == ls[i as int]);
            }
            i = i + 1;
        }
        assert(ls.take(i as int) =~= ls);
        self.links = kept;
        self.user_nicknames.remove(&user_id);
        assert(self.nicknames() =~= old(self).nicknames().remove(user_id));
        proof {
            lemma_filter_unique(ls, keep);
        }
    }
}

/// Removing a friendship that was just added gives back the records as they
/// were before the addition.
pub proof fn lemma_add_then_remove_restores(links: Seq<LinkView>, added: LinkView, i: int)
    requires
        !has_link(links, added.owner, added.friend),
        0 <= i < links.len() + 1,
        links.push(added)[i].owner == added.owner,
        links.push(added)[i].friend == added.friend,
    ensures
        links.push(added).remove(i) == links,
{
    if i < links.len() {
        assert(links[i].owner == added.owner && links[i].friend == added.friend);
        assert(false);
    }
    assert(links.push(added).remove(i) =~= links);
}

/// After a user is forgotten no record names them, and every record that
/// did not name them is still there.
pub proof fn lemma_cleanup_forgets_user(links: Seq<LinkView>, user: u32)
    ensures
        forall|k: int|
            0 <= k < links_without(links, user).len() ==> (#[trigger] links_without(links, user)[k]).owner
                != user && links_without(links, user)[k].friend != user,
        forall|k: int|
            0 <= k < links.len() && links[k].owner != user && links[k].friend != user
                ==> #[trigger] links_without(links, user).contains(links[k]),
{
    links.filter_lemma(|l: LinkView| l.owner != user && l.friend != user);
}

/// Filtering keeps the records unique.
proof fn lemma_filter_unique(links: Seq<LinkView>, p: spec_fn(LinkView) -> bool)
    requires
        unique_links(links),
    ensures
        unique_links(links.filter(p)),
    decreases links.len(),
{
    reveal(Seq::filter);
    if links.len() > 0 {
        let init = links.drop_last();
        assert(unique_links(init)) by {
            assert forall|i: int, j: int|
                0 <= i < init.len() && 0 <= j < init.len() && i != j implies !(init[i].owner
                == init[j].owner && init[i].friend == init[j].friend) by {
                assert(init[i] == links[i] && init[j] == links[j]);
            }
        }
        lemma_filter_unique(init, p);
        let f = init.filter(p);
        if p(links.last()) {
            let g = f.push(links.last());
            assert forall|i: int, j: int|
                0 <= i < g.len() && 0 <= j < g.len() && i != j implies !(g[i].owner == g[j].owner
                && g[i].friend == g[j].friend) by {
                if i == f.len() || j == f.len() {
                    let k = if i == f.len() { j } else { i };
                    assert(f.contains(f[k]));
                    init.lemma_filter_contains_rev(p, f[k]);
                    let m = choose|m: int| 0 <= m < init.len() && init[m] == f[k];
                    assert(links[m] == f[k]);
                    assert(links[links.len() - 1] == links.last());
                }
            }
        }
    }
}

impl FriendHandler {
    /// The users that list at least one friend, each once, in order of their
    /// first record.
    fn distinct_owners(&self) -> (os: Vec<u32>)
        ensures
            os@.no_duplicates(),
            os@.to_set() == owners(self.links()),
    {
        let ghost ls = self.links();
        let mut os: Vec<u32> = Vec::new();
        let mut i: usize = 0;
        while i < self.links.len()
            invariant
                ls == self.links(),
                i <= ls.len(),
                ls.len() == self.links@.len(),
                os@.no_duplicates(),
                forall|o: u32| os@.contains(o) <==> has_owner(ls.take(i as int), o),
            decreases self.links@.len() - i,
        {
            let o = self.links[i].owner;
            let mut seen = false;
            let mut j: usize = 0;
            while j < os.len()
                invariant
                    j <= os@.len(),
                    seen <==> exists|k: int| 0 <= k < j && os@[k] == o,
                decreases os@.len() - j,
            {
                if os[j] == o {
                    seen = true;
                }
                j = j + 1;
            }
            let ghost before = os@;
            if !seen {
                os.push(o);
                proof {
                    assert forall|a: int, b: int|
                        0 <= a < os@.len() && 0 <= b < os@.len() && a != b implies os@[a] != os@[b] by {
                        if a < before.len() && b < before.len() {
                            assert(os@[a] == before[a] && os@[b] == before[b]);
                        } else if a < before.len() {
                            assert(os@[a] == before[a]);
                        } else {
                            assert(os@[b] == before[b]);
                        }
                    }
                }
            }
            proof {
                let pre = ls.take(i as int);
                let post = ls.take(i as int + 1);
                assert(before.contains(o) <==> seen);
                assert(os@.contains(o)) by {
                    if seen {
                        let k = choose|k: int| 0 <= k < before.len() && before[k] == o;
                        assert(os@[k] == o);
                    } else {
                        assert(os@[before.len() as int] == o);
                    }
                }
                assert(post[i as int].owner == o);
                assert(has_owner(post, o));
                assert forall|x: u32| has_owner(post, x) implies os@.contains(x) by {
                    let k = choose|k: int| 0 <= k < post.len() && post[k].owner == x;
                    if k < i {
                        assert(post[k] == pre[k]);
                        assert(has_owner(pre, x));
                        assert(before.contains(x));
                        let m = choose|m: int| 0 <= m < before.len() && before[m] == x;
                        assert(os@[m] == x);
                    } else {
                        assert(x == o);
                    }
                }
                assert forall|x: u32| os@.contains(x) implies has_owner(post, x) by {
                    if x != o {
                        let k = choose|k: int| 0 <= k < os@.len() && os@[k] == x;
                        assert(k < before.len());
                        assert(before[k] == x);
                        assert(before.contains(x));
                        assert(has_owner(pre, x));
                        let m = choose|m: int| 0 <= m < pre.len() && pre[m].owner == x;
                        assert(post[m] == pre[m]);
                    }
                }
            }
            i = i + 1;
        }
        proof {
            assert(ls.take(i as int) =~= ls);
            assert(os@.to_set() =~= owners(ls));
        }
        os
    }

    /// Counts of users and friendships.
    pub fn get_friend_stats(&self) -> (s: FriendStats)
        ensures
            s.total_users == self.nicknames().dom().len(),
            s.total_friendships == self.links().len(),
            s.users_with_friends == owners(self.links()).len(),
            forall|o: u32| has_owner(self.links(), o) ==> links_of(self.links(), o).len() <= s.max_friends,
            owners(self.links()).is_empty() ==> s.max_friends == 0,
            !owners(self.links()).is_empty() ==> exists|o: u32|
                has_owner(self.links(), o) && links_of(self.links(), o).len() == s.max_friends,
    {
        let ghost ls = self.links();
        let os = self.distinct_owners();
        proof {
            os@.unique_seq_to_set();
        }
        let mut max_friends: usize = 0;
        let mut j: usize = 0;
        while j < os.len()
            invariant
                ls == self.links(),
                j <= os@.len(),
                os@.to_set() == owners(ls),
                forall|k: int| 0 <= k < j ==> links_of(ls, #[trigger] os@[k]).len() <= max_friends,
                j == 0 ==> max_friends == 0,
                j > 0 ==> exists|k: int| 0 <= k < j && links_of(ls, #[trigger] os@[k]).len() == max_friends,
            decreases os@.len() - j,
        {
            let n = self.get_friend_count(os[j]);
            if n > max_friends {
                max_friends = n;
            }
            j = j + 1;
        }
        proof {
            assert forall|o: u32| has_owner(ls, o) implies links_of(ls, o).len() <= max_friends by {
                assert(owners(ls).contains(o));
                assert(os@.to_set().contains(o));
                let k = choose|k: int| 0 <= k < os@.len() && os@[k] == o;
                assert(links_of(ls, os@[k]).len() <= max_friends);
            }
            if !owners(ls).is_empty() {
                let o = owners(ls).choose();
                assert(owners(ls).contains(o));
                assert(os@.to_set().contains(o));
                assert(os@.len() > 0);
                let k = choose|k: int| 0 <= k < os@.len() && links_of(ls, os@[k]).len() == max_friends;
                assert(os@.to_set().contains(os@[k]));
                assert(has_owner(ls, os@[k]));
            } else {
                if os@.len() > 0 {
                    assert(os@.to_set().contains(os@[0]));
                }
            }
        }
        assert(self.user_nicknames@.dom() =~= self.nicknames().dom());
        FriendStats {
            total_users: self.user_nicknames.len(),
            total_friendships: self.links.len(),
            users_with_friends: os.len(),
            max_friends,
        }
    }
}

proof fn lemma_filter_step<A>(s: Seq<A>, i: int, p: spec_fn(A) -> bool)
    requires
        0 <= i < s.len(),
    ensures
        s.take(i + 1).filter(p) == if p(s[i]) {
            s.take(i).filter(p).push(s[i])
        } else {
            s.take(i).filter(p)
        },
{
    reveal(Seq::filter);
    assert(s.take(i + 1).drop_last() =~= s.take(i));
    assert(s.take(i + 1).last() == s[i]);
}

} // verus!
