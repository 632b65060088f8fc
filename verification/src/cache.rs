//! Chat cache: resolving a thread identity to a `Chat` entity.
//!
//! The cache minimizes backend round-trips while enforcing group staleness:
//! contacts are cached for the whole session, a cached group is valid only
//! while its revision equals the revision an incoming envelope cites.
//! Because the fetches themselves (profile, avatar, group data) suspend on
//! backend I/O, resolution is split into steps: a step function decides from
//! the cache alone whether a fetch is needed, and an insert function applies
//! the completed fetch results, all or nothing.

use vstd::prelude::*;

use crate::message::{Chat, ChatV, Contact, ContactV, Group, GroupV, Thread, ThreadV, KEY_LEN,
    clone_bytes};
use crate::proto::GroupContextV2;

verus! {

/// The association a sequence of keyed entries builds up, later entries
/// overwriting earlier ones.
pub open spec fn assoc_map(s: Seq<(ThreadV, ChatV)>) -> Map<ThreadV, ChatV>
    decreases s.len(),
{
    if s.len() == 0 {
        Map::empty()
    } else {
        assoc_map(s.drop_last()).insert(s.last().0, s.last().1)
    }
}

/// No two entries share a key.
pub open spec fn cache_keys_distinct(s: Seq<(ThreadV, ChatV)>) -> bool {
    forall|i: int, j: int| 0 <= i < j < s.len() ==> s[i].0 != s[j].0
}

/// Each entry's view is the view of the entry.
pub proof fn lemma_cache_views_bridge(v: Vec<(Thread, Chat)>)
    ensures
        v.deep_view().len() == v@.len(),
        forall|i: int| 0 <= i < v@.len() ==> #[trigger] v.deep_view()[i] == (
            v@[i].0.deep_view(),
            v@[i].1.deep_view(),
        ),
{
}

/// What a key-distinct entry sequence associates: each entry is found under
/// its own key, and nothing else is in the map.
pub proof fn lemma_assoc_map_characterize(s: Seq<(ThreadV, ChatV)>)
    requires
        cache_keys_distinct(s),
    ensures
        forall|k: ThreadV| #[trigger] assoc_map(s).contains_key(k) <==> (exists|i: int|
            0 <= i < s.len() && #[trigger] s[i].0 == k),
        forall|i: int| 0 <= i < s.len() ==> assoc_map(s)[#[trigger] s[i].0] == s[i].1,
    decreases s.len(),
{
    if s.len() > 0 {
        lemma_assoc_map_characterize(s.drop_last());
        assert forall|i: int| 0 <= i < s.len() implies assoc_map(s)[#[trigger] s[i].0] == s[i].1 by {
            if i < s.len() - 1 {
                assert(s.drop_last()[i] == s[i]);
                assert(s[i].0 != s.last().0);
            }
        }
        assert forall|k: ThreadV| #[trigger] assoc_map(s).contains_key(k) implies (exists|i: int|
            0 <= i < s.len() && #[trigger] s[i].0 == k) by {
            if k != s.last().0 {
                assert(assoc_map(s.drop_last()).contains_key(k));
                let i = choose|i: int| 0 <= i < s.drop_last().len() && #[trigger] s.drop_last()[i].0
                    == k;
                assert(s.drop_last()[i].0 == s[i].0);
                assert(s[i].0 == k);
            } else {
                assert(s[s.len() - 1].0 == k);
            }
        }
        assert forall|k: ThreadV| (exists|i: int| 0 <= i < s.len() && #[trigger] s[i].0 == k)
            implies #[trigger] assoc_map(s).contains_key(k) by {
            let i = choose|i: int| 0 <= i < s.len() && #[trigger] s[i].0 == k;
            if i < s.len() - 1 {
                assert(s.drop_last()[i] == s[i]);
                assert(s.drop_last()[i].0 == k);
            }
        }
    }
}

/// What a contact resolution decides, at the view level.
pub enum ContactResolutionV {
    /// The cache already holds the chat: no backend fetch.
    Cached(ChatV),
    /// The contact must be fetched with this profile key.
    Fetch(u128, Seq<u8>),
    /// No profile key is available and none is cached: unresolvable.
    Unresolvable,
}

/// What a contact resolution decides.
pub enum ContactResolution {
    /// The cache already holds the chat: no backend fetch.
    Cached(Chat),
    /// The contact must be fetched with this profile key.
    Fetch(u128, Vec<u8>),
    /// No profile key is available and none is cached: unresolvable.
    Unresolvable,
}

impl DeepView for ContactResolution {
    type V = ContactResolutionV;

    open spec fn deep_view(&self) -> ContactResolutionV {
        match self {
            ContactResolution::Cached(c) => ContactResolutionV::Cached(c.deep_view()),
            ContactResolution::Fetch(u, k) => ContactResolutionV::Fetch(*u, k.deep_view()),
            ContactResolution::Unresolvable => ContactResolutionV::Unresolvable,
        }
    }
}

/// The decision [`Cache::resolve_contact_step`] takes: a cached entry wins;
/// otherwise a well-formed profile key demands a fetch; otherwise the
/// contact is unresolvable.
pub open spec fn spec_resolve_contact(
    m: Map<ThreadV, ChatV>,
    uuid: u128,
    profile_key: Option<Seq<u8>>,
) -> ContactResolutionV {
    if m.contains_key(ThreadV::Contact(uuid)) {
        ContactResolutionV::Cached(m[ThreadV::Contact(uuid)])
    } else if profile_key matches Some(k) && k.len() == KEY_LEN {
        ContactResolutionV::Fetch(uuid, profile_key->0)
    } else {
        ContactResolutionV::Unresolvable
    }
}

/// What a group resolution decides, at the view level.
pub enum GroupResolutionV {
    /// The cached entry's revision equals the cited one: returned unchanged.
    Cached(ChatV),
    /// The group must be refreshed in full, members and avatar.
    Refresh(Seq<u8>, u32),
    /// The context carries no well-formed master key: unresolvable.
    Unresolvable,
}

/// What a group resolution decides.
pub enum GroupResolution {
    /// The cached entry's revision equals the cited one: returned unchanged.
    Cached(Chat),
    /// The group must be refreshed in full, members and avatar.
    Refresh(Vec<u8>, u32),
    /// The context carries no well-formed master key: unresolvable.
    Unresolvable,
}

impl DeepView for GroupResolution {
    type V = GroupResolutionV;

    open spec fn deep_view(&self) -> GroupResolutionV {
        match self {
            GroupResolution::Cached(c) => GroupResolutionV::Cached(c.deep_view()),
            GroupResolution::Refresh(k, r) => GroupResolutionV::Refresh(k.deep_view(), *r),
            GroupResolution::Unresolvable => GroupResolutionV::Unresolvable,
        }
    }
}

/// Whether a cached group entry for this key and cited revision is missing
/// or stale, so that a full refresh is required.
pub open spec fn spec_group_refresh_needed(
    m: Map<ThreadV, ChatV>,
    key: Seq<u8>,
    revision: u32,
) -> bool {
    !(m.contains_key(ThreadV::Group(key)) && (m[ThreadV::Group(key)] matches ChatV::Group(g)
        && g.revision == revision))
}

/// The decision [`Cache::resolve_group_step`] takes.
pub open spec fn spec_resolve_group(m: Map<ThreadV, ChatV>, context_key: Option<Seq<u8>>,
    revision: u32) -> GroupResolutionV {
    if !(context_key matches Some(k) && k.len() == KEY_LEN) {
        GroupResolutionV::Unresolvable
    } else if !spec_group_refresh_needed(m, context_key->0, revision) {
        GroupResolutionV::Cached(m[ThreadV::Group(context_key->0)])
    } else {
        GroupResolutionV::Refresh(context_key->0, revision)
    }
}

/// Session-lifetime mapping from thread identity to resolved chat. Entries
/// are never evicted; they are discarded only when the session ends.
pub struct Cache {
    /// The entries, each chat under its own thread identity.
    pub entries: Vec<(Thread, Chat)>,
}

impl Cache {
    /// Entry sequence at the view level.
    pub open spec fn entry_views(self) -> Seq<(ThreadV, ChatV)> {
        self.entries.deep_view()
    }

    /// Keys are distinct, each entry sits under its chat's own thread
    /// identity, and every cached chat is well formed.
    pub open spec fn wf(self) -> bool {
        &&& cache_keys_distinct(self.entry_views())
        &&& forall|i: int| 0 <= i < self.entry_views().len() ==> (#[trigger] self.entry_views()[i]).0
            == self.entry_views()[i].1.thread()
        &&& forall|i: int| 0 <= i < self.entry_views().len() ==> (#[trigger] self.entry_views()[i]).1.wf()
    }

    /// The association the cache holds: chat views by thread identity.
    pub open spec fn as_map(self) -> Map<ThreadV, ChatV> {
        assoc_map(self.entry_views())
    }

    /// An empty cache.
    pub fn new() -> (c: Self)
        ensures
            c.wf(),
            c.as_map() == Map::<ThreadV, ChatV>::empty(),
    {
        let c = Cache { entries: Vec::new() };
        proof {
            assert(c.entry_views() =~= Seq::<(ThreadV, ChatV)>::empty());
        }
        c
    }

    /// The position of the entry with the given identity, if any.
    #[verifier::loop_isolation(false)]
    fn find(&self, t: &Thread) -> (r: Option<usize>)
        requires
            self.wf(),
        ensures
            match r {
                Some(i) => i < self.entry_views().len() && self.entry_views()[i as int].0
                    == t.deep_view(),
                None => forall|i: int| 0 <= i < self.entry_views().len() ==> (
                #[trigger] self.entry_views()[i]).0 != t.deep_view(),
            },
    {
        proof {
            lemma_cache_views_bridge(self.entries);
        }
        let mut i: usize = 0;
        while i < self.entries.len()
            invariant
                i <= self.entries.len(),
                forall|j: int| 0 <= j < i ==> (#[trigger] self.entry_views()[j]).0 != t.deep_view(),
            decreases self.entries.len() - i,
        {
            if self.entries[i].0.same(t) {
                return Some(i);
            }
            i += 1;
        }
        None
    }

    /// The cached chat for a thread identity, if any.
    pub fn get(&self, t: &Thread) -> (r: Option<&Chat>)
        requires
            self.wf(),
        ensures
            match r {
                Some(c) => self.as_map().contains_key(t.deep_view()) && c.deep_view()
                    == self.as_map()[t.deep_view()],
                None => !self.as_map().contains_key(t.deep_view()),
            },
    {
        proof {
            lemma_assoc_map_characterize(self.entry_views());
            lemma_cache_views_bridge(self.entries);
        }
        match self.find(t) {
            Some(i) => Some(&self.entries[i].1),
            None => None,
        }
    }

    /// Stores a chat under its own thread identity, overwriting any entry
    /// already there.
    fn put(&mut self, chat: Chat)
        requires
            old(self).wf(),
            chat.wf(),
        ensures
            final(self).wf(),
            final(self).as_map() == old(self).as_map().insert(
                chat.deep_view().thread(),
                chat.deep_view(),
            ),
    {
        proof {
            lemma_assoc_map_characterize(self.entry_views());
            lemma_cache_views_bridge(self.entries);
        }
        let ghost old_views = self.entry_views();
        let ghost key = chat.deep_view().thread();
        let t = chat.thread();
        let found = self.find(&t);
        match found {
            Some(i) => {
                self.entries.remove(i);
                self.entries.push((t, chat));
                proof {
                    let new_views = self.entry_views();
                    assert(new_views =~= old_views.remove(i as int).push((key, chat.deep_view())));
                    assert forall|a: int, b: int| 0 <= a < b < new_views.len() implies new_views[a].0
                        != new_views[b].0 by {
                        let last = new_views.len() - 1;
                        if b < last {
                            let oa = if a < i { a } else { a + 1 };
                            let ob = if b < i { b } else { b + 1 };
                            assert(new_views[a] == old_views[oa]);
                            assert(new_views[b] == old_views[ob]);
                        } else {
                            let oa = if a < i { a } else { a + 1 };
                            assert(new_views[a] == old_views[oa]);
                            assert(old_views[oa].0 != old_views[i as int].0);
                        }
                    }
                    lemma_assoc_map_characterize(new_views);
                    assert forall|k: ThreadV| true implies (#[trigger] self.as_map().contains_key(k)
                        <==> old(self).as_map().insert(key, chat.deep_view()).contains_key(k)) && (
                    self.as_map().contains_key(k) ==> self.as_map()[k] == old(
                        self,
                    ).as_map().insert(key, chat.deep_view())[k]) by {
                        let last = new_views.len() - 1;
                        if k == key {
                            assert(new_views[last].0 == key);
                            assert(self.as_map()[key] == new_views[last].1);
                        } else {
                            if self.as_map().contains_key(k) {
                                let a = choose|a: int| 0 <= a < new_views.len()
                                    && #[trigger] new_views[a].0 == k;
                                assert(a != last);
                                let oa = if a < i { a } else { a + 1 };
                                assert(old_views[oa].0 == k);
                                assert(old(self).as_map()[k] == old_views[oa].1);
                            }
                            if old(self).as_map().contains_key(k) {
                                let a = choose|a: int| 0 <= a < old_views.len()
                                    && #[trigger] old_views[a].0 == k;
                                assert(a != i);
                                let na = if a < i { a } else { a - 1 };
                                assert(new_views[na].0 == k);
                                assert(self.as_map()[k] == new_views[na].1);
                            }
                        }
                    }
                    assert(self.as_map() =~= old(self).as_map().insert(key, chat.deep_view()));
                }
            },
            None => {
                self.entries.push((t, chat));
                proof {
                    let new_views = self.entry_views();
                    assert(new_views =~= old_views.push((key, chat.deep_view())));
                    let last = new_views.len() - 1;
                    assert forall|a: int, b: int| 0 <= a < b < new_views.len() implies new_views[a].0
                        != new_views[b].0 by {
                        if b < last {
                            assert(new_views[a] == old_views[a]);
                            assert(new_views[b] == old_views[b]);
                        } else {
                            assert(new_views[a] == old_views[a]);
                        }
                    }
                    lemma_assoc_map_characterize(new_views);
                    assert forall|k: ThreadV| true implies (#[trigger] self.as_map().contains_key(k)
                        <==> old(self).as_map().insert(key, chat.deep_view()).contains_key(k)) && (
                    self.as_map().contains_key(k) ==> self.as_map()[k] == old(
                        self,
                    ).as_map().insert(key, chat.deep_view())[k]) by {
                        if k == key {
                            assert(new_views[last].0 == key);
                            assert(self.as_map()[key] == new_views[last].1);
                        } else {
                            if self.as_map().contains_key(k) {
                                let a = choose|a: int| 0 <= a < new_views.len()
                                    && #[trigger] new_views[a].0 == k;
                                assert(a != last);
                                assert(old_views[a].0 == k);
                                assert(old(self).as_map()[k] == old_views[a].1);
                            }
                            if old(self).as_map().contains_key(k) {
                                let a = choose|a: int| 0 <= a < old_views.len()
                                    && #[trigger] old_views[a].0 == k;
                                assert(new_views[a].0 == k);
                                assert(self.as_map()[k] == new_views[a].1);
                            }
                        }
                    }
                    assert(self.as_map() =~= old(self).as_map().insert(key, chat.deep_view()));
                }
            },
        }
    }

    /// Decides how to resolve a contact: the cached entry if present,
    /// otherwise a fetch with the offered profile key, otherwise failure.
    pub fn resolve_contact_step(&self, uuid: u128, profile_key: Option<&Vec<u8>>) -> (r:
        ContactResolution)
        requires
            self.wf(),
        ensures
            r.deep_view() == spec_resolve_contact(
                self.as_map(),
                uuid,
                match profile_key {
                    Some(k) => Some(k.deep_view()),
                    None => None,
                },
            ),
    {
        proof {
            match profile_key {
                Some(k) => crate::message::lemma_bytes_deep_view(*k),
                None => (),
            }
        }
        match self.get(&Thread::Contact(uuid)) {
            Some(chat) => ContactResolution::Cached(chat.clone()),
            None => match profile_key {
                Some(k) => {
                    if k.len() == KEY_LEN {
                        ContactResolution::Fetch(uuid, clone_bytes(k))
                    } else {
                        ContactResolution::Unresolvable
                    }
                },
                None => ContactResolution::Unresolvable,
            },
        }
    }

    /// Applies a completed contact fetch: both the profile name and the
    /// avatar fetch must have succeeded, else nothing is cached. On success
    /// the contact is cached under its thread identity and returned.
    pub fn insert_contact(
        &mut self,
        uuid: u128,
        key: Vec<u8>,
        name: Option<String>,
        avatar_fetch: Option<Option<Vec<u8>>>,
        self_uuid: u128,
    ) -> (r: Option<Chat>)
        requires
            old(self).wf(),
            key@.len() == KEY_LEN,
        ensures
            final(self).wf(),
            name is None || avatar_fetch is None ==> r is None && *final(self) == *old(self),
            name is Some && avatar_fetch is Some ==> (r matches Some(c) && c.deep_view()
                == ChatV::Contact(
                ContactV {
                    key: key.deep_view(),
                    uuid,
                    name: name->0.deep_view(),
                    avatar: avatar_fetch->0.deep_view(),
                    is_self: uuid == self_uuid,
                },
            ) && final(self).as_map() == old(self).as_map().insert(
                ThreadV::Contact(uuid),
                c.deep_view(),
            )),
    {
        proof {
            crate::message::lemma_bytes_deep_view(key);
        }
        let name = match name {
            Some(n) => n,
            None => {
                return None;
            },
        };
        let avatar = match avatar_fetch {
            Some(a) => a,
            None => {
                return None;
            },
        };
        let contact = Contact { key, uuid, name, avatar, is_self: uuid == self_uuid };
        let chat = Chat::Contact(contact);
        let r = chat.clone();
        self.put(chat);
        Some(r)
    }

    /// Decides how to resolve a group from its envelope context: the cached
    /// entry if its revision equals the cited one, otherwise a full refresh;
    /// a context without a well-formed master key is unresolvable.
    #[verifier::rlimit(30)]
    pub fn resolve_group_step(&self, context: &GroupContextV2) -> (r: GroupResolution)
        requires
            self.wf(),
        ensures
            r.deep_view() == spec_resolve_group(
                self.as_map(),
                match &context.master_key {
                    Some(k) => Some(k.deep_view()),
                    None => None,
                },
                match context.revision {
                    Some(rev) => rev,
                    None => 0,
                },
            ),
    {
        let key = match &context.master_key {
            Some(k) => {
                proof {
                    crate::message::lemma_bytes_deep_view(*k);
                }
                if k.len() == KEY_LEN {
                    k
                } else {
                    return GroupResolution::Unresolvable;
                }
            },
            None => {
                return GroupResolution::Unresolvable;
            },
        };
        let revision = match context.revision {
            Some(rev) => rev,
            None => 0,
        };
        let thread = Thread::Group(clone_bytes(key));
        proof {
            lemma_assoc_map_characterize(self.entry_views());
            match &thread {
                Thread::Group(kk) => crate::message::lemma_bytes_deep_view(*kk),
                Thread::Contact(_) => (),
            }
            assert(thread.deep_view() == ThreadV::Group(key.deep_view()));
        }
        match self.get(&thread) {
            Some(chat) => match chat {
                Chat::Group(g) => {
                    if g.revision == revision {
                        GroupResolution::Cached(chat.clone())
                    } else {
                        GroupResolution::Refresh(clone_bytes(key), revision)
                    }
                },
                Chat::Contact(_) => {
                    proof {
                        assert(self.as_map().contains_key(thread.deep_view()));
                        let i = choose|i: int| 0 <= i < self.entry_views().len()
                            && #[trigger] self.entry_views()[i].0 == thread.deep_view();
                        assert(self.as_map()[self.entry_views()[i].0] == self.entry_views()[i].1);
                        assert(self.entry_views()[i].1.thread() == thread.deep_view());
                        assert(false);
                    }
                    GroupResolution::Unresolvable
                },
            },
            None => GroupResolution::Refresh(clone_bytes(key), revision),
        }
    }

    /// Applies a completed group refresh, all or nothing: the avatar fetch
    /// and every member resolution must have succeeded, else nothing is
    /// cached and no partial group exists. On success the rebuilt group is
    /// cached under its thread identity and returned.
    #[verifier::loop_isolation(false)]
    pub fn insert_group(
        &mut self,
        key: Vec<u8>,
        revision: u32,
        title: String,
        avatar_fetch: Option<Option<Vec<u8>>>,
        members: Vec<Option<Contact>>,
    ) -> (r: Option<Chat>)
        requires
            old(self).wf(),
            key@.len() == KEY_LEN,
        ensures
            final(self).wf(),
            avatar_fetch is None || (exists|i: int|
                0 <= i < members@.len() && members@[i] is None) ==> r is None && *final(self)
                == *old(self),
            avatar_fetch is Some && (forall|i: int| 0 <= i < members@.len() ==> members@[i] is Some)
                ==> (r matches Some(c) && (c.deep_view() matches ChatV::Group(g) && g
                == (GroupV {
                key: key.deep_view(),
                revision,
                title: title.deep_view(),
                avatar: avatar_fetch->0.deep_view(),
                members: Seq::new(members.deep_view().len(), |i: int| members.deep_view()[i]->0),
            })) && final(self).as_map() == old(self).as_map().insert(
                ThreadV::Group(key.deep_view()),
                c.deep_view(),
            )),
    {
        proof {
            crate::message::lemma_bytes_deep_view(key);
        }
        let avatar = match avatar_fetch {
            Some(a) => a,
            None => {
                return None;
            },
        };
        let mut resolved: Vec<Contact> = Vec::new();
        let mut i: usize = 0;
        while i < members.len()
            invariant
                i <= members.len(),
                forall|j: int| 0 <= j < i ==> members@[j] is Some,
                resolved@.len() == i,
                forall|j: int| 0 <= j < i ==> #[trigger] resolved.deep_view()[j]
                    == members.deep_view()[j]->0,
            decreases members.len() - i,
        {
            proof {
                crate::message::lemma_vec_deep_view(resolved);
                crate::message::lemma_vec_deep_view(members);
            }
            let ghost prev = resolved;
            match &members[i] {
                Some(c) => {
                    resolved.push(c.clone());
                    proof {
                        crate::message::lemma_vec_deep_view(resolved);
                        assert(members@[i as int] == Some(*c));
                        assert(members.deep_view()[i as int] == Some(c.deep_view()));
                        assert(resolved@[i as int].deep_view() == c.deep_view());
                        assert(resolved.deep_view()[i as int] == c.deep_view());
                        assert forall|j: int| 0 <= j < i implies #[trigger] resolved.deep_view()[j]
                            == members.deep_view()[j]->0 by {
                            assert(resolved@[j] == prev@[j]);
                            assert(prev.deep_view()[j] == members.deep_view()[j]->0);
                        }
                    }
                },
                None => {
                    proof {
                        assert(members@[i as int] is None);
                    }
                    return None;
                },
            }
            i += 1;
        }
        let group = Group { key, revision, title, avatar, members: resolved };
        proof {
            assert(group.deep_view().members =~= Seq::new(
                members.deep_view().len(),
                |i: int| members.deep_view()[i]->0,
            ));
        }
        let chat = Chat::Group(group);
        let r = chat.clone();
        self.put(chat);
        Some(r)
    }
}

/// Idempotent contact resolution: once a fetched contact has been applied to
/// the cache, resolving the same identifier again is answered from the cache
/// alone — exactly one backend fetch happens for a contact.
pub proof fn lemma_contact_resolution_idempotent(
    m: Map<ThreadV, ChatV>,
    uuid: u128,
    profile_key: Option<Seq<u8>>,
    fetched: ChatV,
    later_key: Option<Seq<u8>>,
)
    requires
        spec_resolve_contact(m, uuid, profile_key) is Fetch,
    ensures
        spec_resolve_contact(m.insert(ThreadV::Contact(uuid), fetched), uuid, later_key)
            == ContactResolutionV::Cached(fetched),
{
}

/// Group staleness: a cached group at revision `n` answers an envelope
/// citing revision `n` from the cache, and an envelope citing any other
/// revision always triggers a full refresh.
pub proof fn lemma_group_staleness(
    m: Map<ThreadV, ChatV>,
    key: Seq<u8>,
    g: GroupV,
    cited: u32,
)
    requires
        key.len() == KEY_LEN,
        m.contains_key(ThreadV::Group(key)),
        m[ThreadV::Group(key)] == ChatV::Group(g),
    ensures
        cited == g.revision ==> spec_resolve_group(m, Some(key), cited)
            == GroupResolutionV::Cached(ChatV::Group(g)),
        cited != g.revision ==> spec_resolve_group(m, Some(key), cited)
            == GroupResolutionV::Refresh(key, cited),
{
}

} // verus!
