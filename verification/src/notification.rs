//! In-app notifications: who receives them, and each user's inbox (listing,
//! unread count, marking as read).
use vstd::prelude::*;
use crate::agent::{json_quote, json_quoted};
use crate::auth::Id;
use crate::text::{cat, cat3, chars_of, find_char, idx_of, owned, slice_range, string_from_chars};

verus! {

/// A notification delivered to one user.  `payload` is JSON text.
pub struct Notification {
    pub id: Id,
    pub user_id: Id,
    pub tenant_id: Option<Id>,
    pub event_type: String,
    pub title: String,
    pub description: String,
    pub payload: String,
    pub related_id: Option<Id>,
    pub is_read: bool,
}

impl Notification {
    pub fn copy(&self) -> (r: Notification)
        ensures
            r == *self,
    {
        Notification {
            id: self.id,
            user_id: self.user_id,
            tenant_id: self.tenant_id,
            event_type: self.event_type.clone(),
            title: self.title.clone(),
            description: self.description.clone(),
            payload: self.payload.clone(),
            related_id: self.related_id,
            is_read: self.is_read,
        }
    }
}

// ─── Recipients ────────────────────────────────────────────────────────────

pub open spec fn not_excluded(exclude: Option<Id>) -> spec_fn(Id) -> bool {
    |u: Id| exclude != Some(u)
}

/// The recipients among `ids`, in order, without the excluded user (the one who caused the
/// event).
pub fn recipients(ids: &Vec<Id>, exclude: Option<Id>) -> (r: Vec<Id>)
    ensures
        r@ == ids@.filter(not_excluded(exclude)),
{
    let mut out: Vec<Id> = Vec::new();
    let mut i: usize = 0;
    while i < ids.len()
        invariant
            i <= ids.len(),
            out@ == ids@.take(i as int).filter(not_excluded(exclude)),
        decreases ids.len() - i,
    {
        let u = ids[i];
        let skip = match exclude {
            Some(x) => x == u,
            None => false,
        };
        proof {
            assert(ids@.take(i + 1) =~= ids@.take(i as int).push(u));
            ids@.take(i as int).lemma_filter_push(u, not_excluded(exclude));
        }
        if !skip {
            out.push(u);
        }
        i = i + 1;
    }
    proof {
        assert(ids@.take(ids@.len() as int) =~= ids@);
    }
    out
}

/// The role filters that find the holders of `permission` ("category.action"): the permission
/// itself, its category's wildcard "category.*", and "*", each as a JSON array.
pub open spec fn permission_filters_of(permission: Seq<char>) -> (Seq<char>, Seq<char>, Seq<char>) {
    let category = permission.take(idx_of(permission, '.', 0));
    (
        seq!['['] + json_quoted(permission) + seq![']'],
        seq!['['] + json_quoted(category + ".*"@) + seq![']'],
        "[\"*\"]"@,
    )
}

pub fn permission_filters(permission: &str) -> (r: (String, String, String))
    ensures
        (r.0@, r.1@, r.2@) == permission_filters_of(permission@),
{
    let v = chars_of(permission);
    let dot = find_char(v.as_slice(), '.', 0);
    let category = string_from_chars(slice_range(v.as_slice(), 0, dot).as_slice());
    let wildcard = cat(category.as_str(), ".*");
    let p = cat3("[", json_quote(permission).as_str(), "]");
    let w = cat3("[", json_quote(wildcard.as_str()).as_str(), "]");
    proof {
        reveal_strlit("[");
        reveal_strlit("]");
        assert("["@ =~= seq!['[']);
        assert("]"@ =~= seq![']']);
    }
    (p, w, owned("[\"*\"]"))
}

/// Whether a notification is streamed to a subscriber: only to its own user.
pub fn delivered_to(notification: &Notification, subscriber: Id) -> (b: bool)
    ensures
        b == (notification.user_id == subscriber),
{
    notification.user_id == subscriber
}

// ─── The inbox ─────────────────────────────────────────────────────────────

/// The query of an inbox page.
pub struct NotificationListQuery {
    pub limit: Option<i64>,
    pub offset: Option<i64>,
}

impl NotificationListQuery {
    /// The page asked for: at most 200 notifications (50 by default) from offset 0 by default;
    /// none when a negative limit or offset is given (the database refuses those).
    pub fn page(&self) -> (r: Option<(u64, u64)>)
        ensures
            ({
                let limit = match self.limit {
                    Some(l) => if l < 200 { l } else { 200 },
                    None => 50,
                };
                let offset = match self.offset {
                    Some(o) => o,
                    None => 0,
                };
                match r {
                    Some((l, o)) => limit >= 0 && offset >= 0 && l == limit && o == offset,
                    None => limit < 0 || offset < 0,
                }
            }),
    {
        let limit: i64 = match self.limit {
            Some(l) => if l < 200 { l } else { 200 },
            None => 50,
        };
        let offset: i64 = match self.offset {
            Some(o) => o,
            None => 0,
        };
        if limit < 0 || offset < 0 {
            None
        } else {
            Some((limit as u64, offset as u64))
        }
    }
}

/// Whether a notification is an unread one of `user`.
pub open spec fn unread_of(n: Notification, user: Id) -> bool {
    n.user_id == user && !n.is_read
}

/// The number of unread notifications of `user`.
pub open spec fn unread_count(s: Seq<Notification>, user: Id) -> nat
    decreases s.len(),
{
    if s.len() == 0 {
        0
    } else {
        unread_count(s.drop_last(), user) + if unread_of(s.last(), user) { 1nat } else { 0 }
    }
}

/// `n` marked read when it is one of `user`'s.
pub open spec fn read_by(n: Notification, user: Id) -> Notification {
    if n.user_id == user {
        Notification { is_read: true, ..n }
    } else {
        n
    }
}

/// The notifications of `user`, newest first.
pub open spec fn inbox(s: Seq<Notification>, user: Id) -> Seq<Notification>
    decreases s.len(),
{
    if s.len() == 0 {
        Seq::empty()
    } else {
        (if s.last().user_id == user { seq![s.last()] } else { Seq::empty() }) + inbox(s.drop_last(), user)
    }
}

/// The page of `s` that skips `offset` items and keeps at most `limit`.
pub open spec fn page_of(s: Seq<Notification>, limit: u64, offset: u64) -> Seq<Notification> {
    let rest = s.skip(if offset < s.len() { offset as int } else { s.len() as int });
    rest.take(if limit < rest.len() { limit as int } else { rest.len() as int })
}

/// The notifications of all users, in the order they were created; ids are unique.
pub struct NotificationStore {
    items: Vec<Notification>,
}

impl View for NotificationStore {
    type V = Seq<Notification>;

    closed spec fn view(&self) -> Seq<Notification> {
        self.items@
    }
}

impl NotificationStore {
    pub open spec fn wf(&self) -> bool {
        forall|i: int, j: int| 0 <= i < j < self@.len() ==> self@[i].id != self@[j].id
    }

    pub open spec fn has_id(&self, id: Id) -> bool {
        exists|i: int| 0 <= i < self@.len() && self@[i].id == id
    }

    pub fn new() -> (r: NotificationStore)
        ensures
            r@ == Seq::<Notification>::empty(),
            r.wf(),
    {
        NotificationStore { items: Vec::new() }
    }

    /// Delivers a new, unread notification (the id is fresh); gives a copy for live delivery.
    pub fn notify_user(
        &mut self,
        id: Id,
        user_id: Id,
        tenant_id: Option<Id>,
        event_type: &str,
        title: &str,
        description: &str,
        payload: &str,
        related_id: Option<Id>,
    ) -> (r: Notification)
        requires
            old(self).wf(),
            !old(self).has_id(id),
        ensures
            final(self).wf(),
            r.id == id && r.user_id == user_id && r.tenant_id == tenant_id && r.event_type@ == event_type@ && r.title@ == title@
                && r.description@ == description@ && r.payload@ == payload@ && r.related_id == related_id && !r.is_read,
            final(self)@ == old(self)@.push(r),
    {
        let n = Notification {
            id,
            user_id,
            tenant_id,
            event_type: owned(event_type),
            title: owned(title),
            description: owned(description),
            payload: owned(payload),
            related_id,
            is_read: false,
        };
        let r = n.copy();
        self.items.push(n);
        r
    }

    /// The page of `user`'s notifications, newest first, skipping `offset` and keeping `limit`.
    pub fn list(&self, user: Id, limit: u64, offset: u64) -> (r: Vec<Notification>)
        ensures
            r@ == page_of(inbox(self@, user), limit, offset),
    {
        let ghost all = self.items@;
        let mut mine: Vec<Notification> = Vec::new();
        let mut i: usize = self.items.len();
        proof {
            assert(all.take(all.len() as int) =~= all);
        }
        while i > 0
            invariant
                i <= self.items.len(),
                all == self.items@,
                inbox(all, user) == mine@ + inbox(all.take(i as int), user),
            decreases i,
        {
            let n = &self.items[i - 1];
            proof {
                assert(all.take(i as int).drop_last() =~= all.take(i - 1));
                assert(all.take(i as int).last() == all[i - 1]);
            }
            if n.user_id == user {
                let c = n.copy();
                mine.push(c);
            }
            proof {
                assert(inbox(all, user) =~= mine@ + inbox(all.take(i - 1), user));
            }
            i = i - 1;
        }
        proof {
            assert(inbox(all.take(0), user) =~= Seq::<Notification>::empty());
            assert(mine@ =~= inbox(all, user));
        }
        let ghost m = mine@;
        let start: usize = if offset < mine.len() as u64 { offset as usize } else { mine.len() };
        let mut out: Vec<Notification> = Vec::new();
        let mut k: usize = start;
        while k < mine.len() && (out.len() as u64) < limit
            invariant
                start <= k <= mine.len(),
                m == mine@,
                out@ == m.subrange(start as int, k as int),
                out@.len() == k - start,
                out@.len() <= limit,
            decreases mine.len() - k,
        {
            out.push(mine[k].copy());
            proof {
                assert(out@ =~= m.subrange(start as int, k + 1));
            }
            k = k + 1;
        }
        proof {
            assert(m =~= inbox(self@, user));
            if k == mine.len() {
                assert(out@ =~= m.skip(start as int));
            } else {
                assert(out@.len() == limit);
            }
            assert(out@ =~= page_of(m, limit, offset));
        }
        out
    }

    /// The number of `user`'s unread notifications.
    pub fn count_unread(&self, user: Id) -> (r: u64)
        requires
            self@.len() < u64::MAX,
        ensures
            r == unread_count(self@, user),
    {
        let mut c: u64 = 0;
        let mut i: usize = 0;
        while i < self.items.len()
            invariant
                i <= self.items.len(),
                self.items@.len() < u64::MAX,
                c == unread_count(self.items@.take(i as int), user),
                c <= i,
            decreases self.items.len() - i,
        {
            proof {
                assert(self.items@.take(i + 1).drop_last() =~= self.items@.take(i as int));
            }
            if self.items[i].user_id == user && !self.items[i].is_read {
                c = c + 1;
            }
            i = i + 1;
        }
        proof {
            assert(self.items@.take(self.items@.len() as int) =~= self.items@);
        }
        c
    }

    /// Marks `user`'s notification `id` read; true when it was unread.
    pub fn mark_read(&mut self, user: Id, id: Id) -> (r: bool)
        requires
            old(self).wf(),
        ensures
            final(self).wf(),
            r == exists|i: int| 0 <= i < old(self)@.len() && old(self)@[i].id == id && unread_of(old(self)@[i], user),
            r ==> exists|i: int| 0 <= i < old(self)@.len() && old(self)@[i].id == id
                && final(self)@ == old(self)@.update(i, Notification { is_read: true, ..old(self)@[i] }),
            !r ==> final(self)@ == old(self)@,
    {
        let mut i: usize = 0;
        while i < self.items.len()
            invariant
                i <= self.items.len(),
                self.items@ == old(self).items@,
                self.wf(),
                forall|j: int| 0 <= j < i ==> !(self.items@[j].id == id && unread_of(self.items@[j], user)),
            decreases self.items.len() - i,
        {
            if self.items[i].id == id && self.items[i].user_id == user && !self.items[i].is_read {
                let mut n = self.items[i].copy();
                n.is_read = true;
                let ghost before = self.items@;
                self.items.set(i, n);
                proof {
                    assert(self.items@ == before.update(i as int, Notification { is_read: true, ..before[i as int] }));
                    assert forall|a: int, b: int| 0 <= a < b < self@.len() implies self@[a].id != self@[b].id by {
                        assert(before[a].id != before[b].id);
                    }
                }
                return true;
            }
            i = i + 1;
        }
        false
    }

    /// Marks all of `user`'s notifications read; gives how many were unread.
    pub fn mark_all_read(&mut self, user: Id) -> (r: u64)
        requires
            old(self).wf(),
            old(self)@.len() < u64::MAX,
        ensures
            final(self).wf(),
            r == unread_count(old(self)@, user),
            final(self)@ == old(self)@.map_values(|n: Notification| read_by(n, user)),
    {
        let ghost orig = self.items@;
        let mut c: u64 = 0;
        let mut i: usize = 0;
        while i < self.items.len()
            invariant
                i <= self.items.len(),
                orig.len() < u64::MAX,
                self.items@.len() == orig.len(),
                forall|j: int| 0 <= j < i ==> self.items@[j] == read_by(orig[j], user),
                forall|j: int| i <= j < orig.len() ==> self.items@[j] == orig[j],
                c == unread_count(orig.take(i as int), user),
                c <= i,
            decreases self.items.len() - i,
        {
            proof {
                assert(orig.take(i + 1).drop_last() =~= orig.take(i as int));
            }
            if self.items[i].user_id == user {
                if !self.items[i].is_read {
                    c = c + 1;
                }
                let mut n = self.items[i].copy();
                n.is_read = true;
                self.items.set(i, n);
            }
            i = i + 1;
        }
        proof {
            assert(orig.take(orig.len() as int) =~= orig);
            assert(self.items@ =~= orig.map_values(|n: Notification| read_by(n, user)));
            assert forall|a: int, b: int| 0 <= a < b < self@.len() implies self@[a].id != self@[b].id by {
                assert(orig[a].id != orig[b].id);
            }
        }
        c
    }
}

/// After all of a user's notifications are marked read, none of them is unread.
pub proof fn law_mark_all_read_clears(s: Seq<Notification>, user: Id)
    ensures
        unread_count(s.map_values(|n: Notification| read_by(n, user)), user) == 0,
    decreases s.len(),
{
    if s.len() > 0 {
        law_mark_all_read_clears(s.drop_last(), user);
        assert(s.map_values(|n: Notification| read_by(n, user)).drop_last() =~= s.drop_last().map_values(
            |n: Notification| read_by(n, user),
        ));
    }
}

/// Marking one user's notifications read leaves every other user's unread count unchanged.
pub proof fn law_mark_all_read_is_per_user(s: Seq<Notification>, user: Id, other: Id)
    requires
        other != user,
    ensures
        unread_count(s.map_values(|n: Notification| read_by(n, user)), other) == unread_count(s, other),
    decreases s.len(),
{
    if s.len() > 0 {
        law_mark_all_read_is_per_user(s.drop_last(), user, other);
        assert(s.map_values(|n: Notification| read_by(n, user)).drop_last() =~= s.drop_last().map_values(
            |n: Notification| read_by(n, user),
        ));
    }
}


/// A notification just delivered is the first of its user's inbox, is unread, and adds one to
/// that user's unread count; other users' inboxes do not change.
pub proof fn law_delivered_notification_listed_first(s: Seq<Notification>, n: Notification, other: Id)
    requires
        !n.is_read,
        other != n.user_id,
    ensures
        inbox(s.push(n), n.user_id)[0] == n,
        inbox(s.push(n), n.user_id).len() == inbox(s, n.user_id).len() + 1,
        unread_count(s.push(n), n.user_id) == unread_count(s, n.user_id) + 1,
        inbox(s.push(n), other) == inbox(s, other),
        unread_count(s.push(n), other) == unread_count(s, other),
{
    assert(s.push(n).drop_last() =~= s);
    assert(s.push(n).last() == n);
}

} // verus!
