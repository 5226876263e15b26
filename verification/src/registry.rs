use vstd::prelude::*;

use crate::service::{CreateServiceData, CreateView, Service, ServiceView, Timestamp};

verus! {

/// The fixed per-owner ceiling: no owner may hold more service rows than
/// this at the instant a new row is committed.
pub const BOTS_COUNT_LIMIT: i64 = 5;

/// The mathematical state of the store: the rows in id order, and the id
/// the store will assign next.
#[verifier::ext_equal]
pub struct ModelState {
    pub services: Seq<ServiceView>,
    pub next_id: int,
}

/// Why a creation was refused.
#[derive(Clone, Copy, PartialEq, Eq, Structural, Debug)]
pub enum RegistryError {
    /// The owner already holds the ceiling's worth of rows.
    QuotaExceeded,
    /// Every assignable 32-bit id has been handed out; the store can take
    /// no further row.
    IdSpaceExhausted,
}

/// How many of the rows belong to `user`.
pub open spec fn user_count(s: Seq<ServiceView>, user: int) -> int
    decreases s.len(),
{
    if s.len() == 0 {
        0
    } else {
        user_count(s.drop_last(), user) + if s.last().user == user {
            1int
        } else {
            0int
        }
    }
}

/// Row ids strictly increase from front to back.
pub open spec fn ids_ascending(s: Seq<ServiceView>) -> bool {
    forall|i: int, j: int| 0 <= i < j < s.len() ==> s[i].id < s[j].id
}

/// Some row carries `id`.
pub open spec fn has_id(s: Seq<ServiceView>, id: int) -> bool {
    exists|i: int| 0 <= i < s.len() && (#[trigger] s[i]).id == id
}

/// The position of the row carrying `id` (meaningful only when `has_id`).
pub open spec fn id_index(s: Seq<ServiceView>, id: int) -> int {
    choose|i: int| 0 <= i < s.len() && (#[trigger] s[i]).id == id
}

/// The store's well-formedness: rows in strictly ascending id order, every
/// id positive and below the next to be assigned, and no owner over the
/// ceiling.
pub open spec fn wf_state(st: ModelState) -> bool {
    &&& ids_ascending(st.services)
    &&& forall|i: int|
        0 <= i < st.services.len() ==> 1 <= (#[trigger] st.services[i]).id < st.next_id
    &&& 1 <= st.next_id <= i32::MAX
    &&& forall|u: int| #[trigger] user_count(st.services, u) <= BOTS_COUNT_LIMIT as int
}

/// The row carrying `id`, if any.
pub open spec fn st_lookup(s: Seq<ServiceView>, id: int) -> Option<ServiceView> {
    if has_id(s, id) {
        Some(s[id_index(s, id)])
    } else {
        None
    }
}

/// The rows after a hard delete of `id`; unchanged when `id` is absent.
pub open spec fn st_remove(s: Seq<ServiceView>, id: int) -> Seq<ServiceView> {
    if has_id(s, id) {
        s.remove(id_index(s, id))
    } else {
        s
    }
}

/// `v` with only its `status` field rewritten.
pub open spec fn with_status(v: ServiceView, status: Seq<char>) -> ServiceView {
    ServiceView { status, ..v }
}

/// `v` with only its `cache` field rewritten.
pub open spec fn with_cache(v: ServiceView, cache: Seq<char>) -> ServiceView {
    ServiceView { cache, ..v }
}

/// The rows after rewriting the `status` of the row carrying `id`.
pub open spec fn st_update_status(s: Seq<ServiceView>, id: int, status: Seq<char>) -> Seq<
    ServiceView,
> {
    if has_id(s, id) {
        s.update(id_index(s, id), with_status(s[id_index(s, id)], status))
    } else {
        s
    }
}

/// The rows after rewriting the `cache` of the row carrying `id`.
pub open spec fn st_update_cache(s: Seq<ServiceView>, id: int, cache: Seq<char>) -> Seq<
    ServiceView,
> {
    if has_id(s, id) {
        s.update(id_index(s, id), with_cache(s[id_index(s, id)], cache))
    } else {
        s
    }
}

/// The record a creation in state `st` commits: the caller's fields, the
/// store-assigned id, and the store-set creation time.
pub open spec fn new_service_view(st: ModelState, data: CreateView, now: Timestamp) -> ServiceView {
    ServiceView {
        id: st.next_id,
        token: data.token,
        user: data.user,
        status: data.status,
        created_time: now,
        cache: data.cache,
        username: data.username,
    }
}

/// The store after a successful creation.
pub open spec fn st_create(st: ModelState, data: CreateView, now: Timestamp) -> ModelState {
    ModelState {
        services: st.services.push(new_service_view(st, data, now)),
        next_id: st.next_id + 1,
    }
}

/// The owner is under the ceiling, so a creation may commit.
pub open spec fn can_create(st: ModelState, user: int) -> bool {
    user_count(st.services, user) < BOTS_COUNT_LIMIT as int
}

/// The store still has a fresh id to assign.
pub open spec fn ids_available(st: ModelState) -> bool {
    st.next_id < i32::MAX as int
}

pub proof fn lemma_user_count_nonneg(s: Seq<ServiceView>, u: int)
    ensures
        user_count(s, u) >= 0,
    decreases s.len(),
{
    if s.len() > 0 {
        lemma_user_count_nonneg(s.drop_last(), u);
    }
}

pub proof fn lemma_user_count_push(s: Seq<ServiceView>, v: ServiceView, u: int)
    ensures
        user_count(s.push(v), u) == user_count(s, u) + if v.user == u {
            1int
        } else {
            0int
        },
{
    assert(s.push(v).drop_last() =~= s);
    assert(s.push(v).last() == v);
}

pub proof fn lemma_user_count_remove(s: Seq<ServiceView>, i: int, u: int)
    requires
        0 <= i < s.len(),
    ensures
        user_count(s.remove(i), u) == user_count(s, u) - if s[i].user == u {
            1int
        } else {
            0int
        },
    decreases s.len(),
{
    if i == s.len() - 1 {
        assert(s.remove(i) =~= s.drop_last());
    } else {
        assert(s.remove(i).drop_last() =~= s.drop_last().remove(i));
        assert(s.remove(i).last() == s.last());
        lemma_user_count_remove(s.drop_last(), i, u);
        assert(s.drop_last()[i] == s[i]);
    }
}

pub proof fn lemma_user_count_update(s: Seq<ServiceView>, i: int, v: ServiceView, u: int)
    requires
        0 <= i < s.len(),
        v.user == s[i].user,
    ensures
        user_count(s.update(i, v), u) == user_count(s, u),
    decreases s.len(),
{
    if i == s.len() - 1 {
        assert(s.update(i, v).drop_last() =~= s.drop_last());
        assert(s.update(i, v).last() == v);
    } else {
        assert(s.update(i, v).drop_last() =~= s.drop_last().update(i, v));
        assert(s.update(i, v).last() == s.last());
        assert(s.drop_last()[i] == s[i]);
        lemma_user_count_update(s.drop_last(), i, v, u);
    }
}

pub proof fn lemma_user_count_take_step(s: Seq<ServiceView>, i: int, u: int)
    requires
        0 <= i < s.len(),
    ensures
        user_count(s.take(i + 1), u) == user_count(s.take(i), u) + if s[i].user == u {
            1int
        } else {
            0int
        },
{
    assert(s.take(i + 1).drop_last() =~= s.take(i));
    assert(s.take(i + 1).last() == s[i]);
}

/// In an id-ascending row sequence the row carrying an id is unique, so
/// `id_index` names exactly the position where the id was found.
pub proof fn lemma_id_index_unique(s: Seq<ServiceView>, id: int, i: int)
    requires
        ids_ascending(s),
        0 <= i < s.len(),
        s[i].id == id,
    ensures
        has_id(s, id),
        id_index(s, id) == i,
{
    assert(has_id(s, id));
    let k = id_index(s, id);
    if k < i {
        assert(s[k].id < s[i].id);
    } else if k > i {
        assert(s[i].id < s[k].id);
    }
}

/// The id a well-formed store will assign next is carried by no row: every
/// created service receives an id distinct from all rows present, and from
/// every id the store ever assigned before, since the next id only grows.
pub proof fn lemma_next_id_fresh(st: ModelState)
    requires
        wf_state(st),
    ensures
        !has_id(st.services, st.next_id),
{
    if has_id(st.services, st.next_id) {
        let i = id_index(st.services, st.next_id);
        assert(0 <= i < st.services.len() && st.services[i].id == st.next_id);
        assert(st.services[i].id < st.next_id);
    }
}

/// Looking up the id just created returns exactly the created record.
pub proof fn lemma_get_after_create(st: ModelState, data: CreateView, now: Timestamp)
    requires
        wf_state(st),
    ensures
        st_lookup(st_create(st, data, now).services, new_service_view(st, data, now).id)
            == Some(new_service_view(st, data, now)),
{
    let v = new_service_view(st, data, now);
    let s2 = st_create(st, data, now).services;
    assert(s2[s2.len() - 1] == v);
    assert(ids_ascending(s2)) by {
        assert forall|i: int, j: int| 0 <= i < j < s2.len() implies s2[i].id < s2[j].id by {
            if j < s2.len() - 1 {
                assert(s2[i] == st.services[i] && s2[j] == st.services[j]);
            } else {
                assert(s2[i] == st.services[i]);
            }
        }
    }
    lemma_id_index_unique(s2, v.id, s2.len() - 1);
}

/// After a hard delete of `id`, a lookup of `id` finds nothing.
pub proof fn lemma_get_after_delete(st: ModelState, id: int)
    requires
        wf_state(st),
    ensures
        st_lookup(st_remove(st.services, id), id) == None::<ServiceView>,
{
    let s = st.services;
    if has_id(s, id) {
        let i = id_index(s, id);
        assert(0 <= i < s.len() && s[i].id == id);
        let s2 = s.remove(i);
        assert forall|a: int| 0 <= a < s2.len() implies (#[trigger] s2[a]).id != id by {
            if a < i {
                assert(s2[a] == s[a]);
                assert(s[a].id < s[i].id);
            } else {
                assert(s2[a] == s[a + 1]);
                assert(s[i].id < s[a + 1].id);
            }
        }
        if has_id(s2, id) {
            let b = id_index(s2, id);
            assert(0 <= b < s2.len() && s2[b].id == id);
        }
    }
}

/// Applying the same status update twice yields the same rows as applying
/// it once.
pub proof fn lemma_update_status_idempotent(s: Seq<ServiceView>, id: int, status: Seq<char>)
    requires
        ids_ascending(s),
    ensures
        st_update_status(st_update_status(s, id, status), id, status) == st_update_status(
            s,
            id,
            status,
        ),
{
    if has_id(s, id) {
        let i = id_index(s, id);
        assert(0 <= i < s.len() && s[i].id == id);
        let s1 = s.update(i, with_status(s[i], status));
        assert(ids_ascending(s1)) by {
            assert forall|a: int, b: int| 0 <= a < b < s1.len() implies s1[a].id < s1[b].id by {
                assert(s1[a].id == s[a].id && s1[b].id == s[b].id);
            }
        }
        lemma_id_index_unique(s1, id, i);
        assert(st_update_status(s1, id, status) =~= s1);
    } else {
        assert(st_update_status(s, id, status) == s);
    }
}

/// A status update rewrites exactly the `status` field of exactly the
/// targeted row: its other fields, and every other row, are unchanged.
pub proof fn lemma_update_status_frame(s: Seq<ServiceView>, id: int, status: Seq<char>)
    requires
        ids_ascending(s),
        has_id(s, id),
    ensures
        st_update_status(s, id, status).len() == s.len(),
        forall|j: int|
            0 <= j < s.len() && j != id_index(s, id) ==> #[trigger] st_update_status(
                s,
                id,
                status,
            )[j] == s[j],
        st_update_status(s, id, status)[id_index(s, id)].status == status,
        st_update_status(s, id, status)[id_index(s, id)].id == s[id_index(s, id)].id,
        st_update_status(s, id, status)[id_index(s, id)].token == s[id_index(s, id)].token,
        st_update_status(s, id, status)[id_index(s, id)].user == s[id_index(s, id)].user,
        st_update_status(s, id, status)[id_index(s, id)].created_time == s[id_index(
            s,
            id,
        )].created_time,
        st_update_status(s, id, status)[id_index(s, id)].cache == s[id_index(s, id)].cache,
        st_update_status(s, id, status)[id_index(s, id)].username == s[id_index(s, id)].username,
{
    let i = id_index(s, id);
    assert(0 <= i < s.len() && s[i].id == id);
}

/// The cache analogue of the status frame law.
pub proof fn lemma_update_cache_frame(s: Seq<ServiceView>, id: int, cache: Seq<char>)
    requires
        ids_ascending(s),
        has_id(s, id),
    ensures
        st_update_cache(s, id, cache).len() == s.len(),
        forall|j: int|
            0 <= j < s.len() && j != id_index(s, id) ==> #[trigger] st_update_cache(s, id, cache)[j]
                == s[j],
        st_update_cache(s, id, cache)[id_index(s, id)].cache == cache,
        st_update_cache(s, id, cache)[id_index(s, id)].id == s[id_index(s, id)].id,
        st_update_cache(s, id, cache)[id_index(s, id)].token == s[id_index(s, id)].token,
        st_update_cache(s, id, cache)[id_index(s, id)].user == s[id_index(s, id)].user,
        st_update_cache(s, id, cache)[id_index(s, id)].created_time == s[id_index(
            s,
            id,
        )].created_time,
        st_update_cache(s, id, cache)[id_index(s, id)].status == s[id_index(s, id)].status,
{
    let i = id_index(s, id);
    assert(0 <= i < s.len() && s[i].id == id);
}


/// The quota decision on an owner's current row count: a creation may
/// commit only below the ceiling.
pub fn quota_allows(existing: i64) -> (r: bool)
    ensures
        r == (existing < BOTS_COUNT_LIMIT),
{
    existing < BOTS_COUNT_LIMIT
}

/// One gateway operation, as a relation on model states: nothing, a
/// creation that its gates admit, a hard delete, or a single-field update.
pub open spec fn st_step(pre: ModelState, post: ModelState) -> bool {
    ||| post == pre
    ||| creates(pre, post)
    ||| exists|id: int|
        post == (ModelState { services: #[trigger] st_remove(pre.services, id), next_id: pre.next_id })
    ||| exists|id: int, x: Seq<char>|
        post == (ModelState {
            services: #[trigger] st_update_status(pre.services, id, x),
            next_id: pre.next_id,
        })
    ||| exists|id: int, x: Seq<char>|
        post == (ModelState {
            services: #[trigger] st_update_cache(pre.services, id, x),
            next_id: pre.next_id,
        })
}

/// The step from `pre` to `post` commits a creation; the id it assigns is
/// `pre.next_id`.
pub open spec fn creates(pre: ModelState, post: ModelState) -> bool {
    exists|d: CreateView, t: Timestamp|
        can_create(pre, d.user) && ids_available(pre) && post == #[trigger] st_create(pre, d, t)
}

/// No single operation moves the next id backwards.
pub proof fn lemma_step_next_id(pre: ModelState, post: ModelState)
    requires
        st_step(pre, post),
    ensures
        post.next_id >= pre.next_id,
{
    if post == pre {
    } else if creates(pre, post) {
        let (d, t) = choose|d: CreateView, t: Timestamp|
            can_create(pre, d.user) && ids_available(pre) && post == #[trigger] st_create(
                pre,
                d,
                t,
            );
        assert(post == st_create(pre, d, t));
    }
}

/// Along any run of the store the next id never decreases.
pub proof fn lemma_next_id_monotone(tr: Seq<ModelState>, a: int, b: int)
    requires
        forall|k: int| 0 <= k < tr.len() - 1 ==> #[trigger] st_step(tr[k], tr[k + 1]),
        0 <= a <= b < tr.len(),
    ensures
        tr[a].next_id <= tr[b].next_id,
    decreases b - a,
{
    if a < b {
        lemma_step_next_id(tr[a], tr[a + 1]);
        lemma_next_id_monotone(tr, a + 1, b);
    }
}

/// An id the store assigns is unique across the store's whole history:
/// along any run of the store — states each reached from the one before by
/// one gateway operation — two creations at different instants assign
/// different ids, since a creation assigns exactly the next id of its
/// instant and moves past it, and no operation moves the next id back.
pub proof fn lemma_ids_unique_across_history(tr: Seq<ModelState>, i: int, j: int)
    requires
        forall|k: int| 0 <= k < tr.len() - 1 ==> #[trigger] st_step(tr[k], tr[k + 1]),
        0 <= i < j < tr.len() - 1,
        creates(tr[i], tr[i + 1]),
        creates(tr[j], tr[j + 1]),
    ensures
        tr[i].next_id != tr[j].next_id,
{
    let (d, t) = choose|d: CreateView, t: Timestamp|
        can_create(tr[i], d.user) && ids_available(tr[i]) && tr[i + 1] == #[trigger] st_create(
            tr[i],
            d,
            t,
        );
    assert(tr[i + 1] == st_create(tr[i], d, t));
    assert(tr[i + 1].next_id == tr[i].next_id + 1);
    lemma_next_id_monotone(tr, i + 1, j);
}

/// Indexing a vector of services' deep view is viewing the element.
pub broadcast proof fn lemma_vec_deep_view_index(v: &Vec<Service>, j: int)
    requires
        0 <= j < v@.len(),
    ensures
        #[trigger] v.deep_view()[j] == v@[j]@,
{
}

/// A vector of services and its deep view have one length.
pub broadcast proof fn lemma_vec_deep_view_len(v: &Vec<Service>)
    ensures
        #[trigger] v.deep_view().len() == v@.len(),
{
}

/// The in-memory persistence gateway: sole owner of record storage. Rows
/// are kept in ascending id order; ids are assigned by the store alone and
/// never reused.
pub struct Registry {
    services: Vec<Service>,
    next_id: i32,
}

impl View for Registry {
    type V = ModelState;

    closed spec fn view(&self) -> ModelState {
        ModelState { services: self.services.deep_view(), next_id: self.next_id as int }
    }
}

impl Registry {
    /// The store's well-formedness, established by `new` and preserved by
    /// every operation.
    pub open spec fn wf(&self) -> bool {
        wf_state(self@)
    }

    /// An empty store, ready to assign id 1.
    pub fn new() -> (r: Registry)
        ensures
            r.wf(),
            r@.services =~= Seq::<ServiceView>::empty(),
            r@.next_id == 1,
    {
        broadcast use lemma_vec_deep_view_len;

        let r = Registry { services: Vec::new(), next_id: 1 };
        proof {
            assert(r@.services =~= Seq::<ServiceView>::empty());
            assert forall|u: int| #[trigger] user_count(r@.services, u)
                <= BOTS_COUNT_LIMIT as int by {
                lemma_user_count_nonneg(r@.services, u);
            }
        }
        r
    }

    /// Every row, in ascending id order.
    pub fn list(&self) -> (r: Vec<Service>)
        requires
            self.wf(),
        ensures
            r.deep_view() == self@.services,
            ids_ascending(r.deep_view()),
    {
        broadcast use lemma_vec_deep_view_index, lemma_vec_deep_view_len;

        let n = self.services.len();
        let mut out: Vec<Service> = Vec::new();
        let mut i: usize = 0;
        while i < n
            invariant
                n == self.services.len(),
                0 <= i <= n,
                out@.len() == i,
                forall|j: int| 0 <= j < i ==> (#[trigger] out@[j])@ == self@.services[j],
            decreases n - i,
        {
            out.push(self.services[i].duplicate());
            i = i + 1;
        }
        proof {
            assert(out.deep_view() =~= self@.services);
        }
        out
    }

    /// How many rows `user` owns.
    pub fn count_for_user(&self, user: i64) -> (r: u64)
        ensures
            r == user_count(self@.services, user as int),
    {
        broadcast use lemma_vec_deep_view_index, lemma_vec_deep_view_len;

        let n = self.services.len();
        let mut cnt: u64 = 0;
        let mut i: usize = 0;
        while i < n
            invariant
                n == self.services.len(),
                0 <= i <= n,
                cnt <= i,
                cnt == user_count(self@.services.take(i as int), user as int),
            decreases n - i,
        {
            proof {
                lemma_user_count_take_step(self@.services, i as int, user as int);
            }
            if self.services[i].user == user {
                cnt = cnt + 1;
            }
            i = i + 1;
        }
        proof {
            assert(self@.services.take(n as int) =~= self@.services);
        }
        cnt
    }

    /// The position of the row carrying `id`, or nothing.
    fn find_index(&self, id: i32) -> (r: Option<usize>)
        requires
            self.wf(),
        ensures
            match r {
                Some(i) => has_id(self@.services, id as int) && i < self@.services.len()
                    && id_index(self@.services, id as int) == i as int
                    && self@.services[i as int].id == id as int,
                None => !has_id(self@.services, id as int),
            },
    {
        broadcast use lemma_vec_deep_view_index, lemma_vec_deep_view_len;

        let n = self.services.len();
        let mut i: usize = 0;
        while i < n
            invariant
                self.wf(),
                n == self.services.len(),
                0 <= i <= n,
                forall|j: int| 0 <= j < i ==> (#[trigger] self@.services[j]).id != id as int,
            decreases n - i,
        {
            if self.services[i].id == id {
                proof {
                    lemma_id_index_unique(self@.services, id as int, i as int);
                }
                return Some(i);
            }
            i = i + 1;
        }
        proof {
            if has_id(self@.services, id as int) {
                let j = id_index(self@.services, id as int);
                assert(0 <= j < self@.services.len() && self@.services[j].id == id as int);
            }
        }
        None
    }

    /// The row carrying `id`, or nothing.
    pub fn get(&self, id: i32) -> (r: Option<Service>)
        requires
            self.wf(),
        ensures
            r.deep_view() == st_lookup(self@.services, id as int),
    {
        broadcast use lemma_vec_deep_view_index, lemma_vec_deep_view_len;

        match self.find_index(id) {
            Some(i) => Some(self.services[i].duplicate()),
            None => None,
        }
    }

    /// Removes the row carrying `id` and returns its prior state; nothing
    /// if no row carries `id`. Deletion is unconditional and hard.
    pub fn delete(&mut self, id: i32) -> (r: Option<Service>)
        requires
            old(self).wf(),
        ensures
            final(self).wf(),
            r.deep_view() == st_lookup(old(self)@.services, id as int),
            final(self)@.services == st_remove(old(self)@.services, id as int),
            final(self)@.next_id == old(self)@.next_id,
    {
        broadcast use lemma_vec_deep_view_index, lemma_vec_deep_view_len;

        match self.find_index(id) {
            Some(i) => {
                let ghost pre = self@;
                let removed = self.services.remove(i);
                proof {
                    assert(self@.services =~= pre.services.remove(i as int));
                    assert forall|a: int, b: int|
                        0 <= a < b < self@.services.len() implies self@.services[a].id
                        < self@.services[b].id by {
                        if b < i {
                        } else if a < i {
                            assert(self@.services[b] == pre.services[b + 1]);
                        } else {
                            assert(self@.services[a] == pre.services[a + 1]);
                            assert(self@.services[b] == pre.services[b + 1]);
                        }
                    }
                    assert forall|u: int| #[trigger] user_count(self@.services, u)
                        <= BOTS_COUNT_LIMIT as int by {
                        lemma_user_count_remove(pre.services, i as int, u);
                    }
                }
                Some(removed)
            },
            None => None,
        }
    }

    /// Commits a new row for `data` unless the owner is at the ceiling or
    /// the id space is spent; assigns a fresh id and sets `created_time`
    /// to `now`. The quota is checked before anything is inserted.
    pub fn create(&mut self, data: CreateServiceData, now: Timestamp) -> (r: Result<
        Service,
        RegistryError,
    >)
        requires
            old(self).wf(),
        ensures
            final(self).wf(),
            !can_create(old(self)@, data@.user) ==> r == Err::<Service, RegistryError>(
                RegistryError::QuotaExceeded,
            ) && final(self)@ == old(self)@,
            can_create(old(self)@, data@.user) && !ids_available(old(self)@) ==> r == Err::<
                Service,
                RegistryError,
            >(RegistryError::IdSpaceExhausted) && final(self)@ == old(self)@,
            can_create(old(self)@, data@.user) && ids_available(old(self)@) ==> (r matches Ok(s)
                && s@ == new_service_view(old(self)@, data@, now) && final(self)@ == st_create(
                old(self)@,
                data@,
                now,
            ) && !has_id(old(self)@.services, s@.id)),
    {
        broadcast use lemma_vec_deep_view_index, lemma_vec_deep_view_len;

        let cnt = self.count_for_user(data.user);
        proof {
            lemma_user_count_nonneg(self@.services, data.user as int);
        }
        if cnt >= 5 {
            return Err(RegistryError::QuotaExceeded);
        }
        if self.next_id == i32::MAX {
            return Err(RegistryError::IdSpaceExhausted);
        }
        proof {
            lemma_next_id_fresh(self@);
        }
        let ghost pre = self@;
        let id = self.next_id;
        self.next_id = id + 1;
        let svc = Service {
            id,
            token: data.token,
            user: data.user,
            status: data.status,
            created_time: now,
            cache: data.cache,
            username: data.username,
        };
        let out = svc.duplicate();
        self.services.push(svc);
        proof {
            let v = new_service_view(pre, data@, now);
            assert(self@.services =~= pre.services.push(v));
            assert(self@ =~= st_create(pre, data@, now));
            assert forall|a: int, b: int|
                0 <= a < b < self@.services.len() implies self@.services[a].id
                < self@.services[b].id by {
                if b < self@.services.len() - 1 {
                    assert(self@.services[a] == pre.services[a]);
                    assert(self@.services[b] == pre.services[b]);
                } else {
                    assert(self@.services[a] == pre.services[a]);
                }
            }
            assert forall|u: int| #[trigger] user_count(self@.services, u)
                <= BOTS_COUNT_LIMIT as int by {
                lemma_user_count_push(pre.services, v, u);
            }
        }
        Ok(out)
    }

    /// Rewrites exactly the `status` field of the row carrying `id` and
    /// returns the updated row; nothing if no row carries `id`.
    pub fn update_status(&mut self, id: i32, status: String) -> (r: Option<Service>)
        requires
            old(self).wf(),
        ensures
            final(self).wf(),
            final(self)@.services == st_update_status(old(self)@.services, id as int, status@),
            final(self)@.next_id == old(self)@.next_id,
            r.deep_view() == match st_lookup(old(self)@.services, id as int) {
                Some(v) => Some(with_status(v, status@)),
                None => None::<ServiceView>,
            },
    {
        broadcast use lemma_vec_deep_view_index, lemma_vec_deep_view_len;

        match self.find_index(id) {
            Some(i) => {
                let ghost pre = self@;
                let mut svc = self.services.remove(i);
                svc.status = status;
                let out = svc.duplicate();
                self.services.insert(i, svc);
                proof {
                    let upd = with_status(pre.services[i as int], status@);
                    assert(self@.services =~= pre.services.update(i as int, upd));
                    assert forall|a: int, b: int|
                        0 <= a < b < self@.services.len() implies self@.services[a].id
                        < self@.services[b].id by {
                        assert(self@.services[a].id == pre.services[a].id);
                        assert(self@.services[b].id == pre.services[b].id);
                    }
                    assert forall|u: int| #[trigger] user_count(self@.services, u)
                        <= BOTS_COUNT_LIMIT as int by {
                        lemma_user_count_update(pre.services, i as int, upd, u);
                    }
                }
                Some(out)
            },
            None => None,
        }
    }

    /// Rewrites exactly the `cache` field of the row carrying `id` and
    /// returns the updated row; nothing if no row carries `id`.
    pub fn update_cache(&mut self, id: i32, cache: String) -> (r: Option<Service>)
        requires
            old(self).wf(),
        ensures
            final(self).wf(),
            final(self)@.services == st_update_cache(old(self)@.services, id as int, cache@),
            final(self)@.next_id == old(self)@.next_id,
            r.deep_view() == match st_lookup(old(self)@.services, id as int) {
                Some(v) => Some(with_cache(v, cache@)),
                None => None::<ServiceView>,
            },
    {
        broadcast use lemma_vec_deep_view_index, lemma_vec_deep_view_len;

        match self.find_index(id) {
            Some(i) => {
                let ghost pre = self@;
                let mut svc = self.services.remove(i);
                svc.cache = cache;
                let out = svc.duplicate();
                self.services.insert(i, svc);
                proof {
                    let upd = with_cache(pre.services[i as int], cache@);
                    assert(self@.services =~= pre.services.update(i as int, upd));
                    assert forall|a: int, b: int|
                        0 <= a < b < self@.services.len() implies self@.services[a].id
                        < self@.services[b].id by {
                        assert(self@.services[a].id == pre.services[a].id);
                        assert(self@.services[b].id == pre.services[b].id);
                    }
                    assert forall|u: int| #[trigger] user_count(self@.services, u)
                        <= BOTS_COUNT_LIMIT as int by {
                        lemma_user_count_update(pre.services, i as int, upd, u);
                    }
                }
                Some(out)
            },
            None => None,
        }
    }
}

} // verus!
