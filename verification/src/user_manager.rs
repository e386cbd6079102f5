#![allow(non_snake_case)]

use vstd::prelude::*;
use crate::user::{BridgeUser, BridgeUserV, BridgeUserSaveForm, BridgeUserSaveFormV, str_eq};

verus! {

/// The error taxonomy of the identity store: an attempted create for an
/// existing (origin_id, platform) pair.
#[derive(Debug, Clone, Copy, PartialEq, Eq, Structural)]
pub enum BridgeError {
    DuplicateIdentity,
}

/// The view of a vector of users.
pub open spec fn users_view(s: Seq<BridgeUser>) -> Seq<BridgeUserV> {
    s.map_values(|u: BridgeUser| u@)
}

/// The index of the first record with the given canonical id.
pub open spec fn idx_by_id(s: Seq<BridgeUserV>, id: Seq<char>) -> Option<int>
    decreases s.len(),
{
    if s.len() == 0 {
        None
    } else if s[0].id == id {
        Some(0int)
    } else {
        match idx_by_id(s.drop_first(), id) {
            Some(i) => Some(i + 1),
            None => None,
        }
    }
}

/// The first record with the given canonical id.
pub open spec fn find_by_id(s: Seq<BridgeUserV>, id: Seq<char>) -> Option<BridgeUserV> {
    match idx_by_id(s, id) {
        Some(i) => Some(s[i]),
        None => None,
    }
}

pub open spec fn key_matches(u: BridgeUserV, origin_id: Seq<char>, platform: Seq<char>) -> bool {
    u.origin_id == origin_id && u.platform == platform
}

/// The index of the first record with the given unique key.
pub open spec fn idx_by_key(s: Seq<BridgeUserV>, origin_id: Seq<char>, platform: Seq<char>) -> Option<
    int,
>
    decreases s.len(),
{
    if s.len() == 0 {
        None
    } else if key_matches(s[0], origin_id, platform) {
        Some(0int)
    } else {
        match idx_by_key(s.drop_first(), origin_id, platform) {
            Some(i) => Some(i + 1),
            None => None,
        }
    }
}

/// The first record with the given unique key.
pub open spec fn find_by_key(s: Seq<BridgeUserV>, origin_id: Seq<char>, platform: Seq<char>) -> Option<
    BridgeUserV,
> {
    match idx_by_key(s, origin_id, platform) {
        Some(i) => Some(s[i]),
        None => None,
    }
}

pub open spec fn ref_matches(u: BridgeUserV, ref_id: Seq<char>, platform: Seq<char>) -> bool {
    u.ref_id == Some(ref_id) && u.platform == platform
}

/// The index of the first record linked to `ref_id` on `platform`; a record
/// with no link never matches.
pub open spec fn idx_by_ref(s: Seq<BridgeUserV>, ref_id: Seq<char>, platform: Seq<char>) -> Option<
    int,
>
    decreases s.len(),
{
    if s.len() == 0 {
        None
    } else if ref_matches(s[0], ref_id, platform) {
        Some(0int)
    } else {
        match idx_by_ref(s.drop_first(), ref_id, platform) {
            Some(i) => Some(i + 1),
            None => None,
        }
    }
}

pub open spec fn find_by_ref(s: Seq<BridgeUserV>, ref_id: Seq<char>, platform: Seq<char>) -> Option<
    BridgeUserV,
> {
    match idx_by_ref(s, ref_id, platform) {
        Some(i) => Some(s[i]),
        None => None,
    }
}

pub proof fn lemma_idx_by_id_exact(s: Seq<BridgeUserV>, id: Seq<char>, i: int)
    requires
        0 <= i < s.len(),
        s[i].id == id,
        forall|j: int| 0 <= j < i ==> s[j].id != id,
    ensures
        idx_by_id(s, id) == Some(i),
    decreases s.len(),
{
    if i > 0 {
        lemma_idx_by_id_exact(s.drop_first(), id, i - 1);
    }
}

pub proof fn lemma_idx_by_id_none(s: Seq<BridgeUserV>, id: Seq<char>)
    requires
        forall|j: int| 0 <= j < s.len() ==> s[j].id != id,
    ensures
        idx_by_id(s, id) is None,
    decreases s.len(),
{
    if s.len() > 0 {
        lemma_idx_by_id_none(s.drop_first(), id);
    }
}

pub proof fn lemma_idx_by_key_props(s: Seq<BridgeUserV>, o: Seq<char>, p: Seq<char>)
    ensures
        idx_by_key(s, o, p) matches Some(i) ==> 0 <= i < s.len() && key_matches(s[i], o, p)
            && forall|j: int| 0 <= j < i ==> !key_matches(s[j], o, p),
        idx_by_key(s, o, p) is None ==> forall|j: int|
            0 <= j < s.len() ==> !key_matches(s[j], o, p),
    decreases s.len(),
{
    if s.len() > 0 && !key_matches(s[0], o, p) {
        lemma_idx_by_key_props(s.drop_first(), o, p);
        let d = s.drop_first();
        match idx_by_key(d, o, p) {
            Some(i) => {
                assert(s[i + 1] == d[i]);
                assert forall|j: int| 0 <= j < i + 1 implies !key_matches(s[j], o, p) by {
                    if j > 0 {
                        assert(d[j - 1] == s[j]);
                    }
                }
            },
            None => {
                assert forall|j: int| 0 <= j < s.len() implies !key_matches(s[j], o, p) by {
                    if j > 0 {
                        assert(d[j - 1] == s[j]);
                    }
                }
            },
        }
    }
}

pub proof fn lemma_idx_by_key_exact(s: Seq<BridgeUserV>, o: Seq<char>, p: Seq<char>, i: int)
    requires
        0 <= i < s.len(),
        key_matches(s[i], o, p),
        forall|j: int| 0 <= j < i ==> !key_matches(s[j], o, p),
    ensures
        idx_by_key(s, o, p) == Some(i),
    decreases s.len(),
{
    if i > 0 {
        lemma_idx_by_key_exact(s.drop_first(), o, p, i - 1);
    }
}

pub proof fn lemma_idx_by_key_none(s: Seq<BridgeUserV>, o: Seq<char>, p: Seq<char>)
    requires
        forall|j: int| 0 <= j < s.len() ==> !key_matches(s[j], o, p),
    ensures
        idx_by_key(s, o, p) is None,
    decreases s.len(),
{
    if s.len() > 0 {
        lemma_idx_by_key_none(s.drop_first(), o, p);
    }
}

pub proof fn lemma_idx_by_ref_exact(s: Seq<BridgeUserV>, r: Seq<char>, p: Seq<char>, i: int)
    requires
        0 <= i < s.len(),
        ref_matches(s[i], r, p),
        forall|j: int| 0 <= j < i ==> !ref_matches(s[j], r, p),
    ensures
        idx_by_ref(s, r, p) == Some(i),
    decreases s.len(),
{
    if i > 0 {
        lemma_idx_by_ref_exact(s.drop_first(), r, p, i - 1);
    }
}

pub proof fn lemma_idx_by_ref_none(s: Seq<BridgeUserV>, r: Seq<char>, p: Seq<char>)
    requires
        forall|j: int| 0 <= j < s.len() ==> !ref_matches(s[j], r, p),
    ensures
        idx_by_ref(s, r, p) is None,
    decreases s.len(),
{
    if s.len() > 0 {
        lemma_idx_by_ref_none(s.drop_first(), r, p);
    }
}

/// No two records share the (origin_id, platform) key.
pub open spec fn unique_keys(s: Seq<BridgeUserV>) -> bool {
    forall|i: int, j: int|
        #![trigger s[i], s[j]]
        0 <= i < j < s.len() ==> !key_matches(s[j], s[i].origin_id, s[i].platform)
}

/// The record created from a form, with a freshly assigned id and no link.
pub open spec fn new_user(form: BridgeUserSaveFormV, fresh: Seq<char>) -> BridgeUserV {
    BridgeUserV {
        id: fresh,
        origin_id: form.origin_id,
        platform: form.platform,
        display_text: form.display_text,
        ref_id: None,
    }
}

/// The composite find-or-create step: the existing record for the form's key,
/// or the store extended by a new record under the fresh id.
pub open spec fn get_or_create(
    s: Seq<BridgeUserV>,
    form: BridgeUserSaveFormV,
    fresh: Seq<char>,
) -> (Seq<BridgeUserV>, BridgeUserV) {
    match find_by_key(s, form.origin_id, form.platform) {
        Some(u) => (s, u),
        None => (s.push(new_user(form, fresh)), new_user(form, fresh)),
    }
}

/// A matched record keeps its id and takes the batch record's mutable fields.
pub open spec fn upd_fields(u: BridgeUserV, r: BridgeUserV) -> BridgeUserV {
    BridgeUserV {
        id: u.id,
        origin_id: r.origin_id,
        platform: r.platform,
        display_text: r.display_text,
        ref_id: r.ref_id,
    }
}

/// One batch step: overwrite the first record with the same id, or skip.
pub open spec fn upsert_one(s: Seq<BridgeUserV>, r: BridgeUserV) -> Seq<BridgeUserV> {
    match idx_by_id(s, r.id) {
        Some(i) => s.update(i, upd_fields(s[i], r)),
        None => s,
    }
}

pub open spec fn upsert_count_one(s: Seq<BridgeUserV>, r: BridgeUserV) -> int {
    if idx_by_id(s, r.id) is Some {
        1
    } else {
        0
    }
}

/// The store after the whole batch, applied in order.
pub open spec fn apply_batch(s: Seq<BridgeUserV>, q: Seq<BridgeUserV>) -> Seq<BridgeUserV>
    decreases q.len(),
{
    if q.len() == 0 {
        s
    } else {
        apply_batch(upsert_one(s, q[0]), q.drop_first())
    }
}

/// How many batch records found a match, applied in order.
pub open spec fn batch_count(s: Seq<BridgeUserV>, q: Seq<BridgeUserV>) -> int
    decreases q.len(),
{
    if q.len() == 0 {
        0
    } else {
        upsert_count_one(s, q[0]) + batch_count(upsert_one(s, q[0]), q.drop_first())
    }
}

/// The canonical list of bridge users. Composite operations such as
/// find-or-create are single calls on `&mut self`, so a caller serialising
/// access (the store is meant to sit behind one lock) gets them atomically.
pub struct BridgeUserManager {
    bridge_users: Vec<BridgeUser>,
}

impl View for BridgeUserManager {
    type V = Seq<BridgeUserV>;

    closed spec fn view(&self) -> Seq<BridgeUserV> {
        users_view(self.bridge_users@)
    }
}

impl BridgeUserManager {
    /// An empty store.
    pub fn new() -> (r: BridgeUserManager)
        ensures
            r@ =~= Seq::<BridgeUserV>::empty(),
    {
        BridgeUserManager { bridge_users: Vec::new() }
    }

    /// Builds a store from previously persisted records, accepting them only
    /// when no two share the (origin_id, platform) key.
    pub fn from_records(users: Vec<BridgeUser>) -> (r: Option<BridgeUserManager>)
        ensures
            (match r {
                Some(m) => m@ == users_view(users@) && unique_keys(users_view(users@)),
                None => !unique_keys(users_view(users@)),
            }),
    {
        let ghost uv = users_view(users@);
        let n = users.len();
        let mut i: usize = 0;
        while i < n
            invariant
                i <= n,
                n == users@.len(),
                uv == users_view(users@),
                uv.len() == n,
                forall|a: int, b: int|
                    #![trigger uv[a], uv[b]]
                    0 <= a < b < uv.len() && a < i ==> !key_matches(
                        uv[b],
                        uv[a].origin_id,
                        uv[a].platform,
                    ),
            decreases n - i,
        {
            let mut j: usize = i + 1;
            while j < n
                invariant
                    i < n,
                    i + 1 <= j <= n,
                    n == users@.len(),
                    uv == users_view(users@),
                    uv.len() == n,
                    forall|b: int|
                        i < b < j ==> !key_matches(
                            #[trigger] uv[b],
                            uv[i as int].origin_id,
                            uv[i as int].platform,
                        ),
                decreases n - j,
            {
                let dup = str_eq(users[j].origin_id.as_str(), users[i].origin_id.as_str())
                    && str_eq(users[j].platform.as_str(), users[i].platform.as_str());
                if dup {
                    proof {
                        assert(uv[j as int] == users@[j as int]@);
                        assert(uv[i as int] == users@[i as int]@);
                        assert(key_matches(uv[j as int], uv[i as int].origin_id, uv[i as int].platform));
                        assert(!unique_keys(uv));
                    }
                    return None;
                }
                j = j + 1;
            }
            i = i + 1;
        }
        proof {
            assert(unique_keys(uv));
        }
        Some(BridgeUserManager { bridge_users: users })
    }

    /// A borrowed snapshot of all records, for persistence.
    pub fn records(&self) -> (r: &Vec<BridgeUser>)
        ensures
            users_view(r@) == self@,
    {
        &self.bridge_users
    }

    /// Exact lookup by canonical id; no match is not an error.
    pub fn get(&self, id: &str) -> (r: Option<BridgeUser>)
        ensures
            (match r {
                Some(u) => find_by_id(self@, id@) == Some(u@),
                None => find_by_id(self@, id@) is None,
            }),
    {
        let n = self.bridge_users.len();
        let mut t: usize = 0;
        while t < n
            invariant
                t <= n,
                n == self@.len(),
                n == self.bridge_users@.len(),
                forall|j: int| 0 <= j < t ==> #[trigger] self@[j].id != id@,
            decreases n - t,
        {
            if str_eq(self.bridge_users[t].id.as_str(), id) {
                let u = self.bridge_users[t].clone();
                proof {
                    lemma_idx_by_id_exact(self@, id@, t as int);
                }
                return Some(u);
            }
            t = t + 1;
        }
        proof {
            lemma_idx_by_id_none(self@, id@);
        }
        None
    }

    /// Exact lookup by the unique (origin_id, platform) key.
    pub fn like(&self, origin_id: &str, platform: &str) -> (r: Option<BridgeUser>)
        ensures
            (match r {
                Some(u) => find_by_key(self@, origin_id@, platform@) == Some(u@),
                None => find_by_key(self@, origin_id@, platform@) is None,
            }),
    {
        let n = self.bridge_users.len();
        let mut t: usize = 0;
        while t < n
            invariant
                t <= n,
                n == self@.len(),
                n == self.bridge_users@.len(),
                forall|j: int| 0 <= j < t ==> !key_matches(#[trigger] self@[j], origin_id@, platform@),
            decreases n - t,
        {
            let hit = str_eq(self.bridge_users[t].origin_id.as_str(), origin_id) && str_eq(
                self.bridge_users[t].platform.as_str(),
                platform,
            );
            if hit {
                let u = self.bridge_users[t].clone();
                proof {
                    lemma_idx_by_key_exact(self@, origin_id@, platform@, t as int);
                }
                return Some(u);
            }
            t = t + 1;
        }
        proof {
            lemma_idx_by_key_none(self@, origin_id@, platform@);
        }
        None
    }

    /// Finds the identity on `platform` linked to `ref_id`; a record without a
    /// link never matches.
    pub fn findByRefAndPlatform(&self, ref_id: &str, platform: &str) -> (r: Option<BridgeUser>)
        ensures
            (match r {
                Some(u) => find_by_ref(self@, ref_id@, platform@) == Some(u@),
                None => find_by_ref(self@, ref_id@, platform@) is None,
            }),
    {
        let n = self.bridge_users.len();
        let mut t: usize = 0;
        while t < n
            invariant
                t <= n,
                n == self@.len(),
                n == self.bridge_users@.len(),
                forall|j: int| 0 <= j < t ==> !ref_matches(#[trigger] self@[j], ref_id@, platform@),
            decreases n - t,
        {
            let hit = match &self.bridge_users[t].ref_id {
                Some(r) => str_eq(r.as_str(), ref_id) && str_eq(
                    self.bridge_users[t].platform.as_str(),
                    platform,
                ),
                None => false,
            };
            if hit {
                let u = self.bridge_users[t].clone();
                proof {
                    lemma_idx_by_ref_exact(self@, ref_id@, platform@, t as int);
                }
                return Some(u);
            }
            t = t + 1;
        }
        proof {
            lemma_idx_by_ref_none(self@, ref_id@, platform@);
        }
        None
    }

    /// Creates a new identity under a freshly assigned id. Fails with
    /// `DuplicateIdentity`, leaving the store unchanged, exactly when the
    /// form's (origin_id, platform) key is already present.
    pub fn save(&mut self, form: BridgeUserSaveForm) -> (r: Result<BridgeUser, BridgeError>)
        ensures
            (match r {
                Ok(u) => find_by_key(old(self)@, form.origin_id@, form.platform@) is None
                    && final(self)@ =~= old(self)@.push(u@) && u@ == new_user(form@, u@.id)
                    && u@.id.len() == 36,
                Err(e) => e == BridgeError::DuplicateIdentity && find_by_key(
                    old(self)@,
                    form.origin_id@,
                    form.platform@,
                ) is Some && final(self)@ == old(self)@,
            }),
            unique_keys(old(self)@) ==> unique_keys(final(self)@),
    {
        if self.like(form.origin_id.as_str(), form.platform.as_str()).is_some() {
            return Err(BridgeError::DuplicateIdentity);
        }
        let id = fresh_id();
        let user = BridgeUser {
            id,
            origin_id: form.origin_id,
            platform: form.platform,
            display_text: form.display_text,
            ref_id: None,
        };
        let copy = user.clone();
        self.bridge_users.push(user);
        proof {
            assert(self@ =~= old(self)@.push(copy@));
            lemma_idx_by_key_props(old(self)@, form.origin_id@, form.platform@);
            if unique_keys(old(self)@) {
                assert forall|i: int, j: int|
                    #![trigger self@[i], self@[j]]
                    0 <= i < j < self@.len() implies !key_matches(
                    self@[j],
                    self@[i].origin_id,
                    self@[i].platform,
                ) by {
                    if j == self@.len() - 1 {
                        assert(self@[i] == old(self)@[i]);
                        assert(!key_matches(old(self)@[i], form.origin_id@, form.platform@));
                        assert(self@[j] == copy@);
                    } else {
                        assert(self@[i] == old(self)@[i]);
                        assert(self@[j] == old(self)@[j]);
                    }
                }
            }
        }
        Ok(copy)
    }

    /// The composite, concurrency-sensitive operation: the record under the
    /// form's key when present, a newly created one otherwise. Never fails;
    /// the `Result` mirrors the store's save interface.
    pub fn likeAndSave(&mut self, form: BridgeUserSaveForm) -> (r: Result<BridgeUser, BridgeError>)
        ensures
            r is Ok,
            (match r {
                Ok(u) => (final(self)@, u@) == get_or_create(old(self)@, form@, u@.id),
                Err(_) => false,
            }),
            unique_keys(old(self)@) ==> unique_keys(final(self)@),
    {
        match self.like(form.origin_id.as_str(), form.platform.as_str()) {
            Some(user) => Ok(user),
            None => {
                let r = self.save(form);
                proof {
                    assert(r is Ok);
                }
                r
            },
        }
    }

    /// Overwrites, for each batch record in order, the mutable fields of the
    /// first stored record with the same id; records with no match are
    /// silently skipped. Returns how many records were updated. The batch is
    /// taken as given: a batch that rewrites a record's key fields onto
    /// another record's key is applied as stated.
    pub fn batch_update(&mut self, queue: &[BridgeUser]) -> (r: Result<usize, BridgeError>)
        ensures
            (match r {
                Ok(c) => final(self)@ == apply_batch(old(self)@, users_view(queue@)) && c
                    == batch_count(
                    old(self)@,
                    users_view(queue@),
                ),
                Err(_) => false,
            }),
    {
        let ghost q = users_view(queue@);
        let m = queue.len();
        let mut count: usize = 0;
        let mut t: usize = 0;
        proof {
            assert(q.subrange(0, m as int) =~= q);
        }
        while t < m
            invariant
                t <= m,
                m == queue@.len(),
                count <= t,
                apply_batch(old(self)@, q) == apply_batch(self@, q.subrange(t as int, m as int)),
                batch_count(old(self)@, q) == count + batch_count(
                    self@,
                    q.subrange(t as int, m as int),
                ),
                q == users_view(queue@),
            decreases m - t,
        {
            let ghost pre = self@;
            let ghost rest = q.subrange(t as int, m as int);
            proof {
                assert(rest[0] == q[t as int]);
                assert(rest.drop_first() =~= q.subrange(t as int + 1, m as int));
            }
            let item = &queue[t];
            match self.find_index_by_id(item.id.as_str()) {
                Some(i) => {
                    let keep_id = self.bridge_users[i].id.clone();
                    let replacement = BridgeUser {
                        id: keep_id,
                        origin_id: item.origin_id.clone(),
                        platform: item.platform.clone(),
                        display_text: item.display_text.clone(),
                        ref_id: match &item.ref_id {
                            Some(rr) => Some(rr.clone()),
                            None => None,
                        },
                    };
                    self.bridge_users[i] = replacement;
                    count = count + 1;
                    proof {
                        assert(self@ =~= pre.update(i as int, upd_fields(pre[i as int], q[t as int])));
                        assert(self@ == upsert_one(pre, rest[0]));
                    }
                },
                None => {
                    proof {
                        assert(self@ == upsert_one(pre, rest[0]));
                    }
                },
            }
            t = t + 1;
        }
        proof {
            assert(q.subrange(m as int, m as int) =~= Seq::<BridgeUserV>::empty());
        }
        Ok(count)
    }

    /// The position of the first record with the given id.
    fn find_index_by_id(&self, id: &str) -> (r: Option<usize>)
        ensures
            (match r {
                Some(i) => idx_by_id(self@, id@) == Some(i as int) && i < self.view().len(),
                None => idx_by_id(self@, id@) is None,
            }),
    {
        let n = self.bridge_users.len();
        let mut t: usize = 0;
        while t < n
            invariant
                t <= n,
                n == self@.len(),
                n == self.bridge_users@.len(),
                forall|j: int| 0 <= j < t ==> #[trigger] self@[j].id != id@,
            decreases n - t,
        {
            if str_eq(self.bridge_users[t].id.as_str(), id) {
                proof {
                    lemma_idx_by_id_exact(self@, id@, t as int);
                }
                return Some(t);
            }
            t = t + 1;
        }
        proof {
            lemma_idx_by_id_none(self@, id@);
        }
        None
    }
}

/// Relies on uuid::Uuid::new_v4 and its Display form: a freshly drawn random
/// identifier rendered in the hyphenated format, which is always 36 characters.
/// Nothing more is assumed of the value.
#[verifier::external_body]
fn fresh_id() -> (r: String)
    ensures
        r@.len() == 36,
{
    uuid::Uuid::new_v4().to_string()
}

/// Law: two find-or-create steps for the same key yield one identity; the
/// second step changes nothing and returns the record the first one did,
/// whatever fresh ids were drawn.
pub proof fn lemma_get_or_create_idempotent(
    s: Seq<BridgeUserV>,
    form: BridgeUserSaveFormV,
    f1: Seq<char>,
    f2: Seq<char>,
)
    ensures
        ({
            let (s1, u1) = get_or_create(s, form, f1);
            let (s2, u2) = get_or_create(s1, form, f2);
            s2 == s1 && u2 == u1
        }),
{
    let (s1, u1) = get_or_create(s, form, f1);
    lemma_idx_by_key_props(s, form.origin_id, form.platform);
    match idx_by_key(s, form.origin_id, form.platform) {
        Some(_) => {},
        None => {
            let nu = new_user(form, f1);
            assert(s1 == s.push(nu));
            assert(key_matches(nu, form.origin_id, form.platform));
            assert forall|j: int| 0 <= j < s.len() implies !key_matches(
                #[trigger] s1[j],
                form.origin_id,
                form.platform,
            ) by {
                assert(s1[j] == s[j]);
            }
            lemma_idx_by_key_exact(s1, form.origin_id, form.platform, s.len() as int);
        },
    }
}

/// Law: a batch holding one record whose id matches nothing leaves the store
/// unchanged and reports no update.
pub proof fn lemma_upsert_unmatched(s: Seq<BridgeUserV>, r: BridgeUserV)
    requires
        idx_by_id(s, r.id) is None,
    ensures
        apply_batch(s, seq![r]) == s,
        batch_count(s, seq![r]) == 0,
{
    let q = seq![r];
    assert(q[0] == r);
    assert(q.drop_first() =~= Seq::<BridgeUserV>::empty());
    assert(upsert_one(s, r) == s);
    assert(apply_batch(s, q) == apply_batch(upsert_one(s, q[0]), q.drop_first()));
    assert(apply_batch(s, q.drop_first()) == s);
    assert(batch_count(s, q.drop_first()) == 0);
}

} // verus!
