use vstd::prelude::*;
use crate::online::DocModel;
use crate::online::Online;
use crate::online::OnlineDocument;
use crate::online::document_to_json;
use crate::online::renders_doc;

verus! {

/// The document carries the given identifier and credential.
pub open spec fn key_matches(d: DocModel, uuid: Seq<char>, api_token: Seq<char>) -> bool {
    d.uuid == uuid && d.api_token == api_token
}

/// Some document in the store carries the given key.
pub open spec fn has_key(docs: Seq<DocModel>, uuid: Seq<char>, api_token: Seq<char>) -> bool {
    exists|j: int| 0 <= j < docs.len() && key_matches(docs[j], uuid, api_token)
}

/// At most one document per (identifier, credential) pair.
pub open spec fn unique_keys(docs: Seq<DocModel>) -> bool {
    forall|j: int, k: int|
        0 <= j < k < docs.len() ==> !key_matches(docs[j], docs[k].uuid, docs[k].api_token)
}

/// A matched document after the write: online flag set and modification time
/// refreshed; identity, key and creation time untouched.
pub open spec fn refreshed(d: DocModel, online: bool, now: u64) -> DocModel {
    DocModel { online, modified_at: now, ..d }
}

/// A document created by the write: both timestamps set to the present.
pub open spec fn fresh_doc(
    id: u64,
    uuid: Seq<char>,
    api_token: Seq<char>,
    online: bool,
    now: u64,
) -> DocModel {
    DocModel { id, uuid, api_token, created_at: now, modified_at: now, online }
}

/// How one upsert relates the store contents after the write to the contents
/// before it: the unique matching document is updated in place if one
/// exists, else a fresh document is appended.
pub open spec fn upsert_rel(
    pre: Seq<DocModel>,
    post: Seq<DocModel>,
    uuid: Seq<char>,
    api_token: Seq<char>,
    online: bool,
    now: u64,
    id: u64,
) -> bool {
    if has_key(pre, uuid, api_token) {
        exists|j: int|
            0 <= j < pre.len() && key_matches(pre[j], uuid, api_token) && post == pre.update(
                j,
                refreshed(pre[j], online, now),
            )
    } else {
        post == pre.push(fresh_doc(id, uuid, api_token, online, now))
    }
}

/// Two documents that both carry a key sit at the same index: under
/// `unique_keys` the matching document is unique.
proof fn lemma_match_unique(
    docs: Seq<DocModel>,
    uuid: Seq<char>,
    api_token: Seq<char>,
    j: int,
    k: int,
)
    requires
        unique_keys(docs),
        0 <= j < docs.len(),
        0 <= k < docs.len(),
        key_matches(docs[j], uuid, api_token),
        key_matches(docs[k], uuid, api_token),
    ensures
        j == k,
{
    if j < k {
        assert(!key_matches(docs[j], docs[k].uuid, docs[k].api_token));
    } else if k < j {
        assert(!key_matches(docs[k], docs[j].uuid, docs[j].api_token));
    }
}

/// Law: an upsert preserves the store invariant — at most one document per
/// (identifier, credential) pair — and afterwards the written key is
/// present.
pub proof fn lemma_upsert_keeps_unique_keys(
    pre: Seq<DocModel>,
    post: Seq<DocModel>,
    uuid: Seq<char>,
    api_token: Seq<char>,
    online: bool,
    now: u64,
    id: u64,
)
    requires
        unique_keys(pre),
        upsert_rel(pre, post, uuid, api_token, online, now, id),
    ensures
        unique_keys(post),
        has_key(post, uuid, api_token),
{
    if has_key(pre, uuid, api_token) {
        let j = choose|j: int|
            0 <= j < pre.len() && key_matches(pre[j], uuid, api_token) && post == pre.update(
                j,
                refreshed(pre[j], online, now),
            );
        assert(key_matches(post[j], uuid, api_token));
        assert forall|a: int, b: int| 0 <= a < b < post.len() implies !key_matches(
            post[a],
            post[b].uuid,
            post[b].api_token,
        ) by {
            assert(post[a].uuid == pre[a].uuid);
            assert(post[a].api_token == pre[a].api_token);
            assert(post[b].uuid == pre[b].uuid);
            assert(post[b].api_token == pre[b].api_token);
            assert(!key_matches(pre[a], pre[b].uuid, pre[b].api_token));
        }
    } else {
        let last = pre.len() as int;
        assert(key_matches(post[last], uuid, api_token));
        assert forall|a: int, b: int| 0 <= a < b < post.len() implies !key_matches(
            post[a],
            post[b].uuid,
            post[b].api_token,
        ) by {
            if b < last {
                assert(!key_matches(pre[a], pre[b].uuid, pre[b].api_token));
            } else {
                assert(post[b] == fresh_doc(id, uuid, api_token, online, now));
                assert(!key_matches(pre[a], uuid, api_token));
            }
        }
    }
}

/// Law (idempotence): two upserts with the same identifier, credential and
/// online flag leave exactly one document for that key; the second write
/// keeps the creation time of the first and only advances the modification
/// time.
pub proof fn lemma_upsert_idempotent(
    s0: Seq<DocModel>,
    s1: Seq<DocModel>,
    s2: Seq<DocModel>,
    uuid: Seq<char>,
    api_token: Seq<char>,
    online: bool,
    t1: u64,
    t2: u64,
    id1: u64,
    id2: u64,
)
    requires
        unique_keys(s0),
        t1 <= t2,
        upsert_rel(s0, s1, uuid, api_token, online, t1, id1),
        upsert_rel(s1, s2, uuid, api_token, online, t2, id2),
    ensures
        s2.len() == s1.len(),
        exists|j: int|
            {
                &&& 0 <= j < s2.len()
                &&& key_matches(s2[j], uuid, api_token)
                &&& forall|k: int|
                    0 <= k < s2.len() && key_matches(s2[k], uuid, api_token) ==> k == j
                &&& 0 <= j < s1.len() && key_matches(s1[j], uuid, api_token)
                &&& s2[j].created_at == s1[j].created_at
                &&& s2[j].id == s1[j].id
                &&& s2[j].online == online
                &&& s2[j].modified_at == t2
                &&& s2[j].modified_at >= s1[j].modified_at
            },
{
    lemma_upsert_keeps_unique_keys(s0, s1, uuid, api_token, online, t1, id1);
    lemma_upsert_keeps_unique_keys(s1, s2, uuid, api_token, online, t2, id2);
    assert(has_key(s1, uuid, api_token));
    let j = choose|j: int|
        0 <= j < s1.len() && key_matches(s1[j], uuid, api_token) && s2 == s1.update(
            j,
            refreshed(s1[j], online, t2),
        );
    assert(key_matches(s2[j], uuid, api_token));
    assert(s1[j].modified_at <= t2) by {
        if has_key(s0, uuid, api_token) {
            let i = choose|i: int|
                0 <= i < s0.len() && key_matches(s0[i], uuid, api_token) && s1 == s0.update(
                    i,
                    refreshed(s0[i], online, t1),
                );
            assert(key_matches(s1[i], uuid, api_token));
            lemma_match_unique(s1, uuid, api_token, i, j);
        } else {
            lemma_match_unique(s1, uuid, api_token, s0.len() as int, j);
        }
    }
    assert forall|k: int| 0 <= k < s2.len() && key_matches(s2[k], uuid, api_token) implies k
        == j by {
        lemma_match_unique(s2, uuid, api_token, k, j);
    }
}

/// Law (round trip): a record created online and then written offline is
/// still the unique record for its key, now with `online == false`, the same
/// store identity and the creation time of the first write.
pub proof fn lemma_upsert_round_trip(
    s0: Seq<DocModel>,
    s1: Seq<DocModel>,
    s2: Seq<DocModel>,
    uuid: Seq<char>,
    api_token: Seq<char>,
    t1: u64,
    t2: u64,
    id1: u64,
    id2: u64,
)
    requires
        unique_keys(s0),
        !has_key(s0, uuid, api_token),
        upsert_rel(s0, s1, uuid, api_token, true, t1, id1),
        upsert_rel(s1, s2, uuid, api_token, false, t2, id2),
    ensures
        exists|j: int|
            {
                &&& 0 <= j < s2.len()
                &&& key_matches(s2[j], uuid, api_token)
                &&& forall|k: int|
                    0 <= k < s2.len() && key_matches(s2[k], uuid, api_token) ==> k == j
                &&& s2[j].online == false
                &&& s2[j].created_at == t1
                &&& s2[j].id == id1
            },
{
    lemma_upsert_keeps_unique_keys(s0, s1, uuid, api_token, true, t1, id1);
    lemma_upsert_keeps_unique_keys(s1, s2, uuid, api_token, false, t2, id2);
    let last = s0.len() as int;
    assert(s1[last] == fresh_doc(id1, uuid, api_token, true, t1));
    let j = choose|j: int|
        0 <= j < s1.len() && key_matches(s1[j], uuid, api_token) && s2 == s1.update(
            j,
            refreshed(s1[j], false, t2),
        );
    lemma_match_unique(s1, uuid, api_token, last, j);
    assert(key_matches(s2[j], uuid, api_token));
    assert(s2[j].online == false && s2[j].created_at == t1 && s2[j].id == id1);
    assert forall|k: int| 0 <= k < s2.len() && key_matches(s2[k], uuid, api_token) implies k
        == j by {
        lemma_match_unique(s2, uuid, api_token, k, j);
    }
}

/// The online-state store: the sole writer's view of the persisted
/// documents, together with the identity the next created document gets.
pub struct OnlineStore {
    docs: Vec<OnlineDocument>,
    next_id: u64,
}

impl View for OnlineStore {
    type V = Seq<DocModel>;

    closed spec fn view(&self) -> Seq<DocModel> {
        Seq::new(self.docs@.len(), |i: int| self.docs@[i]@)
    }
}

impl OnlineStore {
    /// The identity the next created document will get.
    pub closed spec fn spec_next_id(&self) -> u64 {
        self.next_id
    }

    /// Store invariant: no two documents share a key.
    pub open spec fn inv(&self) -> bool {
        unique_keys(self@)
    }

    /// An empty store.
    pub fn new() -> (s: Self)
        ensures
            s@ =~= Seq::<DocModel>::empty(),
            s.inv(),
            s.spec_next_id() == 0,
    {
        OnlineStore { docs: Vec::new(), next_id: 0 }
    }

    /// How many documents the store holds.
    pub fn record_count(&self) -> (n: usize)
        ensures
            n == self@.len(),
    {
        self.docs.len()
    }

    /// Retrieves the record keyed by (identifier, credential), if one is
    /// persisted.
    pub fn find_online(&self, uuid: &str, api_token: &str) -> (r: Option<Online>)
        requires
            self.inv(),
        ensures
            match r {
                Option::Some(rec) => exists|j: int|
                    0 <= j < self@.len() && key_matches(self@[j], uuid@, api_token@)
                        && renders_doc(rec, self@[j]),
                Option::None => !has_key(self@, uuid@, api_token@),
            },
    {
        let uuid_s: String = uuid.to_owned();
        let tok_s: String = api_token.to_owned();
        let n = self.docs.len();
        let mut j: usize = 0;
        while j < n
            invariant
                0 <= j <= n,
                n == self.docs@.len(),
                n == self@.len(),
                uuid_s@ == uuid@,
                tok_s@ == api_token@,
                forall|k: int| 0 <= k < j ==> !key_matches(self@[k], uuid@, api_token@),
            decreases n - j,
        {
            if self.docs[j].uuid == uuid_s && self.docs[j].apiToken == tok_s {
                let rec = document_to_json(&self.docs[j]);
                proof {
                    assert(key_matches(self@[j as int], uuid@, api_token@));
                }
                return Option::Some(rec);
            }
            j = j + 1;
        }
        Option::None
    }

    /// Atomically locates the document keyed by (identifier, credential) and
    /// sets its online flag, refreshing the modification time and leaving
    /// the creation time untouched; creates the document with both
    /// timestamps set to `now` if none matches. Returns the document as it
    /// exists after the write.
    pub fn upsert_online(&mut self, uuid: &str, api_token: &str, online: bool, now: u64) -> (r:
        Online)
        requires
            old(self).inv(),
            uuid@.len() > 0,
            api_token@.len() > 0,
            old(self).spec_next_id() < u64::MAX,
        ensures
            final(self).inv(),
            upsert_rel(old(self)@, final(self)@, uuid@, api_token@, online, now, old(
                self,
            ).spec_next_id()),
            has_key(old(self)@, uuid@, api_token@) ==> {
                &&& final(self).spec_next_id() == old(self).spec_next_id()
                &&& exists|j: int|
                    0 <= j < old(self)@.len() && key_matches(old(self)@[j], uuid@, api_token@)
                        && renders_doc(r, refreshed(old(self)@[j], online, now))
            },
            !has_key(old(self)@, uuid@, api_token@) ==> {
                &&& final(self).spec_next_id() == old(self).spec_next_id() + 1
                &&& renders_doc(r, fresh_doc(old(self).spec_next_id(), uuid@, api_token@, online, now))
            },
            r.uuid@ == uuid@,
            r.apiToken@ == api_token@,
            r.online == online,
            has_key(final(self)@, uuid@, api_token@),
    {
        let uuid_s: String = uuid.to_owned();
        let tok_s: String = api_token.to_owned();
        let n = self.docs.len();
        let mut j: usize = 0;
        while j < n
            invariant
                *self == *old(self),
                old(self).inv(),
                old(self).spec_next_id() < u64::MAX,
                uuid@.len() > 0,
                api_token@.len() > 0,
                n == self.docs@.len(),
                0 <= j <= n,
                uuid_s@ == uuid@,
                tok_s@ == api_token@,
                forall|k: int| 0 <= k < j ==> !key_matches(self@[k], uuid@, api_token@),
            decreases n - j,
        {
            if self.docs[j].uuid == uuid_s && self.docs[j].apiToken == tok_s {
                proof {
                    assert(key_matches(self@[j as int], uuid@, api_token@));
                    assert(has_key(old(self)@, uuid@, api_token@));
                }
                self.docs[j].online = online;
                self.docs[j].modifiedAt = now;
                let r = document_to_json(&self.docs[j]);
                proof {
                    let ghost jj = j as int;
                    assert(self@ =~= old(self)@.update(
                        jj,
                        refreshed(old(self)@[jj], online, now),
                    ));
                    assert(key_matches(self@[jj], uuid@, api_token@));
                    assert forall|a: int, b: int| 0 <= a < b < self@.len() implies !key_matches(
                        self@[a],
                        self@[b].uuid,
                        self@[b].api_token,
                    ) by {
                        assert(unique_keys(old(self)@));
                        assert(self@.len() == old(self)@.len());
                        assert(0 <= a < b < old(self)@.len());
                        assert(self@[a].uuid == old(self)@[a].uuid);
                        assert(self@[a].api_token == old(self)@[a].api_token);
                        assert(self@[b].uuid == old(self)@[b].uuid);
                        assert(self@[b].api_token == old(self)@[b].api_token);
                        assert(!key_matches(old(self)@[a], old(self)@[b].uuid, old(self)@[b].api_token));
                    }
                }
                return r;
            }
            j = j + 1;
        }
        let doc = OnlineDocument {
            id: self.next_id,
            uuid: uuid_s,
            apiToken: tok_s,
            createdAt: now,
            modifiedAt: now,
            online,
        };
        let r = document_to_json(&doc);
        self.docs.push(doc);
        self.next_id = self.next_id + 1;
        proof {
            assert(!has_key(old(self)@, uuid@, api_token@));
            assert(self@ =~= old(self)@.push(
                fresh_doc(old(self).spec_next_id(), uuid@, api_token@, online, now),
            ));
            let ghost last = self@.len() - 1;
            assert(key_matches(self@[last], uuid@, api_token@));
        }
        r
    }
}

} // verus!
