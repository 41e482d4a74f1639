//! The database role's in-memory store: versioned byte records under string
//! keys, written only by saves whose counter grows.

use vstd::prelude::*;
use crate::conf::Conf;
use crate::engine::rpc_state::RpcSharedEntity;
use crate::strutil::str_eq;

verus! {

/// The store: one `(counter, bytes)` record per key, each key held once.
#[derive(Debug)]
pub struct DbSharedEntity {
    pub sysconf: Conf,
    pub rpc_entity: RpcSharedEntity,
    pub datas: Vec<(String, (u64, Vec<u8>))>,
}

impl DbSharedEntity {
    pub open spec fn entries(&self) -> Seq<(String, (u64, Vec<u8>))> {
        self.datas@
    }

    pub open spec fn wf(&self) -> bool {
        forall|i: int, j: int|
            0 <= i < j < self.entries().len() ==> self.entries()[i].0@ != self.entries()[j].0@
    }

    /// The record under a key, as the store's abstract content.
    pub open spec fn spec_get(&self, key: Seq<char>) -> Option<(u64, Seq<u8>)> {
        lookup(self.entries(), key)
    }

    pub fn new(sysconf: Conf, rpc_entity: RpcSharedEntity) -> (r: DbSharedEntity)
        ensures
            r.wf(),
            r.entries().len() == 0,
    {
        DbSharedEntity { sysconf, rpc_entity, datas: Vec::new() }
    }

    /// The record under this key, when one exists.
    pub fn get(&self, key: &str) -> (r: Option<&(u64, Vec<u8>)>)
        requires
            self.wf(),
        ensures
            r is Some <==> self.spec_get(key@) is Some,
            r matches Some(v) ==> self.spec_get(key@) == Some((v.0, v.1@)),
    {
        let n = self.datas.len();
        let mut i: usize = 0;
        while i < n
            invariant
                i <= n,
                n == self.entries().len(),
                self.wf(),
                forall|j: int| 0 <= j < i ==> self.entries()[j].0@ != key@,
            decreases n - i,
        {
            if str_eq(self.datas[i].0.as_str(), key) {
                return Some(&self.datas[i].1);
            }
            i = i + 1;
        }
        None
    }

    /// Writes the record under this key, replacing whatever was there.
    pub fn set(&mut self, key: String, value: (u64, Vec<u8>))
        requires
            old(self).wf(),
        ensures
            final(self).wf(),
            final(self).spec_get(key@) == Some((value.0, value.1@)),
            forall|k: Seq<char>| k != key@ ==> final(self).spec_get(k) == old(self).spec_get(k),
    {
        let n = self.datas.len();
        let mut i: usize = 0;
        while i < n
            invariant
                i <= n,
                n == self.entries().len(),
                self.wf(),
                self.entries() == old(self).entries(),
                forall|j: int| 0 <= j < i ==> self.entries()[j].0@ != key@,
            decreases n - i,
        {
            if str_eq(self.datas[i].0.as_str(), key.as_str()) {
                let _ = self.datas.remove(i);
                self.datas.insert(i, (key, value));
                proof {
                    lemma_lookup(old(self).entries(), self.entries(), key@, i as int);
                }
                return ;
            }
            i = i + 1;
        }
        self.datas.push((key, value));
        proof {
            lemma_lookup(old(self).entries(), self.entries(), key@, n as int);
        }
    }

    /// Forgets the record under this key.
    pub fn del(&mut self, key: &str)
        requires
            old(self).wf(),
        ensures
            final(self).wf(),
            final(self).spec_get(key@) is None,
            forall|k: Seq<char>| k != key@ ==> final(self).spec_get(k) == old(self).spec_get(k),
    {
        let n = self.datas.len();
        let mut i: usize = 0;
        while i < n
            invariant
                i <= n,
                n == self.entries().len(),
                self.wf(),
                self.entries() == old(self).entries(),
                forall|j: int| 0 <= j < i ==> self.entries()[j].0@ != key@,
            decreases n - i,
        {
            if str_eq(self.datas[i].0.as_str(), key) {
                let _ = self.datas.remove(i);
                proof {
                    lemma_removed(old(self).entries(), self.entries(), key@, i as int);
                }
                return ;
            }
            i = i + 1;
        }
        proof {
            assert(forall|j: int|
                0 <= j < self.entries().len() ==> self.entries()[j].0@ != key@);
        }
    }
}

/// After replacing or adding the entry at `i` for `key`, lookups of `key`
/// find it and lookups of other keys are untouched.
proof fn lemma_lookup(
    pre: Seq<(String, (u64, Vec<u8>))>,
    post: Seq<(String, (u64, Vec<u8>))>,
    key: Seq<char>,
    i: int,
)
    requires
        0 <= i < post.len(),
        post[i].0@ == key,
        forall|a: int, b: int| 0 <= a < b < post.len() ==> post[a].0@ != post[b].0@,
        forall|j: int| 0 <= j < pre.len() && j != i ==> j < post.len() && post[j] == pre[j],
        pre.len() == post.len() || pre.len() + 1 == post.len(),
        pre.len() == post.len() ==> forall|a: int, b: int|
            0 <= a < b < pre.len() ==> pre[a].0@ != pre[b].0@,
        pre.len() + 1 == post.len() ==> i == pre.len() && (forall|a: int, b: int|
            0 <= a < b < pre.len() ==> pre[a].0@ != pre[b].0@) && (forall|j: int|
            0 <= j < pre.len() ==> pre[j].0@ != key),
        pre.len() == post.len() ==> pre[i].0@ == key,
    ensures
        lookup(post, key) == Some((post[i].1.0, post[i].1.1@)),
        forall|k: Seq<char>| k != key ==> lookup(post, k) == lookup(pre, k),
{
    assert(exists|j: int| 0 <= j < post.len() && post[j].0@ == key);
    let w = choose|j: int| 0 <= j < post.len() && post[j].0@ == key;
    assert(w == i);
    assert forall|k: Seq<char>| k != key implies lookup(post, k) == lookup(pre, k) by {
        if exists|j: int| 0 <= j < post.len() && post[j].0@ == k {
            let a = choose|j: int| 0 <= j < post.len() && post[j].0@ == k;
            assert(a != i);
            assert(pre[a] == post[a]);
            assert(exists|j: int| 0 <= j < pre.len() && pre[j].0@ == k);
            let b = choose|j: int| 0 <= j < pre.len() && pre[j].0@ == k;
            assert(b != i);
            assert(post[b] == pre[b]);
            assert(b == a);
        } else {
            if exists|j: int| 0 <= j < pre.len() && pre[j].0@ == k {
                let b = choose|j: int| 0 <= j < pre.len() && pre[j].0@ == k;
                assert(b != i);
                assert(post[b] == pre[b]);
            }
        }
    }
}

/// After removing the entry at `i` for `key`, lookups of `key` find nothing
/// and lookups of other keys are untouched.
proof fn lemma_removed(
    pre: Seq<(String, (u64, Vec<u8>))>,
    post: Seq<(String, (u64, Vec<u8>))>,
    key: Seq<char>,
    i: int,
)
    requires
        0 <= i < pre.len(),
        pre[i].0@ == key,
        post == pre.remove(i),
        forall|a: int, b: int| 0 <= a < b < pre.len() ==> pre[a].0@ != pre[b].0@,
    ensures
        lookup(post, key) is None,
        forall|k: Seq<char>| k != key ==> lookup(post, k) == lookup(pre, k),
{
    assert forall|j: int| 0 <= j < post.len() implies post[j].0@ != key by {
        if j < i {
            assert(post[j] == pre[j]);
        } else {
            assert(post[j] == pre[j + 1]);
        }
    }
    assert forall|k: Seq<char>| k != key implies lookup(post, k) == lookup(pre, k) by {
        if exists|j: int| 0 <= j < post.len() && post[j].0@ == k {
            let a = choose|j: int| 0 <= j < post.len() && post[j].0@ == k;
            let a2: int = if a < i {
                a
            } else {
                a + 1
            };
            assert(post[a] == pre[a2]);
            let b = choose|j: int| 0 <= j < pre.len() && pre[j].0@ == k;
            let b2: int = if b < i {
                b
            } else {
                b - 1
            };
            assert(b != i);
            assert(post[b2] == pre[b]);
            assert(lookup(post, k) == Some((post[b2].1.0, post[b2].1.1@)));
            assert(lookup(pre, k) == Some((pre[b].1.0, pre[b].1.1@)));
        } else {
            if exists|j: int| 0 <= j < pre.len() && pre[j].0@ == k {
                let b = choose|j: int| 0 <= j < pre.len() && pre[j].0@ == k;
                assert(b != i);
                let b2: int = if b < i {
                    b
                } else {
                    b - 1
                };
                assert(post[b2] == pre[b]);
            }
        }
    }
}

/// The record a run of entries holds under a key.
pub open spec fn lookup(entries: Seq<(String, (u64, Vec<u8>))>, key: Seq<char>) -> Option<
    (u64, Seq<u8>),
> {
    if exists|i: int| 0 <= i < entries.len() && entries[i].0@ == key {
        let i = choose|i: int| 0 <= i < entries.len() && entries[i].0@ == key;
        Some((entries[i].1.0, entries[i].1.1@))
    } else {
        None
    }
}

} // verus!
