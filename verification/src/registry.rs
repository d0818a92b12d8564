//! The in-memory container registry.
//!
//! Two associative structures per runtime instance: container identifier to
//! lifecycle record, and node identifier to the ordered list of the node's
//! containers. The registry's invariant keeps the two consistent: every
//! record's identifier is listed under its node, exactly once, and every
//! listed identifier belongs to a record with that node. Locking around the
//! registry is the shell's concern; every operation here is a bounded map
//! update with no external work inside it.

use vstd::prelude::*;

use crate::text::str_eq;
use crate::types::ContainerState;
use crate::types::ContainerStateView;

verus! {

/// The identifiers with every occurrence of `id` taken out, order kept.
pub open spec fn remove_id(ids: Seq<Seq<char>>, id: Seq<char>) -> Seq<Seq<char>> {
    ids.filter(|x: Seq<char>| x != id)
}

/// What `remove_id` yields: exactly the other identifiers, in order.
pub proof fn lemma_remove_id_props(s: Seq<Seq<char>>, id: Seq<char>)
    ensures
        forall|k: int|
            0 <= k < remove_id(s, id).len() ==> #[trigger] remove_id(s, id)[k] != id
                && s.contains(remove_id(s, id)[k]),
        forall|x: Seq<char>| s.contains(x) && x != id ==> #[trigger] remove_id(s, id).contains(x),
        !remove_id(s, id).contains(id),
    decreases s.len(),
{
    reveal(Seq::filter);
    if s.len() == 0 {
        assert(remove_id(s, id) =~= Seq::<Seq<char>>::empty());
    } else {
        let d = s.drop_last();
        lemma_remove_id_props(d, id);
        let f = remove_id(s, id);
        let fd = remove_id(d, id);
        assert(forall|k: int| 0 <= k < d.len() ==> s.contains(#[trigger] d[k])) by {
            assert(forall|k: int| 0 <= k < d.len() ==> d[k] == s[k]);
        }
        if s.last() != id {
            assert(f == fd.push(s.last()));
            assert(s.contains(s.last()));
            assert forall|x: Seq<char>| s.contains(x) && x != id implies #[trigger] f.contains(
                x,
            ) by {
                let k = choose|k: int| 0 <= k < s.len() && s[k] == x;
                if k < d.len() {
                    assert(d[k] == x);
                    assert(d.contains(x));
                    assert(fd.contains(x));
                    let k2 = choose|k2: int| 0 <= k2 < fd.len() && fd[k2] == x;
                    assert(f[k2] == x);
                    assert(f.contains(x));
                } else {
                    assert(f[f.len() - 1] == x);
                    assert(f.contains(x));
                }
            }
        } else {
            assert(f == fd);
            assert forall|x: Seq<char>| s.contains(x) && x != id implies #[trigger] f.contains(
                x,
            ) by {
                let k = choose|k: int| 0 <= k < s.len() && s[k] == x;
                assert(k < d.len());
                assert(d[k] == x);
                assert(d.contains(x));
                assert(fd.contains(x));
            }
        }
        if f.contains(id) {
            let k = choose|k: int| 0 <= k < f.len() && f[k] == id;
            assert(false);
        }
    }
}

/// Taking one identifier out of a duplicate-free list keeps it duplicate-free.
pub proof fn lemma_remove_id_distinct(s: Seq<Seq<char>>, id: Seq<char>)
    requires
        forall|k1: int, k2: int| 0 <= k1 < k2 < s.len() ==> #[trigger] s[k1] != #[trigger] s[k2],
    ensures
        forall|k1: int, k2: int|
            0 <= k1 < k2 < remove_id(s, id).len() ==> #[trigger] remove_id(s, id)[k1]
                != #[trigger] remove_id(s, id)[k2],
    decreases s.len(),
{
    reveal(Seq::filter);
    if s.len() > 0 {
        let d = s.drop_last();
        assert(forall|k1: int, k2: int|
            0 <= k1 < k2 < d.len() ==> #[trigger] d[k1] != #[trigger] d[k2]) by {
            assert(forall|k: int| 0 <= k < d.len() ==> d[k] == s[k]);
        }
        lemma_remove_id_distinct(d, id);
        lemma_remove_id_props(d, id);
        let f = remove_id(s, id);
        let fd = remove_id(d, id);
        if s.last() != id {
            assert(f == fd.push(s.last()));
            assert forall|k1: int, k2: int| 0 <= k1 < k2 < f.len() implies #[trigger] f[k1]
                != #[trigger] f[k2] by {
                if k2 < fd.len() {
                } else {
                    // The pushed last element differs from every kept one:
                    // kept ones come from the prefix, which nowhere repeats it.
                    assert(f[k1] == fd[k1]);
                    assert(d.contains(fd[k1]));
                    let m = choose|m: int| 0 <= m < d.len() && d[m] == fd[k1];
                    assert(s[m] == fd[k1]);
                    assert(s[m] != s.last());
                }
            }
        }
    }
}

/// A list without the identifier is unchanged by taking it out.
pub proof fn lemma_remove_id_absent(s: Seq<Seq<char>>, id: Seq<char>)
    requires
        forall|k: int| 0 <= k < s.len() ==> #[trigger] s[k] != id,
    ensures
        remove_id(s, id) == s,
    decreases s.len(),
{
    reveal(Seq::filter);
    if s.len() == 0 {
        assert(remove_id(s, id) =~= s);
    } else {
        let d = s.drop_last();
        assert(forall|k: int| 0 <= k < d.len() ==> #[trigger] d[k] != id) by {
            assert(forall|k: int| 0 <= k < d.len() ==> d[k] == s[k]);
        }
        lemma_remove_id_absent(d, id);
        assert(remove_id(s, id) =~= s);
    }
}

/// Taking an identifier out removes the occurrence a push just added.
pub proof fn lemma_remove_id_push(s: Seq<Seq<char>>, id: Seq<char>)
    ensures
        remove_id(s.push(id), id) == remove_id(s, id),
{
    reveal(Seq::filter);
    assert(s.push(id).drop_last() =~= s);
}

/// A node's entry in the secondary index.
#[derive(Debug, Clone)]
pub struct NodeContainers {
    pub node_id: String,
    pub container_ids: Vec<String>,
}

/// The registry: the primary map and the per-node index.
#[derive(Debug)]
pub struct Registry {
    containers: Vec<ContainerState>,
    by_node: Vec<NodeContainers>,
}

impl Registry {
    /// There is a record for this container identifier.
    pub closed spec fn has_container(&self, id: Seq<char>) -> bool {
        exists|i: int|
            0 <= i < self.containers@.len() && #[trigger] self.containers@[i].id@ == id
    }

    /// Index of the record for `id` in the primary map.
    closed spec fn container_index(&self, id: Seq<char>) -> int {
        choose|i: int|
            0 <= i < self.containers@.len() && #[trigger] self.containers@[i].id@ == id
    }

    /// The record held for `id`; meaningful when `has_container(id)`.
    pub closed spec fn container_view(&self, id: Seq<char>) -> ContainerStateView {
        self.containers@[self.container_index(id)]@
    }

    /// The node identifier has an entry in the index.
    pub closed spec fn node_known(&self, node: Seq<char>) -> bool {
        exists|j: int|
            0 <= j < self.by_node@.len() && #[trigger] self.by_node@[j].node_id@ == node
    }

    /// Index of the node's entry in the secondary index.
    closed spec fn node_index(&self, node: Seq<char>) -> int {
        choose|j: int|
            0 <= j < self.by_node@.len() && #[trigger] self.by_node@[j].node_id@ == node
    }

    /// The container identifiers listed under a node, in insertion order;
    /// empty for a node without an entry.
    pub closed spec fn node_ids(&self, node: Seq<char>) -> Seq<Seq<char>> {
        if self.node_known(node) {
            self.by_node@[self.node_index(node)].container_ids.deep_view()
        } else {
            Seq::empty()
        }
    }

    /// No two records share an identifier.
    closed spec fn unique_containers(&self) -> bool {
        forall|i: int, j: int|
            0 <= i < j < self.containers@.len() ==> #[trigger] self.containers@[i].id@
                != #[trigger] self.containers@[j].id@
    }

    /// No two index entries share a node identifier.
    closed spec fn unique_nodes(&self) -> bool {
        forall|i: int, j: int|
            0 <= i < j < self.by_node@.len() ==> #[trigger] self.by_node@[i].node_id@
                != #[trigger] self.by_node@[j].node_id@
    }

    /// The registry's invariant: identifiers unique in the primary map, node
    /// entries unique in the index, every record listed under its own node,
    /// every listed identifier backed by a record with that node, and no
    /// node's list repeating an identifier.
    pub closed spec fn wf(&self) -> bool {
        &&& self.unique_containers()
        &&& self.unique_nodes()
        &&& forall|i: int|
            0 <= i < self.containers@.len() ==> self.node_ids(
                #[trigger] self.containers@[i].node_id@,
            ).contains(self.containers@[i].id@)
        &&& forall|j: int, k: int|
            0 <= j < self.by_node@.len() && 0 <= k
                < self.by_node@[j].container_ids@.len() ==> self.has_container(
                #[trigger] self.by_node@[j].container_ids@[k]@,
            ) && self.container_view(self.by_node@[j].container_ids@[k]@).node_id
                == self.by_node@[j].node_id@
        &&& forall|j: int, k1: int, k2: int|
            0 <= j < self.by_node@.len() && 0 <= k1 < k2
                < self.by_node@[j].container_ids@.len() ==> #[trigger] self.by_node@[j].container_ids@[k1]@
                != #[trigger] self.by_node@[j].container_ids@[k2]@
    }

    /// An empty registry: no containers, no nodes.
    pub fn new() -> (r: Registry)
        ensures
            r.wf(),
            forall|id: Seq<char>| !r.has_container(id),
            forall|n: Seq<char>| !r.node_known(n),
            forall|n: Seq<char>| r.node_ids(n) == Seq::<Seq<char>>::empty(),
    {
        Registry { containers: Vec::new(), by_node: Vec::new() }
    }

    fn find_container(&self, id: &str) -> (r: Option<usize>)
        ensures
            r matches Some(i) ==> (i < self.containers@.len() && self.containers@[
                i as int
            ].id@ == id@),
            r is None ==> forall|i: int|
                0 <= i < self.containers@.len() ==> #[trigger] self.containers@[i].id@ != id@,
    {
        let mut i: usize = 0;
        while i < self.containers.len()
            invariant
                i <= self.containers@.len(),
                forall|k: int| 0 <= k < i ==> #[trigger] self.containers@[k].id@ != id@,
            decreases self.containers@.len() - i,
        {
            if str_eq(self.containers[i].id.as_str(), id) {
                return Some(i);
            }
            i += 1;
        }
        None
    }

    fn find_node(&self, node: &str) -> (r: Option<usize>)
        ensures
            r matches Some(j) ==> (j < self.by_node@.len() && self.by_node@[
                j as int
            ].node_id@ == node@),
            r is None ==> forall|j: int|
                0 <= j < self.by_node@.len() ==> #[trigger] self.by_node@[j].node_id@ != node@,
    {
        let mut j: usize = 0;
        while j < self.by_node.len()
            invariant
                j <= self.by_node@.len(),
                forall|k: int| 0 <= k < j ==> #[trigger] self.by_node@[k].node_id@ != node@,
            decreases self.by_node@.len() - j,
        {
            if str_eq(self.by_node[j].node_id.as_str(), node) {
                return Some(j);
            }
            j += 1;
        }
        None
    }

    /// With unique identifiers, the chosen index of a present record is the
    /// index where it stands.
    proof fn lemma_container_index_is(&self, i: int)
        requires
            self.unique_containers(),
            0 <= i < self.containers@.len(),
        ensures
            self.has_container(self.containers@[i].id@),
            self.container_index(self.containers@[i].id@) == i,
            self.container_view(self.containers@[i].id@) == self.containers@[i]@,
    {
        let id = self.containers@[i].id@;
        assert(self.has_container(id));
        let j = self.container_index(id);
        if j != i {
            if j < i {
                assert(self.containers@[j].id@ != self.containers@[i].id@);
            } else {
                assert(self.containers@[i].id@ != self.containers@[j].id@);
            }
        }
    }

    /// With unique node entries, the chosen index of a present node is the
    /// index where it stands.
    proof fn lemma_node_index_is(&self, j: int)
        requires
            self.unique_nodes(),
            0 <= j < self.by_node@.len(),
        ensures
            self.node_known(self.by_node@[j].node_id@),
            self.node_index(self.by_node@[j].node_id@) == j,
            self.node_ids(self.by_node@[j].node_id@) == self.by_node@[
                j
            ].container_ids.deep_view(),
    {
        let n = self.by_node@[j].node_id@;
        assert(self.node_known(n));
        let k = self.node_index(n);
        if k != j {
            if k < j {
                assert(self.by_node@[k].node_id@ != self.by_node@[j].node_id@);
            } else {
                assert(self.by_node@[j].node_id@ != self.by_node@[k].node_id@);
            }
        }
    }

    /// Looks a container's record up.
    pub fn get_container(&self, id: &String) -> (r: Option<&ContainerState>)
        requires
            self.wf(),
        ensures
            r matches Some(st) ==> (self.has_container(id@) && st@ == self.container_view(
                id@,
            )),
            r is None ==> !self.has_container(id@),
    {
        match self.find_container(id.as_str()) {
            Some(i) => {
                proof {
                    self.lemma_container_index_is(i as int);
                }
                Some(&self.containers[i])
            },
            None => {
                assert(!self.has_container(id@));
                None
            },
        }
    }

    /// The container identifiers of a node, in insertion order; a node
    /// without an entry yields the empty list.
    pub fn node_container_ids(&self, node_id: &String) -> (r: Vec<String>)
        requires
            self.wf(),
        ensures
            r.deep_view() == self.node_ids(node_id@),
    {
        match self.find_node(node_id.as_str()) {
            Some(j) => {
                proof {
                    self.lemma_node_index_is(j as int);
                }
                let list = &self.by_node[j].container_ids;
                let mut out: Vec<String> = Vec::new();
                let mut k: usize = 0;
                while k < list.len()
                    invariant
                        k <= list@.len(),
                        out.deep_view() == list.deep_view().take(k as int),
                    decreases list@.len() - k,
                {
                    let ghost out0 = out.deep_view();
                    out.push(list[k].clone());
                    proof {
                        assert(out.deep_view() =~= out0.push(list@[k as int]@));
                        assert(out.deep_view() =~= list.deep_view().take(k + 1));
                    }
                    k += 1;
                }
                proof {
                    assert(list.deep_view().take(list@.len() as int) =~= list.deep_view());
                }
                out
            },
            None => {
                assert(!self.node_known(node_id@));
                Vec::new()
            },
        }
    }

    /// Idempotently ensures a node has an index entry; an existing entry and
    /// its list are left as they are, and nothing else changes.
    pub fn init_node(&mut self, node_id: String)
        requires
            old(self).wf(),
        ensures
            final(self).wf(),
            forall|id: Seq<char>|
                #[trigger] final(self).has_container(id) == old(self).has_container(id),
            forall|id: Seq<char>|
                old(self).has_container(id) ==> #[trigger] final(self).container_view(id)
                    == old(self).container_view(id),
            final(self).node_known(node_id@),
            final(self).node_ids(node_id@) == old(self).node_ids(node_id@),
            forall|n: Seq<char>|
                n != node_id@ ==> #[trigger] final(self).node_known(n) == old(
                    self,
                ).node_known(n),
            forall|n: Seq<char>|
                n != node_id@ ==> #[trigger] final(self).node_ids(n) == old(self).node_ids(n),
    {
        match self.find_node(node_id.as_str()) {
            Some(j) => {
                proof {
                    self.lemma_node_index_is(j as int);
                }
            },
            None => {
                let entry = NodeContainers { node_id, container_ids: Vec::new() };
                self.by_node.push(entry);
                proof {
                    let o = *old(self);
                    let m = o.by_node@.len() as int;
                    assert(self.by_node@[m].container_ids.deep_view()
                        =~= Seq::<Seq<char>>::empty());
                    self.lemma_nodes_extended(o, m);
                    self.lemma_node_index_is(m);
                    assert forall|id: Seq<char>|
                        #[trigger] self.has_container(id) == o.has_container(id) && (
                        o.has_container(id) ==> self.container_view(id) == o.container_view(
                            id,
                        )) by {
                        assert(self.containers@ == o.containers@);
                    }
                    assert(self.wf());
                }
            },
        }
    }

    /// After the node index grew by one entry at the end, with the rest in
    /// place: every old node keeps its position and list, and the only new
    /// node identifier is the appended one.
    proof fn lemma_nodes_extended(&self, o: Registry, m: int)
        requires
            o.unique_nodes(),
            self.by_node@.len() == m + 1,
            o.by_node@.len() == m,
            forall|k: int| 0 <= k < m ==> #[trigger] self.by_node@[k] == o.by_node@[k],
            !o.node_known(self.by_node@[m].node_id@),
            self.containers@ == o.containers@,
        ensures
            self.unique_nodes(),
            forall|n: Seq<char>|
                n != self.by_node@[m].node_id@ ==> #[trigger] self.node_known(n)
                    == o.node_known(n),
            forall|n: Seq<char>|
                n != self.by_node@[m].node_id@ ==> #[trigger] self.node_ids(n) == o.node_ids(n),
            self.node_known(self.by_node@[m].node_id@),
            self.node_ids(self.by_node@[m].node_id@) == self.by_node@[
                m
            ].container_ids.deep_view(),
    {
        let fresh = self.by_node@[m].node_id@;
        assert forall|n: Seq<char>| n != fresh implies #[trigger] self.node_known(n)
            == o.node_known(n) by {
            if self.node_known(n) {
                let k = self.node_index(n);
                assert(k < m);
                assert(o.by_node@[k].node_id@ == n);
            }
            if o.node_known(n) {
                let k = o.node_index(n);
                assert(self.by_node@[k].node_id@ == n);
            }
        }
        assert(self.unique_nodes());
        self.lemma_node_index_is(m);
        assert forall|n: Seq<char>| n != fresh implies #[trigger] self.node_ids(n)
            == o.node_ids(n) by {
            if o.node_known(n) {
                let k = o.node_index(n);
                o.lemma_node_index_is(k);
                self.lemma_node_index_is(k);
            }
        }
    }

    /// After the node index changed only at position `j`, keeping that
    /// entry's node identifier: every node keeps its membership and position,
    /// and only `j`'s list may differ.
    proof fn lemma_nodes_updated(&self, o: Registry, j: int)
        requires
            o.unique_nodes(),
            0 <= j < o.by_node@.len(),
            self.by_node@.len() == o.by_node@.len(),
            forall|k: int|
                0 <= k < o.by_node@.len() && k != j ==> #[trigger] self.by_node@[k]
                    == o.by_node@[k],
            self.by_node@[j].node_id@ == o.by_node@[j].node_id@,
        ensures
            self.unique_nodes(),
            forall|n: Seq<char>| #[trigger] self.node_known(n) == o.node_known(n),
            forall|n: Seq<char>|
                n != o.by_node@[j].node_id@ ==> #[trigger] self.node_ids(n) == o.node_ids(n),
            self.node_known(o.by_node@[j].node_id@),
            self.node_ids(o.by_node@[j].node_id@) == self.by_node@[
                j
            ].container_ids.deep_view(),
    {
        assert(forall|k: int|
            0 <= k < self.by_node@.len() ==> #[trigger] self.by_node@[k].node_id@ == o.by_node@[
                k
            ].node_id@);
        assert forall|n: Seq<char>| #[trigger] self.node_known(n) == o.node_known(n) by {
            if self.node_known(n) {
                let k = self.node_index(n);
                assert(o.by_node@[k].node_id@ == n);
            }
            if o.node_known(n) {
                let k = o.node_index(n);
                assert(self.by_node@[k].node_id@ == n);
            }
        }
        assert(self.unique_nodes());
        self.lemma_node_index_is(j);
        o.lemma_node_index_is(j);
        assert forall|n: Seq<char>| n != o.by_node@[j].node_id@ && #[trigger] self.node_known(
            n,
        ) implies self.node_ids(n) == o.node_ids(n) by {
            let k = o.node_index(n);
            o.lemma_node_index_is(k);
            self.lemma_node_index_is(k);
            assert(k != j);
        }
    }

    /// Inserts the record of a freshly created container and lists its
    /// identifier under its node, creating the node's entry if need be.
    /// Everything else is untouched.
    pub fn insert_container(&mut self, st: ContainerState)
        requires
            old(self).wf(),
            !old(self).has_container(st.id@),
        ensures
            final(self).wf(),
            final(self).has_container(st.id@),
            final(self).container_view(st.id@) == st@,
            forall|id: Seq<char>|
                id != st.id@ ==> #[trigger] final(self).has_container(id) == old(
                    self,
                ).has_container(id),
            forall|id: Seq<char>|
                id != st.id@ && old(self).has_container(id) ==> #[trigger] final(self).container_view(id) == old(self).container_view(id),
            final(self).node_known(st.node_id@),
            final(self).node_ids(st.node_id@) == old(self).node_ids(st.node_id@).push(st.id@),
            forall|n: Seq<char>|
                n != st.node_id@ ==> #[trigger] final(self).node_known(n) == old(
                    self,
                ).node_known(n),
            forall|n: Seq<char>|
                n != st.node_id@ ==> #[trigger] final(self).node_ids(n) == old(self).node_ids(n),
    {
        let ghost o = *old(self);
        match self.find_node(st.node_id.as_str()) {
            Some(j) => {
                let mut entry = self.by_node.remove(j);
                let ghost list0 = entry.container_ids.deep_view();
                entry.container_ids.push(st.id.clone());
                proof {
                    assert(entry.container_ids.deep_view() =~= list0.push(st.id@));
                }
                self.by_node.insert(j, entry);
                proof {
                    assert(forall|k: int|
                        0 <= k < o.by_node@.len() && k != j ==> #[trigger] self.by_node@[k]
                            == o.by_node@[k]);
                    self.lemma_nodes_updated(o, j as int);
                    o.lemma_node_index_is(j as int);
                }
            },
            None => {
                let mut ids: Vec<String> = Vec::new();
                ids.push(st.id.clone());
                let entry = NodeContainers {
                    node_id: st.node_id.clone(),
                    container_ids: ids,
                };
                proof {
                    assert(entry.container_ids.deep_view() =~= Seq::<Seq<char>>::empty().push(
                        st.id@,
                    ));
                }
                self.by_node.push(entry);
                proof {
                    self.lemma_nodes_extended(o, o.by_node@.len() as int);
                }
            },
        }
        proof {
            // The node facts hold of the intermediate state and depend only
            // on by_node, which the container push below leaves alone.
            assert(self.node_known(st.node_id@));
            assert(self.node_ids(st.node_id@) =~= o.node_ids(st.node_id@).push(st.id@));
        }
        let ghost mid = *self;
        self.containers.push(st);
        proof {
            let m = o.containers@.len() as int;
            assert(self.containers@ =~= o.containers@.push(st));
            assert(self.by_node@ == mid.by_node@);
            // Node-level spec functions see only by_node.
            assert forall|n: Seq<char>|
                #[trigger] self.node_known(n) == mid.node_known(n) && self.node_ids(n)
                    == mid.node_ids(n) by {
                assert(self.by_node@ == mid.by_node@);
            }
            // Identifier uniqueness: the new identifier is fresh.
            assert(forall|i: int| 0 <= i < m ==> #[trigger] self.containers@[i].id@ != st.id@);
            assert(self.unique_containers());
            self.lemma_container_index_is(m);
            assert forall|id: Seq<char>| id != st.id@ implies #[trigger] self.has_container(id)
                == o.has_container(id) by {
                if self.has_container(id) {
                    let i = self.container_index(id);
                    assert(i < m);
                    assert(o.containers@[i].id@ == id);
                }
                if o.has_container(id) {
                    let i = o.container_index(id);
                    assert(self.containers@[i].id@ == id);
                }
            }
            assert forall|id: Seq<char>| id != st.id@ && o.has_container(id) implies
                #[trigger] self.container_view(id) == o.container_view(id) by {
                let i = o.container_index(id);
                o.lemma_container_index_is(i);
                self.lemma_container_index_is(i);
            }
            // The invariant's linking conditions.
            assert forall|i: int| 0 <= i < self.containers@.len() implies self.node_ids(
                #[trigger] self.containers@[i].node_id@,
            ).contains(self.containers@[i].id@) by {
                if i < m {
                    let rec = o.containers@[i];
                    assert(o.node_ids(rec.node_id@).contains(rec.id@));
                    if rec.node_id@ == st.node_id@ {
                        let ids = o.node_ids(rec.node_id@);
                        let k = choose|k: int| 0 <= k < ids.len() && ids[k] == rec.id@;
                        assert(self.node_ids(rec.node_id@)[k] == rec.id@);
                    }
                } else {
                    let ids = self.node_ids(st.node_id@);
                    assert(ids[ids.len() - 1] == st.id@);
                }
            }
            assert forall|j: int, k: int|
                0 <= j < self.by_node@.len() && 0 <= k
                    < self.by_node@[j].container_ids@.len() implies self.has_container(
                #[trigger] self.by_node@[j].container_ids@[k]@,
            ) && self.container_view(self.by_node@[j].container_ids@[k]@).node_id
                == self.by_node@[j].node_id@ by {
                let x = self.by_node@[j].container_ids@[k]@;
                let jn = self.by_node@[j].node_id@;
                self.lemma_node_index_is(j);
                if jn == st.node_id@ {
                    let ids = self.node_ids(st.node_id@);
                    assert(self.by_node@[j].container_ids.deep_view() == ids);
                    assert(ids[k] == x);
                    if k < ids.len() - 1 {
                        assert(o.node_ids(st.node_id@)[k] == x);
                        o.lemma_listed_is_backed(st.node_id@, k);
                        assert(x != st.id@);
                        assert(self.container_view(x) == o.container_view(x));
                    } else {
                        assert(x == st.id@);
                    }
                } else {
                    assert(self.node_ids(jn) == o.node_ids(jn));
                    assert(o.node_ids(jn)[k] == x);
                    o.lemma_listed_is_backed(jn, k);
                    assert(x != st.id@);
                }
            }
            assert forall|j: int, k1: int, k2: int|
                0 <= j < self.by_node@.len() && 0 <= k1 < k2
                    < self.by_node@[j].container_ids@.len() implies
                #[trigger] self.by_node@[j].container_ids@[k1]@
                    != #[trigger] self.by_node@[j].container_ids@[k2]@ by {
                let jn = self.by_node@[j].node_id@;
                self.lemma_node_index_is(j);
                let ids = self.by_node@[j].container_ids.deep_view();
                if jn == st.node_id@ {
                    assert(ids == o.node_ids(st.node_id@).push(st.id@));
                    if k2 < ids.len() - 1 {
                        o.lemma_node_list_distinct(st.node_id@, k1, k2);
                    } else {
                        o.lemma_listed_is_backed(st.node_id@, k1);
                        assert(ids[k1] != st.id@);
                    }
                } else {
                    assert(ids == o.node_ids(jn));
                    o.lemma_node_list_distinct(jn, k1, k2);
                }
            }
            assert(self.wf());
        }
    }

    /// Under the invariant, a listed identifier is backed by a record with
    /// the node's identifier.
    proof fn lemma_listed_is_backed(&self, node: Seq<char>, k: int)
        requires
            self.wf(),
            self.node_known(node),
            0 <= k < self.node_ids(node).len(),
        ensures
            self.has_container(self.node_ids(node)[k]),
            self.container_view(self.node_ids(node)[k]).node_id == node,
    {
        let j = self.node_index(node);
        self.lemma_node_index_is(j);
        assert(self.by_node@[j].container_ids@[k]@ == self.node_ids(node)[k]);
    }

    /// Under the invariant, a node's list nowhere repeats an identifier.
    proof fn lemma_node_list_distinct(&self, node: Seq<char>, k1: int, k2: int)
        requires
            self.wf(),
            self.node_known(node),
            0 <= k1 < k2 < self.node_ids(node).len(),
        ensures
            self.node_ids(node)[k1] != self.node_ids(node)[k2],
    {
        let j = self.node_index(node);
        self.lemma_node_index_is(j);
        assert(self.by_node@[j].container_ids@[k1]@ == self.node_ids(node)[k1]);
        assert(self.by_node@[j].container_ids@[k2]@ == self.node_ids(node)[k2]);
    }

    /// After the record at `i` was removed, with the rest shifted into place:
    /// only that record's identifier is gone, and the others keep their views.
    proof fn lemma_containers_removed(&self, o: Registry, i: int)
        requires
            o.unique_containers(),
            0 <= i < o.containers@.len(),
            self.containers@ == o.containers@.remove(i),
        ensures
            self.unique_containers(),
            !self.has_container(o.containers@[i].id@),
            forall|x: Seq<char>|
                x != o.containers@[i].id@ ==> #[trigger] self.has_container(x)
                    == o.has_container(x),
            forall|x: Seq<char>|
                x != o.containers@[i].id@ && o.has_container(x) ==> #[trigger] self.container_view(
                    x,
                ) == o.container_view(x),
    {
        let rid = o.containers@[i].id@;
        assert(forall|k: int|
            0 <= k < i ==> #[trigger] self.containers@[k] == o.containers@[k]);
        assert(forall|k: int|
            i <= k < self.containers@.len() ==> #[trigger] self.containers@[k] == o.containers@[
                k + 1
            ]);
        assert forall|k1: int, k2: int| 0 <= k1 < k2 < self.containers@.len() implies
            #[trigger] self.containers@[k1].id@ != #[trigger] self.containers@[k2].id@ by {
            let t1 = if k1 < i { k1 } else { k1 + 1 };
            let t2 = if k2 < i { k2 } else { k2 + 1 };
            assert(o.containers@[t1].id@ != o.containers@[t2].id@);
        }
        if self.has_container(rid) {
            let k = self.container_index(rid);
            let t = if k < i { k } else { k + 1 };
            assert(o.containers@[t].id@ == rid && t != i);
            if t < i {
                assert(o.containers@[t].id@ != o.containers@[i].id@);
            } else {
                assert(o.containers@[i].id@ != o.containers@[t].id@);
            }
        }
        assert forall|x: Seq<char>| x != rid implies #[trigger] self.has_container(x)
            == o.has_container(x) by {
            if self.has_container(x) {
                let k = self.container_index(x);
                let t = if k < i { k } else { k + 1 };
                assert(o.containers@[t].id@ == x);
            }
            if o.has_container(x) {
                let t = o.container_index(x);
                assert(t != i);
                let k = if t < i { t } else { t - 1 };
                assert(self.containers@[k].id@ == x);
            }
        }
        assert forall|x: Seq<char>| x != rid && o.has_container(x) implies
            #[trigger] self.container_view(x) == o.container_view(x) by {
            let t = o.container_index(x);
            o.lemma_container_index_is(t);
            assert(t != i);
            let k = if t < i { t } else { t - 1 };
            assert(self.containers@[k] == o.containers@[t]);
            self.lemma_container_index_is(k);
        }
    }

    /// Removes a container's record and takes its identifier out of its
    /// node's list. Removing an unknown identifier changes nothing and is
    /// not an error.
    pub fn remove_container(&mut self, id: &String) -> (r: Option<ContainerState>)
        requires
            old(self).wf(),
        ensures
            final(self).wf(),
            !final(self).has_container(id@),
            forall|x: Seq<char>|
                x != id@ ==> #[trigger] final(self).has_container(x) == old(
                    self,
                ).has_container(x),
            forall|x: Seq<char>|
                x != id@ && old(self).has_container(x) ==> #[trigger] final(self).container_view(
                    x,
                ) == old(self).container_view(x),
            !old(self).has_container(id@) ==> (r is None && *final(self) == *old(self)),
            old(self).has_container(id@) ==> (r matches Some(st) && st@ == old(
                self,
            ).container_view(id@)),
            forall|n: Seq<char>| #[trigger] final(self).node_known(n) == old(self).node_known(n),
            old(self).has_container(id@) ==> forall|n: Seq<char>|
                n != old(self).container_view(id@).node_id ==> #[trigger] final(self).node_ids(n)
                    == old(self).node_ids(n),
            old(self).has_container(id@) ==> final(self).node_ids(
                old(self).container_view(id@).node_id,
            ) == remove_id(old(self).node_ids(old(self).container_view(id@).node_id), id@),
    {
        let ghost o = *old(self);
        match self.find_container(id.as_str()) {
            None => {
                assert(!o.has_container(id@));
                None
            },
            Some(i) => {
                proof {
                    o.lemma_container_index_is(i as int);
                }
                let st = self.containers.remove(i);
                proof {
                    assert(st == o.containers@[i as int]);
                    self.lemma_containers_removed(o, i as int);
                    // The record's node has an entry: the record was listed.
                    assert(o.node_ids(st.node_id@).contains(st.id@));
                    assert(o.node_known(st.node_id@)) by {
                        if !o.node_known(st.node_id@) {
                            assert(o.node_ids(st.node_id@).len() == 0);
                        }
                    }
                    assert(self.by_node@ == o.by_node@);
                }
                let node_pos = self.find_node(st.node_id.as_str());
                match node_pos {
                    Some(j) => {
                        proof {
                            o.lemma_node_index_is(j as int);
                        }
                        let mut entry = self.by_node.remove(j);
                        let ghost ids = entry.container_ids.deep_view();
                        let mut kept: Vec<String> = Vec::new();
                        let mut k: usize = 0;
                        proof {
                            reveal(Seq::filter);
                            assert(ids.take(0) =~= Seq::<Seq<char>>::empty());
                            assert(remove_id(ids.take(0), id@) =~= Seq::<Seq<char>>::empty());
                        }
                        while k < entry.container_ids.len()
                            invariant
                                k <= entry.container_ids@.len(),
                                ids == entry.container_ids.deep_view(),
                                ids.len() == entry.container_ids@.len(),
                                kept.deep_view() == remove_id(ids.take(k as int), id@),
                            decreases entry.container_ids@.len() - k,
                        {
                            let ghost kept0 = kept.deep_view();
                            proof {
                                reveal(Seq::filter);
                                assert(ids.take(k + 1).drop_last() =~= ids.take(k as int));
                                assert(ids.take(k + 1).last() == ids[k as int]);
                            }
                            if !str_eq(entry.container_ids[k].as_str(), id.as_str()) {
                                kept.push(entry.container_ids[k].clone());
                                proof {
                                    assert(kept.deep_view() =~= kept0.push(ids[k as int]));
                                }
                            }
                            k += 1;
                        }
                        proof {
                            assert(ids.take(ids.len() as int) =~= ids);
                        }
                        entry.container_ids = kept;
                        self.by_node.insert(j, entry);
                        proof {
                            let ghost mid = Registry {
                                containers: self.containers,
                                by_node: o.by_node,
                            };
                            assert(forall|kk: int|
                                0 <= kk < o.by_node@.len() && kk != j ==> #[trigger] self.by_node@[
                                    kk
                                ] == o.by_node@[kk]);
                            self.lemma_nodes_updated(mid, j as int);
                            self.lemma_remove_wf(o, st, id@, j as int);
                        }
                        Some(st)
                    },
                    None => {
                        proof {
                            let j = o.node_index(st.node_id@);
                            assert(o.by_node@[j].node_id@ == st.node_id@);
                            assert(false);
                        }
                        Some(st)
                    },
                }
            },
        }
    }

    /// The well-formedness and node-level postconditions of a removal, shown
    /// of the finished state.
    proof fn lemma_remove_wf(&self, o: Registry, st: ContainerState, id: Seq<char>, j: int)
        requires
            o.wf(),
            o.has_container(id),
            0 <= j < o.by_node@.len(),
            st == o.containers@[o.container_index(id)],
            st.id@ == id,
            o.by_node@[j].node_id@ == st.node_id@,
            self.containers@ == o.containers@.remove(o.container_index(id)),
            self.by_node@.len() == o.by_node@.len(),
            forall|k: int|
                0 <= k < o.by_node@.len() && k != j ==> #[trigger] self.by_node@[k] == o.by_node@[
                    k
                ],
            self.by_node@[j].node_id@ == o.by_node@[j].node_id@,
            self.by_node@[j].container_ids.deep_view() == remove_id(
                o.by_node@[j].container_ids.deep_view(),
                id,
            ),
        ensures
            self.wf(),
            forall|n: Seq<char>| #[trigger] self.node_known(n) == o.node_known(n),
            forall|n: Seq<char>|
                n != st.node_id@ ==> #[trigger] self.node_ids(n) == o.node_ids(n),
            self.node_ids(st.node_id@) == remove_id(o.node_ids(st.node_id@), id),
            !self.has_container(id),
            forall|x: Seq<char>|
                x != id ==> #[trigger] self.has_container(x) == o.has_container(x),
            forall|x: Seq<char>|
                x != id && o.has_container(x) ==> #[trigger] self.container_view(x)
                    == o.container_view(x),
    {
        let i = o.container_index(id);
        o.lemma_container_index_is(i);
        self.lemma_containers_removed(o, i);
        o.lemma_node_index_is(j);
        let mid = Registry { containers: self.containers, by_node: o.by_node };
        assert(mid.by_node@ == o.by_node@);
        assert(mid.unique_nodes());
        self.lemma_nodes_updated(mid, j);
        assert forall|n: Seq<char>| #[trigger] self.node_known(n) == o.node_known(n) by {
            assert(self.node_known(n) == mid.node_known(n));
            assert(mid.node_known(n) == o.node_known(n));
        }
        assert forall|n: Seq<char>| n != st.node_id@ implies #[trigger] self.node_ids(n)
            == o.node_ids(n) by {
            if o.node_known(n) {
                let kk = o.node_index(n);
                o.lemma_node_index_is(kk);
                mid.lemma_node_index_is(kk);
                assert(kk != j);
                self.lemma_node_index_is(kk);
            } else {
                assert(!self.node_known(n));
            }
        }
        self.lemma_node_index_is(j);
        assert(self.node_ids(st.node_id@) == remove_id(o.node_ids(st.node_id@), id));
        let oids = o.node_ids(st.node_id@);
        assert forall|k1: int, k2: int| 0 <= k1 < k2 < oids.len() implies #[trigger] oids[k1]
            != #[trigger] oids[k2] by {
            o.lemma_node_list_distinct(st.node_id@, k1, k2);
        }
        lemma_remove_id_props(oids, id);
        lemma_remove_id_distinct(oids, id);
        // Every remaining record is still listed under its node.
        assert forall|t: int| 0 <= t < self.containers@.len() implies self.node_ids(
            #[trigger] self.containers@[t].node_id@,
        ).contains(self.containers@[t].id@) by {
            let tt = if t < i {
                t
            } else {
                t + 1
            };
            let rec = o.containers@[tt];
            assert(self.containers@[t] == rec);
            assert(o.node_ids(rec.node_id@).contains(rec.id@));
            if tt < i {
                assert(o.containers@[tt].id@ != o.containers@[i].id@);
            } else {
                assert(o.containers@[i].id@ != o.containers@[tt].id@);
            }
            assert(rec.id@ != id);
            if rec.node_id@ == st.node_id@ {
                assert(remove_id(oids, id).contains(rec.id@));
            }
        }
        // Every listed identifier is still backed by a record with the node.
        assert forall|jj: int, kk: int|
            0 <= jj < self.by_node@.len() && 0 <= kk
                < self.by_node@[jj].container_ids@.len() implies self.has_container(
            #[trigger] self.by_node@[jj].container_ids@[kk]@,
        ) && self.container_view(self.by_node@[jj].container_ids@[kk]@).node_id
            == self.by_node@[jj].node_id@ by {
            let x = self.by_node@[jj].container_ids@[kk]@;
            let n = self.by_node@[jj].node_id@;
            self.lemma_node_index_is(jj);
            assert(self.node_ids(n)[kk] == x);
            if jj == j {
                assert(x != id);
                assert(oids.contains(x));
                let m = choose|m: int| 0 <= m < oids.len() && oids[m] == x;
                o.lemma_listed_is_backed(st.node_id@, m);
            } else {
                assert(o.by_node@[jj] == self.by_node@[jj]);
                o.lemma_node_index_is(jj);
                assert(o.node_ids(n)[kk] == x);
                o.lemma_listed_is_backed(n, kk);
                assert(o.container_view(x).node_id == n);
                if x == id {
                    assert(o.container_view(id).node_id == st.node_id@);
                    assert(o.by_node@[jj].node_id@ != o.by_node@[j].node_id@ || jj == j);
                    assert(false);
                }
            }
            assert(self.has_container(x));
            assert(self.container_view(x) == o.container_view(x));
        }
        // No node's list repeats an identifier.
        assert forall|jj: int, k1: int, k2: int|
            0 <= jj < self.by_node@.len() && 0 <= k1 < k2
                < self.by_node@[jj].container_ids@.len() implies
            #[trigger] self.by_node@[jj].container_ids@[k1]@
                != #[trigger] self.by_node@[jj].container_ids@[k2]@ by {
            self.lemma_node_index_is(jj);
            let n = self.by_node@[jj].node_id@;
            if jj == j {
                assert(self.node_ids(n) == remove_id(oids, id));
                assert(self.node_ids(n)[k1] == self.by_node@[jj].container_ids@[k1]@);
                assert(self.node_ids(n)[k2] == self.by_node@[jj].container_ids@[k2]@);
                assert(remove_id(oids, id)[k1] != remove_id(oids, id)[k2]);
            } else {
                assert(o.by_node@[jj] == self.by_node@[jj]);
                o.lemma_node_index_is(jj);
                o.lemma_node_list_distinct(n, k1, k2);
            }
        }
        assert(self.wf());
    }

    /// Updates the cached status of a container's record; an unknown
    /// identifier leaves the registry unchanged. Nothing else moves.
    pub fn set_container_status(&mut self, id: &String, status: String)
        requires
            old(self).wf(),
        ensures
            final(self).wf(),
            forall|x: Seq<char>|
                #[trigger] final(self).has_container(x) == old(self).has_container(x),
            old(self).has_container(id@) ==> final(self).container_view(id@)
                == (ContainerStateView { status: status@, ..old(self).container_view(id@) }),
            forall|x: Seq<char>|
                x != id@ && old(self).has_container(x) ==> #[trigger] final(self).container_view(
                    x,
                ) == old(self).container_view(x),
            forall|n: Seq<char>| #[trigger] final(self).node_known(n) == old(self).node_known(n),
            forall|n: Seq<char>| #[trigger] final(self).node_ids(n) == old(self).node_ids(n),
            !old(self).has_container(id@) ==> *final(self) == *old(self),
    {
        let ghost o = *old(self);
        match self.find_container(id.as_str()) {
            None => {
                assert(!o.has_container(id@));
            },
            Some(i) => {
                proof {
                    o.lemma_container_index_is(i as int);
                }
                let mut e = self.containers.remove(i);
                e.status = status;
                self.containers.insert(i, e);
                proof {
                    assert(self.containers@ =~= o.containers@.update(i as int, e));
                    assert(self.by_node@ == o.by_node@);
                    assert(forall|k: int|
                        0 <= k < self.containers@.len() ==> #[trigger] self.containers@[k].id@
                            == o.containers@[k].id@ && self.containers@[k].node_id@
                            == o.containers@[k].node_id@);
                    assert(self.unique_containers());
                    assert forall|x: Seq<char>| #[trigger] self.has_container(x)
                        == o.has_container(x) by {
                        if self.has_container(x) {
                            let k = self.container_index(x);
                            assert(o.containers@[k].id@ == x);
                        }
                        if o.has_container(x) {
                            let k = o.container_index(x);
                            assert(self.containers@[k].id@ == x);
                        }
                    }
                    self.lemma_container_index_is(i as int);
                    assert(self.container_view(id@) == (ContainerStateView {
                        status: status@,
                        ..o.container_view(id@)
                    }));
                    assert forall|x: Seq<char>| x != id@ && o.has_container(x) implies
                        #[trigger] self.container_view(x) == o.container_view(x) by {
                        let k = o.container_index(x);
                        o.lemma_container_index_is(k);
                        assert(k != i);
                        assert(self.containers@[k] == o.containers@[k]);
                        self.lemma_container_index_is(k);
                    }
                    assert forall|n: Seq<char>|
                        #[trigger] self.node_known(n) == o.node_known(n) && self.node_ids(n)
                            == o.node_ids(n) by {
                        assert(self.by_node@ == o.by_node@);
                    }
                    assert forall|t: int| 0 <= t < self.containers@.len() implies self.node_ids(
                        #[trigger] self.containers@[t].node_id@,
                    ).contains(self.containers@[t].id@) by {
                        assert(o.node_ids(o.containers@[t].node_id@).contains(
                            o.containers@[t].id@,
                        ));
                    }
                    assert forall|jj: int, kk: int|
                        0 <= jj < self.by_node@.len() && 0 <= kk
                            < self.by_node@[jj].container_ids@.len() implies self.has_container(
                        #[trigger] self.by_node@[jj].container_ids@[kk]@,
                    ) && self.container_view(self.by_node@[jj].container_ids@[kk]@).node_id
                        == self.by_node@[jj].node_id@ by {
                        let x = o.by_node@[jj].container_ids@[kk]@;
                        assert(o.has_container(x));
                        if x == id@ {
                            assert(self.container_view(x).node_id == o.container_view(
                                x,
                            ).node_id);
                        }
                    }
                    assert(self.wf());
                }
            },
        }
    }
}

/// Creating a container and immediately removing it restores the node's
/// index: after the pair of operations the identifier is listed nowhere
/// under the node, and the node's list is exactly what it was before the
/// creation. `r0` is the registry before the insertion, `r1` the one after
/// it, and `r2` the one after the removal; the hypotheses are the two
/// operations' contracts instantiated at those states.
pub proof fn lemma_insert_then_remove_restores_node(
    r0: Registry,
    r1: Registry,
    r2: Registry,
    st: ContainerState,
)
    requires
        r0.wf(),
        !r0.has_container(st.id@),
        r1.node_ids(st.node_id@) == r0.node_ids(st.node_id@).push(st.id@),
        r2.node_ids(st.node_id@) == remove_id(r1.node_ids(st.node_id@), st.id@),
    ensures
        r2.node_ids(st.node_id@) == r0.node_ids(st.node_id@),
        !r2.node_ids(st.node_id@).contains(st.id@),
{
    let ids0 = r0.node_ids(st.node_id@);
    assert forall|k: int| 0 <= k < ids0.len() implies ids0[k] != st.id@ by {
        if r0.node_known(st.node_id@) {
            r0.lemma_listed_is_backed(st.node_id@, k);
        } else {
            assert(ids0.len() == 0);
        }
    }
    lemma_remove_id_push(ids0, st.id@);
    lemma_remove_id_absent(ids0, st.id@);
    if r2.node_ids(st.node_id@).contains(st.id@) {
        let k = choose|k: int|
            0 <= k < r2.node_ids(st.node_id@).len() && r2.node_ids(st.node_id@)[k] == st.id@;
        assert(false);
    }
}

} // verus!
