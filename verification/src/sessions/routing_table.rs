//! Routing table: capability name → server id.
use crate::strmap::StrMap;
use crate::text::views;
use vstd::prelude::*;

verus! {

/// Maps capabilities to the servers that provide them.
#[derive(Debug, Clone)]
pub struct RoutingTable {
    entries: StrMap<String>,
}

impl View for RoutingTable {
    type V = Map<Seq<char>, Seq<char>>;

    closed spec fn view(&self) -> Map<Seq<char>, Seq<char>> {
        self.entries@.map_values(|s: String| s@)
    }
}

impl RoutingTable {
    pub closed spec fn wf(&self) -> bool {
        self.entries.wf()
    }

    /// The routes in insertion order, as (capability, server id).
    pub closed spec fn routes(&self) -> Seq<(Seq<char>, Seq<char>)> {
        self.entries.pairs().map_values(|e: (Seq<char>, String)| (e.0, e.1@))
    }

    /// An empty table.
    pub fn new() -> (t: Self)
        ensures
            t.wf(),
            t@ == Map::<Seq<char>, Seq<char>>::empty(),
    {
        let t = RoutingTable { entries: StrMap::new() };
        assert(t@ =~= Map::<Seq<char>, Seq<char>>::empty());
        t
    }

    /// Routes `capability` to `server_id`, replacing an earlier route.
    pub fn add_route(&mut self, capability: &str, server_id: String)
        requires
            old(self).wf(),
        ensures
            final(self).wf(),
            final(self)@ == old(self)@.insert(capability@, server_id@),
    {
        let ghost sid = server_id@;
        let _ = self.entries.insert(capability.to_owned(), server_id);
        assert(self@ =~= old(self)@.insert(capability@, sid));
    }

    /// Removes the route of `capability`, returning its server.
    pub fn remove_route(&mut self, capability: &str) -> (r: Option<String>)
        requires
            old(self).wf(),
        ensures
            final(self).wf(),
            final(self)@ == old(self)@.remove(capability@),
            match r {
                Some(s) => old(self)@.contains_key(capability@) && s@ == old(self)@[capability@],
                None => !old(self)@.contains_key(capability@),
            },
    {
        let r = self.entries.remove(capability);
        assert(self@ =~= old(self)@.remove(capability@));
        r
    }

    /// The server that `capability` is routed to.
    pub fn lookup(&self, capability: &str) -> (r: Option<&String>)
        requires
            self.wf(),
        ensures
            match r {
                Some(s) => self@.contains_key(capability@) && s@ == self@[capability@],
                None => !self@.contains_key(capability@),
            },
    {
        self.entries.get(capability)
    }

    /// Removes every route to `server_id`, returning the capabilities removed.
    pub fn remove_routes_for_server(&mut self, server_id: &str) -> (removed: Vec<String>)
        requires
            old(self).wf(),
        ensures
            final(self).wf(),
            final(self)@ == old(self)@.restrict(
                old(self)@.dom().filter(|k: Seq<char>| old(self)@[k] != server_id@),
            ),
            forall|k: Seq<char>|
                #[trigger] views(removed@).contains(k) <==> (old(
                    self,
                )@.contains_key(k) && old(self)@[k] == server_id@),
            views(removed@).no_duplicates(),
    {
        let ghost start = self@;
        let keys = self.entries.keys();
        let ghost ks = views(keys@);
        proof {
            self.entries.lemma_keys_distinct();
            assert(ks =~= crate::strmap::keys_of(self.entries.pairs()));
        }
        let mut removed: Vec<String> = Vec::new();
        let mut i: usize = 0;
        while i < keys.len()
            invariant
                i <= keys.len(),
                self.wf(),
                ks == views(keys@),
                ks.no_duplicates(),
                ks.to_set() == start.dom(),
                forall|k: Seq<char>|
                    #[trigger] self@.contains_key(k) <==> (start.contains_key(k) && !(ks.subrange(
                        0,
                        i as int,
                    ).contains(k) && start[k] == server_id@)),
                forall|k: Seq<char>| #[trigger] self@.contains_key(k) ==> self@[k] == start[k],
                forall|k: Seq<char>|
                    #[trigger] views(removed@).contains(k) <==> (ks.subrange(
                        0,
                        i as int,
                    ).contains(k) && start[k] == server_id@),
                views(removed@).no_duplicates(),
            decreases keys.len() - i,
        {
            let ghost before_removed = views(removed@);
            let ghost k_i = ks[i as int];
            assert(ks.subrange(0, i + 1) =~= ks.subrange(0, i as int).push(k_i));
            assert(start.contains_key(k_i)) by {
                assert(ks.to_set().contains(k_i));
            }
            assert(!ks.subrange(0, i as int).contains(k_i)) by {
                if ks.subrange(0, i as int).contains(k_i) {
                    let j = choose|j: int| 0 <= j < i && ks.subrange(0, i as int)[j] == k_i;
                    assert(ks[j] == ks[i as int]);
                }
            }
            let k = &keys[i];
            let hit = match self.entries.get(k.as_str()) {
                Some(sid) => crate::text::str_eq(sid.as_str(), server_id),
                None => false,
            };
            let ghost pre = self@;
            assert(pre.contains_key(k_i));
            assert(pre[k_i] == start[k_i]);
            assert(k@ == k_i);
            if hit {
                let _ = self.entries.remove(k.as_str());
                assert(self@ =~= pre.remove(k_i));
                removed.push(k.clone());
                assert(views(removed@) =~= before_removed.push(k_i));
                assert(!before_removed.contains(k_i));
                assert(views(removed@).no_duplicates()) by {
                    let r = views(removed@);
                    assert forall|x: int, y: int|
                        0 <= x < r.len() && 0 <= y < r.len() && x != y implies r[x] != r[y] by {
                        if x == before_removed.len() {
                            assert(r[y] == before_removed[y]);
                        } else if y == before_removed.len() {
                            assert(r[x] == before_removed[x]);
                        } else {
                            assert(r[x] == before_removed[x]);
                            assert(r[y] == before_removed[y]);
                        }
                    }
                }
            } else {
                assert(start[k_i] != server_id@);
            }
            proof {
                let a = ks.subrange(0, i as int);
                let b = ks.subrange(0, i + 1);
                assert forall|k: Seq<char>| #[trigger] b.contains(k) == (a.contains(k) || k == k_i) by {
                    if a.contains(k) {
                        let j = choose|j: int| 0 <= j < a.len() && a[j] == k;
                        assert(b[j] == k);
                    }
                    if k == k_i {
                        assert(b[i as int] == k);
                    }
                    if b.contains(k) {
                        let j = choose|j: int| 0 <= j < b.len() && b[j] == k;
                        if j < i {
                            assert(a[j] == k);
                        }
                    }
                }
                assert forall|k: Seq<char>|
                    #[trigger] self@.contains_key(k) <==> (start.contains_key(k) && !(b.contains(k)
                        && start[k] == server_id@)) by {
                    assert(b.contains(k) == (a.contains(k) || k == k_i));
                }
                assert forall|k: Seq<char>|
                    #[trigger] views(removed@).contains(k) <==> (b.contains(k) && start[k]
                        == server_id@) by {
                    assert(b.contains(k) == (a.contains(k) || k == k_i));
                    if hit {
                        assert(views(removed@).contains(k) == (before_removed.contains(k) || k == k_i)) by {
                            if before_removed.contains(k) {
                                let j = choose|j: int| 0 <= j < before_removed.len() && before_removed[j] == k;
                                assert(views(removed@)[j] == k);
                            }
                            if k == k_i {
                                assert(views(removed@)[before_removed.len() as int] == k);
                            }
                            if views(removed@).contains(k) {
                                let j = choose|j: int| 0 <= j < views(removed@).len() && views(removed@)[j] == k;
                                if j < before_removed.len() {
                                    assert(before_removed[j] == k);
                                }
                            }
                        }
                    }
                }
            }
            i = i + 1;
        }
        assert(ks.subrange(0, i as int) =~= ks);
        assert forall|k: Seq<char>| #[trigger] start.contains_key(k) implies ks.contains(k) by {
            assert(ks.to_set().contains(k));
        }
        assert(self@ =~= start.restrict(start.dom().filter(|k: Seq<char>| start[k] != server_id@)));
        removed
    }

    /// The routes in order, as (capability, server id).
    pub fn entries(&self) -> (r: &StrMap<String>)
        requires
            self.wf(),
        ensures
            r.wf(),
            r@.map_values(|s: String| s@) == self@,
    {
        &self.entries
    }

    /// Number of routes.
    pub fn len(&self) -> (n: usize)
        requires
            self.wf(),
        ensures
            n == self@.len(),
    {
        proof {
            self.entries.lemma_len();
            assert(self@.dom() =~= self.entries@.dom());
        }
        self.entries.len()
    }

    /// Whether there are no routes.
    pub fn is_empty(&self) -> (b: bool)
        requires
            self.wf(),
        ensures
            b == (self@.len() == 0),
    {
        proof {
            self.entries.lemma_len();
            assert(self@.dom() =~= self.entries@.dom());
        }
        self.entries.is_empty()
    }
}

} // verus!
