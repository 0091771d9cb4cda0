//! The introspection-response cache and its outcome handling.
//!
//! Well-known introspection queries are answered from a small
//! capacity-bounded store; on a miss, the planner is asked (by the
//! surrounding runtime) and its answer is turned into either a cached
//! response or an introspection error.

use vstd::prelude::*;

use crate::values::Value;

verus! {

/// How many introspection responses the store keeps by default.
pub const DEFAULT_INTROSPECTION_CACHE_CAPACITY: usize = 5;

/// A GraphQL response: optional data and the errors reported alongside it.
pub struct GraphqlResponse {
    pub data: Option<Value>,
    pub errors: Vec<String>,
}

/// Mathematical image of a response.
pub ghost struct GraphqlResponseModel {
    pub data: Option<crate::values::ValueModel>,
    pub errors: Seq<Seq<char>>,
}

impl View for GraphqlResponse {
    type V = GraphqlResponseModel;

    open spec fn view(&self) -> GraphqlResponseModel {
        GraphqlResponseModel {
            data: match self.data {
                Some(v) => Some(v@),
                None => None,
            },
            errors: self.errors@.map_values(|e: String| e@),
        }
    }
}

impl GraphqlResponse {
    /// A successful response holding the given data and no errors.
    pub fn with_data(data: Value) -> (r: Self)
        ensures
            r@.data == Some(data@),
            r@.errors.len() == 0,
    {
        let r = GraphqlResponse { data: Some(data), errors: Vec::new() };
        proof {
            assert(r@.errors =~= Seq::<Seq<char>>::empty());
        }
        r
    }

    /// Copies a response; the copy has the same mathematical image.
    pub fn duplicate(&self) -> (r: Self)
        ensures
            r@ == self@,
    {
        let data = match &self.data {
            Some(v) => Some(v.clone()),
            None => None,
        };
        let mut errors: Vec<String> = Vec::new();
        let mut i: usize = 0;
        while i < self.errors.len()
            invariant
                i <= self.errors@.len(),
                errors@.len() == i,
                forall|j: int| 0 <= j < i ==> #[trigger] errors@[j] == self.errors@[j],
            decreases self.errors@.len() - i,
        {
            errors.push(self.errors[i].clone());
            i = i + 1;
        }
        proof {
            assert(errors@ =~= self.errors@);
        }
        GraphqlResponse { data, errors }
    }
}

/// The value a list of entries associates with a key: the most recently
/// inserted entry wins.
pub open spec fn stored(s: Seq<(String, GraphqlResponse)>, k: Seq<char>) -> Option<GraphqlResponse>
    decreases s.len(),
{
    if s.len() == 0 {
        None
    } else if s.last().0@ == k {
        Some(s.last().1)
    } else {
        stored(s.drop_last(), k)
    }
}

/// With pairwise-distinct keys, an entry list associates exactly its keys,
/// each with its own entry's response.
proof fn lemma_stored_props(s: Seq<(String, GraphqlResponse)>)
    requires
        forall|i: int, j: int|
            0 <= i < j < s.len() ==> (#[trigger] s[i]).0@ != (#[trigger] s[j]).0@,
    ensures
        forall|k: Seq<char>|
            (#[trigger] stored(s, k)) is Some <==> exists|i: int|
                0 <= i < s.len() && (#[trigger] s[i]).0@ == k,
        forall|i: int|
            0 <= i < s.len() ==> stored(s, (#[trigger] s[i]).0@) == Some(s[i].1),
    decreases s.len(),
{
    if s.len() > 0 {
        let pre = s.drop_last();
        let n = s.len() - 1;
        assert(forall|i: int| 0 <= i < pre.len() ==> #[trigger] pre[i] == s[i]);
        lemma_stored_props(pre);
        assert forall|k: Seq<char>| (#[trigger] stored(s, k)) is Some implies exists|i: int|
            0 <= i < s.len() && (#[trigger] s[i]).0@ == k by {
            if k == s.last().0@ {
                assert(0 <= n < s.len() && s[n].0@ == k);
            } else {
                assert(stored(pre, k) is Some);
                let i = choose|i: int| 0 <= i < pre.len() && (#[trigger] pre[i]).0@ == k;
                assert(0 <= i < s.len() && s[i].0@ == k);
            }
        }
        assert forall|k: Seq<char>|
            (exists|i: int| 0 <= i < s.len() && (#[trigger] s[i]).0@ == k) implies (
        #[trigger] stored(s, k)) is Some by {
            let i = choose|i: int| 0 <= i < s.len() && (#[trigger] s[i]).0@ == k;
            if i < n {
                assert(pre[i].0@ == k);
            }
        }
        assert forall|i: int| 0 <= i < s.len() implies stored(s, (#[trigger] s[i]).0@) == Some(
            s[i].1,
        ) by {
            if i < n {
                assert(s[i].0@ != s.last().0@);
                assert(stored(pre, pre[i].0@) == Some(pre[i].1));
            }
        }
    }
}

/// A capacity-bounded key/value store for responses: at most `capacity`
/// entries, each key held once; when full, inserting evicts the oldest
/// entry.
pub struct CacheStorage {
    capacity: usize,
    entries: Vec<(String, GraphqlResponse)>,
}

impl CacheStorage {
    /// Keys are held once, and the store never exceeds its capacity, which
    /// is at least one.
    pub closed spec fn wf(&self) -> bool {
        &&& self.capacity >= 1
        &&& self.entries@.len() <= self.capacity
        &&& forall|i: int, j: int|
            0 <= i < j < self.entries@.len() ==> (#[trigger] self.entries@[i]).0@ != (
            #[trigger] self.entries@[j]).0@
    }

    /// The capacity the store was created with.
    pub closed spec fn spec_capacity(&self) -> usize {
        self.capacity
    }

    /// The entries currently held, oldest first.
    pub closed spec fn view(&self) -> Seq<(String, GraphqlResponse)> {
        self.entries@
    }

    /// Creates an empty store holding at most `capacity` entries.
    pub fn new(capacity: usize) -> (c: Self)
        requires
            capacity >= 1,
        ensures
            c.wf(),
            c.spec_capacity() == capacity,
            c@ == Seq::<(String, GraphqlResponse)>::empty(),
    {
        let c = CacheStorage { capacity, entries: Vec::new() };
        proof {
            assert(c@ =~= Seq::<(String, GraphqlResponse)>::empty());
        }
        c
    }

    /// Looks a key up; the returned response is a copy of the stored one.
    pub fn get(&self, key: &String) -> (r: Option<GraphqlResponse>)
        requires
            self.wf(),
        ensures
            match stored(self@, key@) {
                Some(v) => r is Some && r->0@ == v@,
                None => r is None,
            },
    {
        proof {
            lemma_stored_props(self@);
        }
        let mut i: usize = 0;
        while i < self.entries.len()
            invariant
                self.wf(),
                i <= self@.len(),
                forall|j: int| 0 <= j < i ==> (#[trigger] self@[j]).0@ != key@,
            decreases self@.len() - i,
        {
            let hit = {
                let e = &self.entries[i];
                e.0 == *key
            };
            if hit {
                proof {
                    lemma_stored_props(self@);
                }
                let e = &self.entries[i];
                return Some(e.1.duplicate());
            }
            i = i + 1;
        }
        proof {
            if stored(self@, key@) is Some {
                lemma_stored_props(self@);
                let j = choose|j: int| 0 <= j < self@.len() && (#[trigger] self@[j]).0@ == key@;
            }
        }
        None
    }

    /// Inserts a fresh key. When the store is full, the oldest entry is
    /// evicted; the new entry is always held afterwards.
    pub fn insert(&mut self, key: String, response: GraphqlResponse)
        requires
            old(self).wf(),
            stored(old(self)@, key@) is None,
        ensures
            final(self).wf(),
            final(self).spec_capacity() == old(self).spec_capacity(),
            final(self)@ == (if old(self)@.len() < old(self).spec_capacity() {
                old(self)@
            } else {
                old(self)@.drop_first()
            }).push((key, response)),
            stored(final(self)@, key@) == Some((key, response).1),
    {
        proof {
            lemma_stored_props(self.entries@);
            if exists|i: int|
                0 <= i < self.entries@.len() && (#[trigger] self.entries@[i]).0@ == key@ {
                let j = choose|j: int|
                    0 <= j < self.entries@.len() && (#[trigger] self.entries@[j]).0@ == key@;
                assert(stored(self.entries@, key@) is Some);
            }
        }
        if self.entries.len() >= self.capacity {
            let ghost before = self.entries@;
            self.entries.remove(0);
            proof {
                before.remove_ensures(0);
                assert(self.entries@ =~= before.drop_first());
            }
        }
        self.entries.push((key, response));
        proof {
            let news = self.entries@;
            assert(news.drop_last() =~= news.subrange(0, news.len() - 1));
            assert(forall|i: int, j: int|
                0 <= i < j < news.len() ==> (#[trigger] news[i]).0@ != (#[trigger] news[j]).0@);
        }
    }
}

/// The error reported when an introspection query cannot be answered.
#[derive(Debug)]
pub struct IntrospectionError {
    pub message: String,
}

/// A list of texts joined with a separator between consecutive elements.
pub open spec fn joined(s: Seq<Seq<char>>, sep: Seq<char>) -> Seq<char>
    decreases s.len(),
{
    if s.len() == 0 {
        Seq::empty()
    } else if s.len() == 1 {
        s[0]
    } else {
        joined(s.drop_last(), sep) + sep + s.last()
    }
}

/// Joins error texts with a separator.
fn join_errors(errs: &Vec<String>, sep: &str) -> (r: String)
    ensures
        r@ == joined(errs@.map_values(|e: String| e@), sep@),
{
    let ghost vs = errs@.map_values(|e: String| e@);
    let mut out = String::new();
    let mut i: usize = 0;
    while i < errs.len()
        invariant
            i <= errs@.len(),
            vs == errs@.map_values(|e: String| e@),
            out@ == joined(vs.subrange(0, i as int), sep@),
        decreases errs@.len() - i,
    {
        if i > 0 {
            out.append(sep);
        }
        out.append(errs[i].as_str());
        proof {
            let ii = i as int;
            assert(vs.subrange(0, ii + 1).drop_last() =~= vs.subrange(0, ii));
            assert(vs.subrange(0, ii + 1).last() == vs[ii]);
            if i == 0 {
                assert(out@ =~= vs.subrange(0, 1)[0]);
            }
        }
        i = i + 1;
    }
    proof {
        assert(vs.subrange(0, vs.len() as int) =~= vs);
    }
    out
}

/// A cache of well-known introspection queries. The planner that answers a
/// missed query lives with the surrounding runtime; this type decides what
/// is answered from the cache and what each planner answer becomes.
pub struct Introspection {
    cache: CacheStorage,
}

impl Introspection {
    /// The store never exceeds its capacity and holds each query once.
    pub closed spec fn wf(&self) -> bool {
        self.cache.wf()
    }

    /// The cached entries, oldest first.
    pub closed spec fn view(&self) -> Seq<(String, GraphqlResponse)> {
        self.cache@
    }

    /// The capacity the cache was created with.
    pub closed spec fn spec_capacity(&self) -> usize {
        self.cache.spec_capacity()
    }

    /// A cache for at most `capacity` responses.
    pub fn with_capacity(capacity: usize) -> (r: Self)
        requires
            capacity >= 1,
        ensures
            r.wf(),
            r.spec_capacity() == capacity,
            r@ == Seq::<(String, GraphqlResponse)>::empty(),
    {
        Introspection { cache: CacheStorage::new(capacity) }
    }

    /// A cache with the default capacity.
    pub fn new() -> (r: Self)
        ensures
            r.wf(),
            r.spec_capacity() == DEFAULT_INTROSPECTION_CACHE_CAPACITY,
            r@ == Seq::<(String, GraphqlResponse)>::empty(),
    {
        Self::with_capacity(DEFAULT_INTROSPECTION_CACHE_CAPACITY)
    }

    /// A cache pre-filled with the given entries, sized to hold exactly
    /// them. The list must be non-empty (a cache has capacity for at least
    /// one response) and hold each query once.
    pub fn from_cache(entries: Vec<(String, GraphqlResponse)>) -> (r: Self)
        requires
            entries@.len() >= 1,
            forall|i: int, j: int|
                0 <= i < j < entries@.len() ==> (#[trigger] entries@[i]).0@ != (
                #[trigger] entries@[j]).0@,
        ensures
            r.wf(),
            r.spec_capacity() == entries@.len(),
            r@ == entries@,
    {
        let ghost orig = entries@;
        let mut rest = entries;
        let mut this = Introspection { cache: CacheStorage::new(rest.len()) };
        while rest.len() > 0
            invariant
                this.wf(),
                this.spec_capacity() == orig.len(),
                orig.len() >= 1,
                rest@.len() <= orig.len(),
                this.cache@ =~= orig.subrange(0, orig.len() - rest@.len()),
                rest@ =~= orig.subrange(orig.len() - rest@.len(), orig.len() as int),
                forall|i: int, j: int|
                    0 <= i < j < orig.len() ==> (#[trigger] orig[i]).0@ != (#[trigger] orig[j]).0@,
            decreases rest@.len(),
        {
            let ghost done = orig.len() - rest@.len();
            let ghost before = rest@;
            let entry = rest.remove(0);
            proof {
                before.remove_ensures(0);
                assert(entry == orig[done]);
                assert(rest@ =~= orig.subrange(done + 1, orig.len() as int)) by {
                    assert(forall|j: int|
                        0 <= j < rest@.len() ==> #[trigger] rest@[j] == before[j + 1]);
                }
                lemma_stored_props(this.cache@);
                assert(stored(this.cache@, entry.0@) is None) by {
                    if stored(this.cache@, entry.0@) is Some {
                        let j = choose|j: int|
                            0 <= j < this.cache@.len() && (#[trigger] this.cache@[j]).0@
                                == entry.0@;
                        assert(orig[j].0@ == orig[done].0@);
                    }
                }
            }
            this.cache.insert(entry.0, entry.1);
            proof {
                assert(this.cache@ =~= orig.subrange(0, done + 1));
            }
        }
        proof {
            assert(this.cache@ =~= orig);
        }
        this
    }

    /// The cached response for a query, when one is held.
    pub fn cached(&self, query: &String) -> (r: Option<GraphqlResponse>)
        requires
            self.wf(),
        ensures
            match stored(self@, query@) {
                Some(v) => r is Some && r->0@ == v@,
                None => r is None,
            },
    {
        self.cache.get(query)
    }

    /// Turns the planner's answer for a missed query into the caller's
    /// result. No answer reports that the introspection response cannot be
    /// found; an answer carrying errors reports them joined into one
    /// message; a clean answer becomes a response holding its data, which
    /// is cached under the query and returned.
    pub fn settle(&mut self, query: String, planner_response: Option<GraphqlResponse>) -> (r: Result<
        GraphqlResponse,
        IntrospectionError,
    >)
        requires
            old(self).wf(),
            stored(old(self)@, query@) is None,
        ensures
            final(self).wf(),
            final(self).spec_capacity() == old(self).spec_capacity(),
            match planner_response {
                None => final(self)@ == old(self)@ && match r {
                    Err(e) => e.message@ == "cannot find the introspection response"@,
                    _ => false,
                },
                Some(pr) => {
                    if pr@.errors.len() > 0 {
                        final(self)@ == old(self)@ && match r {
                            Err(e) => e.message@ == "introspection error : "@ + joined(
                                pr@.errors,
                                ", "@,
                            ),
                            _ => false,
                        }
                    } else {
                        match r {
                            Ok(resp) => {
                                &&& resp@.data == pr@.data
                                &&& resp@.errors.len() == 0
                                &&& final(self)@.len() <= final(self).spec_capacity()
                                &&& final(self)@.len() >= 1
                                &&& final(self)@.last().0 == query
                                &&& final(self)@.last().1@ == resp@
                                &&& final(self)@.drop_last() == (if old(self)@.len() < old(
                                    self,
                                ).spec_capacity() {
                                    old(self)@
                                } else {
                                    old(self)@.drop_first()
                                })
                            },
                            _ => false,
                        }
                    }
                },
            },
    {
        match planner_response {
            None => Err(
                IntrospectionError {
                    message: String::from_str("cannot find the introspection response"),
                },
            ),
            Some(pr) => {
                if pr.errors.len() > 0 {
                    let mut message = String::from_str("introspection error : ");
                    let details = join_errors(&pr.errors, ", ");
                    message.append(details.as_str());
                    Err(IntrospectionError { message })
                } else {
                    let response = GraphqlResponse { data: pr.data, errors: Vec::new() };
                    let copy = response.duplicate();
                    self.cache.insert(query, copy);
                    proof {
                        assert(response@.errors =~= Seq::<Seq<char>>::empty());
                    }
                    Ok(response)
                }
            },
        }
    }
}

} // verus!
