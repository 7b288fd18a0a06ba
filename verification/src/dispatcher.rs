//! Routing of requests to handlers by method and path.
use crate::bytes::{
    bytes_eq, copy_bytes, lemma_eq_cons, lemma_prefix_cons, split, split_segments, views, SLASH,
};
use crate::error::{Error, ErrorKind};
use crate::status::Status;
use std::sync::Arc;
use vstd::prelude::*;
use vstd::string::StringSliceAdditionalSpecFns;

verus! {

/// The byte that a wildcard segment is written with.
pub const STAR: u8 = 0x2a;

/// What one segment of a registered path accepts.
pub enum Matcher {
    /// The segment that equals these bytes.
    Val(Seq<u8>),
    /// Any one segment.
    Any,
    /// All the segments that are left, of which there is at least one.
    AllTheRest,
}

/// What the segment `segment` of a path pattern stands for: `*` for any one
/// segment, `**` for all the rest, anything else for itself.
pub open spec fn matcher_of(segment: Seq<u8>) -> Matcher {
    if segment == seq![STAR] {
        Matcher::Any
    } else if segment == seq![STAR, STAR] {
        Matcher::AllTheRest
    } else {
        Matcher::Val(segment)
    }
}

/// The matchers that the segments `segments` of a path pattern stand for.
pub open spec fn matchers_of(segments: Seq<Seq<u8>>) -> Seq<Matcher> {
    Seq::new(segments.len(), |i: int| matcher_of(segments[i]))
}

/// Whether `**` stands nowhere in `pattern` but at its end.
pub open spec fn rest_only_last(pattern: Seq<Matcher>) -> bool {
    forall|i: int| 0 <= i < pattern.len() - 1 ==> !(pattern[i] is AllTheRest)
}

/// One segment of a registered path.
#[derive(Debug)]
pub enum Segment {
    /// A literal segment.
    Val(Vec<u8>),
    /// `*`
    Any,
    /// `**`
    AllTheRest,
}

impl View for Segment {
    type V = Matcher;

    open spec fn view(&self) -> Matcher {
        match self {
            Segment::Val(v) => Matcher::Val(v@),
            Segment::Any => Matcher::Any,
            Segment::AllTheRest => Matcher::AllTheRest,
        }
    }
}

impl Segment {
    /// Reads one segment of a path pattern.
    pub fn from_bytes(segment: Vec<u8>) -> (r: Segment)
        ensures
            r@ == matcher_of(segment@),
    {
        if segment.len() == 1 && segment[0] == STAR {
            assert(segment@ =~= seq![STAR]);
            Segment::Any
        } else if segment.len() == 2 && segment[0] == STAR && segment[1] == STAR {
            assert(segment@ =~= seq![STAR, STAR]);
            Segment::AllTheRest
        } else {
            proof {
                if segment@ == seq![STAR] {
                    assert(seq![STAR].len() == 1);
                    assert(seq![STAR][0] == STAR);
                }
                if segment@ == seq![STAR, STAR] {
                    assert(seq![STAR, STAR].len() == 2);
                    assert(seq![STAR, STAR][0] == STAR);
                    assert(seq![STAR, STAR][1] == STAR);
                }
            }
            Segment::Val(segment)
        }
    }

    /// Whether two segments accept the same.
    pub fn same(&self, other: &Segment) -> (r: bool)
        ensures
            r == (self@ == other@),
    {
        match (self, other) {
            (Segment::Val(a), Segment::Val(b)) => bytes_eq(a.as_slice(), b.as_slice()),
            (Segment::Any, Segment::Any) => true,
            (Segment::AllTheRest, Segment::AllTheRest) => true,
            _ => false,
        }
    }
}

/// The matchers of the segments in `v`.
pub open spec fn segment_views(v: Seq<Segment>) -> Seq<Matcher> {
    Seq::new(v.len(), |i: int| v[i]@)
}

/// A parsed path pattern.
#[derive(Debug)]
pub struct Path(pub Vec<Segment>);

impl View for Path {
    type V = Seq<Matcher>;

    open spec fn view(&self) -> Seq<Matcher> {
        segment_views(self.0@)
    }
}

impl Path {
    /// Whether `**` stands nowhere in the path but at its end.
    pub fn rest_is_last(&self) -> (r: bool)
        ensures
            r == rest_only_last(self@),
    {
        let n = self.0.len();
        let mut i: usize = 0;
        while i < n
            invariant
                i <= n,
                n == self.0@.len(),
                forall|k: int| 0 <= k < i && k < n - 1 ==> !(#[trigger] self@[k] is AllTheRest),
            decreases n - i,
        {
            let is_rest = match &self.0[i] {
                Segment::AllTheRest => true,
                _ => false,
            };
            if is_rest && i + 1 < n {
                proof {
                    assert(self@[i as int] is AllTheRest);
                }
                return false;
            }
            i += 1;
        }
        true
    }

    /// Whether `path` is a path pattern: it begins with `/`, and `**` is
    /// nowhere but in its last segment.
    pub open spec fn is_pattern(path: Seq<u8>) -> bool {
        &&& path.len() > 0
        &&& path[0] == SLASH
        &&& rest_only_last(Path::pattern_of(path))
    }

    /// The pattern that `path` is written for: one matcher for each segment
    /// behind the leading `/`.
    pub open spec fn pattern_of(path: Seq<u8>) -> Seq<Matcher> {
        matchers_of(split(path.skip(1)))
    }

    /// Parses a path pattern such as `/foo/*/bar` or `/static/**`.
    ///
    /// # Errors
    ///
    /// An `ErrorKind::InvalidInput` error is returned where `path` is empty,
    /// does not begin with `/`, or holds `**` before its last segment.
    pub fn parse(path: &str) -> (r: Result<Path, Error>)
        ensures
            r is Ok <==> Path::is_pattern(path.spec_bytes()),
            r matches Ok(p) ==> p@ == Path::pattern_of(path.spec_bytes()),
            r matches Err(e) ==> e.spec_kind() == ErrorKind::InvalidInput,
    {
        let bytes = path.as_bytes();
        if bytes.len() == 0 {
            return Err(Error::invalid_input("a path cannot be empty"));
        }
        if bytes[0] != SLASH {
            return Err(Error::invalid_input("a path has to begin with '/'"));
        }
        let mut raw = split_segments(bytes, 1);
        let ghost all = views(raw@);
        let ghost pattern = matchers_of(all);
        let n = raw.len();
        let mut segments: Vec<Segment> = Vec::new();
        let mut is_last = false;
        let mut i: usize = 0;
        while i < n
            invariant
                i <= n,
                n == raw.len(),
                all.len() == n,
                forall|k: int| i <= k < n ==> raw@[k]@ == all[k],
                pattern == matchers_of(all),
                pattern == Path::pattern_of(path.spec_bytes()),
                segments@.len() == i,
                forall|k: int| 0 <= k < i ==> segments@[k]@ == pattern[k],
                forall|k: int| 0 <= k < i - 1 ==> !(pattern[k] is AllTheRest),
                is_last == (i > 0 && pattern[i - 1] is AllTheRest),
            decreases n - i,
        {
            if is_last {
                proof {
                    assert(pattern[i - 1] is AllTheRest);
                    assert(!rest_only_last(pattern));
                }
                return Err(
                    Error::invalid_input("'**' is allowed to be located only at the end of a path"),
                );
            }
            let mut taken: Vec<u8> = Vec::new();
            std::mem::swap(&mut raw[i], &mut taken);
            let segment = Segment::from_bytes(taken);
            is_last = match segment {
                Segment::AllTheRest => true,
                _ => false,
            };
            segments.push(segment);
            i += 1;
        }
        proof {
            assert(segment_views(segments@) =~= pattern);
            assert(rest_only_last(pattern));
        }
        Ok(Path(segments))
    }
}


/// Whether `matcher` accepts the path segment `actual`.
pub open spec fn accepts(matcher: Matcher, actual: Seq<u8>) -> bool {
    match matcher {
        Matcher::Val(v) => v == actual,
        Matcher::Any => true,
        Matcher::AllTheRest => true,
    }
}

/// Whether `pattern` matches the whole of `path`: segment by segment, where a
/// final `**` takes all the segments that are left, and at least one.
pub open spec fn pattern_matches(pattern: Seq<Matcher>, path: Seq<Seq<u8>>) -> bool {
    &&& forall|j: int| 0 <= j < pattern.len() ==> j < path.len() && accepts(#[trigger] pattern[j], path[j])
    &&& rest_only_last(pattern)
    &&& if pattern.len() > 0 && pattern.last() is AllTheRest {
        pattern.len() <= path.len()
    } else {
        pattern.len() == path.len()
    }
}

/// Whether two matchers cannot stand side by side below one node: they
/// differ, and one of them is a wildcard.
pub open spec fn clash(a: Matcher, b: Matcher) -> bool {
    a != b && (!(a is Val) || !(b is Val))
}

/// A node of the routing trie.
struct TrieNode<F> {
    segments: Vec<(Segment, Box<TrieNode<F>>)>,
    handlers: Vec<(Vec<u8>, F)>,
}

impl<F> TrieNode<F> {
    /// The index of the child that is reached through `matcher`.
    spec fn child_index(self, matcher: Matcher) -> Option<int> {
        if exists|i: int| 0 <= i < self.segments@.len() && (#[trigger] self.segments@[i]).0@ == matcher {
            Some(choose|i: int| 0 <= i < self.segments@.len() && (#[trigger] self.segments@[i]).0@ == matcher)
        } else {
            None
        }
    }

    /// The index of the handler that is registered here for `method`.
    spec fn handler_index(self, method: Seq<u8>) -> Option<int> {
        if exists|i: int| 0 <= i < self.handlers@.len() && (#[trigger] self.handlers@[i]).0@ == method {
            Some(choose|i: int| 0 <= i < self.handlers@.len() && (#[trigger] self.handlers@[i]).0@ == method)
        } else {
            None
        }
    }

    /// Whether a node stands at `pattern` below this node.
    spec fn has_node(self, pattern: Seq<Matcher>) -> bool
        decreases pattern.len(),
    {
        if pattern.len() == 0 {
            true
        } else {
            match self.child_index(pattern[0]) {
                Some(i) => (*self.segments@[i].1).has_node(pattern.skip(1)),
                None => false,
            }
        }
    }

    /// The handler that is registered for `method` at `pattern` below this node.
    spec fn lookup(self, pattern: Seq<Matcher>, method: Seq<u8>) -> Option<F>
        decreases pattern.len(),
    {
        if pattern.len() == 0 {
            match self.handler_index(method) {
                Some(i) => Some(self.handlers@[i].1),
                None => None,
            }
        } else {
            match self.child_index(pattern[0]) {
                Some(i) => (*self.segments@[i].1).lookup(pattern.skip(1), method),
                None => None,
            }
        }
    }

    /// The invariant of the trie: below one node no matcher stands twice, a
    /// wildcard stands alone, nothing stands below `**`, and no method has
    /// two handlers.
    spec fn wf(self) -> bool
        decreases self,
    {
        &&& forall|i: int, j: int|
            0 <= i < j < self.segments@.len() ==> (#[trigger] self.segments@[i]).0@ != (
            #[trigger] self.segments@[j]).0@
        &&& forall|i: int|
            0 <= i < self.segments@.len() && !((#[trigger] self.segments@[i]).0@ is Val)
                ==> self.segments@.len() == 1
        &&& forall|i: int|
            0 <= i < self.segments@.len() && (#[trigger] self.segments@[i]).0@ is AllTheRest
                ==> self.segments@[i].1.segments@.len() == 0
        &&& forall|i: int, j: int|
            0 <= i < j < self.handlers@.len() ==> (#[trigger] self.handlers@[i]).0@ != (
            #[trigger] self.handlers@[j]).0@
        &&& forall|i: int| 0 <= i < self.segments@.len() ==> (*(#[trigger] self.segments@[i]).1).wf()
    }
}


impl<F> TrieNode<F> {
    /// Whether `method` cannot be registered at `pattern` below this node:
    /// somewhere on the way a matcher stands that clashes with the one of
    /// `pattern`, or `method` has a handler there already.
    spec fn conflicts(self, pattern: Seq<Matcher>, method: Seq<u8>) -> bool {
        ||| exists|k: int, c: Matcher|
            0 <= k < pattern.len() && #[trigger] self.has_node(pattern.take(k).push(c)) && clash(
                c,
                pattern[k],
            )
        ||| self.lookup(pattern, method) is Some
    }

    /// The labels of the children are the matchers of `self.segments`.
    proof fn lemma_child_index(self, i: int)
        requires
            self.wf(),
            0 <= i < self.segments@.len(),
        ensures
            self.child_index(self.segments@[i].0@) == Some(i),
    {
        let m = self.segments@[i].0@;
        let j = choose|j: int| 0 <= j < self.segments@.len() && (#[trigger] self.segments@[j]).0@ == m;
        assert(0 <= j < self.segments@.len() && self.segments@[j].0@ == m);
        if j < i {
            assert(self.segments@[j].0@ != self.segments@[i].0@);
        } else if i < j {
            assert(self.segments@[i].0@ != self.segments@[j].0@);
        }
    }

    /// The child that `m` leads to stands at its index in `segments`.
    proof fn lemma_child_index_some(self, m: Matcher)
        requires
            self.child_index(m) is Some,
        ensures
            0 <= self.child_index(m).unwrap() < self.segments@.len(),
            self.segments@[self.child_index(m).unwrap()].0@ == m,
    {
    }

    /// The handlers are found by their methods.
    proof fn lemma_handler_index(self, i: int)
        requires
            self.wf(),
            0 <= i < self.handlers@.len(),
        ensures
            self.handler_index(self.handlers@[i].0@) == Some(i),
    {
        let m = self.handlers@[i].0@;
        let j = choose|j: int| 0 <= j < self.handlers@.len() && (#[trigger] self.handlers@[j]).0@ == m;
        assert(0 <= j < self.handlers@.len() && self.handlers@[j].0@ == m);
        if j < i {
            assert(self.handlers@[j].0@ != self.handlers@[i].0@);
        } else if i < j {
            assert(self.handlers@[i].0@ != self.handlers@[j].0@);
        }
    }

    /// The handler for `m` stands at its index in `handlers`.
    proof fn lemma_handler_index_some(self, m: Seq<u8>)
        requires
            self.handler_index(m) is Some,
        ensures
            0 <= self.handler_index(m).unwrap() < self.handlers@.len(),
            self.handlers@[self.handler_index(m).unwrap()].0@ == m,
    {
    }

    /// A node without children and handlers.
    fn new() -> (node: Self)
        ensures
            node.wf(),
            forall|q: Seq<Matcher>| #[trigger] node.has_node(q) <==> q.len() == 0,
            forall|q: Seq<Matcher>, m: Seq<u8>| #[trigger] node.lookup(q, m) is None,
    {
        let node = TrieNode { segments: Vec::new(), handlers: Vec::new() };
        proof {
            assert forall|q: Seq<Matcher>| #[trigger] node.has_node(q) <==> q.len() == 0 by {
                if q.len() > 0 {
                    assert(node.child_index(q[0]) is None);
                }
            }
            assert forall|q: Seq<Matcher>, m: Seq<u8>| #[trigger] node.lookup(q, m) is None by {
                if q.len() > 0 {
                    assert(node.child_index(q[0]) is None);
                } else {
                    assert(node.handler_index(m) is None);
                }
            }
        }
        node
    }

    /// The index of the child that is reached through `segment`.
    fn find_child(&self, segment: &Segment) -> (r: Option<usize>)
        requires
            self.wf(),
        ensures
            r matches Some(i) ==> self.child_index(segment@) == Some(i as int) && i
                < self.segments@.len() && self.segments@[i as int].0@ == segment@,
            r is None ==> self.child_index(segment@) is None,
    {
        let mut i: usize = 0;
        while i < self.segments.len()
            invariant
                self.wf(),
                i <= self.segments@.len(),
                forall|k: int| 0 <= k < i ==> (#[trigger] self.segments@[k]).0@ != segment@,
            decreases self.segments@.len() - i,
        {
            if self.segments[i].0.same(segment) {
                proof {
                    self.lemma_child_index(i as int);
                }
                return Some(i);
            }
            i += 1;
        }
        None
    }

    /// The index of the handler that is registered here for `method`.
    fn find_handler(&self, method: &[u8]) -> (r: Option<usize>)
        requires
            self.wf(),
        ensures
            r matches Some(i) ==> self.handler_index(method@) == Some(i as int) && i
                < self.handlers@.len() && self.handlers@[i as int].0@ == method@,
            r is None ==> self.handler_index(method@) is None,
    {
        let mut i: usize = 0;
        while i < self.handlers.len()
            invariant
                self.wf(),
                i <= self.handlers@.len(),
                forall|k: int| 0 <= k < i ==> (#[trigger] self.handlers@[k]).0@ != method@,
            decreases self.handlers@.len() - i,
        {
            if bytes_eq(self.handlers[i].0.as_slice(), method) {
                proof {
                    self.lemma_handler_index(i as int);
                }
                return Some(i);
            }
            i += 1;
        }
        None
    }
}

impl Segment {
    /// A copy of the segment.
    pub fn duplicate(&self) -> (r: Segment)
        ensures
            r@ == self@,
    {
        match self {
            Segment::Val(v) => Segment::Val(copy_bytes(v.as_slice())),
            Segment::Any => Segment::Any,
            Segment::AllTheRest => Segment::AllTheRest,
        }
    }
}

impl<F> TrieNode<F> {
    /// The node at the head of a fresh branch: one child after another along
    /// `segments[from..]`, and at the end of it `handler` for `method`.
    fn chain(segments: &Vec<Segment>, from: usize, method: &[u8], handler: F) -> (node: Self)
        requires
            from <= segments.len(),
            rest_only_last(segment_views(segments@)),
        ensures
            node.wf(),
            from == segments.len() ==> node.segments@.len() == 0,
            forall|q: Seq<Matcher>| #[trigger]
                node.has_node(q) <==> q.is_prefix_of(segment_views(segments@).skip(from as int)),
            forall|q: Seq<Matcher>, m: Seq<u8>| #[trigger]
                node.lookup(q, m) == (if q == segment_views(segments@).skip(from as int) && m
                    == method@ {
                    Some(handler)
                } else {
                    None
                }),
        decreases segments.len() - from,
    {
        let ghost rest = segment_views(segments@).skip(from as int);
        if from == segments.len() {
            let mut handlers: Vec<(Vec<u8>, F)> = Vec::new();
            handlers.push((copy_bytes(method), handler));
            let node = TrieNode { segments: Vec::new(), handlers };
            proof {
                assert(rest =~= Seq::<Matcher>::empty());
                assert forall|q: Seq<Matcher>| #[trigger] node.has_node(q) <==> q.is_prefix_of(rest) by {
                    if q.len() > 0 {
                        assert(node.child_index(q[0]) is None);
                    } else {
                        assert(q =~= rest.subrange(0, 0));
                    }
                }
                node.lemma_handler_index(0);
                assert forall|q: Seq<Matcher>, m: Seq<u8>| #[trigger]
                    node.lookup(q, m) == (if q == rest && m == method@ {
                        Some(handler)
                    } else {
                        None::<F>
                    }) by {
                    if q.len() > 0 {
                        assert(node.child_index(q[0]) is None);
                    } else {
                        assert(q =~= rest);
                        if m != method@ {
                            if node.handler_index(m) is Some {
                                node.lemma_handler_index_some(m);
                            }
                        }
                    }
                }
            }
            node
        } else {
            let child = TrieNode::chain(segments, from + 1, method, handler);
            let ghost below = segment_views(segments@).skip(from + 1);
            let label = segments[from].duplicate();
            let mut edges: Vec<(Segment, Box<TrieNode<F>>)> = Vec::new();
            edges.push((label, Box::new(child)));
            let node = TrieNode { segments: edges, handlers: Vec::new() };
            proof {
                let m0 = segments@[from as int]@;
                assert(rest.len() > 0);
                assert(rest[0] == m0);
                assert(rest.skip(1) =~= below);
                assert(node.segments@[0].0@ == m0);
                assert(*node.segments@[0].1 == child);
                if m0 is AllTheRest {
                    assert(segment_views(segments@)[from as int] is AllTheRest);
                    assert(from + 1 == segments.len());
                }
                assert(node.wf());
                node.lemma_child_index(0);
                assert forall|q: Seq<Matcher>| #[trigger] node.has_node(q) <==> q.is_prefix_of(rest) by {
                    if q.len() == 0 {
                        assert(q =~= rest.subrange(0, 0));
                    } else {
                        lemma_prefix_cons(q, rest);
                        if q[0] == m0 {
                            assert(child.has_node(q.skip(1)) <==> q.skip(1).is_prefix_of(below));
                        } else if node.child_index(q[0]) is Some {
                            node.lemma_child_index_some(q[0]);
                        }
                    }
                }
                assert forall|q: Seq<Matcher>, m: Seq<u8>| #[trigger]
                    node.lookup(q, m) == (if q == rest && m == method@ {
                        Some(handler)
                    } else {
                        None::<F>
                    }) by {
                    if q.len() == 0 {
                        assert(node.handler_index(m) is None);
                    } else {
                        lemma_eq_cons(q, rest);
                        if q[0] == m0 {
                            assert(node.lookup(q, m) == child.lookup(q.skip(1), m));
                        } else if node.child_index(q[0]) is Some {
                            node.lemma_child_index_some(q[0]);
                        }
                    }
                }
            }
            node
        }
    }
}


impl<F> TrieNode<F> {
    /// Whether two nodes hold the same nodes and handlers below them.
    spec fn same_routes(self, other: Self) -> bool {
        &&& forall|q: Seq<Matcher>| #[trigger] self.has_node(q) == other.has_node(q)
        &&& forall|q: Seq<Matcher>, m: Seq<u8>| #[trigger] self.lookup(q, m) == other.lookup(q, m)
    }

    /// What a successful registration of `handler` for `method` at `pattern`
    /// makes of the node `self`: the node `after`.
    spec fn registered(
        self,
        after: Self,
        pattern: Seq<Matcher>,
        method: Seq<u8>,
        handler: F,
    ) -> bool {
        &&& forall|q: Seq<Matcher>| #[trigger]
            after.has_node(q) == (self.has_node(q) || q.is_prefix_of(pattern))
        &&& forall|q: Seq<Matcher>, m: Seq<u8>| #[trigger]
            after.lookup(q, m) == (if q == pattern && m == method {
                Some(handler)
            } else {
                self.lookup(q, m)
            })
    }

    /// A registration at the node itself: the node `after` has one handler
    /// more than `self`, for a method that had none.
    proof fn lemma_register_here(self, after: Self, method: Seq<u8>, handler: F)
        requires
            self.wf(),
            self.handler_index(method) is None,
            after.segments@ == self.segments@,
            after.handlers@.len() == self.handlers@.len() + 1,
            forall|k: int| 0 <= k < self.handlers@.len() ==> after.handlers@[k] == self.handlers@[k],
            after.handlers@[self.handlers@.len() as int].0@ == method,
            after.handlers@[self.handlers@.len() as int].1 == handler,
        ensures
            after.wf(),
            !self.conflicts(Seq::empty(), method),
            self.registered(after, Seq::empty(), method, handler),
    {
        let n = self.handlers@.len() as int;
        assert forall|i: int, j: int| 0 <= i < j < after.handlers@.len() implies (
        #[trigger] after.handlers@[i]).0@ != (#[trigger] after.handlers@[j]).0@ by {
            if j == n {
                assert(self.handlers@[i].0@ != method);
            } else {
                assert(self.handlers@[i].0@ != self.handlers@[j].0@);
            }
        }
        assert(after.wf());
        after.lemma_handler_index(n);
        assert forall|q: Seq<Matcher>| #[trigger]
            after.has_node(q) == (self.has_node(q) || q.is_prefix_of(Seq::<Matcher>::empty())) by {
            self.lemma_same_children(after, q);
            if q.len() == 0 {
                assert(q =~= Seq::<Matcher>::empty().subrange(0, 0));
            }
        }
        assert forall|q: Seq<Matcher>, m: Seq<u8>| #[trigger]
            after.lookup(q, m) == (if q == Seq::<Matcher>::empty() && m == method {
                Some(handler)
            } else {
                self.lookup(q, m)
            }) by {
            self.lemma_same_children(after, q);
            if q.len() == 0 {
                assert(q =~= Seq::<Matcher>::empty());
                if m != method {
                    if self.handler_index(m) is Some {
                        let i = self.handler_index(m).unwrap();
                        self.lemma_handler_index_some(m);
                        assert(after.handlers@[i].0@ == m);
                        after.lemma_handler_index(i);
                    } else if after.handler_index(m) is Some {
                        let i = after.handler_index(m).unwrap();
                        after.lemma_handler_index_some(m);
                        assert(i < n);
                        assert(self.handlers@[i].0@ == m);
                    }
                }
            }
        }
    }

    /// Nodes with the same children hold the same nodes, and below their
    /// children the same handlers.
    proof fn lemma_same_children(self, other: Self, q: Seq<Matcher>)
        requires
            other.segments@ == self.segments@,
        ensures
            other.has_node(q) == self.has_node(q),
            q.len() > 0 ==> forall|m: Seq<u8>| other.lookup(q, m) == self.lookup(q, m),
    {
        if q.len() > 0 {
            assert(other.child_index(q[0]) == self.child_index(q[0]));
        }
    }

    /// A child whose matcher clashes with the first one of `pattern` is a conflict.
    proof fn lemma_clash_conflicts(self, j: int, pattern: Seq<Matcher>, method: Seq<u8>)
        requires
            self.wf(),
            pattern.len() > 0,
            0 <= j < self.segments@.len(),
            clash(self.segments@[j].0@, pattern[0]),
        ensures
            self.conflicts(pattern, method),
    {
        let c = self.segments@[j].0@;
        let q = pattern.take(0).push(c);
        self.lemma_child_index(j);
        assert(q[0] == c);
        assert(q.skip(1).len() == 0);
        assert((*self.segments@[j].1).has_node(q.skip(1)));
        assert(self.has_node(q));
    }

    /// No registration below a child that is already there clashes at this node.
    proof fn lemma_no_clash_beside(self, i: int, c: Matcher)
        requires
            self.wf(),
            0 <= i < self.segments@.len(),
            self.child_index(c) is Some,
        ensures
            !clash(c, self.segments@[i].0@),
    {
        self.lemma_child_index_some(c);
        let j = self.child_index(c).unwrap();
        if j != i {
            if j < i {
                assert(self.segments@[j].0@ != self.segments@[i].0@);
            } else {
                assert(self.segments@[i].0@ != self.segments@[j].0@);
            }
            assert(self.segments@.len() >= 2);
        }
    }

    /// A registration below the child `i`: what it does to the child, it
    /// does to the node, and it conflicts with the node as with the child.
    proof fn lemma_register_below(
        self,
        after: Self,
        i: int,
        pattern: Seq<Matcher>,
        method: Seq<u8>,
        handler: F,
        ok: bool,
    )
        requires
            self.wf(),
            pattern.len() > 0,
            0 <= i < self.segments@.len(),
            self.segments@[i].0@ == pattern[0],
            after.handlers@ == self.handlers@,
            after.segments@.len() == self.segments@.len(),
            forall|j: int|
                0 <= j < self.segments@.len() && j != i ==> after.segments@[j] == self.segments@[j],
            after.segments@[i].0 == self.segments@[i].0,
            (*after.segments@[i].1).wf(),
            (*after.segments@[i].1).segments@.len() > 0 ==> (*self.segments@[i].1).segments@.len() > 0
                || pattern.len() > 1,
            pattern[0] is AllTheRest ==> pattern.len() == 1,
            ok <==> !(*self.segments@[i].1).conflicts(pattern.skip(1), method),
            ok ==> (*self.segments@[i].1).registered(
                *after.segments@[i].1,
                pattern.skip(1),
                method,
                handler,
            ),
            !ok ==> (*after.segments@[i].1).same_routes(*self.segments@[i].1),
        ensures
            after.wf(),
            ok <==> !self.conflicts(pattern, method),
            ok ==> self.registered(after, pattern, method, handler),
            !ok ==> after.same_routes(self),
    {
        let before = *self.segments@[i].1;
        let below = *after.segments@[i].1;
        let tail = pattern.skip(1);
        let m0 = pattern[0];
        // the labels are the same
        assert forall|j: int| 0 <= j < self.segments@.len() implies (#[trigger] after.segments@[j]).0@
            == self.segments@[j].0@ by {}
        assert forall|a: int, b: int| 0 <= a < b < after.segments@.len() implies (
        #[trigger] after.segments@[a]).0@ != (#[trigger] after.segments@[b]).0@ by {
            assert(self.segments@[a].0@ != self.segments@[b].0@);
        }
        assert forall|j: int|
            0 <= j < after.segments@.len() && !((#[trigger] after.segments@[j]).0@ is Val) implies after.segments@.len()
            == 1 by {
            assert(!(self.segments@[j].0@ is Val));
        }
        assert forall|j: int|
            0 <= j < after.segments@.len() && (#[trigger] after.segments@[j]).0@ is AllTheRest implies after.segments@[j].1.segments@.len()
            == 0 by {
            assert(self.segments@[j].0@ is AllTheRest);
        }
        assert forall|j: int| 0 <= j < after.segments@.len() implies (*(
        #[trigger] after.segments@[j]).1).wf() by {
            if j != i {
                assert((*self.segments@[j].1).wf());
            }
        }
        assert forall|a: int, b: int| 0 <= a < b < after.handlers@.len() implies (
        #[trigger] after.handlers@[a]).0@ != (#[trigger] after.handlers@[b]).0@ by {
            assert(self.handlers@[a].0@ != self.handlers@[b].0@);
        }
        assert(after.wf());
        // the children are reached through the same matchers
        assert forall|c: Matcher| after.child_index(c) == self.child_index(c) by {
            if self.child_index(c) is Some {
                self.lemma_child_index_some(c);
                let j = self.child_index(c).unwrap();
                assert(after.segments@[j].0@ == c);
                after.lemma_child_index(j);
            } else if after.child_index(c) is Some {
                after.lemma_child_index_some(c);
                let j = after.child_index(c).unwrap();
                assert(self.segments@[j].0@ == c);
            }
        }
        self.lemma_child_index(i);
        // conflicts here are conflicts below
        if self.conflicts(pattern, method) {
            if self.lookup(pattern, method) is Some {
                assert(before.lookup(tail, method) is Some);
            } else {
                let (k, c) = choose|k: int, c: Matcher|
                    0 <= k < pattern.len() && #[trigger] self.has_node(pattern.take(k).push(c))
                        && clash(c, pattern[k]);
                let q = pattern.take(k).push(c);
                if k == 0 {
                    assert(q[0] == c);
                    assert(self.child_index(c) is Some);
                    self.lemma_no_clash_beside(i, c);
                } else {
                    assert(q[0] == m0);
                    assert(q.skip(1) =~= tail.take(k - 1).push(c));
                    assert(before.has_node(tail.take(k - 1).push(c)));
                    assert(tail[k - 1] == pattern[k]);
                }
            }
            assert(before.conflicts(tail, method));
        }
        if before.conflicts(tail, method) {
            if before.lookup(tail, method) is Some {
                assert(self.lookup(pattern, method) is Some);
            } else {
                let (k, c) = choose|k: int, c: Matcher|
                    0 <= k < tail.len() && #[trigger] before.has_node(tail.take(k).push(c)) && clash(
                        c,
                        tail[k],
                    );
                let q = pattern.take(k + 1).push(c);
                assert(q[0] == m0);
                assert(q.skip(1) =~= tail.take(k).push(c));
                assert(self.has_node(q));
                assert(tail[k] == pattern[k + 1]);
            }
            assert(self.conflicts(pattern, method));
        }
        if ok {
            assert forall|q: Seq<Matcher>| #[trigger]
                after.has_node(q) == (self.has_node(q) || q.is_prefix_of(pattern)) by {
                if q.len() == 0 {
                    assert(q =~= pattern.subrange(0, 0));
                } else {
                    lemma_prefix_cons(q, pattern);
                    if q[0] == m0 {
                        assert(below.has_node(q.skip(1)) == (before.has_node(q.skip(1)) || q.skip(
                            1,
                        ).is_prefix_of(tail)));
                    } else if self.child_index(q[0]) is Some {
                        self.lemma_child_index_some(q[0]);
                    }
                }
            }
            assert forall|q: Seq<Matcher>, m: Seq<u8>| #[trigger]
                after.lookup(q, m) == (if q == pattern && m == method {
                    Some(handler)
                } else {
                    self.lookup(q, m)
                }) by {
                if q.len() == 0 {
                    assert(after.handler_index(m) == self.handler_index(m));
                } else {
                    lemma_eq_cons(q, pattern);
                    if q[0] == m0 {
                        assert(below.lookup(q.skip(1), m) == (if q.skip(1) == tail && m == method {
                            Some(handler)
                        } else {
                            before.lookup(q.skip(1), m)
                        }));
                    } else if self.child_index(q[0]) is Some {
                        self.lemma_child_index_some(q[0]);
                    }
                }
            }
        } else {
            assert forall|q: Seq<Matcher>| #[trigger] after.has_node(q) == self.has_node(q) by {
                if q.len() > 0 {
                    if q[0] == m0 {
                        assert(below.has_node(q.skip(1)) == before.has_node(q.skip(1)));
                    } else if self.child_index(q[0]) is Some {
                        self.lemma_child_index_some(q[0]);
                    }
                }
            }
            assert forall|q: Seq<Matcher>, m: Seq<u8>| #[trigger]
                after.lookup(q, m) == self.lookup(q, m) by {
                if q.len() == 0 {
                    assert(after.handler_index(m) == self.handler_index(m));
                } else {
                    if q[0] == m0 {
                        assert(below.lookup(q.skip(1), m) == before.lookup(q.skip(1), m));
                    } else if self.child_index(q[0]) is Some {
                        self.lemma_child_index_some(q[0]);
                    }
                }
            }
        }
    }
}


impl<F> TrieNode<F> {
    /// A registration along a fresh branch: the node `after` has the branch
    /// `child` as one child more than `self`, which had none to clash with it.
    proof fn lemma_register_new_child(
        self,
        after: Self,
        child: Self,
        pattern: Seq<Matcher>,
        method: Seq<u8>,
        handler: F,
    )
        requires
            self.wf(),
            pattern.len() > 0,
            pattern[0] is AllTheRest ==> pattern.len() == 1,
            self.child_index(pattern[0]) is None,
            forall|j: int| 0 <= j < self.segments@.len() ==> !clash(
                (#[trigger] self.segments@[j]).0@,
                pattern[0],
            ),
            after.handlers@ == self.handlers@,
            after.segments@.len() == self.segments@.len() + 1,
            forall|j: int| 0 <= j < self.segments@.len() ==> after.segments@[j] == self.segments@[j],
            after.segments@[self.segments@.len() as int].0@ == pattern[0],
            *after.segments@[self.segments@.len() as int].1 == child,
            child.wf(),
            pattern.len() == 1 ==> child.segments@.len() == 0,
            forall|q: Seq<Matcher>| #[trigger] child.has_node(q) <==> q.is_prefix_of(pattern.skip(1)),
            forall|q: Seq<Matcher>, m: Seq<u8>| #[trigger]
                child.lookup(q, m) == (if q == pattern.skip(1) && m == method {
                    Some(handler)
                } else {
                    None
                }),
        ensures
            after.wf(),
            !self.conflicts(pattern, method),
            self.registered(after, pattern, method, handler),
    {
        let n = self.segments@.len() as int;
        let m0 = pattern[0];
        let tail = pattern.skip(1);
        assert forall|j: int| 0 <= j < n implies (#[trigger] self.segments@[j]).0@ != m0 by {
            if self.segments@[j].0@ == m0 {
                self.lemma_child_index(j);
            }
        }
        assert forall|a: int, b: int| 0 <= a < b < after.segments@.len() implies (
        #[trigger] after.segments@[a]).0@ != (#[trigger] after.segments@[b]).0@ by {
            if b == n {
                assert(self.segments@[a].0@ != m0);
            } else {
                assert(self.segments@[a].0@ != self.segments@[b].0@);
            }
        }
        assert forall|j: int|
            0 <= j < after.segments@.len() && !((#[trigger] after.segments@[j]).0@ is Val) implies after.segments@.len()
            == 1 by {
            if j == n {
                if n > 0 {
                    assert(clash(self.segments@[0].0@, m0));
                }
            } else {
                assert(!(self.segments@[j].0@ is Val));
                assert(clash(self.segments@[j].0@, m0));
            }
        }
        assert forall|j: int|
            0 <= j < after.segments@.len() && (#[trigger] after.segments@[j]).0@ is AllTheRest implies after.segments@[j].1.segments@.len()
            == 0 by {
            if j < n {
                assert(self.segments@[j].0@ is AllTheRest);
            }
        }
        assert forall|j: int| 0 <= j < after.segments@.len() implies (*(
        #[trigger] after.segments@[j]).1).wf() by {
            if j < n {
                assert((*self.segments@[j].1).wf());
            }
        }
        assert forall|a: int, b: int| 0 <= a < b < after.handlers@.len() implies (
        #[trigger] after.handlers@[a]).0@ != (#[trigger] after.handlers@[b]).0@ by {
            assert(self.handlers@[a].0@ != self.handlers@[b].0@);
        }
        assert(after.wf());
        after.lemma_child_index(n);
        assert forall|c: Matcher| c != m0 implies after.child_index(c) == self.child_index(c) by {
            if self.child_index(c) is Some {
                self.lemma_child_index_some(c);
                let j = self.child_index(c).unwrap();
                assert(after.segments@[j].0@ == c);
                after.lemma_child_index(j);
            } else if after.child_index(c) is Some {
                after.lemma_child_index_some(c);
                let j = after.child_index(c).unwrap();
                assert(j < n);
                assert(self.segments@[j].0@ == c);
            }
        }
        // nothing stands in the way
        if self.conflicts(pattern, method) {
            if self.lookup(pattern, method) is None {
                let (k, c) = choose|k: int, c: Matcher|
                    0 <= k < pattern.len() && #[trigger] self.has_node(pattern.take(k).push(c))
                        && clash(c, pattern[k]);
                let q = pattern.take(k).push(c);
                if k == 0 {
                    assert(q[0] == c);
                    self.lemma_child_index_some(c);
                } else {
                    assert(q[0] == m0);
                }
            }
            assert(false);
        }
        assert forall|q: Seq<Matcher>| #[trigger]
            after.has_node(q) == (self.has_node(q) || q.is_prefix_of(pattern)) by {
            if q.len() == 0 {
                assert(q =~= pattern.subrange(0, 0));
            } else {
                lemma_prefix_cons(q, pattern);
                if q[0] == m0 {
                    assert(child.has_node(q.skip(1)) <==> q.skip(1).is_prefix_of(tail));
                }
            }
        }
        assert forall|q: Seq<Matcher>, m: Seq<u8>| #[trigger]
            after.lookup(q, m) == (if q == pattern && m == method {
                Some(handler)
            } else {
                self.lookup(q, m)
            }) by {
            if q.len() == 0 {
                assert(after.handler_index(m) == self.handler_index(m));
            } else {
                lemma_eq_cons(q, pattern);
                if q[0] == m0 {
                    assert(child.lookup(q.skip(1), m) == (if q.skip(1) == tail && m == method {
                        Some(handler)
                    } else {
                        None
                    }));
                }
            }
        }
    }

    /// Registers `handler` for `method` at `segments[from..]` below this node.
    fn register_at(
        &mut self,
        segments: &Vec<Segment>,
        from: usize,
        method: &[u8],
        handler: F,
    ) -> (r: Result<(), Error>)
        requires
            old(self).wf(),
            from <= segments.len(),
            rest_only_last(segment_views(segments@)),
        ensures
            final(self).wf(),
            r is Ok <==> !old(self).conflicts(segment_views(segments@).skip(from as int), method@),
            r is Ok ==> old(self).registered(
                *final(self),
                segment_views(segments@).skip(from as int),
                method@,
                handler,
            ),
            r is Err ==> final(self).same_routes(*old(self)),
            r matches Err(e) ==> e.spec_kind() == ErrorKind::InvalidInput,
            final(self).segments@.len() > 0 ==> old(self).segments@.len() > 0 || from
                < segments.len(),
        decreases segments.len() - from,
    {
        let ghost before = *self;
        let ghost pattern = segment_views(segments@).skip(from as int);
        if from == segments.len() {
            proof {
                assert(pattern =~= Seq::<Matcher>::empty());
            }
            match self.find_handler(method) {
                Some(_) => {
                    Err(Error::invalid_input("the method has a handler for this path already"))
                },
                None => {
                    self.handlers.push((copy_bytes(method), handler));
                    proof {
                        before.lemma_register_here(*self, method@, handler);
                    }
                    Ok(())
                },
            }
        } else {
            let segment = &segments[from];
            proof {
                assert(pattern[0] == segment@);
                assert(pattern.skip(1) =~= segment_views(segments@).skip(from + 1));
                if pattern[0] is AllTheRest {
                    assert(segment_views(segments@)[from as int] is AllTheRest);
                }
            }
            match self.find_child(segment) {
                Some(i) => {
                    let r = self.segments[i].1.register_at(segments, from + 1, method, handler);
                    proof {
                        before.lemma_register_below(
                            *self,
                            i as int,
                            pattern,
                            method@,
                            handler,
                            r is Ok,
                        );
                    }
                    r
                },
                None => {
                    let clashes = self.segments.len() > 0 && match segment {
                        Segment::Val(_) => match self.segments[0].0 {
                            Segment::Val(_) => false,
                            _ => true,
                        },
                        _ => true,
                    };
                    if clashes {
                        proof {
                            before.lemma_clash_conflicts(0, pattern, method@);
                        }
                        Err(
                            Error::invalid_input(
                                "a wildcard cannot stand beside another segment of a path",
                            ),
                        )
                    } else {
                        let child = TrieNode::chain(segments, from + 1, method, handler);
                        let label = segment.duplicate();
                        self.segments.push((label, Box::new(child)));
                        proof {
                            assert forall|j: int| 0 <= j < before.segments@.len() implies !clash(
                                (#[trigger] before.segments@[j]).0@,
                                pattern[0],
                            ) by {
                                if !(before.segments@[j].0@ is Val) {
                                    assert(before.segments@.len() == 1);
                                }
                            }
                            before.lemma_register_new_child(
                                *self,
                                child,
                                pattern,
                                method@,
                                handler,
                            );
                        }
                        Ok(())
                    }
                },
            }
        }
    }
}


/// The segments of the URL path `path`: what stands behind its leading `/`,
/// split at each further `/`. A path without a leading `/` has none.
pub open spec fn path_segments(path: Seq<u8>) -> Option<Seq<Seq<u8>>> {
    if path.len() > 0 && path[0] == SLASH {
        Some(split(path.skip(1)))
    } else {
        None
    }
}

/// What a trie holds: the patterns at which a node stands, and the handler of
/// each registered pattern and method.
pub struct Routes<F> {
    /// The patterns at which a node stands: the registered ones and their prefixes.
    pub nodes: Set<Seq<Matcher>>,
    /// The handlers, by pattern and method.
    pub handlers: Map<(Seq<Matcher>, Seq<u8>), F>,
}

impl<F> Routes<F> {
    /// Whether `method` cannot be registered at `pattern`: a node on the way
    /// has a child whose matcher clashes with the one of `pattern`, or
    /// `method` has a handler at `pattern` already.
    pub open spec fn conflicts(self, pattern: Seq<Matcher>, method: Seq<u8>) -> bool {
        ||| exists|k: int, c: Matcher|
            0 <= k < pattern.len() && #[trigger] self.nodes.contains(pattern.take(k).push(c))
                && clash(c, pattern[k])
        ||| self.handlers.contains_key((pattern, method))
    }

    /// The routes with `handler` registered for `method` at `pattern`.
    pub open spec fn insert(self, pattern: Seq<Matcher>, method: Seq<u8>, handler: F) -> Self {
        Routes {
            nodes: Set::new(|q: Seq<Matcher>| self.nodes.contains(q) || q.is_prefix_of(pattern)),
            handlers: self.handlers.insert((pattern, method), handler),
        }
    }

    /// Where a request for `method` and the URL path `path` goes: where its
    /// segments lead, and to `NotFound` where it has none.
    pub open spec fn dispatch(self, method: Seq<u8>, path: Seq<u8>) -> Result<F, Status> {
        match path_segments(path) {
            Some(segments) => self.route(method, segments),
            None => Err(Status::NotFound),
        }
    }

    /// Where a request for `method` and the path segments `path` goes: to the
    /// handler for `method` at the node whose pattern matches `path`; to
    /// `MethodNotAllowed` where that node has none for `method`; to
    /// `NotFound` where no node's pattern matches.
    pub open spec fn route(self, method: Seq<u8>, path: Seq<Seq<u8>>) -> Result<F, Status> {
        if exists|p: Seq<Matcher>| self.nodes.contains(p) && #[trigger] pattern_matches(p, path) {
            let p = choose|p: Seq<Matcher>| self.nodes.contains(p) && #[trigger] pattern_matches(p, path);
            if self.handlers.contains_key((p, method)) {
                Ok(self.handlers[(p, method)])
            } else {
                Err(Status::MethodNotAllowed)
            }
        } else {
            Err(Status::NotFound)
        }
    }
}

/// A pattern that matches a path matches, without its first matcher, the
/// path without its first segment, unless that matcher is `**`.
pub proof fn lemma_matches_tail(pattern: Seq<Matcher>, path: Seq<Seq<u8>>)
    requires
        pattern_matches(pattern, path),
        pattern.len() > 0,
        !(pattern[0] is AllTheRest),
    ensures
        path.len() > 0,
        accepts(pattern[0], path[0]),
        pattern_matches(pattern.skip(1), path.skip(1)),
{
    let p = pattern.skip(1);
    let s = path.skip(1);
    assert(accepts(pattern[0], path[0]));
    assert forall|j: int| 0 <= j < p.len() implies j < s.len() && accepts(#[trigger] p[j], s[j]) by {
        assert(accepts(pattern[j + 1], path[j + 1]));
    }
    assert forall|i: int| 0 <= i < p.len() - 1 implies !(p[i] is AllTheRest) by {
        assert(!(pattern[i + 1] is AllTheRest));
    }
    if p.len() > 0 {
        assert(p.last() == pattern.last());
    }
}

impl<F> TrieNode<F> {
    /// One segment goes one way: two children of a node whose matchers
    /// accept the same segment are one child.
    proof fn lemma_one_way(self, a: Matcher, b: Matcher, actual: Seq<u8>)
        requires
            self.wf(),
            self.child_index(a) is Some,
            self.child_index(b) is Some,
            accepts(a, actual),
            accepts(b, actual),
        ensures
            a == b,
    {
        self.lemma_child_index_some(a);
        self.lemma_child_index_some(b);
        let i = self.child_index(a).unwrap();
        let j = self.child_index(b).unwrap();
        if i != j {
            assert(self.segments@.len() >= 2);
            assert(self.segments@[i].0@ is Val);
            assert(self.segments@[j].0@ is Val);
        }
    }

    /// Nothing stands below `**`.
    proof fn lemma_rest_is_leaf(self, q: Seq<Matcher>)
        requires
            self.wf(),
            self.has_node(q),
            q.len() > 0,
            q[0] is AllTheRest,
        ensures
            q.len() == 1,
    {
        self.lemma_child_index_some(q[0]);
        let i = self.child_index(q[0]).unwrap();
        let child = *self.segments@[i].1;
        assert(child.segments@.len() == 0);
        if q.len() > 1 {
            assert(child.has_node(q.skip(1)));
            assert(child.child_index(q.skip(1)[0]) is None);
        }
    }

    /// At most one node's pattern matches a path.
    proof fn lemma_unique_match(self, path: Seq<Seq<u8>>, first: Seq<Matcher>, second: Seq<Matcher>)
        requires
            self.wf(),
            self.has_node(first),
            self.has_node(second),
            pattern_matches(first, path),
            pattern_matches(second, path),
        ensures
            first == second,
        decreases first.len(),
    {
        if first.len() == 0 || second.len() == 0 {
            assert(first =~= second);
        } else {
            assert(accepts(first[0], path[0]));
            assert(accepts(second[0], path[0]));
            self.lemma_one_way(first[0], second[0], path[0]);
            if first[0] is AllTheRest {
                self.lemma_rest_is_leaf(first);
                self.lemma_rest_is_leaf(second);
            } else {
                self.lemma_child_index_some(first[0]);
                let i = self.child_index(first[0]).unwrap();
                lemma_matches_tail(first, path);
                lemma_matches_tail(second, path);
                (*self.segments@[i].1).lemma_unique_match(path.skip(1), first.skip(1), second.skip(1));
            }
            lemma_eq_cons(first, second);
        }
    }

    /// The way that a path has gone so far is the way of every pattern that
    /// matches it.
    proof fn lemma_way_is_prefix(self, path: Seq<Seq<u8>>, p: Seq<Matcher>, way: Seq<Matcher>)
        requires
            self.wf(),
            self.has_node(p),
            self.has_node(way),
            pattern_matches(p, path),
            way.len() <= path.len(),
            forall|j: int|
                0 <= j < way.len() ==> accepts(#[trigger] way[j], path[j]) && !(way[j] is AllTheRest),
        ensures
            way.is_prefix_of(p),
        decreases way.len(),
    {
        if way.len() == 0 {
            assert(way =~= p.subrange(0, 0));
        } else {
            assert(p.len() > 0);
            assert(accepts(p[0], path[0]));
            assert(accepts(way[0], path[0]));
            self.lemma_one_way(p[0], way[0], path[0]);
            self.lemma_child_index_some(p[0]);
            let i = self.child_index(p[0]).unwrap();
            lemma_matches_tail(p, path);
            assert forall|j: int| 0 <= j < way.skip(1).len() implies accepts(
                #[trigger] way.skip(1)[j],
                path.skip(1)[j],
            ) && !(way.skip(1)[j] is AllTheRest) by {
                assert(accepts(way[j + 1], path[j + 1]));
            }
            (*self.segments@[i].1).lemma_way_is_prefix(path.skip(1), p.skip(1), way.skip(1));
            lemma_prefix_cons(way, p);
        }
    }

    /// The matchers below one node do not clash.
    proof fn lemma_siblings_agree(self, p: Seq<Matcher>, a: Matcher, b: Matcher)
        requires
            self.wf(),
            self.has_node(p.push(a)),
            self.has_node(p.push(b)),
        ensures
            !clash(a, b),
        decreases p.len(),
    {
        if p.len() == 0 {
            assert(p.push(a)[0] == a);
            assert(p.push(b)[0] == b);
            self.lemma_child_index_some(a);
            self.lemma_no_clash_beside(self.child_index(a).unwrap(), b);
        } else {
            assert(p.push(a)[0] == p[0]);
            assert(p.push(b)[0] == p[0]);
            assert(p.push(a).skip(1) =~= p.skip(1).push(a));
            assert(p.push(b).skip(1) =~= p.skip(1).push(b));
            self.lemma_child_index_some(p[0]);
            let i = self.child_index(p[0]).unwrap();
            (*self.segments@[i].1).lemma_siblings_agree(p.skip(1), a, b);
        }
    }

    /// No node stands below `**`.
    proof fn lemma_nothing_below_rest(self, p: Seq<Matcher>, c: Matcher)
        requires
            self.wf(),
        ensures
            !self.has_node(p.push(Matcher::AllTheRest).push(c)),
        decreases p.len(),
    {
        let q = p.push(Matcher::AllTheRest).push(c);
        if self.has_node(q) {
            if p.len() == 0 {
                assert(q[0] is AllTheRest);
                self.lemma_rest_is_leaf(q);
            } else {
                assert(q[0] == p[0]);
                assert(q.skip(1) =~= p.skip(1).push(Matcher::AllTheRest).push(c));
                self.lemma_child_index_some(p[0]);
                let i = self.child_index(p[0]).unwrap();
                (*self.segments@[i].1).lemma_nothing_below_rest(p.skip(1), c);
            }
        }
    }

    /// A handler stands at a node.
    proof fn lemma_lookup_has_node(self, p: Seq<Matcher>, m: Seq<u8>)
        requires
            self.lookup(p, m) is Some,
        ensures
            self.has_node(p),
        decreases p.len(),
    {
        if p.len() > 0 {
            let i = self.child_index(p[0]).unwrap();
            (*self.segments@[i].1).lemma_lookup_has_node(p.skip(1), m);
        }
    }

    /// Every prefix of a node's pattern is a node's pattern.
    proof fn lemma_prefix_has_node(self, p: Seq<Matcher>, k: int)
        requires
            self.has_node(p),
            0 <= k <= p.len(),
        ensures
            self.has_node(p.take(k)),
        decreases p.len(),
    {
        if k > 0 {
            let i = self.child_index(p[0]).unwrap();
            assert(p.take(k)[0] == p[0]);
            assert(p.take(k).skip(1) =~= p.skip(1).take(k - 1));
            (*self.segments@[i].1).lemma_prefix_has_node(p.skip(1), k - 1);
        }
    }
}


impl<F> TrieNode<F> {
    /// Walks down from this node along `segments`, and looks for the handler
    /// of `method` where the walk ends.
    fn walk<'a>(&'a self, method: &[u8], segments: &Vec<Vec<u8>>) -> (r: Result<&'a F, Status>)
        requires
            self.wf(),
        ensures
            match r {
                Ok(h) => exists|p: Seq<Matcher>|
                    self.has_node(p) && #[trigger] pattern_matches(p, views(segments@))
                        && self.lookup(p, method@) == Some(*h),
                Err(Status::MethodNotAllowed) => exists|p: Seq<Matcher>|
                    self.has_node(p) && #[trigger] pattern_matches(p, views(segments@))
                        && self.lookup(p, method@) is None,
                Err(Status::NotFound) => forall|p: Seq<Matcher>|
                    self.has_node(p) ==> !#[trigger] pattern_matches(p, views(segments@)),
                Err(_) => false,
            },
    {
        let ghost path = views(segments@);
        let mut node: &TrieNode<F> = self;
        let mut depth: usize = 0;
        let mut stopped = false;
        let ghost mut way: Seq<Matcher> = Seq::empty();
        proof {
            assert forall|q: Seq<Matcher>| self.has_node(way + q) == node.has_node(q) by {
                assert(way + q =~= q);
            }
            assert forall|q: Seq<Matcher>, m: Seq<u8>| self.lookup(way + q, m) == node.lookup(q, m) by {
                assert(way + q =~= q);
            }
        }
        while depth < segments.len() && !stopped
            invariant
                self.wf(),
                node.wf(),
                path == views(segments@),
                depth <= segments.len(),
                way.len() == depth,
                forall|q: Seq<Matcher>| self.has_node(way + q) == #[trigger] node.has_node(q),
                forall|q: Seq<Matcher>, m: Seq<u8>|
                    self.lookup(way + q, m) == #[trigger] node.lookup(q, m),
                forall|j: int| 0 <= j < depth ==> accepts(#[trigger] way[j], path[j]),
                forall|j: int| 0 <= j < depth - 1 ==> !(#[trigger] way[j] is AllTheRest),
                stopped == (depth > 0 && way[depth - 1] is AllTheRest),
            decreases segments.len() - depth, if stopped { 0int } else { 1int },
        {
            let actual = &segments[depth];
            let mut i: usize = 0;
            let mut found: Option<usize> = None;
            while i < node.segments.len() && found.is_none()
                invariant
                    i <= node.segments@.len(),
                    forall|k: int|
                        0 <= k < i && found is None ==> !accepts(
                            (#[trigger] node.segments@[k]).0@,
                            actual@,
                        ),
                    found matches Some(j) ==> j < node.segments@.len() && accepts(
                        node.segments@[j as int].0@,
                        actual@,
                    ),
                decreases node.segments@.len() - i, if found is None { 1int } else { 0int },
            {
                let applies = match &node.segments[i].0 {
                    Segment::Any => true,
                    Segment::AllTheRest => true,
                    Segment::Val(v) => bytes_eq(v.as_slice(), actual.as_slice()),
                };
                if applies {
                    found = Some(i);
                } else {
                    i += 1;
                }
            }
            match found {
                None => {
                    proof {
                        assert(path[depth as int] == actual@);
                        assert forall|p: Seq<Matcher>| self.has_node(p) implies !#[trigger] pattern_matches(
                            p,
                            path,
                        ) by {
                            if pattern_matches(p, path) {
                                assert(self.has_node(way)) by {
                                    assert(way + Seq::<Matcher>::empty() =~= way);
                                    assert(node.has_node(Seq::<Matcher>::empty()));
                                }
                                self.lemma_way_is_prefix(path, p, way);
                                assert(p.len() > depth) by {
                                    if p.len() == depth {
                                        assert(p =~= way);
                                    }
                                }
                                let q = p.skip(depth as int);
                                assert(way + q =~= p);
                                assert(node.has_node(q));
                                assert(q[0] == p[depth as int]);
                                node.lemma_child_index_some(q[0]);
                                assert(accepts(p[depth as int], path[depth as int]));
                            }
                        }
                    }
                    return Err(Status::NotFound);
                },
                Some(j) => {
                    let ghost label = node.segments@[j as int].0@;
                    let ghost longer = way.push(label);
                    stopped = match &node.segments[j].0 {
                        Segment::AllTheRest => true,
                        _ => false,
                    };
                    let child: &TrieNode<F> = &*node.segments[j].1;
                    proof {
                        node.lemma_child_index(j as int);
                        assert(path[depth as int] == actual@);
                        assert forall|q: Seq<Matcher>| self.has_node(longer + q) == #[trigger] child.has_node(q) by {
                            let step = seq![label] + q;
                            assert(longer + q =~= way + step);
                            assert(step[0] == label);
                            assert(step.skip(1) =~= q);
                            assert(node.has_node(step) == child.has_node(q));
                        }
                        assert forall|q: Seq<Matcher>, m: Seq<u8>|
                            self.lookup(longer + q, m) == #[trigger] child.lookup(q, m) by {
                            let step = seq![label] + q;
                            assert(longer + q =~= way + step);
                            assert(step[0] == label);
                            assert(step.skip(1) =~= q);
                            assert(node.lookup(step, m) == child.lookup(q, m));
                        }
                        way = longer;
                    }
                    node = child;
                    depth += 1;
                },
            }
        }
        proof {
            assert(way + Seq::<Matcher>::empty() =~= way);
            assert(node.has_node(Seq::<Matcher>::empty()));
            assert(self.has_node(way));
            assert(pattern_matches(way, path));
            assert(self.lookup(way, method@) == node.lookup(Seq::<Matcher>::empty(), method@));
        }
        match node.find_handler(method) {
            Some(i) => Ok(&node.handlers[i].1),
            None => Err(Status::MethodNotAllowed),
        }
    }
}

/// The routing trie: registered once, then only read.
pub struct Trie<F>(TrieNode<F>);

impl<F> View for Trie<F> {
    type V = Routes<F>;

    closed spec fn view(&self) -> Routes<F> {
        Routes {
            nodes: Set::new(|q: Seq<Matcher>| self.0.has_node(q)),
            handlers: Map::new(
                |k: (Seq<Matcher>, Seq<u8>)| self.0.lookup(k.0, k.1) is Some,
                |k: (Seq<Matcher>, Seq<u8>)| self.0.lookup(k.0, k.1).unwrap(),
            ),
        }
    }
}

impl<F> Trie<F> {
    /// The invariant of the trie: see `TrieNode::wf`.
    pub closed spec fn wf(self) -> bool {
        self.0.wf()
    }

    /// An empty trie: its root is its only node, and it has no handler.
    pub fn new() -> (trie: Self)
        ensures
            trie.wf(),
            trie@.nodes == Set::<Seq<Matcher>>::empty().insert(Seq::empty()),
            trie@.handlers == Map::<(Seq<Matcher>, Seq<u8>), F>::empty(),
    {
        let trie = Trie(TrieNode::new());
        proof {
            assert forall|q: Seq<Matcher>|
                trie@.nodes.contains(q) == Set::<Seq<Matcher>>::empty().insert(Seq::empty()).contains(
                    q,
                ) by {
                if q.len() == 0 {
                    assert(q =~= Seq::<Matcher>::empty());
                }
            }
            assert(trie@.nodes =~= Set::<Seq<Matcher>>::empty().insert(Seq::empty()));
            assert(trie@.handlers =~= Map::<(Seq<Matcher>, Seq<u8>), F>::empty());
        }
        trie
    }

    /// Registers `handler` for `method` at `path`.
    ///
    /// # Errors
    ///
    /// An `ErrorKind::InvalidInput` error is returned, and the trie is as it
    /// was, where `**` stands in `path` before its end, where a wildcard
    /// would come to stand beside another matcher, and where `method` has a
    /// handler at `path` already.
    pub fn register(&mut self, method: &str, path: &Path, handler: F) -> (r: Result<(), Error>)
        requires
            old(self).wf(),
        ensures
            final(self).wf(),
            r is Ok <==> rest_only_last(path@) && !old(self)@.conflicts(path@, method.spec_bytes()),
            r is Ok ==> final(self)@ == old(self)@.insert(path@, method.spec_bytes(), handler),
            r is Err ==> final(self)@ == old(self)@,
            r matches Err(e) ==> e.spec_kind() == ErrorKind::InvalidInput,
    {
        let ghost before = self.0;
        let ghost pattern = path@;
        if !path.rest_is_last() {
            return Err(
                Error::invalid_input("'**' is allowed to be located only at the end of a path"),
            );
        }
        proof {
            assert(pattern.skip(0) =~= pattern);
        }
        let r = self.0.register_at(&path.0, 0, method.as_bytes(), handler);
        proof {
            let m = method.spec_bytes();
            let after = self.0;
            // conflicts, by nodes and by the view
            if before.conflicts(pattern, m) {
                if before.lookup(pattern, m) is Some {
                    assert(old(self)@.handlers.contains_key((pattern, m)));
                } else {
                    let (k, c) = choose|k: int, c: Matcher|
                        0 <= k < pattern.len() && #[trigger] before.has_node(pattern.take(k).push(c))
                            && clash(c, pattern[k]);
                    assert(old(self)@.nodes.contains(pattern.take(k).push(c)));
                }
            }
            if old(self)@.conflicts(pattern, m) {
                if old(self)@.handlers.contains_key((pattern, m)) {
                    assert(before.lookup(pattern, m) is Some);
                } else {
                    let (k, c) = choose|k: int, c: Matcher|
                        0 <= k < pattern.len() && #[trigger] old(self)@.nodes.contains(
                            pattern.take(k).push(c),
                        ) && clash(c, pattern[k]);
                    assert(before.has_node(pattern.take(k).push(c)));
                }
            }
            if r is Ok {
                let want = old(self)@.insert(pattern, m, handler);
                assert(self@.nodes =~= want.nodes);
                assert forall|key: (Seq<Matcher>, Seq<u8>)|
                    self@.handlers.contains_key(key) == want.handlers.contains_key(key) && (
                    self@.handlers.contains_key(key) ==> self@.handlers[key] == want.handlers[key]) by {
                    assert(after.lookup(key.0, key.1) == (if key.0 == pattern && key.1 == m {
                        Some(handler)
                    } else {
                        before.lookup(key.0, key.1)
                    }));
                }
                assert(self@.handlers =~= want.handlers);
            } else {
                assert(self@.nodes =~= old(self)@.nodes);
                assert(self@.handlers =~= old(self)@.handlers);
            }
        }
        r
    }

    /// Looks for the handler of a request for `method` and the URL path `path`.
    ///
    /// A path that does not begin with `/` has no segments, and is not found.
    pub fn dispatch(&self, method: &str, path: &str) -> (r: Result<&F, Status>)
        requires
            self.wf(),
        ensures
            r matches Ok(h) ==> self@.dispatch(method.spec_bytes(), path.spec_bytes()) == Ok::<
                F,
                Status,
            >(*h),
            r matches Err(s) ==> self@.dispatch(method.spec_bytes(), path.spec_bytes()) == Err::<
                F,
                Status,
            >(s),
    {
        let bytes = path.as_bytes();
        if bytes.len() == 0 || bytes[0] != SLASH {
            return Err(Status::NotFound);
        }
        let segments = split_segments(bytes, 1);
        let r = self.0.walk(method.as_bytes(), &segments);
        proof {
            let segs = split(path.spec_bytes().skip(1));
            let m = method.spec_bytes();
            match r {
                Err(Status::NotFound) => {},
                _ => {
                    let p = choose|p: Seq<Matcher>|
                        self.0.has_node(p) && #[trigger] pattern_matches(p, segs);
                    assert(self@.nodes.contains(p));
                    let c = choose|c: Seq<Matcher>|
                        self@.nodes.contains(c) && #[trigger] pattern_matches(c, segs);
                    self.0.lemma_unique_match(segs, p, c);
                    let w = choose|w: Seq<Matcher>|
                        self.0.has_node(w) && #[trigger] pattern_matches(w, segs) && (r is Ok
                            ==> self.0.lookup(w, m) == Some(*r->Ok_0)) && (r is Err
                            ==> self.0.lookup(w, m) is None);
                    self.0.lemma_unique_match(segs, p, w);
                },
            }
        }
        r
    }
}


impl<F> Routes<F> {
    /// What holds of the routes of every trie: the root is a node, each
    /// prefix of a node's pattern is a node's pattern, each handler stands
    /// at a node, a wildcard stands beside no other matcher, no node stands
    /// below `**`, and at most one node's pattern matches a path.
    pub open spec fn well_formed(self) -> bool {
        &&& self.nodes.contains(Seq::empty())
        &&& forall|p: Seq<Matcher>, a: Matcher, b: Matcher|
            #[trigger] self.nodes.contains(p.push(a)) && #[trigger] self.nodes.contains(p.push(b))
                ==> !clash(a, b)
        &&& forall|p: Seq<Matcher>, c: Matcher|
            !#[trigger] self.nodes.contains(p.push(Matcher::AllTheRest).push(c))
        &&& forall|p: Seq<Matcher>, k: int|
            self.nodes.contains(p) && 0 <= k <= p.len() ==> self.nodes.contains(#[trigger] p.take(k))
        &&& forall|p: Seq<Matcher>, m: Seq<u8>| #[trigger]
            self.handlers.contains_key((p, m)) ==> self.nodes.contains(p)
        &&& forall|path: Seq<Seq<u8>>, first: Seq<Matcher>, second: Seq<Matcher>|
            self.nodes.contains(first) && self.nodes.contains(second) && #[trigger] pattern_matches(first, path)
                && #[trigger] pattern_matches(second, path) ==> first == second
    }

    /// A request goes to the handler that is registered for its method at the
    /// pattern that matches its path.
    pub proof fn lemma_route_of_registered(
        self,
        method: Seq<u8>,
        pattern: Seq<Matcher>,
        path: Seq<Seq<u8>>,
    )
        requires
            self.well_formed(),
            self.handlers.contains_key((pattern, method)),
            pattern_matches(pattern, path),
        ensures
            self.route(method, path) == Ok::<F, Status>(self.handlers[(pattern, method)]),
    {
        assert(self.nodes.contains(pattern));
    }

    /// A request whose path matches the pattern of a node without a handler
    /// for its method is answered `MethodNotAllowed`.
    pub proof fn lemma_route_method_not_allowed(
        self,
        method: Seq<u8>,
        pattern: Seq<Matcher>,
        path: Seq<Seq<u8>>,
    )
        requires
            self.well_formed(),
            self.nodes.contains(pattern),
            !self.handlers.contains_key((pattern, method)),
            pattern_matches(pattern, path),
        ensures
            self.route(method, path) == Err::<F, Status>(Status::MethodNotAllowed),
    {
    }

    /// A request whose path no node's pattern matches is answered `NotFound`.
    pub proof fn lemma_route_not_found(self, method: Seq<u8>, path: Seq<Seq<u8>>)
        requires
            forall|p: Seq<Matcher>| self.nodes.contains(p) ==> !#[trigger] pattern_matches(p, path),
        ensures
            self.route(method, path) == Err::<F, Status>(Status::NotFound),
    {
    }

    /// Nothing conflicts with the routes of an empty trie.
    pub proof fn lemma_nothing_conflicts_with_none(self, pattern: Seq<Matcher>, method: Seq<u8>)
        requires
            self.nodes == Set::<Seq<Matcher>>::empty().insert(Seq::empty()),
            self.handlers == Map::<(Seq<Matcher>, Seq<u8>), F>::empty(),
        ensures
            !self.conflicts(pattern, method),
    {
        assert forall|k: int, c: Matcher| !(#[trigger] self.nodes.contains(pattern.take(k).push(c))) by {
            assert(pattern.take(k).push(c).len() > 0);
        }
    }

    /// A handler that is registered gets the requests for its method whose
    /// path matches its pattern.
    pub proof fn lemma_registered_is_routed(
        self,
        before: Routes<F>,
        pattern: Seq<Matcher>,
        method: Seq<u8>,
        handler: F,
        path: Seq<Seq<u8>>,
    )
        requires
            self.well_formed(),
            self == before.insert(pattern, method, handler),
            pattern_matches(pattern, path),
        ensures
            self.route(method, path) == Ok::<F, Status>(handler),
    {
        assert(self.handlers.contains_key((pattern, method)));
        self.lemma_route_of_registered(method, pattern, path);
    }

    /// A registration takes no request from the handler that it went to.
    pub proof fn lemma_registration_keeps_routes(
        self,
        before: Routes<F>,
        pattern: Seq<Matcher>,
        method: Seq<u8>,
        handler: F,
        m: Seq<u8>,
        path: Seq<Seq<u8>>,
    )
        requires
            self.well_formed(),
            !before.conflicts(pattern, method),
            self == before.insert(pattern, method, handler),
            before.route(m, path) is Ok,
        ensures
            self.route(m, path) == before.route(m, path),
    {
        let p = choose|p: Seq<Matcher>| before.nodes.contains(p) && #[trigger] pattern_matches(p, path);
        assert(before.handlers.contains_key((p, m)));
        assert((p, m) != (pattern, method));
        assert(self.handlers.contains_key((p, m)));
        self.lemma_route_of_registered(m, p, path);
    }
}

impl<F> Trie<F> {
    /// The routes of a trie are well formed: the matchers below a node are
    /// literals that differ, or one wildcard, so a path leads one way.
    pub proof fn lemma_routes_well_formed(&self)
        requires
            self.wf(),
        ensures
            self@.well_formed(),
    {
        let routes = self@;
        assert(self.0.has_node(Seq::empty()));
        assert forall|p: Seq<Matcher>, a: Matcher, b: Matcher|
            #[trigger] routes.nodes.contains(p.push(a)) && #[trigger] routes.nodes.contains(
                p.push(b),
            ) implies !clash(a, b) by {
            self.0.lemma_siblings_agree(p, a, b);
        }
        assert forall|p: Seq<Matcher>, c: Matcher|
            !#[trigger] routes.nodes.contains(p.push(Matcher::AllTheRest).push(c)) by {
            self.0.lemma_nothing_below_rest(p, c);
        }
        assert forall|p: Seq<Matcher>, k: int|
            routes.nodes.contains(p) && 0 <= k <= p.len() implies routes.nodes.contains(
            #[trigger] p.take(k),
        ) by {
            self.0.lemma_prefix_has_node(p, k);
        }
        assert forall|p: Seq<Matcher>, m: Seq<u8>| #[trigger]
            routes.handlers.contains_key((p, m)) implies routes.nodes.contains(p) by {
            self.0.lemma_lookup_has_node(p, m);
        }
        assert forall|path: Seq<Seq<u8>>, first: Seq<Matcher>, second: Seq<Matcher>|
            routes.nodes.contains(first) && routes.nodes.contains(second) && #[trigger] pattern_matches(
                first,
                path,
            ) && #[trigger] pattern_matches(second, path) implies first == second by {
            self.0.lemma_unique_match(path, first, second);
        }
    }
}

/// `DispatcherBuilder` collects the handlers of a server.
pub struct DispatcherBuilder<F> {
    trie: Trie<F>,
}

impl<F> View for DispatcherBuilder<F> {
    type V = Routes<F>;

    closed spec fn view(&self) -> Routes<F> {
        self.trie@
    }
}

impl<F> DispatcherBuilder<F> {
    /// The invariant of the trie that is being built.
    pub closed spec fn wf(self) -> bool {
        self.trie.wf()
    }

    /// The routes of a builder are well formed.
    pub proof fn lemma_routes_well_formed(&self)
        requires
            self.wf(),
        ensures
            self@.well_formed(),
    {
        self.trie.lemma_routes_well_formed();
    }

    /// Makes a builder without handlers.
    pub fn new() -> (builder: Self)
        ensures
            builder.wf(),
            builder@.nodes == Set::<Seq<Matcher>>::empty().insert(Seq::empty()),
            builder@.handlers == Map::<(Seq<Matcher>, Seq<u8>), F>::empty(),
    {
        DispatcherBuilder { trie: Trie::new() }
    }

    /// Registers `handler` for the requests for `method` whose path matches
    /// the pattern `path`.
    ///
    /// # Errors
    ///
    /// An `ErrorKind::InvalidInput` error is returned, and nothing is
    /// registered, where `path` is no path pattern and where the
    /// registration conflicts with an earlier one.
    pub fn register_handler(&mut self, method: &str, path: &str, handler: F) -> (r: Result<(), Error>)
        requires
            old(self).wf(),
        ensures
            final(self).wf(),
            r is Ok <==> Path::is_pattern(path.spec_bytes()) && !old(self)@.conflicts(
                Path::pattern_of(path.spec_bytes()),
                method.spec_bytes(),
            ),
            r is Ok ==> final(self)@ == old(self)@.insert(
                Path::pattern_of(path.spec_bytes()),
                method.spec_bytes(),
                handler,
            ),
            r is Err ==> final(self)@ == old(self)@,
            r matches Err(e) ==> e.spec_kind() == ErrorKind::InvalidInput,
    {
        match Path::parse(path) {
            Err(e) => Err(e),
            Ok(parsed) => self.trie.register(method, &parsed, handler),
        }
    }

    /// Ends the registration.
    pub fn finish(self) -> (dispatcher: Dispatcher<F>)
        requires
            self.wf(),
        ensures
            dispatcher.wf(),
            dispatcher@ == self@,
    {
        Dispatcher { trie: Arc::new(self.trie) }
    }
}

/// `Dispatcher` finds the handler of a request. It is shared by the
/// connections of a server, and never changes.
pub struct Dispatcher<F> {
    trie: Arc<Trie<F>>,
}

impl<F> View for Dispatcher<F> {
    type V = Routes<F>;

    closed spec fn view(&self) -> Routes<F> {
        (*self.trie)@
    }
}

/// `Arc::clone`: another pointer to the same allocation, so to the same value.
#[verifier::external_body]
pub(crate) fn share<T>(shared: &Arc<T>) -> (r: Arc<T>)
    ensures
        *r == **shared,
{
    Arc::clone(shared)
}

impl<F> Clone for Dispatcher<F> {
    fn clone(&self) -> (r: Self)
        ensures
            r@ == self@,
            self.wf() ==> r.wf(),
    {
        Dispatcher { trie: share(&self.trie) }
    }
}

impl<F> Dispatcher<F> {
    /// The invariant of the trie.
    pub closed spec fn wf(self) -> bool {
        (*self.trie).wf()
    }

    /// The routes of a dispatcher are well formed.
    pub proof fn lemma_routes_well_formed(&self)
        requires
            self.wf(),
        ensures
            self@.well_formed(),
    {
        self.trie.lemma_routes_well_formed();
    }

    /// Looks for the handler of a request for `method` and the URL path `path`.
    pub fn dispatch(&self, method: &str, path: &str) -> (r: Result<&F, Status>)
        requires
            self.wf(),
        ensures
            r matches Ok(h) ==> self@.dispatch(method.spec_bytes(), path.spec_bytes()) == Ok::<
                F,
                Status,
            >(*h),
            r matches Err(s) ==> self@.dispatch(method.spec_bytes(), path.spec_bytes()) == Err::<
                F,
                Status,
            >(s),
    {
        self.trie.dispatch(method, path)
    }
}

} // verus!
