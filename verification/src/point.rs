//! Hierarchical addresses ("points"), layers and surfaces.

use vstd::prelude::*;
use vstd::std_specs::cmp::PartialEqSpecImpl;
use vstd::string::StringExecFns;
use vstd::string::StrSliceExecFns;

verus! {

/// Where an address is rooted: in this constellation, or in the well-known
/// global space that every star serves.
#[derive(Clone, Copy, Debug, PartialEq, Eq, Structural, Hash)]
pub enum Route {
    Local,
    Global,
}

/// An address: a route and an ordered sequence of segments. The root has no
/// segments.
#[derive(Debug, Eq, Hash)]
pub struct Point {
    pub route: Route,
    pub segments: Vec<String>,
}

/// The mathematical value of a point.
pub struct PointView {
    pub route: Route,
    pub segments: Seq<Seq<char>>,
}

/// The views of a sequence of strings.
pub open spec fn strings_view(v: Seq<String>) -> Seq<Seq<char>> {
    Seq::new(v.len(), |i: int| v[i]@)
}

impl View for Point {
    type V = PointView;

    open spec fn view(&self) -> PointView {
        PointView { route: self.route, segments: strings_view(self.segments@) }
    }
}

impl PointView {
    pub open spec fn is_root(self) -> bool {
        self.segments.len() == 0
    }

    /// The address one level up; the root is its own parent here, and
    /// `Point::parent` returns `None` for it.
    pub open spec fn parent(self) -> PointView {
        PointView { route: self.route, segments: self.segments.drop_last() }
    }

    pub open spec fn push(self, segment: Seq<char>) -> PointView {
        PointView { route: self.route, segments: self.segments.push(segment) }
    }

    /// `self` is `other` or one of its ancestors.
    pub open spec fn is_prefix_of(self, other: PointView) -> bool {
        &&& self.route == other.route
        &&& self.segments.len() <= other.segments.len()
        &&& other.segments.subrange(0, self.segments.len() as int) == self.segments
    }

    /// `self` is a strict ancestor of `other`.
    pub open spec fn is_parent_of(self, other: PointView) -> bool {
        self.is_prefix_of(other) && self.segments.len() < other.segments.len()
    }

    /// The ancestor of `self` that keeps its first `n` segments.
    pub open spec fn truncate(self, n: int) -> PointView {
        PointView { route: self.route, segments: self.segments.subrange(0, n) }
    }
}

/// Copies a vector of strings.
pub fn clone_strings(v: &Vec<String>) -> (r: Vec<String>)
    ensures
        strings_view(r@) == strings_view(v@),
        r@.len() == v@.len(),
{
    let mut r: Vec<String> = Vec::new();
    let mut i: usize = 0;
    while i < v.len()
        invariant
            i <= v.len(),
            r@.len() == i,
            forall|j: int| 0 <= j < i ==> r@[j]@ == v@[j]@,
        decreases v.len() - i,
    {
        r.push(v[i].clone());
        i += 1;
    }
    assert(strings_view(r@) =~= strings_view(v@));
    r
}

/// Whether two vectors of strings hold the same text.
pub fn strings_equal(a: &Vec<String>, b: &Vec<String>) -> (r: bool)
    ensures
        r == (strings_view(a@) == strings_view(b@)),
{
    if a.len() != b.len() {
        assert(strings_view(a@).len() != strings_view(b@).len());
        return false;
    }
    let mut i: usize = 0;
    while i < a.len()
        invariant
            i <= a.len(),
            a.len() == b.len(),
            forall|j: int| 0 <= j < i ==> a@[j]@ == b@[j]@,
        decreases a.len() - i,
    {
        if a[i] != b[i] {
            assert(strings_view(a@)[i as int] != strings_view(b@)[i as int]);
            return false;
        }
        i += 1;
    }
    assert(strings_view(a@) =~= strings_view(b@));
    true
}

impl Clone for Point {
    fn clone(&self) -> (r: Point)
        ensures
            r@ == self@,
    {
        Point { route: self.route, segments: clone_strings(&self.segments) }
    }
}

impl PartialEq for Point {
    fn eq(&self, other: &Point) -> (r: bool) {
        self.route == other.route && strings_equal(&self.segments, &other.segments)
    }
}

impl PartialEqSpecImpl for Point {
    open spec fn obeys_eq_spec() -> bool {
        true
    }

    open spec fn eq_spec(&self, other: &Point) -> bool {
        self@ == other@
    }
}

impl Point {
    /// The root of the local address space.
    pub fn root() -> (r: Point)
        ensures
            r@.is_root(),
            r@.route == Route::Local,
    {
        Point { route: Route::Local, segments: Vec::new() }
    }

    /// A local address with the given segments.
    pub fn new(segments: Vec<String>) -> (r: Point)
        ensures
            r@ == (PointView { route: Route::Local, segments: strings_view(segments@) }),
    {
        Point { route: Route::Local, segments }
    }

    /// An address in the global space with the given segments.
    pub fn global(segments: Vec<String>) -> (r: Point)
        ensures
            r@ == (PointView { route: Route::Global, segments: strings_view(segments@) }),
    {
        Point { route: Route::Global, segments }
    }

    pub fn is_root(&self) -> (r: bool)
        ensures
            r == self@.is_root(),
    {
        self.segments.len() == 0
    }

    /// A point of the global space: the executor, the registry.
    pub fn is_global(&self) -> (r: bool)
        ensures
            r == (self@.route == Route::Global),
    {
        match self.route {
            Route::Global => true,
            Route::Local => false,
        }
    }

    /// The number of segments.
    pub fn depth(&self) -> (r: usize)
        ensures
            r == self@.segments.len(),
    {
        self.segments.len()
    }

    /// The address one level up, or `None` for a root.
    pub fn parent(&self) -> (r: Option<Point>)
        ensures
            self@.is_root() <==> r is None,
            r matches Some(p) ==> p@ == self@.parent(),
    {
        if self.segments.len() == 0 {
            return None;
        }
        let p = self.truncate(self.segments.len() - 1);
        assert(p@.segments =~= self@.segments.drop_last());
        Some(p)
    }

    /// The ancestor that keeps the first `n` segments.
    pub fn truncate(&self, n: usize) -> (r: Point)
        requires
            n <= self@.segments.len(),
        ensures
            r@ == self@.truncate(n as int),
    {
        let mut segments: Vec<String> = Vec::new();
        let mut i: usize = 0;
        while i < n
            invariant
                i <= n,
                n <= self.segments.len(),
                segments@.len() == i,
                forall|j: int| 0 <= j < i ==> segments@[j]@ == self.segments@[j]@,
            decreases n - i,
        {
            segments.push(self.segments[i].clone());
            i += 1;
        }
        assert(strings_view(segments@) =~= self@.segments.subrange(0, n as int));
        Point { route: self.route, segments }
    }

    /// The last segment, or `None` for a root.
    pub fn last_segment(&self) -> (r: Option<String>)
        ensures
            self@.is_root() <==> r is None,
            r matches Some(s) ==> s@ == self@.segments.last(),
    {
        if self.segments.len() == 0 {
            None
        } else {
            Some(self.segments[self.segments.len() - 1].clone())
        }
    }

    /// The child of this address with the given last segment.
    pub fn push(&self, segment: String) -> (r: Point)
        ensures
            r@ == self@.push(segment@),
    {
        let mut segments = clone_strings(&self.segments);
        segments.push(segment);
        assert(strings_view(segments@) =~= self@.segments.push(segment@));
        Point { route: self.route, segments }
    }

    /// Whether `self` is `other` or one of its ancestors.
    pub fn is_prefix_of(&self, other: &Point) -> (r: bool)
        ensures
            r == self@.is_prefix_of(other@),
    {
        if self.route != other.route {
            return false;
        }
        if self.segments.len() > other.segments.len() {
            return false;
        }
        let mut i: usize = 0;
        while i < self.segments.len()
            invariant
                i <= self.segments.len(),
                self.segments.len() <= other.segments.len(),
                forall|j: int| 0 <= j < i ==> self.segments@[j]@ == other.segments@[j]@,
            decreases self.segments.len() - i,
        {
            if self.segments[i] != other.segments[i] {
                assert(other@.segments.subrange(0, self@.segments.len() as int)[i as int]
                    != self@.segments[i as int]);
                return false;
            }
            i += 1;
        }
        assert(other@.segments.subrange(0, self@.segments.len() as int) =~= self@.segments);
        true
    }

    /// Whether `self` is a strict ancestor of `other`.
    pub fn is_parent_of(&self, other: &Point) -> (r: bool)
        ensures
            r == self@.is_parent_of(other@),
    {
        self.segments.len() < other.segments.len() && self.is_prefix_of(other)
    }
}

/// The text of an address: `ROOT` for the local root, else the segments
/// with colons between them; an address of the global space begins with
/// `GLOBAL::`.
pub open spec fn point_text(p: PointView) -> Seq<char> {
    let path = crate::text::join(p.segments, ":"@);
    match p.route {
        Route::Local => if p.segments.len() == 0 {
            "ROOT"@
        } else {
            path
        },
        Route::Global => "GLOBAL::"@ + path,
    }
}

/// Whether a text can be a segment: it is not empty and holds no colon.
pub open spec fn is_segment(s: Seq<char>) -> bool {
    s.len() > 0 && !s.contains(':')
}

impl Point {
    /// The text of the address.
    pub fn to_string(&self) -> (r: String)
        ensures
            r@ == point_text(self@),
    {
        let path = crate::text::join_strings(&self.segments, ":");
        match self.route {
            Route::Local => {
                if self.segments.len() == 0 {
                    String::from_str("ROOT")
                } else {
                    path
                }
            },
            Route::Global => {
                let mut r = String::from_str("GLOBAL::");
                r.append(path.as_str());
                r
            },
        }
    }

    /// The local address that a text of segments with colons between them
    /// stands for. `None` where a segment is empty.
    pub fn from_str(s: &str) -> (r: Option<Point>)
        ensures
            r matches Some(p) ==> p@.route == Route::Local && p@.segments.len() > 0
                && crate::text::join(p@.segments, ":"@) == s@ && forall|i: int|
                0 <= i < p@.segments.len() ==> is_segment(#[trigger] p@.segments[i]),
            r is None ==> forall|segments: Seq<Seq<char>>|
                segments.len() > 0 && (forall|i: int|
                    0 <= i < segments.len() ==> is_segment(#[trigger] segments[i]))
                    ==> #[trigger] crate::text::join(segments, ":"@) != s@,
    {
        proof {
            reveal_strlit(":");
        }
        let n = s.unicode_len();
        let mut segments: Vec<String> = Vec::new();
        let mut start: usize = 0;
        let mut i: usize = 0;
        let ghost sep = ":"@;
        assert(sep =~= seq![':']);
        assert(s@.subrange(0, 0) =~= Seq::<char>::empty());
        while i < n
            invariant
                start <= i <= n,
                n == s@.len(),
                sep == seq![':'],
                ":"@ == seq![':'],
                forall|k: int| 0 <= k < segments@.len() ==> is_segment(#[trigger] segments@[k]@),
                forall|k: int| start <= k < i ==> s@[k] != ':',
                prefix_of(strings_view(segments@), s@, start as int),
            decreases n - i,
        {
            let c = s.get_char(i);
            if c == ':' {
                if i == start {
                    proof {
                        lemma_no_parse(strings_view(segments@), s@, start as int);
                    }
                    return None;
                }
                let segment = s.substring_char(start, i);
                let ghost before = strings_view(segments@);
                segments.push(String::from_str(segment));
                proof {
                    let after = strings_view(segments@);
                    assert(after =~= before.push(s@.subrange(start as int, i as int)));
                    assert(!s@.subrange(start as int, i as int).contains(':')) by {
                        let seg = s@.subrange(start as int, i as int);
                        if seg.contains(':') {
                            let k = choose|k: int| 0 <= k < seg.len() && seg[k] == ':';
                            assert(s@[start + k] == ':');
                        }
                    }
                    lemma_prefix_step(before, s@, start as int, i as int);
                }
                start = i + 1;
            }
            i += 1;
        }
        if start == n {
            proof {
                lemma_no_parse(strings_view(segments@), s@, start as int);
            }
            return None;
        }
        let segment = s.substring_char(start, n);
        let ghost before = strings_view(segments@);
        segments.push(String::from_str(segment));
        let p = Point::new(segments);
        proof {
            let after = p@.segments;
            assert(after =~= before.push(s@.subrange(start as int, n as int)));
            assert(!s@.subrange(start as int, n as int).contains(':')) by {
                let seg = s@.subrange(start as int, n as int);
                if seg.contains(':') {
                    let k = choose|k: int| 0 <= k < seg.len() && seg[k] == ':';
                    assert(s@[start + k] == ':');
                }
            }
            lemma_prefix_last(before, s@, start as int);
        }
        Some(p)
    }
}

/// Whether the segments, each followed by a colon, make up the first
/// `start` characters of the text.
pub open spec fn prefix_of(segments: Seq<Seq<char>>, s: Seq<char>, start: int) -> bool {
    0 <= start <= s.len() && s.subrange(0, start) == (if segments.len() == 0 {
        Seq::<char>::empty()
    } else {
        crate::text::join(segments, seq![':']) + seq![':']
    })
}

/// A segment that ends at a colon extends the prefix.
pub proof fn lemma_prefix_step(segments: Seq<Seq<char>>, s: Seq<char>, start: int, i: int)
    requires
        prefix_of(segments, s, start),
        start <= i < s.len(),
        s[i] == ':',
    ensures
        prefix_of(segments.push(s.subrange(start, i)), s, i + 1),
{
    let sep = seq![':'];
    let seg = s.subrange(start, i);
    let more = segments.push(seg);
    assert(more.drop_last() =~= segments);
    assert(more.last() == seg);
    if segments.len() == 0 {
        assert(crate::text::join(more, sep) == seg);
        assert(s.subrange(0, i + 1) =~= seg + sep);
    } else {
        assert(crate::text::join(more, sep) == crate::text::join(segments, sep) + sep + seg);
        assert(s.subrange(0, i + 1) =~= s.subrange(0, start) + seg + sep);
    }
}

/// The last segment completes the text.
pub proof fn lemma_prefix_last(segments: Seq<Seq<char>>, s: Seq<char>, start: int)
    requires
        prefix_of(segments, s, start),
        start < s.len(),
    ensures
        crate::text::join(segments.push(s.subrange(start, s.len() as int)), seq![':']) == s,
{
    let sep = seq![':'];
    let seg = s.subrange(start, s.len() as int);
    let more = segments.push(seg);
    assert(more.drop_last() =~= segments);
    assert(more.last() == seg);
    if segments.len() == 0 {
        assert(seg =~= s);
    } else {
        assert(s =~= s.subrange(0, start) + seg);
    }
}

/// The length of segments joined by colons.
pub open spec fn joined_len(segments: Seq<Seq<char>>) -> int
    decreases segments.len(),
{
    if segments.len() == 0 {
        0
    } else if segments.len() == 1 {
        segments[0].len() as int
    } else {
        joined_len(segments.drop_last()) + 1 + segments.last().len()
    }
}

/// Segments joined by colons: the first segment is what stands before the
/// first colon.
pub proof fn lemma_join_first(segments: Seq<Seq<char>>)
    requires
        segments.len() > 0,
        forall|i: int| 0 <= i < segments.len() ==> is_segment(#[trigger] segments[i]),
    ensures
        crate::text::join(segments, seq![':']).len() >= segments[0].len(),
        crate::text::join(segments, seq![':']).subrange(0, segments[0].len() as int)
            == segments[0],
        segments.len() == 1 ==> crate::text::join(segments, seq![':']) == segments[0],
        segments.len() > 1 ==> crate::text::join(segments, seq![':']) == segments[0] + seq![':']
            + crate::text::join(segments.drop_first(), seq![':']),
    decreases segments.len(),
{
    let sep = seq![':'];
    if segments.len() == 1 {
        assert(crate::text::join(segments, sep).subrange(0, segments[0].len() as int)
            =~= segments[0]);
    } else {
        let front = segments.drop_last();
        assert(front[0] == segments[0]);
        assert forall|i: int| 0 <= i < front.len() implies is_segment(#[trigger] front[i]) by {
            assert(front[i] == segments[i]);
        }
        lemma_join_first(front);
        let whole = crate::text::join(segments, sep);
        assert(whole == crate::text::join(front, sep) + sep + segments.last());
        assert(whole.subrange(0, segments[0].len() as int) =~= crate::text::join(
            front,
            sep,
        ).subrange(0, segments[0].len() as int));
        let rest = segments.drop_first();
        if segments.len() == 2 {
            assert(rest.len() == 1);
            assert(rest[0] == segments.last());
            assert(crate::text::join(rest, sep) == segments.last());
            assert(crate::text::join(front, sep) == segments[0]);
        } else {
            assert(rest.drop_last() =~= front.drop_first());
            assert(rest.last() == segments.last());
            assert(crate::text::join(rest, sep) == crate::text::join(rest.drop_last(), sep) + sep
                + rest.last());
            assert(whole =~= segments[0] + sep + crate::text::join(rest, sep));
        }
    }
}

/// A text in which a segment would be empty is the text of no address:
/// where the segments read so far, each followed by a colon, end at
/// `start`, and a colon or the end of the text stands at `start`.
pub proof fn lemma_no_parse(done: Seq<Seq<char>>, s: Seq<char>, start: int)
    requires
        prefix_of(done, s, start),
        forall|k: int| 0 <= k < done.len() ==> is_segment(#[trigger] done[k]),
        start == s.len() || s[start] == ':',
    ensures
        forall|segments: Seq<Seq<char>>|
            segments.len() > 0 && (forall|i: int|
                0 <= i < segments.len() ==> is_segment(#[trigger] segments[i]))
                ==> #[trigger] crate::text::join(segments, seq![':']) != s,
{
    assert forall|segments: Seq<Seq<char>>|
        segments.len() > 0 && (forall|i: int|
            0 <= i < segments.len() ==> is_segment(#[trigger] segments[i]))
            implies #[trigger] crate::text::join(segments, seq![':']) != s by {
        if crate::text::join(segments, seq![':']) == s {
            lemma_next_segment(done, segments, s, start);
        }
    }
}

/// Segments whose join is the text begin with the segments read so far,
/// and their next segment starts at `start`: it cannot be empty, so neither
/// a colon nor the end of the text stands there.
pub proof fn lemma_next_segment(
    done: Seq<Seq<char>>,
    segments: Seq<Seq<char>>,
    s: Seq<char>,
    start: int,
)
    requires
        prefix_of(done, s, start),
        forall|k: int| 0 <= k < done.len() ==> is_segment(#[trigger] done[k]),
        segments.len() > 0,
        forall|i: int| 0 <= i < segments.len() ==> is_segment(#[trigger] segments[i]),
        crate::text::join(segments, seq![':']) == s,
    ensures
        start < s.len(),
        s[start] != ':',
    decreases done.len(),
{
    let sep = seq![':'];
    lemma_join_first(segments);
    let first = segments[0];
    if done.len() == 0 {
        // The first segment starts at the start of the text.
        assert(start == 0);
        assert(s.subrange(0, first.len() as int) == first);
        assert(first[0] == s[0]);
        assert(first.contains(first[0]));
    } else {
        lemma_join_first(done);
        let d = done[0];
        // Both first segments end at the first colon of the text.
        assert(s.subrange(0, start) == crate::text::join(done, sep) + sep);
        let n = d.len() as int;
        let m = first.len() as int;
        assert(s.subrange(0, start).len() == start);
        assert((crate::text::join(done, sep) + sep).len() == crate::text::join(done, sep).len()
            + 1);
        assert(start >= n + 1);
        assert(s.len() >= m);
        assert(s.subrange(0, start).subrange(0, n) =~= d) by {
            assert((crate::text::join(done, sep) + sep).subrange(0, n) =~= crate::text::join(
                done,
                sep,
            ).subrange(0, n));
        }
        assert(s[n] == ':') by {
            let t = crate::text::join(done, sep) + sep;
            if done.len() == 1 {
                assert(t[n] == ':');
            } else {
                assert(crate::text::join(done, sep) == d + sep + crate::text::join(
                    done.drop_first(),
                    sep,
                ));
                assert(t[n] == ':');
            }
            assert(s.subrange(0, start)[n] == t[n]);
        }
        assert forall|k: int| 0 <= k < n implies s[k] != ':' by {
            assert(s.subrange(0, start).subrange(0, n)[k] == d[k]);
            assert(d.contains(d[k]));
        }
        assert forall|k: int| 0 <= k < m implies s[k] != ':' by {
            assert(s.subrange(0, m)[k] == first[k]);
            assert(first.contains(first[k]));
        }
        if m < n {
            // A colon or the end of the text follows the first segment.
            if segments.len() == 1 {
                assert(s.len() == m);
            } else {
                assert(s =~= first + sep + crate::text::join(segments.drop_first(), sep));
                assert(s[m] == ':');
            }
        } else if m > n {
        } else {
            assert(first =~= d) by {
                assert forall|k: int| 0 <= k < n implies first[k] == d[k] by {
                    assert(s.subrange(0, m)[k] == first[k]);
                    assert(s.subrange(0, start).subrange(0, n)[k] == d[k]);
                }
            }
            if segments.len() == 1 {
                assert(s.len() == n);
            } else {
                let rest_s = s.subrange(n + 1, s.len() as int);
                let rest_segments = segments.drop_first();
                let rest_done = done.drop_first();
                assert(s =~= first + sep + crate::text::join(rest_segments, sep));
                assert(rest_s =~= crate::text::join(rest_segments, sep));
                assert forall|i: int| 0 <= i < rest_segments.len() implies is_segment(
                    #[trigger] rest_segments[i],
                ) by {
                    assert(rest_segments[i] == segments[i + 1]);
                }
                assert forall|k: int| 0 <= k < rest_done.len() implies is_segment(
                    #[trigger] rest_done[k],
                ) by {
                    assert(rest_done[k] == done[k + 1]);
                }
                assert(prefix_of(rest_done, rest_s, start - n - 1)) by {
                    if done.len() == 1 {
                        assert(start == n + 1);
                        assert(rest_s.subrange(0, 0) =~= Seq::<char>::empty());
                    } else {
                        let t = crate::text::join(done, sep) + sep;
                        assert(crate::text::join(done, sep) == d + sep + crate::text::join(
                            rest_done,
                            sep,
                        ));
                        assert(t.len() == start);
                        assert(rest_s.subrange(0, start - n - 1) =~= s.subrange(0, start).subrange(
                            n + 1,
                            start,
                        ));
                        assert(t.subrange(n + 1, start) =~= crate::text::join(rest_done, sep)
                            + sep);
                    }
                }
                lemma_next_segment(rest_done, rest_segments, rest_s, start - n - 1);
                assert(rest_s[start - n - 1] == s[start]);
            }
        }
    }
}

/// The layer of a particle at which a wave enters or leaves it, from the
/// fabric side (gravity) inwards to the core.
#[derive(Clone, Copy, Debug, PartialEq, Eq, Structural, Hash)]
pub enum Layer {
    Gravity,
    Field,
    Shell,
    Portal,
    Host,
    Guest,
    Core,
}

impl Layer {
    /// The position of the layer on the way from the fabric to the core.
    pub open spec fn spec_ordinal(self) -> u8 {
        match self {
            Layer::Gravity => 0,
            Layer::Field => 1,
            Layer::Shell => 2,
            Layer::Portal => 3,
            Layer::Host => 4,
            Layer::Guest => 5,
            Layer::Core => 6,
        }
    }

    #[verifier::when_used_as_spec(spec_ordinal)]
    pub fn ordinal(self) -> (r: u8)
        ensures
            r == self.spec_ordinal(),
    {
        match self {
            Layer::Gravity => 0,
            Layer::Field => 1,
            Layer::Shell => 2,
            Layer::Portal => 3,
            Layer::Host => 4,
            Layer::Guest => 5,
            Layer::Core => 6,
        }
    }
}

/// An address together with the layer at which a wave enters or leaves the
/// particle.
#[derive(Debug, Eq, Hash)]
pub struct Surface {
    pub point: Point,
    pub layer: Layer,
}

pub struct SurfaceView {
    pub point: PointView,
    pub layer: Layer,
}

impl View for Surface {
    type V = SurfaceView;

    open spec fn view(&self) -> SurfaceView {
        SurfaceView { point: self.point@, layer: self.layer }
    }
}

impl Clone for Surface {
    fn clone(&self) -> (r: Surface)
        ensures
            r@ == self@,
    {
        Surface { point: self.point.clone(), layer: self.layer }
    }
}

impl PartialEq for Surface {
    fn eq(&self, other: &Surface) -> (r: bool) {
        self.layer == other.layer && self.point == other.point
    }
}

impl PartialEqSpecImpl for Surface {
    open spec fn obeys_eq_spec() -> bool {
        true
    }

    open spec fn eq_spec(&self, other: &Surface) -> bool {
        self@ == other@
    }
}

impl Surface {
    pub fn new(point: Point, layer: Layer) -> (r: Surface)
        ensures
            r@ == (SurfaceView { point: point@, layer }),
    {
        Surface { point, layer }
    }

    /// The same address at another layer.
    pub fn with_layer(&self, layer: Layer) -> (r: Surface)
        ensures
            r@ == (SurfaceView { point: self@.point, layer }),
    {
        Surface { point: self.point.clone(), layer }
    }

    pub fn to_point(&self) -> (r: Point)
        ensures
            r@ == self@.point,
    {
        self.point.clone()
    }
}

impl Point {
    /// The surface of this address at the core layer, the default of an
    /// address used as a surface.
    pub fn to_surface(&self) -> (r: Surface)
        ensures
            r@ == (SurfaceView { point: self@, layer: Layer::Core }),
    {
        Surface { point: self.clone(), layer: Layer::Core }
    }
}

} // verus!
