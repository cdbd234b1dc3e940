//! Stars: their keys, their kinds, and the templates from which they are
//! built.

use vstd::prelude::*;
use vstd::std_specs::cmp::PartialEqSpecImpl;
use vstd::string::StringExecFns;
use crate::error::Error;
use crate::point::{Point, PointView, Route};
use crate::text::{decimal, u64_to_string};

verus! {

/// The key of a star: its place within nested subgraphs of the
/// constellation.
#[derive(Debug, Eq, Hash)]
pub struct StarKey {
    pub subgraph: Vec<u16>,
    pub index: u16,
}

pub struct StarKeyView {
    pub subgraph: Seq<u16>,
    pub index: u16,
}

/// The numbers of a list, with a comma and a blank between neighbours.
pub open spec fn numbers_text(v: Seq<u16>) -> Seq<char>
    decreases v.len(),
{
    if v.len() == 0 {
        Seq::empty()
    } else if v.len() == 1 {
        decimal(v[0] as nat)
    } else {
        numbers_text(v.drop_last()) + ", "@ + decimal(v.last() as nat)
    }
}

impl StarKeyView {
    /// The text of the key.
    pub open spec fn text(self) -> Seq<char> {
        "(["@ + numbers_text(self.subgraph) + "],"@ + decimal(self.index as nat) + ")"@
    }
}

impl View for StarKey {
    type V = StarKeyView;

    open spec fn view(&self) -> StarKeyView {
        StarKeyView { subgraph: self.subgraph@, index: self.index }
    }
}

/// The first place at which two sequences differ, or the length of the
/// shorter where one begins the other.
pub open spec fn first_difference(a: Seq<u16>, b: Seq<u16>) -> int
    decreases a.len(),
{
    if a.len() == 0 || b.len() == 0 || a[0] != b[0] {
        0
    } else {
        1 + first_difference(a.drop_first(), b.drop_first())
    }
}

impl StarKeyView {
    /// The order of star keys: a key in a deeper subgraph is greater; keys
    /// of the same depth go by the first place at which their subgraphs
    /// differ, and keys of one subgraph by their index.
    pub open spec fn less(self, other: StarKeyView) -> bool {
        if self.subgraph.len() != other.subgraph.len() {
            self.subgraph.len() < other.subgraph.len()
        } else {
            let d = first_difference(self.subgraph, other.subgraph);
            if d < self.subgraph.len() {
                self.subgraph[d] < other.subgraph[d]
            } else {
                self.index < other.index
            }
        }
    }

    /// The address of the star: `star`, then the subgraph, then the index,
    /// each number in decimal.
    pub open spec fn to_point(self) -> PointView {
        PointView {
            route: Route::Local,
            segments: seq!["star"@] + Seq::new(
                self.subgraph.len(),
                |i: int| decimal(self.subgraph[i] as nat),
            ) + seq![decimal(self.index as nat)],
        }
    }
}

/// Within the first difference the sequences agree; at it, where it lies
/// within both, they differ.
pub proof fn lemma_first_difference(a: Seq<u16>, b: Seq<u16>)
    ensures
        0 <= first_difference(a, b) <= a.len(),
        first_difference(a, b) <= b.len(),
        forall|i: int| 0 <= i < first_difference(a, b) ==> a[i] == b[i],
        first_difference(a, b) < a.len() && first_difference(a, b) < b.len() ==> a[first_difference(
            a,
            b,
        )] != b[first_difference(a, b)],
    decreases a.len(),
{
    if !(a.len() == 0 || b.len() == 0 || a[0] != b[0]) {
        lemma_first_difference(a.drop_first(), b.drop_first());
        let d = first_difference(a.drop_first(), b.drop_first());
        assert forall|i: int| 0 <= i < d + 1 implies a[i] == b[i] by {
            if i > 0 {
                assert(a.drop_first()[i - 1] == a[i]);
                assert(b.drop_first()[i - 1] == b[i]);
            }
        }
        if d < a.drop_first().len() && d < b.drop_first().len() {
            assert(a.drop_first()[d] == a[d + 1]);
            assert(b.drop_first()[d] == b[d + 1]);
        }
    }
}

/// The first difference is the one place before which the sequences agree
/// and at which they differ or one of them ends.
pub proof fn lemma_first_difference_is(a: Seq<u16>, b: Seq<u16>, d: int)
    requires
        0 <= d <= a.len(),
        d <= b.len(),
        forall|i: int| 0 <= i < d ==> a[i] == b[i],
        d == a.len() || d == b.len() || a[d] != b[d],
    ensures
        first_difference(a, b) == d,
    decreases a.len(),
{
    if d > 0 {
        assert(a[0] == b[0]);
        assert forall|i: int| 0 <= i < d - 1 implies a.drop_first()[i] == b.drop_first()[i] by {
            assert(a[i + 1] == b[i + 1]);
        }
        lemma_first_difference_is(a.drop_first(), b.drop_first(), d - 1);
    }
}

/// Copies a list of numbers.
pub fn clone_u16s(v: &Vec<u16>) -> (r: Vec<u16>)
    ensures
        r@ == v@,
{
    let mut r: Vec<u16> = Vec::new();
    let mut i: usize = 0;
    while i < v.len()
        invariant
            i <= v.len(),
            r@ == v@.subrange(0, i as int),
        decreases v.len() - i,
    {
        r.push(v[i]);
        assert(r@ =~= v@.subrange(0, i as int + 1));
        i += 1;
    }
    assert(v@.subrange(0, v.len() as int) =~= v@);
    r
}

impl Clone for StarKey {
    fn clone(&self) -> (r: StarKey)
        ensures
            r@ == self@,
    {
        StarKey { subgraph: clone_u16s(&self.subgraph), index: self.index }
    }
}

impl PartialEq for StarKey {
    fn eq(&self, other: &StarKey) -> (r: bool) {
        if self.index != other.index || self.subgraph.len() != other.subgraph.len() {
            assert(self@ != other@);
            return false;
        }
        let mut i: usize = 0;
        while i < self.subgraph.len()
            invariant
                i <= self.subgraph.len(),
                self.subgraph.len() == other.subgraph.len(),
                forall|j: int| 0 <= j < i ==> self.subgraph@[j] == other.subgraph@[j],
            decreases self.subgraph.len() - i,
        {
            if self.subgraph[i] != other.subgraph[i] {
                assert(self@.subgraph[i as int] != other@.subgraph[i as int]);
                return false;
            }
            i += 1;
        }
        assert(self@.subgraph =~= other@.subgraph);
        true
    }
}

impl PartialEqSpecImpl for StarKey {
    open spec fn obeys_eq_spec() -> bool {
        true
    }

    open spec fn eq_spec(&self, other: &StarKey) -> bool {
        self@ == other@
    }
}

impl StarKey {
    /// The key of the central star.
    pub fn central() -> (r: StarKey)
        ensures
            r@ == (StarKeyView { subgraph: Seq::empty(), index: 0 }),
    {
        StarKey { subgraph: Vec::new(), index: 0 }
    }

    /// The key with the index in the outermost graph.
    pub fn new(index: u16) -> (r: StarKey)
        ensures
            r@ == (StarKeyView { subgraph: Seq::empty(), index }),
    {
        StarKey { subgraph: Vec::new(), index }
    }

    /// The key with the index in the subgraph.
    pub fn new_with_subgraph(subgraph: Vec<u16>, index: u16) -> (r: StarKey)
        ensures
            r@ == (StarKeyView { subgraph: subgraph@, index }),
    {
        StarKey { subgraph, index }
    }

    /// The key in the same subgraph with another index.
    pub fn with_index(&self, index: u16) -> (r: StarKey)
        ensures
            r@ == (StarKeyView { subgraph: self@.subgraph, index }),
    {
        StarKey { subgraph: clone_u16s(&self.subgraph), index }
    }

    /// Whether this key comes before the other in the order of keys.
    pub fn precedes(&self, other: &StarKey) -> (r: bool)
        ensures
            r == self@.less(other@),
    {
        if self.subgraph.len() != other.subgraph.len() {
            return self.subgraph.len() < other.subgraph.len();
        }
        let mut i: usize = 0;
        while i < self.subgraph.len()
            invariant
                i <= self.subgraph.len(),
                self.subgraph.len() == other.subgraph.len(),
                forall|j: int| 0 <= j < i ==> self.subgraph@[j] == other.subgraph@[j],
            decreases self.subgraph.len() - i,
        {
            if self.subgraph[i] != other.subgraph[i] {
                proof {
                    lemma_first_difference_is(self@.subgraph, other@.subgraph, i as int);
                }
                return self.subgraph[i] < other.subgraph[i];
            }
            i += 1;
        }
        proof {
            lemma_first_difference_is(self@.subgraph, other@.subgraph, i as int);
        }
        self.index < other.index
    }

    /// The text of the key: its subgraph as a list in square brackets, a
    /// comma and its index, all in round brackets.
    pub fn to_string(&self) -> (r: String)
        ensures
            r@ == self@.text(),
    {
        let mut r = String::from_str("([");
        let mut i: usize = 0;
        while i < self.subgraph.len()
            invariant
                i <= self.subgraph.len(),
                r@ == "(["@ + numbers_text(self@.subgraph.take(i as int)),
            decreases self.subgraph.len() - i,
        {
            proof {
                let upto = self@.subgraph.take(i + 1);
                assert(upto.drop_last() =~= self@.subgraph.take(i as int));
                assert(upto.last() == self@.subgraph[i as int]);
            }
            let ghost before = r@;
            if i > 0 {
                r.append(", ");
            }
            r.append(u64_to_string(self.subgraph[i] as u64).as_str());
            proof {
                let upto = self@.subgraph.take(i + 1);
                if i > 0 {
                    assert(r@ =~= "(["@ + (numbers_text(upto.drop_last()) + ", "@ + decimal(
                        upto.last() as nat,
                    )));
                } else {
                    assert(numbers_text(self@.subgraph.take(0)) =~= Seq::<char>::empty());
                    assert(r@ =~= "(["@ + decimal(upto.last() as nat));
                }
            }
            i += 1;
        }
        proof {
            assert(self@.subgraph.take(i as int) =~= self@.subgraph);
        }
        r.append("],");
        r.append(u64_to_string(self.index as u64).as_str());
        r.append(")");
        assert(r@ =~= self@.text());
        r
    }

    /// The two keys, the greater first. Fails where they are equal, with
    /// a message that shows both.
    pub fn sort(a: StarKey, b: StarKey) -> (r: Result<(StarKey, StarKey), Error>)
        ensures
            r is Err <==> a@ == b@,
            r matches Err(e) ==> e@ == "both StarKeys are equal. "@ + a@.text() + "=="@
                + b@.text(),
            r matches Ok(pair) ==> if b@.less(a@) {
                pair.0@ == a@ && pair.1@ == b@
            } else {
                pair.0@ == b@ && pair.1@ == a@
            },
    {
        if a == b {
            let mut message = String::from_str("both StarKeys are equal. ");
            message.append(a.to_string().as_str());
            message.append("==");
            message.append(b.to_string().as_str());
            Err(Error { message })
        } else if b.precedes(&a) {
            Ok((a, b))
        } else {
            Ok((b, a))
        }
    }

    /// The address of the star.
    pub fn to_point(&self) -> (r: Point)
        ensures
            r@ == self@.to_point(),
    {
        let mut segments: Vec<String> = Vec::new();
        segments.push(String::from_str("star"));
        let mut i: usize = 0;
        while i < self.subgraph.len()
            invariant
                i <= self.subgraph.len(),
                segments@.len() == i + 1,
                segments@[0]@ == "star"@,
                forall|j: int|
                    0 <= j < i ==> (#[trigger] segments@[j + 1])@ == decimal(
                        self.subgraph@[j] as nat,
                    ),
            decreases self.subgraph.len() - i,
        {
            segments.push(u64_to_string(self.subgraph[i] as u64));
            i += 1;
        }
        segments.push(u64_to_string(self.index as u64));
        let r = Point::new(segments);
        proof {
            let want = self@.to_point().segments;
            assert(r@.segments.len() == want.len());
            assert forall|j: int| 0 <= j < want.len() implies r@.segments[j] == want[j] by {
                if 0 < j <= self.subgraph.len() {
                    assert(segments@[(j - 1) + 1]@ == decimal(self.subgraph@[j - 1] as nat));
                }
            }
            assert(r@.segments =~= want);
        }
        r
    }
}

/// The kinds of stars of the fabric.
#[derive(Clone, Copy, Debug, PartialEq, Eq, Structural, Hash)]
pub enum StarSub {
    Central,
    Super,
    Nexus,
    Maelstrom,
    Scribe,
    Jump,
    Fold,
    Machine,
}

impl StarSub {
    /// Whether stars of this kind pass on transports that are not for
    /// them: all but the central star and the machine star.
    pub open spec fn spec_is_forwarder(self) -> bool {
        self != StarSub::Central && self != StarSub::Machine
    }

    #[verifier::when_used_as_spec(spec_is_forwarder)]
    pub fn is_forwarder(self) -> (r: bool)
        ensures
            r == self.spec_is_forwarder(),
    {
        match self {
            StarSub::Central => false,
            StarSub::Machine => false,
            _ => true,
        }
    }
}

/// A star as others see it: its key and its kind.
#[derive(Debug, PartialEq, Eq, Hash)]
pub struct StarStub {
    pub key: StarKey,
    pub kind: StarSub,
}

pub struct StarStubView {
    pub key: StarKeyView,
    pub kind: StarSub,
}

impl View for StarStub {
    type V = StarStubView;

    open spec fn view(&self) -> StarStubView {
        StarStubView { key: self.key@, kind: self.kind }
    }
}

impl Clone for StarStub {
    fn clone(&self) -> (r: StarStub)
        ensures
            r@ == self@,
    {
        StarStub { key: self.key.clone(), kind: self.kind }
    }
}

impl StarStub {
    pub fn new(key: StarKey, kind: StarSub) -> (r: StarStub)
        ensures
            r@ == (StarStubView { key: key@, kind }),
    {
        StarStub { key, kind }
    }
}

/// A connection of a star: one that it waits for, or one that it makes.
#[derive(Debug, PartialEq, Eq, Hash)]
pub enum StarCon {
    Receiver(StarStub),
    Connector(StarStub),
}

pub enum StarConView {
    Receiver(StarStubView),
    Connector(StarStubView),
}

impl View for StarCon {
    type V = StarConView;

    open spec fn view(&self) -> StarConView {
        match self {
            StarCon::Receiver(s) => StarConView::Receiver(s@),
            StarCon::Connector(s) => StarConView::Connector(s@),
        }
    }
}

impl StarConView {
    pub open spec fn stub(self) -> StarStubView {
        match self {
            StarConView::Receiver(s) => s,
            StarConView::Connector(s) => s,
        }
    }
}

impl Clone for StarCon {
    fn clone(&self) -> (r: StarCon)
        ensures
            r@ == self@,
    {
        match self {
            StarCon::Receiver(s) => StarCon::Receiver(s.clone()),
            StarCon::Connector(s) => StarCon::Connector(s.clone()),
        }
    }
}

impl StarCon {
    pub fn is_connector(&self) -> (r: bool)
        ensures
            r == (self@ is Connector),
    {
        match self {
            StarCon::Receiver(_) => false,
            StarCon::Connector(_) => true,
        }
    }

    pub fn is_receiver(&self) -> (r: bool)
        ensures
            r == (self@ is Receiver),
    {
        match self {
            StarCon::Receiver(_) => true,
            StarCon::Connector(_) => false,
        }
    }

    /// The star at the other end.
    pub fn stub(&self) -> (r: &StarStub)
        ensures
            r@ == self@.stub(),
    {
        match self {
            StarCon::Receiver(stub) => stub,
            StarCon::Connector(stub) => stub,
        }
    }

    /// The key of the star at the other end.
    pub fn key(&self) -> (r: &StarKey)
        ensures
            r@ == self@.stub().key,
    {
        match self {
            StarCon::Receiver(stub) => &stub.key,
            StarCon::Connector(stub) => &stub.key,
        }
    }

    /// The kind of the star at the other end.
    pub fn kind(&self) -> (r: &StarSub)
        ensures
            *r == self@.stub().kind,
    {
        match self {
            StarCon::Receiver(stub) => &stub.kind,
            StarCon::Connector(stub) => &stub.kind,
        }
    }
}

/// The views of a sequence of connections.
pub open spec fn cons_view(v: Seq<StarCon>) -> Seq<StarConView> {
    Seq::new(v.len(), |i: int| v[i]@)
}

/// What a star is built from: its key, its kind and its connections.
#[derive(Debug, PartialEq, Eq, Hash)]
pub struct StarTemplate {
    pub key: StarKey,
    pub kind: StarSub,
    pub connections: Vec<StarCon>,
}

pub struct StarTemplateView {
    pub key: StarKeyView,
    pub kind: StarSub,
    pub connections: Seq<StarConView>,
}

impl View for StarTemplate {
    type V = StarTemplateView;

    open spec fn view(&self) -> StarTemplateView {
        StarTemplateView {
            key: self.key@,
            kind: self.kind,
            connections: cons_view(self.connections@),
        }
    }
}

impl StarTemplate {
    /// A template without connections.
    pub fn new(key: StarKey, kind: StarSub) -> (r: StarTemplate)
        ensures
            r@ == (StarTemplateView { key: key@, kind, connections: Seq::empty() }),
    {
        let r = StarTemplate { key, kind, connections: Vec::new() };
        assert(r@.connections =~= Seq::<StarConView>::empty());
        r
    }

    pub fn to_stub(&self) -> (r: StarStub)
        ensures
            r@ == (StarStubView { key: self@.key, kind: self@.kind }),
    {
        StarStub::new(self.key.clone(), self.kind)
    }

    /// Adds a connection that the star waits for.
    pub fn receive(&mut self, stub: StarStub)
        ensures
            final(self)@ == (StarTemplateView {
                connections: old(self)@.connections.push(StarConView::Receiver(stub@)),
                ..old(self)@
            }),
    {
        let ghost before = self@.connections;
        self.connections.push(StarCon::Receiver(stub));
        assert(self@.connections =~= before.push(StarConView::Receiver(stub@)));
    }

    /// Adds a connection that the star makes.
    pub fn connect(&mut self, stub: StarStub)
        ensures
            final(self)@ == (StarTemplateView {
                connections: old(self)@.connections.push(StarConView::Connector(stub@)),
                ..old(self)@
            }),
    {
        let ghost before = self@.connections;
        self.connections.push(StarCon::Connector(stub));
        assert(self@.connections =~= before.push(StarConView::Connector(stub@)));
    }
}

} // verus!
