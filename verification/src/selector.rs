//! Patterns over addresses: a selector is a sequence of hops, each of which
//! tests one segment of an address and the kind of the particle there.

use vstd::prelude::*;
use crate::kind::{BaseKind, Kind, KindView, Specific, SpecificView};
use crate::point::{Point, PointView, Route};
use crate::text::{opt_view, opt_equal, clone_opt};

verus! {

/// One segment of an address with the kind of the particle that it names.
#[derive(Debug, PartialEq, Eq, Hash)]
pub struct PointKindSeg {
    pub segment: String,
    pub kind: Kind,
}

pub struct SegView {
    pub segment: Seq<char>,
    pub kind: KindView,
}

impl View for PointKindSeg {
    type V = SegView;

    open spec fn view(&self) -> SegView {
        SegView { segment: self.segment@, kind: self.kind@ }
    }
}

impl Clone for PointKindSeg {
    fn clone(&self) -> (r: PointKindSeg)
        ensures
            r@ == self@,
    {
        PointKindSeg { segment: self.segment.clone(), kind: self.kind.clone() }
    }
}

/// The views of a sequence of segments.
pub open spec fn segs_view(v: Seq<PointKindSeg>) -> Seq<SegView> {
    Seq::new(v.len(), |i: int| v[i]@)
}

/// An address with the kind of every particle on the way to it.
#[derive(Debug, PartialEq, Eq, Hash)]
pub struct PointHierarchy {
    pub route: Route,
    pub segments: Vec<PointKindSeg>,
}

pub struct HierarchyView {
    pub route: Route,
    pub segments: Seq<SegView>,
}

impl HierarchyView {
    /// The address that the hierarchy describes.
    pub open spec fn point(self) -> PointView {
        PointView {
            route: self.route,
            segments: Seq::new(self.segments.len(), |i: int| self.segments[i].segment),
        }
    }

    pub open spec fn push(self, seg: SegView) -> HierarchyView {
        HierarchyView { route: self.route, segments: self.segments.push(seg) }
    }
}

impl View for PointHierarchy {
    type V = HierarchyView;

    open spec fn view(&self) -> HierarchyView {
        HierarchyView { route: self.route, segments: segs_view(self.segments@) }
    }
}

impl Clone for PointHierarchy {
    fn clone(&self) -> (r: PointHierarchy)
        ensures
            r@ == self@,
    {
        let mut segments: Vec<PointKindSeg> = Vec::new();
        let mut i: usize = 0;
        while i < self.segments.len()
            invariant
                i <= self.segments.len(),
                segments@.len() == i,
                forall|j: int| 0 <= j < i ==> segments@[j]@ == self.segments@[j]@,
            decreases self.segments.len() - i,
        {
            segments.push(self.segments[i].clone());
            i += 1;
        }
        assert(segs_view(segments@) =~= segs_view(self.segments@));
        PointHierarchy { route: self.route, segments }
    }
}

impl PointHierarchy {
    /// The hierarchy of a root.
    pub fn new(route: Route) -> (r: PointHierarchy)
        ensures
            r@ == (HierarchyView { route, segments: Seq::empty() }),
    {
        let r = PointHierarchy { route, segments: Vec::new() };
        assert(r@.segments =~= Seq::<SegView>::empty());
        r
    }

    /// The hierarchy one level further down.
    pub fn push(&self, seg: PointKindSeg) -> (r: PointHierarchy)
        ensures
            r@ == self@.push(seg@),
    {
        let mut r = self.clone();
        let ghost before = r@.segments;
        r.segments.push(seg);
        assert(r@.segments =~= before.push(seg@));
        r
    }

    pub fn is_root(&self) -> (r: bool)
        ensures
            r == (self@.segments.len() == 0),
    {
        self.segments.len() == 0
    }
}

/// How a hop tests the text of a segment.
#[derive(Debug, PartialEq, Eq, Hash)]
pub enum PointSegSelector {
    /// Any one segment.
    Any,
    /// One segment or more.
    Recursive,
    /// The segment with this text.
    Exact(String),
}

pub enum SegSelectorView {
    Any,
    Recursive,
    Exact(Seq<char>),
}

impl View for PointSegSelector {
    type V = SegSelectorView;

    open spec fn view(&self) -> SegSelectorView {
        match self {
            PointSegSelector::Any => SegSelectorView::Any,
            PointSegSelector::Recursive => SegSelectorView::Recursive,
            PointSegSelector::Exact(s) => SegSelectorView::Exact(s@),
        }
    }
}

impl SegSelectorView {
    pub open spec fn matches(self, segment: Seq<char>) -> bool {
        match self {
            SegSelectorView::Exact(s) => s == segment,
            _ => true,
        }
    }
}

impl Clone for PointSegSelector {
    fn clone(&self) -> (r: PointSegSelector)
        ensures
            r@ == self@,
    {
        match self {
            PointSegSelector::Any => PointSegSelector::Any,
            PointSegSelector::Recursive => PointSegSelector::Recursive,
            PointSegSelector::Exact(s) => PointSegSelector::Exact(s.clone()),
        }
    }
}

impl PointSegSelector {
    pub fn is_recursive(&self) -> (r: bool)
        ensures
            r == (self@ is Recursive),
    {
        match self {
            PointSegSelector::Recursive => true,
            _ => false,
        }
    }

    pub fn is_exact(&self) -> (r: bool)
        ensures
            r == (self@ is Exact),
    {
        match self {
            PointSegSelector::Exact(_) => true,
            _ => false,
        }
    }

    pub fn matches(&self, segment: &String) -> (r: bool)
        ensures
            r == self@.matches(segment@),
    {
        match self {
            PointSegSelector::Exact(s) => *s == *segment,
            _ => true,
        }
    }
}

/// How a hop tests a base kind.
#[derive(Clone, Copy, Debug, PartialEq, Eq, Structural, Hash)]
pub enum KindBaseSelector {
    Any,
    Exact(BaseKind),
}

/// How a hop tests a sub kind.
#[derive(Debug, PartialEq, Eq, Hash)]
pub enum SubKindSelector {
    Any,
    Exact(Option<String>),
}

pub enum SubSelectorView {
    Any,
    Exact(Option<Seq<char>>),
}

impl View for SubKindSelector {
    type V = SubSelectorView;

    open spec fn view(&self) -> SubSelectorView {
        match self {
            SubKindSelector::Any => SubSelectorView::Any,
            SubKindSelector::Exact(o) => SubSelectorView::Exact(opt_view(*o)),
        }
    }
}

/// How a hop tests one text field of a specific.
#[derive(Debug, PartialEq, Eq, Hash)]
pub enum TextSelector {
    Any,
    Exact(String),
}

pub enum TextSelectorView {
    Any,
    Exact(Seq<char>),
}

impl View for TextSelector {
    type V = TextSelectorView;

    open spec fn view(&self) -> TextSelectorView {
        match self {
            TextSelector::Any => TextSelectorView::Any,
            TextSelector::Exact(s) => TextSelectorView::Exact(s@),
        }
    }
}

impl TextSelectorView {
    pub open spec fn matches(self, text: Seq<char>) -> bool {
        match self {
            TextSelectorView::Any => true,
            TextSelectorView::Exact(s) => s == text,
        }
    }
}

impl TextSelector {
    pub fn matches(&self, text: &String) -> (r: bool)
        ensures
            r == self@.matches(text@),
    {
        match self {
            TextSelector::Any => true,
            TextSelector::Exact(s) => *s == *text,
        }
    }

    pub fn clone(&self) -> (r: TextSelector)
        ensures
            r@ == self@,
    {
        match self {
            TextSelector::Any => TextSelector::Any,
            TextSelector::Exact(s) => TextSelector::Exact(s.clone()),
        }
    }
}

/// Tests on the provider, vendor, product and variant of a specific.
#[derive(Debug, PartialEq, Eq, Hash)]
pub struct SpecificSelector {
    pub provider: TextSelector,
    pub vendor: TextSelector,
    pub product: TextSelector,
    pub variant: TextSelector,
}

pub struct SpecificSelectorView {
    pub provider: TextSelectorView,
    pub vendor: TextSelectorView,
    pub product: TextSelectorView,
    pub variant: TextSelectorView,
}

impl View for SpecificSelector {
    type V = SpecificSelectorView;

    open spec fn view(&self) -> SpecificSelectorView {
        SpecificSelectorView {
            provider: self.provider@,
            vendor: self.vendor@,
            product: self.product@,
            variant: self.variant@,
        }
    }
}

impl SpecificSelectorView {
    pub open spec fn matches(self, s: SpecificView) -> bool {
        &&& self.provider.matches(s.provider)
        &&& self.vendor.matches(s.vendor)
        &&& self.product.matches(s.product)
        &&& self.variant.matches(s.variant)
    }
}

impl SpecificSelector {
    pub fn matches(&self, s: &Specific) -> (r: bool)
        ensures
            r == self@.matches(s@),
    {
        self.provider.matches(&s.provider) && self.vendor.matches(&s.vendor)
            && self.product.matches(&s.product) && self.variant.matches(&s.variant)
    }
}

/// How a hop tests the specific of a kind: not at all, that there is none,
/// or field by field.
#[derive(Debug, PartialEq, Eq, Hash)]
pub enum SpecificPattern {
    Any,
    Absent,
    Pattern(SpecificSelector),
}

pub enum SpecificPatternView {
    Any,
    Absent,
    Pattern(SpecificSelectorView),
}

impl View for SpecificPattern {
    type V = SpecificPatternView;

    open spec fn view(&self) -> SpecificPatternView {
        match self {
            SpecificPattern::Any => SpecificPatternView::Any,
            SpecificPattern::Absent => SpecificPatternView::Absent,
            SpecificPattern::Pattern(p) => SpecificPatternView::Pattern(p@),
        }
    }
}

/// The test of a hop on the kind of a particle.
#[derive(Debug, PartialEq, Eq, Hash)]
pub struct KindSelector {
    pub base: KindBaseSelector,
    pub sub: SubKindSelector,
    pub specific: SpecificPattern,
}

pub struct KindSelectorView {
    pub base: KindBaseSelector,
    pub sub: SubSelectorView,
    pub specific: SpecificPatternView,
}

impl View for KindSelector {
    type V = KindSelectorView;

    open spec fn view(&self) -> KindSelectorView {
        KindSelectorView { base: self.base, sub: self.sub@, specific: self.specific@ }
    }
}

impl KindSelectorView {
    /// The test that every kind passes.
    pub open spec fn any() -> KindSelectorView {
        KindSelectorView {
            base: KindBaseSelector::Any,
            sub: SubSelectorView::Any,
            specific: SpecificPatternView::Any,
        }
    }

    /// The test for one base kind.
    pub open spec fn of_base(base: BaseKind) -> KindSelectorView {
        KindSelectorView {
            base: KindBaseSelector::Exact(base),
            sub: SubSelectorView::Any,
            specific: SpecificPatternView::Any,
        }
    }

    pub open spec fn matches(self, kind: KindView) -> bool {
        &&& match self.base {
            KindBaseSelector::Any => true,
            KindBaseSelector::Exact(b) => b == kind.base,
        }
        &&& match self.sub {
            SubSelectorView::Any => true,
            SubSelectorView::Exact(o) => o == kind.sub,
        }
        &&& match self.specific {
            SpecificPatternView::Any => true,
            SpecificPatternView::Absent => kind.specific is None,
            SpecificPatternView::Pattern(p) => match kind.specific {
                Some(s) => p.matches(s),
                None => false,
            },
        }
    }
}

impl KindSelector {
    /// The test that every kind passes.
    pub fn any() -> (r: KindSelector)
        ensures
            r@ == KindSelectorView::any(),
    {
        KindSelector {
            base: KindBaseSelector::Any,
            sub: SubKindSelector::Any,
            specific: SpecificPattern::Any,
        }
    }

    /// The test for one base kind, whatever the sub kind and specific.
    pub fn from_base(base: BaseKind) -> (r: KindSelector)
        ensures
            r@ == KindSelectorView::of_base(base),
    {
        KindSelector {
            base: KindBaseSelector::Exact(base),
            sub: SubKindSelector::Any,
            specific: SpecificPattern::Any,
        }
    }

    pub fn matches(&self, kind: &Kind) -> (r: bool)
        ensures
            r == self@.matches(kind@),
    {
        let base_ok = match self.base {
            KindBaseSelector::Any => true,
            KindBaseSelector::Exact(b) => b == kind.base,
        };
        let sub_ok = match &self.sub {
            SubKindSelector::Any => true,
            SubKindSelector::Exact(o) => opt_equal(o, &kind.sub),
        };
        let specific_ok = match &self.specific {
            SpecificPattern::Any => true,
            SpecificPattern::Absent => kind.specific.is_none(),
            SpecificPattern::Pattern(p) => match &kind.specific {
                Some(s) => p.matches(s),
                None => false,
            },
        };
        base_ok && sub_ok && specific_ok
    }

    pub fn clone(&self) -> (r: KindSelector)
        ensures
            r@ == self@,
    {
        let sub = match &self.sub {
            SubKindSelector::Any => SubKindSelector::Any,
            SubKindSelector::Exact(o) => SubKindSelector::Exact(clone_opt(o)),
        };
        let specific = match &self.specific {
            SpecificPattern::Any => SpecificPattern::Any,
            SpecificPattern::Absent => SpecificPattern::Absent,
            SpecificPattern::Pattern(p) => SpecificPattern::Pattern(
                SpecificSelector {
                    provider: p.provider.clone(),
                    vendor: p.vendor.clone(),
                    product: p.product.clone(),
                    variant: p.variant.clone(),
                },
            ),
        };
        KindSelector { base: self.base, sub, specific }
    }
}

/// One step of a selector. An inclusive hop also accepts an address that
/// ends at it, though further hops follow.
#[derive(Debug, PartialEq, Eq, Hash)]
pub struct Hop {
    pub inclusive: bool,
    pub segment_selector: PointSegSelector,
    pub kind_selector: KindSelector,
}

pub struct HopView {
    pub inclusive: bool,
    pub segment: SegSelectorView,
    pub kind: KindSelectorView,
}

impl View for Hop {
    type V = HopView;

    open spec fn view(&self) -> HopView {
        HopView {
            inclusive: self.inclusive,
            segment: self.segment_selector@,
            kind: self.kind_selector@,
        }
    }
}

impl HopView {
    pub open spec fn matches(self, seg: SegView) -> bool {
        self.segment.matches(seg.segment) && self.kind.matches(seg.kind)
    }
}

impl Hop {
    /// The hop for the segment `segment`, of any kind.
    pub fn exact(segment: String) -> (r: Hop)
        ensures
            r@.inclusive == false,
            r@.segment == SegSelectorView::Exact(segment@),
            r@.kind == KindSelectorView::any(),
    {
        Hop {
            inclusive: false,
            segment_selector: PointSegSelector::Exact(segment),
            kind_selector: KindSelector::any(),
        }
    }

    /// The hop for any one segment, of any kind.
    pub fn any() -> (r: Hop)
        ensures
            r@.inclusive == false,
            r@.segment == SegSelectorView::Any,
            r@.kind == KindSelectorView::any(),
    {
        Hop {
            inclusive: false,
            segment_selector: PointSegSelector::Any,
            kind_selector: KindSelector::any(),
        }
    }

    /// The hop for one segment or more, of any kind.
    pub fn recursive() -> (r: Hop)
        ensures
            r@.inclusive == false,
            r@.segment == SegSelectorView::Recursive,
            r@.kind == KindSelectorView::any(),
    {
        Hop {
            inclusive: false,
            segment_selector: PointSegSelector::Recursive,
            kind_selector: KindSelector::any(),
        }
    }

    /// The same hop, inclusive.
    pub fn inclusive(self) -> (r: Hop)
        ensures
            r@ == (HopView { inclusive: true, ..self@ }),
    {
        Hop {
            inclusive: true,
            segment_selector: self.segment_selector,
            kind_selector: self.kind_selector,
        }
    }

    /// The same hop with a test on the base kind.
    pub fn of_base(self, base: BaseKind) -> (r: Hop)
        ensures
            r@ == (HopView { kind: KindSelectorView::of_base(base), ..self@ }),
    {
        Hop {
            inclusive: self.inclusive,
            segment_selector: self.segment_selector,
            kind_selector: KindSelector::from_base(base),
        }
    }

    pub fn matches(&self, seg: &PointKindSeg) -> (r: bool)
        ensures
            r == self@.matches(seg@),
    {
        self.segment_selector.matches(&seg.segment) && self.kind_selector.matches(&seg.kind)
    }

    pub fn clone(&self) -> (r: Hop)
        ensures
            r@ == self@,
    {
        Hop {
            inclusive: self.inclusive,
            segment_selector: self.segment_selector.clone(),
            kind_selector: self.kind_selector.clone(),
        }
    }
}

/// The views of a sequence of hops.
pub open spec fn hops_view(v: Seq<Hop>) -> Seq<HopView> {
    Seq::new(v.len(), |i: int| v[i]@)
}

/// The kind of the root particle, as a view.
pub open spec fn root_kind() -> KindView {
    KindView { base: BaseKind::Root, sub: None, specific: None }
}

/// Whether a sequence of hops accepts a sequence of segments.
///
/// No hops accept only the root. A hop that is not recursive tests the
/// first segment; the remaining hops test the remaining segments, and the
/// address may end at the hop where the hop is the last or is inclusive. A
/// recursive hop stands for one segment or more and tests the last of them.
/// A single inclusive hop that names no segment also accepts the root, where
/// its kind test accepts the root's kind.
pub open spec fn hops_match(hops: Seq<HopView>, segs: Seq<SegView>) -> bool
    decreases segs.len(),
{
    if hops.len() == 0 {
        segs.len() == 0
    } else if segs.len() == 0 {
        hops.len() == 1 && hops[0].inclusive && !(hops[0].segment is Exact)
            && hops[0].kind.matches(root_kind())
    } else {
        let here = hops[0].matches(segs[0]) && if segs.len() == 1 {
            hops.len() == 1 || hops[0].inclusive
        } else {
            hops_match(hops.drop_first(), segs.drop_first())
        };
        if hops[0].segment is Recursive {
            here || (segs.len() > 1 && hops_match(hops, segs.drop_first()))
        } else {
            here
        }
    }
}

/// A pattern over addresses.
#[derive(Debug, PartialEq, Eq, Hash)]
pub struct Selector {
    pub hops: Vec<Hop>,
}

pub struct SelectorView {
    pub hops: Seq<HopView>,
}

impl View for Selector {
    type V = SelectorView;

    open spec fn view(&self) -> SelectorView {
        SelectorView { hops: hops_view(self.hops@) }
    }
}

impl SelectorView {
    /// Whether the selector accepts the address that `h` describes.
    pub open spec fn matches(self, h: HierarchyView) -> bool {
        h.route == Route::Local && hops_match(self.hops, h.segments)
    }

    /// The number of leading hops that name their segment exactly and are
    /// not inclusive, among the first `limit` hops.
    pub open spec fn exact_prefix(self, limit: int) -> int
        decreases limit,
    {
        if limit <= 0 || limit > self.hops.len() {
            0
        } else {
            let before = self.exact_prefix(limit - 1);
            if before == limit - 1 && self.hops[limit - 1].segment is Exact
                && !self.hops[limit - 1].inclusive {
                limit
            } else {
                before
            }
        }
    }

    /// The number of segments of the address below which selection starts:
    /// the leading exact hops, the last hop never among them.
    pub open spec fn root_depth(self) -> int {
        self.exact_prefix(self.hops.len() - 1)
    }

    /// The address below which every accepted address lies, the root
    /// itself aside.
    pub open spec fn query_root(self) -> PointView {
        PointView {
            route: Route::Local,
            segments: Seq::new(
                self.root_depth() as nat,
                |i: int| self.hops[i].segment->Exact_0,
            ),
        }
    }
}

impl Clone for Selector {
    fn clone(&self) -> (r: Selector)
        ensures
            r@ == self@,
    {
        let mut hops: Vec<Hop> = Vec::new();
        let mut i: usize = 0;
        while i < self.hops.len()
            invariant
                i <= self.hops.len(),
                hops@.len() == i,
                forall|j: int| 0 <= j < i ==> hops@[j]@ == self.hops@[j]@,
            decreases self.hops.len() - i,
        {
            hops.push(self.hops[i].clone());
            i += 1;
        }
        assert(hops_view(hops@) =~= hops_view(self.hops@));
        Selector { hops }
    }
}

impl Selector {
    pub fn new(hops: Vec<Hop>) -> (r: Selector)
        ensures
            r@.hops == hops_view(hops@),
    {
        Selector { hops }
    }

    /// The selector that accepts the address `point` and nothing else.
    pub fn from_point(point: &Point) -> (r: Selector)
        ensures
            r@.hops.len() == point@.segments.len(),
            forall|i: int|
                0 <= i < r@.hops.len() ==> {
                    &&& (#[trigger] r@.hops[i]).inclusive == false
                    &&& r@.hops[i].segment == SegSelectorView::Exact(point@.segments[i])
                    &&& r@.hops[i].kind == KindSelectorView::any()
                },
    {
        let mut hops: Vec<Hop> = Vec::new();
        let mut i: usize = 0;
        while i < point.segments.len()
            invariant
                i <= point.segments.len(),
                hops@.len() == i,
                forall|j: int|
                    0 <= j < i ==> {
                        &&& (#[trigger] hops@[j]@).inclusive == false
                        &&& hops@[j]@.segment == SegSelectorView::Exact(point.segments@[j]@)
                        &&& hops@[j]@.kind == KindSelectorView::any()
                    },
            decreases point.segments.len() - i,
        {
            hops.push(Hop::exact(point.segments[i].clone()));
            i += 1;
        }
        Selector { hops }
    }

    /// Whether the selector accepts the root alone: it has no hops.
    pub fn is_root(&self) -> (r: bool)
        ensures
            r == (self@.hops.len() == 0),
    {
        self.hops.len() == 0
    }

    /// Whether the selector accepts the root.
    pub fn matches_root(&self) -> (r: bool)
        ensures
            r == hops_match(self@.hops, Seq::empty()),
    {
        if self.hops.len() == 0 {
            true
        } else if self.hops.len() == 1 {
            let hop = &self.hops[0];
            assert(self@.hops[0] == hop@);
            hop.inclusive && !hop.segment_selector.is_exact() && hop.kind_selector.matches(
                &Kind::root(),
            )
        } else {
            false
        }
    }

    /// Whether the hops from `hi` on accept the segments from `si` on.
    fn match_from(&self, h: &PointHierarchy, hi: usize, si: usize) -> (r: bool)
        requires
            hi <= self.hops.len(),
            si <= h.segments.len(),
        ensures
            r == hops_match(
                self@.hops.subrange(hi as int, self@.hops.len() as int),
                h@.segments.subrange(si as int, h@.segments.len() as int),
            ),
        decreases h.segments.len() - si,
    {
        let ghost hops = self@.hops.subrange(hi as int, self@.hops.len() as int);
        let ghost segs = h@.segments.subrange(si as int, h@.segments.len() as int);
        let hops_left = self.hops.len() - hi;
        let segs_left = h.segments.len() - si;
        if hops_left == 0 {
            return segs_left == 0;
        }
        let hop = &self.hops[hi];
        assert(hops[0] == hop@);
        if segs_left == 0 {
            return hops_left == 1 && hop.inclusive && !hop.segment_selector.is_exact()
                && hop.kind_selector.matches(&Kind::root());
        }
        let seg = &h.segments[si];
        assert(segs[0] == seg@);
        proof {
            assert(hops.drop_first() =~= self@.hops.subrange(
                hi as int + 1,
                self@.hops.len() as int,
            ));
            assert(segs.drop_first() =~= h@.segments.subrange(
                si as int + 1,
                h@.segments.len() as int,
            ));
        }
        let here = hop.matches(seg) && if segs_left == 1 {
            hops_left == 1 || hop.inclusive
        } else {
            self.match_from(h, hi + 1, si + 1)
        };
        if hop.segment_selector.is_recursive() {
            here || (segs_left > 1 && self.match_from(h, hi, si + 1))
        } else {
            here
        }
    }

    /// Whether the selector accepts the address that `h` describes.
    pub fn matches(&self, h: &PointHierarchy) -> (r: bool)
        ensures
            r == self@.matches(h@),
    {
        let local = match h.route {
            Route::Local => true,
            Route::Global => false,
        };
        if !local {
            return false;
        }
        proof {
            assert(self@.hops.subrange(0, self@.hops.len() as int) =~= self@.hops);
            assert(h@.segments.subrange(0, h@.segments.len() as int) =~= h@.segments);
        }
        self.match_from(h, 0, 0)
    }

    /// The number of segments of the query root.
    pub fn root_depth(&self) -> (r: usize)
        ensures
            r == self@.root_depth(),
            r <= self@.hops.len(),
            self@.hops.len() > 0 ==> r < self@.hops.len(),
            forall|i: int|
                0 <= i < r ==> (#[trigger] self@.hops[i]).segment is Exact
                    && !self@.hops[i].inclusive,
    {
        if self.hops.len() == 0 {
            return 0;
        }
        let limit = self.hops.len() - 1;
        let mut i: usize = 0;
        while i < limit
            invariant
                i <= limit,
                limit == self.hops.len() - 1,
                self@.exact_prefix(i as int) == i,
                forall|j: int|
                    0 <= j < i ==> (#[trigger] self@.hops[j]).segment is Exact
                        && !self@.hops[j].inclusive,
            decreases limit - i,
        {
            let hop = &self.hops[i];
            assert(self@.hops[i as int] == hop@);
            if !hop.segment_selector.is_exact() || hop.inclusive {
                proof {
                    lemma_exact_prefix_stops(self@, i as int, limit as int);
                }
                return i;
            }
            i += 1;
        }
        i
    }

    /// The address below which every accepted address lies, the root
    /// itself aside: the leading hops that name their segment exactly and
    /// are not inclusive, the last hop never among them.
    pub fn query_root(&self) -> (r: Point)
        ensures
            r@ == self@.query_root(),
    {
        let depth = self.root_depth();
        let mut segments: Vec<String> = Vec::new();
        let mut i: usize = 0;
        while i < depth
            invariant
                i <= depth,
                depth <= self.hops.len(),
                segments@.len() == i,
                forall|j: int|
                    0 <= j < depth ==> (#[trigger] self@.hops[j]).segment is Exact,
                forall|j: int|
                    0 <= j < i ==> segments@[j]@ == (#[trigger] self@.hops[j]).segment->Exact_0,
            decreases depth - i,
        {
            let hop = &self.hops[i];
            assert(self@.hops[i as int] == hop@);
            match &hop.segment_selector {
                PointSegSelector::Exact(s) => {
                    segments.push(s.clone());
                },
                _ => {
                    assert(false);
                },
            }
            i += 1;
        }
        let r = Point::new(segments);
        assert(r@.segments =~= self@.query_root().segments);
        r
    }
}

/// Once a hop is not exact or is inclusive, the exact prefix grows no
/// further.
pub proof fn lemma_exact_prefix_stops(s: SelectorView, i: int, limit: int)
    requires
        0 <= i < s.hops.len(),
        i <= limit <= s.hops.len(),
        s.exact_prefix(i) == i,
        !(s.hops[i].segment is Exact) || s.hops[i].inclusive,
    ensures
        s.exact_prefix(limit) == i,
    decreases limit - i,
{
    if limit > i {
        lemma_exact_prefix_stops(s, i, limit - 1);
    }
}

} // verus!
