//! The record that the registry keeps of a particle: what it is, who owns
//! it, how far along it is, where it lives, and its properties.

use vstd::prelude::*;
use crate::kind::{Kind, KindView, Status};
use crate::point::{Point, PointView};

verus! {

/// A property of a particle. A locked property is never overwritten or
/// removed.
#[derive(Debug, PartialEq, Eq, Hash)]
pub struct Property {
    pub key: String,
    pub value: String,
    pub locked: bool,
}

pub struct PropertyView {
    pub key: Seq<char>,
    pub value: Seq<char>,
    pub locked: bool,
}

impl View for Property {
    type V = PropertyView;

    open spec fn view(&self) -> PropertyView {
        PropertyView { key: self.key@, value: self.value@, locked: self.locked }
    }
}

impl Clone for Property {
    fn clone(&self) -> (r: Property)
        ensures
            r@ == self@,
    {
        Property { key: self.key.clone(), value: self.value.clone(), locked: self.locked }
    }
}

/// A change to the properties of a particle.
#[derive(Debug, PartialEq, Eq, Hash)]
pub enum PropertyMod {
    SetValue { key: String, value: String, lock: bool },
    UnSet(String),
}

pub enum PropertyModView {
    SetValue { key: Seq<char>, value: Seq<char>, lock: bool },
    UnSet(Seq<char>),
}

impl View for PropertyMod {
    type V = PropertyModView;

    open spec fn view(&self) -> PropertyModView {
        match self {
            PropertyMod::SetValue { key, value, lock } => PropertyModView::SetValue {
                key: key@,
                value: value@,
                lock: *lock,
            },
            PropertyMod::UnSet(key) => PropertyModView::UnSet(key@),
        }
    }
}

impl Clone for PropertyMod {
    fn clone(&self) -> (r: PropertyMod)
        ensures
            r@ == self@,
    {
        match self {
            PropertyMod::SetValue { key, value, lock } => PropertyMod::SetValue {
                key: key.clone(),
                value: value.clone(),
                lock: *lock,
            },
            PropertyMod::UnSet(key) => PropertyMod::UnSet(key.clone()),
        }
    }
}

/// The views of a sequence of properties.
pub open spec fn props_view(v: Seq<Property>) -> Seq<PropertyView> {
    Seq::new(v.len(), |i: int| v[i]@)
}

/// The views of a sequence of changes.
pub open spec fn mods_view(v: Seq<PropertyMod>) -> Seq<PropertyModView> {
    Seq::new(v.len(), |i: int| v[i]@)
}

/// No key occurs twice.
pub open spec fn keys_unique(props: Seq<PropertyView>) -> bool {
    forall|i: int, j: int|
        0 <= i < props.len() && 0 <= j < props.len() && i != j ==> props[i].key != props[j].key
}

/// Whether some property has the key.
pub open spec fn has_key(props: Seq<PropertyView>, key: Seq<char>) -> bool {
    exists|i: int| 0 <= i < props.len() && props[i].key == key
}

/// The place of the property with the key.
pub open spec fn key_index(props: Seq<PropertyView>, key: Seq<char>) -> int {
    choose|i: int| 0 <= i < props.len() && props[i].key == key
}

/// The properties after one change. Setting a key that is absent adds it
/// with the given lock; setting one that is present and unlocked replaces
/// its value; removing one that is present and unlocked removes it; a
/// locked property stays as it is.
pub open spec fn apply_mod(props: Seq<PropertyView>, m: PropertyModView) -> Seq<PropertyView> {
    match m {
        PropertyModView::SetValue { key, value, lock } => {
            if has_key(props, key) {
                let i = key_index(props, key);
                if props[i].locked {
                    props
                } else {
                    props.update(i, PropertyView { key, value, locked: false })
                }
            } else {
                props.push(PropertyView { key, value, locked: lock })
            }
        },
        PropertyModView::UnSet(key) => {
            if has_key(props, key) {
                let i = key_index(props, key);
                if props[i].locked {
                    props
                } else {
                    props.remove(i)
                }
            } else {
                props
            }
        },
    }
}

/// The properties after a sequence of changes, made in order.
pub open spec fn apply_mods(props: Seq<PropertyView>, mods: Seq<PropertyModView>) -> Seq<
    PropertyView,
>
    decreases mods.len(),
{
    if mods.len() == 0 {
        props
    } else {
        apply_mod(apply_mods(props, mods.drop_last()), mods.last())
    }
}

/// One change keeps the keys unique.
pub proof fn lemma_apply_mod_unique(props: Seq<PropertyView>, m: PropertyModView)
    requires
        keys_unique(props),
    ensures
        keys_unique(apply_mod(props, m)),
{
    let after = apply_mod(props, m);
    match m {
        PropertyModView::SetValue { key, value, lock } => {
            if has_key(props, key) {
                let i = key_index(props, key);
                assert(props[i].key == key);
            } else {
                assert forall|i: int, j: int|
                    0 <= i < after.len() && 0 <= j < after.len() && i != j implies after[i].key
                    != after[j].key by {
                    if i == props.len() {
                        assert(props[j].key != key);
                    } else if j == props.len() {
                        assert(props[i].key != key);
                    }
                }
            }
        },
        PropertyModView::UnSet(key) => {
            if has_key(props, key) {
                let k = key_index(props, key);
                if !props[k].locked {
                    assert forall|i: int, j: int|
                        0 <= i < after.len() && 0 <= j < after.len() && i != j implies after[i].key
                        != after[j].key by {
                        let i2 = if i < k { i } else { i + 1 };
                        let j2 = if j < k { j } else { j + 1 };
                        assert(after[i] == props[i2]);
                        assert(after[j] == props[j2]);
                    }
                }
            }
        },
    }
}

/// The place of the property with the key, if there is one.
pub fn find_key(props: &Vec<Property>, key: &String) -> (r: Option<usize>)
    requires
        keys_unique(props_view(props@)),
    ensures
        r is Some <==> has_key(props_view(props@), key@),
        r matches Some(i) ==> i < props.len() && i == key_index(props_view(props@), key@),
{
    let ghost views = props_view(props@);
    let mut i: usize = 0;
    while i < props.len()
        invariant
            i <= props.len(),
            views == props_view(props@),
            keys_unique(views),
            forall|j: int| 0 <= j < i ==> views[j].key != key@,
        decreases props.len() - i,
    {
        if props[i].key == *key {
            proof {
                assert(views[i as int].key == key@);
                assert(has_key(views, key@));
                let k = key_index(views, key@);
                assert(views[k].key == key@);
                if k != i {
                    assert(views[k].key != views[i as int].key);
                }
            }
            return Some(i);
        }
        i += 1;
    }
    None
}

/// Makes one change to the properties.
pub fn apply_property_mod(props: &mut Vec<Property>, m: &PropertyMod)
    requires
        keys_unique(props_view(old(props)@)),
    ensures
        props_view(final(props)@) == apply_mod(props_view(old(props)@), m@),
        keys_unique(props_view(final(props)@)),
{
    let ghost before = props_view(props@);
    proof {
        lemma_apply_mod_unique(before, m@);
    }
    match m {
        PropertyMod::SetValue { key, value, lock } => {
            match find_key(props, key) {
                Some(i) => {
                    if !props[i].locked {
                        props[i] = Property {
                            key: key.clone(),
                            value: value.clone(),
                            locked: false,
                        };
                        assert(props_view(props@) =~= before.update(
                            i as int,
                            PropertyView { key: key@, value: value@, locked: false },
                        ));
                    }
                },
                None => {
                    props.push(Property { key: key.clone(), value: value.clone(), locked: *lock });
                    assert(props_view(props@) =~= before.push(
                        PropertyView { key: key@, value: value@, locked: *lock },
                    ));
                },
            }
        },
        PropertyMod::UnSet(key) => {
            match find_key(props, key) {
                Some(i) => {
                    if !props[i].locked {
                        props.remove(i);
                        assert(props_view(props@) =~= before.remove(i as int));
                    }
                },
                None => {},
            }
        },
    }
}

/// Makes a sequence of changes to the properties, in order.
pub fn apply_property_mods(props: &mut Vec<Property>, mods: &Vec<PropertyMod>)
    requires
        keys_unique(props_view(old(props)@)),
    ensures
        props_view(final(props)@) == apply_mods(props_view(old(props)@), mods_view(mods@)),
        keys_unique(props_view(final(props)@)),
{
    let ghost start = props_view(props@);
    let ghost all = mods_view(mods@);
    let mut i: usize = 0;
    while i < mods.len()
        invariant
            i <= mods.len(),
            all == mods_view(mods@),
            keys_unique(props_view(props@)),
            props_view(props@) == apply_mods(start, all.subrange(0, i as int)),
        decreases mods.len() - i,
    {
        proof {
            let next = all.subrange(0, i as int + 1);
            assert(next.drop_last() =~= all.subrange(0, i as int));
            assert(next.last() == mods@[i as int]@);
        }
        apply_property_mod(props, &mods[i]);
        i += 1;
    }
    assert(all.subrange(0, mods.len() as int) =~= all);
}

/// Copies a list of properties.
pub fn clone_props(v: &Vec<Property>) -> (r: Vec<Property>)
    ensures
        props_view(r@) == props_view(v@),
{
    let mut r: Vec<Property> = Vec::new();
    let mut i: usize = 0;
    while i < v.len()
        invariant
            i <= v.len(),
            r@.len() == i,
            forall|j: int| 0 <= j < i ==> r@[j]@ == v@[j]@,
        decreases v.len() - i,
    {
        r.push(v[i].clone());
        i += 1;
    }
    assert(props_view(r@) =~= props_view(v@));
    r
}

/// The view of an optional address.
pub open spec fn opt_point_view(o: Option<Point>) -> Option<PointView> {
    match o {
        Some(p) => Some(p@),
        None => None,
    }
}

/// Copies an optional address.
pub fn clone_opt_point(o: &Option<Point>) -> (r: Option<Point>)
    ensures
        opt_point_view(r) == opt_point_view(*o),
{
    match o {
        Some(p) => Some(p.clone()),
        None => None,
    }
}

/// Where a particle lives: the star that owns it, once it is provisioned,
/// and the host that runs it, if any.
#[derive(Debug, PartialEq, Eq, Hash)]
pub struct ParticleLocation {
    pub star: Option<Point>,
    pub host: Option<Point>,
}

pub struct LocationView {
    pub star: Option<PointView>,
    pub host: Option<PointView>,
}

impl View for ParticleLocation {
    type V = LocationView;

    open spec fn view(&self) -> LocationView {
        LocationView { star: opt_point_view(self.star), host: opt_point_view(self.host) }
    }
}

impl Clone for ParticleLocation {
    fn clone(&self) -> (r: ParticleLocation)
        ensures
            r@ == self@,
    {
        ParticleLocation { star: clone_opt_point(&self.star), host: clone_opt_point(&self.host) }
    }
}

impl ParticleLocation {
    pub fn new(star: Option<Point>, host: Option<Point>) -> (r: ParticleLocation)
        ensures
            r@ == (LocationView { star: opt_point_view(star), host: opt_point_view(host) }),
    {
        ParticleLocation { star, host }
    }

    /// Whether the particle has been assigned to a star.
    pub fn is_provisioned(&self) -> (r: bool)
        ensures
            r == (self@.star is Some),
    {
        self.star.is_some()
    }
}

/// The short description of a particle.
#[derive(Debug, PartialEq, Eq, Hash)]
pub struct Stub {
    pub point: Point,
    pub kind: Kind,
    pub status: Status,
}

pub struct StubView {
    pub point: PointView,
    pub kind: KindView,
    pub status: Status,
}

impl View for Stub {
    type V = StubView;

    open spec fn view(&self) -> StubView {
        StubView { point: self.point@, kind: self.kind@, status: self.status }
    }
}

impl Clone for ParticleRecord {
    fn clone(&self) -> (r: ParticleRecord)
        ensures
            r@ == self@,
    {
        ParticleRecord {
            details: Details {
                stub: self.details.stub.clone(),
                properties: clone_props(&self.details.properties),
            },
            location: self.location.clone(),
        }
    }
}

impl Clone for Stub {
    fn clone(&self) -> (r: Stub)
        ensures
            r@ == self@,
    {
        Stub { point: self.point.clone(), kind: self.kind.clone(), status: self.status }
    }
}

/// The views of a sequence of stubs.
pub open spec fn stubs_view(v: Seq<Stub>) -> Seq<StubView> {
    Seq::new(v.len(), |i: int| v[i]@)
}

/// A stub with the properties of the particle.
#[derive(Debug, PartialEq, Eq, Hash)]
pub struct Details {
    pub stub: Stub,
    pub properties: Vec<Property>,
}

/// The full record of a particle.
#[derive(Debug, PartialEq, Eq, Hash)]
pub struct ParticleRecord {
    pub details: Details,
    pub location: ParticleLocation,
}

pub struct RecordView {
    pub stub: StubView,
    pub properties: Seq<PropertyView>,
    pub location: LocationView,
}

impl View for ParticleRecord {
    type V = RecordView;

    open spec fn view(&self) -> RecordView {
        RecordView {
            stub: self.details.stub@,
            properties: props_view(self.details.properties@),
            location: self.location@,
        }
    }
}

impl RecordView {
    /// The record of the root where none was registered: ready, with no
    /// properties, and located at the central star.
    pub open spec fn root() -> RecordView {
        RecordView {
            stub: StubView {
                point: PointView { route: crate::point::Route::Local, segments: Seq::empty() },
                kind: crate::selector::root_kind(),
                status: Status::Ready,
            },
            properties: Seq::empty(),
            location: LocationView {
                star: Some(
                    (crate::star::StarKeyView { subgraph: Seq::empty(), index: 0 }).to_point(),
                ),
                host: None,
            },
        }
    }
}

impl ParticleRecord {
    /// The record of the root where none was registered.
    pub fn root() -> (r: ParticleRecord)
        ensures
            r@ == RecordView::root(),
    {
        let r = ParticleRecord {
            details: Details {
                stub: Stub { point: Point::root(), kind: Kind::root(), status: Status::Ready },
                properties: Vec::new(),
            },
            location: ParticleLocation {
                star: Some(crate::star::StarKey::central().to_point()),
                host: None,
            },
        };
        assert(r@.properties =~= Seq::<PropertyView>::empty());
        assert(r@.stub.point.segments =~= Seq::<Seq<char>>::empty());
        r
    }
}

} // verus!
