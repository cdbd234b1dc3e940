//! The roles of the stars of a constellation, the commands that their
//! managers take, and the frames that wait for a path.

use vstd::prelude::*;
use vstd::string::StringExecFns;
use crate::error::Error;
use crate::frame::Frame;
use crate::search::{keys_view, StarSearch, StarSearchResult};
use crate::star::{StarKey, StarKeyView};

verus! {

/// The name of a kind of server star.
#[derive(Debug, PartialEq, Eq, Hash)]
pub struct ServerKindExt {
    pub name: String,
}

impl ServerKindExt {
    pub fn new(name: String) -> (r: ServerKindExt)
        ensures
            r.name@ == name@,
    {
        ServerKindExt { name }
    }
}

/// The name of a kind of store star.
#[derive(Debug, PartialEq, Eq, Hash)]
pub struct StoreKindExt {
    pub name: String,
}

impl StoreKindExt {
    pub fn new(name: String) -> (r: StoreKindExt)
        ensures
            r.name@ == name@,
    {
        StoreKindExt { name }
    }
}

/// The role of a star in a constellation.
#[derive(Debug, PartialEq, Eq, Hash)]
pub enum StarKind {
    Central,
    Mesh,
    Supervisor,
    Server(ServerKindExt),
    Store(StoreKindExt),
    Gateway,
    Link,
    Client,
}

pub enum StarKindView {
    Central,
    Mesh,
    Supervisor,
    Server(Seq<char>),
    Store(Seq<char>),
    Gateway,
    Link,
    Client,
}

impl View for StarKind {
    type V = StarKindView;

    open spec fn view(&self) -> StarKindView {
        match self {
            StarKind::Central => StarKindView::Central,
            StarKind::Mesh => StarKindView::Mesh,
            StarKind::Supervisor => StarKindView::Supervisor,
            StarKind::Server(ext) => StarKindView::Server(ext.name@),
            StarKind::Store(ext) => StarKindView::Store(ext.name@),
            StarKind::Gateway => StarKindView::Gateway,
            StarKind::Link => StarKindView::Link,
            StarKind::Client => StarKindView::Client,
        }
    }
}

impl StarKindView {
    /// Whether stars of the role pass on what is not for them: all but the
    /// central star, the supervisors and the stores.
    pub open spec fn relay(self) -> bool {
        !(self is Central || self is Supervisor || self is Store)
    }

    /// The text of the role.
    pub open spec fn text(self) -> Seq<char> {
        match self {
            StarKindView::Central => "Central"@,
            StarKindView::Mesh => "Mesh"@,
            StarKindView::Supervisor => "Supervisor"@,
            StarKindView::Server(name) => "Server("@ + name + ")"@,
            StarKindView::Store(name) => "Store("@ + name + ")"@,
            StarKindView::Gateway => "Gateway"@,
            StarKindView::Link => "Link"@,
            StarKindView::Client => "Client"@,
        }
    }
}

impl Clone for StarKind {
    fn clone(&self) -> (r: StarKind)
        ensures
            r@ == self@,
    {
        match self {
            StarKind::Central => StarKind::Central,
            StarKind::Mesh => StarKind::Mesh,
            StarKind::Supervisor => StarKind::Supervisor,
            StarKind::Server(ext) => StarKind::Server(ServerKindExt { name: ext.name.clone() }),
            StarKind::Store(ext) => StarKind::Store(StoreKindExt { name: ext.name.clone() }),
            StarKind::Gateway => StarKind::Gateway,
            StarKind::Link => StarKind::Link,
            StarKind::Client => StarKind::Client,
        }
    }
}

impl StarKind {
    pub fn is_central(&self) -> (r: bool)
        ensures
            r == (self@ is Central),
    {
        match self {
            StarKind::Central => true,
            _ => false,
        }
    }

    pub fn is_supervisor(&self) -> (r: bool)
        ensures
            r == (self@ is Supervisor),
    {
        match self {
            StarKind::Supervisor => true,
            _ => false,
        }
    }

    pub fn is_client(&self) -> (r: bool)
        ensures
            r == (self@ is Client),
    {
        match self {
            StarKind::Client => true,
            _ => false,
        }
    }

    /// Succeeds for the central star alone.
    pub fn central_result(&self) -> (r: Result<(), Error>)
        ensures
            r is Ok <==> self@ is Central,
            r matches Err(e) ==> e@ == "not central"@,
    {
        match self {
            StarKind::Central => Ok(()),
            _ => Err(Error::new("not central")),
        }
    }

    /// Succeeds for a supervisor alone.
    pub fn supervisor_result(&self) -> (r: Result<(), Error>)
        ensures
            r is Ok <==> self@ is Supervisor,
            r matches Err(e) ==> e@ == "not supervisor"@,
    {
        match self {
            StarKind::Supervisor => Ok(()),
            _ => Err(Error::new("not supervisor")),
        }
    }

    /// Succeeds for a server alone.
    pub fn server_result(&self) -> (r: Result<(), Error>)
        ensures
            r is Ok <==> self@ is Server,
            r matches Err(e) ==> e@ == "not server"@,
    {
        match self {
            StarKind::Server(_) => Ok(()),
            _ => Err(Error::new("not server")),
        }
    }

    /// Succeeds for a client alone.
    pub fn client_result(&self) -> (r: Result<(), Error>)
        ensures
            r is Ok <==> self@ is Client,
            r matches Err(e) ==> e@ == "not client"@,
    {
        match self {
            StarKind::Client => Ok(()),
            _ => Err(Error::new("not client")),
        }
    }

    /// Whether stars of the role pass on what is not for them.
    pub fn relay(&self) -> (r: bool)
        ensures
            r == self@.relay(),
    {
        match self {
            StarKind::Central => false,
            StarKind::Mesh => true,
            StarKind::Supervisor => false,
            StarKind::Server(_) => true,
            StarKind::Gateway => true,
            StarKind::Client => true,
            StarKind::Link => true,
            StarKind::Store(_) => false,
        }
    }

    /// The text of the role, such as `Mesh` or `Server(name)`.
    pub fn to_string(&self) -> (r: String)
        ensures
            r@ == self@.text(),
    {
        match self {
            StarKind::Central => String::from_str("Central"),
            StarKind::Mesh => String::from_str("Mesh"),
            StarKind::Supervisor => String::from_str("Supervisor"),
            StarKind::Server(ext) => crate::text::concat3("Server(", ext.name.as_str(), ")"),
            StarKind::Store(ext) => crate::text::concat3("Store(", ext.name.as_str(), ")"),
            StarKind::Gateway => String::from_str("Gateway"),
            StarKind::Link => String::from_str("Link"),
            StarKind::Client => String::from_str("Client"),
        }
    }
}

/// A number that is unique within a sequence of numbers.
#[derive(Clone, Copy, Debug, PartialEq, Eq, Structural, Hash)]
pub struct Id {
    pub sequence: i64,
    pub index: i64,
}

/// The key of an application.
#[derive(Clone, Copy, Debug, PartialEq, Eq, Structural, Hash)]
pub struct AppKey {
    pub id: Id,
}

/// What a star is: its key and its role.
#[derive(Debug, PartialEq, Eq, Hash)]
pub struct StarInfo {
    pub star_key: StarKey,
    pub kind: StarKind,
}

impl Clone for StarInfo {
    fn clone(&self) -> (r: StarInfo)
        ensures
            r.star_key@ == self.star_key@,
            r.kind@ == self.kind@,
    {
        StarInfo { star_key: self.star_key.clone(), kind: self.kind.clone() }
    }
}

/// What the parts of a star share.
#[derive(Debug, PartialEq, Eq, Hash)]
pub struct StarSkel {
    pub info: StarInfo,
}

/// A kernel that runs in a star.
pub trait StarKernel {
}

/// A command to the actors of a star.
#[derive(Debug)]
pub enum ActorCommand {
    Create(ActorCreate),
}

/// A request to create an actor.
#[derive(Debug)]
pub struct ActorCreate {
    pub app: AppKey,
    pub kind: crate::actor::ActorKind,
    pub data: Vec<u8>,
}

impl ActorCreate {
    pub fn new(app: AppKey, kind: crate::actor::ActorKind, data: Vec<u8>) -> (r: ActorCreate)
        ensures
            r.app == app,
            r.kind@ == kind@,
            r.data@ == data@,
    {
        ActorCreate { app, kind, data }
    }
}

/// A frame to pass on to a star.
#[derive(Debug)]
pub struct ForwardFrame {
    pub to: StarKey,
    pub frame: Frame,
}

/// A command to the manager of a server.
#[derive(Clone, Copy, Debug, PartialEq, Eq, Structural, Hash)]
pub enum ServerCommand {
    PledgeToSupervisor,
}

/// A command to the manager of the central star.
#[derive(Clone, Copy, Debug, PartialEq, Eq, Structural, Hash)]
pub enum CentralCommand {
    /// Nothing is asked.
    Idle,
}

/// A command to the manager of a star.
#[derive(Debug)]
pub enum StarManagerCommand {
    Init,
    Frame(Frame),
    ServerCommand(ServerCommand),
    ActorCommand(ActorCommand),
}

/// A frame that was not answered in time.
#[derive(Debug)]
pub struct FrameTimeoutInner {
    pub frame: Frame,
    pub retries: usize,
}

/// A frame that failed.
#[derive(Debug)]
pub struct FrameErrorInner {
    pub frame: Frame,
    pub message: String,
}

/// A probe of a star.
#[derive(Debug)]
pub enum StarTest {
    StarSearchForStarKey(StarKey),
}

/// A star that was found through a lane.
#[derive(Debug)]
pub struct LaneHit {
    pub lane: StarKey,
    pub star: StarKey,
    pub hops: usize,
}

/// What a star logs of its searches.
#[derive(Debug)]
pub enum StarLog {
    StarSearchInitialized(StarSearch),
    StarSearchResult(StarSearchResult),
}

/// The next lane on the shortest path to a star.
#[derive(Debug)]
pub struct ShortestPathStarKey {
    pub to: StarKey,
    pub next_lane: StarKey,
    pub hops: usize,
}

/// The name of a star within a constellation.
#[derive(Debug, PartialEq, Eq, Hash)]
pub struct StarName {
    pub constellation: String,
    pub star: String,
}

/// The notice that a star has done what a transaction asked of it.
#[derive(Debug, PartialEq, Eq, Hash)]
pub struct StarNotify {
    pub star: StarKey,
    pub transaction: Id,
}

impl StarNotify {
    pub fn new(star: StarKey, transaction: Id) -> (r: StarNotify)
        ensures
            r.star@ == star@,
            r.transaction == transaction,
    {
        StarNotify { star, transaction }
    }
}

/// The frames that wait for a path to a star.
#[derive(Debug)]
pub struct Held {
    pub star: StarKey,
    pub frames: Vec<Frame>,
}

/// The views of a sequence of frames.
pub open spec fn frames_view(v: Seq<Frame>) -> Seq<Seq<u8>> {
    Seq::new(v.len(), |i: int| v[i]@)
}

/// The frames that wait until a path to their star is known.
#[derive(Debug)]
pub struct FrameHold {
    hold: Vec<Held>,
}

impl FrameHold {
    /// The number of stars for which frames wait.
    pub closed spec fn len(&self) -> nat {
        self.hold@.len()
    }

    /// The star of the entry at a place.
    pub closed spec fn star_at(&self, i: int) -> StarKeyView {
        self.hold@[i].star@
    }

    /// The frames of the entry at a place, in the order in which they
    /// came.
    pub closed spec fn frames_at(&self, i: int) -> Seq<Seq<u8>> {
        frames_view(self.hold@[i].frames@)
    }

    /// Whether frames wait for the star.
    pub open spec fn holds(&self, star: StarKeyView) -> bool {
        exists|i: int| 0 <= i < self.len() && #[trigger] self.star_at(i) == star
    }

    /// The place of the entry of the star.
    pub open spec fn place(&self, star: StarKeyView) -> int {
        choose|i: int| 0 <= i < self.len() && #[trigger] self.star_at(i) == star
    }

    /// The frames that wait for the star; none where none wait.
    pub open spec fn held(&self, star: StarKeyView) -> Seq<Seq<u8>> {
        if self.holds(star) {
            self.frames_at(self.place(star))
        } else {
            Seq::empty()
        }
    }

    /// No star has two entries.
    pub open spec fn wf(&self) -> bool {
        forall|i: int, j: int|
            0 <= i < self.len() && 0 <= j < self.len() && i != j ==> #[trigger] self.star_at(i)
                != #[trigger] self.star_at(j)
    }

    /// A hold without frames.
    pub fn new() -> (r: FrameHold)
        ensures
            r.wf(),
            r.len() == 0,
    {
        FrameHold { hold: Vec::new() }
    }

    /// The place of the entry of the star, if frames wait for it.
    fn find(&self, star: &StarKey) -> (r: Option<usize>)
        requires
            self.wf(),
        ensures
            r is Some <==> self.holds(star@),
            r matches Some(i) ==> i < self.len() && self.star_at(i as int) == star@ && i
                == self.place(star@),
    {
        let mut i: usize = 0;
        while i < self.hold.len()
            invariant
                i <= self.hold.len(),
                self.wf(),
                forall|j: int| 0 <= j < i ==> #[trigger] self.star_at(j) != star@,
            decreases self.hold.len() - i,
        {
            if self.hold[i].star == *star {
                proof {
                    assert(self.star_at(i as int) == star@);
                    let k = self.place(star@);
                    assert(self.star_at(k) == star@);
                }
                return Some(i);
            }
            i += 1;
        }
        None
    }

    /// Makes a frame wait for a star, behind the frames that wait for it
    /// already.
    pub fn add(&mut self, star: &StarKey, frame: Frame)
        requires
            old(self).wf(),
        ensures
            final(self).wf(),
            final(self).held(star@) == old(self).held(star@).push(frame@),
            final(self).holds(star@),
            forall|other: StarKeyView|
                other != star@ ==> final(self).held(other) == old(self).held(other)
                    && final(self).holds(other) == old(self).holds(other),
    {
        let ghost before = *self;
        match self.find(star) {
            Some(i) => {
                let ghost frames_before = frames_view(self.hold@[i as int].frames@);
                let mut entry = Held { star: star.clone(), frames: Vec::new() };
                std::mem::swap(&mut entry, &mut self.hold[i]);
                entry.frames.push(frame);
                assert(frames_view(entry.frames@) =~= frames_before.push(frame@));
                std::mem::swap(&mut entry, &mut self.hold[i]);
                proof {
                    assert(self.len() == before.len());
                    assert forall|k: int| 0 <= k < self.len() implies #[trigger] self.star_at(k)
                        == before.star_at(k) by {}
                    assert forall|k: int| 0 <= k < self.len() && k != i implies self.frames_at(k)
                        == before.frames_at(k) by {}
                    assert(self.star_at(i as int) == star@);
                    assert forall|other: StarKeyView|
                        self.holds(other) == before.holds(other) by {
                        if self.holds(other) {
                            let k = self.place(other);
                            assert(before.star_at(k) == other);
                        }
                        if before.holds(other) {
                            let k = before.place(other);
                            assert(self.star_at(k) == other);
                        }
                    }
                    assert forall|other: StarKeyView| other != star@ implies self.held(other)
                        == before.held(other) by {
                        if self.holds(other) {
                            let k = self.place(other);
                            assert(self.star_at(k) == other);
                            assert(before.star_at(k) == other);
                            let k2 = before.place(other);
                            assert(before.star_at(k2) == other);
                            assert(k == k2);
                        }
                    }
                    let k = self.place(star@);
                    assert(self.star_at(k) == star@);
                    assert(k == i);
                }
            },
            None => {
                let mut frames: Vec<Frame> = Vec::new();
                frames.push(frame);
                assert(frames_view(frames@) =~= Seq::<Seq<u8>>::empty().push(frame@));
                self.hold.push(Held { star: star.clone(), frames });
                proof {
                    let n = before.len() as int;
                    assert(self.star_at(n) == star@);
                    assert forall|k: int| 0 <= k < n implies #[trigger] self.star_at(k)
                        == before.star_at(k) && self.frames_at(k) == before.frames_at(k) by {}
                    assert forall|other: StarKeyView| other != star@ implies self.holds(other)
                        == before.holds(other) && self.held(other) == before.held(other) by {
                        if self.holds(other) {
                            let k = self.place(other);
                            assert(self.star_at(k) == other);
                            assert(before.star_at(k) == other);
                            let k2 = before.place(other);
                            assert(before.star_at(k2) == other);
                            assert(self.star_at(k2) == other);
                        }
                        if before.holds(other) {
                            let k = before.place(other);
                            assert(self.star_at(k) == other);
                        }
                    }
                    let k = self.place(star@);
                    assert(self.star_at(k) == star@);
                    assert(k == n);
                }
            },
        }
    }

    /// Takes out the frames that wait for a star, in the order in which
    /// they came. `None` where none wait.
    pub fn release(&mut self, star: &StarKey) -> (r: Option<Vec<Frame>>)
        requires
            old(self).wf(),
        ensures
            final(self).wf(),
            r is Some <==> old(self).holds(star@),
            r matches Some(frames) ==> frames_view(frames@) == old(self).held(star@),
            !final(self).holds(star@),
            forall|other: StarKeyView|
                other != star@ ==> final(self).held(other) == old(self).held(other)
                    && final(self).holds(other) == old(self).holds(other),
    {
        let ghost before = *self;
        match self.find(star) {
            Some(i) => {
                let entry = self.hold.remove(i);
                proof {
                    assert forall|k: int| 0 <= k < self.len() implies #[trigger] self.star_at(k)
                        == before.star_at(if k < i {
                        k
                    } else {
                        k + 1
                    }) && self.frames_at(k) == before.frames_at(if k < i {
                        k
                    } else {
                        k + 1
                    }) by {}
                    assert forall|a: int, b: int|
                        0 <= a < self.len() && 0 <= b < self.len() && a != b implies #[trigger] self.star_at(
                        a,
                    ) != #[trigger] self.star_at(b) by {
                        let a2 = if a < i { a } else { a + 1 };
                        let b2 = if b < i { b } else { b + 1 };
                        assert(before.star_at(a2) != before.star_at(b2));
                    }
                    if self.holds(star@) {
                        let k = self.place(star@);
                        let k2 = if k < i { k } else { k + 1 };
                        assert(self.star_at(k) == before.star_at(k2));
                        assert(before.star_at(k2) != before.star_at(i as int));
                    }
                    assert forall|other: StarKeyView| other != star@ implies self.holds(other)
                        == before.holds(other) && self.held(other) == before.held(other) by {
                        if self.holds(other) {
                            let k = self.place(other);
                            let k2 = if k < i { k } else { k + 1 };
                            assert(self.star_at(k) == before.star_at(k2));
                            let k3 = before.place(other);
                            assert(before.star_at(k3) == other);
                            assert(k3 == k2);
                        }
                        if before.holds(other) {
                            let k = before.place(other);
                            assert(before.star_at(k) == other);
                            let k2 = if k < i { k } else { k - 1 };
                            assert(self.star_at(k2) == other);
                        }
                    }
                }
                Some(entry.frames)
            },
            None => None,
        }
    }

    /// Whether frames wait for the star.
    pub fn has_hold(&self, star: &StarKey) -> (r: bool)
        requires
            self.wf(),
        ensures
            r == self.holds(star@),
    {
        self.find(star).is_some()
    }
}

/// What the manager of a supervisor keeps.
pub trait SupervisorManagerBacking {
    fn add_server(&mut self, server: StarKey);

    fn remove_server(&mut self, server: &StarKey);

    fn select_server(&mut self) -> Option<StarKey>;
}

/// What the manager of a server keeps: the supervisor of the server, once
/// it has one.
#[derive(Debug)]
pub struct ServerManagerBackingDefault {
    pub supervisor: Option<StarKey>,
}

impl ServerManagerBackingDefault {
    pub fn new() -> (r: ServerManagerBackingDefault)
        ensures
            r.supervisor is None,
    {
        ServerManagerBackingDefault { supervisor: None }
    }

    pub fn set_supervisor(&mut self, supervisor_star: StarKey)
        ensures
            final(self).supervisor == Some(supervisor_star),
    {
        self.supervisor = Some(supervisor_star);
    }

    pub fn get_supervisor(&self) -> (r: Option<&StarKey>)
        ensures
            r matches Some(k) ==> self.supervisor == Some(*k),
            r is None <==> self.supervisor is None,
    {
        self.supervisor.as_ref()
    }
}

/// Makes the manager that fits the role of a star.
#[derive(Debug)]
pub struct StarManagerFactoryDefault {
}

/// The managers that a star can have.
#[derive(Clone, Copy, Debug, PartialEq, Eq, Structural, Hash)]
pub enum ManagerKind {
    Central,
    Supervisor,
    Server,
    Placeholder,
}

impl StarManagerFactoryDefault {
    /// The manager for a star of the role: the central star, supervisors
    /// and servers have managers of their own, every other star a
    /// placeholder.
    pub fn manager_for(&self, kind: &StarKind) -> (r: ManagerKind)
        ensures
            r == (match kind@ {
                StarKindView::Central => ManagerKind::Central,
                StarKindView::Supervisor => ManagerKind::Supervisor,
                StarKindView::Server(_) => ManagerKind::Server,
                _ => ManagerKind::Placeholder,
            }),
    {
        match kind {
            StarKind::Central => ManagerKind::Central,
            StarKind::Supervisor => ManagerKind::Supervisor,
            StarKind::Server(_) => ManagerKind::Server,
            _ => ManagerKind::Placeholder,
        }
    }
}

/// What the variant of a server keeps.
#[derive(Debug)]
pub struct ServerVariantBackingDefault {
    pub supervisor: Option<StarKey>,
}

impl ServerVariantBackingDefault {
    pub fn new() -> (r: ServerVariantBackingDefault)
        ensures
            r.supervisor is None,
    {
        ServerVariantBackingDefault { supervisor: None }
    }
}

/// The variant of a star that is a server.
#[derive(Debug)]
pub struct ServerStarVariant {
    pub skel: StarSkel,
    pub backing: ServerVariantBackingDefault,
}

impl ServerStarVariant {
    pub fn new(data: StarSkel) -> (r: ServerStarVariant)
        ensures
            r.skel == data,
            r.backing.supervisor is None,
    {
        ServerStarVariant { skel: data, backing: ServerVariantBackingDefault::new() }
    }

    pub fn set_supervisor(&mut self, supervisor_star: StarKey)
        ensures
            final(self).skel == old(self).skel,
            final(self).backing.supervisor == Some(supervisor_star),
    {
        self.backing.supervisor = Some(supervisor_star);
    }

    pub fn get_supervisor(&self) -> (r: Option<&StarKey>)
        ensures
            r matches Some(k) ==> self.backing.supervisor == Some(*k),
            r is None <==> self.backing.supervisor is None,
    {
        self.backing.supervisor.as_ref()
    }
}

/// How far the central star has come.
#[derive(Clone, Copy, Debug, PartialEq, Eq, Structural, Hash)]
pub enum CentralStatus {
    Launching,
    CreatingSystemApp,
    Ready,
}

/// How far the start of the central star has come.
#[derive(Clone, Copy, Debug, PartialEq, Eq, Structural, Hash)]
pub enum CentralInitStatus {
    Nothing,
    LaunchingSystemApp,
    Ready,
}

/// The variant of a star that is the central star.
#[derive(Debug)]
pub struct CentralStarVariant {
    pub skel: StarSkel,
    pub status: CentralStatus,
}

/// A command to the store of the central star.
#[derive(Debug)]
pub enum CentralDbCommand {
    Close,
    AddSupervisor(StarKey),
    RemoveSupervisor(StarKey),
    SetSupervisorForApplication(StarKey, AppKey),
    GetSupervisorForApplication(AppKey),
    HasSupervisor,
    SelectSupervisor,
}

/// An answer of the store of the central star.
#[derive(Debug)]
pub enum CentralDbResult {
    Done,
    SupervisorForApplication(Option<StarKey>),
    HasSupervisor(bool),
    Supervisor(Option<StarKey>),
}

} // verus!
