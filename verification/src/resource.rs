//! Resources as the stars host them: their types, archetypes, records and
//! the decisions of their creation.

use vstd::prelude::*;
use vstd::string::StringExecFns;
use vstd::string::StrSliceExecFns;
use crate::actor::ConfigSrc;
use crate::error::Error;
use crate::kind::{opt_specific_view, Specific, SpecificView};
use crate::point::{point_text, Point, PointView};
use crate::star::{StarKey, StarKeyView};
use crate::text::opt_view;

verus! {

/// The types of resources.
#[derive(Clone, Copy, Debug, PartialEq, Eq, Structural, Hash)]
pub enum ResourceType {
    Root,
    Space,
    Base,
    User,
    App,
    Mechtron,
    FileSystem,
    File,
    Database,
    Authenticator,
    ArtifactBundleSeries,
    ArtifactBundle,
    Artifact,
    Proxy,
    Credentials,
}

impl ResourceType {
    /// The name of the type.
    pub open spec fn text(self) -> Seq<char> {
        match self {
            ResourceType::Root => "Root"@,
            ResourceType::Space => "Space"@,
            ResourceType::Base => "Base"@,
            ResourceType::User => "User"@,
            ResourceType::App => "App"@,
            ResourceType::Mechtron => "Mechtron"@,
            ResourceType::FileSystem => "FileSystem"@,
            ResourceType::File => "File"@,
            ResourceType::Database => "Database"@,
            ResourceType::Authenticator => "Authenticator"@,
            ResourceType::ArtifactBundleSeries => "ArtifactBundleSeries"@,
            ResourceType::ArtifactBundle => "ArtifactBundle"@,
            ResourceType::Artifact => "Artifact"@,
            ResourceType::Proxy => "Proxy"@,
            ResourceType::Credentials => "Credentials"@,
        }
    }

    /// The name of the type.
    pub fn to_string(&self) -> (r: String)
        ensures
            r@ == self.text(),
    {
        match self {
            ResourceType::Root => String::from_str("Root"),
            ResourceType::Space => String::from_str("Space"),
            ResourceType::Base => String::from_str("Base"),
            ResourceType::User => String::from_str("User"),
            ResourceType::App => String::from_str("App"),
            ResourceType::Mechtron => String::from_str("Mechtron"),
            ResourceType::FileSystem => String::from_str("FileSystem"),
            ResourceType::File => String::from_str("File"),
            ResourceType::Database => String::from_str("Database"),
            ResourceType::Authenticator => String::from_str("Authenticator"),
            ResourceType::ArtifactBundleSeries => String::from_str("ArtifactBundleSeries"),
            ResourceType::ArtifactBundle => String::from_str("ArtifactBundle"),
            ResourceType::Artifact => String::from_str("Artifact"),
            ResourceType::Proxy => String::from_str("Proxy"),
            ResourceType::Credentials => String::from_str("Credentials"),
        }
    }
}

/// The kinds of files.
#[derive(Clone, Copy, Debug, PartialEq, Eq, Structural, Hash)]
pub enum FileKind {
    File,
    Dir,
}

/// The kinds of artifacts.
#[derive(Clone, Copy, Debug, PartialEq, Eq, Structural, Hash)]
pub enum ArtifactKind {
    Raw,
    AppConfig,
    MechtronConfig,
    BindConfig,
    Wasm,
    HttpRouter,
}

/// What a resource is to be: its type, its specific and the source of its
/// configuration.
#[derive(Debug, PartialEq, Eq, Hash)]
pub struct Archetype {
    pub kind: ResourceType,
    pub specific: Option<Specific>,
    pub config: ConfigSrc,
}

pub struct ArchetypeView {
    pub kind: ResourceType,
    pub specific: Option<SpecificView>,
    pub config: ConfigSrc,
}

impl View for Archetype {
    type V = ArchetypeView;

    open spec fn view(&self) -> ArchetypeView {
        ArchetypeView {
            kind: self.kind,
            specific: opt_specific_view(self.specific),
            config: self.config,
        }
    }
}

impl Clone for Archetype {
    fn clone(&self) -> (r: Archetype)
        ensures
            r@ == self@,
    {
        let specific = match &self.specific {
            Some(s) => Some(s.clone()),
            None => None,
        };
        Archetype { kind: self.kind, specific, config: self.config }
    }
}

impl Archetype {
    /// Whether two archetypes are the same.
    pub fn same(&self, other: &Archetype) -> (r: bool)
        ensures
            r == (self@ == other@),
    {
        let specific = match &self.specific {
            Some(a) => match &other.specific {
                Some(b) => a.provider == b.provider && a.vendor == b.vendor && a.product
                    == b.product && a.variant == b.variant && a.version.same(&b.version),
                None => false,
            },
            None => other.specific.is_none(),
        };
        self.kind == other.kind && specific
    }
}

/// A resource as others see it: its address and its archetype.
#[derive(Debug, PartialEq, Eq, Hash)]
pub struct ResourceStub {
    pub address: Point,
    pub archetype: Archetype,
}

pub struct ResourceStubView {
    pub address: PointView,
    pub archetype: ArchetypeView,
}

impl View for ResourceStub {
    type V = ResourceStubView;

    open spec fn view(&self) -> ResourceStubView {
        ResourceStubView { address: self.address@, archetype: self.archetype@ }
    }
}

impl Clone for ResourceStub {
    fn clone(&self) -> (r: ResourceStub)
        ensures
            r@ == self@,
    {
        ResourceStub { address: self.address.clone(), archetype: self.archetype.clone() }
    }
}

impl ResourceStubView {
    pub open spec fn root() -> ResourceStubView {
        ResourceStubView {
            address: PointView { route: crate::point::Route::Local, segments: Seq::empty() },
            archetype: ArchetypeView {
                kind: ResourceType::Root,
                specific: None,
                config: ConfigSrc::Nothing,
            },
        }
    }
}

impl ResourceStub {
    /// The stub of the root.
    pub fn root() -> (r: ResourceStub)
        ensures
            r@ == ResourceStubView::root(),
    {
        let r = ResourceStub {
            address: Point::root(),
            archetype: Archetype {
                kind: ResourceType::Root,
                specific: None,
                config: ConfigSrc::Nothing,
            },
        };
        assert(r@.address.segments =~= Seq::<Seq<char>>::empty());
        r
    }
}

/// Where a resource lives: the star that hosts it.
#[derive(Debug, PartialEq, Eq, Hash)]
pub struct ResourceLocation {
    pub host: StarKey,
}

impl ResourceLocation {
    pub fn new(star: StarKey) -> (r: ResourceLocation)
        ensures
            r.host@ == star@,
    {
        ResourceLocation { host: star }
    }

    /// The location of the root: the central star.
    pub fn root() -> (r: ResourceLocation)
        ensures
            r.host@ == (StarKeyView { subgraph: Seq::empty(), index: 0 }),
    {
        ResourceLocation { host: StarKey::central() }
    }
}

/// A resource with its location.
#[derive(Debug, PartialEq, Eq, Hash)]
pub struct ResourceRecord {
    pub stub: ResourceStub,
    pub location: ResourceLocation,
}

pub struct ResourceRecordView {
    pub stub: ResourceStubView,
    pub host: StarKeyView,
}

impl View for ResourceRecord {
    type V = ResourceRecordView;

    open spec fn view(&self) -> ResourceRecordView {
        ResourceRecordView { stub: self.stub@, host: self.location.host@ }
    }
}

impl ResourceRecord {
    pub fn new(stub: ResourceStub, host: StarKey) -> (r: ResourceRecord)
        ensures
            r@ == (ResourceRecordView { stub: stub@, host: host@ }),
    {
        ResourceRecord { stub, location: ResourceLocation::new(host) }
    }

    /// The record of the root: the root stub at the central star.
    pub fn root() -> (r: ResourceRecord)
        ensures
            r@ == (ResourceRecordView {
                stub: ResourceStubView::root(),
                host: StarKeyView { subgraph: Seq::empty(), index: 0 },
            }),
    {
        ResourceRecord { stub: ResourceStub::root(), location: ResourceLocation::root() }
    }
}

/// The names and labels under which a resource is registered.
#[derive(Debug, PartialEq, Eq, Hash)]
pub struct ResourceRegistryInfo {
    pub names: Vec<String>,
    pub labels: Vec<crate::actor::Label>,
}

/// A resource to register.
#[derive(Debug, PartialEq, Eq, Hash)]
pub struct ResourceRegistration {
    pub resource: ResourceRecord,
    pub info: Option<ResourceRegistryInfo>,
}

impl ResourceRegistration {
    pub fn new(resource: ResourceRecord, info: Option<ResourceRegistryInfo>) -> (r:
        ResourceRegistration)
        ensures
            r.resource == resource,
            r.info == info,
    {
        ResourceRegistration { resource, info }
    }
}

/// The star near which a resource would like to live.
#[derive(Debug, PartialEq, Eq, Hash)]
pub struct ResourceLocationAffinity {
    pub star: StarKey,
}

/// Who manages a resource.
#[derive(Debug, PartialEq, Eq, Hash)]
pub enum ResourceManagerKey {
    Central,
    Key(Point),
}

/// The key of a resource with its address.
#[derive(Debug, PartialEq, Eq, Hash)]
pub struct ResourceBinding {
    pub key: Point,
    pub address: Point,
}

/// A text to show, never empty.
#[derive(Debug, PartialEq, Eq, Hash)]
pub struct DisplayValue {
    string: String,
}

impl View for DisplayValue {
    type V = Seq<char>;

    closed spec fn view(&self) -> Seq<char> {
        self.string@
    }
}

impl DisplayValue {
    /// The value with the text. Fails where the text is empty.
    pub fn new(string: &str) -> (r: Result<DisplayValue, Error>)
        ensures
            r is Ok <==> string@.len() > 0,
            r matches Ok(v) ==> v@ == string@,
            r matches Err(e) ==> e@ == "cannot be empty"@,
    {
        if string.unicode_len() == 0 {
            return Err(Error::new("cannot be empty"));
        }
        Ok(DisplayValue { string: String::from_str(string) })
    }

    pub fn to_string(&self) -> (r: String)
        ensures
            r@ == self@,
    {
        self.string.clone()
    }
}

/// How far a slice of a resource has come.
#[derive(Clone, Copy, Debug, PartialEq, Eq, Structural, Hash)]
pub enum ResourceSliceStatus {
    Unknown,
    Preparing,
    Waiting,
    Ready,
}

impl ResourceSliceStatus {
    pub open spec fn text(self) -> Seq<char> {
        match self {
            ResourceSliceStatus::Unknown => "Unknown"@,
            ResourceSliceStatus::Preparing => "Preparing"@,
            ResourceSliceStatus::Waiting => "Waiting"@,
            ResourceSliceStatus::Ready => "Ready"@,
        }
    }

    pub fn to_string(&self) -> (r: String)
        ensures
            r@ == self.text(),
    {
        match self {
            ResourceSliceStatus::Unknown => String::from_str("Unknown"),
            ResourceSliceStatus::Preparing => String::from_str("Preparing"),
            ResourceSliceStatus::Waiting => String::from_str("Waiting"),
            ResourceSliceStatus::Ready => String::from_str("Ready"),
        }
    }
}

/// A slice of a resource to assign.
#[derive(Debug, PartialEq, Eq, Hash)]
pub struct ResourceSliceAssign {
    pub key: Point,
    pub archetype: Archetype,
}

/// Gives out numbers for resources.
pub trait ResourceIdSeq {
    fn next(&mut self) -> u64;
}

/// A resource that a star hosts.
pub trait HostedResource {
    fn key(&self) -> Point;
}

/// Something that can be the address of a selection.
pub trait ResourceSelectorId {
}

/// Gives out unique numbers by type of resource.
pub trait UniqueSrc {
    fn next(&mut self, resource_type: &ResourceType) -> u64;
}

/// A star that hosts resources.
pub trait ResourceHost {
    fn star_key(&self) -> StarKey;
}

/// A resource that lives on another star.
#[derive(Debug, PartialEq, Eq, Hash)]
pub struct RemoteHostedResource {
    pub key: Point,
    pub star_host: StarKey,
}

/// A resource that lives on this star.
#[derive(Debug, PartialEq, Eq, Hash)]
pub struct LocalHostedResource {
    pub resource: ResourceStub,
}

/// The manager of resources that live elsewhere.
#[derive(Debug, PartialEq, Eq, Hash)]
pub struct RemoteResourceManager {
    pub key: Point,
}

impl RemoteResourceManager {
    pub fn new(key: Point) -> (r: RemoteResourceManager)
        ensures
            r.key == key,
    {
        RemoteResourceManager { key }
    }
}

/// A star that hosts resources for others, with the types that it hosts.
#[derive(Debug)]
pub struct RemoteResourceHost {
    pub star: StarKey,
    pub hosted: Vec<ResourceType>,
}

impl RemoteResourceHost {
    /// Whether the host takes resources of the type.
    pub fn hosts(&self, resource_type: ResourceType) -> (r: bool)
        ensures
            r == self.hosted@.contains(resource_type),
    {
        let mut i: usize = 0;
        while i < self.hosted.len()
            invariant
                i <= self.hosted.len(),
                forall|j: int| 0 <= j < i ==> self.hosted@[j] != resource_type,
            decreases self.hosted.len() - i,
        {
            if self.hosted[i] == resource_type {
                return true;
            }
            i += 1;
        }
        false
    }
}

/// What a parent of resources works with.
#[derive(Debug)]
pub struct ParentCore {
    pub stub: ResourceStub,
}

/// A resource that has children.
#[derive(Debug)]
pub struct Parent {
    pub core: ParentCore,
}

/// A resource with its state.
#[derive(Debug, PartialEq, Eq, Hash)]
pub struct Resource {
    pub address: Point,
    pub archetype: Archetype,
    pub state: Vec<u8>,
}

impl Resource {
    pub fn new(address: Point, archetype: Archetype, state: Vec<u8>) -> (r: Resource)
        ensures
            r.address == address,
            r.archetype == archetype,
            r.state == state,
    {
        Resource { address, state, archetype }
    }

    pub fn address(&self) -> (r: Point)
        ensures
            r@ == self.address@,
    {
        self.address.clone()
    }

    pub fn resource_type(&self) -> (r: ResourceType)
        ensures
            r == self.archetype.kind,
    {
        self.archetype.kind
    }

    pub fn state_src(&self) -> (r: Vec<u8>)
        ensures
            r@ == self.state@,
    {
        crate::wave::clone_bytes(&self.state)
    }
}

/// Where the state of a new resource comes from.
#[derive(Debug, PartialEq, Eq, Hash)]
pub enum AssignResourceStateSrc {
    Stateless,
    Direct(Vec<u8>),
}

/// Why a resource is assigned to a host.
#[derive(Clone, Copy, Debug, PartialEq, Eq, Structural, Hash)]
pub enum AssignKind {
    Create,
}

/// The assignment of a resource to a host.
#[derive(Debug, PartialEq, Eq, Hash)]
pub struct ResourceAssign<S> {
    pub kind: AssignKind,
    pub stub: ResourceStub,
    pub state_src: S,
}

impl<S> ResourceAssign<S> {
    pub fn new(kind: AssignKind, stub: ResourceStub, state_src: S) -> (r: ResourceAssign<S>)
        ensures
            r.kind == kind,
            r.stub == stub,
            r.state_src == state_src,
    {
        ResourceAssign { kind, stub, state_src }
    }

    pub fn archetype(&self) -> (r: Archetype)
        ensures
            r@ == self.stub@.archetype,
    {
        self.stub.archetype.clone()
    }
}

/// What to do when the address of a new resource is taken.
#[derive(Clone, Copy, Debug, PartialEq, Eq, Structural, Hash)]
pub enum ResourceCreateStrategy {
    Create,
    CreateOrUpdate,
    Ensure,
}

/// A request to create a resource.
#[derive(Debug)]
pub struct ResourceCreate {
    pub parent: Point,
    pub segment: String,
    pub archetype: Archetype,
    pub state_src: AssignResourceStateSrc,
    pub registry_info: Option<ResourceRegistryInfo>,
    pub strategy: ResourceCreateStrategy,
}

/// A request to reserve the names of a resource.
#[derive(Debug)]
pub struct ResourceNamesReservationRequest {
    pub info: Option<ResourceRegistryInfo>,
    pub parent: Point,
    pub archetype: Archetype,
}

/// What is done for a request to create a resource.
#[derive(Debug, PartialEq, Eq, Hash)]
pub enum ResourceAction<S> {
    /// Nothing: the resource is there as asked.
    Nothing,
    /// The resource is new: it is assigned to a host.
    Assign(ResourceAssign<S>),
    /// The resource is there: its state is replaced.
    Update(Resource),
}

/// Why a resource was not created.
#[derive(Clone, Copy, Debug, PartialEq, Eq, Structural, Hash)]
pub enum CreateError {
    /// The address is taken.
    AddressAlreadyInUse,
    /// The resource at the address is of another archetype.
    CannotUpdateArchetype,
}

/// What is done for a request to create a resource at `address`, given
/// the record at that address, if there is one.
///
/// A new resource is assigned to a host. Where the address is taken:
/// creation fails; ensuring does nothing; creation or update fails where
/// the archetypes differ, does nothing for a stateless resource, and else
/// replaces the state.
pub fn creation_action(
    create: &ResourceCreate,
    address: &Point,
    existing: Option<&ResourceRecord>,
) -> (r: Result<ResourceAction<AssignResourceStateSrc>, CreateError>)
    ensures
        match existing {
            None => r matches Ok(ResourceAction::Assign(assign)) && assign.kind
                == AssignKind::Create && assign.stub@ == (ResourceStubView {
                address: address@,
                archetype: create.archetype@,
            }) && state_src_view(assign.state_src) == state_src_view(create.state_src),
            Some(record) => match create.strategy {
                ResourceCreateStrategy::Create => r == Err::<
                    ResourceAction<AssignResourceStateSrc>,
                    CreateError,
                >(CreateError::AddressAlreadyInUse),
                ResourceCreateStrategy::Ensure => r == Ok::<
                    ResourceAction<AssignResourceStateSrc>,
                    CreateError,
                >(ResourceAction::Nothing),
                ResourceCreateStrategy::CreateOrUpdate => if record@.stub.archetype
                    != create.archetype@ {
                    r == Err::<ResourceAction<AssignResourceStateSrc>, CreateError>(
                        CreateError::CannotUpdateArchetype,
                    )
                } else {
                    match create.state_src {
                        AssignResourceStateSrc::Stateless => r == Ok::<
                            ResourceAction<AssignResourceStateSrc>,
                            CreateError,
                        >(ResourceAction::Nothing),
                        AssignResourceStateSrc::Direct(state) => r matches Ok(
                            ResourceAction::Update(resource),
                        ) && resource.address@ == record@.stub.address && resource.archetype@
                            == record@.stub.archetype && resource.state@ == state@,
                    }
                },
            },
        },
{
    match existing {
        Some(record) => match create.strategy {
            ResourceCreateStrategy::Create => Err(CreateError::AddressAlreadyInUse),
            ResourceCreateStrategy::Ensure => Ok(ResourceAction::Nothing),
            ResourceCreateStrategy::CreateOrUpdate => {
                if !record.stub.archetype.same(&create.archetype) {
                    return Err(CreateError::CannotUpdateArchetype);
                }
                match &create.state_src {
                    AssignResourceStateSrc::Stateless => Ok(ResourceAction::Nothing),
                    AssignResourceStateSrc::Direct(state) => Ok(
                        ResourceAction::Update(
                            Resource::new(
                                record.stub.address.clone(),
                                record.stub.archetype.clone(),
                                crate::wave::clone_bytes(state),
                            ),
                        ),
                    ),
                }
            },
        },
        None => {
            let state_src = match &create.state_src {
                AssignResourceStateSrc::Stateless => AssignResourceStateSrc::Stateless,
                AssignResourceStateSrc::Direct(state) => AssignResourceStateSrc::Direct(
                    crate::wave::clone_bytes(state),
                ),
            };
            Ok(
                ResourceAction::Assign(
                    ResourceAssign::new(
                        AssignKind::Create,
                        ResourceStub {
                            address: address.clone(),
                            archetype: create.archetype.clone(),
                        },
                        state_src,
                    ),
                ),
            )
        },
    }
}

/// The value of the source of a state.
pub open spec fn state_src_view(s: AssignResourceStateSrc) -> Option<Seq<u8>> {
    match s {
        AssignResourceStateSrc::Stateless => None,
        AssignResourceStateSrc::Direct(state) => Some(state@),
    }
}

/// A field by which resources are selected.
#[derive(Debug, PartialEq, Eq, Hash)]
pub enum FieldSelection {
    Type(ResourceType),
    Kind(String),
    Specific(Specific),
    Parent(Point),
}

/// A field of a selection as a store takes it.
#[derive(Debug, PartialEq, Eq, Hash)]
pub struct FieldSelectionSql {
    pub selection: FieldSelection,
}

/// A selection of resources by their fields.
#[derive(Debug)]
pub struct ResourceSelector {
    pub fields: Vec<FieldSelection>,
}

/// A command to the store of the resources.
#[derive(Debug)]
pub enum ResourceRegistryCommand {
    Close,
    Clear,
    Reserve(ResourceNamesReservationRequest),
    Commit(ResourceRegistration),
    Select(ResourceSelector),
    SetLocation(ResourceRecord),
    Get(Point),
}

/// The fields of a resource as a store takes them.
#[derive(Debug, PartialEq, Eq, Hash)]
pub struct RegistryParams {
    pub address: Option<String>,
    pub resource_type: String,
    pub kind: String,
    pub specific: Option<String>,
    pub config: Option<String>,
    pub host: Option<String>,
    pub parent: Option<String>,
}

pub struct RegistryParamsView {
    pub address: Option<Seq<char>>,
    pub resource_type: Seq<char>,
    pub kind: Seq<char>,
    pub specific: Option<Seq<char>>,
    pub config: Option<Seq<char>>,
    pub host: Option<Seq<char>>,
    pub parent: Option<Seq<char>>,
}

impl View for RegistryParams {
    type V = RegistryParamsView;

    open spec fn view(&self) -> RegistryParamsView {
        RegistryParamsView {
            address: opt_view(self.address),
            resource_type: self.resource_type@,
            kind: self.kind@,
            specific: opt_view(self.specific),
            config: opt_view(self.config),
            host: opt_view(self.host),
            parent: opt_view(self.parent),
        }
    }
}

/// The text of a specific: its provider, vendor, product, variant and
/// version, with colons between them.
pub open spec fn specific_text(s: SpecificView) -> Seq<char> {
    s.provider + ":"@ + s.vendor + ":"@ + s.product + ":"@ + s.variant + ":"@ + s.version.text()
}

/// The text of a specific.
pub fn specific_to_string(s: &Specific) -> (r: String)
    ensures
        r@ == specific_text(s@),
{
    let mut r = s.provider.clone();
    r.append(":");
    r.append(s.vendor.as_str());
    r.append(":");
    r.append(s.product.as_str());
    r.append(":");
    r.append(s.variant.as_str());
    r.append(":");
    r.append(s.version.to_string().as_str());
    r
}

/// The fields of a resource with the archetype at the address on the
/// host, as a store takes them: absent values stay absent; the parent is
/// that of the address; the host is told by its address.
pub open spec fn registry_params(
    archetype: ArchetypeView,
    address: Option<PointView>,
    host: Option<StarKeyView>,
) -> RegistryParamsView {
    RegistryParamsView {
        address: match address {
            Some(a) => Some(point_text(a)),
            None => None,
        },
        resource_type: archetype.kind.text(),
        kind: archetype.kind.text(),
        specific: match archetype.specific {
            Some(s) => Some(specific_text(s)),
            None => None,
        },
        config: None,
        host: match host {
            Some(h) => Some(point_text(h.to_point())),
            None => None,
        },
        parent: match address {
            Some(a) => if a.segments.len() == 0 {
                None
            } else {
                Some(point_text(a.parent()))
            },
            None => None,
        },
    }
}

impl RegistryParams {
    /// The fields of a resource with the archetype at the address on the
    /// host.
    pub fn new(archetype: &Archetype, address: Option<&Point>, host: Option<&StarKey>) -> (r:
        RegistryParams)
        ensures
            r@ == registry_params(
                archetype@,
                match address {
                    Some(a) => Some(a@),
                    None => None,
                },
                match host {
                    Some(h) => Some(h@),
                    None => None,
                },
            ),
    {
        let parent = match address {
            Some(a) => match a.parent() {
                Some(p) => Some(p.to_string()),
                None => None,
            },
            None => None,
        };
        let address = match address {
            Some(a) => Some(a.to_string()),
            None => None,
        };
        let specific = match &archetype.specific {
            Some(s) => Some(specific_to_string(s)),
            None => None,
        };
        let host = match host {
            Some(h) => Some(h.to_point().to_string()),
            None => None,
        };
        RegistryParams {
            address,
            resource_type: archetype.kind.to_string(),
            kind: archetype.kind.to_string(),
            specific,
            parent,
            config: None,
            host,
        }
    }

    /// The fields of the resource of a registration.
    pub fn from_registration(registration: &ResourceRegistration) -> (r: RegistryParams)
        ensures
            r@ == registry_params(
                registration.resource@.stub.archetype,
                Some(registration.resource@.stub.address),
                Some(registration.resource@.host),
            ),
    {
        RegistryParams::new(
            &registration.resource.stub.archetype,
            Some(&registration.resource.stub.address),
            Some(&registration.resource.location.host),
        )
    }

    /// The fields of a resource that has an archetype and a place, and no
    /// host yet.
    pub fn from_archetype(archetype: &Archetype, parent: Option<&Point>) -> (r: RegistryParams)
        ensures
            r@ == registry_params(
                archetype@,
                match parent {
                    Some(a) => Some(a@),
                    None => None,
                },
                None,
            ),
    {
        RegistryParams::new(archetype, parent, None)
    }
}

/// The content of a file.
#[derive(Debug, PartialEq, Eq, Hash)]
pub struct FileState {
    pub content: Vec<u8>,
}

impl FileState {
    pub fn new(content: Vec<u8>) -> (r: FileState)
        ensures
            r.content@ == content@,
    {
        FileState { content }
    }
}

/// A file.
#[derive(Debug, PartialEq, Eq, Hash)]
pub struct File {
    pub key: Point,
    pub address: Point,
    pub state: FileState,
}

/// An answer of the store of the states of resources.
#[derive(Debug)]
pub enum ResourceStoreResult {
    Done,
    Resource(Option<Resource>),
}

impl ResourceStoreResult {
    pub fn to_string(&self) -> (r: String)
        ensures
            r@ == (match self {
                ResourceStoreResult::Done => "ResourceStoreResult::Ok"@,
                ResourceStoreResult::Resource(_) => "ResourceStoreResult::Resource(_)"@,
            }),
    {
        match self {
            ResourceStoreResult::Done => String::from_str("ResourceStoreResult::Ok"),
            ResourceStoreResult::Resource(_) => String::from_str(
                "ResourceStoreResult::Resource(_)",
            ),
        }
    }
}

/// The manager of artifacts.
#[derive(Debug)]
pub struct ArtifactManager {
}

impl ArtifactManager {
    pub fn new() -> (r: ArtifactManager) {
        ArtifactManager {  }
    }

    /// The type of the resources that the manager manages.
    pub fn resource_type(&self) -> (r: ResourceType)
        ensures
            r == ResourceType::Artifact,
    {
        ResourceType::Artifact
    }
}

/// The manager of bundles of artifacts.
#[derive(Debug)]
pub struct ArtifactBundleManager {
    pub skel: crate::constellation::StarSkel,
}

/// The host of spaces.
#[derive(Debug)]
pub struct SpaceHost {
    pub skel: crate::constellation::StarSkel,
}

/// The surface of a star towards its users.
#[derive(Debug)]
pub struct SurfaceComponent {
    pub skel: crate::constellation::StarSkel,
}

/// The core of a star that runs resources in a cluster.
#[derive(Debug)]
pub struct KubeCore {
    pub skel: crate::constellation::StarSkel,
}

/// A directive to set a value.
#[derive(Debug)]
pub struct SetDir {
    pub key: String,
    pub value: Vec<u8>,
}

/// A block of a pipeline step.
#[derive(Debug)]
pub enum Block {
    Payload(Vec<u8>),
    Upload(String),
}

/// A step of a pipeline.
#[derive(Debug)]
pub struct PipelineStep {
    pub blocks: Vec<Block>,
}

/// A pipeline that makes a state.
#[derive(Debug)]
pub enum StatePipeline {
    /// The steps of the pipeline, in order.
    Steps(Vec<PipelineStep>),
}

} // verus!
