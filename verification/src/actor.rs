//! Actors and applications: their keys, kinds and locations.

use vstd::prelude::*;
use vstd::string::StringExecFns;
use crate::constellation::{AppKey, Id};
use crate::kind::{Specific, SpecificView};
use crate::star::{StarKey, StarKeyView};

verus! {

/// The kind of an actor that is given no other.
pub open spec fn default_entity_kind() -> Seq<char> {
    "default"@
}

/// The key of an actor: its application and its number.
#[derive(Clone, Copy, Debug, PartialEq, Eq, Structural, Hash)]
pub struct ActorKey {
    pub app: AppKey,
    pub id: Id,
}

/// The kind of an actor.
#[derive(Debug, PartialEq, Eq, Hash)]
pub enum ActorKind {
    Actor(String),
    Gathering(String),
}

pub enum ActorKindView {
    Actor(Seq<char>),
    Gathering(Seq<char>),
}

impl View for ActorKind {
    type V = ActorKindView;

    open spec fn view(&self) -> ActorKindView {
        match self {
            ActorKind::Actor(s) => ActorKindView::Actor(s@),
            ActorKind::Gathering(s) => ActorKindView::Gathering(s@),
        }
    }
}

impl ActorKind {
    /// The kind of an actor that is given no other.
    pub fn default_entity() -> (r: ActorKind)
        ensures
            r@ == ActorKindView::Actor(default_entity_kind()),
    {
        ActorKind::Actor(String::from_str("default"))
    }

    /// The kind of a gathering that is given no other.
    pub fn default_gathering() -> (r: ActorKind)
        ensures
            r@ == ActorKindView::Gathering(default_entity_kind()),
    {
        ActorKind::Gathering(String::from_str("default"))
    }
}

/// An actor with its kind.
#[derive(Debug, PartialEq, Eq, Hash)]
pub struct ActorInfo {
    pub key: ActorKey,
    pub kind: ActorKind,
}

/// Something that takes messages.
pub trait Actor {
    fn handle_message(&mut self, message: Vec<u8>);
}

/// Where an actor lives.
#[derive(Debug, PartialEq, Eq, Hash)]
pub struct ActorLocation {
    pub actor: ActorKey,
    pub star: StarKey,
    pub gathering: Option<ActorKey>,
    pub ext: Option<Vec<u8>>,
}

pub struct ActorLocationView {
    pub actor: ActorKey,
    pub star: StarKeyView,
    pub gathering: Option<ActorKey>,
    pub ext: Option<Seq<u8>>,
}

impl View for ActorLocation {
    type V = ActorLocationView;

    open spec fn view(&self) -> ActorLocationView {
        ActorLocationView {
            actor: self.actor,
            star: self.star@,
            gathering: self.gathering,
            ext: match self.ext {
                Some(v) => Some(v@),
                None => None,
            },
        }
    }
}

impl ActorLocation {
    /// The location of an actor on a star, in no gathering.
    pub fn new(resource: ActorKey, star: StarKey) -> (r: ActorLocation)
        ensures
            r@ == (ActorLocationView { actor: resource, star: star@, gathering: None, ext: None }),
    {
        ActorLocation { actor: resource, star, ext: None, gathering: None }
    }

    /// The location of an actor on a star, with more to say about it.
    pub fn new_ext(resource: ActorKey, star: StarKey, ext: Vec<u8>) -> (r: ActorLocation)
        ensures
            r@ == (ActorLocationView {
                actor: resource,
                star: star@,
                gathering: None,
                ext: Some(ext@),
            }),
    {
        ActorLocation { actor: resource, star, ext: Some(ext), gathering: None }
    }
}

/// A gathering of actors.
#[derive(Debug)]
pub struct ActorGathering {
    pub key: ActorKey,
    pub entity: Vec<ActorKey>,
}

/// A label of an actor.
#[derive(Debug, PartialEq, Eq, Hash)]
pub struct Label {
    pub name: String,
    pub value: String,
}

/// A request to create an actor with labels.
#[derive(Debug)]
pub struct ActorCreate {
    pub app: AppKey,
    pub kind: ActorKind,
    pub data: Vec<u8>,
    pub labels: Vec<Label>,
}

/// A selection of actors by their labels.
#[derive(Debug)]
pub struct ActorSelect {
    pub criteria: Vec<Label>,
}

/// Where the configuration of an application comes from.
#[derive(Clone, Copy, Debug, PartialEq, Eq, Structural, Hash)]
pub enum ConfigSrc {
    Nothing,
}

impl ConfigSrc {
    /// The text of the source.
    pub fn to_string(&self) -> (r: String)
        ensures
            r@ == "None"@,
    {
        String::from_str("None")
    }
}

/// The kinds of resources that an archetype can be for.
#[derive(Clone, Copy, Debug, PartialEq, Eq, Structural, Hash)]
pub enum ResourceKind {
    App,
    Actor,
}

/// What a resource is to be: its kind, its specific and the source of its
/// configuration.
#[derive(Debug, PartialEq, Eq, Hash)]
pub struct ResourceArchetype {
    pub kind: ResourceKind,
    pub specific: Option<Specific>,
    pub config: Option<ConfigSrc>,
}

/// What an application is to be, its key aside.
#[derive(Debug, PartialEq, Eq, Hash)]
pub struct AppArchetype {
    pub specific: Specific,
    pub config: ConfigSrc,
}

impl AppArchetype {
    /// The archetype as that of a resource of the kind of applications.
    pub fn resource_archetype(self) -> (r: ResourceArchetype)
        ensures
            r.kind == ResourceKind::App,
            r.specific == Some(self.specific),
            r.config == Some(self.config),
    {
        ResourceArchetype {
            kind: ResourceKind::App,
            specific: Some(self.specific),
            config: Some(self.config),
        }
    }
}

/// A request to create an application.
#[derive(Debug)]
pub struct AppCreate {
    pub name: Option<String>,
    pub data: Vec<u8>,
}

/// A selection of applications by name.
#[derive(Debug)]
pub struct AppSelect {
    pub name: Option<String>,
}

/// A command to an organisation.
#[derive(Debug)]
pub enum OrgCommand {
    AppCreate(AppCreate),
    AppSelect(AppSelect),
    Destroy,
}

/// A command to an organisation, with the organisation and the user that
/// gives it.
#[derive(Debug)]
pub struct OrgCommandWrapper {
    pub org: Id,
    pub user: Id,
    pub command: OrgCommand,
}

} // verus!
