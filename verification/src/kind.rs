//! What a particle is: its base kind, optional sub kind and optional
//! specific (provider, vendor, product, variant, version), and its status.

use vstd::prelude::*;
use vstd::string::StringExecFns;
use vstd::string::StrSliceExecFns;
use crate::text::{clone_opt, decimal, opt_view, u64_to_string};

verus! {

/// The base kinds of particles.
#[derive(Clone, Copy, Debug, PartialEq, Eq, Structural, Hash)]
pub enum BaseKind {
    Root,
    Space,
    UserBase,
    Base,
    User,
    App,
    Mechtron,
    FileSystem,
    File,
    Database,
    Repo,
    BundleSeries,
    Bundle,
    Artifact,
    Control,
    Portal,
    Star,
    Driver,
    Global,
    Host,
    Guest,
    Native,
}

impl BaseKind {
    /// The name of the base kind.
    pub open spec fn text(self) -> Seq<char> {
        match self {
            BaseKind::Root => "Root"@,
            BaseKind::Space => "Space"@,
            BaseKind::UserBase => "UserBase"@,
            BaseKind::Base => "Base"@,
            BaseKind::User => "User"@,
            BaseKind::App => "App"@,
            BaseKind::Mechtron => "Mechtron"@,
            BaseKind::FileSystem => "FileSystem"@,
            BaseKind::File => "File"@,
            BaseKind::Database => "Database"@,
            BaseKind::Repo => "Repo"@,
            BaseKind::BundleSeries => "BundleSeries"@,
            BaseKind::Bundle => "Bundle"@,
            BaseKind::Artifact => "Artifact"@,
            BaseKind::Control => "Control"@,
            BaseKind::Portal => "Portal"@,
            BaseKind::Star => "Star"@,
            BaseKind::Driver => "Driver"@,
            BaseKind::Global => "Global"@,
            BaseKind::Host => "Host"@,
            BaseKind::Guest => "Guest"@,
            BaseKind::Native => "Native"@,
        }
    }

    /// The base kind with the name, if there is one.
    pub open spec fn parse_text(s: Seq<char>) -> Option<BaseKind> {
        if s == "Root"@ {
            Some(BaseKind::Root)
        } else if s == "Space"@ {
            Some(BaseKind::Space)
        } else if s == "UserBase"@ {
            Some(BaseKind::UserBase)
        } else if s == "Base"@ {
            Some(BaseKind::Base)
        } else if s == "User"@ {
            Some(BaseKind::User)
        } else if s == "App"@ {
            Some(BaseKind::App)
        } else if s == "Mechtron"@ {
            Some(BaseKind::Mechtron)
        } else if s == "FileSystem"@ {
            Some(BaseKind::FileSystem)
        } else if s == "File"@ {
            Some(BaseKind::File)
        } else if s == "Database"@ {
            Some(BaseKind::Database)
        } else if s == "Repo"@ {
            Some(BaseKind::Repo)
        } else if s == "BundleSeries"@ {
            Some(BaseKind::BundleSeries)
        } else if s == "Bundle"@ {
            Some(BaseKind::Bundle)
        } else if s == "Artifact"@ {
            Some(BaseKind::Artifact)
        } else if s == "Control"@ {
            Some(BaseKind::Control)
        } else if s == "Portal"@ {
            Some(BaseKind::Portal)
        } else if s == "Star"@ {
            Some(BaseKind::Star)
        } else if s == "Driver"@ {
            Some(BaseKind::Driver)
        } else if s == "Global"@ {
            Some(BaseKind::Global)
        } else if s == "Host"@ {
            Some(BaseKind::Host)
        } else if s == "Guest"@ {
            Some(BaseKind::Guest)
        } else if s == "Native"@ {
            Some(BaseKind::Native)
        } else {
            None
        }
    }

    /// The base kind with the name. `None` where no base kind has the
    /// name.
    pub fn from_str(s: &str) -> (r: Option<BaseKind>)
        ensures
            r == BaseKind::parse_text(s@),
    {
        let text = String::from_str(s);
        if text == String::from_str("Root") {
            Some(BaseKind::Root)
        } else if text == String::from_str("Space") {
            Some(BaseKind::Space)
        } else if text == String::from_str("UserBase") {
            Some(BaseKind::UserBase)
        } else if text == String::from_str("Base") {
            Some(BaseKind::Base)
        } else if text == String::from_str("User") {
            Some(BaseKind::User)
        } else if text == String::from_str("App") {
            Some(BaseKind::App)
        } else if text == String::from_str("Mechtron") {
            Some(BaseKind::Mechtron)
        } else if text == String::from_str("FileSystem") {
            Some(BaseKind::FileSystem)
        } else if text == String::from_str("File") {
            Some(BaseKind::File)
        } else if text == String::from_str("Database") {
            Some(BaseKind::Database)
        } else if text == String::from_str("Repo") {
            Some(BaseKind::Repo)
        } else if text == String::from_str("BundleSeries") {
            Some(BaseKind::BundleSeries)
        } else if text == String::from_str("Bundle") {
            Some(BaseKind::Bundle)
        } else if text == String::from_str("Artifact") {
            Some(BaseKind::Artifact)
        } else if text == String::from_str("Control") {
            Some(BaseKind::Control)
        } else if text == String::from_str("Portal") {
            Some(BaseKind::Portal)
        } else if text == String::from_str("Star") {
            Some(BaseKind::Star)
        } else if text == String::from_str("Driver") {
            Some(BaseKind::Driver)
        } else if text == String::from_str("Global") {
            Some(BaseKind::Global)
        } else if text == String::from_str("Host") {
            Some(BaseKind::Host)
        } else if text == String::from_str("Guest") {
            Some(BaseKind::Guest)
        } else if text == String::from_str("Native") {
            Some(BaseKind::Native)
        } else {
            None
        }
    }

    /// The name of the base kind.
    pub fn to_string(&self) -> (r: String)
        ensures
            r@ == self.text(),
    {
        match self {
            BaseKind::Root => String::from_str("Root"),
            BaseKind::Space => String::from_str("Space"),
            BaseKind::UserBase => String::from_str("UserBase"),
            BaseKind::Base => String::from_str("Base"),
            BaseKind::User => String::from_str("User"),
            BaseKind::App => String::from_str("App"),
            BaseKind::Mechtron => String::from_str("Mechtron"),
            BaseKind::FileSystem => String::from_str("FileSystem"),
            BaseKind::File => String::from_str("File"),
            BaseKind::Database => String::from_str("Database"),
            BaseKind::Repo => String::from_str("Repo"),
            BaseKind::BundleSeries => String::from_str("BundleSeries"),
            BaseKind::Bundle => String::from_str("Bundle"),
            BaseKind::Artifact => String::from_str("Artifact"),
            BaseKind::Control => String::from_str("Control"),
            BaseKind::Portal => String::from_str("Portal"),
            BaseKind::Star => String::from_str("Star"),
            BaseKind::Driver => String::from_str("Driver"),
            BaseKind::Global => String::from_str("Global"),
            BaseKind::Host => String::from_str("Host"),
            BaseKind::Guest => String::from_str("Guest"),
            BaseKind::Native => String::from_str("Native"),
        }
    }
}

/// A three-part version with an optional pre-release tag and optional
/// build metadata (each empty when there is none).
#[derive(Debug, PartialEq, Eq, Hash)]
pub struct Version {
    pub major: u64,
    pub minor: u64,
    pub patch: u64,
    pub pre: String,
    pub build: String,
}

pub struct VersionView {
    pub major: u64,
    pub minor: u64,
    pub patch: u64,
    pub pre: Seq<char>,
    pub build: Seq<char>,
}

impl VersionView {
    /// The three numbers in decimal with dots between them.
    pub open spec fn triple(self) -> Seq<char> {
        decimal(self.major as nat) + "."@ + decimal(self.minor as nat) + "."@ + decimal(
            self.patch as nat,
        )
    }

    /// The text of the version: the three numbers, a hyphen and the
    /// pre-release tag where there is one, a plus sign and the build
    /// metadata where there is some.
    pub open spec fn text(self) -> Seq<char> {
        self.triple() + (if self.pre.len() > 0 {
            "-"@ + self.pre
        } else {
            Seq::empty()
        }) + (if self.build.len() > 0 {
            "+"@ + self.build
        } else {
            Seq::empty()
        })
    }
}

impl View for Version {
    type V = VersionView;

    open spec fn view(&self) -> VersionView {
        VersionView {
            major: self.major,
            minor: self.minor,
            patch: self.patch,
            pre: self.pre@,
            build: self.build@,
        }
    }
}

impl Clone for Version {
    fn clone(&self) -> (r: Version)
        ensures
            r@ == self@,
    {
        Version {
            major: self.major,
            minor: self.minor,
            patch: self.patch,
            pre: self.pre.clone(),
            build: self.build.clone(),
        }
    }
}

impl Version {
    pub fn new(major: u64, minor: u64, patch: u64) -> (r: Version)
        ensures
            r@ == (VersionView { major, minor, patch, pre: Seq::empty(), build: Seq::empty() }),
    {
        Version { major, minor, patch, pre: String::new(), build: String::new() }
    }

    /// The three numbers in decimal with dots between them.
    pub fn triple(&self) -> (r: String)
        ensures
            r@ == self@.triple(),
    {
        let mut r = u64_to_string(self.major);
        r.append(".");
        r.append(u64_to_string(self.minor).as_str());
        r.append(".");
        r.append(u64_to_string(self.patch).as_str());
        r
    }

    /// The text of the version, such as `1.2.3` or `0.1.0-alpha`.
    pub fn to_string(&self) -> (r: String)
        ensures
            r@ == self@.text(),
    {
        let mut r = self.triple();
        if self.pre.as_str().unicode_len() > 0 {
            r.append("-");
            r.append(self.pre.as_str());
        } else {
            assert(r@ + Seq::<char>::empty() =~= r@);
        }
        if self.build.as_str().unicode_len() > 0 {
            r.append("+");
            r.append(self.build.as_str());
        } else {
            assert(r@ + Seq::<char>::empty() =~= r@);
        }
        assert(r@ =~= self@.text());
        r
    }

    /// Whether two versions are the same, pre-release tag included.
    pub fn same(&self, other: &Version) -> (r: bool)
        ensures
            r == (self@ == other@),
    {
        self.major == other.major && self.minor == other.minor && self.patch == other.patch
            && self.pre == other.pre && self.build == other.build
    }
}

/// The view of an optional version.
pub open spec fn opt_version_view(o: Option<Version>) -> Option<VersionView> {
    match o {
        Some(v) => Some(v@),
        None => None,
    }
}

/// The exact product a particle is an instance of.
#[derive(Debug, PartialEq, Eq, Hash)]
pub struct Specific {
    pub provider: String,
    pub vendor: String,
    pub product: String,
    pub variant: String,
    pub version: Version,
}

pub struct SpecificView {
    pub provider: Seq<char>,
    pub vendor: Seq<char>,
    pub product: Seq<char>,
    pub variant: Seq<char>,
    pub version: VersionView,
}

impl View for Specific {
    type V = SpecificView;

    open spec fn view(&self) -> SpecificView {
        SpecificView {
            provider: self.provider@,
            vendor: self.vendor@,
            product: self.product@,
            variant: self.variant@,
            version: self.version@,
        }
    }
}

impl Clone for Specific {
    fn clone(&self) -> (r: Specific)
        ensures
            r@ == self@,
    {
        Specific {
            provider: self.provider.clone(),
            vendor: self.vendor.clone(),
            product: self.product.clone(),
            variant: self.variant.clone(),
            version: self.version.clone(),
        }
    }
}

/// The view of an optional specific.
pub open spec fn opt_specific_view(o: Option<Specific>) -> Option<SpecificView> {
    match o {
        Some(s) => Some(s@),
        None => None,
    }
}

/// The kind of a particle.
#[derive(Debug, PartialEq, Eq, Hash)]
pub struct Kind {
    pub base: BaseKind,
    pub sub: Option<String>,
    pub specific: Option<Specific>,
}

pub struct KindView {
    pub base: BaseKind,
    pub sub: Option<Seq<char>>,
    pub specific: Option<SpecificView>,
}

impl View for Kind {
    type V = KindView;

    open spec fn view(&self) -> KindView {
        KindView {
            base: self.base,
            sub: opt_view(self.sub),
            specific: opt_specific_view(self.specific),
        }
    }
}

impl Clone for Kind {
    fn clone(&self) -> (r: Kind)
        ensures
            r@ == self@,
    {
        let specific = match &self.specific {
            Some(s) => Some(s.clone()),
            None => None,
        };
        Kind { base: self.base, sub: clone_opt(&self.sub), specific }
    }
}

impl Kind {
    /// A kind with neither sub kind nor specific.
    pub fn of(base: BaseKind) -> (r: Kind)
        ensures
            r@ == (KindView { base, sub: None, specific: None }),
    {
        Kind { base, sub: None, specific: None }
    }

    /// The kind of the root particle.
    pub fn root() -> (r: Kind)
        ensures
            r@ == (KindView { base: BaseKind::Root, sub: None, specific: None }),
    {
        Kind::of(BaseKind::Root)
    }

    pub fn to_base(&self) -> (r: BaseKind)
        ensures
            r == self@.base,
    {
        self.base
    }
}

/// The lifecycle status of a particle.
#[derive(Clone, Copy, Debug, PartialEq, Eq, Structural, Hash)]
pub enum Status {
    Unknown,
    Pending,
    Init,
    Ready,
    Panic,
    Fatal,
}

impl Status {
    /// How far along its lifecycle a status is. `Ready` and `Panic` share a
    /// rank: a particle may move between them in both directions.
    pub open spec fn spec_rank(self) -> u8 {
        match self {
            Status::Unknown => 0,
            Status::Pending => 1,
            Status::Init => 2,
            Status::Ready => 3,
            Status::Panic => 3,
            Status::Fatal => 4,
        }
    }

    #[verifier::when_used_as_spec(spec_rank)]
    pub fn rank(self) -> (r: u8)
        ensures
            r == self.spec_rank(),
    {
        match self {
            Status::Unknown => 0,
            Status::Pending => 1,
            Status::Init => 2,
            Status::Ready => 3,
            Status::Panic => 3,
            Status::Fatal => 4,
        }
    }

    /// The name of the status.
    pub open spec fn text(self) -> Seq<char> {
        match self {
            Status::Unknown => "Unknown"@,
            Status::Pending => "Pending"@,
            Status::Init => "Init"@,
            Status::Ready => "Ready"@,
            Status::Panic => "Panic"@,
            Status::Fatal => "Fatal"@,
        }
    }

    /// The name of the status.
    pub fn to_string(&self) -> (r: String)
        ensures
            r@ == self.text(),
    {
        match self {
            Status::Unknown => String::from_str("Unknown"),
            Status::Pending => String::from_str("Pending"),
            Status::Init => String::from_str("Init"),
            Status::Ready => String::from_str("Ready"),
            Status::Panic => String::from_str("Panic"),
            Status::Fatal => String::from_str("Fatal"),
        }
    }

    /// The status with the name, if there is one.
    pub open spec fn parse_text(s: Seq<char>) -> Option<Status> {
        if s == "Unknown"@ {
            Some(Status::Unknown)
        } else if s == "Pending"@ {
            Some(Status::Pending)
        } else if s == "Init"@ {
            Some(Status::Init)
        } else if s == "Ready"@ {
            Some(Status::Ready)
        } else if s == "Panic"@ {
            Some(Status::Panic)
        } else if s == "Fatal"@ {
            Some(Status::Fatal)
        } else {
            None
        }
    }

    /// The status with the name. `None` where no status has the name.
    pub fn from_str(s: &str) -> (r: Option<Status>)
        ensures
            r == Status::parse_text(s@),
    {
        let text = String::from_str(s);
        if text == String::from_str("Unknown") {
            Some(Status::Unknown)
        } else if text == String::from_str("Pending") {
            Some(Status::Pending)
        } else if text == String::from_str("Init") {
            Some(Status::Init)
        } else if text == String::from_str("Ready") {
            Some(Status::Ready)
        } else if text == String::from_str("Panic") {
            Some(Status::Panic)
        } else if text == String::from_str("Fatal") {
            Some(Status::Fatal)
        } else {
            None
        }
    }

    /// Whether a particle in status `self` may take status `next`: a status
    /// never moves backwards, except between `Ready` and `Panic`.
    pub open spec fn spec_may_become(self, next: Status) -> bool {
        self.spec_rank() <= next.spec_rank()
    }

    #[verifier::when_used_as_spec(spec_may_become)]
    pub fn may_become(self, next: Status) -> (r: bool)
        ensures
            r == self.spec_may_become(next),
    {
        self.rank() <= next.rank()
    }
}

} // verus!
