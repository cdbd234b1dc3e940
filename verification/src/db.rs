//! What a relational store of the registry is given: where the store is,
//! and the columns of a particle.

use vstd::prelude::*;
use vstd::string::StringExecFns;
use vstd::string::StrSliceExecFns;
use crate::kind::{opt_specific_view, BaseKind, Specific, SpecificView, Version};
use crate::point::{point_text, Point, PointView};
use crate::registry::{IndexedAccessGrant, Registration, RegistrationView};
use crate::text::{clone_opt, concat3, opt_view};

verus! {

/// What identifies a store: where it is, the user and the database.
#[derive(Debug, PartialEq, Eq, Hash)]
pub struct PostgresDbKey {
    pub url: String,
    pub user: String,
    pub database: String,
}

/// How a store is reached.
#[derive(Debug, PartialEq, Eq, Hash)]
pub struct PostgresDbInfo {
    pub url: String,
    pub user: String,
    pub password: String,
    pub database: String,
    pub schema: String,
}

pub struct DbInfoView {
    pub url: Seq<char>,
    pub user: Seq<char>,
    pub password: Seq<char>,
    pub database: Seq<char>,
    pub schema: Seq<char>,
}

impl View for PostgresDbInfo {
    type V = DbInfoView;

    open spec fn view(&self) -> DbInfoView {
        DbInfoView {
            url: self.url@,
            user: self.user@,
            password: self.password@,
            database: self.database@,
            schema: self.schema@,
        }
    }
}

impl DbInfoView {
    /// The address of the store: `postgres://`, the user, a colon, the
    /// password, an at sign, the place, a slash, the database.
    pub open spec fn uri(self) -> Seq<char> {
        "postgres://"@ + self.user + ":"@ + self.password + "@"@ + self.url + "/"@ + self.database
    }
}

impl PostgresDbInfo {
    /// The store in the schema `PUBLIC`.
    pub fn new(url: String, user: String, password: String, database: String) -> (r:
        PostgresDbInfo)
        ensures
            r@ == (DbInfoView {
                url: url@,
                user: user@,
                password: password@,
                database: database@,
                schema: "PUBLIC"@,
            }),
    {
        PostgresDbInfo::new_with_schema(url, user, password, database, String::from_str("PUBLIC"))
    }

    pub fn new_with_schema(
        url: String,
        user: String,
        password: String,
        database: String,
        schema: String,
    ) -> (r: PostgresDbInfo)
        ensures
            r@ == (DbInfoView {
                url: url@,
                user: user@,
                password: password@,
                database: database@,
                schema: schema@,
            }),
    {
        PostgresDbInfo { url, user, password, database, schema }
    }

    /// What identifies the store.
    pub fn to_key(&self) -> (r: PostgresDbKey)
        ensures
            r.url@ == self@.url,
            r.user@ == self@.user,
            r.database@ == self@.database,
    {
        PostgresDbKey {
            url: self.url.clone(),
            user: self.user.clone(),
            database: self.database.clone(),
        }
    }

    /// The address of the store.
    pub fn to_uri(&self) -> (r: String)
        ensures
            r@ == self@.uri(),
    {
        let mut r = String::from_str("postgres://");
        r.append(self.user.as_str());
        r.append(":");
        r.append(self.password.as_str());
        r.append("@");
        r.append(self.url.as_str());
        r.append("/");
        r.append(self.database.as_str());
        r
    }
}

/// Where the stores of a platform are.
pub trait PostgresPlatform {
    fn lookup_registry_db(&self) -> PostgresDbInfo;
}

/// A grant as a row of the store gives it.
#[derive(Debug)]
pub struct WrappedIndexedAccessGrant {
    pub grant: IndexedAccessGrant,
}

/// The text of an optional value in a statement: `null` where it is
/// absent, else the value between single quotes.
pub open spec fn opt_text(o: Option<Seq<char>>) -> Seq<char> {
    match o {
        None => "null"@,
        Some(v) => "'"@ + v + "'"@,
    }
}

/// The text of an optional value in a statement.
pub fn opt(o: &Option<String>) -> (r: String)
    ensures
        r@ == opt_text(opt_view(*o)),
{
    match o {
        None => String::from_str("null"),
        Some(v) => concat3("'", v.as_str(), "'"),
    }
}

/// The columns of a particle.
#[derive(Debug)]
pub struct RegistryParams {
    pub point: String,
    pub point_segment: String,
    pub base: String,
    pub sub: Option<String>,
    pub provider: Option<String>,
    pub vendor: Option<String>,
    pub product: Option<String>,
    pub variant: Option<String>,
    pub version: Option<String>,
    pub version_variant: Option<String>,
    pub parent: String,
    pub owner: Point,
}

pub struct RegistryParamsView {
    pub point: Seq<char>,
    pub point_segment: Seq<char>,
    pub base: Seq<char>,
    pub sub: Option<Seq<char>>,
    pub provider: Option<Seq<char>>,
    pub vendor: Option<Seq<char>>,
    pub product: Option<Seq<char>>,
    pub variant: Option<Seq<char>>,
    pub version: Option<Seq<char>>,
    pub version_variant: Option<Seq<char>>,
    pub parent: Seq<char>,
    pub owner: PointView,
}

impl View for RegistryParams {
    type V = RegistryParamsView;

    open spec fn view(&self) -> RegistryParamsView {
        RegistryParamsView {
            point: self.point@,
            point_segment: self.point_segment@,
            base: self.base@,
            sub: opt_view(self.sub),
            provider: opt_view(self.provider),
            vendor: opt_view(self.vendor),
            product: opt_view(self.product),
            variant: opt_view(self.variant),
            version: opt_view(self.version),
            version_variant: opt_view(self.version_variant),
            parent: self.parent@,
            owner: self.owner@,
        }
    }
}

/// The columns of the particle of a registration.
///
/// The segment is the last segment of the address and the parent the text
/// of its parent, each empty for the root. The base and the sub kind are
/// those of the kind. Where the kind has a specific, its provider, vendor,
/// product and variant are columns of their own, the version is told by
/// its three numbers, and its pre-release tag, where it has one, is the
/// version variant.
pub open spec fn params_of(reg: RegistrationView) -> RegistryParamsView {
    RegistryParamsView {
        point: point_text(reg.point),
        point_segment: if reg.point.segments.len() == 0 {
            Seq::empty()
        } else {
            reg.point.segments.last()
        },
        base: reg.kind.base.text(),
        sub: reg.kind.sub,
        provider: match reg.kind.specific {
            Some(s) => Some(s.provider),
            None => None,
        },
        vendor: match reg.kind.specific {
            Some(s) => Some(s.vendor),
            None => None,
        },
        product: match reg.kind.specific {
            Some(s) => Some(s.product),
            None => None,
        },
        variant: match reg.kind.specific {
            Some(s) => Some(s.variant),
            None => None,
        },
        version: match reg.kind.specific {
            Some(s) => Some(s.version.triple()),
            None => None,
        },
        version_variant: match reg.kind.specific {
            Some(s) => if s.version.pre.len() > 0 {
                Some(s.version.pre)
            } else {
                None
            },
            None => None,
        },
        parent: if reg.point.segments.len() == 0 {
            Seq::empty()
        } else {
            point_text(reg.point.parent())
        },
        owner: reg.owner,
    }
}

impl RegistryParams {
    /// The columns of the particle of a registration.
    pub fn from_registration(registration: &Registration) -> (r: RegistryParams)
        ensures
            r@ == params_of(registration@),
    {
        let point_segment = match registration.point.last_segment() {
            None => String::new(),
            Some(segment) => segment,
        };
        let parent = match registration.point.parent() {
            None => String::new(),
            Some(parent) => parent.to_string(),
        };
        let base = registration.kind.base.to_string();
        let sub = clone_opt(&registration.kind.sub);
        let provider = match &registration.kind.specific {
            None => None,
            Some(specific) => Some(specific.provider.clone()),
        };
        let vendor = match &registration.kind.specific {
            None => None,
            Some(specific) => Some(specific.vendor.clone()),
        };
        let product = match &registration.kind.specific {
            None => None,
            Some(specific) => Some(specific.product.clone()),
        };
        let variant = match &registration.kind.specific {
            None => None,
            Some(specific) => Some(specific.variant.clone()),
        };
        let version = match &registration.kind.specific {
            None => None,
            Some(specific) => Some(specific.version.triple()),
        };
        let version_variant = match &registration.kind.specific {
            None => None,
            Some(specific) => {
                if specific.version.pre.as_str().unicode_len() > 0 {
                    Some(specific.version.pre.clone())
                } else {
                    None
                }
            },
        };
        RegistryParams {
            point: registration.point.to_string(),
            point_segment,
            parent,
            base,
            sub,
            provider,
            vendor,
            product,
            variant,
            version,
            version_variant,
            owner: registration.owner.clone(),
        }
    }
}

/// What a grant gives, as two columns tell it: `super`; `priv` with the
/// name of the privilege (`*` for every privilege); `perm` with the text of
/// the mask. `None` where the columns tell no grant.
pub open spec fn grant_kind_of(kind: Seq<char>, data: Option<Seq<char>>) -> Option<
    crate::registry::GrantKindView,
> {
    if kind == "super"@ {
        Some(crate::registry::GrantKindView::Super)
    } else if kind == "priv"@ {
        match data {
            Some(name) => Some(
                crate::registry::GrantKindView::Privilege(
                    if name == "*"@ {
                        crate::security::PrivilegeView::Full
                    } else {
                        crate::security::PrivilegeView::Single(name)
                    },
                ),
            ),
            None => None,
        }
    } else if kind == "perm"@ {
        match data {
            Some(text) => match crate::security::PermissionsMask::parse_text(text) {
                Some(mask) => Some(crate::registry::GrantKindView::PermissionsMask(mask)),
                None => None,
            },
            None => None,
        }
    } else {
        None
    }
}

/// What a grant gives, as two columns tell it.
pub fn grant_kind_from_columns(kind: &str, data: &Option<String>) -> (r: Option<
    crate::registry::AccessGrantKind,
>)
    ensures
        match r {
            Some(k) => Some(k@) == grant_kind_of(kind@, opt_view(*data)),
            None => grant_kind_of(kind@, opt_view(*data)) is None,
        },
{
    let kind = String::from_str(kind);
    if kind == String::from_str("super") {
        Some(crate::registry::AccessGrantKind::Super)
    } else if kind == String::from_str("priv") {
        match data {
            Some(name) => {
                if *name == String::from_str("*") {
                    Some(
                        crate::registry::AccessGrantKind::Privilege(
                            crate::security::Privilege::Full,
                        ),
                    )
                } else {
                    Some(
                        crate::registry::AccessGrantKind::Privilege(
                            crate::security::Privilege::Single(name.clone()),
                        ),
                    )
                }
            },
            None => None,
        }
    } else if kind == String::from_str("perm") {
        match data {
            Some(text) => match crate::security::PermissionsMask::from_str(text.as_str()) {
                Some(mask) => Some(crate::registry::AccessGrantKind::PermissionsMask(mask)),
                None => None,
            },
            None => None,
        }
    } else {
        None
    }
}

/// The columns of a particle as a row of the store gives them.
#[derive(Debug)]
pub struct ParticleColumns {
    pub parent: String,
    pub point_segment: String,
    pub base: String,
    pub sub: Option<String>,
    pub provider: Option<String>,
    pub vendor: Option<String>,
    pub product: Option<String>,
    pub variant: Option<String>,
    pub version: Option<String>,
    pub version_variant: Option<String>,
    pub star: Option<String>,
    pub host: Option<String>,
    pub status: String,
}

/// Why a row is no particle.
#[derive(Clone, Copy, Debug, PartialEq, Eq, Structural, Hash)]
pub enum ColumnError {
    /// The parent and the segment make no address.
    Point,
    /// The base is no base kind.
    Base,
    /// The version is no version.
    Version,
    /// The star or the host is no address.
    Location,
    /// The status is no status.
    Status,
}

/// Whether a text is the text of a local address below the root.
pub open spec fn readable(text: Seq<char>) -> bool {
    exists|segments: Seq<Seq<char>>|
        segments.len() > 0 && (forall|i: int|
            0 <= i < segments.len() ==> crate::point::is_segment(#[trigger] segments[i]))
            && #[trigger] crate::text::join(segments, ":"@) == text
}

/// The text of the address of a row: the segment below the parent; the
/// parent alone stands for the root where the segment is empty.
pub open spec fn row_point_text(parent: Seq<char>, segment: Seq<char>) -> Seq<char> {
    if parent.len() == 0 || parent == "ROOT"@ {
        segment
    } else {
        parent + ":"@ + segment
    }
}

/// The text of the version of a row: the version, a hyphen and the
/// version variant, where there is one.
pub open spec fn row_version_text(version: Seq<char>, variant: Option<Seq<char>>) -> Seq<char> {
    match variant {
        Some(v) => version + "-"@ + v,
        None => version,
    }
}

/// The columns of a particle as values.
pub struct ParticleColumnsView {
    pub parent: Seq<char>,
    pub point_segment: Seq<char>,
    pub base: Seq<char>,
    pub sub: Option<Seq<char>>,
    pub provider: Option<Seq<char>>,
    pub vendor: Option<Seq<char>>,
    pub product: Option<Seq<char>>,
    pub variant: Option<Seq<char>>,
    pub version: Option<Seq<char>>,
    pub version_variant: Option<Seq<char>>,
    pub star: Option<Seq<char>>,
    pub host: Option<Seq<char>>,
    pub status: Seq<char>,
}

impl View for ParticleColumns {
    type V = ParticleColumnsView;

    open spec fn view(&self) -> ParticleColumnsView {
        ParticleColumnsView {
            parent: self.parent@,
            point_segment: self.point_segment@,
            base: self.base@,
            sub: opt_view(self.sub),
            provider: opt_view(self.provider),
            vendor: opt_view(self.vendor),
            product: opt_view(self.product),
            variant: opt_view(self.variant),
            version: opt_view(self.version),
            version_variant: opt_view(self.version_variant),
            star: opt_view(self.star),
            host: opt_view(self.host),
            status: self.status@,
        }
    }
}

/// Whether a row names a specific: it has all five of its columns.
pub open spec fn has_specific(c: ParticleColumnsView) -> bool {
    c.provider is Some && c.vendor is Some && c.product is Some && c.variant is Some
        && c.version is Some
}

/// Why a row is no particle: the first of its columns, in the order
/// address, base, version, star, host, status, that cannot be read. `None`
/// where every column can.
pub open spec fn column_error(c: ParticleColumnsView) -> Option<ColumnError> {
    let text = row_point_text(c.parent, c.point_segment);
    if text.len() > 0 && !readable(text) {
        Some(ColumnError::Point)
    } else if BaseKind::parse_text(c.base) is None {
        Some(ColumnError::Base)
    } else if has_specific(c) && crate::frame::semver_parse(
        row_version_text(c.version->Some_0, c.version_variant),
    ) is None {
        Some(ColumnError::Version)
    } else if c.star matches Some(t) && !readable(t) {
        Some(ColumnError::Location)
    } else if c.host matches Some(t) && !readable(t) {
        Some(ColumnError::Location)
    } else if crate::kind::Status::parse_text(c.status) is None {
        Some(ColumnError::Status)
    } else {
        None
    }
}

/// An address from a text. `None` where the text is the text of no
/// address below the root.
fn read_point(text: &str) -> (r: Option<Point>)
    ensures
        r is Some <==> readable(text@),
        r matches Some(p) ==> p@.route == crate::point::Route::Local && crate::text::join(
            p@.segments,
            ":"@,
        ) == text@ && p@.segments.len() > 0,
{
    Point::from_str(text)
}

/// An optional address from an optional text.
fn read_opt_point(text: &Option<String>) -> (r: Result<Option<Point>, ColumnError>)
    ensures
        match *text {
            None => r == Ok::<Option<Point>, ColumnError>(None),
            Some(t) => if readable(t@) {
                r matches Ok(Some(p)) && crate::text::join(p@.segments, ":"@) == t@
                    && p@.route == crate::point::Route::Local
            } else {
                r == Err::<Option<Point>, ColumnError>(ColumnError::Location)
            },
        },
{
    match text {
        None => Ok(None),
        Some(t) => match read_point(t.as_str()) {
            Some(p) => Ok(Some(p)),
            None => Err(ColumnError::Location),
        },
    }
}

/// The specific of a row from its four names and what its version text
/// read as. Fails where the text was no version.
pub fn specific_from_columns(
    provider: &String,
    vendor: &String,
    product: &String,
    variant: &String,
    version: Option<Version>,
) -> (r: Result<Specific, ColumnError>)
    ensures
        match version {
            Some(v) => r matches Ok(s) && s@ == (crate::kind::SpecificView {
                provider: provider@,
                vendor: vendor@,
                product: product@,
                variant: variant@,
                version: v@,
            }),
            None => r == Err::<Specific, ColumnError>(ColumnError::Version),
        },
{
    match version {
        Some(version) => Ok(
            Specific {
                provider: provider.clone(),
                vendor: vendor.clone(),
                product: product.clone(),
                variant: variant.clone(),
                version,
            },
        ),
        None => Err(ColumnError::Version),
    }
}

/// The record of the particle of a row.
///
/// The address is the segment below the parent. The kind has the base and
/// the sub kind of the row, and a specific where the row has a provider, a
/// vendor, a product, a variant and a version. The record has no
/// properties. Fails with the first of: an address that cannot be read, a
/// base that is no base kind, a version that is no version, a star or host
/// that is no address, a status that is no status.
pub fn record_from_columns(c: &ParticleColumns) -> (r: Result<
    crate::particle::ParticleRecord,
    ColumnError,
>)
    ensures
        r matches Ok(record) ==> {
            &&& (if row_point_text(c.parent@, c.point_segment@).len() == 0 {
                record@.stub.point.segments.len() == 0
            } else {
                crate::text::join(record@.stub.point.segments, ":"@) == row_point_text(
                    c.parent@,
                    c.point_segment@,
                )
            })
            &&& Some(record@.stub.kind.base) == BaseKind::parse_text(c.base@)
            &&& record@.stub.kind.sub == opt_view(c.sub)
            &&& Some(record@.stub.status) == crate::kind::Status::parse_text(c.status@)
            &&& record@.properties.len() == 0
            &&& record@.stub.point.route == crate::point::Route::Local
            &&& record@.location.star is Some <==> c.star is Some
            &&& record@.location.star matches Some(p) ==> p.route == crate::point::Route::Local
                && crate::text::join(p.segments, ":"@) == c.star->Some_0@
            &&& record@.location.host is Some <==> c.host is Some
            &&& record@.location.host matches Some(p) ==> p.route == crate::point::Route::Local
                && crate::text::join(p.segments, ":"@) == c.host->Some_0@
            &&& record@.stub.kind.specific is Some <==> (c.provider is Some && c.vendor is Some
                && c.product is Some && c.variant is Some && c.version is Some)
            &&& record@.stub.kind.specific matches Some(s) ==> s.provider == c.provider->Some_0@
                && s.vendor == c.vendor->Some_0@ && s.product == c.product->Some_0@ && s.variant
                == c.variant->Some_0@ && Some(s.version) == crate::frame::semver_parse(
                row_version_text(c.version->Some_0@, opt_view(c.version_variant)),
            )
        },
        match r {
            Ok(_) => column_error(c@) is None,
            Err(e) => column_error(c@) == Some(e),
        },
{
    let at_root = c.parent.as_str().unicode_len() == 0 || c.parent == String::from_str("ROOT");
    let text = if at_root {
        c.point_segment.clone()
    } else {
        concat3(c.parent.as_str(), ":", c.point_segment.as_str())
    };
    let point = if text.as_str().unicode_len() == 0 {
        let root = Point::root();
        assert(root@.segments.len() == 0);
        root
    } else {
        match read_point(text.as_str()) {
            Some(p) => p,
            None => {
                return Err(ColumnError::Point);
            },
        }
    };
    let base = match BaseKind::from_str(c.base.as_str()) {
        Some(base) => base,
        None => {
            return Err(ColumnError::Base);
        },
    };
    let specific = match (&c.provider, &c.vendor, &c.product, &c.variant, &c.version) {
        (Some(provider), Some(vendor), Some(product), Some(variant), Some(version)) => {
            let text = match &c.version_variant {
                Some(v) => concat3(version.as_str(), "-", v.as_str()),
                None => version.clone(),
            };
            let version = crate::frame::parse_version(text.as_str());
            match specific_from_columns(provider, vendor, product, variant, version) {
                Ok(specific) => Some(specific),
                Err(e) => {
                    return Err(e);
                },
            }
        },
        _ => None,
    };
    let star = match read_opt_point(&c.star) {
        Ok(star) => star,
        Err(e) => {
            return Err(e);
        },
    };
    let host = match read_opt_point(&c.host) {
        Ok(host) => host,
        Err(e) => {
            return Err(e);
        },
    };
    let status = match crate::kind::Status::from_str(c.status.as_str()) {
        Some(status) => status,
        None => {
            return Err(ColumnError::Status);
        },
    };
    let record = crate::particle::ParticleRecord {
        details: crate::particle::Details {
            stub: crate::particle::Stub {
                point,
                kind: crate::kind::Kind { base, sub: clone_opt(&c.sub), specific },
                status,
            },
            properties: Vec::new(),
        },
        location: crate::particle::ParticleLocation { star, host },
    };
    Ok(record)
}

} // verus!
