//! Permissions, privileges and the access a principal has on a particle.

use vstd::prelude::*;
use vstd::string::StringExecFns;
use vstd::string::StrSliceExecFns;
use crate::point::{strings_view, clone_strings};

verus! {

/// What a principal may do: create, select and delete children of a
/// particle; read, write and execute the particle itself.
#[derive(Clone, Copy, Debug, PartialEq, Eq, Structural, Hash)]
pub struct Permissions {
    pub create: bool,
    pub select: bool,
    pub delete: bool,
    pub read: bool,
    pub write: bool,
    pub execute: bool,
}

impl Permissions {
    pub open spec fn spec_none() -> Permissions {
        Permissions {
            create: false,
            select: false,
            delete: false,
            read: false,
            write: false,
            execute: false,
        }
    }

    pub open spec fn spec_full() -> Permissions {
        Permissions {
            create: true,
            select: true,
            delete: true,
            read: true,
            write: true,
            execute: true,
        }
    }

    /// What either grants.
    pub open spec fn spec_or(self, other: Permissions) -> Permissions {
        Permissions {
            create: self.create || other.create,
            select: self.select || other.select,
            delete: self.delete || other.delete,
            read: self.read || other.read,
            write: self.write || other.write,
            execute: self.execute || other.execute,
        }
    }

    /// What both grant.
    pub open spec fn spec_and(self, other: Permissions) -> Permissions {
        Permissions {
            create: self.create && other.create,
            select: self.select && other.select,
            delete: self.delete && other.delete,
            read: self.read && other.read,
            write: self.write && other.write,
            execute: self.execute && other.execute,
        }
    }

    /// Everything `self` grants, `other` grants too.
    pub open spec fn within(self, other: Permissions) -> bool {
        &&& self.create ==> other.create
        &&& self.select ==> other.select
        &&& self.delete ==> other.delete
        &&& self.read ==> other.read
        &&& self.write ==> other.write
        &&& self.execute ==> other.execute
    }

    /// The seven characters that stand for the permissions: `csd-rwx`, a
    /// letter in upper case where the permission is granted.
    pub open spec fn text(self) -> Seq<char> {
        seq![
            if self.create { 'C' } else { 'c' },
            if self.select { 'S' } else { 's' },
            if self.delete { 'D' } else { 'd' },
            '-',
            if self.read { 'R' } else { 'r' },
            if self.write { 'W' } else { 'w' },
            if self.execute { 'X' } else { 'x' },
        ]
    }

    /// The permissions that seven characters stand for, if they are
    /// well formed.
    pub open spec fn parse_text(s: Seq<char>) -> Option<Permissions> {
        if s.len() == 7 && (s[0] == 'c' || s[0] == 'C') && (s[1] == 's' || s[1] == 'S') && (s[2]
            == 'd' || s[2] == 'D') && s[3] == '-' && (s[4] == 'r' || s[4] == 'R') && (s[5] == 'w'
            || s[5] == 'W') && (s[6] == 'x' || s[6] == 'X') {
            Some(
                Permissions {
                    create: s[0] == 'C',
                    select: s[1] == 'S',
                    delete: s[2] == 'D',
                    read: s[4] == 'R',
                    write: s[5] == 'W',
                    execute: s[6] == 'X',
                },
            )
        } else {
            None
        }
    }

    #[verifier::when_used_as_spec(spec_none)]
    pub fn none() -> (r: Permissions)
        ensures
            r == Permissions::spec_none(),
    {
        Permissions {
            create: false,
            select: false,
            delete: false,
            read: false,
            write: false,
            execute: false,
        }
    }

    #[verifier::when_used_as_spec(spec_full)]
    pub fn full() -> (r: Permissions)
        ensures
            r == Permissions::spec_full(),
    {
        Permissions {
            create: true,
            select: true,
            delete: true,
            read: true,
            write: true,
            execute: true,
        }
    }

    /// Adds what `other` grants.
    pub fn or(&mut self, other: &Permissions)
        ensures
            *final(self) == old(self).spec_or(*other),
    {
        self.create = self.create || other.create;
        self.select = self.select || other.select;
        self.delete = self.delete || other.delete;
        self.read = self.read || other.read;
        self.write = self.write || other.write;
        self.execute = self.execute || other.execute;
    }

    /// Keeps only what `other` grants too.
    pub fn and(&mut self, other: &Permissions)
        ensures
            *final(self) == old(self).spec_and(*other),
    {
        self.create = self.create && other.create;
        self.select = self.select && other.select;
        self.delete = self.delete && other.delete;
        self.read = self.read && other.read;
        self.write = self.write && other.write;
        self.execute = self.execute && other.execute;
    }

    /// The text of the permissions, such as `csd-RwX`.
    pub fn to_string(&self) -> (r: String)
        ensures
            r@ == self.text(),
    {
        let mut r = String::new();
        proof {
            reveal_strlit("C");
            reveal_strlit("c");
            reveal_strlit("S");
            reveal_strlit("s");
            reveal_strlit("D");
            reveal_strlit("d");
            reveal_strlit("-");
            reveal_strlit("R");
            reveal_strlit("r");
            reveal_strlit("W");
            reveal_strlit("w");
            reveal_strlit("X");
            reveal_strlit("x");
        }
        r.append(if self.create { "C" } else { "c" });
        r.append(if self.select { "S" } else { "s" });
        r.append(if self.delete { "D" } else { "d" });
        r.append("-");
        r.append(if self.read { "R" } else { "r" });
        r.append(if self.write { "W" } else { "w" });
        r.append(if self.execute { "X" } else { "x" });
        assert(r@ =~= self.text());
        r
    }

    /// Reads permissions from their text; `None` where the text is not
    /// seven characters `csd-rwx` in either case.
    pub fn from_str(s: &str) -> (r: Option<Permissions>)
        ensures
            r == Permissions::parse_text(s@),
    {
        if s.unicode_len() != 7 {
            return None;
        }
        let c0 = s.get_char(0);
        let c1 = s.get_char(1);
        let c2 = s.get_char(2);
        let c3 = s.get_char(3);
        let c4 = s.get_char(4);
        let c5 = s.get_char(5);
        let c6 = s.get_char(6);
        if (c0 == 'c' || c0 == 'C') && (c1 == 's' || c1 == 'S') && (c2 == 'd' || c2 == 'D') && c3
            == '-' && (c4 == 'r' || c4 == 'R') && (c5 == 'w' || c5 == 'W') && (c6 == 'x' || c6
            == 'X') {
            Some(
                Permissions {
                    create: c0 == 'C',
                    select: c1 == 'S',
                    delete: c2 == 'D',
                    read: c4 == 'R',
                    write: c5 == 'W',
                    execute: c6 == 'X',
                },
            )
        } else {
            None
        }
    }
}

/// Whether a mask widens (`Or`) or narrows (`And`) permissions.
#[derive(Clone, Copy, Debug, PartialEq, Eq, Structural, Hash)]
pub enum PermissionsMaskKind {
    Or,
    And,
}

/// Permissions together with the way they combine with what is already
/// granted.
#[derive(Clone, Copy, Debug, PartialEq, Eq, Structural, Hash)]
pub struct PermissionsMask {
    pub kind: PermissionsMaskKind,
    pub permissions: Permissions,
}

impl PermissionsMask {
    /// The mask that a text stands for: `+` or `&`, then the permissions.
    pub open spec fn parse_text(s: Seq<char>) -> Option<PermissionsMask> {
        if s.len() == 8 && (s[0] == '+' || s[0] == '&') {
            match Permissions::parse_text(s.subrange(1, 8)) {
                Some(permissions) => Some(
                    PermissionsMask {
                        kind: if s[0] == '+' {
                            PermissionsMaskKind::Or
                        } else {
                            PermissionsMaskKind::And
                        },
                        permissions,
                    },
                ),
                None => None,
            }
        } else {
            None
        }
    }

    /// The text of a mask.
    pub open spec fn text(self) -> Seq<char> {
        seq![if self.kind == PermissionsMaskKind::Or { '+' } else { '&' }]
            + self.permissions.text()
    }

    /// Reads a mask such as `+csd-RwX` or `&csd-rwX`.
    pub fn from_str(s: &str) -> (r: Option<PermissionsMask>)
        ensures
            r == PermissionsMask::parse_text(s@),
    {
        if s.unicode_len() != 8 {
            return None;
        }
        let k = s.get_char(0);
        if k != '+' && k != '&' {
            return None;
        }
        let rest = s.substring_char(1, 8);
        match Permissions::from_str(rest) {
            Some(permissions) => Some(
                PermissionsMask {
                    kind: if k == '+' {
                        PermissionsMaskKind::Or
                    } else {
                        PermissionsMaskKind::And
                    },
                    permissions,
                },
            ),
            None => None,
        }
    }

    /// The text of the mask, such as `+csd-RwX`.
    pub fn to_string(&self) -> (r: String)
        ensures
            r@ == self.text(),
    {
        proof {
            reveal_strlit("+");
            reveal_strlit("&");
        }
        let mut r = match self.kind {
            PermissionsMaskKind::Or => String::from_str("+"),
            PermissionsMaskKind::And => String::from_str("&"),
        };
        let p = self.permissions.to_string();
        r.append(p.as_str());
        assert(r@ =~= self.text());
        r
    }
}

/// A named right, or every right.
#[derive(Debug, PartialEq, Eq, Hash)]
pub enum Privilege {
    Full,
    Single(String),
}

pub enum PrivilegeView {
    Full,
    Single(Seq<char>),
}

impl View for Privilege {
    type V = PrivilegeView;

    open spec fn view(&self) -> PrivilegeView {
        match self {
            Privilege::Full => PrivilegeView::Full,
            Privilege::Single(s) => PrivilegeView::Single(s@),
        }
    }
}

impl Clone for Privilege {
    fn clone(&self) -> (r: Privilege)
        ensures
            r@ == self@,
    {
        match self {
            Privilege::Full => Privilege::Full,
            Privilege::Single(s) => Privilege::Single(s.clone()),
        }
    }
}

/// A set of named rights, or every right.
#[derive(Debug, PartialEq, Eq, Hash)]
pub enum Privileges {
    Full,
    Enumerated(Vec<String>),
}

/// The mathematical value of a set of privileges.
pub struct PrivilegesView {
    pub full: bool,
    pub names: Set<Seq<char>>,
}

impl PrivilegesView {
    /// Whether the right `name` is held.
    pub open spec fn has(self, name: Seq<char>) -> bool {
        self.full || self.names.contains(name)
    }

    /// Every right of `self` is one of `other`.
    pub open spec fn within(self, other: PrivilegesView) -> bool {
        forall|name: Seq<char>| self.has(name) ==> other.has(name)
    }

    /// The rights of `self` with `p` added. A full set names no rights.
    pub open spec fn with(self, p: PrivilegeView) -> PrivilegesView {
        match p {
            PrivilegeView::Full => PrivilegesView { full: true, names: Set::empty() },
            PrivilegeView::Single(name) => if self.full {
                self
            } else {
                PrivilegesView { full: false, names: self.names.insert(name) }
            },
        }
    }
}

/// The set of the strings in a sequence.
pub open spec fn name_set(names: Seq<Seq<char>>) -> Set<Seq<char>> {
    Set::new(|n: Seq<char>| names.contains(n))
}

impl View for Privileges {
    type V = PrivilegesView;

    open spec fn view(&self) -> PrivilegesView {
        match self {
            Privileges::Full => PrivilegesView { full: true, names: Set::empty() },
            Privileges::Enumerated(v) => PrivilegesView {
                full: false,
                names: name_set(strings_view(v@)),
            },
        }
    }
}

impl Clone for Privileges {
    fn clone(&self) -> (r: Privileges)
        ensures
            r@ == self@,
    {
        match self {
            Privileges::Full => Privileges::Full,
            Privileges::Enumerated(v) => Privileges::Enumerated(clone_strings(v)),
        }
    }
}

/// Whether `names` holds the text `name`.
pub fn contains_name(names: &Vec<String>, name: &str) -> (r: bool)
    ensures
        r == strings_view(names@).contains(name@),
{
    let wanted = String::from_str(name);
    let mut i: usize = 0;
    while i < names.len()
        invariant
            i <= names.len(),
            wanted@ == name@,
            forall|j: int| 0 <= j < i ==> names@[j]@ != name@,
        decreases names.len() - i,
    {
        if names[i] == wanted {
            assert(strings_view(names@)[i as int] == name@);
            return true;
        }
        i += 1;
    }
    assert(forall|j: int| 0 <= j < names@.len() ==> strings_view(names@)[j] != name@);
    false
}

impl Privileges {
    /// No right at all.
    pub fn none() -> (r: Privileges)
        ensures
            !r@.full,
            r@.names == Set::<Seq<char>>::empty(),
    {
        let r = Privileges::Enumerated(Vec::new());
        assert(r@.names =~= Set::<Seq<char>>::empty());
        r
    }

    /// Adds a privilege.
    pub fn insert(&mut self, privilege: &Privilege)
        ensures
            final(self)@ == old(self)@.with(privilege@),
    {
        match privilege {
            Privilege::Full => {
                *self = Privileges::Full;
            },
            Privilege::Single(name) => {
                match self {
                    Privileges::Full => {},
                    Privileges::Enumerated(v) => {
                        let ghost before = strings_view(v@);
                        v.push(name.clone());
                        proof {
                            let after = strings_view(v@);
                            assert(after =~= before.push(name@));
                            assert forall|n: Seq<char>| after.contains(n) == (before.contains(n)
                                || n == name@) by {
                                if before.contains(n) {
                                    let k = choose|k: int| 0 <= k < before.len() && before[k] == n;
                                    assert(after[k] == n);
                                }
                                if n == name@ {
                                    assert(after[before.len() as int] == n);
                                }
                            }
                            assert(name_set(after) =~= name_set(before).insert(name@));
                        }
                    },
                }
            },
        }
    }

    /// Whether the right `name` is held.
    pub fn has(&self, name: &str) -> (r: bool)
        ensures
            r == self@.has(name@),
    {
        match self {
            Privileges::Full => true,
            Privileges::Enumerated(v) => contains_name(v, name),
        }
    }
}

/// Permissions and privileges granted one by one.
#[derive(Debug, PartialEq, Eq, Hash)]
pub struct EnumeratedAccess {
    pub privileges: Privileges,
    pub permissions: Permissions,
}

/// What a principal may do with a particle.
#[derive(Debug, PartialEq, Eq, Hash)]
pub enum Access {
    /// Everything, by a grant of super access.
    Super,
    /// Everything, as the particle's owner.
    Owner,
    /// Everything, as both.
    SuperOwner,
    /// What was granted one by one.
    Enumerated(EnumeratedAccess),
}

pub enum AccessView {
    Super,
    Owner,
    SuperOwner,
    Enumerated { privileges: PrivilegesView, permissions: Permissions },
}

impl AccessView {
    pub open spec fn has_super(self) -> bool {
        self is Super || self is SuperOwner
    }

    pub open spec fn has_owner(self) -> bool {
        self is Owner || self is SuperOwner
    }

    pub open spec fn has_full(self) -> bool {
        self is Super || self is Owner || self is SuperOwner
    }

    pub open spec fn permissions(self) -> Permissions {
        match self {
            AccessView::Enumerated { permissions, .. } => permissions,
            _ => Permissions::spec_full(),
        }
    }

    pub open spec fn has_privilege(self, name: Seq<char>) -> bool {
        match self {
            AccessView::Enumerated { privileges, .. } => privileges.has(name),
            _ => true,
        }
    }

    /// Everything that `self` allows, `other` allows too; and super and
    /// owner standing are kept.
    pub open spec fn within(self, other: AccessView) -> bool {
        &&& self.has_super() ==> other.has_super()
        &&& self.has_owner() ==> other.has_owner()
        &&& self.permissions().within(other.permissions())
        &&& forall|name: Seq<char>| self.has_privilege(name) ==> other.has_privilege(name)
    }
}

impl View for Access {
    type V = AccessView;

    open spec fn view(&self) -> AccessView {
        match self {
            Access::Super => AccessView::Super,
            Access::Owner => AccessView::Owner,
            Access::SuperOwner => AccessView::SuperOwner,
            Access::Enumerated(e) => AccessView::Enumerated {
                privileges: e.privileges@,
                permissions: e.permissions,
            },
        }
    }
}

/// Why a privilege check failed.
#[derive(Debug, PartialEq, Eq)]
pub struct Unauthorized {
    /// The privilege that was asked for and is not held.
    pub privilege: String,
}

impl Access {
    pub fn has_super(&self) -> (r: bool)
        ensures
            r == self@.has_super(),
    {
        match self {
            Access::Super => true,
            Access::SuperOwner => true,
            _ => false,
        }
    }

    pub fn has_owner(&self) -> (r: bool)
        ensures
            r == self@.has_owner(),
    {
        match self {
            Access::Owner => true,
            Access::SuperOwner => true,
            _ => false,
        }
    }

    /// Super, owner or both.
    pub fn has_full(&self) -> (r: bool)
        ensures
            r == self@.has_full(),
    {
        match self {
            Access::Super => true,
            Access::Owner => true,
            Access::SuperOwner => true,
            Access::Enumerated(_) => false,
        }
    }

    /// The permissions that the access carries: all of them with full
    /// access, else those granted.
    pub fn permissions(&self) -> (r: Permissions)
        ensures
            r == self@.permissions(),
    {
        match self {
            Access::Enumerated(e) => e.permissions,
            _ => Permissions::full(),
        }
    }

    /// Succeeds where the access holds the privilege `name`.
    pub fn check_privilege(&self, name: &str) -> (r: Result<(), Unauthorized>)
        ensures
            r is Ok <==> self@.has_privilege(name@),
            r matches Err(e) ==> e.privilege@ == name@,
    {
        let held = match self {
            Access::Enumerated(e) => e.privileges.has(name),
            _ => true,
        };
        if held {
            Ok(())
        } else {
            Err(Unauthorized { privilege: String::from_str(name) })
        }
    }
}

} // verus!
