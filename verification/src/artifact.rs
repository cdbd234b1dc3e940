//! Artifacts: their names, their bundles, and references to them.

use vstd::prelude::*;
use vstd::string::StringExecFns;
use vstd::string::StrSliceExecFns;
use crate::error::Error;
use crate::point::{strings_view, Point, PointView};
use crate::text::{concat3, join};

verus! {

/// The kinds of artifacts that configure a domain.
#[derive(Clone, Copy, Debug, PartialEq, Eq, Structural, Hash)]
pub enum ArtifactKind {
    DomainConfig,
}

impl ArtifactKind {
    pub fn to_string(&self) -> (r: String)
        ensures
            r@ == "DomainConfig"@,
    {
        String::from_str("DomainConfig")
    }

    /// The kind with the name. Fails for any name but `DomainConfig`.
    pub fn from_str(s: &str) -> (r: Result<ArtifactKind, Error>)
        ensures
            r is Ok <==> s@ == "DomainConfig"@,
    {
        if String::from_str(s) == String::from_str("DomainConfig") {
            Ok(ArtifactKind::DomainConfig)
        } else {
            Err(Error::new("could not find ArtifactKind"))
        }
    }
}

/// The key of a sub space.
#[derive(Clone, Copy, Debug, PartialEq, Eq, Structural, Hash)]
pub struct SubSpaceKey {
    pub space: u32,
    pub id: u32,
}

/// The key of a bundle of artifacts.
#[derive(Clone, Copy, Debug, PartialEq, Eq, Structural, Hash)]
pub struct ArtifactBundleKey {
    pub sub_space: SubSpaceKey,
    pub id: u64,
}

impl ArtifactBundleKey {
    pub fn new(sub_space: SubSpaceKey, id: u64) -> (r: ArtifactBundleKey)
        ensures
            r == (ArtifactBundleKey { sub_space, id }),
    {
        ArtifactBundleKey { sub_space, id }
    }
}

/// The key of an artifact.
#[derive(Clone, Copy, Debug, PartialEq, Eq, Structural, Hash)]
pub struct ArtifactKey {
    pub bundle: ArtifactBundleKey,
    pub id: u32,
}

impl ArtifactKey {
    pub fn new(bundle: ArtifactBundleKey, id: u32) -> (r: ArtifactKey)
        ensures
            r == (ArtifactKey { bundle, id }),
    {
        ArtifactKey { bundle, id }
    }
}

/// The key of a name.
#[derive(Clone, Copy, Debug, PartialEq, Eq, Structural, Hash)]
pub struct NameKey {
    pub sub_space: SubSpaceKey,
    pub id: u64,
}

/// The place of the last colon of a text, or -1 where it has none.
pub open spec fn last_colon(s: Seq<char>) -> int
    decreases s.len(),
{
    if s.len() == 0 {
        -1
    } else if s.last() == ':' {
        s.len() - 1
    } else {
        last_colon(s.drop_last())
    }
}

/// The pieces of a text between its colons, in order. A text without a
/// colon is one piece.
pub open spec fn pieces(s: Seq<char>) -> Seq<Seq<char>>
    decreases s.len(),
{
    let c = last_colon(s);
    if 0 <= c < s.len() {
        pieces(s.subrange(0, c)).push(s.subrange(c + 1, s.len() as int))
    } else {
        seq![s]
    }
}

/// A colon stands at the place of the last colon, and none behind it.
pub proof fn lemma_last_colon(s: Seq<char>)
    ensures
        -1 <= last_colon(s) < s.len(),
        last_colon(s) >= 0 ==> s[last_colon(s)] == ':',
        forall|k: int| last_colon(s) < k < s.len() ==> s[k] != ':',
    decreases s.len(),
{
    if s.len() > 0 && s.last() != ':' {
        let front = s.drop_last();
        lemma_last_colon(front);
        assert forall|k: int| last_colon(s) < k < s.len() implies s[k] != ':' by {
            if k < front.len() {
                assert(front[k] == s[k]);
            }
        }
        if last_colon(s) >= 0 {
            assert(front[last_colon(s)] == s[last_colon(s)]);
        }
    }
}

/// The last colon stands at `c` where a colon stands there and none
/// behind it; a text without a colon has its last colon at -1.
pub proof fn lemma_last_colon_at(s: Seq<char>, c: int)
    requires
        -1 <= c < s.len(),
        c >= 0 ==> s[c] == ':',
        forall|k: int| c < k < s.len() ==> s[k] != ':',
    ensures
        last_colon(s) == c,
{
    lemma_last_colon(s);
}

/// Parts without a colon that are put together with colons come apart
/// into the same parts.
pub proof fn law_pieces_of_join(v: Seq<Seq<char>>)
    requires
        v.len() > 0,
        forall|i: int| 0 <= i < v.len() ==> !(#[trigger] v[i]).contains(':'),
    ensures
        pieces(join(v, seq![':'])) == v,
    decreases v.len(),
{
    let sep = seq![':'];
    let s = join(v, sep);
    lemma_last_colon(s);
    let c = last_colon(s);
    if v.len() == 1 {
        assert(s == v[0]);
        assert(!v[0].contains(':'));
        if c >= 0 {
            assert(s.contains(':'));
        }
        assert(pieces(s) =~= v);
    } else {
        let front = v.drop_last();
        let x = join(front, sep);
        let y = v.last();
        assert(s == x + sep + y);
        assert(!v[v.len() - 1].contains(':'));
        assert(s[x.len() as int] == ':');
        if c > x.len() {
            assert(y[c - x.len() - 1] == s[c]);
            assert(y.contains(':'));
        }
        assert(c == x.len());
        assert(s.subrange(0, c) =~= x);
        assert(s.subrange(c + 1, s.len() as int) =~= y);
        assert forall|i: int| 0 <= i < front.len() implies !(#[trigger] front[i]).contains(
            ':',
        ) by {
            assert(front[i] == v[i]);
        }
        law_pieces_of_join(front);
        assert(pieces(s) =~= v);
    }
}

/// A text has at least one piece, no piece holds a colon, and the pieces
/// put together with colons are the text.
pub proof fn law_join_of_pieces(s: Seq<char>)
    ensures
        pieces(s).len() > 0,
        forall|i: int| 0 <= i < pieces(s).len() ==> !(#[trigger] pieces(s)[i]).contains(':'),
        join(pieces(s), seq![':']) == s,
    decreases s.len(),
{
    let sep = seq![':'];
    lemma_last_colon(s);
    let c = last_colon(s);
    if 0 <= c < s.len() {
        let front = s.subrange(0, c);
        let y = s.subrange(c + 1, s.len() as int);
        let done = pieces(front);
        assert(pieces(s) == done.push(y));
        law_join_of_pieces(front);
        assert(!y.contains(':')) by {
            if y.contains(':') {
                let k = choose|k: int| 0 <= k < y.len() && y[k] == ':';
                assert(s[c + 1 + k] == ':');
            }
        }
        assert forall|i: int| 0 <= i < pieces(s).len() implies !(#[trigger] pieces(s)[i]).contains(
            ':',
        ) by {
            if i < done.len() {
                assert(pieces(s)[i] == done[i]);
            } else {
                assert(pieces(s)[i] == y);
            }
        }
        assert(pieces(s).drop_last() =~= done);
        assert(pieces(s).last() == y);
        assert(join(pieces(s), sep) == join(done, sep) + sep + y);
        assert(front + sep + y =~= s);
    } else {
        assert(pieces(s) == seq![s]);
        assert(pieces(s)[0] == s);
        assert(!s.contains(':')) by {
            if s.contains(':') {
                let k = choose|k: int| 0 <= k < s.len() && s[k] == ':';
                assert(s[k] != ':');
            }
        }
    }
}

/// A text with one colon is its two pieces with a colon between them: the
/// name of a space reads back from its text.
pub proof fn law_two_pieces(s: Seq<char>)
    requires
        pieces(s).len() == 2,
    ensures
        pieces(s)[0] + seq![':'] + pieces(s)[1] == s,
{
    law_join_of_pieces(s);
    let p = pieces(s);
    assert(p.drop_last().len() == 1);
    assert(join(p.drop_last(), seq![':']) == p.drop_last()[0]);
    assert(p.drop_last()[0] == p[0]);
    assert(p.last() == p[1]);
}

/// The pieces of a text between its colons, in order. A piece may be
/// empty; the empty text is one empty piece.
pub fn parts(s: &str) -> (r: Vec<String>)
    ensures
        strings_view(r@) == pieces(s@),
        r@.len() > 0,
{
    let n = s.unicode_len();
    let mut done: Vec<String> = Vec::new();
    let mut start: usize = 0;
    let mut i: usize = 0;
    while i < n
        invariant
            start <= i <= n,
            n == s@.len(),
            forall|k: int| start <= k < i ==> s@[k] != ':',
            start == 0 ==> done@.len() == 0,
            start > 0 ==> s@[start - 1] == ':' && strings_view(done@) == pieces(
                s@.subrange(0, start - 1),
            ),
        decreases n - i,
    {
        if s.get_char(i) == ':' {
            let piece = String::from_str(s.substring_char(start, i));
            let ghost before = strings_view(done@);
            let ghost t = s@.subrange(0, i as int);
            proof {
                lemma_last_colon_at(t, start as int - 1);
                assert(t.subrange(start as int, t.len() as int) =~= s@.subrange(
                    start as int,
                    i as int,
                ));
                if start > 0 {
                    assert(t.subrange(0, start as int - 1) =~= s@.subrange(0, start as int - 1));
                    assert(pieces(t) == before.push(piece@));
                } else {
                    assert(piece@ =~= t);
                    assert(pieces(t) == seq![t]);
                    assert(before =~= Seq::<Seq<char>>::empty());
                    assert(before.push(piece@) =~= seq![t]);
                }
            }
            done.push(piece);
            proof {
                assert(strings_view(done@) =~= before.push(piece@));
            }
            start = i + 1;
        }
        i += 1;
    }
    let piece = String::from_str(s.substring_char(start, n));
    let ghost before = strings_view(done@);
    proof {
        lemma_last_colon_at(s@, start as int - 1);
        if start > 0 {
            assert(pieces(s@) == before.push(piece@));
        } else {
            assert(piece@ =~= s@);
            assert(pieces(s@) == seq![s@]);
            assert(before =~= Seq::<Seq<char>>::empty());
            assert(before.push(piece@) =~= seq![s@]);
        }
    }
    done.push(piece);
    proof {
        assert(strings_view(done@) =~= before.push(piece@));
    }
    done
}

/// The parts from the place `from` on.
pub fn rest_of(v: &Vec<String>, from: usize) -> (r: Vec<String>)
    requires
        from <= v@.len(),
    ensures
        strings_view(r@) == strings_view(v@).subrange(from as int, v@.len() as int),
{
    let mut r: Vec<String> = Vec::new();
    let mut i: usize = from;
    while i < v.len()
        invariant
            from <= i <= v.len(),
            r@.len() == i - from,
            forall|j: int| 0 <= j < r@.len() ==> r@[j]@ == v@[from + j]@,
        decreases v.len() - i,
    {
        r.push(v[i].clone());
        i += 1;
    }
    assert(strings_view(r@) =~= strings_view(v@).subrange(from as int, v@.len() as int));
    r
}

/// The name of a domain.
#[derive(Debug, PartialEq, Eq, Hash)]
pub struct DomainName {
    pub domain: String,
}

impl DomainName {
    /// The name that a text begins with, and the pieces that follow it:
    /// the name is the text up to its first colon. This never fails.
    pub fn more(string: &str) -> (r: Result<(DomainName, Vec<String>), Error>)
        ensures
            r matches Ok(pair) && pair.0.domain@ == pieces(string@)[0] && strings_view(pair.1@)
                == pieces(string@).subrange(1, pieces(string@).len() as int),
    {
        let v = parts(string);
        let rest = rest_of(&v, 1);
        let name = DomainName { domain: v[0].clone() };
        assert(name.domain@ == strings_view(v@)[0]);
        Ok((name, rest))
    }

    /// The name that a text begins with. This never fails.
    pub fn from(string: &str) -> (r: Result<DomainName, Error>)
        ensures
            r matches Ok(name) && name.domain@ == pieces(string@)[0],
    {
        match DomainName::more(string) {
            Ok(pair) => Ok(pair.0),
            Err(e) => Err(e),
        }
    }

    /// The text of the name.
    pub fn to(&self) -> (r: String)
        ensures
            r@ == self.domain@,
    {
        self.domain.clone()
    }
}

/// The name of a space: a domain and a space in it.
#[derive(Debug, PartialEq, Eq, Hash)]
pub struct SpaceName {
    pub hyper: DomainName,
    pub space: String,
}

impl SpaceName {
    /// The name that a text begins with, and the pieces that follow it.
    /// Fails with `space` where the text has no colon.
    pub fn more(string: &str) -> (r: Result<(SpaceName, Vec<String>), Error>)
        ensures
            if pieces(string@).len() >= 2 {
                r matches Ok(pair) && pair.0.hyper.domain@ == pieces(string@)[0] && pair.0.space@
                    == pieces(string@)[1] && strings_view(pair.1@) == pieces(string@).subrange(
                    2,
                    pieces(string@).len() as int,
                )
            } else {
                r matches Err(e) && e@ == "space"@
            },
    {
        let v = parts(string);
        if v.len() < 2 {
            return Err(Error::new("space"));
        }
        let rest = rest_of(&v, 2);
        let name = SpaceName { hyper: DomainName { domain: v[0].clone() }, space: v[1].clone() };
        assert(name.hyper.domain@ == strings_view(v@)[0]);
        assert(name.space@ == strings_view(v@)[1]);
        Ok((name, rest))
    }

    /// The name that a text begins with. Fails as `more` does.
    pub fn from(string: &str) -> (r: Result<SpaceName, Error>)
        ensures
            if pieces(string@).len() >= 2 {
                r matches Ok(name) && name.hyper.domain@ == pieces(string@)[0] && name.space@
                    == pieces(string@)[1]
            } else {
                r matches Err(e) && e@ == "space"@
            },
    {
        match SpaceName::more(string) {
            Ok(pair) => Ok(pair.0),
            Err(e) => Err(e),
        }
    }

    /// The text of the name: the domain, a colon, the space.
    pub fn to(&self) -> (r: String)
        ensures
            r@ == self.hyper.domain@ + ":"@ + self.space@,
    {
        concat3(self.hyper.domain.as_str(), ":", self.space.as_str())
    }
}

/// The name of a sub space: a space and a sub space in it.
#[derive(Debug, PartialEq, Eq, Hash)]
pub struct SubSpaceName {
    pub space: SpaceName,
    pub sub_space: String,
}

impl SubSpaceName {
    /// The name that a text begins with, and the pieces that follow it.
    /// Fails with `space` where the text has no colon, and with
    /// `sub_space` where it has one.
    pub fn more(string: &str) -> (r: Result<(SubSpaceName, Vec<String>), Error>)
        ensures
            if pieces(string@).len() >= 3 {
                r matches Ok(pair) && pair.0.space.hyper.domain@ == pieces(string@)[0]
                    && pair.0.space.space@ == pieces(string@)[1] && pair.0.sub_space@ == pieces(
                    string@,
                )[2] && strings_view(pair.1@) == pieces(string@).subrange(
                    3,
                    pieces(string@).len() as int,
                )
            } else if pieces(string@).len() == 2 {
                r matches Err(e) && e@ == "sub_space"@
            } else {
                r matches Err(e) && e@ == "space"@
            },
    {
        let v = parts(string);
        if v.len() < 2 {
            return Err(Error::new("space"));
        }
        if v.len() < 3 {
            return Err(Error::new("sub_space"));
        }
        let rest = rest_of(&v, 3);
        let name = SubSpaceName {
            space: SpaceName { hyper: DomainName { domain: v[0].clone() }, space: v[1].clone() },
            sub_space: v[2].clone(),
        };
        assert(name.space.hyper.domain@ == strings_view(v@)[0]);
        assert(name.space.space@ == strings_view(v@)[1]);
        assert(name.sub_space@ == strings_view(v@)[2]);
        Ok((name, rest))
    }

    /// The name that a text begins with. Fails as `more` does.
    pub fn from(string: &str) -> (r: Result<SubSpaceName, Error>)
        ensures
            if pieces(string@).len() >= 3 {
                r matches Ok(name) && name.space.hyper.domain@ == pieces(string@)[0]
                    && name.space.space@ == pieces(string@)[1] && name.sub_space@ == pieces(
                    string@,
                )[2]
            } else if pieces(string@).len() == 2 {
                r matches Err(e) && e@ == "sub_space"@
            } else {
                r matches Err(e) && e@ == "space"@
            },
    {
        match SubSpaceName::more(string) {
            Ok(pair) => Ok(pair.0),
            Err(e) => Err(e),
        }
    }

    /// The text of the name: the domain, the space and the sub space with
    /// colons between them.
    pub fn to(&self) -> (r: String)
        ensures
            r@ == self.space.hyper.domain@ + ":"@ + self.space.space@ + ":"@ + self.sub_space@,
    {
        let mut r = self.space.to();
        r.append(":");
        r.append(self.sub_space.as_str());
        r
    }
}

/// A bundle of artifacts: where it lives, its name and its version.
#[derive(Debug, PartialEq, Eq, Hash)]
pub struct ArtifactBundle {
    pub domain: String,
    pub space: String,
    pub sub_space: String,
    pub bundle: String,
    pub version: String,
}

impl ArtifactBundle {
    /// The five parts of the bundle, in order.
    pub open spec fn fields(&self) -> Seq<Seq<char>> {
        seq![self.domain@, self.space@, self.sub_space@, self.bundle@, self.version@]
    }

    /// The field that a text with `n` parts lacks first, where it has
    /// fewer than five.
    pub open spec fn missing(n: nat) -> Seq<char> {
        if n <= 1 {
            "space"@
        } else if n == 2 {
            "sub_space"@
        } else if n == 3 {
            "bundle"@
        } else {
            "version"@
        }
    }

    /// The bundle that a text begins with, and the pieces that follow it.
    /// Fails with the name of the first field that is missing where the
    /// text has fewer than five pieces.
    pub fn more(string: &str) -> (r: Result<(ArtifactBundle, Vec<String>), Error>)
        ensures
            if pieces(string@).len() >= 5 {
                r matches Ok(pair) && pair.0.fields() == pieces(string@).subrange(0, 5)
                    && strings_view(pair.1@) == pieces(string@).subrange(
                    5,
                    pieces(string@).len() as int,
                )
            } else {
                r matches Err(e) && e@ == ArtifactBundle::missing(pieces(string@).len())
            },
    {
        let v = parts(string);
        if v.len() < 2 {
            return Err(Error::new("space"));
        }
        if v.len() < 3 {
            return Err(Error::new("sub_space"));
        }
        if v.len() < 4 {
            return Err(Error::new("bundle"));
        }
        if v.len() < 5 {
            return Err(Error::new("version"));
        }
        let rest = rest_of(&v, 5);
        let bundle = ArtifactBundle {
            domain: v[0].clone(),
            space: v[1].clone(),
            sub_space: v[2].clone(),
            bundle: v[3].clone(),
            version: v[4].clone(),
        };
        assert(bundle.fields() =~= strings_view(v@).subrange(0, 5));
        Ok((bundle, rest))
    }

    /// The text of the bundle: its five parts with colons between them.
    pub fn to_string(&self) -> (r: String)
        ensures
            r@ == self.domain@ + ":"@ + self.space@ + ":"@ + self.sub_space@ + ":"@ + self.bundle@
                + ":"@ + self.version@,
    {
        let mut r = self.domain.clone();
        r.append(":");
        r.append(self.space.as_str());
        r.append(":");
        r.append(self.sub_space.as_str());
        r.append(":");
        r.append(self.bundle.as_str());
        r.append(":");
        r.append(self.version.as_str());
        r
    }
}

/// An artifact in a bundle.
#[derive(Debug, PartialEq, Eq, Hash)]
pub struct ArtifactLocation {
    pub bundle: ArtifactBundle,
    pub path: String,
}

/// The address of a bundle of artifacts: it ends with the name of the
/// bundle and its version.
#[derive(Debug, PartialEq, Eq, Hash)]
pub struct ArtifactBundleAddress {
    address: Point,
}

impl View for ArtifactBundleAddress {
    type V = PointView;

    closed spec fn view(&self) -> PointView {
        self.address@
    }
}

impl ArtifactBundleAddress {
    /// The address has a name and a version.
    pub closed spec fn wf(&self) -> bool {
        self.address@.segments.len() >= 2
    }

    pub proof fn lemma_wf(&self)
        requires
            self.wf(),
        ensures
            self@.segments.len() >= 2,
    {
    }

    /// The address of a bundle. Fails where the address has no room for a
    /// name and a version.
    pub fn try_from(address: Point) -> (r: Result<ArtifactBundleAddress, Error>)
        ensures
            r is Ok <==> address@.segments.len() >= 2,
            r matches Ok(a) ==> a.wf() && a@ == address@,
    {
        if address.depth() < 2 {
            return Err(Error::new("ArtifactBundle: expected version to have parent 'name'"));
        }
        Ok(ArtifactBundleAddress { address })
    }

    /// The name of the bundle: the segment before the version.
    pub fn name(&self) -> (r: String)
        requires
            self.wf(),
        ensures
            r@ == self@.segments[self@.segments.len() - 2],
    {
        self.address.segments[self.address.segments.len() - 2].clone()
    }

    /// The address of the sub space of the bundle: the address without
    /// the name and the version.
    pub fn sub_space(&self) -> (r: Point)
        requires
            self.wf(),
        ensures
            r@ == self@.truncate(self@.segments.len() - 2),
    {
        self.address.truncate(self.address.depth() - 2)
    }

    pub fn to_point(&self) -> (r: Point)
        ensures
            r@ == self@,
    {
        self.address.clone()
    }
}

/// The address of an artifact: the address of its bundle and its path in
/// the bundle.
#[derive(Debug, PartialEq, Eq, Hash)]
pub struct ArtifactAddress {
    address: Point,
}

impl View for ArtifactAddress {
    type V = PointView;

    closed spec fn view(&self) -> PointView {
        self.address@
    }
}

/// Whether a segment is a path: it begins with a slash.
pub open spec fn is_path(s: Seq<char>) -> bool {
    s.len() > 0 && s[0] == '/'
}

/// The last slash of a path.
pub open spec fn last_slash(s: Seq<char>) -> int
    decreases s.len(),
{
    if s.len() == 0 {
        -1
    } else if s.last() == '/' {
        s.len() - 1
    } else {
        last_slash(s.drop_last())
    }
}

impl ArtifactAddress {
    /// The address lies in a bundle.
    pub closed spec fn wf(&self) -> bool {
        self.address@.segments.len() >= 3
    }

    pub proof fn lemma_wf(&self)
        requires
            self.wf(),
        ensures
            self@.segments.len() >= 3,
    {
    }

    /// The address of the artifact at `artifact` in the bundle.
    pub fn with_parent(parent: &ArtifactBundleAddress, artifact: &str) -> (r: Result<
        ArtifactAddress,
        Error,
    >)
        requires
            parent.wf(),
        ensures
            r is Ok <==> is_path(artifact@),
            r matches Ok(a) ==> a.wf() && a@ == parent@.push(artifact@),
    {
        if artifact.unicode_len() == 0 || artifact.get_char(0) != '/' {
            return Err(Error::new("expected a path"));
        }
        Ok(ArtifactAddress { address: parent.address.push(String::from_str(artifact)) })
    }

    /// The address with the kind of the artifact.
    pub fn as_ref(self, kind: ArtifactKind) -> (r: ArtifactRef)
        ensures
            r.address == self,
            r.kind == kind,
    {
        ArtifactRef { address: self, kind }
    }

    /// The address of the bundle of the artifact.
    pub fn parent(&self) -> (r: ArtifactBundleAddress)
        requires
            self.wf(),
        ensures
            r.wf(),
            r@ == self@.parent(),
    {
        let p = self.address.truncate(self.address.depth() - 1);
        assert(p@.segments =~= self@.segments.drop_last());
        ArtifactBundleAddress { address: p }
    }

    /// The path of the artifact in its bundle. Fails where the address
    /// does not end in a path.
    pub fn path(&self) -> (r: Result<String, Error>)
        requires
            self.wf(),
        ensures
            r is Ok <==> is_path(self@.segments.last()),
            r matches Ok(p) ==> p@ == self@.segments.last(),
            r matches Err(e) ==> e@ == "expected ArtifactResourceAddress to end in a Path"@,
    {
        let last = &self.address.segments[self.address.segments.len() - 1];
        if last.as_str().unicode_len() > 0 && last.as_str().get_char(0) == '/' {
            Ok(last.clone())
        } else {
            Err(Error::new("expected ArtifactResourceAddress to end in a Path"))
        }
    }

    /// The directory of the artifact in its bundle: its path up to its
    /// last slash, or `None` where that slash is the first character. Fails
    /// where the address does not end in a path.
    pub fn dir(&self) -> (r: Result<Option<String>, Error>)
        requires
            self.wf(),
        ensures
            r is Ok <==> is_path(self@.segments.last()),
            r matches Ok(d) ==> {
                let path = self@.segments.last();
                match d {
                    Some(dir) => last_slash(path) > 0 && dir@ == path.subrange(
                        0,
                        last_slash(path),
                    ),
                    None => last_slash(path) == 0,
                }
            },
            r matches Err(e) ==> e@ == "expected ArtifactResourceAddress to end in a Path"@,
    {
        let path = match self.path() {
            Ok(p) => p,
            Err(e) => {
                return Err(e);
            },
        };
        let text = path.as_str();
        let n = text.unicode_len();
        let mut i: usize = n;
        assert(text@.subrange(0, n as int) =~= text@);
        while i > 1
            invariant
                1 <= i <= n,
                n == text@.len(),
                text@[0] == '/',
                self.wf(),
                text@ == self@.segments.last(),
                last_slash(text@) == last_slash(text@.subrange(0, i as int)),
            decreases i,
        {
            proof {
                let front = text@.subrange(0, i as int);
                assert(front.drop_last() =~= text@.subrange(0, i as int - 1));
                assert(front.last() == text@[i as int - 1]);
            }
            if text.get_char(i - 1) == '/' {
                return Ok(Some(String::from_str(text.substring_char(0, i - 1))));
            }
            i -= 1;
        }
        proof {
            let front = text@.subrange(0, 1);
            assert(front.last() == '/');
        }
        Ok(None)
    }
}

/// An artifact by key or by address.
#[derive(Debug)]
pub enum ArtifactIdentifier {
    Key(ArtifactKey),
    Address(ArtifactAddress),
}

/// A bundle by key or by address.
#[derive(Debug)]
pub enum ArtifactBundleIdentifier {
    Key(ArtifactBundleKey),
    Address(ArtifactBundleAddress),
}

/// An artifact with its kind.
#[derive(Debug, PartialEq, Eq, Hash)]
pub struct ArtifactRef {
    pub address: ArtifactAddress,
    pub kind: ArtifactKind,
}

/// A moment in time, in milliseconds since the epoch.
#[derive(Clone, Copy, Debug, PartialEq, Eq, Structural, Hash)]
pub struct Timestamp {
    pub millis: i64,
}

impl Timestamp {
    pub fn timestamp_millis(&self) -> (r: i64)
        ensures
            r == self.millis,
    {
        self.millis
    }

    pub fn new(millis: i64) -> (r: Timestamp)
        ensures
            r.millis == millis,
    {
        Timestamp { millis }
    }

    /// This moment, by the clock of the machine.
    pub fn now() -> (r: Timestamp) {
        Timestamp::new(crate::ids::now_millis())
    }
}

/// An artifact that was fetched, with the address from which it came.
#[derive(Debug)]
pub struct ArtRef<A> {
    pub artifact: A,
    pub point: Point,
}

impl<A> ArtRef<A> {
    /// What the reference holds.
    pub open spec fn spec_contents(&self) -> A {
        self.artifact
    }

    pub fn new(artifact: A, point: Point) -> (r: ArtRef<A>)
        ensures
            r.spec_contents() == artifact,
            r.point == point,
    {
        ArtRef { artifact, point }
    }

    /// What the reference holds.
    pub fn contents(&self) -> (r: &A)
        ensures
            *r == self.spec_contents(),
    {
        &self.artifact
    }

    /// The address of the artifact.
    pub fn point(&self) -> (r: &Point)
        ensures
            *r == self.point,
    {
        &self.point
    }

    /// The address of the bundle of the artifact: the address up to its
    /// first path. `None` where the address holds no path, or begins with
    /// one.
    pub fn bundle(&self) -> (r: Option<Point>)
        ensures
            r matches Some(b) ==> exists|i: int|
                0 < i < self.point@.segments.len() && is_path(#[trigger] self.point@.segments[i])
                    && b@ == self.point@.truncate(i) && forall|k: int|
                    0 <= k < i ==> !is_path(#[trigger] self.point@.segments[k]),
            r is None ==> is_path_at_start(self.point@) || forall|i: int|
                0 <= i < self.point@.segments.len() ==> !is_path(#[trigger] self.point@.segments[i]),
    {
        let mut i: usize = 0;
        while i < self.point.segments.len()
            invariant
                i <= self.point.segments.len(),
                forall|k: int| 0 <= k < i ==> !is_path(#[trigger] self.point@.segments[k]),
            decreases self.point.segments.len() - i,
        {
            let segment = self.point.segments[i].as_str();
            assert(segment@ == self.point@.segments[i as int]);
            if segment.unicode_len() > 0 && segment.get_char(0) == '/' {
                if i == 0 {
                    return None;
                }
                let b = self.point.truncate(i);
                assert(is_path(self.point@.segments[i as int]));
                return Some(b);
            }
            i += 1;
        }
        None
    }
}

/// Whether the first segment of an address is a path.
pub open spec fn is_path_at_start(p: PointView) -> bool {
    p.segments.len() > 0 && is_path(p.segments[0])
}

/// The failure to fetch an artifact.
#[derive(Debug)]
pub struct FetchErr {
}

/// An artifact: its address and its bytes.
#[derive(Debug)]
pub struct Artifact {
    pub point: Point,
    pub bin: Vec<u8>,
}

/// A request for an artifact.
#[derive(Debug)]
pub struct ArtifactRequest {
    pub point: Point,
}

/// The answer to a request for an artifact.
#[derive(Debug)]
pub struct ArtifactResponse {
    pub to: Point,
    pub payload: Vec<u8>,
}

} // verus!
