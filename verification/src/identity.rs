//! The identifier and addressing system: validated name tokens, namespace
//! paths, and fully-qualified shape/member addresses.
//!
//! All three types store their canonical string form, so rendering is lossless
//! and parsing a syntactically valid string then rendering it returns exactly
//! the input (the round-trip stated in the `ensures` of the `parse` and
//! `to_string` pairs below).

use vstd::prelude::*;
use vstd::string::*;

verus! {

use crate::error::AddressError;

// ------------------------------------------------------------------------
// Character classes and string grammars
// ------------------------------------------------------------------------

/// First character of an identifier: a letter or an underscore.
pub open spec fn is_ident_start_char(c: char) -> bool {
    ('a' <= c && c <= 'z') || ('A' <= c && c <= 'Z') || c == '_'
}

/// Any character of an identifier: a letter, a digit, or an underscore.
pub open spec fn is_ident_char(c: char) -> bool {
    is_ident_start_char(c) || ('0' <= c && c <= '9')
}

/// A non-empty token matching `[A-Za-z_][A-Za-z0-9_]*`.
pub open spec fn is_identifier_str(s: Seq<char>) -> bool {
    &&& s.len() > 0
    &&& is_ident_start_char(s[0])
    &&& forall|i: int| 0 <= i < s.len() ==> is_ident_char(#[trigger] s[i])
}

/// A non-empty sequence of identifiers joined by single `.` characters.
///
/// Position `i` starts a segment when it is first or follows a `.`; a segment
/// start must be an identifier start character, which also rules out empty
/// segments and leading or doubled dots.
pub open spec fn is_namespace_str(s: Seq<char>) -> bool {
    &&& s.len() > 0
    &&& forall|i: int| 0 <= i < s.len() ==> (s[i] == '.' || is_ident_char(#[trigger] s[i]))
    &&& forall|i: int|
        0 <= i < s.len() && (i == 0 || s[i - 1] == '.') ==> is_ident_start_char(#[trigger] s[i])
    &&& s[s.len() - 1] != '.'
}

/// The part of a shape identifier after the `#`: a shape name, optionally
/// followed by `$` and a member name.
pub open spec fn is_member_path_str(t: Seq<char>) -> bool {
    ||| is_identifier_str(t)
    ||| exists|d: int|
        0 <= d < t.len() && #[trigger] t[d] == '$' && is_identifier_str(t.subrange(0, d))
            && is_identifier_str(t.subrange(d + 1, t.len() as int))
}

/// An absolute shape identifier string: `namespace#name` or
/// `namespace#name$member`.
pub open spec fn is_shape_id_str(s: Seq<char>) -> bool {
    exists|h: int|
        0 <= h < s.len() && #[trigger] s[h] == '#' && is_namespace_str(s.subrange(0, h))
            && is_member_path_str(s.subrange(h + 1, s.len() as int))
}

fn ident_start(c: char) -> (r: bool)
    ensures
        r == is_ident_start_char(c),
{
    ('a' <= c && c <= 'z') || ('A' <= c && c <= 'Z') || c == '_'
}

fn ident_char(c: char) -> (r: bool)
    ensures
        r == is_ident_char(c),
{
    ident_start(c) || ('0' <= c && c <= '9')
}

// ------------------------------------------------------------------------
// Identifier
// ------------------------------------------------------------------------

/// A validated name token; case-sensitive, immutable once constructed.
#[derive(Debug)]
pub struct Identifier {
    pub value: String,
}

impl Identifier {
    /// The structural invariant: the stored string is a well-formed token.
    pub open spec fn wf(&self) -> bool {
        is_identifier_str(self.value@)
    }

    /// Parse a token; fails with `InvalidIdentifier` on a malformed one.
    #[verifier::loop_isolation(false)]
    pub fn parse(s: &str) -> (r: Result<Identifier, AddressError>)
        ensures
            r is Ok <==> is_identifier_str(s@),
            r matches Ok(id) ==> id.value@ == s@ && id.wf(),
            r matches Err(e) ==> (e matches AddressError::InvalidIdentifier(t) && t@ == s@),
    {
        let n = s.unicode_len();
        if n == 0 {
            return Err(AddressError::InvalidIdentifier(s.to_owned()));
        }
        if !ident_start(s.get_char(0)) {
            return Err(AddressError::InvalidIdentifier(s.to_owned()));
        }
        let mut i: usize = 1;
        while i < n
            invariant
                1 <= i <= n,
                forall|j: int| 0 <= j < i ==> is_ident_char(#[trigger] s@[j]),
            decreases n - i,
        {
            if !ident_char(s.get_char(i)) {
                return Err(AddressError::InvalidIdentifier(s.to_owned()));
            }
            i += 1;
        }
        Ok(Identifier { value: s.to_owned() })
    }

    /// The canonical (and only) string form: the token itself.
    pub fn to_string(&self) -> (r: String)
        ensures
            r@ == self.value@,
    {
        self.value.clone()
    }
}

impl Clone for Identifier {
    fn clone(&self) -> (r: Self)
        ensures
            r == *self,
    {
        Identifier { value: self.value.clone() }
    }
}

impl PartialEq for Identifier {
    fn eq(&self, other: &Self) -> bool {
        self.value == other.value
    }
}

impl vstd::std_specs::cmp::PartialEqSpecImpl for Identifier {
    open spec fn obeys_eq_spec() -> bool {
        true
    }

    open spec fn eq_spec(&self, other: &Self) -> bool {
        self.value@ == other.value@
    }
}

// ------------------------------------------------------------------------
// NamespaceID
// ------------------------------------------------------------------------

/// A non-empty, dot-joined path of identifiers, stored in canonical form.
///
/// Two namespaces are equal exactly when their canonical strings are equal;
/// since `.` cannot occur inside a segment, this coincides with equality of
/// the segment sequences.
#[derive(Debug)]
pub struct NamespaceID {
    pub value: String,
}

impl NamespaceID {
    pub open spec fn wf(&self) -> bool {
        is_namespace_str(self.value@)
    }

    /// Parse a dotted namespace path; fails with `InvalidNamespaceID`.
    #[verifier::loop_isolation(false)]
    #[verifier::rlimit(60)]
    pub fn parse(s: &str) -> (r: Result<NamespaceID, AddressError>)
        ensures
            r is Ok <==> is_namespace_str(s@),
            r matches Ok(ns) ==> ns.value@ == s@ && ns.wf(),
            r matches Err(e) ==> (e matches AddressError::InvalidNamespaceID(t) && t@ == s@),
    {
        let n = s.unicode_len();
        if n == 0 {
            return Err(AddressError::InvalidNamespaceID(s.to_owned()));
        }
        let mut prev: char = '.';
        let mut i: usize = 0;
        while i < n
            invariant
                0 <= i <= n,
                forall|j: int| 0 <= j < i ==> (s@[j] == '.' || is_ident_char(#[trigger] s@[j])),
                forall|j: int|
                    0 <= j < i && (j == 0 || s@[j - 1] == '.') ==> is_ident_start_char(
                        #[trigger] s@[j],
                    ),
                i > 0 ==> prev == s@[i - 1],
            decreases n - i,
        {
            let c = s.get_char(i);
            if i == 0 || prev == '.' {
                if !ident_start(c) {
                    return Err(AddressError::InvalidNamespaceID(s.to_owned()));
                }
            } else {
                if !(c == '.' || ident_char(c)) {
                    return Err(AddressError::InvalidNamespaceID(s.to_owned()));
                }
            }
            prev = c;
            i += 1;
        }
        if s.get_char(n - 1) == '.' {
            return Err(AddressError::InvalidNamespaceID(s.to_owned()));
        }
        Ok(NamespaceID { value: s.to_owned() })
    }

    /// The canonical dot-joined string form.
    pub fn to_string(&self) -> (r: String)
        ensures
            r@ == self.value@,
    {
        self.value.clone()
    }

    /// Compose an absolute shape identifier from this namespace and a name,
    /// without re-validating the already-valid components.
    pub fn make_shape(&self, shape_name: Identifier) -> (r: ShapeID)
        ensures
            r.namespace == *self,
            r.shape_name == shape_name,
            r.member_name is None,
    {
        ShapeID { namespace: self.clone(), shape_name, member_name: None }
    }
}

impl Clone for NamespaceID {
    fn clone(&self) -> (r: Self)
        ensures
            r == *self,
    {
        NamespaceID { value: self.value.clone() }
    }
}

impl PartialEq for NamespaceID {
    fn eq(&self, other: &Self) -> bool {
        self.value == other.value
    }
}

impl vstd::std_specs::cmp::PartialEqSpecImpl for NamespaceID {
    open spec fn obeys_eq_spec() -> bool {
        true
    }

    open spec fn eq_spec(&self, other: &Self) -> bool {
        self.value@ == other.value@
    }
}

// ------------------------------------------------------------------------
// ShapeID
// ------------------------------------------------------------------------

/// A fully-qualified shape or member address: `namespace#name` with an
/// optional `$member` suffix.  One with a member name denotes a member
/// reference, never a standalone shape.
#[derive(Debug)]
pub struct ShapeID {
    pub namespace: NamespaceID,
    pub shape_name: Identifier,
    pub member_name: Option<Identifier>,
}

/// Equality of shape identifiers: namespace, shape name, and member name
/// (including its absence) all match.
pub open spec fn sid_eq(a: ShapeID, b: ShapeID) -> bool {
    &&& a.namespace.value@ == b.namespace.value@
    &&& a.shape_name.value@ == b.shape_name.value@
    &&& match (a.member_name, b.member_name) {
        (Some(x), Some(y)) => x.value@ == y.value@,
        (None, None) => true,
        _ => false,
    }
}

/// The canonical string form of a shape identifier.
pub open spec fn shape_id_text(sid: ShapeID) -> Seq<char> {
    sid.namespace.value@ + seq!['#'] + sid.shape_name.value@ + match sid.member_name {
        Some(m) => seq!['$'] + m.value@,
        None => Seq::<char>::empty(),
    }
}

impl ShapeID {
    pub open spec fn wf(&self) -> bool {
        &&& self.namespace.wf()
        &&& self.shape_name.wf()
        &&& match self.member_name {
            Some(m) => m.wf(),
            None => true,
        }
    }

    /// Whether this address denotes a member rather than a top-level shape.
    pub fn is_member(&self) -> (r: bool)
        ensures
            r == (self.member_name is Some),
    {
        match &self.member_name {
            Some(_) => true,
            None => false,
        }
    }

    /// Compose a member address from this shape address and a member name.
    pub fn make_member(&self, member_name: Identifier) -> (r: ShapeID)
        ensures
            r.namespace == self.namespace,
            r.shape_name == self.shape_name,
            r.member_name == Some(member_name),
    {
        ShapeID {
            namespace: self.namespace.clone(),
            shape_name: self.shape_name.clone(),
            member_name: Some(member_name),
        }
    }

    /// Parse an absolute shape identifier; fails with `InvalidShapeID`.
    ///
    /// On success the parsed value renders back to exactly the input string.
    #[verifier::rlimit(60)]
    pub fn parse(s: &str) -> (r: Result<ShapeID, AddressError>)
        ensures
            r is Ok <==> is_shape_id_str(s@),
            r matches Ok(sid) ==> sid.wf() && shape_id_text(sid) == s@,
            r matches Err(e) ==> (e matches AddressError::InvalidShapeID(t) && t@ == s@),
    {
        let n = s.unicode_len();
        // find the first '#'
        let mut h: usize = n;
        let mut i: usize = 0;
        while i < n
            invariant_except_break
                n == s@.len(),
                0 <= i <= n,
                h == n,
                forall|j: int| 0 <= j < i ==> s@[j] != '#',
            ensures
                n == s@.len(),
                h <= n,
                forall|j: int| 0 <= j < h ==> s@[j] != '#',
                h < n ==> s@[h as int] == '#',
                h == n ==> forall|j: int| 0 <= j < n ==> s@[j] != '#',
            decreases n - i,
        {
            if s.get_char(i) == '#' {
                h = i;
                break;
            }
            i += 1;
        }
        if h == n {
            proof {
                assert(!is_shape_id_str(s@));
            }
            return Err(AddressError::InvalidShapeID(s.to_owned()));
        }
        let ns_part = s.substring_char(0, h);
        let namespace = match NamespaceID::parse(ns_part) {
            Ok(ns) => ns,
            Err(_) => {
                proof {
                    lemma_no_other_hash(s@, h as int);
                }
                return Err(AddressError::InvalidShapeID(s.to_owned()));
            },
        };
        let rest = s.substring_char(h + 1, n);
        let path = match parse_member_path(rest) {
            Ok(p) => p,
            Err(_) => {
                proof {
                    lemma_no_other_hash(s@, h as int);
                }
                return Err(AddressError::InvalidShapeID(s.to_owned()));
            },
        };
        let (shape_name, member_name) = path;
        let sid = ShapeID { namespace, shape_name, member_name };
        proof {
            lemma_shape_id_assemble(s@, h as int, sid);
        }
        Ok(sid)
    }

    /// Parse a shape identifier, resolving a shorthand form (one without a
    /// `#` separator) against the given default namespace.  This is the only
    /// contextual parsing rule in the addressing system.
    pub fn parse_with_default(s: &str, default_namespace: &NamespaceID) -> (r: Result<
        ShapeID,
        AddressError,
    >)
        requires
            default_namespace.wf(),
        ensures
            contains_hash(s@) ==> ((r is Ok <==> is_shape_id_str(s@)) && (r matches Ok(sid)
                ==> sid.wf() && shape_id_text(sid) == s@)),
            !contains_hash(s@) ==> ((r is Ok <==> is_member_path_str(s@)) && (r matches Ok(sid)
                ==> sid.wf() && sid.namespace.value@ == default_namespace.value@
                && member_path_text(sid.shape_name, sid.member_name) == s@)),
            r matches Err(e) ==> (e matches AddressError::InvalidShapeID(t) && t@ == s@),
    {
        let n = s.unicode_len();
        let mut i: usize = 0;
        let mut found = false;
        while i < n
            invariant_except_break
                n == s@.len(),
                0 <= i <= n,
                !found,
                forall|j: int| 0 <= j < i ==> s@[j] != '#',
            ensures
                found ==> contains_hash(s@),
                !found ==> !contains_hash(s@),
            decreases n - i,
        {
            if s.get_char(i) == '#' {
                found = true;
                break;
            }
            i += 1;
        }
        if found {
            Self::parse(s)
        } else {
            match parse_member_path(s) {
                Ok(p) => {
                    let (shape_name, member_name) = p;
                    Ok(
                        ShapeID {
                            namespace: default_namespace.clone(),
                            shape_name,
                            member_name,
                        },
                    )
                },
                Err(_) => Err(AddressError::InvalidShapeID(s.to_owned())),
            }
        }
    }

    /// Render the canonical `namespace#name` or `namespace#name$member` form.
    pub fn to_string(&self) -> (r: String)
        ensures
            r@ == shape_id_text(*self),
    {
        let mut out = self.namespace.value.clone();
        out.append("#");
        out.append(self.shape_name.value.as_str());
        if let Some(member) = &self.member_name {
            out.append("$");
            out.append(member.value.as_str());
        }
        proof {
            reveal_strlit("#");
            reveal_strlit("$");
            assert(out@ =~= shape_id_text(*self));
        }
        out
    }
}

impl Clone for ShapeID {
    fn clone(&self) -> (r: Self)
        ensures
            r == *self,
    {
        ShapeID {
            namespace: self.namespace.clone(),
            shape_name: self.shape_name.clone(),
            member_name: match &self.member_name {
                Some(m) => Some(m.clone()),
                None => None,
            },
        }
    }
}

impl PartialEq for ShapeID {
    fn eq(&self, other: &Self) -> bool {
        self.namespace == other.namespace && self.shape_name == other.shape_name && match (
            &self.member_name,
            &other.member_name,
        ) {
            (Some(x), Some(y)) => *x == *y,
            (None, None) => true,
            _ => false,
        }
    }
}

impl vstd::std_specs::cmp::PartialEqSpecImpl for ShapeID {
    open spec fn obeys_eq_spec() -> bool {
        true
    }

    open spec fn eq_spec(&self, other: &Self) -> bool {
        sid_eq(*self, *other)
    }
}

/// Whether the string holds a `#` separator anywhere.
pub open spec fn contains_hash(s: Seq<char>) -> bool {
    exists|h: int| 0 <= h < s.len() && #[trigger] s[h] == '#'
}

/// The rendered form of the part after `#`: the shape name and the optional
/// `$member` suffix.
pub open spec fn member_path_text(name: Identifier, member: Option<Identifier>) -> Seq<char> {
    name.value@ + match member {
        Some(m) => seq!['$'] + m.value@,
        None => Seq::<char>::empty(),
    }
}

/// Parse the part of a shape identifier after `#`.
#[verifier::rlimit(60)]
fn parse_member_path(t: &str) -> (r: Result<(Identifier, Option<Identifier>), ()>)
    ensures
        r is Ok <==> is_member_path_str(t@),
        r matches Ok(p) ==> p.0.wf() && (p.1 matches Some(m) ==> m.wf()) && member_path_text(
            p.0,
            p.1,
        ) == t@,
{
    let m = t.unicode_len();
    // find the first '$'
    let mut d: usize = m;
    let mut k: usize = 0;
    while k < m
        invariant_except_break
            m == t@.len(),
            0 <= k <= m,
            d == m,
            forall|j: int| 0 <= j < k ==> t@[j] != '$',
        ensures
            m == t@.len(),
            d <= m,
            forall|j: int| 0 <= j < d ==> t@[j] != '$',
            d < m ==> t@[d as int] == '$',
            d == m ==> forall|j: int| 0 <= j < m ==> t@[j] != '$',
        decreases m - k,
    {
        if t.get_char(k) == '$' {
            d = k;
            break;
        }
        k += 1;
    }
    if d == m {
        // no member suffix: the whole input is the shape name
        match Identifier::parse(t) {
            Ok(id) => {
                proof {
                    assert(member_path_text(id, None::<Identifier>) =~= t@);
                }
                Ok((id, None))
            },
            Err(_) => {
                proof {
                    assert(!is_member_path_str(t@));
                }
                Err(())
            },
        }
    } else {
        let name_part = t.substring_char(0, d);
        let member_part = t.substring_char(d + 1, m);
        proof {
            assert(!is_ident_char('$'));
        }
        let name = match Identifier::parse(name_part) {
            Ok(id) => id,
            Err(_) => {
                proof {
                    lemma_no_other_dollar(t@, d as int);
                }
                return Err(());
            },
        };
        let member = match Identifier::parse(member_part) {
            Ok(id) => id,
            Err(_) => {
                proof {
                    lemma_no_other_dollar(t@, d as int);
                }
                return Err(());
            },
        };
        proof {
            assert(is_member_path_str(t@));
            assert(member_path_text(name, Some(member)) =~= t@);
        }
        Ok((name, Some(member)))
    }
}

// ------------------------------------------------------------------------
// Supporting lemmas for the parser's error cases
// ------------------------------------------------------------------------

/// Assembling a shape identifier from a valid split renders back to the
/// original string.
proof fn lemma_shape_id_assemble(s: Seq<char>, h: int, sid: ShapeID)
    requires
        0 <= h < s.len(),
        s[h] == '#',
        sid.namespace.value@ == s.subrange(0, h),
        is_namespace_str(sid.namespace.value@),
        member_path_text(sid.shape_name, sid.member_name) == s.subrange(h + 1, s.len() as int),
        is_member_path_str(s.subrange(h + 1, s.len() as int)),
    ensures
        is_shape_id_str(s),
        shape_id_text(sid) == s,
{
    let ns = sid.namespace.value@;
    let rest = s.subrange(h + 1, s.len() as int);
    let mp = member_path_text(sid.shape_name, sid.member_name);
    assert(shape_id_text(sid) =~= ns + seq!['#'] + mp);
    assert(ns + seq!['#'] + mp =~= s);
}

/// If the first `#` in `s` stands at `h` and the split there is not a valid
/// shape identifier split, no other position gives one either.
proof fn lemma_no_other_hash(s: Seq<char>, h: int)
    requires
        0 <= h < s.len(),
        s[h] == '#',
        forall|j: int| 0 <= j < h ==> s[j] != '#',
        !(is_namespace_str(s.subrange(0, h)) && is_member_path_str(
            s.subrange(h + 1, s.len() as int),
        )),
    ensures
        !is_shape_id_str(s),
{
    assert forall|h2: int|
        0 <= h2 < s.len() && #[trigger] s[h2] == '#' implies !(is_namespace_str(
        s.subrange(0, h2),
    ) && is_member_path_str(s.subrange(h2 + 1, s.len() as int))) by {
        if h2 < h {
            assert(s[h2] != '#');
        } else if h2 > h {
            assert(s.subrange(0, h2)[h] == '#');
            assert(!is_ident_char('#'));
        }
    }
}

/// If the first `$` in `t` stands at `d` and the split there does not give two
/// identifiers, `t` is not a valid shape-name-plus-member path.
proof fn lemma_no_other_dollar(t: Seq<char>, d: int)
    requires
        0 <= d < t.len(),
        t[d] == '$',
        forall|j: int| 0 <= j < d ==> t[j] != '$',
        !(is_identifier_str(t.subrange(0, d)) && is_identifier_str(
            t.subrange(d + 1, t.len() as int),
        )),
    ensures
        !is_member_path_str(t),
{
    assert(!is_ident_char('$'));
    assert(!is_identifier_str(t));
    assert forall|d2: int|
        0 <= d2 < t.len() && #[trigger] t[d2] == '$' implies !(is_identifier_str(
        t.subrange(0, d2),
    ) && is_identifier_str(t.subrange(d2 + 1, t.len() as int))) by {
        if d2 < d {
            assert(t[d2] != '$');
        } else if d2 > d {
            assert(t.subrange(0, d2)[d] == '$');
        }
    }
}

// ------------------------------------------------------------------------
// Round-trip law
// ------------------------------------------------------------------------

/// Round trip: the canonical rendering of every well-formed shape
/// identifier is itself a syntactically valid shape identifier string, so
/// rendering and parsing are mutually inverse: `parse` promises that a
/// parsed identifier renders back to its input, and this law closes the
/// other direction.
pub proof fn lemma_shape_id_round_trip(sid: ShapeID)
    requires
        sid.wf(),
    ensures
        is_shape_id_str(shape_id_text(sid)),
{
    let s = shape_id_text(sid);
    let ns = sid.namespace.value@;
    let h = ns.len() as int;
    assert(!is_ident_char('#'));
    assert(s[h] == '#');
    assert(s.subrange(0, h) =~= ns);
    match sid.member_name {
        None => {
            assert(s.subrange(h + 1, s.len() as int) =~= sid.shape_name.value@);
            assert(is_member_path_str(s.subrange(h + 1, s.len() as int)));
        },
        Some(m) => {
            let t = s.subrange(h + 1, s.len() as int);
            let d = sid.shape_name.value@.len() as int;
            assert(t =~= sid.shape_name.value@ + seq!['$'] + m.value@);
            assert(t[d] == '$');
            assert(t.subrange(0, d) =~= sid.shape_name.value@);
            assert(t.subrange(d + 1, t.len() as int) =~= m.value@);
            assert(is_member_path_str(t));
        },
    }
    assert(is_shape_id_str(s));
}

/// Rendering is injective: two well-formed shape identifiers with the same
/// canonical string are the same address.  Together with the parser's
/// round-trip guarantee, parsing a rendered identifier gives back an equal
/// identifier.
#[verifier::rlimit(100)]
pub proof fn lemma_shape_id_text_injective(a: ShapeID, b: ShapeID)
    requires
        a.wf(),
        b.wf(),
        shape_id_text(a) == shape_id_text(b),
    ensures
        sid_eq(a, b),
{
    let s = shape_id_text(a);
    let ha = a.namespace.value@.len() as int;
    let hb = b.namespace.value@.len() as int;
    assert(!is_ident_char('#'));
    assert(!is_ident_char('$'));
    assert(s[ha] == '#');
    assert(shape_id_text(b)[hb] == '#');
    if ha < hb {
        assert(b.namespace.value@[ha] == s[ha]);
        assert(false);
    } else if hb < ha {
        assert(a.namespace.value@[hb] == s[hb]);
        assert(false);
    }
    assert forall|i: int| 0 <= i < ha implies a.namespace.value@[i] == b.namespace.value@[i] by {
        assert(a.namespace.value@[i] == s[i]);
        assert(b.namespace.value@[i] == shape_id_text(b)[i]);
    }
    assert(a.namespace.value@ =~= b.namespace.value@);
    let ta = member_path_text(a.shape_name, a.member_name);
    let tb = member_path_text(b.shape_name, b.member_name);
    assert(ta =~= s.subrange(ha + 1, s.len() as int));
    assert(tb =~= shape_id_text(b).subrange(hb + 1, shape_id_text(b).len() as int));
    assert(ta == tb);
    let da = a.shape_name.value@.len() as int;
    let db = b.shape_name.value@.len() as int;
    match (a.member_name, b.member_name) {
        (None, None) => {
            assert forall|i: int|
                0 <= i < da implies a.shape_name.value@[i] == b.shape_name.value@[i] by {
                assert(a.shape_name.value@[i] == ta[i]);
                assert(b.shape_name.value@[i] == tb[i]);
            }
            assert(a.shape_name.value@ =~= b.shape_name.value@);
        },
        (None, Some(_)) => {
            assert(ta[db] == '$');
            assert(a.shape_name.value@[db] == '$');
            assert(false);
        },
        (Some(_), None) => {
            assert(tb[da] == '$');
            assert(b.shape_name.value@[da] == '$');
            assert(false);
        },
        (Some(ma), Some(mb)) => {
            assert(ta[da] == '$');
            assert(tb[db] == '$');
            if da < db {
                assert(b.shape_name.value@[da] == tb[da]);
                assert(false);
            } else if db < da {
                assert(a.shape_name.value@[db] == ta[db]);
                assert(false);
            }
            assert forall|i: int|
                0 <= i < da implies a.shape_name.value@[i] == b.shape_name.value@[i] by {
                assert(a.shape_name.value@[i] == ta[i]);
                assert(b.shape_name.value@[i] == tb[i]);
            }
            assert(a.shape_name.value@ =~= b.shape_name.value@);
            assert forall|i: int| 0 <= i < ma.value@.len() implies ma.value@[i] == mb.value@[i] by {
                assert(ma.value@[i] == ta[da + 1 + i]);
                assert(mb.value@[i] == tb[db + 1 + i]);
            }
            assert(ma.value@ =~= mb.value@);
        },
    }
}

} // verus!
