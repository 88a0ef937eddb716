//! Platform versions.

use vstd::prelude::*;

use crate::text::pieces;

verus! {

/// A semantic version. The pre-release and build texts are empty where there are none.
#[derive(Debug, Clone, PartialEq, Eq)]
pub struct Version {
    pub major: u64,
    pub minor: u64,
    pub patch: u64,
    pub pre: String,
    pub build: String,
}

/// What a [`Version`] says: major, minor and patch number, pre-release and build text.
pub type VersionView = (u64, u64, u64, Seq<char>, Seq<char>);

impl View for Version {
    type V = (u64, u64, u64, Seq<char>, Seq<char>);

    open spec fn view(&self) -> (u64, u64, u64, Seq<char>, Seq<char>) {
        (self.major, self.minor, self.patch, self.pre@, self.build@)
    }
}

/// Whether the three numbers of `a` come before those of `b`, the major number first.
pub open spec fn numbers_before(a: VersionView, b: VersionView) -> bool {
    a.0 < b.0 || (a.0 == b.0 && (a.1 < b.1 || (a.1 == b.1 && a.2 < b.2)))
}

/// Whether a character can stand in an identifier of a pre-release or build text.
pub open spec fn is_identifier_char(c: char) -> bool {
    ('0' <= c && c <= '9') || ('A' <= c && c <= 'Z') || ('a' <= c && c <= 'z') || c == '-'
}

/// Whether a text is an identifier of a build text.
pub open spec fn is_identifier(text: Seq<char>) -> bool {
    text.len() > 0 && forall|i: int| 0 <= i < text.len() ==> is_identifier_char(#[trigger] text[i])
}

/// Whether a text is a number with a zero in front.
pub open spec fn has_leading_zero(text: Seq<char>) -> bool {
    text.len() > 1 && text[0] == '0' && forall|i: int|
        0 <= i < text.len() ==> '0' <= #[trigger] text[i] && text[i] <= '9'
}

/// Whether a text is a build text: empty, or identifiers separated by dots.
pub open spec fn is_build(text: Seq<char>) -> bool {
    text.len() == 0 || forall|i: int|
        0 <= i < pieces(text, '.').len() ==> is_identifier(#[trigger] pieces(text, '.')[i])
}

/// Whether a text is a pre-release text: empty, or identifiers separated by dots, of which
/// none is a number with a zero in front.
pub open spec fn is_prerelease(text: Seq<char>) -> bool {
    &&& is_build(text)
    &&& text.len() == 0 || forall|i: int|
        0 <= i < pieces(text, '.').len() ==> !has_leading_zero(#[trigger] pieces(text, '.')[i])
}

/// Whether the texts of a version are what they have to be.
pub open spec fn is_version(v: VersionView) -> bool {
    is_prerelease(v.3) && is_build(v.4)
}

/// Whether two versions have the same three numbers.
pub open spec fn same_numbers(a: VersionView, b: VersionView) -> bool {
    a.0 == b.0 && a.1 == b.1 && a.2 == b.2
}

/// What `<=` of `semver::Version` answers for two versions.
pub uninterp spec fn version_at_most(
    a: (u64, u64, u64, Seq<char>, Seq<char>),
    b: (u64, u64, u64, Seq<char>, Seq<char>),
) -> bool;

/// What `lenient_semver_parser::parse` makes of a text: a version, or the message of its
/// error.
pub uninterp spec fn lenient_version(text: Seq<char>) -> Result<
    (u64, u64, u64, Seq<char>, Seq<char>),
    Seq<char>,
>;

/// Whether `c` is `a` or at most `a`, and `d` is `b` or `b` at most `d`.
pub open spec fn encloses(
    c: VersionView,
    a: VersionView,
    b: VersionView,
    d: VersionView,
) -> bool {
    &&& is_version(c) && is_version(d)
    &&& c == a || version_at_most(c, a)
    &&& d == b || version_at_most(b, d)
}

/// Calls `<=` of `semver::Version`, which orders by major, minor and patch number, then by
/// pre-release, then by build metadata. Claimed of it: the answer depends on the two
/// versions alone; where the numbers differ they decide; where they do not, a pre-release is
/// at most a release, and a release not at most a pre-release; a version is at most itself; and
/// the order is transitive.
#[verifier::external_body]
fn semver_at_most(a: &Version, b: &Version) -> (at_most: bool)
    requires
        a.wf(),
        b.wf(),
    ensures
        at_most == version_at_most(a@, b@),
        numbers_before(a@, b@) ==> at_most,
        numbers_before(b@, a@) ==> !at_most,
        same_numbers(a@, b@) && a@.3.len() > 0 && b@.3.len() == 0 ==> at_most,
        same_numbers(a@, b@) && a@.3.len() == 0 && b@.3.len() > 0 ==> !at_most,
        a@ == b@ ==> at_most,
        at_most ==> forall|c: VersionView, d: VersionView| #[trigger]
            encloses(c, a@, b@, d) ==> version_at_most(c, d),
{
    let a_pre = semver::Prerelease::new(&a.pre).unwrap();
    let a_build = semver::BuildMetadata::new(&a.build).unwrap();
    let b_pre = semver::Prerelease::new(&b.pre).unwrap();
    let b_build = semver::BuildMetadata::new(&b.build).unwrap();
    semver::Version { major: a.major, minor: a.minor, patch: a.patch, pre: a_pre, build: a_build }
        <= semver::Version {
            major: b.major,
            minor: b.minor,
            patch: b.patch,
            pre: b_pre,
            build: b_build,
        }
}

/// Calls `lenient_semver_parser::parse` for a `semver::Version`. Claimed of it: the outcome,
/// version or error message, depends on the text alone, and the pre-release and build texts of
/// a version are what they have to be.
#[verifier::external_body]
fn parse_lenient(text: &str) -> (parsed: Result<Version, String>)
    ensures
        match (parsed, lenient_version(text@)) {
            (Ok(v), Ok(w)) => v@ == w && is_version(w),
            (Err(e), Err(f)) => e@ == f,
            _ => false,
        },
{
    match lenient_semver_parser::parse::<semver::Version>(text) {
        Ok(v) => Ok(Version {
            major: v.major,
            minor: v.minor,
            patch: v.patch,
            pre: v.pre.as_str().to_string(),
            build: v.build.as_str().to_string(),
        }),
        Err(e) => Err(e.to_string()),
    }
}

impl Version {
    /// The pre-release and build texts are what they have to be.
    pub open spec fn wf(&self) -> bool {
        is_version(self@)
    }

    /// The release `major.minor.patch`.
    pub fn new(major: u64, minor: u64, patch: u64) -> (version: Version)
        ensures
            version.wf(),
            version@ == (major, minor, patch, Seq::<char>::empty(), Seq::<char>::empty()),
    {
        Version { major, minor, patch, pre: String::new(), build: String::new() }
    }

    /// Whether `self` is `other` or an earlier version.
    pub fn at_most(&self, other: &Version) -> (at_most: bool)
        requires
            self.wf(),
            other.wf(),
        ensures
            at_most == version_at_most(self@, other@),
            numbers_before(self@, other@) ==> at_most,
            numbers_before(other@, self@) ==> !at_most,
            same_numbers(self@, other@) && self@.3.len() > 0 && other@.3.len() == 0 ==> at_most,
            same_numbers(self@, other@) && self@.3.len() == 0 && other@.3.len() > 0 ==> !at_most,
            self@ == other@ ==> at_most,
            at_most ==> forall|c: VersionView, d: VersionView| #[trigger]
                encloses(c, self@, other@, d) ==> version_at_most(c, d),
    {
        semver_at_most(self, other)
    }
}

/// The field value that a parsed version text gives: the version, or the parser's message.
pub fn version_field(parsed: Result<Version, String>) -> (field: Result<Option<Version>, String>)
    ensures
        parsed matches Ok(v) ==> field == Ok::<Option<Version>, String>(Some(v)),
        parsed matches Err(e) ==> field == Err::<Option<Version>, String>(e),
{
    match parsed {
        Ok(v) => Ok(Some(v)),
        Err(e) => Err(e),
    }
}

/// Reads a platform's version field: no version where the field is none, and else what the
/// lenient parser makes of its text.
pub fn get_version(field: Option<&str>) -> (version: Result<Option<Version>, String>)
    ensures
        field is None ==> version == Ok::<Option<Version>, String>(None),
        field matches Some(text) ==> match lenient_version(text@) {
            Ok(v) => version matches Ok(Some(w)) && w@ == v && w.wf(),
            Err(e) => version matches Err(f) && f@ == e,
        },
{
    match field {
        None => Ok(None),
        Some(text) => version_field(parse_lenient(text)),
    }
}

} // verus!
