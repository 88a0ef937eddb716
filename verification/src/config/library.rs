//! The configuration of a library.

use vstd::prelude::*;

use crate::config::entity::{Entity, StmtTable};
use crate::config::stmt::{ExternalData, StmtData, StmtField};
use crate::config::version::{
    encloses, is_version, numbers_before, version_at_most, Version, VersionView,
};
use crate::name_map::{ascending, NameMap};
use crate::text::{remove_all, same_text, strip_prefix, without_all, without_prefix};

verus! {

/// The configuration of a module, and of the modules below it.
#[derive(Debug, PartialEq, Eq)]
pub struct ModuleConfig {
    pub skipped: bool,
    /// The modules below, in ascending order of their names.
    pub module: Vec<(String, ModuleConfig)>,
}

impl ModuleConfig {
    /// The maps at every depth are in order.
    pub open spec fn wf(&self) -> bool
        decreases self,
    {
        &&& ascending(self.module@)
        &&& forall|i: int| 0 <= i < self.module@.len() ==> (#[trigger] self.module@[i]).1.wf()
    }
}

impl Default for ModuleConfig {
    fn default() -> (config: Self)
        ensures
            !config.skipped,
            config.module@.len() == 0,
            config.wf(),
    {
        ModuleConfig { skipped: false, module: Vec::new() }
    }
}

/// The configuration of a library.
#[derive(Debug, PartialEq, Eq)]
pub struct LibraryConfig {
    pub framework: String,
    pub krate: String,
    /// Dependencies are optional by default, this can be used to make a dependency required.
    ///
    /// This is used when depending on `objc2-foundation`, as a feature for something as
    /// fundamental as `NSString` is not really wanted. Additionally, it is used for things
    /// like `MetalKit` always wanting `Metal` enabled.
    pub required_crates: NameMap<()>,
    pub custom_lib_rs: bool,
    pub modulemap: Option<String>,
    pub is_library: bool,
    pub link: bool,
    /// Whether the library is left out when parsing and emitting (used for built-in modules).
    pub skipped: bool,
    /// Extra compilation flags.
    pub flags: Vec<String>,
    pub macos: Option<Version>,
    pub maccatalyst: Option<Version>,
    pub ios: Option<Version>,
    pub tvos: Option<Version>,
    pub watchos: Option<Version>,
    pub visionos: Option<Version>,
    pub gnustep: bool,
    /// External items whose header is not imported.
    pub external: NameMap<ExternalData>,
    pub class_data: NameMap<StmtData>,
    pub protocol_data: NameMap<StmtData>,
    pub struct_data: NameMap<StmtData>,
    pub union_data: NameMap<StmtData>,
    pub enum_data: NameMap<StmtData>,
    pub fns: NameMap<StmtData>,
    pub statics: NameMap<StmtData>,
    pub typedef_data: NameMap<StmtData>,
    pub const_data: NameMap<StmtData>,
    pub module: NameMap<ModuleConfig>,
}

/// Whether a library is linked where nothing is configured.
pub fn link_default() -> (link: bool)
    ensures
        link,
{
    true
}

/// Which tables may set `field`.
pub open spec fn may_set(table: StmtTable, field: StmtField) -> bool {
    match field {
        StmtField::Methods => table is Class || table is Protocol,
        StmtField::UseValue => table is Enum || table is Static || table is Const,
        StmtField::Derives
        | StmtField::DefinitionSkipped
        | StmtField::Categories
        | StmtField::Counterpart
        | StmtField::SkippedProtocols
        | StmtField::MainThreadOnly => table is Class,
        StmtField::RequiresMainThreadOnly => table is Protocol,
        StmtField::Generics => table is Typedef,
        StmtField::Unsafe | StmtField::NoImplementor | StmtField::Implementor => table is Fn,
    }
}

/// The place of `field` in the order in which fields are checked.
pub open spec fn field_rank(field: StmtField) -> int {
    match field {
        StmtField::Methods => 0,
        StmtField::UseValue => 1,
        StmtField::Derives => 2,
        StmtField::DefinitionSkipped => 3,
        StmtField::Categories => 4,
        StmtField::Counterpart => 5,
        StmtField::SkippedProtocols => 6,
        StmtField::MainThreadOnly => 7,
        StmtField::RequiresMainThreadOnly => 8,
        StmtField::Generics => 9,
        StmtField::Unsafe => 10,
        StmtField::NoImplementor => 11,
        StmtField::Implementor => 12,
    }
}

/// The number of fields that are checked.
const FIELDS: usize = 13;

/// The number of tables that hold statements.
const TABLES: usize = 9;

/// The field with the given rank.
fn field_at(rank: usize) -> (field: StmtField)
    requires
        rank < FIELDS,
    ensures
        field_rank(field) == rank,
{
    match rank {
        0 => StmtField::Methods,
        1 => StmtField::UseValue,
        2 => StmtField::Derives,
        3 => StmtField::DefinitionSkipped,
        4 => StmtField::Categories,
        5 => StmtField::Counterpart,
        6 => StmtField::SkippedProtocols,
        7 => StmtField::MainThreadOnly,
        8 => StmtField::RequiresMainThreadOnly,
        9 => StmtField::Generics,
        10 => StmtField::Unsafe,
        11 => StmtField::NoImplementor,
        _ => StmtField::Implementor,
    }
}

/// The place of `table` among the tables.
spec fn table_rank(table: StmtTable) -> int {
    match table {
        StmtTable::Class => 0,
        StmtTable::Protocol => 1,
        StmtTable::Struct => 2,
        StmtTable::Union => 3,
        StmtTable::Enum => 4,
        StmtTable::Fn => 5,
        StmtTable::Static => 6,
        StmtTable::Typedef => 7,
        StmtTable::Const => 8,
    }
}

/// The table with the given rank.
fn table_at(rank: usize) -> (table: StmtTable)
    requires
        rank < TABLES,
    ensures
        table_rank(table) == rank,
{
    match rank {
        0 => StmtTable::Class,
        1 => StmtTable::Protocol,
        2 => StmtTable::Struct,
        3 => StmtTable::Union,
        4 => StmtTable::Enum,
        5 => StmtTable::Fn,
        6 => StmtTable::Static,
        7 => StmtTable::Typedef,
        _ => StmtTable::Const,
    }
}

/// Whether `table` may set `field`.
fn is_allowed(table: StmtTable, field: StmtField) -> (allowed: bool)
    ensures
        allowed == may_set(table, field),
{
    match field {
        StmtField::Methods => table == StmtTable::Class || table == StmtTable::Protocol,
        StmtField::UseValue => table == StmtTable::Enum || table == StmtTable::Static || table
            == StmtTable::Const,
        StmtField::Derives
        | StmtField::DefinitionSkipped
        | StmtField::Categories
        | StmtField::Counterpart
        | StmtField::SkippedProtocols
        | StmtField::MainThreadOnly => table == StmtTable::Class,
        StmtField::RequiresMainThreadOnly => table == StmtTable::Protocol,
        StmtField::Generics => table == StmtTable::Typedef,
        StmtField::Unsafe | StmtField::NoImplementor | StmtField::Implementor => table
            == StmtTable::Fn,
    }
}

/// Whether some statement of `table` sets `field`.
pub open spec fn some_sets(table: NameMap<StmtData>, field: StmtField) -> bool {
    exists|i: int| 0 <= i < table.entries@.len() && (#[trigger] table.entries@[i]).1.sets(field)
}

/// Whether some statement of `table` sets `field`.
fn any_sets(table: &NameMap<StmtData>, field: StmtField) -> (found: bool)
    ensures
        found == some_sets(*table, field),
{
    let mut i: usize = 0;
    while i < table.entries.len()
        invariant
            i <= table.entries@.len(),
            forall|j: int| 0 <= j < i ==> !(#[trigger] table.entries@[j]).1.sets(field),
        decreases table.entries@.len() - i,
    {
        if table.entries[i].1.is_set(field) {
            assert(table.entries@[i as int].1.sets(field));
            return true;
        }
        i += 1;
    }
    false
}

/// What an optional version says.
pub open spec fn version_view(version: Option<Version>) -> Option<VersionView> {
    match version {
        Some(v) => Some(v@),
        None => None,
    }
}

/// Whether a platform allows one library to depend on another, given the version from which
/// each supports the platform, and the lowest version that Rust supports by default.
///
/// It does where one of the two does not support the platform at all, and else where the
/// other library is there from our version on, or from so low a version that every version
/// that Rust supports has it.
pub open spec fn platform_allows(
    ours: Option<VersionView>,
    other: Option<VersionView>,
    rust_min: VersionView,
) -> bool {
    match (ours, other) {
        (Some(a), Some(b)) => version_at_most(b, a) || version_at_most(b, rust_min),
        _ => true,
    }
}

/// The release with the given numbers.
pub open spec fn release(major: u64, minor: u64, patch: u64) -> VersionView {
    (major, minor, patch, Seq::<char>::empty(), Seq::<char>::empty())
}

/// Whether a version, where there is one, is well-formed.
pub open spec fn is_wf(version: Option<VersionView>) -> bool {
    version matches Some(v) ==> is_version(v)
}

/// Whether `after` is `before`, a later version, or none at all.
pub open spec fn raised(before: Option<VersionView>, after: Option<VersionView>) -> bool {
    match (before, after) {
        (_, None) => true,
        (Some(v), Some(w)) => v == w || version_at_most(v, w),
        (None, Some(_)) => false,
    }
}

/// Whether `after` is `before`, an earlier version, or none at all.
pub open spec fn lowered(before: Option<VersionView>, after: Option<VersionView>) -> bool {
    match (before, after) {
        (_, None) => true,
        (Some(v), Some(w)) => v == w || version_at_most(w, v),
        (None, Some(_)) => false,
    }
}

/// Whether a version is a release: neither a pre-release nor with build metadata.
pub open spec fn is_release(version: Option<VersionView>) -> bool {
    version matches Some(v) ==> v.3.len() == 0 && v.4.len() == 0
}

/// What [`platform_allows`] comes to for releases: their numbers decide.
pub open spec fn release_allows(
    ours: Option<VersionView>,
    other: Option<VersionView>,
    rust_min: VersionView,
) -> bool {
    match (ours, other) {
        (Some(a), Some(b)) => !numbers_before(a, b) || !numbers_before(rust_min, b),
        _ => true,
    }
}

/// Whether a platform allows one library to depend on another; see [`platform_allows`].
pub fn check_platform(
    ours: &Option<Version>,
    other: &Option<Version>,
    rust_min: Version,
) -> (allowed: bool)
    requires
        is_wf(version_view(*ours)),
        is_wf(version_view(*other)),
        rust_min.wf(),
    ensures
        allowed == platform_allows(version_view(*ours), version_view(*other), rust_min@),
        is_release(version_view(*ours)) && is_release(version_view(*other)) && is_release(
            Some(rust_min@),
        ) ==> allowed == release_allows(version_view(*ours), version_view(*other), rust_min@),
        version_view(*ours) == version_view(*other) ==> allowed,
        allowed ==> forall|o: Option<VersionView>, t: Option<VersionView>|
            is_wf(o) && is_wf(t) && raised(version_view(*ours), o) && lowered(
                version_view(*other),
                t,
            ) ==> #[trigger] platform_allows(o, t, rust_min@),
{
    match (ours, other) {
        // Both support the platform: ours must be within the minimum of the other, or the
        // default minimum of Rust high enough that it does not matter.
        (Some(a), Some(b)) => {
            let within = b.at_most(a);
            let below = b.at_most(&rust_min);
            proof {
                if a@.3.len() == 0 && a@.4.len() == 0 && b@.3.len() == 0 && b@.4.len() == 0 {
                    assert(a@.3 =~= b@.3);
                    assert(a@.4 =~= b@.4);
                    if rust_min@.3.len() == 0 && rust_min@.4.len() == 0 {
                        assert(rust_min@.3 =~= b@.3);
                        assert(rust_min@.4 =~= b@.4);
                    }
                }
            }
            proof {
                assert forall|o: Option<VersionView>, t: Option<VersionView>|
                    (within || below) && is_wf(o) && is_wf(t) && raised(Some(a@), o) && lowered(
                        Some(b@),
                        t,
                    ) implies #[trigger] platform_allows(o, t, rust_min@) by {
                    if let (Some(v), Some(w)) = (o, t) {
                        assert(within ==> encloses(w, b@, a@, v));
                        assert(below ==> encloses(w, b@, rust_min@, rust_min@));
                    }
                }
            }
            within || below
        },
        // Where only one of the two supports the platform, the dependency is guarded there or
        // absent, so it does no harm.
        (Some(_), None) => true,
        (None, Some(_)) => true,
        (None, None) => true,
    }
}

/// Why the crate of a library has an unexpected name.
#[derive(Debug, Clone, Copy, PartialEq, Eq, Structural)]
pub enum CrateNameError {
    /// The letters of the crate name are not those of the framework.
    Letters,
    /// The words of the crate name are not separated as those of the framework are.
    Words,
}

/// What `str::to_lowercase` makes of a text.
pub uninterp spec fn lowercase(text: Seq<char>) -> Seq<char>;

/// What `heck::ToTrainCase::to_train_case` makes of a text: its words, capitalised and joined
/// by hyphens.
pub uninterp spec fn train_case(text: Seq<char>) -> Seq<char>;

/// `str::to_lowercase` gives the lowercase equivalent of a text, which depends on the text
/// alone.
pub assume_specification[ str::to_lowercase ](s: &str) -> (lower: String)
    ensures
        lower@ == lowercase(s@),
;

/// Calls `heck::ToTrainCase::to_train_case`. Claimed of it: the result depends on the text
/// alone.
#[verifier::external_body]
fn to_train_case(text: &str) -> (train: String)
    ensures
        train@ == train_case(text@),
{
    heck::ToTrainCase::to_train_case(text)
}

/// The crates whose words are deliberately not separated as those of their framework.
pub open spec fn words_exempt(krate: Seq<char>) -> bool {
    ||| krate == "objc2-tv-ml-kit"@
    ||| krate == "objc2-tv-ui-kit"@
    ||| krate == "objc2-javascript-core"@
    ||| krate == "objc2-itunes-library"@
    ||| krate == "objc2-io-usb-host"@
}

/// How the name of a crate fits a framework whose name is `lower` in lowercase and `words` in
/// lowercase with its words separated by hyphens.
pub open spec fn crate_name_fit(lower: Seq<char>, words: Seq<char>, krate: Seq<char>) -> Result<
    (),
    CrateNameError,
> {
    if lower != without_all(without_all(krate, "objc2-"@), "-"@) {
        Err(CrateNameError::Letters)
    } else if words_exempt(krate) || without_prefix(krate, "objc2-"@) == Some(words) {
        Ok(())
    } else {
        Err(CrateNameError::Words)
    }
}

/// Checks the name of a crate against the name of its framework, in lowercase and in
/// lowercase with its words separated by hyphens.
pub fn check_names(lower: &str, words: &str, krate: &str) -> (fit: Result<(), CrateNameError>)
    ensures
        fit == crate_name_fit(lower@, words@, krate@),
{
    let letters = remove_all(remove_all(krate, "objc2-").as_str(), "-");
    if !same_text(lower, letters.as_str()) {
        return Err(CrateNameError::Letters);
    }
    if same_text(krate, "objc2-tv-ml-kit") || same_text(krate, "objc2-tv-ui-kit") {
        // Named this way for better consistency with other tv-specific crates.
        return Ok(());
    }
    if same_text(krate, "objc2-javascript-core") {
        // Nobody writes "java-script".
        return Ok(());
    }
    if same_text(krate, "objc2-itunes-library") {
        // "i-tunes" is confusing.
        return Ok(());
    }
    if same_text(krate, "objc2-io-usb-host") {
        // "io-usb" is clearer than "iousb", and more consistent with other "io" crates.
        return Ok(());
    }
    match strip_prefix(krate, "objc2-") {
        Some(rest) => if same_text(rest.as_str(), words) {
            Ok(())
        } else {
            Err(CrateNameError::Words)
        },
        None => Err(CrateNameError::Words),
    }
}

impl LibraryConfig {
    /// The maps are in order.
    pub open spec fn wf(&self) -> bool {
        &&& self.required_crates.wf()
        &&& self.external.wf()
        &&& forall|table: StmtTable| #[trigger] self.table_spec(table).wf()
        &&& self.versions_wf()
        &&& self.module.wf()
        &&& forall|i: int|
            0 <= i < self.module.entries@.len() ==> (#[trigger] self.module.entries@[i]).1.wf()
    }

    /// The statements of a table.
    pub open spec fn table_spec(&self, table: StmtTable) -> NameMap<StmtData> {
        match table {
            StmtTable::Class => self.class_data,
            StmtTable::Protocol => self.protocol_data,
            StmtTable::Struct => self.struct_data,
            StmtTable::Union => self.union_data,
            StmtTable::Enum => self.enum_data,
            StmtTable::Fn => self.fns,
            StmtTable::Static => self.statics,
            StmtTable::Typedef => self.typedef_data,
            StmtTable::Const => self.const_data,
        }
    }

    /// Whether a statement sets `field` in a table that may not set it.
    pub open spec fn misplaces(&self, field: StmtField) -> bool {
        exists|table: StmtTable|
            !may_set(table, field) && some_sets(#[trigger] self.table_spec(table), field)
    }

    /// Whether every field is set only where it may be.
    pub open spec fn valid(&self) -> bool {
        forall|field: StmtField| !self.misplaces(field)
    }

    /// The versions from which the library supports each platform, in the order macOS, Mac
    /// Catalyst, iOS, tvOS, watchOS, visionOS.
    pub open spec fn platforms(&self) -> Seq<Option<VersionView>> {
        seq![
            version_view(self.macos),
            version_view(self.maccatalyst),
            version_view(self.ios),
            version_view(self.tvos),
            version_view(self.watchos),
            version_view(self.visionos),
        ]
    }

    /// The lowest versions that Rust supports by default, in the order of `platforms`.
    pub open spec fn rust_minimums() -> Seq<VersionView> {
        seq![
            release(10, 12, 0),
            release(13, 1, 0),
            release(10, 0, 0),
            release(10, 0, 0),
            release(5, 0, 0),
            release(1, 0, 0),
        ]
    }

    /// Whether every platform allows `self` to depend on `other`.
    pub open spec fn may_depend_on(&self, other: &Self) -> bool {
        forall|i: int|
            0 <= i < 6 ==> platform_allows(
                #[trigger] self.platforms()[i],
                other.platforms()[i],
                Self::rust_minimums()[i],
            )
    }

    /// The platform versions are well-formed.
    pub open spec fn versions_wf(&self) -> bool {
        forall|i: int| 0 <= i < 6 ==> is_wf(#[trigger] self.platforms()[i])
    }

    /// Whether `after` supports every platform from our version on, from a later one, or not
    /// at all.
    pub open spec fn raised_to(&self, after: &Self) -> bool {
        forall|i: int| 0 <= i < 6 ==> raised(#[trigger] self.platforms()[i], after.platforms()[i])
    }

    /// Whether `after` supports every platform from our version on, from an earlier one, or not
    /// at all.
    pub open spec fn lowered_to(&self, after: &Self) -> bool {
        forall|i: int| 0 <= i < 6 ==> lowered(#[trigger] self.platforms()[i], after.platforms()[i])
    }

    /// Whether all platform versions are releases.
    pub open spec fn has_releases(&self) -> bool {
        forall|i: int| 0 <= i < 6 ==> is_release(#[trigger] self.platforms()[i])
    }

    /// What `may_depend_on` comes to where all platform versions are releases.
    pub open spec fn releases_allow(&self, other: &Self) -> bool {
        forall|i: int|
            0 <= i < 6 ==> release_allows(
                #[trigger] self.platforms()[i],
                other.platforms()[i],
                Self::rust_minimums()[i],
            )
    }

    /// What is configured for an entity, if anything is.
    pub open spec fn statement(&self, entity: &Entity) -> Option<StmtData> {
        match (entity.lookup_name_spec(), entity.kind.table_spec()) {
            (Some(name), Some(table)) => if self.table_spec(table)@.dom().contains(name) {
                Some(self.table_spec(table)@[name])
            } else {
                None
            },
            _ => None,
        }
    }

    /// The statements of a table.
    pub fn table(&self, table: StmtTable) -> (data: &NameMap<StmtData>)
        ensures
            *data == self.table_spec(table),
    {
        match table {
            StmtTable::Class => &self.class_data,
            StmtTable::Protocol => &self.protocol_data,
            StmtTable::Struct => &self.struct_data,
            StmtTable::Union => &self.union_data,
            StmtTable::Enum => &self.enum_data,
            StmtTable::Fn => &self.fns,
            StmtTable::Static => &self.statics,
            StmtTable::Typedef => &self.typedef_data,
            StmtTable::Const => &self.const_data,
        }
    }

    /// Whether this library can depend on `other` without narrowing the platform versions
    /// that it supports.
    ///
    /// Once it can, neither later versions of ours nor earlier ones of the other library, nor
    /// dropping a platform, take that away.
    pub fn can_safely_depend_on(&self, other: &Self) -> (safe: bool)
        requires
            self.versions_wf(),
            other.versions_wf(),
        ensures
            safe == self.may_depend_on(other),
            self.has_releases() && other.has_releases() ==> safe == self.releases_allow(other),
            self.platforms() == other.platforms() ==> safe,
            safe ==> forall|a: LibraryConfig, b: LibraryConfig|
                a.versions_wf() && b.versions_wf() && self.raised_to(&a) && other.lowered_to(&b)
                    ==> #[trigger] a.may_depend_on(&b),
    {
        proof {
            let (a, b) = (self.platforms(), other.platforms());
            assert(is_wf(a[0]) && is_wf(a[1]) && is_wf(a[2]) && is_wf(a[3]) && is_wf(a[4]));
            assert(is_wf(b[0]) && is_wf(b[1]) && is_wf(b[2]) && is_wf(b[3]) && is_wf(b[4]));
            assert(is_wf(a[5]) && is_wf(b[5]));
        }
        let macos = check_platform(&self.macos, &other.macos, Version::new(10, 12, 0));
        let maccatalyst = check_platform(
            &self.maccatalyst,
            &other.maccatalyst,
            Version::new(13, 1, 0),
        );
        let ios = check_platform(&self.ios, &other.ios, Version::new(10, 0, 0));
        let tvos = check_platform(&self.tvos, &other.tvos, Version::new(10, 0, 0));
        let watchos = check_platform(&self.watchos, &other.watchos, Version::new(5, 0, 0));
        let visionos = check_platform(&self.visionos, &other.visionos, Version::new(1, 0, 0));
        proof {
            let (a, b) = (self.platforms(), other.platforms());
            assert(a[0] == version_view(self.macos) && b[0] == version_view(other.macos));
            assert(a[1] == version_view(self.maccatalyst));
            assert(b[1] == version_view(other.maccatalyst));
            assert(a[2] == version_view(self.ios) && b[2] == version_view(other.ios));
            assert(a[3] == version_view(self.tvos) && b[3] == version_view(other.tvos));
            assert(a[4] == version_view(self.watchos) && b[4] == version_view(other.watchos));
            assert(a[5] == version_view(self.visionos) && b[5] == version_view(other.visionos));
            if macos && maccatalyst && ios && tvos && watchos && visionos {
                assert forall|x: LibraryConfig, y: LibraryConfig|
                    x.versions_wf() && y.versions_wf() && self.raised_to(&x) && other.lowered_to(
                        &y,
                    ) implies #[trigger] x.may_depend_on(&y) by {
                    assert forall|i: int| 0 <= i < 6 implies platform_allows(
                        #[trigger] x.platforms()[i],
                        y.platforms()[i],
                        Self::rust_minimums()[i],
                    ) by {
                        assert(is_wf(x.platforms()[i]) && is_wf(y.platforms()[i]));
                        assert(raised(a[i], x.platforms()[i]) && lowered(b[i], y.platforms()[i]));
                    }
                }
            }
        }
        macos && maccatalyst && ios && tvos && watchos && visionos
    }

    /// Checks that every field is set only where it may be, and else names the first field
    /// that is not.
    pub fn validate(&self) -> (checked: Result<(), StmtField>)
        ensures
            checked is Ok <==> self.valid(),
            checked matches Err(field) ==> {
                &&& self.misplaces(field)
                &&& forall|earlier: StmtField|
                    field_rank(earlier) < field_rank(field) ==> !self.misplaces(earlier)
            },
    {
        let mut f: usize = 0;
        while f < FIELDS
            invariant
                f <= FIELDS,
                forall|earlier: StmtField|
                    field_rank(earlier) < f ==> !#[trigger] self.misplaces(earlier),
            decreases FIELDS - f,
        {
            let field = field_at(f);
            let mut t: usize = 0;
            while t < TABLES
                invariant
                    t <= TABLES,
                    f < FIELDS,
                    field_rank(field) == f,
                    forall|earlier: StmtField|
                        field_rank(earlier) < f ==> !#[trigger] self.misplaces(earlier),
                    forall|table: StmtTable|
                        table_rank(table) < t ==> may_set(table, field) || !some_sets(
                            #[trigger] self.table_spec(table),
                            field,
                        ),
                decreases TABLES - t,
            {
                let table = table_at(t);
                if !is_allowed(table, field) && any_sets(self.table(table), field) {
                    assert(some_sets(self.table_spec(table), field));
                    assert(self.misplaces(field));
                    return Err(field);
                }
                assert forall|other: StmtTable| table_rank(other) < t + 1 implies may_set(
                    other,
                    field,
                ) || !some_sets(#[trigger] self.table_spec(other), field) by {
                    if table_rank(other) == t {
                        assert(other == table);
                    }
                }
                t += 1;
            }
            assert(!self.misplaces(field));
            assert forall|earlier: StmtField| field_rank(earlier) < f + 1 implies !#[trigger] self.misplaces(
            earlier) by {
                if field_rank(earlier) == f {
                    assert(earlier == field);
                }
            }
            f += 1;
        }
        Ok(())
    }

    /// Looks up what is configured for `entity`. Where nothing is, the answer is `empty`.
    pub fn get<'a>(&'a self, entity: &Entity, empty: &'a StmtData) -> (data: &'a StmtData)
        requires
            self.wf(),
            empty.is_empty(),
        ensures
            *data == match self.statement(entity) {
                Some(data) => data,
                None => *empty,
            },
    {
        let name = match entity.lookup_name() {
            Some(name) => name,
            None => {
                return empty;
            },
        };
        match entity.kind.table() {
            Some(table) => {
                assert(self.table_spec(table).wf());
                match self.table(table).get(name.as_str()) {
                    Some(data) => data,
                    None => empty,
                }
            },
            None => empty,
        }
    }

    /// Checks that the name of the crate is that of the framework: after `objc2-` its words in
    /// lowercase, separated by hyphens.
    pub fn check_crate_name(&self) -> (checked: Result<(), CrateNameError>)
        ensures
            checked == crate_name_fit(
                lowercase(self.framework@),
                lowercase(train_case(self.framework@)),
                self.krate@,
            ),
    {
        let lower = self.framework.as_str().to_lowercase();
        let words = to_train_case(self.framework.as_str()).as_str().to_lowercase();
        check_names(lower.as_str(), words.as_str(), self.krate.as_str())
    }
}

impl Default for LibraryConfig {
    fn default() -> (config: Self)
        ensures
            config.wf(),
            config.framework@ == Seq::<char>::empty(),
            config.krate@ == Seq::<char>::empty(),
            config.required_crates.entries@.len() == 0,
            !config.custom_lib_rs,
            config.modulemap is None,
            !config.is_library,
            !config.link,
            !config.skipped,
            config.flags@.len() == 0,
            forall|i: int| 0 <= i < 6 ==> (#[trigger] config.platforms()[i]) is None,
            !config.gnustep,
            config.external.entries@.len() == 0,
            forall|table: StmtTable| (#[trigger] config.table_spec(table)).entries@.len() == 0,
            config.module.entries@.len() == 0,
    {
        LibraryConfig {
            framework: String::new(),
            krate: String::new(),
            required_crates: NameMap::new(),
            custom_lib_rs: false,
            modulemap: None,
            is_library: false,
            link: false,
            skipped: false,
            flags: Vec::new(),
            macos: None,
            maccatalyst: None,
            ios: None,
            tvos: None,
            watchos: None,
            visionos: None,
            gnustep: false,
            external: NameMap::new(),
            class_data: NameMap::new(),
            protocol_data: NameMap::new(),
            struct_data: NameMap::new(),
            union_data: NameMap::new(),
            enum_data: NameMap::new(),
            fns: NameMap::new(),
            statics: NameMap::new(),
            typedef_data: NameMap::new(),
            const_data: NameMap::new(),
            module: NameMap::new(),
        }
    }
}

/// A platform that only one of two libraries supports does not keep one from depending on the
/// other.
pub proof fn one_sided_platforms_allow(ours: LibraryConfig, other: LibraryConfig)
    requires
        forall|i: int|
            0 <= i < 6 ==> (#[trigger] ours.platforms()[i]) is None || other.platforms()[i] is None,
    ensures
        ours.may_depend_on(&other),
        other.may_depend_on(&ours),
{
    assert forall|i: int| 0 <= i < 6 implies platform_allows(
        #[trigger] other.platforms()[i],
        ours.platforms()[i],
        LibraryConfig::rust_minimums()[i],
    ) by {
        assert(ours.platforms()[i] is None || other.platforms()[i] is None);
    }
}

/// Where all versions are releases, a library can depend on what its dependencies can depend
/// on, unless a platform that both ends support is missing in between.
pub proof fn dependencies_chain(a: LibraryConfig, b: LibraryConfig, c: LibraryConfig)
    requires
        a.releases_allow(&b),
        b.releases_allow(&c),
        forall|i: int|
            0 <= i < 6 && (#[trigger] a.platforms()[i]) is Some && c.platforms()[i] is Some
                ==> b.platforms()[i] is Some,
    ensures
        a.releases_allow(&c),
{
    assert forall|i: int| 0 <= i < 6 implies release_allows(
        #[trigger] a.platforms()[i],
        c.platforms()[i],
        LibraryConfig::rust_minimums()[i],
    ) by {
        let rust_min = LibraryConfig::rust_minimums()[i];
        assert(release_allows(a.platforms()[i], b.platforms()[i], rust_min));
        assert(release_allows(b.platforms()[i], c.platforms()[i], rust_min));
    }
}

/// Whether `after` is `before`, a release with later numbers, or none at all.
pub open spec fn numbers_raised(before: Option<VersionView>, after: Option<VersionView>) -> bool {
    match (before, after) {
        (_, None) => true,
        (Some(v), Some(w)) => !numbers_before(w, v),
        (None, Some(_)) => false,
    }
}

/// Where all versions are releases, a library that can depend on another still can after our
/// versions were raised and those of the other lowered, or platforms dropped.
pub proof fn later_can_depend_on_earlier(
    a: LibraryConfig,
    b: LibraryConfig,
    later: LibraryConfig,
    earlier: LibraryConfig,
)
    requires
        a.releases_allow(&b),
        forall|i: int|
            0 <= i < 6 ==> numbers_raised(#[trigger] a.platforms()[i], later.platforms()[i]),
        forall|i: int|
            0 <= i < 6 ==> (#[trigger] earlier.platforms()[i] is None || numbers_raised(
                earlier.platforms()[i],
                b.platforms()[i],
            ) && b.platforms()[i] is Some),
    ensures
        later.releases_allow(&earlier),
{
    assert forall|i: int| 0 <= i < 6 implies release_allows(
        #[trigger] later.platforms()[i],
        earlier.platforms()[i],
        LibraryConfig::rust_minimums()[i],
    ) by {
        assert(release_allows(
            a.platforms()[i],
            b.platforms()[i],
            LibraryConfig::rust_minimums()[i],
        ));
        assert(numbers_raised(a.platforms()[i], later.platforms()[i]));
        assert(earlier.platforms()[i] is None || numbers_raised(
            earlier.platforms()[i],
            b.platforms()[i],
        ));
    }
}

/// A library whose statements say nothing is valid.
pub proof fn empty_statements_are_valid(library: LibraryConfig)
    requires
        forall|table: StmtTable, i: int|
            0 <= i < library.table_spec(table).entries@.len()
                ==> (#[trigger] library.table_spec(table).entries@[i]).1.is_empty(),
    ensures
        library.valid(),
{
}

/// Every field may be set in some table, and no table may set every field.
pub proof fn fields_have_their_place(field: StmtField, table: StmtTable)
    ensures
        exists|t: StmtTable| may_set(t, field),
        exists|f: StmtField| !may_set(table, f),
{
    assert(may_set(StmtTable::Class, field) || may_set(StmtTable::Enum, field) || may_set(
        StmtTable::Protocol,
        field,
    ) || may_set(StmtTable::Typedef, field) || may_set(StmtTable::Fn, field));
    assert(!may_set(table, StmtField::Generics) || !may_set(table, StmtField::Unsafe));
}

} // verus!
