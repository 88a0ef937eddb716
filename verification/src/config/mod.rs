//! The configuration that bindings to frameworks are made from.

use vstd::prelude::*;

use crate::name_map::{ascending, entry_is_value, find, mapping, NameMap};
use crate::text::{ends_with, same_text, strip_suffix, views};

pub mod counterpart;
pub mod entity;
pub mod item;
pub mod laws;
pub mod library;
pub mod nesting;
pub mod skipped;
pub mod stmt;
pub mod version;

use self::item::{ItemIdentifier, Location};
use self::library::{field_rank, LibraryConfig, ModuleConfig};
use self::stmt::StmtField;

verus! {

/// The name of the library that holds what no other library declares.
pub const BUILTIN: &'static str = "__builtin__";

/// Why libraries make up no configuration.
#[derive(Debug, PartialEq, Eq)]
pub enum ConfigError {
    /// A library sets a field where it may not be set.
    Misplaced { library: String, field: StmtField },
    /// A framework is listed as skipped, and configured all the same.
    NotSkipped(String),
    /// A crate does not have the name of the directory that it stands in.
    Directory(String),
}

/// The name of a Core Foundation type without the suffix `Ref`, if it has it.
pub open spec fn without_ref(name: Seq<char>) -> Seq<char> {
    if ends_with(name, "Ref"@) {
        name.take(name.len() - "Ref"@.len())
    } else {
        name
    }
}

/// Drops the suffix `Ref` of a Core Foundation type, if it has it.
pub fn cf_no_ref(name: &str) -> (short: String)
    ensures
        short@ == without_ref(name@),
{
    match strip_suffix(name, "Ref") {
        Some(short) => short,
        None => name.to_owned(),
    }
}

/// The modules that lead from `modules` along `path`, as far as they are configured.
pub open spec fn modules_along(
    modules: Seq<(String, ModuleConfig)>,
    path: Seq<Seq<char>>,
) -> Seq<ModuleConfig>
    decreases path.len(),
{
    if path.len() == 0 || !mapping(modules).dom().contains(path[0]) {
        Seq::empty()
    } else {
        let first = mapping(modules)[path[0]];
        seq![first] + modules_along(first.module@, path.skip(1))
    }
}

/// `libraries` with each of `more` under the name of its framework, later ones in place of
/// earlier ones.
pub open spec fn with_frameworks(
    libraries: Map<Seq<char>, LibraryConfig>,
    more: Seq<LibraryConfig>,
) -> Map<Seq<char>, LibraryConfig>
    decreases more.len(),
{
    if more.len() == 0 {
        libraries
    } else {
        with_frameworks(libraries, more.drop_last()).insert(more.last().framework@, more.last())
    }
}

/// The maps inside all libraries are in order.
pub open spec fn libraries_wf(libraries: Map<Seq<char>, LibraryConfig>) -> bool {
    forall|name: Seq<char>| #[trigger]
        libraries.dom().contains(name) ==> libraries[name].wf()
}

/// The configuration of all libraries.
#[derive(Debug, PartialEq, Eq)]
pub struct Config {
    pub libraries: NameMap<LibraryConfig>,
}

/// A configuration found in the directory of a crate.
#[derive(Debug, PartialEq, Eq)]
pub struct FoundCrate {
    pub directory: String,
    pub config: LibraryConfig,
}

/// The configurations of the found crates.
pub open spec fn found_configs(found: Seq<FoundCrate>) -> Seq<LibraryConfig> {
    found.map_values(|f: FoundCrate| f.config)
}

/// Whether a crate has the name of its directory.
pub open spec fn in_place(found: FoundCrate) -> bool {
    found.config.krate@ == found.directory@
}

impl FoundCrate {
    /// Whether the crate has the name of its directory.
    pub fn is_in_place(&self) -> (fits: bool)
        ensures
            fits == in_place(*self),
            fits == (self.config.krate@ == self.directory@),
    {
        same_text(self.config.krate.as_str(), self.directory.as_str())
    }
}

/// Collects the libraries that a workspace configures: the crates found, each under the name
/// of its framework, and those for blocks, the Objective-C runtime and Dispatch. A crate must
/// have the name of its directory; the first that has not is named.
pub fn collect_libraries(
    found: Vec<FoundCrate>,
    block: LibraryConfig,
    objective_c: LibraryConfig,
    dispatch: LibraryConfig,
) -> (collected: Result<NameMap<LibraryConfig>, ConfigError>)
    requires
        forall|i: int| 0 <= i < found@.len() ==> (#[trigger] found@[i]).config.wf(),
        block.wf(),
        objective_c.wf(),
        dispatch.wf(),
    ensures
        collected is Ok <==> forall|i: int| 0 <= i < found@.len() ==> in_place(#[trigger] found@[i]),
        collected is Ok <==> forall|i: int|
            0 <= i < found@.len() ==> (#[trigger] found@[i]).config.krate@ == found@[i].directory@,
        collected matches Ok(libraries) ==> {
            &&& libraries.wf()
            &&& libraries_wf(libraries@)
            &&& libraries@ == with_frameworks(Map::empty(), found_configs(found@)).insert(
                "block"@,
                block,
            ).insert("ObjectiveC"@, objective_c).insert("Dispatch"@, dispatch)
        },
        collected matches Err(error) ==> {
            &&& error matches ConfigError::Directory(directory)
            &&& exists|i: int|
                {
                    &&& 0 <= i < found@.len()
                    &&& !in_place(#[trigger] found@[i])
                    &&& found@[i].directory@ == directory@
                    &&& forall|j: int| 0 <= j < i ==> in_place(#[trigger] found@[j])
                }
        },
{
    let mut libraries: NameMap<LibraryConfig> = NameMap::new();
    let ghost all = found@;
    let mut rest = found;
    let mut i: usize = 0;
    let n: usize = rest.len();
    assert(found_configs(all).take(0) =~= Seq::empty());
    assert(rest@ =~= all.skip(0));
    while i < n
        invariant
            all == found@,
            i <= n == all.len(),
            rest@ == all.skip(i as int),
            forall|k: int| 0 <= k < all.len() ==> (#[trigger] all[k]).config.wf(),
            forall|k: int| 0 <= k < i ==> in_place(#[trigger] all[k]),
            libraries.wf(),
            libraries_wf(libraries@),
            libraries@ == with_frameworks(Map::empty(), found_configs(all).take(i as int)),
        decreases n - i,
    {
        assert(rest@[0] == all[i as int]);
        let next = rest.remove(0);
        if !next.is_in_place() {
            assert(!in_place(all[i as int]));
            return Err(ConfigError::Directory(next.directory));
        }
        assert(found_configs(all).take(i + 1).drop_last() =~= found_configs(all).take(i as int));
        assert(found_configs(all).take(i + 1).last() == next.config);
        let framework = next.config.framework.clone();
        libraries.insert(framework, next.config);
        i += 1;
        assert(rest@ =~= all.skip(i as int));
    }
    assert(found_configs(all).take(n as int) =~= found_configs(all));
    libraries.insert("block".to_owned(), block);
    libraries.insert("ObjectiveC".to_owned(), objective_c);
    libraries.insert("Dispatch".to_owned(), dispatch);
    Ok(libraries)
}

impl Config {
    /// The maps are in order.
    pub open spec fn wf(&self) -> bool {
        &&& self.libraries.wf()
        &&& libraries_wf(self.libraries@)
    }

    /// Whether a library is configured under `name`.
    pub open spec fn configures(&self, name: Seq<char>) -> bool {
        self.libraries@.dom().contains(name)
    }

    /// The library under `name`, or the built-in library where there is none.
    pub open spec fn library_spec(&self, name: Seq<char>) -> LibraryConfig {
        if self.configures(name) {
            self.libraries@[name]
        } else {
            self.libraries@[BUILTIN@]
        }
    }

    /// The first library, in the order of their names, whose crate is `krate` stands at `i`.
    pub open spec fn first_of_crate(&self, krate: Seq<char>, i: int) -> bool {
        &&& 0 <= i < self.libraries.entries@.len()
        &&& self.libraries.entries@[i].1.krate@ == krate
        &&& forall|j: int| 0 <= j < i ==> (#[trigger] self.libraries.entries@[j]).1.krate@ != krate
    }

    /// Whether some library has the crate `krate`.
    pub open spec fn has_crate(&self, krate: Seq<char>) -> bool {
        exists|i: int|
            0 <= i < self.libraries.entries@.len() && (#[trigger] self.libraries.entries@[i]).1.krate@
                == krate
    }

    /// The name that a typedef called `name` gets in `library`: the configured one, or its own
    /// name, where a Core Foundation type loses the suffix `Ref`.
    pub open spec fn typedef_name(library: LibraryConfig, name: Seq<char>, is_cf: bool) -> Seq<
        char,
    > {
        if library.typedef_data@.dom().contains(name) && library.typedef_data@[name].renamed is Some {
            library.typedef_data@[name].renamed->Some_0@
        } else if is_cf {
            without_ref(name)
        } else {
            name
        }
    }

    /// The libraries that are not skipped, in the order of their names.
    pub open spec fn parsed(&self) -> Seq<(String, LibraryConfig)> {
        self.libraries.entries@.filter(|entry: (String, LibraryConfig)| !entry.1.skipped)
    }

    /// The configured modules that lead to `location`, outermost first.
    pub open spec fn modules_to(&self, location: &Location) -> Seq<ModuleConfig> {
        if self.configures(location@.library) {
            modules_along(self.libraries@[location@.library].module.entries@, location@.modules)
        } else {
            Seq::empty()
        }
    }

    /// Makes up the configuration from `libraries` and the built-in libraries, which go under
    /// the names of their frameworks. Every one of `libraries` must set fields only where they
    /// may be set, and no framework of `skipped` may be configured.
    pub fn new(
        libraries: NameMap<LibraryConfig>,
        builtins: Vec<LibraryConfig>,
        skipped: &NameMap<String>,
    ) -> (config: Result<Config, ConfigError>)
        requires
            libraries.wf(),
            libraries_wf(libraries@),
            forall|i: int| 0 <= i < builtins@.len() ==> (#[trigger] builtins@[i]).wf(),
        ensures
            config is Ok <==> {
                &&& forall|i: int|
                    0 <= i < libraries.entries@.len() ==> (#[trigger] libraries.entries@[i]).1.valid()
                &&& forall|i: int|
                    0 <= i < skipped.entries@.len() ==> !with_frameworks(
                        libraries@,
                        builtins@,
                    ).dom().contains((#[trigger] skipped.entries@[i]).0@)
            },
            config matches Ok(c) ==> c.wf() && c.libraries@ == with_frameworks(
                libraries@,
                builtins@,
            ),
            config matches Err(error) ==> match error {
                ConfigError::Misplaced { library, field } => exists|i: int|
                    {
                        &&& 0 <= i < libraries.entries@.len()
                        &&& (#[trigger] libraries.entries@[i]).0@ == library@
                        &&& libraries.entries@[i].1.misplaces(field)
                        &&& forall|earlier: StmtField|
                            field_rank(earlier) < field_rank(field)
                                ==> !libraries.entries@[i].1.misplaces(earlier)
                        &&& forall|j: int|
                            0 <= j < i ==> (#[trigger] libraries.entries@[j]).1.valid()
                    },
                ConfigError::NotSkipped(framework) => {
                    &&& forall|i: int|
                        0 <= i < libraries.entries@.len() ==> (
                        #[trigger] libraries.entries@[i]).1.valid()
                    &&& exists|i: int|
                        {
                            &&& 0 <= i < skipped.entries@.len()
                            &&& (#[trigger] skipped.entries@[i]).0@ == framework@
                            &&& with_frameworks(libraries@, builtins@).dom().contains(framework@)
                            &&& forall|j: int|
                                0 <= j < i ==> !with_frameworks(
                                    libraries@,
                                    builtins@,
                                ).dom().contains((#[trigger] skipped.entries@[j]).0@)
                        }
                },
                ConfigError::Directory(_) => false,
            },
    {
        let mut i: usize = 0;
        while i < libraries.entries.len()
            invariant
                i <= libraries.entries@.len(),
                forall|j: int| 0 <= j < i ==> (#[trigger] libraries.entries@[j]).1.valid(),
            decreases libraries.entries@.len() - i,
        {
            match libraries.entries[i].1.validate() {
                Ok(_) => {},
                Err(field) => {
                    assert(libraries.entries@[i as int].1.misplaces(field));
                    assert(!libraries.entries@[i as int].1.valid());
                    let library = libraries.entries[i].0.clone();
                    return Err(ConfigError::Misplaced { library, field });
                },
            }
            i += 1;
        }
        let ghost given = libraries@;
        let ghost all = builtins@;
        let ghost entries = libraries.entries@;
        let mut merged = libraries;
        let mut rest = builtins;
        let n: usize = rest.len();
        let mut b: usize = 0;
        assert(all.take(0) =~= Seq::empty());
        assert(rest@ =~= all.skip(0));
        while b < n
            invariant
                b <= n == all.len(),
                rest@ == all.skip(b as int),
                forall|k: int| 0 <= k < all.len() ==> (#[trigger] all[k]).wf(),
                merged.wf(),
                libraries_wf(merged@),
                merged@ == with_frameworks(given, all.take(b as int)),
            decreases n - b,
        {
            assert(rest@[0] == all[b as int]);
            let next = rest.remove(0);
            assert(all.take(b + 1).drop_last() =~= all.take(b as int));
            assert(all.take(b + 1).last() == next);
            let framework = next.framework.clone();
            merged.insert(framework, next);
            b += 1;
            assert(rest@ =~= all.skip(b as int));
        }
        assert(all.take(n as int) =~= all);
        let mut s: usize = 0;
        while s < skipped.entries.len()
            invariant
                s <= skipped.entries@.len(),
                merged@ == with_frameworks(libraries@, builtins@),
                entries == libraries.entries@,
                forall|j: int| 0 <= j < entries.len() ==> (#[trigger] entries[j]).1.valid(),
                merged.wf(),
                forall|j: int|
                    0 <= j < s ==> !merged@.dom().contains((#[trigger] skipped.entries@[j]).0@),
            decreases skipped.entries@.len() - s,
        {
            if merged.contains_key(skipped.entries[s].0.as_str()) {
                assert(merged@.dom().contains(skipped.entries@[s as int].0@));
                return Err(ConfigError::NotSkipped(skipped.entries[s].0.clone()));
            }
            s += 1;
        }
        Ok(Config { libraries: merged })
    }

    /// Looks up a library.
    pub fn try_library(&self, library_name: &str) -> (library: Option<&LibraryConfig>)
        requires
            self.wf(),
        ensures
            library matches Some(l) ==> self.configures(library_name@) && *l
                == self.libraries@[library_name@],
            library is None <==> !self.configures(library_name@),
            library matches Some(l) ==> exists|i: int|
                0 <= i < self.libraries.entries@.len() && (#[trigger] self.libraries.entries@[i]).0@
                    == library_name@ && self.libraries.entries@[i].1 == *l,
            library is None <==> forall|i: int|
                0 <= i < self.libraries.entries@.len() ==> (
                #[trigger] self.libraries.entries@[i]).0@ != library_name@,
    {
        self.libraries.get(library_name)
    }

    /// Looks up the library of a location. Where it is not configured, that is the built-in
    /// library.
    pub fn library(&self, location: &Location) -> (library: &LibraryConfig)
        requires
            self.wf(),
            self.configures(location@.library) || self.configures(BUILTIN@),
        ensures
            *library == self.library_spec(location@.library),
    {
        match self.try_library(location.library_name()) {
            Some(library) => library,
            None => self.libraries.get(BUILTIN).unwrap(),
        }
    }

    /// Looks up the library of a crate. Where there is none, that is the built-in library.
    pub fn library_from_crate(&self, krate: &str) -> (library: &LibraryConfig)
        requires
            self.wf(),
            self.has_crate(krate@) || self.configures(BUILTIN@),
        ensures
            self.has_crate(krate@) ==> exists|i: int|
                self.first_of_crate(krate@, i) && *library == self.libraries.entries@[i].1,
            !self.has_crate(krate@) ==> *library == self.libraries@[BUILTIN@],
            (exists|i: int|
                0 <= i < self.libraries.entries@.len() && (
                #[trigger] self.libraries.entries@[i]).1.krate@ == krate@) ==> exists|i: int|
                {
                    &&& 0 <= i < self.libraries.entries@.len()
                    &&& (#[trigger] self.libraries.entries@[i]).1.krate@ == krate@
                    &&& self.libraries.entries@[i].1 == *library
                    &&& forall|j: int|
                        0 <= j < i ==> (#[trigger] self.libraries.entries@[j]).1.krate@ != krate@
                },
            (forall|i: int|
                0 <= i < self.libraries.entries@.len() ==> (
                #[trigger] self.libraries.entries@[i]).1.krate@ != krate@) ==> exists|i: int|
                0 <= i < self.libraries.entries@.len() && (#[trigger] self.libraries.entries@[i]).0@
                    == "__builtin__"@ && self.libraries.entries@[i].1 == *library,
    {
        match self.try_library_from_crate(krate) {
            Some(library) => library,
            None => self.libraries.get(BUILTIN).unwrap(),
        }
    }

    /// Looks up the first library, in the order of their names, whose crate is `krate`.
    pub fn try_library_from_crate(&self, krate: &str) -> (library: Option<&LibraryConfig>)
        ensures
            library matches Some(l) ==> exists|i: int|
                self.first_of_crate(krate@, i) && *l == self.libraries.entries@[i].1,
            library is None <==> !self.has_crate(krate@),
            library matches Some(l) ==> exists|i: int|
                {
                    &&& 0 <= i < self.libraries.entries@.len()
                    &&& (#[trigger] self.libraries.entries@[i]).1.krate@ == krate@
                    &&& self.libraries.entries@[i].1 == *l
                    &&& forall|j: int|
                        0 <= j < i ==> (#[trigger] self.libraries.entries@[j]).1.krate@ != krate@
                },
            library is None <==> forall|i: int|
                0 <= i < self.libraries.entries@.len() ==> (
                #[trigger] self.libraries.entries@[i]).1.krate@ != krate@,
    {
        let mut i: usize = 0;
        while i < self.libraries.entries.len()
            invariant
                i <= self.libraries.entries@.len(),
                forall|j: int|
                    0 <= j < i ==> (#[trigger] self.libraries.entries@[j]).1.krate@ != krate@,
            decreases self.libraries.entries@.len() - i,
        {
            if same_text(self.libraries.entries[i].1.krate.as_str(), krate) {
                assert(self.first_of_crate(krate@, i as int));
                return Some(&self.libraries.entries[i].1);
            }
            i += 1;
        }
        None
    }

    /// Gives a typedef its final name.
    ///
    /// A typedef whose underlying type is itself a Core Foundation pointer is imported as a
    /// regular alias, with the suffix `Ref` still dropped from its name. Where that would
    /// conflict with another declaration, the configuration has to keep the name.
    pub fn replace_typedef_name(&self, id: ItemIdentifier, is_cf: bool) -> (renamed: ItemIdentifier)
        requires
            self.wf(),
            self.configures(id@.location.library) || self.configures(BUILTIN@),
        ensures
            renamed@.name == Self::typedef_name(
                self.library_spec(id@.location.library),
                id@.name,
                is_cf,
            ),
            renamed.location == id.location,
    {
        let library = self.library(&id.location);
        proof {
            let name = id@.location.library;
            if self.configures(name) {
                assert(self.libraries@[name].wf());
            } else {
                assert(self.libraries@[BUILTIN@].wf());
            }
            assert(library.table_spec(entity::StmtTable::Typedef).wf());
        }
        let configured = match library.typedef_data.get(id.name.as_str()) {
            Some(data) => match &data.renamed {
                Some(name) => Some(name.clone()),
                None => None,
            },
            None => None,
        };
        match configured {
            Some(name) => id.with_name(name),
            None => if is_cf {
                let name = cf_no_ref(id.name.as_str());
                id.with_name(name)
            } else {
                id
            },
        }
    }

    /// The libraries to parse, with their names: those that are not skipped.
    pub fn to_parse(&self) -> (list: Vec<(&str, &LibraryConfig)>)
        ensures
            list@.len() == self.parsed().len(),
            forall|i: int|
                0 <= i < list@.len() ==> (#[trigger] list@[i]).0@ == self.parsed()[i].0@
                    && *list@[i].1 == self.parsed()[i].1,
    {
        let ghost keep = |entry: (String, LibraryConfig)| !entry.1.skipped;
        let ghost entries = self.libraries.entries@;
        let mut list: Vec<(&str, &LibraryConfig)> = Vec::new();
        let mut i: usize = 0;
        reveal(Seq::filter);
        assert(entries.take(0).filter(keep) =~= Seq::empty());
        while i < self.libraries.entries.len()
            invariant
                entries == self.libraries.entries@,
                keep == (|entry: (String, LibraryConfig)| !entry.1.skipped),
                i <= entries.len(),
                list@.len() == entries.take(i as int).filter(keep).len(),
                forall|j: int|
                    0 <= j < list@.len() ==> (#[trigger] list@[j]).0@ == entries.take(
                        i as int,
                    ).filter(keep)[j].0@ && *list@[j].1 == entries.take(i as int).filter(keep)[j].1,
            decreases entries.len() - i,
        {
            reveal(Seq::filter);
            assert(entries.take(i + 1).drop_last() =~= entries.take(i as int));
            assert(entries.take(i + 1).last() == entries[i as int]);
            let entry = &self.libraries.entries[i];
            if !entry.1.skipped {
                list.push((entry.0.as_str(), &entry.1));
            }
            i += 1;
        }
        assert(entries.take(i as int) =~= entries);
        list
    }

    /// The configured modules that lead to `location`, outermost first. They end where a module
    /// is not configured.
    pub fn module_configs(&self, location: &Location) -> (list: Vec<&ModuleConfig>)
        requires
            self.wf(),
        ensures
            list@.len() == self.modules_to(location).len(),
            forall|i: int|
                0 <= i < list@.len() ==> *(#[trigger] list@[i]) == self.modules_to(location)[i],
    {
        let mut list: Vec<&ModuleConfig> = Vec::new();
        let library = match self.try_library(location.library_name()) {
            Some(library) => library,
            None => {
                return list;
            },
        };
        let modules = location.modules();
        let ghost path = location@.modules;
        let ghost whole = self.modules_to(location);
        let mut current: &Vec<(String, ModuleConfig)> = &library.module.entries;
        let mut i: usize = 0;
        assert(path.skip(0) =~= path);
        assert(self.libraries@[location@.library].wf());
        while i < modules.len()
            invariant
                views(modules@) == path,
                i <= modules@.len(),
                list@.len() == i,
                whole.len() >= i,
                forall|j: int| 0 <= j < i ==> *(#[trigger] list@[j]) == whole[j],
                whole.skip(i as int) == modules_along(current@, path.skip(i as int)),
                ascending(current@),
                forall|k: int| 0 <= k < current@.len() ==> (#[trigger] current@[k]).1.wf(),
                whole == self.modules_to(location),
            decreases modules@.len() - i,
        {
            let ghost here = current@;
            assert(path.skip(i as int)[0] == modules@[i as int]@);
            match find(current, modules[i].as_str()) {
                Some(module) => {
                    proof {
                        let name = modules@[i as int]@;
                        let p = crate::name_map::position(here, name);
                        assert(here[p].0@ == name);
                        entry_is_value(here, p);
                        assert(here[p].1.wf());
                        assert(path.skip(i as int).skip(1) =~= path.skip(i + 1));
                        let tail = modules_along(module.module@, path.skip(i + 1));
                        assert(whole.skip(i as int) == seq![*module] + tail);
                        assert(whole.skip(i as int)[0] == *module);
                        assert(whole.skip(i + 1) =~= whole.skip(i as int).skip(1));
                        assert((seq![*module] + tail).skip(1) =~= tail);
                    }
                    list.push(module);
                    current = &module.module;
                },
                None => {
                    assert(whole.skip(i as int).len() == 0);
                    return list;
                },
            }
            i += 1;
        }
        assert(whole.skip(i as int).len() == 0);
        list
    }
}

/// The modules that lead to an outer location are the first of those that lead to an inner one,
/// and there are no more of them than the location has components.
pub proof fn outer_modules_lead_to_inner_ones(
    modules: Seq<(String, ModuleConfig)>,
    path: Seq<Seq<char>>,
    n: int,
)
    requires
        0 <= n <= path.len(),
    ensures
        modules_along(modules, path.take(n)).len() <= n,
        modules_along(modules, path.take(n)) == modules_along(modules, path).take(
            modules_along(modules, path.take(n)).len() as int,
        ),
        modules_along(modules, path.take(n)).len() <= modules_along(modules, path).len(),
    decreases n,
{
    let outer = path.take(n);
    if n == 0 || !mapping(modules).dom().contains(path[0]) {
        assert(modules_along(modules, outer).len() == 0);
        assert(modules_along(modules, path).take(0) =~= Seq::empty());
    } else {
        assert(outer[0] == path[0]);
        let first = mapping(modules)[path[0]];
        assert(outer.skip(1) =~= path.skip(1).take(n - 1));
        outer_modules_lead_to_inner_ones(first.module@, path.skip(1), n - 1);
        let short = modules_along(first.module@, outer.skip(1));
        let long = modules_along(first.module@, path.skip(1));
        assert((seq![first] + long).take(short.len() as int + 1) =~= seq![first] + long.take(
            short.len() as int,
        ));
    }
}

/// Where several libraries are of one framework, the last one counts.
pub proof fn last_of_a_framework_counts(
    libraries: Map<Seq<char>, LibraryConfig>,
    more: Seq<LibraryConfig>,
    i: int,
)
    requires
        0 <= i < more.len(),
        forall|j: int|
            i < j < more.len() ==> (#[trigger] more[j]).framework@ != more[i].framework@,
    ensures
        with_frameworks(libraries, more).dom().contains(more[i].framework@),
        with_frameworks(libraries, more)[more[i].framework@] == more[i],
    decreases more.len(),
{
    if i < more.len() - 1 {
        assert(more.last().framework@ != more[i].framework@);
        last_of_a_framework_counts(libraries, more.drop_last(), i);
    }
}

/// A library whose framework is not among the added ones stays as it was, and no name comes to
/// be configured but those of the added frameworks.
pub proof fn other_libraries_stay(
    libraries: Map<Seq<char>, LibraryConfig>,
    more: Seq<LibraryConfig>,
    name: Seq<char>,
)
    requires
        forall|j: int| 0 <= j < more.len() ==> (#[trigger] more[j]).framework@ != name,
    ensures
        with_frameworks(libraries, more).dom().contains(name) <==> libraries.dom().contains(name),
        libraries.dom().contains(name) ==> with_frameworks(libraries, more)[name]
            == libraries[name],
    decreases more.len(),
{
    if more.len() > 0 {
        assert(more.last().framework@ != name);
        other_libraries_stay(libraries, more.drop_last(), name);
    }
}

/// The libraries to parse are exactly those that are not skipped.
pub proof fn unskipped_libraries_are_parsed(config: Config, i: int)
    requires
        0 <= i < config.libraries.entries@.len(),
    ensures
        config.parsed().contains(config.libraries.entries@[i])
            <==> !config.libraries.entries@[i].1.skipped,
        forall|k: int|
            0 <= k < config.parsed().len() ==> config.libraries.entries@.contains(
                #[trigger] config.parsed()[k],
            ) && !config.parsed()[k].1.skipped,
{
    let keep = |entry: (String, LibraryConfig)| !entry.1.skipped;
    let entries = config.libraries.entries@;
    broadcast use vstd::seq_lib::group_filter_ensures;

    let entry = entries[i];
    if !entry.1.skipped {
        assert(keep(entry));
        assert(entries.filter(keep).contains(entry));
    }
    assert forall|k: int| 0 <= k < config.parsed().len() implies entries.contains(
        #[trigger] config.parsed()[k],
    ) && !config.parsed()[k].1.skipped by {
        assert(keep(entries.filter(keep)[k]));
        filtered_is_there(entries, keep, k);
    }
}

/// What a filter lets through was there before.
pub(crate) proof fn filtered_is_there<T>(list: Seq<T>, keep: spec_fn(T) -> bool, k: int)
    requires
        0 <= k < list.filter(keep).len(),
    ensures
        list.contains(list.filter(keep)[k]),
    decreases list.len(),
{
    reveal(Seq::filter);
    if list.len() > 0 {
        let shorter = list.drop_last();
        if k < shorter.filter(keep).len() {
            filtered_is_there(shorter, keep, k);
            let i = choose|i: int| 0 <= i < shorter.len() && shorter[i] == shorter.filter(keep)[k];
            assert(list[i] == list.filter(keep)[k]);
        } else {
            assert(list[list.len() - 1] == list.filter(keep)[k]);
        }
    }
}

/// A typedef whose name is not configured, of a type that is not a Core Foundation pointer,
/// keeps its name. One whose name is configured gets that name, whatever its type.
pub proof fn typedef_names_follow_the_configuration(
    library: LibraryConfig,
    name: Seq<char>,
    is_cf: bool,
)
    ensures
        !library.typedef_data@.dom().contains(name) ==> Config::typedef_name(library, name, false)
            == name,
        library.typedef_data@.dom().contains(name) && library.typedef_data@[name].renamed is Some
            ==> Config::typedef_name(library, name, is_cf)
            == library.typedef_data@[name].renamed->Some_0@,
{
}

} // verus!
