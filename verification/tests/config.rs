use objc2::config::counterpart::{Counterpart, CounterpartError};
use objc2::config::entity::{Entity, EntityKind, StmtTable};
use objc2::config::item::{ItemError, ItemIdentifier, Location};
use objc2::config::library::{
    check_names, check_platform, link_default, CrateNameError, LibraryConfig, ModuleConfig,
};
use objc2::config::nesting::{check_depth, MAX_DOTS, MAX_OPEN};
use objc2::config::skipped::{collect_skipped, load_skipped, SkippedError};
use objc2::config::stmt::{
    CategoryData, Derives, Example, ExternalData, MethodData, StmtData, StmtField, Unsafe,
};
use objc2::config::version::{get_version, version_field, Version};
use objc2::config::{cf_no_ref, collect_libraries, Config, ConfigError, FoundCrate};
use objc2::name_map::NameMap;
use objc2::text::{compare, remove_all, split, strip_prefix, strip_suffix, Order};

fn library(framework: &str, krate: &str) -> LibraryConfig {
    LibraryConfig {
        framework: framework.to_string(),
        krate: krate.to_string(),
        ..LibraryConfig::default()
    }
}

fn map<V>(entries: Vec<(&str, V)>) -> NameMap<V> {
    let mut map = NameMap::new();
    for (name, value) in entries {
        map.insert(name.to_string(), value);
    }
    map
}

fn names<V>(map: &NameMap<V>) -> Vec<&str> {
    map.entries.iter().map(|(name, _)| name.as_str()).collect()
}

fn config(libraries: Vec<(&str, LibraryConfig)>) -> Config {
    Config::new(map(libraries), vec![library("__builtin__", "__builtin__")], &map(vec![])).unwrap()
}

fn renamed(name: &str) -> StmtData {
    StmtData { renamed: Some(name.to_string()), ..StmtData::empty() }
}

fn entity(name: &str, kind: EntityKind) -> Entity {
    Entity { anonymous: false, name: Some(name.to_string()), kind }
}

fn version(text: &str) -> Option<Version> {
    get_version(Some(text)).unwrap()
}

fn statements(library: &mut LibraryConfig, table: StmtTable) -> &mut NameMap<StmtData> {
    match table {
        StmtTable::Class => &mut library.class_data,
        StmtTable::Protocol => &mut library.protocol_data,
        StmtTable::Struct => &mut library.struct_data,
        StmtTable::Union => &mut library.union_data,
        StmtTable::Enum => &mut library.enum_data,
        StmtTable::Fn => &mut library.fns,
        StmtTable::Static => &mut library.statics,
        StmtTable::Typedef => &mut library.typedef_data,
        StmtTable::Const => &mut library.const_data,
    }
}

const TABLES: [StmtTable; 9] = [
    StmtTable::Class,
    StmtTable::Protocol,
    StmtTable::Struct,
    StmtTable::Union,
    StmtTable::Enum,
    StmtTable::Fn,
    StmtTable::Static,
    StmtTable::Typedef,
    StmtTable::Const,
];

/// A statement that sets one field, and the tables that may set it.
fn setters() -> Vec<(StmtField, StmtData, Vec<StmtTable>)> {
    let empty = StmtData::empty;
    let item = ItemIdentifier::from_str("Foundation.NSString").unwrap();
    let class = vec![StmtTable::Class];
    let function = vec![StmtTable::Fn];
    vec![
        (
            StmtField::Methods,
            StmtData { methods: map(vec![("m", MethodData::default())]), ..empty() },
            vec![StmtTable::Class, StmtTable::Protocol],
        ),
        (
            StmtField::UseValue,
            StmtData { use_value: Some(false), ..empty() },
            vec![StmtTable::Enum, StmtTable::Static, StmtTable::Const],
        ),
        (
            StmtField::Derives,
            StmtData { derives: Derives("Debug".to_string()), ..empty() },
            class.clone(),
        ),
        (
            StmtField::DefinitionSkipped,
            StmtData { definition_skipped: true, ..empty() },
            class.clone(),
        ),
        (
            StmtField::Categories,
            StmtData { categories: map(vec![("c", CategoryData::default())]), ..empty() },
            class.clone(),
        ),
        (
            StmtField::Counterpart,
            StmtData { counterpart: Counterpart::MutableSubclass(item.clone()), ..empty() },
            class.clone(),
        ),
        (
            StmtField::SkippedProtocols,
            StmtData { skipped_protocols: map(vec![("p", ())]), ..empty() },
            class.clone(),
        ),
        (StmtField::MainThreadOnly, StmtData { main_thread_only: true, ..empty() }, class),
        (
            StmtField::RequiresMainThreadOnly,
            StmtData { requires_mainthreadonly: Some(true), ..empty() },
            vec![StmtTable::Protocol],
        ),
        (
            StmtField::Generics,
            StmtData { generics: vec!["T".to_string()], ..empty() },
            vec![StmtTable::Typedef],
        ),
        (StmtField::Unsafe, StmtData { unsafe_: Unsafe(false), ..empty() }, function.clone()),
        (StmtField::NoImplementor, StmtData { no_implementor: true, ..empty() }, function.clone()),
        (StmtField::Implementor, StmtData { implementor: Some(item), ..empty() }, function),
    ]
}

#[test]
fn fields_are_valid_in_their_tables_only() {
    for (field, data, allowed) in setters() {
        assert!(data.is_set(field));
        for table in TABLES {
            let mut lib = library("A", "objc2-a");
            assert_eq!(lib.validate(), Ok(()));
            statements(&mut lib, table).insert("x".to_string(), StmtData::empty());
            assert_eq!(lib.validate(), Ok(()));
            statements(&mut lib, table).insert("y".to_string(), data.clone());
            let expected = if allowed.contains(&table) { Ok(()) } else { Err(field) };
            assert_eq!(lib.validate(), expected);
        }
    }
}

#[test]
fn first_misplaced_field_is_named() {
    let mut lib = library("A", "objc2-a");
    let data = StmtData { no_implementor: true, use_value: Some(true), ..StmtData::empty() };
    lib.class_data.insert("x".to_string(), data);
    assert_eq!(lib.validate(), Err(StmtField::UseValue));
    assert_eq!(
        Config::new(map(vec![("A", lib)]), vec![], &map(vec![])),
        Err(ConfigError::Misplaced { library: "A".to_string(), field: StmtField::UseValue })
    );
}

#[test]
fn empty_statements_set_nothing() {
    for (field, _, _) in setters() {
        assert!(!StmtData::empty().is_set(field));
    }
    assert_eq!(StmtData::default(), StmtData::empty());
    assert_eq!(StmtData::empty().derives.0, "Debug, PartialEq, Eq, Hash");
    assert_eq!(Example::default().description, "");
    assert!(link_default());
}

#[test]
fn calls_are_unsafe_by_default() {
    assert_eq!(Unsafe::default(), Unsafe(true));
    assert!(!Unsafe(true).safe());
    assert!(Unsafe(false).safe());
}

#[test]
fn methods_merge_with_their_superclass() {
    let name = |s: &str| Some(s.to_string());
    let own = MethodData { skipped: false, renamed: name("a"), unsafe_: Unsafe(false) };
    let above = MethodData { skipped: true, renamed: name("b"), unsafe_: Unsafe(true) };
    let plain = MethodData::default();
    assert_eq!(
        own.clone().merge_with_superclass(above.clone()),
        MethodData { skipped: true, renamed: name("a"), unsafe_: Unsafe(false) }
    );
    assert_eq!(
        plain.clone().merge_with_superclass(above.clone()),
        MethodData { skipped: true, renamed: name("b"), unsafe_: Unsafe(true) }
    );
    assert_eq!(own.clone().merge_with_superclass(plain.clone()), own);
    assert_eq!(own.clone().merge_with_superclass(own.clone()), own);
    let left = plain.clone().merge_with_superclass(own.clone()).merge_with_superclass(above.clone());
    assert_eq!(plain.merge_with_superclass(own.merge_with_superclass(above)), left);
}

#[test]
fn statements_are_looked_up_by_kind_and_name() {
    let mut lib = library("A", "objc2-a");
    for (i, table) in TABLES.into_iter().enumerate() {
        statements(&mut lib, table).insert("x".to_string(), renamed(&format!("r{i}")));
    }
    let empty = StmtData::empty();
    let kinds = [
        (EntityKind::ObjCInterfaceDecl, Some("r0")),
        (EntityKind::ObjCClassRef, Some("r0")),
        (EntityKind::ObjCProtocolDecl, Some("r1")),
        (EntityKind::ObjCProtocolRef, Some("r1")),
        (EntityKind::StructDecl, Some("r2")),
        (EntityKind::UnionDecl, Some("r3")),
        (EntityKind::EnumDecl, Some("r4")),
        (EntityKind::FunctionDecl, Some("r5")),
        (EntityKind::VarDecl, Some("r6")),
        (EntityKind::TypedefDecl, Some("r7")),
        (EntityKind::EnumConstantDecl, Some("r8")),
        (EntityKind::ObjCCategoryDecl, None),
        (EntityKind::FieldDecl, None),
        (EntityKind::ObjCClassMethodDecl, None),
        (EntityKind::ObjCInstanceMethodDecl, None),
        (EntityKind::ObjCPropertyDecl, None),
        (EntityKind::MacroDefinition, None),
        (EntityKind::MacroExpansion, None),
        (EntityKind::UnexposedDecl, None),
        (EntityKind::Unknown, None),
    ];
    for (kind, expected) in kinds {
        assert_eq!(lib.get(&entity("x", kind), &empty).renamed.as_deref(), expected);
        assert_eq!(lib.get(&entity("y", kind), &empty), &empty);
    }
}

#[test]
fn anonymous_entities_share_a_name() {
    let mut lib = library("A", "objc2-a");
    lib.enum_data.insert("__anonymous__".to_string(), renamed("shared"));
    lib.enum_data.insert("x".to_string(), renamed("x"));
    let empty = StmtData::empty();
    let anonymous = Entity { anonymous: true, ..entity("x", EntityKind::EnumDecl) };
    assert_eq!(lib.get(&anonymous, &empty).renamed.as_deref(), Some("shared"));
    let nameless = Entity { anonymous: false, name: None, kind: EntityKind::EnumDecl };
    assert_eq!(lib.get(&nameless, &empty), &empty);
}

#[test]
fn versions_are_read_leniently() {
    assert_eq!(get_version(None), Ok(None));
    assert_eq!(version("10.12"), Some(Version::new(10, 12, 0)));
    assert_eq!(version("13"), Some(Version::new(13, 0, 0)));
    assert_eq!(version("1.2.3"), Some(Version::new(1, 2, 3)));
    assert_eq!(
        version("1.2.3-beta.1+build"),
        Some(Version {
            pre: "beta.1".to_string(),
            build: "build".to_string(),
            ..Version::new(1, 2, 3)
        })
    );
    assert!(get_version(Some("ten")).is_err());
    assert!(get_version(Some("")).is_err());
    assert_eq!(version_field(Err("why".to_string())), Err("why".to_string()));
    assert_eq!(version_field(Ok(Version::new(1, 0, 0))), Ok(Some(Version::new(1, 0, 0))));
}

#[test]
fn versions_are_ordered() {
    let v = Version::new;
    assert!(v(1, 9, 9).at_most(&v(2, 0, 0)));
    assert!(v(10, 2, 0).at_most(&v(10, 12, 0)));
    assert!(v(1, 2, 3).at_most(&v(1, 2, 3)));
    assert!(!v(1, 2, 4).at_most(&v(1, 2, 3)));
    let beta = version("1.2.3-beta").unwrap();
    assert!(beta.at_most(&v(1, 2, 3)));
    assert!(!v(1, 2, 3).at_most(&beta));
}

#[test]
fn platforms_decide_dependencies() {
    let min = || Version::new(10, 12, 0);
    let v = |minor| Some(Version::new(10, minor, 0));
    assert!(check_platform(&v(15), &v(15), min()));
    assert!(check_platform(&v(15), &v(14), min()));
    assert!(!check_platform(&v(14), &v(15), min()));
    assert!(check_platform(&v(5), &v(12), min()));
    assert!(!check_platform(&v(5), &v(13), min()));
    assert!(check_platform(&v(5), &None, min()));
    assert!(check_platform(&None, &v(15), min()));
    assert!(check_platform(&None, &None, min()));
}

#[test]
fn every_platform_counts() {
    fn set(platform: usize, text: &str) -> LibraryConfig {
        let mut lib = library("A", "objc2-a");
        let v = version(text);
        match platform {
            0 => lib.macos = v,
            1 => lib.maccatalyst = v,
            2 => lib.ios = v,
            3 => lib.tvos = v,
            4 => lib.watchos = v,
            _ => lib.visionos = v,
        }
        lib
    }
    let minimums = ["10.12", "13.1", "10.0", "10.0", "5.0", "1.0"];
    let above = ["10.12.1", "13.1.1", "10.0.1", "10.0.1", "5.0.1", "1.0.1"];
    for platform in 0..6 {
        let low = set(platform, "0.1");
        assert!(low.can_safely_depend_on(&set(platform, minimums[platform])));
        assert!(!low.can_safely_depend_on(&set(platform, above[platform])));
        assert!(set(platform, above[platform]).can_safely_depend_on(&low));
        assert!(low.can_safely_depend_on(&set((platform + 1) % 6, "99")));
        assert!(low.can_safely_depend_on(&low));
    }
}

#[test]
fn dependencies_chain_over_releases() {
    let lib = |text: Option<&str>| LibraryConfig {
        macos: text.and_then(version),
        ..library("A", "objc2-a")
    };
    let (new, mid, old) = (lib(Some("14.0")), lib(Some("13.0")), lib(Some("11.0")));
    assert!(new.can_safely_depend_on(&mid) && mid.can_safely_depend_on(&old));
    assert!(new.can_safely_depend_on(&old));
    // A platform that is missing in between breaks the chain.
    let none = lib(None);
    assert!(old.can_safely_depend_on(&none) && none.can_safely_depend_on(&new));
    assert!(!old.can_safely_depend_on(&new));
}

#[test]
fn crates_are_named_after_their_frameworks() {
    let check = |framework, krate| library(framework, krate).check_crate_name();
    assert_eq!(check("AppKit", "objc2-app-kit"), Ok(()));
    assert_eq!(check("Foundation", "objc2-foundation"), Ok(()));
    assert_eq!(check("AVFAudio", "objc2-avf-audio"), Ok(()));
    assert_eq!(check("AppKit", "objc2-appkit"), Err(CrateNameError::Words));
    assert_eq!(check("AppKit", "objc2-ui-kit"), Err(CrateNameError::Letters));
    assert_eq!(check("AppKit", "app-kit"), Err(CrateNameError::Words));
    assert_eq!(check("TVMLKit", "objc2-tv-ml-kit"), Ok(()));
    assert_eq!(check("TVUIKit", "objc2-tv-ui-kit"), Ok(()));
    assert_eq!(check("JavaScriptCore", "objc2-javascript-core"), Ok(()));
    assert_eq!(check("JavaScriptCore", "objc2-java-script-core"), Ok(()));
    assert_eq!(check("iTunesLibrary", "objc2-itunes-library"), Ok(()));
    assert_eq!(check("IOUSBHost", "objc2-io-usb-host"), Ok(()));
    assert_eq!(check("Other", "objc2-io-usb-host"), Err(CrateNameError::Letters));
    assert_eq!(check_names("appkit", "app-kit", "objc2-app-kit"), Ok(()));
    assert_eq!(check_names("appkit", "appkit", "objc2-app-kit"), Err(CrateNameError::Words));
    assert_eq!(check_names("kit", "kit", "objc2-objc2-kit"), Err(CrateNameError::Words));
}

#[test]
fn locations_are_dotted_paths() {
    let location = Location::new("Foundation.NSString.Inner");
    assert_eq!(location.library_name(), "Foundation");
    assert_eq!(location.modules(), &["NSString", "Inner"]);
    let id = ItemIdentifier::from_str("Foundation.NSString.Name").unwrap();
    assert_eq!(id.name, "Name");
    assert_eq!(id.location, Location::new("Foundation.NSString"));
    assert_eq!(ItemIdentifier::from_str("Name"), Err(ItemError::MissingLocation));
    let external = ExternalData { module: Location::new("AppKit.NSView") };
    let id = external.into_id("NSView".to_string());
    assert_eq!(id, ItemIdentifier::from_str("AppKit.NSView.NSView").unwrap());
}

#[test]
fn counterparts_are_read() {
    let item = ItemIdentifier::from_str("Foundation.NSMutableString").unwrap();
    assert_eq!(
        Counterpart::from_str("MutableSubclass(Foundation.NSMutableString)"),
        Ok(Counterpart::MutableSubclass(item.clone()))
    );
    assert_eq!(
        Counterpart::from_str("ImmutableSuperclass(Foundation.NSMutableString)"),
        Ok(Counterpart::ImmutableSuperclass(item))
    );
    assert_eq!(
        Counterpart::from_str("MutableSubclass(Foundation.NSMutableString"),
        Err(CounterpartError::EndParenthesis)
    );
    assert_eq!(
        Counterpart::from_str("ImmutableSuperclass(NSString)"),
        Err(CounterpartError::Item(ItemError::MissingLocation))
    );
    assert_eq!(Counterpart::from_str("Other(A.B)"), Err(CounterpartError::UnknownVariant));
    assert_eq!(Counterpart::default(), Counterpart::NoCounterpart);
}

#[test]
fn unreadable_counterparts_are_explained() {
    let message = |value: &str| Counterpart::from_str(value).unwrap_err().message(value);
    assert_eq!(message("MutableSubclass(Foundation.NSMutableString"), "end parenthesis");
    assert_eq!(message("NSString"), "unknown variant \"NSString\"");
    assert_eq!(message("a\"b\n"), format!("unknown variant {:?}", "a\"b\n"));
    assert_eq!(message("MutableSubclass(X)"), "item identifier without a location");
}

#[test]
fn skipped_frameworks_are_read_from_toml() {
    let text = "# why\nB = \"second [reason]. See 1.0\"\nA = 'first'\n\"C.D\" = \"\"\n";
    let skipped = load_skipped(text).unwrap();
    assert_eq!(names(&skipped), ["A", "B", "C.D"]);
    assert_eq!(skipped.get("A").unwrap(), "first");
    assert_eq!(skipped.get("B").unwrap(), "second [reason]. See 1.0");
    assert!(load_skipped("").unwrap().is_empty());
    assert_eq!(
        load_skipped("A = 1"),
        Err(SkippedError::Toml(
            "invalid type: integer `1`, expected a string for key `A` at line 1 column 5".to_string()
        ))
    );
    assert!(matches!(load_skipped("A = \"x\"\nA = \"y\""), Err(SkippedError::Toml(_))));
    assert!(matches!(load_skipped("[A]\nB = \"x\""), Err(SkippedError::Toml(_))));
    let entries = vec![
        ("b".to_string(), "1".to_string()),
        ("a".to_string(), "2".to_string()),
        ("b".to_string(), "3".to_string()),
    ];
    let map = collect_skipped(entries);
    assert_eq!(names(&map), ["a", "b"]);
    assert_eq!(map.get("b").unwrap(), "3");
}

#[test]
fn deep_values_are_not_parsed() {
    let arrays = |n: usize| format!("a = {}{}", "[".repeat(n), "]".repeat(n));
    let tables = |n: usize| format!("a = {}1{}", "{a = ".repeat(n), "}".repeat(n));
    let key = |n: usize| format!("a{}", ".a".repeat(n));
    let dots = |n: usize| format!("{} = 1", key(n));
    let mixed = |n: usize| {
        let open = format!("[\n{{{} = ", key(MAX_DOTS));
        format!("{} = {}1{}", key(MAX_DOTS), open.repeat(n), "}]".repeat(n))
    };
    let dotted = |n: usize| {
        let open = format!("{{{} = ", key(MAX_DOTS));
        format!("{} = {}1{}", key(MAX_DOTS), open.repeat(n), "}".repeat(n))
    };
    for text in [
        arrays(MAX_OPEN),
        tables(MAX_OPEN),
        dots(MAX_DOTS),
        mixed(MAX_OPEN / 2),
        dotted(MAX_OPEN),
    ] {
        assert!(matches!(load_skipped(&text), Err(SkippedError::Toml(_))));
    }
    for text in [
        arrays(MAX_OPEN + 1),
        tables(MAX_OPEN + 1),
        dots(MAX_DOTS + 1),
        mixed(MAX_OPEN / 2 + 1),
        dotted(MAX_OPEN + 1),
    ] {
        assert_eq!(load_skipped(&text), Err(SkippedError::Nested));
    }
}

#[test]
fn strings_and_comments_nest_nothing() {
    let deep = "[{.".repeat(1000);
    for text in [
        format!("a = \"{deep}\""),
        format!("a = '{deep}'"),
        format!("a = \"\\\"{deep}\""),
        format!("a = \"\"\"\n{deep}\\\"\"\" {deep}\"\"\"\"\""),
        format!("a = '''\n{deep}'' {deep}'''"),
        format!("'{deep}' = 'x' # {deep}"),
        format!("# {deep}\na = '' # {deep}\nb = \"\" # {deep}"),
        format!("a = \"\"\"{deep}\"\"\"\"\" # {deep}\nb = '{deep}'"),
    ] {
        assert!(check_depth(&text));
        assert!(load_skipped(&text).is_ok());
    }
    for text in [
        format!("a = \"\"{deep}"),
        format!("a = \"x\" {deep}"),
        format!("a = 'x\\' {deep}"),
        format!("a = \"\"\"x\"\"\"\"\" {deep}"),
        format!("# x\n{deep}"),
    ] {
        assert!(!check_depth(&text));
    }
    // Brackets that were closed do not count, nor do dots of other keys.
    assert!(check_depth(&"a = [{}]\n".repeat(1000)));
    assert!(check_depth(&"a.b = 1.5, ".repeat(1000)));
    let reasons: Vec<String> =
        (0..300).map(|i| format!("F{i} = 'see [1]. And {{2}}. And ... {i}.0.0.'\n")).collect();
    assert_eq!(load_skipped(&reasons.concat()).unwrap().len(), 300);
}

#[test]
fn later_versions_can_depend_on_earlier_ones() {
    let lib = |text: Option<&str>| LibraryConfig {
        ios: text.and_then(version),
        ..library("A", "objc2-a")
    };
    let versions = [None, Some("11.0-beta.2"), Some("11.0-beta.10"), Some("11.0"), Some("12.1+b")];
    assert!(lib(Some("11.0-beta.10")).can_safely_depend_on(&lib(Some("11.0-beta.2"))));
    assert!(!lib(Some("11.0-beta.10")).can_safely_depend_on(&lib(Some("11.0"))));
    for (i, ours) in versions.into_iter().enumerate() {
        for (j, other) in versions.into_iter().enumerate() {
            if i > 0 && lib(ours).can_safely_depend_on(&lib(other)) {
                for later in &versions[i..] {
                    for earlier in &versions[..j + 1] {
                        assert!(lib(*later).can_safely_depend_on(&lib(*earlier)));
                        assert!(lib(None).can_safely_depend_on(&lib(*earlier)));
                    }
                }
            }
        }
    }
}

#[test]
fn workspaces_collect_their_libraries() {
    let found = |directory: &str, framework: &str, krate: &str| FoundCrate {
        directory: directory.to_string(),
        config: library(framework, krate),
    };
    let fixed = || (library("Block", "block2"), library("Objc", "objc2"), library("D", "dispatch2"));
    let (block, objc, dispatch) = fixed();
    let libraries = collect_libraries(
        vec![found("objc2-b", "B", "objc2-b"), found("objc2-a", "A", "objc2-a")],
        block,
        objc,
        dispatch,
    )
    .unwrap();
    assert_eq!(names(&libraries), ["A", "B", "Dispatch", "ObjectiveC", "block"]);
    assert_eq!(libraries.get("block").unwrap().krate, "block2");
    assert_eq!(libraries.get("ObjectiveC").unwrap().krate, "objc2");
    assert_eq!(libraries.get("Dispatch").unwrap().krate, "dispatch2");
    assert!(found("objc2-a", "A", "objc2-a").is_in_place());
    assert!(!found("objc2-x", "A", "objc2-a").is_in_place());
    let (block, objc, dispatch) = fixed();
    assert_eq!(
        collect_libraries(vec![found("objc2-x", "A", "objc2-a")], block, objc, dispatch),
        Err(ConfigError::Directory("objc2-x".to_string()))
    );
}

#[test]
fn builtin_libraries_join_under_their_frameworks() {
    let mut old = library("core", "old");
    old.skipped = true;
    let builtins = vec![library("core", "first"), library("core", "core"), library("libc", "libc")];
    let c = Config::new(map(vec![("core", old), ("A", library("A", "a"))]), builtins, &map(vec![]));
    let c = c.unwrap();
    assert_eq!(names(&c.libraries), ["A", "core", "libc"]);
    assert_eq!(c.try_library("core").unwrap().krate, "core");
    assert_eq!(c.try_library("A").unwrap().krate, "a");
    assert!(c.try_library("B").is_none());
}

#[test]
fn skipped_frameworks_are_not_configured() {
    let libraries = || map(vec![("A", library("A", "a"))]);
    let reason = || "a reason".to_string();
    assert!(Config::new(libraries(), vec![], &map(vec![("B", reason())])).is_ok());
    assert_eq!(
        Config::new(libraries(), vec![], &map(vec![("0", reason()), ("A", reason())])),
        Err(ConfigError::NotSkipped("A".to_string()))
    );
    assert_eq!(
        Config::new(libraries(), vec![library("B", "b")], &map(vec![("B", reason())])),
        Err(ConfigError::NotSkipped("B".to_string()))
    );
}

#[test]
fn unknown_libraries_are_builtin() {
    let c = config(vec![("A", library("A", "objc2-a")), ("B", library("B", "objc2-b"))]);
    assert_eq!(c.library(&Location::new("A.X")).krate, "objc2-a");
    assert_eq!(c.library(&Location::new("C.X")).krate, "__builtin__");
    assert_eq!(c.library_from_crate("objc2-b").framework, "B");
    assert_eq!(c.library_from_crate("objc2-c").framework, "__builtin__");
    assert!(c.try_library_from_crate("objc2-c").is_none());
    let c = config(vec![("B", library("B", "same")), ("A", library("A", "same"))]);
    assert_eq!(c.try_library_from_crate("same").unwrap().framework, "A");
}

#[test]
fn typedefs_get_their_names() {
    let mut lib = library("A", "objc2-a");
    lib.typedef_data.insert("FooRef".to_string(), renamed("Bar"));
    lib.typedef_data.insert("KeptRef".to_string(), StmtData::empty());
    let c = config(vec![("A", lib)]);
    let rename = |path: &str, is_cf| {
        let id = ItemIdentifier::from_str(path).unwrap();
        let location = id.location.clone();
        let renamed = c.replace_typedef_name(id, is_cf);
        assert_eq!(renamed.location, location);
        renamed.name
    };
    assert_eq!(rename("A.FooRef", false), "Bar");
    assert_eq!(rename("A.FooRef", true), "Bar");
    assert_eq!(rename("A.KeptRef", true), "Kept");
    assert_eq!(rename("A.KeptRef", false), "KeptRef");
    assert_eq!(rename("A.OtherRef", true), "Other");
    assert_eq!(rename("A.Other", true), "Other");
    assert_eq!(rename("B.FooRef", false), "FooRef");
    assert_eq!(cf_no_ref("RefRef"), "Ref");
    assert_eq!(cf_no_ref("Reference"), "Reference");
}

#[test]
fn skipped_libraries_are_not_parsed() {
    let mut skipped = library("B", "objc2-b");
    skipped.skipped = true;
    let c = config(vec![
        ("C", library("C", "objc2-c")),
        ("B", skipped),
        ("A", library("A", "objc2-a")),
    ]);
    let parsed: Vec<&str> = c.to_parse().into_iter().map(|(name, _)| name).collect();
    assert_eq!(parsed, ["A", "C", "__builtin__"]);
    assert_eq!(c.to_parse()[1].1.krate, "objc2-c");
}

#[test]
fn modules_are_followed_as_far_as_configured() {
    let inner = ModuleConfig { skipped: true, module: vec![] };
    let outer = ModuleConfig { skipped: false, module: vec![("Inner".to_string(), inner)] };
    let mut lib = library("A", "objc2-a");
    lib.module.insert("Outer".to_string(), outer);
    lib.module.insert("Other".to_string(), ModuleConfig::default());
    let c = config(vec![("A", lib)]);
    let skipped = |path: &str| -> Vec<bool> {
        c.module_configs(&Location::new(path)).into_iter().map(|m| m.skipped).collect()
    };
    assert_eq!(skipped("A.Outer.Inner"), [false, true]);
    assert_eq!(skipped("A.Outer"), [false]);
    assert_eq!(skipped("A.Outer.Inner.Deep"), [false, true]);
    assert_eq!(skipped("A.Outer.Missing.Inner"), [false]);
    assert_eq!(skipped("A.Missing.Inner"), []);
    assert_eq!(skipped("A"), []);
    assert_eq!(skipped("B.Outer"), []);
}

#[test]
fn maps_keep_their_names_in_order() {
    let mut m = map(vec![("b", 1), ("a", 2), ("c", 3), ("ab", 4), ("", 5)]);
    assert_eq!(names(&m), ["", "a", "ab", "b", "c"]);
    m.insert("b".to_string(), 6);
    assert_eq!(m.len(), 5);
    assert_eq!(m.get("b"), Some(&6));
    assert_eq!(m.get("d"), None);
    assert!(m.contains_key("ab"));
    assert!(!m.is_empty());
    assert!(NameMap::<u8>::new().is_empty());
}

#[test]
fn text_is_taken_apart() {
    assert_eq!(compare("a", "b"), Order::Before);
    assert_eq!(compare("b", "a"), Order::After);
    assert_eq!(compare("a", "a"), Order::Same);
    assert_eq!(compare("a", "ab"), Order::Before);
    assert!("\u{ff5e}" < "\u{10000}");
    assert_eq!(compare("\u{ff5e}", "\u{10000}"), Order::Before);
    assert_eq!(strip_prefix("objc2-a", "objc2-"), Some("a".to_string()));
    assert_eq!(strip_prefix("objc2", "objc2-"), None);
    assert_eq!(strip_suffix("a)", ")"), Some("a".to_string()));
    assert_eq!(strip_suffix("a", ")"), None);
    assert_eq!(remove_all("objc2-objc2-a-objc2-", "objc2-"), "a-");
    assert_eq!(remove_all("aaa", "aa"), "a");
    assert_eq!(remove_all("abc", ""), "abc");
    assert_eq!(split("a..b", '.'), ["a", "", "b"]);
    assert_eq!(split("", '.'), [""]);
}
