//! What the configuration says of single declarations.

use vstd::prelude::*;

use crate::config::counterpart::Counterpart;
use crate::config::item::{ItemIdentifier, Location};
use crate::name_map::NameMap;
use crate::text::same_text;

verus! {

/// An external item whose header is not imported.
///
/// Usually a bare `@protocol X;` or `@class X;`, but other things are possible too.
#[derive(Debug, Clone, PartialEq, Eq)]
pub struct ExternalData {
    pub module: Location,
}

impl ExternalData {
    /// The identifier of the item `name`.
    pub fn into_id(self, name: String) -> (id: ItemIdentifier)
        ensures
            id.name == name,
            id.location == self.module,
    {
        ItemIdentifier::from_raw(name, self.module)
    }
}

/// An example that documentation refers to.
#[derive(Debug, Default, Clone, PartialEq, Eq)]
pub struct Example {
    pub name: String,
    pub description: String,
}

/// Whether calling something is `unsafe`. It is, unless the configuration says otherwise.
#[derive(Debug, Clone, Copy, PartialEq, Eq, Structural)]
pub struct Unsafe(pub bool);

impl Unsafe {
    /// Whether calls are safe.
    pub fn safe(&self) -> (safe: bool)
        ensures
            safe == !self.0,
    {
        !self.0
    }
}

impl Default for Unsafe {
    fn default() -> (u: Self)
        ensures
            u == Unsafe(true),
    {
        Unsafe(true)
    }
}

/// The configuration of a category of a class.
#[derive(Debug, Default, Clone, PartialEq, Eq)]
pub struct CategoryData {
    pub skipped: bool,
    pub renamed: Option<String>,
}

/// The configuration of a method.
#[derive(Debug, Clone, PartialEq, Eq)]
pub struct MethodData {
    pub skipped: bool,
    pub renamed: Option<String>,
    pub unsafe_: Unsafe,
}

impl Default for MethodData {
    fn default() -> (data: Self)
        ensures
            data == (MethodData { skipped: false, renamed: None, unsafe_: Unsafe(true) }),
    {
        MethodData { skipped: false, renamed: None, unsafe_: Unsafe(true) }
    }
}

impl MethodData {
    /// The configuration of a method, given the one of the method that it overrides.
    pub open spec fn merged(self, superclass: Self) -> Self {
        MethodData {
            skipped: self.skipped || superclass.skipped,
            renamed: if self.renamed is Some {
                self.renamed
            } else {
                superclass.renamed
            },
            unsafe_: self.unsafe_,
        }
    }

    /// Fills in from the superclass: skipped where either is, its name where there is none of
    /// our own. Whether it is `unsafe` never comes from the superclass.
    pub fn merge_with_superclass(self, superclass: Self) -> (merged: Self)
        ensures
            merged == self.merged(superclass),
            merged.skipped == (self.skipped || superclass.skipped),
            self.renamed is Some ==> merged.renamed == self.renamed,
            self.renamed is None ==> merged.renamed == superclass.renamed,
            merged.unsafe_ == self.unsafe_,
    {
        MethodData {
            unsafe_: self.unsafe_,
            renamed: match self.renamed {
                Some(name) => Some(name),
                None => superclass.renamed,
            },
            skipped: self.skipped || superclass.skipped,
        }
    }

    /// Along a chain of superclasses it does not matter which two neighbours merge first.
    pub proof fn merge_is_associative(self, superclass: Self, grand: Self)
        ensures
            self.merged(superclass).merged(grand) == self.merged(superclass.merged(grand)),
    {
    }

    /// Merging with nothing configured, or with itself, leaves a method as it is.
    pub proof fn merge_keeps_what_is_there(self, unset: Self)
        requires
            !unset.skipped,
            unset.renamed is None,
        ensures
            self.merged(unset) == self,
            self.merged(self) == self,
    {
    }

    /// Nothing of the superclass makes a method `unsafe`, or safe.
    pub proof fn merge_takes_unsafe_from_itself(self, one: Self, other: Self)
        ensures
            self.merged(one).unsafe_ == self.unsafe_,
            self.merged(one).unsafe_ == self.merged(other).unsafe_,
    {
    }
}

/// The traits that a class derives.
#[derive(Debug, Clone, PartialEq, Eq)]
pub struct Derives(pub String);

/// The traits that classes derive where nothing else is configured.
pub const DEFAULT_DERIVES: &'static str = "Debug, PartialEq, Eq, Hash";

impl Default for Derives {
    fn default() -> (derives: Self)
        ensures
            derives.0@ == DEFAULT_DERIVES@,
    {
        Derives(DEFAULT_DERIVES.to_owned())
    }
}

/// The fields of a [`StmtData`] that only some kinds of declaration may set.
#[derive(Debug, Clone, Copy, PartialEq, Eq, Structural)]
pub enum StmtField {
    Methods,
    UseValue,
    Derives,
    DefinitionSkipped,
    Categories,
    Counterpart,
    SkippedProtocols,
    MainThreadOnly,
    RequiresMainThreadOnly,
    Generics,
    Unsafe,
    NoImplementor,
    Implementor,
}

/// The configuration of a declaration.
#[derive(Debug, Clone, PartialEq, Eq)]
pub struct StmtData {
    // Common
    pub skipped: Option<bool>,
    pub renamed: Option<String>,
    // Classes and protocols.
    pub methods: NameMap<MethodData>,
    // Enums, constants and statics.
    pub use_value: Option<bool>,
    // Class only.
    pub derives: Derives,
    pub definition_skipped: bool,
    pub categories: NameMap<CategoryData>,
    pub counterpart: Counterpart,
    pub skipped_protocols: NameMap<()>,
    pub main_thread_only: bool,
    // Protocol only.
    pub requires_mainthreadonly: Option<bool>,
    // Typedef only.
    pub generics: Vec<String>,
    // Functions only.
    pub unsafe_: Unsafe,
    pub no_implementor: bool,
    pub implementor: Option<ItemIdentifier>,
}

impl StmtData {
    /// Whether `field` holds something other than its default.
    pub open spec fn sets(&self, field: StmtField) -> bool {
        match field {
            StmtField::Methods => self.methods.entries@.len() != 0,
            StmtField::UseValue => self.use_value is Some,
            StmtField::Derives => self.derives.0@ != DEFAULT_DERIVES@,
            StmtField::DefinitionSkipped => self.definition_skipped,
            StmtField::Categories => self.categories.entries@.len() != 0,
            StmtField::Counterpart => self.counterpart !is NoCounterpart,
            StmtField::SkippedProtocols => self.skipped_protocols.entries@.len() != 0,
            StmtField::MainThreadOnly => self.main_thread_only,
            StmtField::RequiresMainThreadOnly => self.requires_mainthreadonly is Some,
            StmtField::Generics => self.generics@.len() != 0,
            StmtField::Unsafe => self.unsafe_ != Unsafe(true),
            StmtField::NoImplementor => self.no_implementor,
            StmtField::Implementor => self.implementor is Some,
        }
    }

    /// Whether nothing is configured.
    pub open spec fn is_empty(&self) -> bool {
        &&& self.skipped is None
        &&& self.renamed is None
        &&& forall|field: StmtField| !self.sets(field)
    }

    /// Whether `field` holds something other than its default.
    pub fn is_set(&self, field: StmtField) -> (set: bool)
        ensures
            set == self.sets(field),
    {
        match field {
            StmtField::Methods => !self.methods.is_empty(),
            StmtField::UseValue => self.use_value.is_some(),
            StmtField::Derives => !same_text(self.derives.0.as_str(), DEFAULT_DERIVES),
            StmtField::DefinitionSkipped => self.definition_skipped,
            StmtField::Categories => !self.categories.is_empty(),
            StmtField::Counterpart => match self.counterpart {
                Counterpart::NoCounterpart => false,
                _ => true,
            },
            StmtField::SkippedProtocols => !self.skipped_protocols.is_empty(),
            StmtField::MainThreadOnly => self.main_thread_only,
            StmtField::RequiresMainThreadOnly => self.requires_mainthreadonly.is_some(),
            StmtField::Generics => self.generics.len() != 0,
            StmtField::Unsafe => self.unsafe_.safe(),
            StmtField::NoImplementor => self.no_implementor,
            StmtField::Implementor => self.implementor.is_some(),
        }
    }

    /// The configuration that says nothing.
    pub fn empty() -> (data: Self)
        ensures
            data.is_empty(),
    {
        StmtData {
            skipped: None,
            renamed: None,
            methods: NameMap::new(),
            use_value: None,
            derives: Derives::default(),
            definition_skipped: false,
            categories: NameMap::new(),
            counterpart: Counterpart::NoCounterpart,
            skipped_protocols: NameMap::new(),
            main_thread_only: false,
            requires_mainthreadonly: None,
            generics: Vec::new(),
            unsafe_: Unsafe::default(),
            no_implementor: false,
            implementor: None,
        }
    }
}

impl Default for StmtData {
    fn default() -> (data: Self)
        ensures
            data.is_empty(),
    {
        StmtData::empty()
    }
}

} // verus!
