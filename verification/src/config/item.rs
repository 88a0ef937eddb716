//! Where items are declared, and what they are called.

use vstd::prelude::*;

use crate::text::{pieces, split, views};

verus! {

/// The place of a declaration: a library, and the modules that lead to it from there.
#[derive(Debug, Clone, PartialEq, Eq)]
pub struct Location {
    pub library: String,
    pub modules: Vec<String>,
}

/// What a [`Location`] says.
#[verifier::ext_equal]
pub struct LocationView {
    pub library: Seq<char>,
    pub modules: Seq<Seq<char>>,
}

/// The location that a list of path components stands for, the library first.
pub open spec fn location_of(components: Seq<Seq<char>>) -> LocationView {
    LocationView { library: components[0], modules: components.skip(1) }
}

impl View for Location {
    type V = LocationView;

    open spec fn view(&self) -> LocationView {
        LocationView { library: self.library@, modules: views(self.modules@) }
    }
}

/// The location whose components are the first `n` of `list`.
fn location_from(list: &Vec<String>, n: usize) -> (location: Location)
    requires
        0 < n <= list@.len(),
    ensures
        location@ == location_of(views(list@).take(n as int)),
{
    let mut modules: Vec<String> = Vec::new();
    let mut i: usize = 1;
    while i < n
        invariant
            1 <= i <= n <= list@.len(),
            views(modules@) =~= views(list@).subrange(1, i as int),
        decreases n - i,
    {
        let ghost before = modules@;
        modules.push(list[i].clone());
        assert(views(modules@) =~= views(before).push(list@[i as int]@));
        i += 1;
    }
    let location = Location { library: list[0].clone(), modules };
    assert(views(list@).take(n as int).skip(1) =~= views(list@).subrange(1, n as int));
    location
}

impl Location {
    /// Reads a path such as `Foundation.NSString`: components between dots, the library first.
    pub fn new(path: &str) -> (location: Location)
        ensures
            location@ == location_of(pieces(path@, '.')),
    {
        let list = split(path, '.');
        let n: usize = list.len();
        assert(views(list@).take(n as int) =~= views(list@));
        location_from(&list, n)
    }

    /// The name of the library.
    pub fn library_name(&self) -> (name: &str)
        ensures
            name@ == self@.library,
    {
        self.library.as_str()
    }

    /// The modules below the library, outermost first.
    pub fn modules(&self) -> (modules: &Vec<String>)
        ensures
            views(modules@) == self@.modules,
    {
        &self.modules
    }
}

/// Why a text names no item.
#[derive(Clone, Copy, PartialEq, Eq, Structural, Debug)]
pub enum ItemError {
    /// The text has no dot, so it holds a name and no location.
    MissingLocation,
}

/// A declared item: its name, and the place of its declaration.
#[derive(Debug, Clone, PartialEq, Eq)]
pub struct ItemIdentifier {
    pub name: String,
    pub location: Location,
}

/// What an [`ItemIdentifier`] says.
#[verifier::ext_equal]
pub struct ItemView {
    pub name: Seq<char>,
    pub location: LocationView,
}

/// The item that `value` names: the last component of a dotted path is the name, what comes
/// before it the location. `None` where there is no dot.
pub open spec fn item_of(value: Seq<char>) -> Option<ItemView> {
    let list = pieces(value, '.');
    if list.len() < 2 {
        None
    } else {
        Some(ItemView { name: list.last(), location: location_of(list.drop_last()) })
    }
}

impl View for ItemIdentifier {
    type V = ItemView;

    open spec fn view(&self) -> ItemView {
        ItemView { name: self.name@, location: self.location@ }
    }
}

impl ItemIdentifier {
    /// The item `name` declared at `location`.
    pub fn from_raw(name: String, location: Location) -> (id: ItemIdentifier)
        ensures
            id.name == name,
            id.location == location,
    {
        ItemIdentifier { name, location }
    }

    /// Reads an identifier such as `Foundation.NSString`.
    pub fn from_str(value: &str) -> (id: Result<ItemIdentifier, ItemError>)
        ensures
            id matches Ok(i) ==> item_of(value@) == Some(i@),
            id is Err <==> item_of(value@) is None,
    {
        let list = split(value, '.');
        let n: usize = list.len();
        if n < 2 {
            assert(views(list@).len() == list@.len());
            return Err(ItemError::MissingLocation);
        }
        assert(views(list@).take(n - 1) =~= views(list@).drop_last());
        let location = location_from(&list, n - 1);
        Ok(ItemIdentifier { name: list[n - 1].clone(), location })
    }

    /// The same place under another name.
    pub fn with_name(self, name: String) -> (id: ItemIdentifier)
        ensures
            id.name == name,
            id.location == self.location,
    {
        ItemIdentifier { name, location: self.location }
    }
}

} // verus!
