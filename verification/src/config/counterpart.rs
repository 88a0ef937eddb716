//! Classes that come in a mutable and an immutable variant.

use vstd::prelude::*;

use crate::config::item::{item_of, ItemError, ItemIdentifier, ItemView};
use crate::text::{is_plain, quote, quoted, strip_prefix, strip_suffix, without_prefix, without_suffix};

verus! {

/// The other variant of a class, if it has one.
#[derive(Debug, Default, Clone, PartialEq, Eq)]
pub enum Counterpart {
    #[default]
    NoCounterpart,
    ImmutableSuperclass(ItemIdentifier),
    MutableSubclass(ItemIdentifier),
}

/// What a [`Counterpart`] says.
pub enum CounterpartView {
    NoCounterpart,
    ImmutableSuperclass(ItemView),
    MutableSubclass(ItemView),
}

impl View for Counterpart {
    type V = CounterpartView;

    open spec fn view(&self) -> CounterpartView {
        match self {
            Counterpart::NoCounterpart => CounterpartView::NoCounterpart,
            Counterpart::ImmutableSuperclass(id) => CounterpartView::ImmutableSuperclass(id@),
            Counterpart::MutableSubclass(id) => CounterpartView::MutableSubclass(id@),
        }
    }
}

/// Why a text names no counterpart.
#[derive(Clone, Copy, PartialEq, Eq, Structural, Debug)]
pub enum CounterpartError {
    /// The closing parenthesis is missing.
    EndParenthesis,
    /// What stands between the parentheses names no item.
    Item(ItemError),
    /// The text begins with no known variant.
    UnknownVariant,
}

impl CounterpartError {
    /// The error that `value` gave, in words.
    pub fn message(&self, value: &str) -> (text: String)
        ensures
            *self is EndParenthesis ==> text@ == "end parenthesis"@,
            *self is Item ==> text@ == "item identifier without a location"@,
            *self is UnknownVariant ==> text@ == "unknown variant "@ + quoted(value@),
            *self is UnknownVariant && (forall|i: int|
                0 <= i < value@.len() ==> is_plain(#[trigger] value@[i])) ==> text@
                == "unknown variant "@ + (seq!['"'] + value@ + seq!['"']),
    {
        match self {
            CounterpartError::EndParenthesis => "end parenthesis".to_owned(),
            CounterpartError::Item(_) => "item identifier without a location".to_owned(),
            CounterpartError::UnknownVariant => {
                let mut text = "unknown variant ".to_owned();
                let quotes = quote(value);
                text.append(quotes.as_str());
                text
            },
        }
    }
}

/// The variants that a text can begin with.
#[derive(Clone, Copy, PartialEq, Eq, Structural, Debug)]
pub enum Variant {
    ImmutableSuperclass,
    MutableSubclass,
}

impl Variant {
    /// This variant of `item`.
    pub open spec fn of(self, item: ItemView) -> CounterpartView {
        match self {
            Variant::ImmutableSuperclass => CounterpartView::ImmutableSuperclass(item),
            Variant::MutableSubclass => CounterpartView::MutableSubclass(item),
        }
    }

    /// What introduces this variant in a text.
    pub open spec fn opening(self) -> Seq<char> {
        match self {
            Variant::ImmutableSuperclass => "ImmutableSuperclass("@,
            Variant::MutableSubclass => "MutableSubclass("@,
        }
    }
}

/// What the text after the opening of `variant` says.
pub open spec fn counterpart_after(variant: Variant, rest: Seq<char>) -> Result<
    CounterpartView,
    CounterpartError,
> {
    match without_suffix(rest, ")"@) {
        None => Err(CounterpartError::EndParenthesis),
        Some(inner) => match item_of(inner) {
            None => Err(CounterpartError::Item(ItemError::MissingLocation)),
            Some(item) => Ok(variant.of(item)),
        },
    }
}

/// What `value` says: `ImmutableSuperclass(..)` or `MutableSubclass(..)`, with an item between
/// the parentheses.
pub open spec fn counterpart_of(value: Seq<char>) -> Result<CounterpartView, CounterpartError> {
    match without_prefix(value, Variant::ImmutableSuperclass.opening()) {
        Some(rest) => counterpart_after(Variant::ImmutableSuperclass, rest),
        None => match without_prefix(value, Variant::MutableSubclass.opening()) {
            Some(rest) => counterpart_after(Variant::MutableSubclass, rest),
            None => Err(CounterpartError::UnknownVariant),
        },
    }
}

/// Reads what stands after the opening of `variant`.
fn parse_after(variant: Variant, rest: &str) -> (parsed: Result<Counterpart, CounterpartError>)
    ensures
        parsed matches Ok(c) ==> counterpart_after(variant, rest@) == Ok::<_, CounterpartError>(
            c@,
        ),
        parsed matches Err(e) ==> counterpart_after(variant, rest@) == Err::<CounterpartView, _>(
            e,
        ),
{
    match strip_suffix(rest, ")") {
        None => Err(CounterpartError::EndParenthesis),
        Some(inner) => match ItemIdentifier::from_str(inner.as_str()) {
            Err(e) => Err(CounterpartError::Item(e)),
            Ok(item) => match variant {
                Variant::ImmutableSuperclass => Ok(Counterpart::ImmutableSuperclass(item)),
                Variant::MutableSubclass => Ok(Counterpart::MutableSubclass(item)),
            },
        },
    }
}

impl Counterpart {
    /// Reads a counterpart such as `MutableSubclass(Foundation.NSMutableString)`.
    pub fn from_str(value: &str) -> (parsed: Result<Counterpart, CounterpartError>)
        ensures
            parsed matches Ok(c) ==> counterpart_of(value@) == Ok::<_, CounterpartError>(c@),
            parsed matches Err(e) ==> counterpart_of(value@) == Err::<CounterpartView, _>(e),
    {
        match strip_prefix(value, "ImmutableSuperclass(") {
            Some(rest) => parse_after(Variant::ImmutableSuperclass, rest.as_str()),
            None => match strip_prefix(value, "MutableSubclass(") {
                Some(rest) => parse_after(Variant::MutableSubclass, rest.as_str()),
                None => Err(CounterpartError::UnknownVariant),
            },
        }
    }
}

/// Each item can be written as either variant, and reads back as that variant of the same
/// item.
pub proof fn counterpart_reads_back(variant: Variant, inner: Seq<char>, item: ItemView)
    requires
        item_of(inner) == Some(item),
    ensures
        counterpart_of(variant.opening() + inner + ")"@) == Ok::<_, CounterpartError>(
            variant.of(item),
        ),
{
    reveal_strlit("ImmutableSuperclass(");
    reveal_strlit("MutableSubclass(");
    reveal_strlit(")");
    let opening = variant.opening();
    let value = opening + inner + ")"@;
    assert(value.take(opening.len() as int) =~= opening);
    assert(value.skip(opening.len() as int) =~= inner + ")"@);
    let rest = inner + ")"@;
    assert(rest.skip(inner.len() as int) =~= ")"@);
    assert(rest.take(inner.len() as int) =~= inner);
    if variant is MutableSubclass {
        let other = Variant::ImmutableSuperclass.opening();
        assert(value[0] == 'M');
        assert(other[0] == 'I');
        assert(value.take(other.len() as int)[0] != other[0] || value.len() < other.len());
    }
}

} // verus!
