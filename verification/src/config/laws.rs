//! Laws of the configuration, over what libraries and declarations hold.

use vstd::prelude::*;

use crate::config::counterpart::{
    counterpart_of, Counterpart, CounterpartError, CounterpartView,
};
use crate::config::entity::{Entity, StmtTable};
use crate::config::item::{item_of, location_of, ItemError, ItemIdentifier, Location};
use crate::config::library::{
    crate_name_fit, may_set, platform_allows, some_sets, CrateNameError, LibraryConfig,
    ModuleConfig,
};
use crate::config::skipped::{entry_views, reasons, texts};
use crate::config::stmt::{MethodData, StmtData, StmtField};
use crate::config::version::{version_at_most, Version};
use crate::config::{
    filtered_is_there, found_configs, in_place, modules_along, without_ref, Config, FoundCrate,
};
use crate::name_map::{ascending, entry_is_value, mapping, value_is_entry};
use crate::text::{
    pieces, precedes, prefix_is_what_stands_in_front, separators_split,
    suffix_is_what_stands_behind, text_without_separator_is_whole, without_all, without_prefix,
    without_suffix,
};

verus! {

/// No statement of a valid library sets a field that its table may not set.
proof fn valid_statement(library: LibraryConfig, table: StmtTable, i: int, field: StmtField)
    requires
        library.valid(),
        !may_set(table, field),
        0 <= i < library.table_spec(table).entries@.len(),
    ensures
        !library.table_spec(table).entries@[i].1.sets(field),
{
    assert(!library.misplaces(field));
    assert(!some_sets(library.table_spec(table), field));
}

/// A library is valid exactly where each of its statements leaves alone what belongs to other
/// kinds of declaration: methods are for classes and protocols, values for enums, statics and
/// constants, and so on.
pub proof fn valid_libraries_keep_fields_in_place(library: LibraryConfig)
    ensures
        library.valid() <==> {
            &&& forall|i: int|
                #![trigger library.class_data.entries@[i]]
                0 <= i < library.class_data.entries@.len() ==> {
                    let d = library.class_data.entries@[i].1;
                    &&& d.use_value is None
                    &&& d.requires_mainthreadonly is None
                    &&& d.generics@.len() == 0
                    &&& d.unsafe_.0
                    &&& !d.no_implementor
                    &&& d.implementor is None
                }
            &&& forall|i: int|
                #![trigger library.protocol_data.entries@[i]]
                0 <= i < library.protocol_data.entries@.len() ==> {
                    let d = library.protocol_data.entries@[i].1;
                    &&& d.use_value is None
                    &&& d.derives.0@ == "Debug, PartialEq, Eq, Hash"@
                    &&& !d.definition_skipped
                    &&& d.categories.entries@.len() == 0
                    &&& d.counterpart is NoCounterpart
                    &&& d.skipped_protocols.entries@.len() == 0
                    &&& !d.main_thread_only
                    &&& d.generics@.len() == 0
                    &&& d.unsafe_.0
                    &&& !d.no_implementor
                    &&& d.implementor is None
                }
            &&& forall|i: int|
                #![trigger library.struct_data.entries@[i]]
                0 <= i < library.struct_data.entries@.len() ==> {
                    let d = library.struct_data.entries@[i].1;
                    &&& d.methods.entries@.len() == 0
                    &&& d.use_value is None
                    &&& d.derives.0@ == "Debug, PartialEq, Eq, Hash"@
                    &&& !d.definition_skipped
                    &&& d.categories.entries@.len() == 0
                    &&& d.counterpart is NoCounterpart
                    &&& d.skipped_protocols.entries@.len() == 0
                    &&& !d.main_thread_only
                    &&& d.requires_mainthreadonly is None
                    &&& d.generics@.len() == 0
                    &&& d.unsafe_.0
                    &&& !d.no_implementor
                    &&& d.implementor is None
                }
            &&& forall|i: int|
                #![trigger library.union_data.entries@[i]]
                0 <= i < library.union_data.entries@.len() ==> {
                    let d = library.union_data.entries@[i].1;
                    &&& d.methods.entries@.len() == 0
                    &&& d.use_value is None
                    &&& d.derives.0@ == "Debug, PartialEq, Eq, Hash"@
                    &&& !d.definition_skipped
                    &&& d.categories.entries@.len() == 0
                    &&& d.counterpart is NoCounterpart
                    &&& d.skipped_protocols.entries@.len() == 0
                    &&& !d.main_thread_only
                    &&& d.requires_mainthreadonly is None
                    &&& d.generics@.len() == 0
                    &&& d.unsafe_.0
                    &&& !d.no_implementor
                    &&& d.implementor is None
                }
            &&& forall|i: int|
                #![trigger library.enum_data.entries@[i]]
                0 <= i < library.enum_data.entries@.len() ==> {
                    let d = library.enum_data.entries@[i].1;
                    &&& d.methods.entries@.len() == 0
                    &&& d.derives.0@ == "Debug, PartialEq, Eq, Hash"@
                    &&& !d.definition_skipped
                    &&& d.categories.entries@.len() == 0
                    &&& d.counterpart is NoCounterpart
                    &&& d.skipped_protocols.entries@.len() == 0
                    &&& !d.main_thread_only
                    &&& d.requires_mainthreadonly is None
                    &&& d.generics@.len() == 0
                    &&& d.unsafe_.0
                    &&& !d.no_implementor
                    &&& d.implementor is None
                }
            &&& forall|i: int|
                #![trigger library.fns.entries@[i]]
                0 <= i < library.fns.entries@.len() ==> {
                    let d = library.fns.entries@[i].1;
                    &&& d.methods.entries@.len() == 0
                    &&& d.use_value is None
                    &&& d.derives.0@ == "Debug, PartialEq, Eq, Hash"@
                    &&& !d.definition_skipped
                    &&& d.categories.entries@.len() == 0
                    &&& d.counterpart is NoCounterpart
                    &&& d.skipped_protocols.entries@.len() == 0
                    &&& !d.main_thread_only
                    &&& d.requires_mainthreadonly is None
                    &&& d.generics@.len() == 0
                }
            &&& forall|i: int|
                #![trigger library.statics.entries@[i]]
                0 <= i < library.statics.entries@.len() ==> {
                    let d = library.statics.entries@[i].1;
                    &&& d.methods.entries@.len() == 0
                    &&& d.derives.0@ == "Debug, PartialEq, Eq, Hash"@
                    &&& !d.definition_skipped
                    &&& d.categories.entries@.len() == 0
                    &&& d.counterpart is NoCounterpart
                    &&& d.skipped_protocols.entries@.len() == 0
                    &&& !d.main_thread_only
                    &&& d.requires_mainthreadonly is None
                    &&& d.generics@.len() == 0
                    &&& d.unsafe_.0
                    &&& !d.no_implementor
                    &&& d.implementor is None
                }
            &&& forall|i: int|
                #![trigger library.typedef_data.entries@[i]]
                0 <= i < library.typedef_data.entries@.len() ==> {
                    let d = library.typedef_data.entries@[i].1;
                    &&& d.methods.entries@.len() == 0
                    &&& d.use_value is None
                    &&& d.derives.0@ == "Debug, PartialEq, Eq, Hash"@
                    &&& !d.definition_skipped
                    &&& d.categories.entries@.len() == 0
                    &&& d.counterpart is NoCounterpart
                    &&& d.skipped_protocols.entries@.len() == 0
                    &&& !d.main_thread_only
                    &&& d.requires_mainthreadonly is None
                    &&& d.unsafe_.0
                    &&& !d.no_implementor
                    &&& d.implementor is None
                }
            &&& forall|i: int|
                #![trigger library.const_data.entries@[i]]
                0 <= i < library.const_data.entries@.len() ==> {
                    let d = library.const_data.entries@[i].1;
                    &&& d.methods.entries@.len() == 0
                    &&& d.derives.0@ == "Debug, PartialEq, Eq, Hash"@
                    &&& !d.definition_skipped
                    &&& d.categories.entries@.len() == 0
                    &&& d.counterpart is NoCounterpart
                    &&& d.skipped_protocols.entries@.len() == 0
                    &&& !d.main_thread_only
                    &&& d.requires_mainthreadonly is None
                    &&& d.generics@.len() == 0
                    &&& d.unsafe_.0
                    &&& !d.no_implementor
                    &&& d.implementor is None
                }
        },
{
    if library.valid() {
        assert forall|i: int|
            #![trigger library.class_data.entries@[i]]
            0 <= i < library.class_data.entries@.len() implies {
            let d = library.class_data.entries@[i].1;
            &&& d.use_value is None
            &&& d.requires_mainthreadonly is None
            &&& d.generics@.len() == 0
            &&& d.unsafe_.0
            &&& !d.no_implementor
            &&& d.implementor is None
        } by {
            valid_statement(library, StmtTable::Class, i, StmtField::UseValue);
            valid_statement(library, StmtTable::Class, i, StmtField::RequiresMainThreadOnly);
            valid_statement(library, StmtTable::Class, i, StmtField::Generics);
            valid_statement(library, StmtTable::Class, i, StmtField::Unsafe);
            valid_statement(library, StmtTable::Class, i, StmtField::NoImplementor);
            valid_statement(library, StmtTable::Class, i, StmtField::Implementor);
        }
        assert forall|i: int|
            #![trigger library.protocol_data.entries@[i]]
            0 <= i < library.protocol_data.entries@.len() implies {
            let d = library.protocol_data.entries@[i].1;
            &&& d.use_value is None
            &&& d.derives.0@ == "Debug, PartialEq, Eq, Hash"@
            &&& !d.definition_skipped
            &&& d.categories.entries@.len() == 0
            &&& d.counterpart is NoCounterpart
            &&& d.skipped_protocols.entries@.len() == 0
            &&& !d.main_thread_only
            &&& d.generics@.len() == 0
            &&& d.unsafe_.0
            &&& !d.no_implementor
            &&& d.implementor is None
        } by {
            valid_statement(library, StmtTable::Protocol, i, StmtField::UseValue);
            valid_statement(library, StmtTable::Protocol, i, StmtField::Derives);
            valid_statement(library, StmtTable::Protocol, i, StmtField::DefinitionSkipped);
            valid_statement(library, StmtTable::Protocol, i, StmtField::Categories);
            valid_statement(library, StmtTable::Protocol, i, StmtField::Counterpart);
            valid_statement(library, StmtTable::Protocol, i, StmtField::SkippedProtocols);
            valid_statement(library, StmtTable::Protocol, i, StmtField::MainThreadOnly);
            valid_statement(library, StmtTable::Protocol, i, StmtField::Generics);
            valid_statement(library, StmtTable::Protocol, i, StmtField::Unsafe);
            valid_statement(library, StmtTable::Protocol, i, StmtField::NoImplementor);
            valid_statement(library, StmtTable::Protocol, i, StmtField::Implementor);
        }
        assert forall|i: int|
            #![trigger library.struct_data.entries@[i]]
            0 <= i < library.struct_data.entries@.len() implies {
            let d = library.struct_data.entries@[i].1;
            &&& d.methods.entries@.len() == 0
            &&& d.use_value is None
            &&& d.derives.0@ == "Debug, PartialEq, Eq, Hash"@
            &&& !d.definition_skipped
            &&& d.categories.entries@.len() == 0
            &&& d.counterpart is NoCounterpart
            &&& d.skipped_protocols.entries@.len() == 0
            &&& !d.main_thread_only
            &&& d.requires_mainthreadonly is None
            &&& d.generics@.len() == 0
            &&& d.unsafe_.0
            &&& !d.no_implementor
            &&& d.implementor is None
        } by {
            valid_statement(library, StmtTable::Struct, i, StmtField::Methods);
            valid_statement(library, StmtTable::Struct, i, StmtField::UseValue);
            valid_statement(library, StmtTable::Struct, i, StmtField::Derives);
            valid_statement(library, StmtTable::Struct, i, StmtField::DefinitionSkipped);
            valid_statement(library, StmtTable::Struct, i, StmtField::Categories);
            valid_statement(library, StmtTable::Struct, i, StmtField::Counterpart);
            valid_statement(library, StmtTable::Struct, i, StmtField::SkippedProtocols);
            valid_statement(library, StmtTable::Struct, i, StmtField::MainThreadOnly);
            valid_statement(library, StmtTable::Struct, i, StmtField::RequiresMainThreadOnly);
            valid_statement(library, StmtTable::Struct, i, StmtField::Generics);
            valid_statement(library, StmtTable::Struct, i, StmtField::Unsafe);
            valid_statement(library, StmtTable::Struct, i, StmtField::NoImplementor);
            valid_statement(library, StmtTable::Struct, i, StmtField::Implementor);
        }
        assert forall|i: int|
            #![trigger library.union_data.entries@[i]]
            0 <= i < library.union_data.entries@.len() implies {
            let d = library.union_data.entries@[i].1;
            &&& d.methods.entries@.len() == 0
            &&& d.use_value is None
            &&& d.derives.0@ == "Debug, PartialEq, Eq, Hash"@
            &&& !d.definition_skipped
            &&& d.categories.entries@.len() == 0
            &&& d.counterpart is NoCounterpart
            &&& d.skipped_protocols.entries@.len() == 0
            &&& !d.main_thread_only
            &&& d.requires_mainthreadonly is None
            &&& d.generics@.len() == 0
            &&& d.unsafe_.0
            &&& !d.no_implementor
            &&& d.implementor is None
        } by {
            valid_statement(library, StmtTable::Union, i, StmtField::Methods);
            valid_statement(library, StmtTable::Union, i, StmtField::UseValue);
            valid_statement(library, StmtTable::Union, i, StmtField::Derives);
            valid_statement(library, StmtTable::Union, i, StmtField::DefinitionSkipped);
            valid_statement(library, StmtTable::Union, i, StmtField::Categories);
            valid_statement(library, StmtTable::Union, i, StmtField::Counterpart);
            valid_statement(library, StmtTable::Union, i, StmtField::SkippedProtocols);
            valid_statement(library, StmtTable::Union, i, StmtField::MainThreadOnly);
            valid_statement(library, StmtTable::Union, i, StmtField::RequiresMainThreadOnly);
            valid_statement(library, StmtTable::Union, i, StmtField::Generics);
            valid_statement(library, StmtTable::Union, i, StmtField::Unsafe);
            valid_statement(library, StmtTable::Union, i, StmtField::NoImplementor);
            valid_statement(library, StmtTable::Union, i, StmtField::Implementor);
        }
        assert forall|i: int|
            #![trigger library.enum_data.entries@[i]]
            0 <= i < library.enum_data.entries@.len() implies {
            let d = library.enum_data.entries@[i].1;
            &&& d.methods.entries@.len() == 0
            &&& d.derives.0@ == "Debug, PartialEq, Eq, Hash"@
            &&& !d.definition_skipped
            &&& d.categories.entries@.len() == 0
            &&& d.counterpart is NoCounterpart
            &&& d.skipped_protocols.entries@.len() == 0
            &&& !d.main_thread_only
            &&& d.requires_mainthreadonly is None
            &&& d.generics@.len() == 0
            &&& d.unsafe_.0
            &&& !d.no_implementor
            &&& d.implementor is None
        } by {
            valid_statement(library, StmtTable::Enum, i, StmtField::Methods);
            valid_statement(library, StmtTable::Enum, i, StmtField::Derives);
            valid_statement(library, StmtTable::Enum, i, StmtField::DefinitionSkipped);
            valid_statement(library, StmtTable::Enum, i, StmtField::Categories);
            valid_statement(library, StmtTable::Enum, i, StmtField::Counterpart);
            valid_statement(library, StmtTable::Enum, i, StmtField::SkippedProtocols);
            valid_statement(library, StmtTable::Enum, i, StmtField::MainThreadOnly);
            valid_statement(library, StmtTable::Enum, i, StmtField::RequiresMainThreadOnly);
            valid_statement(library, StmtTable::Enum, i, StmtField::Generics);
            valid_statement(library, StmtTable::Enum, i, StmtField::Unsafe);
            valid_statement(library, StmtTable::Enum, i, StmtField::NoImplementor);
            valid_statement(library, StmtTable::Enum, i, StmtField::Implementor);
        }
        assert forall|i: int|
            #![trigger library.fns.entries@[i]]
            0 <= i < library.fns.entries@.len() implies {
            let d = library.fns.entries@[i].1;
            &&& d.methods.entries@.len() == 0
            &&& d.use_value is None
            &&& d.derives.0@ == "Debug, PartialEq, Eq, Hash"@
            &&& !d.definition_skipped
            &&& d.categories.entries@.len() == 0
            &&& d.counterpart is NoCounterpart
            &&& d.skipped_protocols.entries@.len() == 0
            &&& !d.main_thread_only
            &&& d.requires_mainthreadonly is None
            &&& d.generics@.len() == 0
        } by {
            valid_statement(library, StmtTable::Fn, i, StmtField::Methods);
            valid_statement(library, StmtTable::Fn, i, StmtField::UseValue);
            valid_statement(library, StmtTable::Fn, i, StmtField::Derives);
            valid_statement(library, StmtTable::Fn, i, StmtField::DefinitionSkipped);
            valid_statement(library, StmtTable::Fn, i, StmtField::Categories);
            valid_statement(library, StmtTable::Fn, i, StmtField::Counterpart);
            valid_statement(library, StmtTable::Fn, i, StmtField::SkippedProtocols);
            valid_statement(library, StmtTable::Fn, i, StmtField::MainThreadOnly);
            valid_statement(library, StmtTable::Fn, i, StmtField::RequiresMainThreadOnly);
            valid_statement(library, StmtTable::Fn, i, StmtField::Generics);
        }
        assert forall|i: int|
            #![trigger library.statics.entries@[i]]
            0 <= i < library.statics.entries@.len() implies {
            let d = library.statics.entries@[i].1;
            &&& d.methods.entries@.len() == 0
            &&& d.derives.0@ == "Debug, PartialEq, Eq, Hash"@
            &&& !d.definition_skipped
            &&& d.categories.entries@.len() == 0
            &&& d.counterpart is NoCounterpart
            &&& d.skipped_protocols.entries@.len() == 0
            &&& !d.main_thread_only
            &&& d.requires_mainthreadonly is None
            &&& d.generics@.len() == 0
            &&& d.unsafe_.0
            &&& !d.no_implementor
            &&& d.implementor is None
        } by {
            valid_statement(library, StmtTable::Static, i, StmtField::Methods);
            valid_statement(library, StmtTable::Static, i, StmtField::Derives);
            valid_statement(library, StmtTable::Static, i, StmtField::DefinitionSkipped);
            valid_statement(library, StmtTable::Static, i, StmtField::Categories);
            valid_statement(library, StmtTable::Static, i, StmtField::Counterpart);
            valid_statement(library, StmtTable::Static, i, StmtField::SkippedProtocols);
            valid_statement(library, StmtTable::Static, i, StmtField::MainThreadOnly);
            valid_statement(library, StmtTable::Static, i, StmtField::RequiresMainThreadOnly);
            valid_statement(library, StmtTable::Static, i, StmtField::Generics);
            valid_statement(library, StmtTable::Static, i, StmtField::Unsafe);
            valid_statement(library, StmtTable::Static, i, StmtField::NoImplementor);
            valid_statement(library, StmtTable::Static, i, StmtField::Implementor);
        }
        assert forall|i: int|
            #![trigger library.typedef_data.entries@[i]]
            0 <= i < library.typedef_data.entries@.len() implies {
            let d = library.typedef_data.entries@[i].1;
            &&& d.methods.entries@.len() == 0
            &&& d.use_value is None
            &&& d.derives.0@ == "Debug, PartialEq, Eq, Hash"@
            &&& !d.definition_skipped
            &&& d.categories.entries@.len() == 0
            &&& d.counterpart is NoCounterpart
            &&& d.skipped_protocols.entries@.len() == 0
            &&& !d.main_thread_only
            &&& d.requires_mainthreadonly is None
            &&& d.unsafe_.0
            &&& !d.no_implementor
            &&& d.implementor is None
        } by {
            valid_statement(library, StmtTable::Typedef, i, StmtField::Methods);
            valid_statement(library, StmtTable::Typedef, i, StmtField::UseValue);
            valid_statement(library, StmtTable::Typedef, i, StmtField::Derives);
            valid_statement(library, StmtTable::Typedef, i, StmtField::DefinitionSkipped);
            valid_statement(library, StmtTable::Typedef, i, StmtField::Categories);
            valid_statement(library, StmtTable::Typedef, i, StmtField::Counterpart);
            valid_statement(library, StmtTable::Typedef, i, StmtField::SkippedProtocols);
            valid_statement(library, StmtTable::Typedef, i, StmtField::MainThreadOnly);
            valid_statement(library, StmtTable::Typedef, i, StmtField::RequiresMainThreadOnly);
            valid_statement(library, StmtTable::Typedef, i, StmtField::Unsafe);
            valid_statement(library, StmtTable::Typedef, i, StmtField::NoImplementor);
            valid_statement(library, StmtTable::Typedef, i, StmtField::Implementor);
        }
        assert forall|i: int|
            #![trigger library.const_data.entries@[i]]
            0 <= i < library.const_data.entries@.len() implies {
            let d = library.const_data.entries@[i].1;
            &&& d.methods.entries@.len() == 0
            &&& d.derives.0@ == "Debug, PartialEq, Eq, Hash"@
            &&& !d.definition_skipped
            &&& d.categories.entries@.len() == 0
            &&& d.counterpart is NoCounterpart
            &&& d.skipped_protocols.entries@.len() == 0
            &&& !d.main_thread_only
            &&& d.requires_mainthreadonly is None
            &&& d.generics@.len() == 0
            &&& d.unsafe_.0
            &&& !d.no_implementor
            &&& d.implementor is None
        } by {
            valid_statement(library, StmtTable::Const, i, StmtField::Methods);
            valid_statement(library, StmtTable::Const, i, StmtField::Derives);
            valid_statement(library, StmtTable::Const, i, StmtField::DefinitionSkipped);
            valid_statement(library, StmtTable::Const, i, StmtField::Categories);
            valid_statement(library, StmtTable::Const, i, StmtField::Counterpart);
            valid_statement(library, StmtTable::Const, i, StmtField::SkippedProtocols);
            valid_statement(library, StmtTable::Const, i, StmtField::MainThreadOnly);
            valid_statement(library, StmtTable::Const, i, StmtField::RequiresMainThreadOnly);
            valid_statement(library, StmtTable::Const, i, StmtField::Generics);
            valid_statement(library, StmtTable::Const, i, StmtField::Unsafe);
            valid_statement(library, StmtTable::Const, i, StmtField::NoImplementor);
            valid_statement(library, StmtTable::Const, i, StmtField::Implementor);
        }
    } else {
        let field = choose|field: StmtField| library.misplaces(field);
        let table = choose|table: StmtTable|
            !may_set(table, field) && some_sets(#[trigger] library.table_spec(table), field);
        let entries = library.table_spec(table).entries@;
        let i = choose|i: int| 0 <= i < entries.len() && (#[trigger] entries[i]).1.sets(field);
        match table {
            StmtTable::Class => {
                assert(entries == library.class_data.entries@);
                let d = library.class_data.entries@[i].1;
                assert(d.sets(field));
            },
            StmtTable::Protocol => {
                assert(entries == library.protocol_data.entries@);
                let d = library.protocol_data.entries@[i].1;
                assert(d.sets(field));
            },
            StmtTable::Struct => {
                assert(entries == library.struct_data.entries@);
                let d = library.struct_data.entries@[i].1;
                assert(d.sets(field));
            },
            StmtTable::Union => {
                assert(entries == library.union_data.entries@);
                let d = library.union_data.entries@[i].1;
                assert(d.sets(field));
            },
            StmtTable::Enum => {
                assert(entries == library.enum_data.entries@);
                let d = library.enum_data.entries@[i].1;
                assert(d.sets(field));
            },
            StmtTable::Fn => {
                assert(entries == library.fns.entries@);
                let d = library.fns.entries@[i].1;
                assert(d.sets(field));
            },
            StmtTable::Static => {
                assert(entries == library.statics.entries@);
                let d = library.statics.entries@[i].1;
                assert(d.sets(field));
            },
            StmtTable::Typedef => {
                assert(entries == library.typedef_data.entries@);
                let d = library.typedef_data.entries@[i].1;
                assert(d.sets(field));
            },
            StmtTable::Const => {
                assert(entries == library.const_data.entries@);
                let d = library.const_data.entries@[i].1;
                assert(d.sets(field));
            },
        }
    }
}

/// What is configured for a declaration is what stands under its name in the table of its kind,
/// whatever it says. Anonymous declarations are called `__anonymous__`.
pub proof fn statements_stand_under_their_names(
    library: LibraryConfig,
    entity: Entity,
    name: Seq<char>,
)
    requires
        library.wf(),
        entity.anonymous ==> name == "__anonymous__"@,
        !entity.anonymous ==> entity.name is Some && entity.name->Some_0@ == name,
    ensures
        (entity.kind is ObjCInterfaceDecl || entity.kind is ObjCClassRef) ==> match library.statement(&entity) {
            Some(data) => exists|i: int|
                0 <= i < library.class_data.entries@.len() && (#[trigger] library.class_data.entries@[i]).0@
                    == name && library.class_data.entries@[i].1 == data,
            None => forall|i: int|
                0 <= i < library.class_data.entries@.len() ==> (
                #[trigger] library.class_data.entries@[i]).0@ != name,
        },
        (entity.kind is ObjCProtocolDecl || entity.kind is ObjCProtocolRef) ==> match library.statement(&entity) {
            Some(data) => exists|i: int|
                0 <= i < library.protocol_data.entries@.len() && (#[trigger] library.protocol_data.entries@[i]).0@
                    == name && library.protocol_data.entries@[i].1 == data,
            None => forall|i: int|
                0 <= i < library.protocol_data.entries@.len() ==> (
                #[trigger] library.protocol_data.entries@[i]).0@ != name,
        },
        entity.kind is StructDecl ==> match library.statement(&entity) {
            Some(data) => exists|i: int|
                0 <= i < library.struct_data.entries@.len() && (#[trigger] library.struct_data.entries@[i]).0@
                    == name && library.struct_data.entries@[i].1 == data,
            None => forall|i: int|
                0 <= i < library.struct_data.entries@.len() ==> (
                #[trigger] library.struct_data.entries@[i]).0@ != name,
        },
        entity.kind is UnionDecl ==> match library.statement(&entity) {
            Some(data) => exists|i: int|
                0 <= i < library.union_data.entries@.len() && (#[trigger] library.union_data.entries@[i]).0@
                    == name && library.union_data.entries@[i].1 == data,
            None => forall|i: int|
                0 <= i < library.union_data.entries@.len() ==> (
                #[trigger] library.union_data.entries@[i]).0@ != name,
        },
        entity.kind is EnumDecl ==> match library.statement(&entity) {
            Some(data) => exists|i: int|
                0 <= i < library.enum_data.entries@.len() && (#[trigger] library.enum_data.entries@[i]).0@
                    == name && library.enum_data.entries@[i].1 == data,
            None => forall|i: int|
                0 <= i < library.enum_data.entries@.len() ==> (
                #[trigger] library.enum_data.entries@[i]).0@ != name,
        },
        entity.kind is FunctionDecl ==> match library.statement(&entity) {
            Some(data) => exists|i: int|
                0 <= i < library.fns.entries@.len() && (#[trigger] library.fns.entries@[i]).0@
                    == name && library.fns.entries@[i].1 == data,
            None => forall|i: int|
                0 <= i < library.fns.entries@.len() ==> (
                #[trigger] library.fns.entries@[i]).0@ != name,
        },
        entity.kind is VarDecl ==> match library.statement(&entity) {
            Some(data) => exists|i: int|
                0 <= i < library.statics.entries@.len() && (#[trigger] library.statics.entries@[i]).0@
                    == name && library.statics.entries@[i].1 == data,
            None => forall|i: int|
                0 <= i < library.statics.entries@.len() ==> (
                #[trigger] library.statics.entries@[i]).0@ != name,
        },
        entity.kind is TypedefDecl ==> match library.statement(&entity) {
            Some(data) => exists|i: int|
                0 <= i < library.typedef_data.entries@.len() && (#[trigger] library.typedef_data.entries@[i]).0@
                    == name && library.typedef_data.entries@[i].1 == data,
            None => forall|i: int|
                0 <= i < library.typedef_data.entries@.len() ==> (
                #[trigger] library.typedef_data.entries@[i]).0@ != name,
        },
        entity.kind is EnumConstantDecl ==> match library.statement(&entity) {
            Some(data) => exists|i: int|
                0 <= i < library.const_data.entries@.len() && (#[trigger] library.const_data.entries@[i]).0@
                    == name && library.const_data.entries@[i].1 == data,
            None => forall|i: int|
                0 <= i < library.const_data.entries@.len() ==> (
                #[trigger] library.const_data.entries@[i]).0@ != name,
        },
{
    assert(library.table_spec(StmtTable::Class).wf());
    value_is_entry(library.class_data.entries@, name);
    value_is_entry(library.protocol_data.entries@, name);
    value_is_entry(library.struct_data.entries@, name);
    value_is_entry(library.union_data.entries@, name);
    value_is_entry(library.enum_data.entries@, name);
    value_is_entry(library.fns.entries@, name);
    value_is_entry(library.statics.entries@, name);
    value_is_entry(library.typedef_data.entries@, name);
    value_is_entry(library.const_data.entries@, name);
    match entity.kind.table_spec() {
        Some(table) => {
            assert(library.table_spec(table)@ == mapping(
                library.table_spec(table).entries@,
            ));
        },
        None => {},
    }
    one_value_under_a_name(library, name);
}

/// Two entries of a table under one name are one.
proof fn one_value_under_a_name(library: LibraryConfig, name: Seq<char>)
    requires
        library.wf(),
    ensures
        forall|table: StmtTable, i: int|
            0 <= i < library.table_spec(table).entries@.len() && (
            #[trigger] library.table_spec(table).entries@[i]).0@ == name
                ==> library.table_spec(table)@.dom().contains(name)
                && library.table_spec(table)@[name] == library.table_spec(table).entries@[i].1,
{
    assert forall|table: StmtTable, i: int|
        0 <= i < library.table_spec(table).entries@.len() && (
        #[trigger] library.table_spec(table).entries@[i]).0@
            == name implies library.table_spec(table)@.dom().contains(name)
        && library.table_spec(table)@[name] == library.table_spec(table).entries@[i].1 by {
        assert(library.table_spec(table).wf());
        entry_is_value(library.table_spec(table).entries@, i);
    }
}

/// Nothing is configured for a declaration without a name, nor for kinds of declaration
/// without a table.
pub proof fn other_declarations_have_no_statement(library: LibraryConfig, entity: Entity)
    ensures
        !entity.anonymous && entity.name is None ==> library.statement(&entity) is None,
        entity.kind is ObjCCategoryDecl || entity.kind is FieldDecl || entity.kind
            is ObjCClassMethodDecl || entity.kind is ObjCInstanceMethodDecl || entity.kind
            is ObjCPropertyDecl || entity.kind is MacroDefinition || entity.kind is MacroExpansion
            || entity.kind is UnexposedDecl || entity.kind is Unknown ==> library.statement(
            &entity,
        ) is None,
{
}

/// The empty statement says nothing.
pub proof fn empty_statements_say_nothing(d: StmtData)
    ensures
        d.is_empty() <==> {
            &&& d.skipped is None
            &&& d.renamed is None
            &&& d.methods.entries@.len() == 0
            &&& d.use_value is None
            &&& d.derives.0@ == "Debug, PartialEq, Eq, Hash"@
            &&& !d.definition_skipped
            &&& d.categories.entries@.len() == 0
            &&& d.counterpart is NoCounterpart
            &&& d.skipped_protocols.entries@.len() == 0
            &&& !d.main_thread_only
            &&& d.requires_mainthreadonly is None
            &&& d.generics@.len() == 0
            &&& d.unsafe_.0
            &&& !d.no_implementor
            &&& d.implementor is None
        },
{
    if d.is_empty() {
        assert(!d.sets(StmtField::Methods));
        assert(!d.sets(StmtField::UseValue));
        assert(!d.sets(StmtField::Derives));
        assert(!d.sets(StmtField::DefinitionSkipped));
        assert(!d.sets(StmtField::Categories));
        assert(!d.sets(StmtField::Counterpart));
        assert(!d.sets(StmtField::SkippedProtocols));
        assert(!d.sets(StmtField::MainThreadOnly));
        assert(!d.sets(StmtField::RequiresMainThreadOnly));
        assert(!d.sets(StmtField::Generics));
        assert(!d.sets(StmtField::Unsafe));
        assert(!d.sets(StmtField::NoImplementor));
        assert(!d.sets(StmtField::Implementor));
    }
}

/// A version is its three numbers and its two texts.
pub proof fn versions_say_all(v: Version)
    ensures
        v@ == (v.major, v.minor, v.patch, v.pre@, v.build@),
{
}

/// A library can depend on another exactly where, on each platform that both support, the
/// other is there from our version on, or from the version on that Rust supports anyway.
pub proof fn every_platform_decides(a: LibraryConfig, b: LibraryConfig)
    ensures
        a.may_depend_on(&b) <==> {
            &&& a.macos is Some && b.macos is Some ==> version_at_most(
                b.macos->Some_0@,
                a.macos->Some_0@,
            ) || version_at_most(
                b.macos->Some_0@,
                (10u64, 12u64, 0u64, Seq::<char>::empty(), Seq::<char>::empty()),
            )
            &&& a.maccatalyst is Some && b.maccatalyst is Some ==> version_at_most(
                b.maccatalyst->Some_0@,
                a.maccatalyst->Some_0@,
            ) || version_at_most(
                b.maccatalyst->Some_0@,
                (13u64, 1u64, 0u64, Seq::<char>::empty(), Seq::<char>::empty()),
            )
            &&& a.ios is Some && b.ios is Some ==> version_at_most(
                b.ios->Some_0@,
                a.ios->Some_0@,
            ) || version_at_most(
                b.ios->Some_0@,
                (10u64, 0u64, 0u64, Seq::<char>::empty(), Seq::<char>::empty()),
            )
            &&& a.tvos is Some && b.tvos is Some ==> version_at_most(
                b.tvos->Some_0@,
                a.tvos->Some_0@,
            ) || version_at_most(
                b.tvos->Some_0@,
                (10u64, 0u64, 0u64, Seq::<char>::empty(), Seq::<char>::empty()),
            )
            &&& a.watchos is Some && b.watchos is Some ==> version_at_most(
                b.watchos->Some_0@,
                a.watchos->Some_0@,
            ) || version_at_most(
                b.watchos->Some_0@,
                (5u64, 0u64, 0u64, Seq::<char>::empty(), Seq::<char>::empty()),
            )
            &&& a.visionos is Some && b.visionos is Some ==> version_at_most(
                b.visionos->Some_0@,
                a.visionos->Some_0@,
            ) || version_at_most(
                b.visionos->Some_0@,
                (1u64, 0u64, 0u64, Seq::<char>::empty(), Seq::<char>::empty()),
            )
        },
{
    let (p, q) = (a.platforms(), b.platforms());
    assert(p.len() == 6 && q.len() == 6);
    if a.may_depend_on(&b) {
        assert(platform_allows(p[0], q[0], LibraryConfig::rust_minimums()[0]));
        assert(platform_allows(p[1], q[1], LibraryConfig::rust_minimums()[1]));
        assert(platform_allows(p[2], q[2], LibraryConfig::rust_minimums()[2]));
        assert(platform_allows(p[3], q[3], LibraryConfig::rust_minimums()[3]));
        assert(platform_allows(p[4], q[4], LibraryConfig::rust_minimums()[4]));
        assert(platform_allows(p[5], q[5], LibraryConfig::rust_minimums()[5]));
    }
}

/// The name of a crate fits exactly where its letters are those of the framework, and it is one
/// of five exceptions or made of `objc2-` and the words of the framework. Letters are held
/// against each other first.
pub proof fn crate_names_are_made_of_words(lower: Seq<char>, words: Seq<char>, krate: Seq<char>)
    ensures
        crate_name_fit(lower, words, krate) is Ok <==> {
            &&& lower == without_all(without_all(krate, "objc2-"@), "-"@)
            &&& krate == "objc2-"@ + words || krate == "objc2-tv-ml-kit"@ || krate
                == "objc2-tv-ui-kit"@ || krate == "objc2-javascript-core"@ || krate
                == "objc2-itunes-library"@ || krate == "objc2-io-usb-host"@
        },
        crate_name_fit(lower, words, krate) == Err::<(), CrateNameError>(CrateNameError::Letters)
            <==> lower != without_all(without_all(krate, "objc2-"@), "-"@),
{
    prefix_is_what_stands_in_front(krate, "objc2-"@, words);
}

/// A location is the library and the modules, as they are.
pub proof fn locations_say_all(location: Location)
    ensures
        location@.library == location.library@,
        location@.modules.len() == location.modules@.len(),
        forall|i: int|
            0 <= i < location.modules@.len() ==> #[trigger] location@.modules[i]
                == location.modules@[i]@,
{
}

/// An identifier is a name and a location, as they are.
pub proof fn identifiers_say_all(id: ItemIdentifier)
    ensures
        id@.name == id.name@,
        id@.location == id.location@,
{
}

/// A counterpart is its variant of its item.
pub proof fn counterparts_say_all(counterpart: Counterpart)
    ensures
        counterpart matches Counterpart::ImmutableSuperclass(id) ==> counterpart@
            == CounterpartView::ImmutableSuperclass(id@),
        counterpart matches Counterpart::MutableSubclass(id) ==> counterpart@
            == CounterpartView::MutableSubclass(id@),
        counterpart is NoCounterpart ==> counterpart@ is NoCounterpart,
{
}

/// The library of a location stands before the first dot, and the modules between the others.
pub proof fn libraries_stand_before_the_first_dot(library: Seq<char>, rest: Seq<char>)
    requires
        forall|i: int| 0 <= i < library.len() ==> library[i] != '.',
    ensures
        location_of(pieces(library, '.')).library == library,
        location_of(pieces(library, '.')).modules.len() == 0,
        location_of(pieces(library.push('.') + rest, '.')).library == library,
        location_of(pieces(library.push('.') + rest, '.')).modules == pieces(rest, '.'),
{
    text_without_separator_is_whole(library, '.');
    separators_split(library, '.', rest);
    assert((seq![library] + pieces(rest, '.')).skip(1) =~= pieces(rest, '.'));
}

/// The name of an item stands behind the last dot, and its location before it. Without a dot
/// there is no item.
pub proof fn names_stand_behind_the_last_dot(path: Seq<char>, name: Seq<char>)
    requires
        forall|i: int| 0 <= i < name.len() ==> name[i] != '.',
    ensures
        item_of(name) is None,
        item_of(path.push('.') + name) is Some,
        item_of(path.push('.') + name)->Some_0.name == name,
        item_of(path.push('.') + name)->Some_0.location.library == pieces(path, '.')[0],
        item_of(path.push('.') + name)->Some_0.location.modules == pieces(path, '.').skip(1),
{
    text_without_separator_is_whole(name, '.');
    separators_split(path, '.', name);
    let list = pieces(path, '.') + seq![name];
    assert(list.last() == name);
    assert(list.drop_last() =~= pieces(path, '.'));
}

/// A counterpart is read from the name of its variant and an item in parentheses.
pub proof fn counterparts_stand_in_parentheses(inner: Seq<char>)
    ensures
        item_of(inner) matches Some(item) ==> counterpart_of(
            "ImmutableSuperclass("@ + inner + ")"@,
        ) == Ok::<CounterpartView, CounterpartError>(CounterpartView::ImmutableSuperclass(item)),
        item_of(inner) matches Some(item) ==> counterpart_of("MutableSubclass("@ + inner + ")"@)
            == Ok::<CounterpartView, CounterpartError>(CounterpartView::MutableSubclass(item)),
        item_of(inner) is None ==> counterpart_of("ImmutableSuperclass("@ + inner + ")"@) == Err::<
            CounterpartView,
            CounterpartError,
        >(CounterpartError::Item(ItemError::MissingLocation)),
        item_of(inner) is None ==> counterpart_of("MutableSubclass("@ + inner + ")"@) == Err::<
            CounterpartView,
            CounterpartError,
        >(CounterpartError::Item(ItemError::MissingLocation)),
{
    openings_differ(inner + ")"@, inner + ")"@);
    assert("ImmutableSuperclass("@ + inner + ")"@ =~= "ImmutableSuperclass("@ + (inner + ")"@));
    assert("MutableSubclass("@ + inner + ")"@ =~= "MutableSubclass("@ + (inner + ")"@));
    suffix_is_what_stands_behind(inner + ")"@, inner, ")"@);
}

/// What begins with one variant does not begin with the other.
proof fn openings_differ(a: Seq<char>, b: Seq<char>)
    ensures
        without_prefix("ImmutableSuperclass("@ + a, "ImmutableSuperclass("@) == Some(a),
        without_prefix("MutableSubclass("@ + b, "MutableSubclass("@) == Some(b),
        without_prefix("MutableSubclass("@ + b, "ImmutableSuperclass("@) is None,
{
    reveal_strlit("ImmutableSuperclass(");
    reveal_strlit("MutableSubclass(");
    let (x, y) = ("ImmutableSuperclass("@, "MutableSubclass("@);
    prefix_is_what_stands_in_front(x + a, x, a);
    prefix_is_what_stands_in_front(y + b, y, b);
    prefix_is_what_stands_in_front(y + b, x, a);
    assert((y + b)[0] == 'M' && x[0] == 'I');
}

/// A counterpart that does not end with a parenthesis is refused for that, and one that begins
/// with no variant as unknown.
pub proof fn unreadable_counterparts_are_told_apart(rest: Seq<char>, value: Seq<char>)
    requires
        rest.len() == 0 || rest.last() != ')',
        forall|r: Seq<char>| value != #[trigger] ("ImmutableSuperclass("@ + r),
        forall|r: Seq<char>| value != #[trigger] ("MutableSubclass("@ + r),
    ensures
        counterpart_of("ImmutableSuperclass("@ + rest) == Err::<CounterpartView, CounterpartError>(
            CounterpartError::EndParenthesis,
        ),
        counterpart_of("MutableSubclass("@ + rest) == Err::<CounterpartView, CounterpartError>(
            CounterpartError::EndParenthesis,
        ),
        counterpart_of(value) == Err::<CounterpartView, CounterpartError>(
            CounterpartError::UnknownVariant,
        ),
{
    openings_differ(rest, rest);
    reveal_strlit(")");
    if without_suffix(rest, ")"@) is Some {
        let r = without_suffix(rest, ")"@)->Some_0;
        suffix_is_what_stands_behind(rest, r, ")"@);
        assert(rest.last() == ')');
    }
    if without_prefix(value, "ImmutableSuperclass("@) is Some {
        let r = without_prefix(value, "ImmutableSuperclass("@)->Some_0;
        prefix_is_what_stands_in_front(value, "ImmutableSuperclass("@, r);
        assert(value == "ImmutableSuperclass("@ + r);
    }
    if without_prefix(value, "MutableSubclass("@) is Some {
        let r = without_prefix(value, "MutableSubclass("@)->Some_0;
        prefix_is_what_stands_in_front(value, "MutableSubclass("@, r);
        assert(value == "MutableSubclass("@ + r);
    }
}

/// A merged method is skipped where either is, called as it says itself or else as the
/// superclass says, and `unsafe` as it says itself.
pub proof fn merging_takes_from_both(data: MethodData, superclass: MethodData)
    ensures
        data.merged(superclass).skipped == (data.skipped || superclass.skipped),
        data.renamed is Some ==> data.merged(superclass).renamed == data.renamed,
        data.renamed is None ==> data.merged(superclass).renamed == superclass.renamed,
        data.merged(superclass).unsafe_.0 == data.unsafe_.0,
{
}

/// The suffix `Ref` is dropped once, and only there where it stands.
pub proof fn ref_is_dropped_at_the_end(base: Seq<char>, name: Seq<char>)
    requires
        forall|b: Seq<char>| name != #[trigger] (b + "Ref"@),
    ensures
        without_ref(base + "Ref"@) == base,
        without_ref(name) == name,
{
    suffix_is_what_stands_behind(base + "Ref"@, base, "Ref"@);
    if without_suffix(name, "Ref"@) is Some {
        let b = without_suffix(name, "Ref"@)->Some_0;
        suffix_is_what_stands_behind(name, b, "Ref"@);
        assert(name == b + "Ref"@);
    }
}

/// A typedef is called as the table of its library says, and else as it is, where a Core
/// Foundation type loses the suffix `Ref`.
pub proof fn typedefs_are_called_as_configured(
    library: LibraryConfig,
    name: Seq<char>,
    base: Seq<char>,
    i: int,
    is_cf: bool,
)
    requires
        library.wf(),
    ensures
        0 <= i < library.typedef_data.entries@.len() && library.typedef_data.entries@[i].0@ == name
            && library.typedef_data.entries@[i].1.renamed is Some ==> Config::typedef_name(
            library,
            name,
            is_cf,
        ) == library.typedef_data.entries@[i].1.renamed->Some_0@,
        (forall|k: int|
            0 <= k < library.typedef_data.entries@.len() && (
            #[trigger] library.typedef_data.entries@[k]).0@ == name
                ==> library.typedef_data.entries@[k].1.renamed is None) ==> {
            &&& Config::typedef_name(library, name, false) == name
            &&& name == base + "Ref"@ ==> Config::typedef_name(library, name, true) == base
            &&& (forall|b: Seq<char>| name != #[trigger] (b + "Ref"@)) ==> Config::typedef_name(
                library,
                name,
                true,
            ) == name
        },
{
    assert(library.table_spec(StmtTable::Typedef).wf());
    value_is_entry(library.typedef_data.entries@, name);
    if 0 <= i < library.typedef_data.entries@.len() && library.typedef_data.entries@[i].0@ == name {
        entry_is_value(library.typedef_data.entries@, i);
    }
    suffix_is_what_stands_behind(name, base, "Ref"@);
    if forall|b: Seq<char>| name != #[trigger] (b + "Ref"@) {
        ref_is_dropped_at_the_end(base, name);
    }
}

/// The library of a name is the one configured under it, and else the built-in one.
pub proof fn libraries_stand_under_their_names(config: Config, name: Seq<char>, i: int, b: int)
    requires
        config.wf(),
        0 <= b < config.libraries.entries@.len(),
        config.libraries.entries@[b].0@ == "__builtin__"@,
    ensures
        0 <= i < config.libraries.entries@.len() && config.libraries.entries@[i].0@ == name
            ==> config.library_spec(name) == config.libraries.entries@[i].1,
        (forall|k: int|
            0 <= k < config.libraries.entries@.len() ==> (#[trigger] config.libraries.entries@[k]).0@
                != name) ==> config.library_spec(name) == config.libraries.entries@[b].1,
{
    value_is_entry(config.libraries.entries@, name);
    entry_is_value(config.libraries.entries@, b);
    if 0 <= i < config.libraries.entries@.len() {
        entry_is_value(config.libraries.entries@, i);
    }
}

/// The modules of a location are found in the library of its name, if that is configured.
pub proof fn modules_are_those_of_the_library(config: Config, location: Location, i: int)
    requires
        config.wf(),
    ensures
        0 <= i < config.libraries.entries@.len() && config.libraries.entries@[i].0@
            == location.library@ ==> config.modules_to(&location) == modules_along(
            config.libraries.entries@[i].1.module.entries@,
            location@.modules,
        ),
        (forall|k: int|
            0 <= k < config.libraries.entries@.len() ==> (#[trigger] config.libraries.entries@[k]).0@
                != location.library@) ==> config.modules_to(&location).len() == 0,
{
    value_is_entry(config.libraries.entries@, location.library@);
    if 0 <= i < config.libraries.entries@.len() {
        entry_is_value(config.libraries.entries@, i);
    }
}

/// Each module that is followed stands under its component in the one before, and they end only
/// where the path does or where a component is not configured.
pub proof fn modules_follow_the_path(
    modules: Seq<(String, ModuleConfig)>,
    path: Seq<Seq<char>>,
    k: int,
)
    ensures
        modules_along(modules, path).len() <= path.len(),
        modules_along(modules, path).len() > 0 ==> exists|i: int|
            0 <= i < modules.len() && (#[trigger] modules[i]).0@ == path[0] && modules[i].1
                == modules_along(modules, path)[0],
        0 < k < modules_along(modules, path).len() ==> exists|i: int|
            0 <= i < modules_along(modules, path)[k - 1].module@.len() && (
            #[trigger] modules_along(modules, path)[k - 1].module@[i]).0@ == path[k]
                && modules_along(modules, path)[k - 1].module@[i].1 == modules_along(
                modules,
                path,
            )[k],
        modules_along(modules, path).len() == 0 && path.len() > 0 ==> forall|i: int|
            0 <= i < modules.len() ==> (#[trigger] modules[i]).0@ != path[0],
        0 < modules_along(modules, path).len() < path.len() ==> forall|i: int|
            0 <= i < modules_along(modules, path).last().module@.len() ==> (
            #[trigger] modules_along(modules, path).last().module@[i]).0@ != path[modules_along(
                modules,
                path,
            ).len() as int],
    decreases path.len(),
{
    if path.len() > 0 {
        value_is_entry(modules, path[0]);
        if mapping(modules).dom().contains(path[0]) {
            let first = mapping(modules)[path[0]];
            let rest = modules_along(first.module@, path.skip(1));
            let whole = modules_along(modules, path);
            assert(whole == seq![first] + rest);
            modules_follow_the_path(first.module@, path.skip(1), k - 1);
            if 0 < k < whole.len() {
                assert(whole[k] == rest[k - 1]);
                assert(path.skip(1)[k - 1] == path[k]);
                assert(k > 1 ==> whole[k - 1] == rest[k - 2]);
                assert(k == 1 ==> whole[k - 1] == first);
            }
            if whole.len() < path.len() {
                assert(path.skip(1)[rest.len() as int] == path[whole.len() as int]);
                assert(rest.len() > 0 ==> whole.last() == rest.last());
                assert(rest.len() == 0 ==> whole.last() == first);
            }
        }
    }
}

/// The libraries to parse stand in the order of their names.
pub proof fn parsed_libraries_are_in_order(config: Config)
    requires
        config.wf(),
    ensures
        forall|i: int, j: int|
            0 <= i < j < config.parsed().len() ==> precedes(
                (#[trigger] config.parsed()[i]).0@,
                (#[trigger] config.parsed()[j]).0@,
            ),
{
    filter_keeps_order(
        config.libraries.entries@,
        |entry: (String, LibraryConfig)| !entry.1.skipped,
    );
}

/// A filter keeps ascending entries ascending.
proof fn filter_keeps_order(
    list: Seq<(String, LibraryConfig)>,
    keep: spec_fn((String, LibraryConfig)) -> bool,
)
    requires
        ascending(list),
    ensures
        ascending(list.filter(keep)),
    decreases list.len(),
{
    reveal(Seq::filter);
    if list.len() > 0 {
        let shorter = list.drop_last();
        filter_keeps_order(shorter, keep);
        let kept = shorter.filter(keep);
        assert forall|i: int, j: int| 0 <= i < j < list.filter(keep).len() implies precedes(
            #[trigger] list.filter(keep)[i].0@,
            #[trigger] list.filter(keep)[j].0@,
        ) by {
            if j < kept.len() {
                assert(precedes(kept[i].0@, kept[j].0@));
            } else {
                filtered_is_there(shorter, keep, i);
                let p = choose|p: int| 0 <= p < shorter.len() && shorter[p] == kept[i];
                assert(list[p] == kept[i]);
                assert(precedes(list[p].0@, list[list.len() - 1].0@));
            }
        }
    }
}

/// The configurations of found crates are theirs, one for one, and a crate is in place where it
/// has the name of its directory.
pub proof fn found_crates_keep_their_configuration(found: Seq<FoundCrate>)
    ensures
        found_configs(found).len() == found.len(),
        forall|i: int|
            0 <= i < found.len() ==> #[trigger] found_configs(found)[i] == found[i].config,
        forall|i: int|
            0 <= i < found.len() ==> (in_place(#[trigger] found[i]) <==> found[i].config.krate@
                == found[i].directory@),
{
}

/// The last reason under a name counts, and a name without reason has none.
pub proof fn last_reason_counts(entries: Seq<(Seq<char>, Seq<char>)>, name: Seq<char>, i: int)
    ensures
        0 <= i < entries.len() && (forall|j: int|
            i < j < entries.len() ==> (#[trigger] entries[j]).0 != entries[i].0) ==> reasons(
            entries,
        ).dom().contains(entries[i].0) && reasons(entries)[entries[i].0] == entries[i].1,
        (forall|j: int| 0 <= j < entries.len() ==> (#[trigger] entries[j]).0 != name) ==> !reasons(
            entries,
        ).dom().contains(name),
    decreases entries.len(),
{
    if entries.len() > 0 {
        let shorter = entries.drop_last();
        last_reason_counts(shorter, name, i);
        let last = entries[entries.len() - 1];
        if 0 <= i < entries.len() - 1 && (forall|j: int|
            i < j < entries.len() ==> (#[trigger] entries[j]).0 != entries[i].0) {
            assert(last.0 != entries[i].0);
            assert forall|j: int| i < j < shorter.len() implies (#[trigger] shorter[j]).0
                != shorter[i].0 by {
                assert(entries[j].0 != entries[i].0);
            }
        }
        if forall|j: int| 0 <= j < entries.len() ==> (#[trigger] entries[j]).0 != name {
            assert(last.0 != name);
            assert forall|j: int| 0 <= j < shorter.len() implies (#[trigger] shorter[j]).0
                != name by {
                assert(entries[j].0 != name);
            }
        }
    }
}

/// Entries and maps of texts say what their texts say.
pub proof fn reasons_are_texts(entries: Seq<(String, String)>, map: Map<Seq<char>, String>)
    ensures
        entry_views(entries).len() == entries.len(),
        forall|i: int|
            0 <= i < entries.len() ==> #[trigger] entry_views(entries)[i] == (
                entries[i].0@,
                entries[i].1@,
            ),
        texts(map).dom() == map.dom(),
        forall|name: Seq<char>| map.dom().contains(name) ==> #[trigger] texts(map)[name]
            == map[name]@,
{
    assert(texts(map).dom() =~= map.dom());
}

/// A statement sets a field where that is not what it is by default.
pub proof fn set_fields_are_not_the_default(d: StmtData)
    ensures
        d.sets(StmtField::Methods) <==> d.methods.entries@.len() > 0,
        d.sets(StmtField::UseValue) <==> d.use_value is Some,
        d.sets(StmtField::Derives) <==> d.derives.0@ != "Debug, PartialEq, Eq, Hash"@,
        d.sets(StmtField::DefinitionSkipped) <==> d.definition_skipped,
        d.sets(StmtField::Categories) <==> d.categories.entries@.len() > 0,
        d.sets(StmtField::Counterpart) <==> d.counterpart !is NoCounterpart,
        d.sets(StmtField::SkippedProtocols) <==> d.skipped_protocols.entries@.len() > 0,
        d.sets(StmtField::MainThreadOnly) <==> d.main_thread_only,
        d.sets(StmtField::RequiresMainThreadOnly) <==> d.requires_mainthreadonly is Some,
        d.sets(StmtField::Generics) <==> d.generics@.len() > 0,
        d.sets(StmtField::Unsafe) <==> !d.unsafe_.0,
        d.sets(StmtField::NoImplementor) <==> d.no_implementor,
        d.sets(StmtField::Implementor) <==> d.implementor is Some,
{
}

/// The tables of a library are told apart.
pub proof fn tables_are_told_apart(library: LibraryConfig)
    ensures
        library.table_spec(StmtTable::Class) == library.class_data,
        library.table_spec(StmtTable::Protocol) == library.protocol_data,
        library.table_spec(StmtTable::Struct) == library.struct_data,
        library.table_spec(StmtTable::Union) == library.union_data,
        library.table_spec(StmtTable::Enum) == library.enum_data,
        library.table_spec(StmtTable::Fn) == library.fns,
        library.table_spec(StmtTable::Static) == library.statics,
        library.table_spec(StmtTable::Typedef) == library.typedef_data,
        library.table_spec(StmtTable::Const) == library.const_data,
{
}

/// Which tables may set a field: methods those of classes and protocols, values those of enums,
/// statics and constants, generics that of typedefs, and so on.
pub proof fn fields_belong_to_tables(t: StmtTable)
    ensures
        may_set(t, StmtField::Methods) <==> t is Class || t is Protocol,
        may_set(t, StmtField::UseValue) <==> t is Enum || t is Static || t is Const,
        may_set(t, StmtField::Derives) <==> t is Class,
        may_set(t, StmtField::DefinitionSkipped) <==> t is Class,
        may_set(t, StmtField::Categories) <==> t is Class,
        may_set(t, StmtField::Counterpart) <==> t is Class,
        may_set(t, StmtField::SkippedProtocols) <==> t is Class,
        may_set(t, StmtField::MainThreadOnly) <==> t is Class,
        may_set(t, StmtField::RequiresMainThreadOnly) <==> t is Protocol,
        may_set(t, StmtField::Generics) <==> t is Typedef,
        may_set(t, StmtField::Unsafe) <==> t is Fn,
        may_set(t, StmtField::NoImplementor) <==> t is Fn,
        may_set(t, StmtField::Implementor) <==> t is Fn,
{
}

/// A field is misplaced exactly where some statement, wherever it stands in its table, sets it
/// in a table that may not, and a library is valid exactly where no field is.
pub proof fn one_statement_misplaces_a_field(
    library: LibraryConfig,
    field: StmtField,
    table: StmtTable,
    i: int,
)
    ensures
        0 <= i < library.table_spec(table).entries@.len() && !may_set(table, field)
            && library.table_spec(table).entries@[i].1.sets(field) ==> library.misplaces(field)
            && !library.valid(),
        library.misplaces(field) ==> exists|t: StmtTable, k: int|
            0 <= k < library.table_spec(t).entries@.len() && !may_set(t, field) && (
            #[trigger] library.table_spec(t).entries@[k]).1.sets(field),
        library.misplaces(field) ==> !library.valid(),
{
    if 0 <= i < library.table_spec(table).entries@.len() && !may_set(table, field)
        && library.table_spec(table).entries@[i].1.sets(field) {
        assert(some_sets(library.table_spec(table), field));
    }
    if library.misplaces(field) {
        let t = choose|t: StmtTable|
            !may_set(t, field) && some_sets(#[trigger] library.table_spec(t), field);
        let k = choose|k: int|
            0 <= k < library.table_spec(t).entries@.len() && (
            #[trigger] library.table_spec(t).entries@[k]).1.sets(field);
        assert(library.table_spec(t).entries@[k].1.sets(field));
    }
}

} // verus!
