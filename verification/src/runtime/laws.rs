//! Laws of the runtime, over what its records hold.

use vstd::prelude::*;
use vstd::utf8::{decode_utf8, encode_utf8, valid_utf8};

use crate::bytes::no_nul;
use crate::runtime::class::superclass_is_known;
use crate::runtime::ivar::{encoding_verdict, EncodingError};
use crate::runtime::object::LookupError;
use crate::runtime::protocol::{all_complete, describes, is_complete, MethodDescription};
use crate::runtime::verify::{says, VerificationError};
use crate::runtime::{
    AnyClass, AnyObject, AnyProtocol, Imp, Ivar, Method, ProtocolMethod, RawDescription, Runtime, Sel,
};

verus! {

/// What a class defines and what its metaclass defines are told apart.
pub proof fn classes_have_two_sides(rt: Runtime, class: AnyClass)
    ensures
        class.meta ==> rt.side(class) == rt.classes@[class.index as int].meta_side,
        !class.meta ==> rt.side(class) == rt.classes@[class.index as int].class_side,
{
}

/// The first of some methods for a selector is found wherever it stands among them, and none is
/// found only where all are for other selectors.
proof fn all_methods_are_searched(rt: Runtime, methods: Seq<Method>, sel: Sel)
    ensures
        match rt.first_method(methods, sel) {
            Some(m) => exists|k: int|
                {
                    &&& 0 <= k < methods.len()
                    &&& #[trigger] methods[k] == m
                    &&& rt.methods@[m.index as int].sel == sel
                    &&& forall|j: int|
                        0 <= j < k ==> rt.methods@[(#[trigger] methods[j]).index as int].sel != sel
                },
            None => forall|k: int|
                0 <= k < methods.len() ==> rt.methods@[(#[trigger] methods[k]).index as int].sel
                    != sel,
        },
    decreases methods.len(),
{
    if methods.len() > 0 {
        let rest = methods.skip(1);
        all_methods_are_searched(rt, rest, sel);
        assert(forall|k: int| 0 < k < methods.len() ==> #[trigger] methods[k] == rest[k - 1]);
        if rt.methods@[methods[0].index as int].sel == sel {
            assert(methods[0] == methods[0]);
        } else {
            match rt.first_method(rest, sel) {
                Some(m) => {
                    let k = choose|k: int|
                        {
                            &&& 0 <= k < rest.len()
                            &&& #[trigger] rest[k] == m
                            &&& rt.methods@[m.index as int].sel == sel
                            &&& forall|j: int|
                                0 <= j < k ==> rt.methods@[(#[trigger] rest[j]).index as int].sel
                                    != sel
                        };
                    assert(methods[k + 1] == m);
                    assert forall|j: int| 0 <= j < k + 1 implies rt.methods@[(
                    #[trigger] methods[j]).index as int].sel != sel by {
                        if j > 0 {
                            assert(rest[j - 1] == methods[j]);
                        }
                    }
                },
                None => {},
            }
        }
    }
}

/// The method of a class for a selector is the first one for it in its list, wherever it stands,
/// and there is none only where the whole list is for other selectors.
pub proof fn own_methods_are_found_in_the_list(rt: Runtime, class: AnyClass, sel: Sel)
    ensures
        match rt.own_method(class, sel) {
            Some(m) => exists|k: int|
                {
                    &&& 0 <= k < rt.side(class).methods@.len()
                    &&& #[trigger] rt.side(class).methods@[k] == m
                    &&& rt.methods@[m.index as int].sel == sel
                    &&& forall|j: int|
                        0 <= j < k ==> rt.methods@[(
                        #[trigger] rt.side(class).methods@[j]).index as int].sel != sel
                },
            None => forall|k: int|
                0 <= k < rt.side(class).methods@.len() ==> rt.methods@[(
                #[trigger] rt.side(class).methods@[k]).index as int].sel != sel,
        },
{
    all_methods_are_searched(rt, rt.side(class).methods@, sel);
}

/// The first of some instance variables of a name is found wherever it stands among them, and
/// none is found only where all have other names.
proof fn all_ivars_are_searched(rt: Runtime, ivars: Seq<Ivar>, name: Seq<u8>)
    ensures
        match rt.first_ivar(ivars, name) {
            Some(v) => exists|k: int|
                {
                    &&& 0 <= k < ivars.len()
                    &&& #[trigger] ivars[k] == v
                    &&& rt.ivars@[v.index as int].name@ == name
                    &&& forall|j: int|
                        0 <= j < k ==> rt.ivars@[(#[trigger] ivars[j]).index as int].name@ != name
                },
            None => forall|k: int|
                0 <= k < ivars.len() ==> rt.ivars@[(#[trigger] ivars[k]).index as int].name@ != name,
        },
    decreases ivars.len(),
{
    if ivars.len() > 0 {
        let rest = ivars.skip(1);
        all_ivars_are_searched(rt, rest, name);
        assert(forall|k: int| 0 < k < ivars.len() ==> #[trigger] ivars[k] == rest[k - 1]);
        if rt.ivars@[ivars[0].index as int].name@ == name {
            assert(ivars[0] == ivars[0]);
        } else {
            match rt.first_ivar(rest, name) {
                Some(v) => {
                    let k = choose|k: int|
                        {
                            &&& 0 <= k < rest.len()
                            &&& #[trigger] rest[k] == v
                            &&& rt.ivars@[v.index as int].name@ == name
                            &&& forall|j: int|
                                0 <= j < k ==> rt.ivars@[(#[trigger] rest[j]).index as int].name@
                                    != name
                        };
                    assert(ivars[k + 1] == v);
                    assert forall|j: int| 0 <= j < k + 1 implies rt.ivars@[(
                    #[trigger] ivars[j]).index as int].name@ != name by {
                        if j > 0 {
                            assert(rest[j - 1] == ivars[j]);
                        }
                    }
                },
                None => {},
            }
        }
    }
}

/// The instance variable of a class of a name is the first one of it in its list, wherever it
/// stands, and there is none only where the whole list has other names.
pub proof fn own_ivars_are_found_in_the_list(rt: Runtime, class: AnyClass, name: Seq<u8>)
    ensures
        match rt.own_ivar(class, name) {
            Some(v) => exists|k: int|
                {
                    &&& 0 <= k < rt.side(class).ivars@.len()
                    &&& #[trigger] rt.side(class).ivars@[k] == v
                    &&& rt.ivars@[v.index as int].name@ == name
                    &&& forall|j: int|
                        0 <= j < k ==> rt.ivars@[(
                        #[trigger] rt.side(class).ivars@[j]).index as int].name@ != name
                },
            None => forall|k: int|
                0 <= k < rt.side(class).ivars@.len() ==> rt.ivars@[(
                #[trigger] rt.side(class).ivars@[k]).index as int].name@ != name,
        },
{
    all_ivars_are_searched(rt, rt.side(class).ivars@, name);
}

/// The superclass of a class is the recorded one. A metaclass inherits from the metaclass of
/// that one, and where there is none, from its own class.
pub proof fn superclasses_are_recorded(rt: Runtime, class: AnyClass)
    ensures
        rt.classes@[class.index as int].superclass matches Some(s) ==> rt.superclass_of(class)
            == Some(AnyClass { index: s, meta: class.meta }),
        rt.classes@[class.index as int].superclass is None && class.meta ==> rt.superclass_of(class)
            == Some(AnyClass { index: class.index, meta: false }),
        rt.classes@[class.index as int].superclass is None && !class.meta ==> rt.superclass_of(
            class,
        ) is None,
{
}

/// A lineage begins with the class, goes on from each class to its superclass, and ends only
/// with a class that has none.
pub proof fn lineages_lead_to_the_root(rt: Runtime, class: AnyClass, k: int)
    requires
        rt.wf(),
        rt.has_class(class),
    ensures
        rt.lineage(class).len() > 0,
        rt.lineage(class)[0] == class,
        0 <= k < rt.lineage(class).len() - 1 ==> rt.superclass_of(rt.lineage(class)[k]) == Some(
            rt.lineage(class)[k + 1],
        ),
        rt.superclass_of(rt.lineage(class).last()) is None,
    decreases class.rank(),
{
    superclass_is_known(rt, class);
    let whole = rt.lineage(class);
    match rt.superclass_of(class) {
        Some(above) => {
            let rest = rt.lineage(above);
            assert(whole == seq![class] + rest);
            lineages_lead_to_the_root(rt, above, k - 1);
            assert(whole.last() == rest.last());
            if 0 <= k < whole.len() - 1 {
                assert(whole[k + 1] == rest[k]);
                if k > 0 {
                    assert(whole[k] == rest[k - 1]);
                }
            }
        },
        None => {
            assert(whole == seq![class]);
        },
    }
}

/// A class descends from itself, and else from exactly what its superclass descends from.
pub proof fn descent_goes_over_the_superclass(rt: Runtime, class: AnyClass, ancestor: AnyClass)
    requires
        rt.wf(),
        rt.has_class(class),
    ensures
        rt.descends(class, class),
        rt.superclass_of(class) matches Some(above) ==> (rt.descends(class, ancestor) <==> class
            == ancestor || rt.descends(above, ancestor)),
        rt.superclass_of(class) is None ==> (rt.descends(class, ancestor) <==> class == ancestor),
{
    superclass_is_known(rt, class);
    let whole = rt.lineage(class);
    assert(whole[0] == class);
    match rt.superclass_of(class) {
        Some(above) => {
            let rest = rt.lineage(above);
            assert(whole == seq![class] + rest);
            if rest.contains(ancestor) {
                let i = choose|i: int| 0 <= i < rest.len() && rest[i] == ancestor;
                assert(whole[i + 1] == ancestor);
            }
            if whole.contains(ancestor) && class != ancestor {
                let i = choose|i: int| 0 <= i < whole.len() && whole[i] == ancestor;
                assert(rest[i - 1] == ancestor);
            }
        },
        None => {
            assert(whole == seq![class]);
        },
    }
}

/// What a class does not have itself, it has from its superclass, and from there alone.
pub proof fn lookups_go_over_the_superclass(rt: Runtime, class: AnyClass, sel: Sel, name: Seq<u8>)
    requires
        rt.wf(),
        rt.has_class(class),
    ensures
        rt.own_method(class, sel) is Some ==> rt.find_method(class, sel) == rt.own_method(
            class,
            sel,
        ),
        rt.own_method(class, sel) is None ==> (match rt.superclass_of(class) {
            Some(above) => rt.find_method(class, sel) == rt.find_method(above, sel),
            None => rt.find_method(class, sel) is None,
        }),
        rt.own_ivar(class, name) is Some ==> rt.find_ivar(class, name) == rt.own_ivar(class, name),
        rt.own_ivar(class, name) is None ==> (match rt.superclass_of(class) {
            Some(above) => rt.find_ivar(class, name) == rt.find_ivar(above, name),
            None => rt.find_ivar(class, name) is None,
        }),
{
}

/// Every instance variable in the list of a class, or of a class above it, can be looked up by
/// its name, and what is found has that name.
pub proof fn listed_ivars_are_found(
    rt: Runtime,
    class: AnyClass,
    ancestor: AnyClass,
    k: int,
)
    requires
        rt.wf(),
        rt.has_class(class),
        rt.descends(class, ancestor),
        0 <= k < rt.side(ancestor).ivars@.len(),
    ensures
        rt.find_ivar(class, rt.ivars@[rt.side(ancestor).ivars@[k].index as int].name@) is Some,
        rt.ivars@[rt.find_ivar(
            class,
            rt.ivars@[rt.side(ancestor).ivars@[k].index as int].name@,
        )->Some_0.index as int].name@ == rt.ivars@[rt.side(
            ancestor,
        ).ivars@[k].index as int].name@,
    decreases class.rank(),
{
    let name = rt.ivars@[rt.side(ancestor).ivars@[k].index as int].name@;
    own_ivars_are_found_in_the_list(rt, class, name);
    superclass_is_known(rt, class);
    descent_goes_over_the_superclass(rt, class, ancestor);
    if rt.own_ivar(class, name) is None {
        if class == ancestor {
            assert(rt.ivars@[rt.side(class).ivars@[k].index as int].name@ != name);
        }
        match rt.superclass_of(class) {
            Some(above) => {
                listed_ivars_are_found(rt, above, ancestor, k);
            },
            None => {},
        }
    }
}

/// Every method in the list of a class, or of a class above it, makes the class respond to its
/// selector, and what is found is for that selector.
pub proof fn listed_methods_are_found(rt: Runtime, class: AnyClass, ancestor: AnyClass, k: int)
    requires
        rt.wf(),
        rt.has_class(class),
        rt.descends(class, ancestor),
        0 <= k < rt.side(ancestor).methods@.len(),
    ensures
        rt.find_method(class, rt.methods@[rt.side(ancestor).methods@[k].index as int].sel) is Some,
        rt.methods@[rt.find_method(
            class,
            rt.methods@[rt.side(ancestor).methods@[k].index as int].sel,
        )->Some_0.index as int].sel == rt.methods@[rt.side(
            ancestor,
        ).methods@[k].index as int].sel,
    decreases class.rank(),
{
    let sel = rt.methods@[rt.side(ancestor).methods@[k].index as int].sel;
    own_methods_are_found_in_the_list(rt, class, sel);
    superclass_is_known(rt, class);
    descent_goes_over_the_superclass(rt, class, ancestor);
    if rt.own_method(class, sel) is None {
        if class == ancestor {
            assert(rt.methods@[rt.side(class).methods@[k].index as int].sel != sel);
        }
        match rt.superclass_of(class) {
            Some(above) => {
                listed_methods_are_found(rt, above, ancestor, k);
            },
            None => {},
        }
    }
}

/// The class of a class as an object is its own metaclass, and that of a metaclass the one of
/// the root class, unless it was changed.
pub proof fn metaclasses_are_recorded(rt: Runtime, class: AnyClass)
    requires
        rt.wf(),
        rt.has_class(class),
    ensures
        rt.side(class).isa is Some ==> rt.metaclass_of(class) == rt.side(class).isa->Some_0,
        rt.side(class).isa is None && !class.meta ==> rt.metaclass_of(class) == (AnyClass {
            index: class.index,
            meta: true,
        }),
        rt.side(class).isa is None && class.meta ==> rt.metaclass_of(class).meta
            && rt.metaclass_of(class).index == rt.root_index(class.index),
        rt.classes@[class.index as int].superclass is None ==> rt.root_index(class.index)
            == class.index,
        rt.classes@[class.index as int].superclass matches Some(s) ==> rt.root_index(class.index)
            == rt.root_index(s),
{
}

/// The class methods of a class are the methods of its class as an object, and those of a
/// metaclass its own.
pub proof fn class_methods_are_methods_of_the_metaclass(rt: Runtime, class: AnyClass, sel: Sel)
    ensures
        !class.meta ==> rt.find_class_method(class, sel) == rt.find_method(
            rt.metaclass_of(class),
            sel,
        ),
        class.meta ==> rt.find_class_method(class, sel) == rt.find_method(class, sel),
{
}

/// A protocol conforms to itself, to every protocol that it adopts, and to what these conform
/// to, and to nothing else.
pub proof fn protocols_conform_to_what_they_adopt(
    rt: Runtime,
    protocol: AnyProtocol,
    other: AnyProtocol,
    k: int,
)
    requires
        rt.wf(),
        rt.has_protocol(protocol),
    ensures
        rt.protocol_conforms(protocol, protocol),
        0 <= k < rt.protocols@[protocol.index as int].adopted@.len() ==> rt.protocol_conforms(
            protocol,
            rt.protocols@[protocol.index as int].adopted@[k],
        ),
        0 <= k < rt.protocols@[protocol.index as int].adopted@.len() && rt.protocol_conforms(
            rt.protocols@[protocol.index as int].adopted@[k],
            other,
        ) ==> rt.protocol_conforms(protocol, other),
        rt.protocol_conforms(protocol, other) && protocol != other ==> exists|i: int|
            0 <= i < rt.protocols@[protocol.index as int].adopted@.len() && rt.protocol_conforms(
                #[trigger] rt.protocols@[protocol.index as int].adopted@[i],
                other,
            ),
{
    let adopted = rt.protocols@[protocol.index as int].adopted@;
    assert(adopted == rt.adopted(protocol));
    assert(rt.protocol_wf(rt.protocols@[protocol.index as int], protocol.index as int));
    if 0 <= k < adopted.len() {
        assert(adopted[k].index < protocol.index);
        assert(rt.protocol_conforms(rt.adopted(protocol)[k], adopted[k]));
        assert(rt.protocol_conforms(rt.adopted(protocol)[k], other) ==> rt.protocol_conforms(
            protocol,
            other,
        ));
    }
    if rt.protocol_conforms(protocol, other) && protocol != other {
        let i = choose|i: int|
            0 <= i < rt.adopted(protocol).len() && rt.protocol_conforms(
                #[trigger] rt.adopted(protocol)[i],
                other,
            );
        assert(rt.protocol_conforms(adopted[i], other));
    }
}

/// A class conforms to every protocol that it adopts and to what these conform to, and to
/// nothing else.
pub proof fn classes_conform_to_what_they_adopt(
    rt: Runtime,
    class: AnyClass,
    protocol: AnyProtocol,
    k: int,
)
    requires
        rt.wf(),
        rt.has_class(class),
    ensures
        0 <= k < rt.side(class).protocols@.len() ==> rt.class_conforms(
            class,
            rt.side(class).protocols@[k],
        ),
        0 <= k < rt.side(class).protocols@.len() && rt.protocol_conforms(
            rt.side(class).protocols@[k],
            protocol,
        ) ==> rt.class_conforms(class, protocol),
        rt.class_conforms(class, protocol) ==> exists|i: int|
            0 <= i < rt.side(class).protocols@.len() && rt.protocol_conforms(
                #[trigger] rt.side(class).protocols@[i],
                protocol,
            ),
{
    assert(rt.class_wf(rt.classes@[class.index as int], class.index as int));
    if 0 <= k < rt.side(class).protocols@.len() {
        let adopted = rt.side(class).protocols@[k];
        assert(rt.has_protocol(adopted));
        assert(rt.protocol_conforms(adopted, adopted));
    }
}

/// A verified method takes each of the arguments and returns what is expected, and one that is
/// refused does not: the verdict names a difference that is there.
///
/// Here two encodings are equivalent where they are equal.
pub proof fn verified_signatures_are_equal<F: Fn(&[u8], &[u8]) -> bool>(
    rt: Runtime,
    method: Option<Method>,
    arguments: Seq<Vec<u8>>,
    returned: Seq<u8>,
    equivalent: F,
    result: Result<(), VerificationError>,
)
    requires
        rt.signature_verdict(method, arguments, returned, equivalent, result),
        forall|f: &[u8], e: &[u8], verdict: bool| #[trigger]
            call_ensures(equivalent, (f, e), verdict) ==> verdict == (f@ == e@),
        method matches Some(m) ==> rt.methods@[m.index as int].argument_types@.len() >= 2,
    ensures
        result is Ok <==> {
            &&& method is Some
            &&& rt.methods@[method->Some_0.index as int].return_type@ == returned
            &&& rt.methods@[method->Some_0.index as int].argument_types@.len() == arguments.len()
                + 2
            &&& forall|i: int|
                0 <= i < arguments.len() ==> (#[trigger] arguments[i])@
                    == rt.methods@[method->Some_0.index as int].argument_types@[i + 2]@
        },
        result == Err::<(), VerificationError>(VerificationError::MethodNotFound) <==> method
            is None,
        result == Err::<(), VerificationError>(VerificationError::MismatchedReturn) ==> method
            is Some && rt.methods@[method->Some_0.index as int].return_type@ != returned,
        result matches Err(VerificationError::MismatchedArgument(i)) ==> {
            &&& method is Some
            &&& i < arguments.len()
            &&& i + 2 < rt.methods@[method->Some_0.index as int].argument_types@.len()
            &&& arguments[i as int]@ != rt.methods@[method->Some_0.index as int].argument_types@[i
                + 2]@
            &&& forall|j: int|
                0 <= j < i ==> (#[trigger] arguments[j])@
                    == rt.methods@[method->Some_0.index as int].argument_types@[j + 2]@
        },
        result == Err::<(), VerificationError>(VerificationError::MismatchedArgumentsCount)
            ==> method is Some && rt.methods@[method->Some_0.index as int].argument_types@.len()
            != arguments.len() + 2,
{
    match method {
        Some(m) => {
            let types = rt.methods@[m.index as int].argument_types@;
            assert(rt.method_types(m)[0] == rt.methods@[m.index as int].return_type@);
            assert(rt.passed_types(m).len() == types.len() - 2);
            assert forall|i: int| 0 <= i < types.len() - 2 implies #[trigger] rt.passed_types(m)[i]
                == types[i + 2]@ by {}
            match result {
                Ok(()) => {
                    assert forall|i: int| 0 <= i < arguments.len() implies (
                    #[trigger] arguments[i])@ == types[i + 2]@ by {
                        assert(says(equivalent, rt.passed_types(m)[i], arguments[i]@, true));
                    }
                },
                Err(VerificationError::MismatchedArgument(n)) => {
                    assert forall|j: int| 0 <= j < n implies (#[trigger] arguments[j])@
                        == types[j + 2]@ by {
                        assert(says(equivalent, rt.passed_types(m)[j], arguments[j]@, true));
                    }
                    assert(says(
                        equivalent,
                        rt.passed_types(m)[n as int],
                        arguments[n as int]@,
                        false,
                    ));
                    assert(arguments[n as int]@ != types[n as int + 2]@);
                },
                _ => {},
            }
        },
        None => {},
    }
}

/// A verdict that finds nothing wrong has every argument and the result accepted, and one that
/// names an argument has that one refused.
pub proof fn every_argument_is_tested<F: Fn(&[u8], &[u8]) -> bool>(
    rt: Runtime,
    method: Method,
    arguments: Seq<Vec<u8>>,
    returned: Seq<u8>,
    equivalent: F,
    i: int,
    n: usize,
)
    requires
        rt.methods@[method.index as int].argument_types@.len() >= 2,
    ensures
        rt.signature_verdict(Some(method), arguments, returned, equivalent, Ok(())) ==> {
            &&& rt.methods@[method.index as int].argument_types@.len() == arguments.len() + 2
            &&& exists|f: &[u8], e: &[u8]|
                f@ == rt.methods@[method.index as int].return_type@ && e@ == returned
                    && #[trigger] call_ensures(equivalent, (f, e), true)
            &&& 0 <= i < arguments.len() ==> exists|f: &[u8], e: &[u8]|
                f@ == rt.methods@[method.index as int].argument_types@[i + 2]@ && e@
                    == arguments[i]@ && #[trigger] call_ensures(equivalent, (f, e), true)
        },
        rt.signature_verdict(
            Some(method),
            arguments,
            returned,
            equivalent,
            Err(VerificationError::MismatchedArgument(n)),
        ) ==> {
            &&& n < arguments.len()
            &&& n + 2 < rt.methods@[method.index as int].argument_types@.len()
            &&& exists|f: &[u8], e: &[u8]|
                f@ == rt.methods@[method.index as int].argument_types@[n + 2]@ && e@
                    == arguments[n as int]@ && #[trigger] call_ensures(equivalent, (f, e), false)
        },
        rt.signature_verdict(
            Some(method),
            arguments,
            returned,
            equivalent,
            Err(VerificationError::MismatchedReturn),
        ) ==> exists|f: &[u8], e: &[u8]|
            f@ == rt.methods@[method.index as int].return_type@ && e@ == returned
                && #[trigger] call_ensures(equivalent, (f, e), false),
{
    let types = rt.methods@[method.index as int].argument_types@;
    assert(rt.method_types(method)[0] == rt.methods@[method.index as int].return_type@);
    assert(rt.passed_types(method).len() == types.len() - 2);
    assert forall|k: int| 0 <= k < types.len() - 2 implies #[trigger] rt.passed_types(method)[k]
        == types[k + 2]@ by {}
    if rt.signature_verdict(Some(method), arguments, returned, equivalent, Ok(())) && 0 <= i
        < arguments.len() {
        assert(says(equivalent, rt.passed_types(method)[i], arguments[i]@, true));
    }
}

/// What a test of an encoding says is so: nothing is wrong only where the encoding is text that
/// was accepted, and what is wrong is wrong. Unchecked encodings are never wrong.
pub proof fn encoding_verdicts_are_true<F: Fn(&str) -> bool>(
    checked: bool,
    found: Seq<u8>,
    expected: Seq<char>,
    equivalent: F,
    verdict: Option<EncodingError>,
)
    requires
        encoding_verdict(checked, found, expected, equivalent, verdict),
    ensures
        verdict is Some ==> checked,
        checked && verdict is None ==> valid_utf8(found) && exists|text: &str|
            text@ == decode_utf8(found) && #[trigger] call_ensures(equivalent, (text,), true),
        verdict matches Some(EncodingError::NotUtf8) ==> !valid_utf8(found),
        verdict matches Some(EncodingError::Wrong { encoding, expected: given }) ==> {
            &&& valid_utf8(found)
            &&& encoding@ == decode_utf8(found)
            &&& given@ == expected
            &&& exists|text: &str|
                text@ == decode_utf8(found) && #[trigger] call_ensures(equivalent, (text,), false)
        },
{
}

/// The bytes of an instance variable are those of the memory from its offset on, and writing
/// them changes those and no others.
pub proof fn ivars_lie_at_their_offset(
    rt: Runtime,
    index: usize,
    ivar: Ivar,
    size: int,
    bytes: Seq<u8>,
    k: int,
)
    requires
        rt.holds(AnyObject::Instance(index), ivar, size),
        bytes.len() == size,
    ensures
        rt.ivar_bytes(AnyObject::Instance(index), ivar, size).len() == size,
        0 <= k < size ==> rt.ivar_bytes(AnyObject::Instance(index), ivar, size)[k]
            == rt.objects@[index as int].memory@[rt.ivars@[ivar.index as int].offset + k],
        rt.memory_with(AnyObject::Instance(index), ivar, bytes).len()
            == rt.objects@[index as int].memory@.len(),
        0 <= k < rt.objects@[index as int].memory@.len() ==> rt.memory_with(
            AnyObject::Instance(index),
            ivar,
            bytes,
        )[k] == if rt.ivars@[ivar.index as int].offset <= k
            < rt.ivars@[ivar.index as int].offset + size {
            bytes[k - rt.ivars@[ivar.index as int].offset]
        } else {
            rt.objects@[index as int].memory@[k]
        },
{
}

/// The class of an instance is the recorded one, that of a class its metaclass, and that of a
/// protocol the class of protocols, unless it was changed.
pub proof fn classes_of_objects_are_recorded(rt: Runtime, object: AnyObject)
    ensures
        object matches AnyObject::Instance(index) ==> rt.class_of(object)
            == rt.objects@[index as int].class,
        object matches AnyObject::Class(class) ==> rt.class_of(object) == rt.metaclass_of(class),
        object matches AnyObject::Protocol(protocol) ==> rt.class_of(object) == match (
            rt.protocols@[protocol.index as int].isa,
            rt.protocol_class,
        ) {
            (Some(changed), _) => changed,
            (None, class) => class->Some_0,
        },
{
}

/// Changing the class of an instance leaves its memory, all other instances, and all classes and
/// protocols as they are.
pub proof fn changing_a_class_changes_nothing_else(
    before: Runtime,
    after: Runtime,
    object: AnyObject,
    class: AnyClass,
    k: int,
)
    requires
        before.has_object(object),
        after.reclassed(&before, object, class),
    ensures
        after.class_of(object) == class,
        after.selectors == before.selectors,
        after.methods == before.methods,
        after.ivars == before.ivars,
        after.protocol_class == before.protocol_class,
        object matches AnyObject::Instance(index) ==> {
            &&& after.classes == before.classes
            &&& after.protocols == before.protocols
            &&& after.objects@.len() == before.objects@.len()
            &&& after.objects@[index as int].memory == before.objects@[index as int].memory
            &&& 0 <= k < after.objects@.len() && k != index ==> after.objects@[k]
                == before.objects@[k]
        },
        object !is Instance ==> after.objects == before.objects,
        object is Class ==> after.protocols == before.protocols && after.classes@.len()
            == before.classes@.len(),
        object matches AnyObject::Class(c) ==> {
            &&& after.side(c).methods == before.side(c).methods
            &&& after.side(c).ivars == before.side(c).ivars
            &&& after.side(c).protocols == before.side(c).protocols
            &&& after.side(c).instance_size == before.side(c).instance_size
        },
        object is Protocol ==> after.classes == before.classes,
{
}

/// A search by name finds what the class of the object has under it, fails for a NUL in the
/// name, and else names what is missing.
pub proof fn searches_by_name_are_true(
    rt: Runtime,
    object: AnyObject,
    name: Seq<char>,
    result: Result<Ivar, LookupError>,
)
    requires
        rt.lookup_verdict(object, name, result),
    ensures
        (exists|i: int| 0 <= i < encode_utf8(name).len() && encode_utf8(name)[i] == 0) <==> (
        result matches Err(LookupError::InteriorNul)),
        result matches Ok(ivar) ==> rt.find_ivar(rt.class_of(object), encode_utf8(name)) == Some(
            ivar,
        ),
        result matches Err(LookupError::NotFound { name: missing, class }) ==> rt.find_ivar(
            rt.class_of(object),
            encode_utf8(name),
        ) is None && missing@ == encode_utf8(name),
        rt.find_ivar(rt.class_of(object), encode_utf8(name)) is Some && no_nul(encode_utf8(name))
            ==> result is Ok,
{
}

/// The descriptions of a protocol of one kind are all of that kind that it records, in their
/// order.
pub proof fn descriptions_are_those_of_their_kind(
    rt: Runtime,
    protocol: AnyProtocol,
    required: bool,
    instance: bool,
    k: int,
)
    ensures
        rt.raw_descriptions(protocol, required, instance)
            == rt.protocols@[protocol.index as int].methods@.filter(
            |m: ProtocolMethod| m.required == required && m.instance == instance,
        ),
        0 <= k < rt.protocols@[protocol.index as int].methods@.len() ==> (rt.raw_descriptions(
            protocol,
            required,
            instance,
        ).contains(rt.protocols@[protocol.index as int].methods@[k]) <==> (
        rt.protocols@[protocol.index as int].methods@[k].required == required
            && rt.protocols@[protocol.index as int].methods@[k].instance == instance)),
{
    broadcast use vstd::seq_lib::group_filter_ensures;

    let all = rt.protocols@[protocol.index as int].methods@;
    let keep = |m: ProtocolMethod| m.required == required && m.instance == instance;
    if 0 <= k < all.len() {
        if keep(all[k]) {
            assert(all.filter(keep).contains(all[k]));
        } else if all.filter(keep).contains(all[k]) {
            let i = choose|i: int| 0 <= i < all.filter(keep).len() && all.filter(keep)[i] == all[k];
            assert(keep(all.filter(keep)[i]));
        }
    }
}

/// A description says the selector and the types of the raw one, which must have both.
pub proof fn descriptions_say_both_parts(
    description: MethodDescription,
    raw: RawDescription,
    list: Seq<RawDescription>,
)
    ensures
        describes(description, raw) <==> raw.name is Some && raw.types is Some && raw.name->Some_0
            == description.sel && raw.types->Some_0@ == description.types@,
        is_complete(raw) <==> raw.name is Some && raw.types is Some,
        all_complete(list) <==> forall|i: int|
            0 <= i < list.len() ==> (#[trigger] list[i]).name is Some && list[i].types is Some,
{
    if forall|i: int|
        0 <= i < list.len() ==> (#[trigger] list[i]).name is Some && list[i].types is Some {
        assert forall|i: int| 0 <= i < list.len() implies is_complete(#[trigger] list[i]) by {
            assert(list[i].name is Some);
        }
    }
    if all_complete(list) {
        assert forall|i: int| 0 <= i < list.len() implies (#[trigger] list[i]).name is Some
            && list[i].types is Some by {
            assert(is_complete(list[i]));
        }
    }
}

/// Protocols are told apart by their names.
pub proof fn protocol_names_are_unique(rt: Runtime, a: AnyProtocol, b: AnyProtocol)
    requires
        rt.wf(),
        rt.has_protocol(a),
        rt.has_protocol(b),
    ensures
        a == b <==> rt.protocols@[a.index as int].name@ == rt.protocols@[b.index as int].name@,
{
    let i = a.index as int;
    let j = b.index as int;
    if i < j {
        assert(rt.protocols@[i].name@ != rt.protocols@[j].name@);
    } else if j < i {
        assert(rt.protocols@[j].name@ != rt.protocols@[i].name@);
    }
}

/// What a sound runtime records fits together: names occur once, superclasses and adopted
/// protocols come first, what is listed is known, and instances are as large as their class
/// says.
pub proof fn sound_runtimes_fit_together(rt: Runtime, i: int, j: int)
    requires
        rt.wf(),
    ensures
        0 <= i < j < rt.selectors@.len() ==> rt.selectors@[i]@ != rt.selectors@[j]@,
        0 <= i < j < rt.classes@.len() ==> rt.classes@[i].name@ != rt.classes@[j].name@,
        0 <= i < j < rt.protocols@.len() ==> rt.protocols@[i].name@ != rt.protocols@[j].name@,
        0 <= i < rt.methods@.len() ==> rt.methods@[i].sel.index < rt.selectors@.len(),
        0 <= i < rt.classes@.len() && rt.classes@[i].superclass is Some
            ==> rt.classes@[i].superclass->Some_0 < i,
        0 <= i < rt.classes@.len() && 0 <= j < rt.classes@[i].class_side.methods@.len()
            ==> rt.classes@[i].class_side.methods@[j].index < rt.methods@.len(),
        0 <= i < rt.classes@.len() && 0 <= j < rt.classes@[i].meta_side.methods@.len()
            ==> rt.classes@[i].meta_side.methods@[j].index < rt.methods@.len(),
        0 <= i < rt.classes@.len() && 0 <= j < rt.classes@[i].class_side.ivars@.len()
            ==> rt.classes@[i].class_side.ivars@[j].index < rt.ivars@.len(),
        0 <= i < rt.protocols@.len() && 0 <= j < rt.protocols@[i].adopted@.len()
            ==> rt.protocols@[i].adopted@[j].index < i,
        0 <= i < rt.objects@.len() ==> rt.objects@[i].class.index < rt.classes@.len()
            && rt.objects@[i].memory@.len() == if rt.objects@[i].class.meta {
            rt.classes@[rt.objects@[i].class.index as int].meta_side.instance_size as nat
        } else {
            rt.classes@[rt.objects@[i].class.index as int].class_side.instance_size as nat
        },
{
    if 0 <= i < rt.classes@.len() {
        let record = rt.classes@[i];
        assert(rt.class_wf(record, i));
        if 0 <= j < record.class_side.methods@.len() {
            assert(rt.has_method(record.class_side.methods@[j]));
        }
        if 0 <= j < record.meta_side.methods@.len() {
            assert(rt.has_method(record.meta_side.methods@[j]));
        }
        if 0 <= j < record.class_side.ivars@.len() {
            assert(rt.has_ivar(record.class_side.ivars@[j]));
        }
    }
    if 0 <= i < rt.protocols@.len() {
        assert(rt.protocol_wf(rt.protocols@[i], i));
    }
    if 0 <= i < rt.objects@.len() {
        assert(rt.object_wf(rt.objects@[i]));
    }
    if 0 <= i < rt.methods@.len() {
        assert(rt.has_sel(rt.methods@[i].sel));
    }
    if 0 <= i < j < rt.selectors@.len() {
        assert(rt.selectors@[i]@ != rt.selectors@[j]@);
    }
}

/// What is kept is kept: writing to an instance variable leaves all but that memory, changing a
/// class all but that side of it, registering a selector all but the selectors, and setting
/// implementations all but these.
pub proof fn what_is_kept_is_kept(
    before: Runtime,
    after: Runtime,
    index: usize,
    class: AnyClass,
    imps: spec_fn(int) -> Imp,
    k: int,
)
    ensures
        after.other_memory_kept(&before, AnyObject::Instance(index)) ==> {
            &&& after.selectors == before.selectors
            &&& after.methods == before.methods
            &&& after.ivars == before.ivars
            &&& after.protocols == before.protocols
            &&& after.classes == before.classes
            &&& after.protocol_class == before.protocol_class
            &&& after.objects@.len() == before.objects@.len()
            &&& after.objects@[index as int].class == before.objects@[index as int].class
            &&& 0 <= k < after.objects@.len() && k != index ==> after.objects@[k]
                == before.objects@[k]
        },
        after.other_sides_kept(&before, class) ==> {
            &&& after.classes@.len() == before.classes@.len()
            &&& 0 <= k < after.classes@.len() && k != class.index ==> after.classes@[k]
                == before.classes@[k]
            &&& after.classes@[class.index as int].name == before.classes@[class.index as int].name
            &&& after.classes@[class.index as int].superclass
                == before.classes@[class.index as int].superclass
            &&& class.meta ==> after.classes@[class.index as int].class_side
                == before.classes@[class.index as int].class_side
            &&& !class.meta ==> after.classes@[class.index as int].meta_side
                == before.classes@[class.index as int].meta_side
        },
        after.extends_selectors(&before) ==> {
            &&& before.selectors@.len() <= after.selectors@.len()
            &&& after.methods == before.methods
            &&& after.ivars == before.ivars
            &&& after.protocols == before.protocols
            &&& after.classes == before.classes
            &&& after.objects == before.objects
            &&& after.protocol_class == before.protocol_class
        },
        after.has_new_imps(&before, imps) ==> {
            &&& after.selectors == before.selectors
            &&& after.ivars == before.ivars
            &&& after.protocols == before.protocols
            &&& after.classes == before.classes
            &&& after.objects == before.objects
            &&& after.protocol_class == before.protocol_class
            &&& after.methods@.len() == before.methods@.len()
            &&& 0 <= k < after.methods@.len() ==> after.methods@[k].imp == imps(k)
                && after.methods@[k].sel == before.methods@[k].sel
                && after.methods@[k].return_type == before.methods@[k].return_type
                && after.methods@[k].argument_types == before.methods@[k].argument_types
        },
{
    if after.has_new_imps(&before, imps) && 0 <= k < after.methods@.len() {
        let _ = after.methods@[k];
    }
}

} // verus!
