//! Protocols.

use vstd::prelude::*;

use crate::bytes::{
    copy_bytes, escaped, is_lossy_text, lossy, lossy_text, no_nul, push_escaped, same_bytes,
};
use crate::runtime::{
    AnyClass, AnyObject, AnyProtocol, ProtocolMethod, ProtocolRecord, RawDescription, Runtime, Sel,
};

verus! {

/// The description of a method in a protocol.
#[derive(Debug, PartialEq, Eq)]
pub struct MethodDescription {
    pub sel: Sel,
    pub types: Vec<u8>,
}

/// A raw description lacks its selector or its types.
#[derive(Debug, Clone, Copy, PartialEq, Eq, Structural)]
pub struct IncompleteDescription;

/// Whether neither part of a raw description is missing.
pub open spec fn is_complete(raw: RawDescription) -> bool {
    raw.name is Some && raw.types is Some
}

/// Whether no raw description lacks a part.
pub open spec fn all_complete(raw: Seq<RawDescription>) -> bool {
    forall|i: int| 0 <= i < raw.len() ==> is_complete(#[trigger] raw[i])
}

/// Whether a description says what a raw one says.
pub open spec fn describes(description: MethodDescription, raw: RawDescription) -> bool {
    &&& raw.name == Some(description.sel)
    &&& raw.types matches Some(types) && types@ == description.types@
}

impl MethodDescription {
    /// The description that the runtime reports, or `None` where a part of it is missing.
    pub fn from_raw(raw: &RawDescription) -> (description: Option<MethodDescription>)
        ensures
            description is Some <==> is_complete(*raw),
            description matches Some(d) ==> describes(d, *raw),
    {
        match raw.name {
            None => None,
            Some(sel) => match &raw.types {
                None => None,
                Some(types) => Some(
                    MethodDescription { sel, types: copy_bytes(types.as_slice()) },
                ),
            },
        }
    }

    /// The descriptions of a list that the runtime reports, in order. No list is an empty one.
    pub fn all_from_raw(raw: Option<&Vec<RawDescription>>) -> (list: Result<
        Vec<MethodDescription>,
        IncompleteDescription,
    >)
        ensures
            raw is None ==> (list matches Ok(l) && l@.len() == 0),
            raw matches Some(r) ==> {
                &&& list is Ok <==> all_complete(r@)
                &&& list matches Ok(l) ==> {
                    &&& l@.len() == r@.len()
                    &&& forall|i: int| 0 <= i < l@.len() ==> describes(#[trigger] l@[i], r@[i])
                }
            },
    {
        let mut list: Vec<MethodDescription> = Vec::new();
        let reported = match raw {
            None => {
                return Ok(list);
            },
            Some(reported) => reported,
        };
        let mut i: usize = 0;
        while i < reported.len()
            invariant
                raw == Some(reported),
                i <= reported@.len(),
                list@.len() == i,
                forall|j: int| 0 <= j < i ==> is_complete(#[trigger] reported@[j]),
                forall|j: int| 0 <= j < i ==> describes(#[trigger] list@[j], reported@[j]),
            decreases reported@.len() - i,
        {
            match MethodDescription::from_raw(&reported[i]) {
                Some(description) => {
                    list.push(description);
                },
                None => {
                    assert(!is_complete(reported@[i as int]));
                    assert(!all_complete(reported@));
                    return Err(IncompleteDescription);
                },
            }
            i += 1;
        }
        Ok(list)
    }
}

impl Runtime {
    /// The name of a protocol.
    pub open spec fn protocol_name(&self, protocol: AnyProtocol) -> Seq<u8> {
        self.protocols@[protocol.index as int].name@
    }

    /// The protocols that a protocol itself adopts.
    pub open spec fn adopted(&self, protocol: AnyProtocol) -> Seq<AnyProtocol> {
        self.protocols@[protocol.index as int].adopted@
    }

    /// Whether a protocol is, or adopts, directly or not, `other`.
    pub open spec fn protocol_conforms(&self, protocol: AnyProtocol, other: AnyProtocol) -> bool
        decreases protocol.index,
        when self.wf() && self.has_protocol(protocol)
    {
        ||| protocol == other
        ||| exists|k: int|
            0 <= k < self.adopted(protocol).len() && self.protocol_conforms(
                #[trigger] self.adopted(protocol)[k],
                other,
            )
    }

    /// Whether a class itself adopts a protocol that is, or adopts, `protocol`.
    pub open spec fn class_conforms(&self, class: AnyClass, protocol: AnyProtocol) -> bool {
        exists|k: int|
            0 <= k < self.side(class).protocols@.len() && self.protocol_conforms(
                #[trigger] self.side(class).protocols@[k],
                protocol,
            )
    }

    /// Whether a protocol called `name` is registered.
    pub open spec fn has_protocol_named(&self, name: Seq<u8>) -> bool {
        exists|i: int|
            0 <= i < self.protocols@.len() && (#[trigger] self.protocols@[i]).name@ == name
    }

    /// The raw descriptions of the methods of a protocol, required or optional, of instances
    /// or of classes.
    pub open spec fn raw_descriptions(
        &self,
        protocol: AnyProtocol,
        required: bool,
        instance: bool,
    ) -> Seq<ProtocolMethod> {
        self.protocols@[protocol.index as int].methods@.filter(
            |m: ProtocolMethod| m.required == required && m.instance == instance,
        )
    }

    /// Registers a protocol that adopts `adopted`, or gives `None` where the name is taken.
    pub fn add_protocol(&mut self, name: &[u8], adopted: Vec<AnyProtocol>) -> (protocol: Option<
        AnyProtocol,
    >)
        requires
            old(self).wf(),
            no_nul(name@),
            forall|k: int|
                0 <= k < adopted@.len() ==> old(self).has_protocol(#[trigger] adopted@[k]),
        ensures
            final(self).wf(),
            protocol is None <==> old(self).has_protocol_named(name@),
            protocol is None ==> *final(self) == *old(self),
            protocol matches Some(p) ==> {
                &&& p.index == old(self).protocols@.len()
                &&& final(self).protocols@.len() == old(self).protocols@.len() + 1
                &&& forall|i: int|
                    0 <= i < old(self).protocols@.len() ==> #[trigger] final(self).protocols@[i]
                        == old(self).protocols@[i]
                &&& final(self).protocol_name(p) == name@
                &&& final(self).adopted(p) == adopted@
                &&& final(self).protocols@[p.index as int].methods@.len() == 0
                &&& final(self).protocols@[p.index as int].isa is None
                &&& final(self).selectors == old(self).selectors
                &&& final(self).methods == old(self).methods
                &&& final(self).ivars == old(self).ivars
                &&& final(self).classes == old(self).classes
                &&& final(self).objects == old(self).objects
                &&& final(self).protocol_class == old(self).protocol_class
            },
    {
        match AnyProtocol::get(self, name) {
            Some(protocol) => {
                assert(self.protocols@[protocol.index as int].name@ == name@);
                return None;
            },
            None => {},
        }
        let protocol = AnyProtocol { index: self.protocols.len() };
        self.protocols.push(
            ProtocolRecord { name: copy_bytes(name), adopted, methods: Vec::new(), isa: None },
        );
        proof {
            let before = *old(self);
            assert forall|k: int| 0 <= k < self.protocols@.len() implies self.protocol_wf(
                #[trigger] self.protocols@[k],
                k,
            ) by {
                if k < before.protocols@.len() {
                    assert(before.protocol_wf(before.protocols@[k], k));
                } else {
                    assert forall|j: int| 0 <= j < adopted@.len() implies (
                    #[trigger] adopted@[j]).index < k by {
                        assert(before.has_protocol(adopted@[j]));
                    }
                }
            }
            assert forall|k: int| 0 <= k < self.classes@.len() implies self.class_wf(
                #[trigger] self.classes@[k],
                k,
            ) by {
                assert(before.class_wf(before.classes@[k], k));
            }
            assert forall|k: int| 0 <= k < self.objects@.len() implies self.object_wf(
                #[trigger] self.objects@[k],
            ) by {
                assert(before.object_wf(before.objects@[k]));
            }
        }
        Some(protocol)
    }

    /// Adds the description of a method to a protocol.
    pub fn describe(
        &mut self,
        protocol: AnyProtocol,
        required: bool,
        instance: bool,
        description: MethodDescription,
    )
        requires
            old(self).wf(),
            old(self).has_protocol(protocol),
            old(self).has_sel(description.sel),
        ensures
            final(self).wf(),
            final(self).protocols@.len() == old(self).protocols@.len(),
            forall|i: int|
                0 <= i < final(self).protocols@.len() && i != protocol.index
                    ==> #[trigger] final(self).protocols@[i] == old(self).protocols@[i],
            final(self).protocols@[protocol.index as int].name
                == old(self).protocols@[protocol.index as int].name,
            final(self).protocols@[protocol.index as int].adopted
                == old(self).protocols@[protocol.index as int].adopted,
            final(self).protocols@[protocol.index as int].isa
                == old(self).protocols@[protocol.index as int].isa,
            final(self).protocols@[protocol.index as int].methods@
                == old(self).protocols@[protocol.index as int].methods@.push(
                ProtocolMethod {
                    required,
                    instance,
                    raw: RawDescription {
                        name: Some(description.sel),
                        types: Some(description.types),
                    },
                },
            ),
            final(self).selectors == old(self).selectors,
            final(self).methods == old(self).methods,
            final(self).ivars == old(self).ivars,
            final(self).classes == old(self).classes,
            final(self).objects == old(self).objects,
            final(self).protocol_class == old(self).protocol_class,
    {
        let raw = RawDescription { name: Some(description.sel), types: Some(description.types) };
        self.protocols[protocol.index].methods.push(ProtocolMethod { required, instance, raw });
        proof {
            let before = *old(self);
            assert forall|k: int| 0 <= k < self.protocols@.len() implies self.protocol_wf(
                #[trigger] self.protocols@[k],
                k,
            ) by {
                assert(before.protocol_wf(before.protocols@[k], k));
            }
            assert forall|i: int, j: int| 0 <= i < j < self.protocols@.len() implies (
            #[trigger] self.protocols@[i]).name@ != (#[trigger] self.protocols@[j]).name@ by {
                assert(before.protocols@[i].name@ != before.protocols@[j].name@);
            }
            assert forall|k: int| 0 <= k < self.classes@.len() implies self.class_wf(
                #[trigger] self.classes@[k],
                k,
            ) by {
                assert(before.class_wf(before.classes@[k], k));
            }
            assert forall|k: int| 0 <= k < self.objects@.len() implies self.object_wf(
                #[trigger] self.objects@[k],
            ) by {
                assert(before.object_wf(before.objects@[k]));
            }
        }
    }
}

impl AnyProtocol {
    /// Looks up a protocol by its name.
    pub fn get(rt: &Runtime, name: &[u8]) -> (protocol: Option<AnyProtocol>)
        ensures
            protocol matches Some(p) ==> rt.has_protocol(p) && rt.protocol_name(p) == name@,
            protocol is None <==> !rt.has_protocol_named(name@),
            protocol is None <==> forall|i: int|
                0 <= i < rt.protocols@.len() ==> (#[trigger] rt.protocols@[i]).name@ != name@,
            protocol matches Some(p) ==> p.index < rt.protocols@.len()
                && rt.protocols@[p.index as int].name@ == name@,
    {
        let mut i: usize = 0;
        while i < rt.protocols.len()
            invariant
                i <= rt.protocols@.len(),
                forall|j: int| 0 <= j < i ==> (#[trigger] rt.protocols@[j]).name@ != name@,
            decreases rt.protocols@.len() - i,
        {
            if same_bytes(rt.protocols[i].name.as_slice(), name) {
                return Some(AnyProtocol { index: i });
            }
            i += 1;
        }
        None
    }

    /// All registered protocols.
    pub fn protocols(rt: &Runtime) -> (protocols: Vec<AnyProtocol>)
        ensures
            protocols@.len() == rt.protocols@.len(),
            forall|i: int|
                0 <= i < protocols@.len() ==> #[trigger] protocols@[i] == (AnyProtocol {
                    index: i as usize,
                }),
    {
        let mut protocols: Vec<AnyProtocol> = Vec::new();
        let mut i: usize = 0;
        while i < rt.protocols.len()
            invariant
                i <= rt.protocols@.len(),
                protocols@.len() == i,
                forall|j: int|
                    0 <= j < i ==> #[trigger] protocols@[j] == (AnyProtocol { index: j as usize }),
            decreases rt.protocols@.len() - i,
        {
            protocols.push(AnyProtocol { index: i });
            i += 1;
        }
        protocols
    }

    /// The protocols that this protocol itself adopts.
    pub fn adopted_protocols(self, rt: &Runtime) -> (protocols: &Vec<AnyProtocol>)
        requires
            rt.has_protocol(self),
        ensures
            protocols@ == rt.adopted(self),
            protocols@ == rt.protocols@[self.index as int].adopted@,
    {
        &rt.protocols[self.index].adopted
    }

    /// Whether this protocol is, or adopts, directly or not, `protocol`.
    pub fn conforms_to(self, rt: &Runtime, protocol: AnyProtocol) -> (conforms: bool)
        requires
            rt.wf(),
            rt.has_protocol(self),
        ensures
            conforms == rt.protocol_conforms(self, protocol),
        decreases self.index,
    {
        if self == protocol {
            return true;
        }
        proof {
            assert(rt.protocol_wf(rt.protocols@[self.index as int], self.index as int));
        }
        let adopted = self.adopted_protocols(rt);
        let mut i: usize = 0;
        while i < adopted.len()
            invariant
                rt.wf(),
                rt.has_protocol(self),
                rt.protocol_wf(rt.protocols@[self.index as int], self.index as int),
                adopted@ == rt.adopted(self),
                i <= adopted@.len(),
                forall|j: int|
                    0 <= j < i ==> !rt.protocol_conforms(#[trigger] adopted@[j], protocol),
            decreases adopted@.len() - i,
        {
            assert(rt.protocols@[self.index as int].adopted@[i as int].index < self.index);
            if adopted[i].conforms_to(rt, protocol) {
                assert(rt.protocol_conforms(rt.adopted(self)[i as int], protocol));
                return true;
            }
            i += 1;
        }
        false
    }

    /// The name of the protocol.
    pub fn name(self, rt: &Runtime) -> (name: &[u8])
        requires
            rt.has_protocol(self),
        ensures
            name@ == rt.protocol_name(self),
            name@ == rt.protocols@[self.index as int].name@,
    {
        rt.protocols[self.index].name.as_slice()
    }

    /// The descriptions of the methods of the protocol, required or optional, of instances or
    /// of classes.
    pub fn method_descriptions_inner(self, rt: &Runtime, required: bool, instance: bool) -> (list:
        Vec<MethodDescription>)
        requires
            rt.wf(),
            rt.has_protocol(self),
        ensures
            list@.len() == rt.raw_descriptions(self, required, instance).len(),
            forall|i: int|
                0 <= i < list@.len() ==> describes(
                    #[trigger] list@[i],
                    rt.raw_descriptions(self, required, instance)[i].raw,
                ),
    {
        let ghost keep = |m: ProtocolMethod| m.required == required && m.instance == instance;
        let methods = &rt.protocols[self.index].methods;
        let ghost all = methods@;
        let mut list: Vec<MethodDescription> = Vec::new();
        let mut i: usize = 0;
        reveal(Seq::filter);
        proof {
            assert(rt.protocol_wf(rt.protocols@[self.index as int], self.index as int));
            assert(all.take(0).filter(keep) =~= Seq::empty());
        }
        while i < methods.len()
            invariant
                all == methods@,
                keep == (|m: ProtocolMethod| m.required == required && m.instance == instance),
                forall|k: int| 0 <= k < all.len() ==> rt.raw_wf((#[trigger] all[k]).raw),
                i <= all.len(),
                list@.len() == all.take(i as int).filter(keep).len(),
                forall|j: int|
                    0 <= j < list@.len() ==> describes(
                        #[trigger] list@[j],
                        all.take(i as int).filter(keep)[j].raw,
                    ),
            decreases all.len() - i,
        {
            reveal(Seq::filter);
            assert(all.take(i + 1).drop_last() =~= all.take(i as int));
            assert(all.take(i + 1).last() == all[i as int]);
            let method = &methods[i];
            if method.required == required && method.instance == instance {
                match MethodDescription::from_raw(&method.raw) {
                    Some(description) => {
                        list.push(description);
                    },
                    None => {
                        assert(rt.raw_wf(all[i as int].raw));
                    },
                }
            }
            i += 1;
        }
        assert(all.take(i as int) =~= all);
        list
    }

    /// The descriptions of the instance methods of the protocol, required or optional.
    pub fn method_descriptions(self, rt: &Runtime, required: bool) -> (list: Vec<MethodDescription>)
        requires
            rt.wf(),
            rt.has_protocol(self),
        ensures
            list@.len() == rt.raw_descriptions(self, required, true).len(),
            forall|i: int|
                0 <= i < list@.len() ==> describes(
                    #[trigger] list@[i],
                    rt.raw_descriptions(self, required, true)[i].raw,
                ),
    {
        self.method_descriptions_inner(rt, required, true)
    }

    /// The descriptions of the class methods of the protocol, required or optional.
    pub fn class_method_descriptions(self, rt: &Runtime, required: bool) -> (list: Vec<
        MethodDescription,
    >)
        requires
            rt.wf(),
            rt.has_protocol(self),
        ensures
            list@.len() == rt.raw_descriptions(self, required, false).len(),
            forall|i: int|
                0 <= i < list@.len() ==> describes(
                    #[trigger] list@[i],
                    rt.raw_descriptions(self, required, false)[i].raw,
                ),
    {
        self.method_descriptions_inner(rt, required, false)
    }

    /// Whether the protocols are equal, or conform to each other.
    pub fn is_equal(self, rt: &Runtime, other: AnyProtocol) -> (equal: bool)
        requires
            rt.wf(),
            rt.has_protocol(self),
            rt.has_protocol(other),
        ensures
            equal == (rt.protocol_conforms(self, other) && rt.protocol_conforms(other, self)),
    {
        self.conforms_to(rt, other) && other.conforms_to(rt, self)
    }

    /// The protocol as an object.
    pub fn as_ref(self) -> (object: AnyObject)
        ensures
            object == AnyObject::Protocol(self),
    {
        AnyObject::Protocol(self)
    }

    /// The name as text. Protocol names are usually UTF-8, so nothing is lost as a rule.
    pub fn display(self, rt: &Runtime) -> (text: String)
        requires
            rt.has_protocol(self),
        ensures
            text@ == lossy(rt.protocol_name(self)),
            is_lossy_text(rt.protocol_name(self), text@),
    {
        lossy_text(self.name(rt))
    }

    /// The protocol as it is shown to developers, such as
    /// `AnyProtocol { name: "NSObject", .. }`.
    pub fn debug(self, rt: &Runtime) -> (text: String)
        requires
            rt.has_protocol(self),
        ensures
            text@ == "AnyProtocol { name: \""@ + escaped(rt.protocol_name(self)) + "\", .. }"@,
    {
        let mut text = "AnyProtocol { name: \"".to_owned();
        push_escaped(&mut text, self.name(rt));
        text.append("\", .. }");
        text
    }
}

/// A protocol conforms only to itself and to protocols that were there before it.
pub proof fn conformance_leads_back(rt: Runtime, a: AnyProtocol, b: AnyProtocol)
    requires
        rt.wf(),
        rt.has_protocol(a),
        rt.protocol_conforms(a, b),
    ensures
        b.index <= a.index,
        a == b || b.index < a.index,
    decreases a.index,
{
    if a != b {
        let k = choose|k: int|
            0 <= k < rt.adopted(a).len() && rt.protocol_conforms(
                #[trigger] rt.adopted(a)[k],
                b,
            );
        assert(rt.protocol_wf(rt.protocols@[a.index as int], a.index as int));
        assert(rt.protocols@[a.index as int].adopted@[k].index < a.index);
        conformance_leads_back(rt, rt.adopted(a)[k], b);
    }
}

/// Protocols that conform to each other are the same.
pub proof fn equal_protocols_are_the_same(rt: Runtime, a: AnyProtocol, b: AnyProtocol)
    requires
        rt.wf(),
        rt.has_protocol(a),
        rt.has_protocol(b),
    ensures
        rt.protocol_conforms(a, b) && rt.protocol_conforms(b, a) <==> a == b,
{
    if rt.protocol_conforms(a, b) && rt.protocol_conforms(b, a) {
        conformance_leads_back(rt, a, b);
        conformance_leads_back(rt, b, a);
    }
}

/// A protocol conforms to what its protocols conform to.
pub proof fn conformance_is_transitive(
    rt: Runtime,
    a: AnyProtocol,
    b: AnyProtocol,
    c: AnyProtocol,
)
    requires
        rt.wf(),
        rt.has_protocol(a),
        rt.has_protocol(b),
        rt.protocol_conforms(a, b),
        rt.protocol_conforms(b, c),
    ensures
        rt.protocol_conforms(a, c),
    decreases a.index,
{
    if a != b {
        let k = choose|k: int|
            0 <= k < rt.adopted(a).len() && rt.protocol_conforms(
                #[trigger] rt.adopted(a)[k],
                b,
            );
        assert(rt.protocol_wf(rt.protocols@[a.index as int], a.index as int));
        assert(rt.protocols@[a.index as int].adopted@[k].index < a.index);
        conformance_is_transitive(rt, rt.adopted(a)[k], b, c);
        assert(rt.protocol_conforms(rt.adopted(a)[k], c));
    }
}

/// A class conforms to what the protocols that it adopts conform to.
pub proof fn class_conformance_is_transitive(
    rt: Runtime,
    class: AnyClass,
    b: AnyProtocol,
    c: AnyProtocol,
)
    requires
        rt.wf(),
        rt.has_class(class),
        rt.has_protocol(b),
        rt.class_conforms(class, b),
        rt.protocol_conforms(b, c),
    ensures
        rt.class_conforms(class, c),
{
    let k = choose|k: int|
        0 <= k < rt.side(class).protocols@.len() && rt.protocol_conforms(
            #[trigger] rt.side(class).protocols@[k],
            b,
        );
    assert(rt.class_wf(rt.classes@[class.index as int], class.index as int));
    conformance_is_transitive(rt, rt.side(class).protocols@[k], b, c);
}

} // verus!
