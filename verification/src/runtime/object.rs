//! Objects.

use vstd::prelude::*;
use vstd::utf8::encode_utf8;

use crate::bytes::{
    copy_bytes, escaped, hex, is_free_of_nul, is_lossy_text, lossy, no_nul, push_escaped, push_hex,
};
use crate::runtime::class::{
    all_descend_from_the_root, classes_of_classes_are_metaclasses, descent_is_reflexive,
    descent_is_transitive, grown_keeps_wf, root_is_its_own, root_is_known,
    roots_follow_superclasses, superclass_is_known,
};
use crate::runtime::ivar::{encoding_verdict, EncodingError};
use crate::runtime::{
    AnyClass, AnyObject, ClassSide, Ivar, ObjectRecord, ProtocolRecord, Runtime,
};

verus! {

/// Why an instance variable was not found by its name.
#[derive(Debug)]
pub enum LookupError {
    /// The name has a NUL in it.
    InteriorNul,
    /// The class of the object has no such instance variable.
    NotFound { name: Vec<u8>, class: String },
}

impl LookupError {
    /// The error in words.
    pub fn message(&self) -> (text: String)
        ensures
            *self is InteriorNul ==> text@ == "ivar name has an interior NUL"@,
            *self matches LookupError::NotFound { name, class } ==> text@ == "ivar \""@ + escaped(
                name@,
            ) + "\" not found on class "@ + class@,
    {
        match self {
            LookupError::InteriorNul => "ivar name has an interior NUL".to_owned(),
            LookupError::NotFound { name, class } => {
                let mut text = "ivar \"".to_owned();
                push_escaped(&mut text, name.as_slice());
                text.append("\" not found on class ");
                text.append(class.as_str());
                text
            },
        }
    }
}

/// Why an instance variable was not read or written by its name.
#[derive(Debug)]
pub enum IvarError {
    /// It was not found.
    Lookup(LookupError),
    /// It is of another type.
    Encoding(EncodingError),
}

impl Runtime {
    /// The class of an object. That of a class is its metaclass.
    pub open spec fn class_of(&self, object: AnyObject) -> AnyClass {
        match object {
            AnyObject::Instance(index) => self.objects@[index as int].class,
            AnyObject::Class(class) => self.metaclass_of(class),
            AnyObject::Protocol(protocol) => match self.protocols@[protocol.index as int].isa {
                Some(changed) => changed,
                None => self.protocol_class->Some_0,
            },
        }
    }

    /// What a search for an instance variable by its name finds.
    pub open spec fn lookup_verdict(
        &self,
        object: AnyObject,
        name: Seq<char>,
        result: Result<Ivar, LookupError>,
    ) -> bool {
        let class = self.class_of(object);
        match result {
            Ok(ivar) => no_nul(encode_utf8(name)) && self.find_ivar(class, encode_utf8(name))
                == Some(ivar),
            Err(LookupError::InteriorNul) => !no_nul(encode_utf8(name)),
            Err(LookupError::NotFound { name: missing, class: display }) => {
                &&& no_nul(encode_utf8(name))
                &&& self.find_ivar(class, encode_utf8(name)) is None
                &&& missing@ == encode_utf8(name)
                &&& display@ == lossy(self.class_name(class))
                &&& is_lossy_text(self.class_name(class), display@)
            },
        }
    }

    /// Whether an instance holds the instance variable of that name, where there is one, with
    /// `size` bytes.
    pub open spec fn holds_named(&self, object: AnyObject, name: Seq<char>, size: int) -> bool {
        self.find_ivar(self.class_of(object), encode_utf8(name)) matches Some(ivar) ==> self.holds(
            object,
            ivar,
            size,
        )
    }

    /// Nothing differs from `before` but that `class` is the class of `object`.
    pub open spec fn reclassed(&self, before: &Runtime, object: AnyObject, class: AnyClass) -> bool {
        &&& self.selectors == before.selectors
        &&& self.methods == before.methods
        &&& self.ivars == before.ivars
        &&& self.protocol_class == before.protocol_class
        &&& match object {
            AnyObject::Instance(index) => {
                &&& self.classes == before.classes
                &&& self.protocols == before.protocols
                &&& self.objects@ == before.objects@.update(
                    index as int,
                    ObjectRecord { class, ..before.objects@[index as int] },
                )
            },
            AnyObject::Class(c) => {
                &&& self.protocols == before.protocols
                &&& self.objects == before.objects
                &&& self.other_sides_kept(before, c)
                &&& self.side(c) == (ClassSide { isa: Some(class), ..before.side(c) })
            },
            AnyObject::Protocol(protocol) => {
                &&& self.classes == before.classes
                &&& self.objects == before.objects
                &&& self.protocols@ == before.protocols@.update(
                    protocol.index as int,
                    ProtocolRecord {
                        isa: Some(class),
                        ..before.protocols@[protocol.index as int]
                    },
                )
            },
        }
    }

    /// Makes an instance of a class, its memory zeroed.
    pub fn new_object(&mut self, class: AnyClass) -> (object: AnyObject)
        requires
            old(self).wf(),
            old(self).has_class(class),
        ensures
            final(self).wf(),
            object == AnyObject::Instance(old(self).objects@.len() as usize),
            final(self).has_object(object),
            final(self).class_of(object) == class,
            final(self).objects@.last().class == class,
            final(self).objects@.last().memory@ == Seq::new(
                old(self).side(class).instance_size as nat,
                |i: int| 0u8,
            ),
            final(self).memory(object) == Seq::new(
                old(self).side(class).instance_size as nat,
                |i: int| 0u8,
            ),
            final(self).objects@.len() == old(self).objects@.len() + 1,
            forall|i: int|
                0 <= i < old(self).objects@.len() ==> #[trigger] final(self).objects@[i]
                    == old(self).objects@[i],
            final(self).selectors == old(self).selectors,
            final(self).methods == old(self).methods,
            final(self).ivars == old(self).ivars,
            final(self).protocols == old(self).protocols,
            final(self).classes == old(self).classes,
            final(self).protocol_class == old(self).protocol_class,
    {
        let object = AnyObject::Instance(self.objects.len());
        let size: usize = class.instance_size(self);
        let mut memory: Vec<u8> = Vec::new();
        let mut i: usize = 0;
        while i < size
            invariant
                i <= size,
                memory@.len() == i,
                forall|j: int| 0 <= j < i ==> memory@[j] == 0,
            decreases size - i,
        {
            memory.push(0);
            i += 1;
        }
        assert(memory@ =~= Seq::new(size as nat, |i: int| 0u8));
        self.objects.push(ObjectRecord { class, memory });
        proof {
            let before = *old(self);
            assert forall|k: int| 0 <= k < self.objects@.len() implies self.object_wf(
                #[trigger] self.objects@[k],
            ) by {
                if k < before.objects@.len() {
                    assert(before.object_wf(before.objects@[k]));
                }
            }
        }
        object
    }

    /// Sets the class of protocols as objects.
    pub fn set_protocol_class(&mut self, class: AnyClass)
        requires
            old(self).wf(),
            old(self).has_class(class),
        ensures
            final(self).wf(),
            *final(self) == (Runtime { protocol_class: Some(class), ..*old(self) }),
    {
        self.protocol_class = Some(class);
    }
}

impl AnyObject {
    /// The class of the object.
    pub fn class(self, rt: &Runtime) -> (class: AnyClass)
        requires
            rt.wf(),
            rt.has_object(self),
        ensures
            class == rt.class_of(self),
            rt.has_class(class),
    {
        match self {
            AnyObject::Instance(index) => {
                assert(rt.object_wf(rt.objects@[index as int]));
                rt.objects[index].class
            },
            AnyObject::Class(class) => class.metaclass(rt),
            AnyObject::Protocol(protocol) => {
                assert(rt.protocol_wf(
                    rt.protocols@[protocol.index as int],
                    protocol.index as int,
                ));
                match rt.protocols[protocol.index].isa {
                    Some(changed) => changed,
                    None => match rt.protocol_class {
                        Some(class) => class,
                        None => AnyClass { index: 0, meta: false },
                    },
                }
            },
        }
    }

    /// Changes the class of an object, and returns the previous one. The instances of both
    /// classes must be of the same size, and the class of a class must be a metaclass.
    pub fn set_class(self, rt: &mut Runtime, class: AnyClass) -> (previous: AnyClass)
        requires
            old(rt).wf(),
            old(rt).has_object(self),
            old(rt).has_class(class),
            self is Class ==> class.meta,
            old(rt).side(old(rt).class_of(self)).instance_size == old(rt).side(class).instance_size,
        ensures
            final(rt).wf(),
            previous == old(rt).class_of(self),
            final(rt).class_of(self) == class,
            final(rt).reclassed(old(rt), self, class),
    {
        let previous = self.class(rt);
        match self {
            AnyObject::Instance(index) => {
                rt.objects[index].class = class;
                proof {
                    let before = *old(rt);
                    assert forall|k: int| 0 <= k < rt.objects@.len() implies rt.object_wf(
                        #[trigger] rt.objects@[k],
                    ) by {
                        assert(before.object_wf(before.objects@[k]));
                    }
                    assert(rt.objects@ =~= before.objects@.update(
                        index as int,
                        ObjectRecord { class, ..before.objects@[index as int] },
                    ));
                }
            },
            AnyObject::Class(c) => {
                let i: usize = c.index;
                if c.meta {
                    rt.classes[i].meta_side.isa = Some(class);
                } else {
                    rt.classes[i].class_side.isa = Some(class);
                }
                proof {
                    assert(old(rt).class_wf(old(rt).classes@[i as int], i as int));
                    grown_keeps_wf(*old(rt), *rt, c);
                }
            },
            AnyObject::Protocol(protocol) => {
                rt.protocols[protocol.index].isa = Some(class);
                proof {
                    let before = *old(rt);
                    assert forall|k: int| 0 <= k < rt.protocols@.len() implies rt.protocol_wf(
                        #[trigger] rt.protocols@[k],
                        k,
                    ) by {
                        assert(before.protocol_wf(before.protocols@[k], k));
                    }
                    assert forall|i: int, j: int| 0 <= i < j < rt.protocols@.len() implies (
                    #[trigger] rt.protocols@[i]).name@ != (#[trigger] rt.protocols@[j]).name@ by {
                        assert(before.protocols@[i].name@ != before.protocols@[j].name@);
                    }
                    assert forall|k: int| 0 <= k < rt.classes@.len() implies rt.class_wf(
                        #[trigger] rt.classes@[k],
                        k,
                    ) by {
                        assert(before.class_wf(before.classes@[k], k));
                    }
                    assert forall|k: int| 0 <= k < rt.objects@.len() implies rt.object_wf(
                        #[trigger] rt.objects@[k],
                    ) by {
                        assert(before.object_wf(before.objects@[k]));
                    }
                }
            },
        }
        previous
    }

    /// The address of what lies at an offset from an object.
    pub fn ivar_at_offset(address: usize, offset: isize) -> (place: usize)
        requires
            0 <= address + offset <= usize::MAX,
        ensures
            place == address + offset,
    {
        if offset < 0 {
            let back: usize = if offset == isize::MIN {
                isize::MAX as usize + 1
            } else {
                (-offset) as usize
            };
            address - back
        } else {
            address + offset as usize
        }
    }

    /// The instance variable of that name of the object's class.
    pub fn lookup_instance_variable_dynamically(self, rt: &Runtime, name: &str) -> (result: Result<
        Ivar,
        LookupError,
    >)
        requires
            rt.wf(),
            rt.has_object(self),
        ensures
            rt.lookup_verdict(self, name@, result),
    {
        let bytes = name.as_bytes();
        if !is_free_of_nul(bytes) {
            return Err(LookupError::InteriorNul);
        }
        let class = self.class(rt);
        match class.instance_variable(rt, bytes) {
            Some(ivar) => Ok(ivar),
            None => Err(
                LookupError::NotFound { name: copy_bytes(bytes), class: class.display(rt) },
            ),
        }
    }

    /// The bytes of the instance variable of that name.
    pub fn get_ivar<'a, F: Fn(&str) -> bool>(
        self,
        rt: &'a Runtime,
        name: &str,
        size: usize,
        expected: &str,
        equivalent: F,
        checked: bool,
    ) -> (result: Result<&'a [u8], IvarError>)
        requires
            rt.wf(),
            rt.has_object(self),
            rt.holds_named(self, name@, size as int),
            forall|text: &str| call_requires(equivalent, (text,)),
        ensures
            match result {
                Err(IvarError::Lookup(error)) => rt.lookup_verdict(self, name@, Err(error)),
                Err(IvarError::Encoding(error)) => exists|ivar: Ivar|
                    rt.lookup_verdict(self, name@, Ok(ivar)) && encoding_verdict(
                        checked,
                        #[trigger] rt.ivar_encoding(ivar),
                        expected@,
                        equivalent,
                        Some(error),
                    ),
                Ok(bytes) => exists|ivar: Ivar|
                    rt.lookup_verdict(self, name@, Ok(ivar)) && encoding_verdict(
                        checked,
                        #[trigger] rt.ivar_encoding(ivar),
                        expected@,
                        equivalent,
                        None,
                    ) && bytes@ == rt.ivar_bytes(self, ivar, size as int),
            },
    {
        match self.lookup_instance_variable_dynamically(rt, name) {
            Ok(ivar) => match ivar.load(rt, self, size, expected, equivalent, checked) {
                Ok(bytes) => Ok(bytes),
                Err(error) => Err(IvarError::Encoding(error)),
            },
            Err(error) => Err(IvarError::Lookup(error)),
        }
    }

    /// The bytes of the instance variable of that name, to be written to.
    pub fn get_mut_ivar<'a, F: Fn(&str) -> bool>(
        self,
        rt: &'a mut Runtime,
        name: &str,
        size: usize,
        expected: &str,
        equivalent: F,
        checked: bool,
    ) -> (result: Result<&'a mut [u8], IvarError>)
        requires
            old(rt).wf(),
            old(rt).has_object(self),
            old(rt).holds_named(self, name@, size as int),
            forall|text: &str| call_requires(equivalent, (text,)),
        ensures
            result is Err ==> *final(rt) == *old(rt),
            match result {
                Err(IvarError::Lookup(error)) => old(rt).lookup_verdict(self, name@, Err(error)),
                Err(IvarError::Encoding(error)) => exists|ivar: Ivar|
                    old(rt).lookup_verdict(self, name@, Ok(ivar)) && encoding_verdict(
                        checked,
                        #[trigger] old(rt).ivar_encoding(ivar),
                        expected@,
                        equivalent,
                        Some(error),
                    ),
                Ok(bytes) => exists|ivar: Ivar|
                    {
                        &&& old(rt).lookup_verdict(self, name@, Ok(ivar))
                        &&& encoding_verdict(
                            checked,
                            #[trigger] old(rt).ivar_encoding(ivar),
                            expected@,
                            equivalent,
                            None,
                        )
                        &&& bytes@ == old(rt).ivar_bytes(self, ivar, size as int)
                        &&& final(bytes)@.len() == size ==> {
                            &&& final(rt).wf()
                            &&& final(rt).other_memory_kept(old(rt), self)
                            &&& final(rt).memory(self) == old(rt).memory_with(
                                self,
                                ivar,
                                final(bytes)@,
                            )
                        }
                    },
            },
    {
        match self.lookup_instance_variable_dynamically(rt, name) {
            Ok(ivar) => match ivar.load_mut(rt, self, size, expected, equivalent, checked) {
                Ok(bytes) => Ok(bytes),
                Err(error) => Err(IvarError::Encoding(error)),
            },
            Err(error) => Err(IvarError::Lookup(error)),
        }
    }

    /// Whether the object is an instance of a class, or of one that descends from it.
    pub fn is_kind_of_class(self, rt: &Runtime, class: AnyClass) -> (is: bool)
        requires
            rt.wf(),
            rt.has_object(self),
        ensures
            is == rt.descends(rt.class_of(self), class),
    {
        self.class(rt).descends_from(rt, class)
    }

    /// The object, where it is an instance of a class or of one that descends from it.
    pub fn downcast_ref(self, rt: &Runtime, class: AnyClass) -> (object: Option<AnyObject>)
        requires
            rt.wf(),
            rt.has_object(self),
        ensures
            object == if rt.descends(rt.class_of(self), class) {
                Some(self)
            } else {
                None
            },
    {
        if self.is_kind_of_class(rt, class) {
            Some(self)
        } else {
            None
        }
    }

    /// The object at an address as it is shown to developers, such as
    /// `<NSObject: 0x600000000010>`.
    pub fn debug(self, rt: &Runtime, address: usize) -> (text: String)
        requires
            rt.wf(),
            rt.has_object(self),
        ensures
            text@ == "<"@ + lossy(rt.class_name(rt.class_of(self))) + ": 0x"@ + hex(address as nat)
                + ">"@,
            is_lossy_text(
                rt.class_name(rt.class_of(self)),
                lossy(rt.class_name(rt.class_of(self))),
            ),
    {
        let mut text = "<".to_owned();
        let name = self.class(rt).display(rt);
        text.append(name.as_str());
        text.append(": 0x");
        push_hex(&mut text, address as u64);
        text.append(">");
        text
    }
}

/// An object is of the kind of its own class and of all that this descends from.
pub proof fn objects_are_of_their_kinds(rt: Runtime, object: AnyObject, ancestor: AnyClass)
    requires
        rt.wf(),
        rt.has_object(object),
    ensures
        rt.descends(rt.class_of(object), rt.class_of(object)),
        rt.superclass_of(rt.class_of(object)) matches Some(above) ==> (rt.descends(above, ancestor)
            ==> rt.descends(rt.class_of(object), ancestor)),
{
    class_of_is_known(rt, object);
    let class = rt.class_of(object);
    descent_is_reflexive(rt, class);
    superclass_is_known(rt, class);
    match rt.superclass_of(class) {
        Some(above) => {
            if rt.descends(above, ancestor) {
                assert(rt.lineage(class)[1] == rt.lineage(above)[0]);
                assert(rt.descends(class, above));
                descent_is_transitive(rt, class, above, ancestor);
            }
        },
        None => {},
    }
}

/// The class of a known object is known.
pub proof fn class_of_is_known(rt: Runtime, object: AnyObject)
    requires
        rt.wf(),
        rt.has_object(object),
    ensures
        rt.has_class(rt.class_of(object)),
{
    match object {
        AnyObject::Instance(index) => {
            assert(rt.object_wf(rt.objects@[index as int]));
        },
        AnyObject::Class(class) => {
            classes_of_classes_are_metaclasses(rt, class);
        },
        AnyObject::Protocol(protocol) => {
            let i = protocol.index as int;
            assert(rt.protocol_wf(rt.protocols@[i], i));
        },
    }
}

/// A class as an object is of the kind of its root class, unless its class was changed.
pub proof fn classes_are_of_their_root(rt: Runtime, class: AnyClass)
    requires
        rt.wf(),
        rt.has_class(class),
        rt.side(class).isa is None,
    ensures
        rt.descends(
            rt.class_of(AnyObject::Class(class)),
            AnyClass { index: rt.root_index(class.index), meta: false },
        ),
{
    root_is_known(rt, class.index);
    root_is_its_own(rt, class.index);
    all_descend_from_the_root(rt, rt.metaclass_of(class));
}

/// Changing the class of an object changes that of no other.
pub proof fn others_keep_their_class(
    before: Runtime,
    after: Runtime,
    object: AnyObject,
    class: AnyClass,
    other: AnyObject,
)
    requires
        before.wf(),
        after.wf(),
        before.has_object(object),
        before.has_object(other),
        after.reclassed(&before, object, class),
        other != object,
    ensures
        after.class_of(other) == before.class_of(other),
{
    match other {
        AnyObject::Class(c) => {
            match object {
                AnyObject::Class(d) => {
                    assert(c == d.twin() || c.index != d.index);
                    assert(after.side(c) == before.side(c));
                },
                _ => {},
            }
            roots_follow_superclasses(before, after, c.index);
        },
        _ => {},
    }
}

/// Giving an object its previous class back comes to the same as giving it the class that it
/// has, which leaves an instance as it is.
pub proof fn class_can_be_restored(
    before: Runtime,
    between: Runtime,
    after: Runtime,
    object: AnyObject,
    class: AnyClass,
)
    requires
        before.has_object(object),
        between.reclassed(&before, object, class),
        after.reclassed(&between, object, before.class_of(object)),
    ensures
        after.reclassed(&before, object, before.class_of(object)),
        after.class_of(object) == before.class_of(object),
        object is Instance ==> after.objects@ == before.objects@,
{
    match object {
        AnyObject::Instance(index) => {
            assert(after.objects@ =~= before.objects@);
            assert(after.objects@ =~= before.objects@.update(
                index as int,
                ObjectRecord { class: before.class_of(object), ..before.objects@[index as int] },
            ));
        },
        AnyObject::Class(c) => {
            assert forall|k: int|
                0 <= k < after.classes@.len() && k != c.index implies #[trigger] after.classes@[k]
                == before.classes@[k] by {
                assert(between.classes@[k] == before.classes@[k]);
            }
        },
        AnyObject::Protocol(protocol) => {
            let i = protocol.index as int;
            assert(after.protocols@ =~= before.protocols@.update(
                i,
                ProtocolRecord { isa: Some(before.class_of(object)), ..before.protocols@[i] },
            ));
        },
    }
}

} // verus!
