//! What an Objective-C runtime knows, and what can be asked of it.
//!
//! A [`Runtime`] holds, as plain data, the selectors, classes, methods, instance variables,
//! protocols and objects that an Objective-C runtime reports. The other types of this module
//! are handles into it. They are cheap to copy, and equal exactly where they stand for the
//! same thing, as the pointers of the runtime are.

use vstd::prelude::*;

use crate::bytes::no_nul;

pub mod class;
pub mod ivar;
pub mod laws;
pub mod method;
pub mod object;
pub mod protocol;
pub mod sel;
pub mod verify;

verus! {

/// A method selector.
///
/// A selector is effectively an interned string, which makes comparing selectors cheap.
#[derive(Debug, Clone, Copy, PartialEq, Eq, Structural, Hash)]
pub struct Sel {
    pub index: usize,
}

/// The address of the start of a method implementation.
#[derive(Debug, Clone, Copy, PartialEq, Eq, Structural, Hash)]
pub struct Imp(pub usize);

/// A method in a class definition.
#[derive(Debug, Clone, Copy, PartialEq, Eq, Structural, Hash)]
pub struct Method {
    pub index: usize,
}

/// An instance variable.
#[derive(Debug, Clone, Copy, PartialEq, Eq, Structural, Hash)]
pub struct Ivar {
    pub index: usize,
}

/// A protocol.
#[derive(Debug, Clone, Copy, PartialEq, Eq, Structural)]
pub struct AnyProtocol {
    pub index: usize,
}

/// A class, or the metaclass of a class.
#[derive(Debug, Clone, Copy, PartialEq, Eq, Structural, Hash)]
pub struct AnyClass {
    pub index: usize,
    pub meta: bool,
}

/// An object. Classes and protocols are objects too.
#[derive(Debug, Clone, Copy, PartialEq, Eq, Structural)]
pub enum AnyObject {
    /// An instance of a class.
    Instance(usize),
    /// A class as an object.
    Class(AnyClass),
    /// A protocol as an object.
    Protocol(AnyProtocol),
}

/// What the runtime knows of a method.
#[derive(Debug)]
pub struct MethodRecord {
    pub sel: Sel,
    pub return_type: Vec<u8>,
    pub argument_types: Vec<Vec<u8>>,
    pub imp: Imp,
}

/// What the runtime knows of an instance variable.
#[derive(Debug)]
pub struct IvarRecord {
    pub name: Vec<u8>,
    pub offset: isize,
    pub type_encoding: Vec<u8>,
}

/// What a class, or a metaclass, itself defines.
#[derive(Debug)]
pub struct ClassSide {
    pub methods: Vec<Method>,
    pub ivars: Vec<Ivar>,
    pub protocols: Vec<AnyProtocol>,
    pub instance_size: usize,
    /// The class of the class as an object, where it was changed.
    pub isa: Option<AnyClass>,
}

/// What the runtime knows of a class and its metaclass.
#[derive(Debug)]
pub struct ClassRecord {
    pub name: Vec<u8>,
    pub superclass: Option<usize>,
    pub class_side: ClassSide,
    pub meta_side: ClassSide,
}

/// A method description as the runtime reports it. Either part may be missing.
#[derive(Debug)]
pub struct RawDescription {
    pub name: Option<Sel>,
    pub types: Option<Vec<u8>>,
}

/// A method that a protocol describes.
#[derive(Debug)]
pub struct ProtocolMethod {
    pub required: bool,
    pub instance: bool,
    pub raw: RawDescription,
}

/// What the runtime knows of a protocol.
#[derive(Debug)]
pub struct ProtocolRecord {
    pub name: Vec<u8>,
    pub adopted: Vec<AnyProtocol>,
    pub methods: Vec<ProtocolMethod>,
    /// The class of the protocol as an object, where it was changed.
    pub isa: Option<AnyClass>,
}

/// An instance: its class, and its memory.
#[derive(Debug)]
pub struct ObjectRecord {
    pub class: AnyClass,
    pub memory: Vec<u8>,
}

/// What an Objective-C runtime knows.
#[derive(Debug)]
pub struct Runtime {
    pub selectors: Vec<Vec<u8>>,
    pub methods: Vec<MethodRecord>,
    pub ivars: Vec<IvarRecord>,
    pub protocols: Vec<ProtocolRecord>,
    pub classes: Vec<ClassRecord>,
    pub objects: Vec<ObjectRecord>,
    /// The class of protocols as objects, where there is one.
    pub protocol_class: Option<AnyClass>,
}

impl Runtime {
    pub open spec fn has_sel(&self, sel: Sel) -> bool {
        sel.index < self.selectors@.len()
    }

    pub open spec fn has_method(&self, method: Method) -> bool {
        method.index < self.methods@.len()
    }

    pub open spec fn has_ivar(&self, ivar: Ivar) -> bool {
        ivar.index < self.ivars@.len()
    }

    pub open spec fn has_protocol(&self, protocol: AnyProtocol) -> bool {
        protocol.index < self.protocols@.len()
    }

    pub open spec fn has_class(&self, class: AnyClass) -> bool {
        class.index < self.classes@.len()
    }

    pub open spec fn has_object(&self, object: AnyObject) -> bool {
        match object {
            AnyObject::Instance(index) => index < self.objects@.len(),
            AnyObject::Class(class) => self.has_class(class),
            AnyObject::Protocol(protocol) => self.has_protocol(protocol)
                && self.protocol_class is Some,
        }
    }

    /// What `class` itself defines.
    pub open spec fn side(&self, class: AnyClass) -> ClassSide {
        if class.meta {
            self.classes@[class.index as int].meta_side
        } else {
            self.classes@[class.index as int].class_side
        }
    }

    /// No two selectors have the same name.
    pub open spec fn selectors_wf(&self) -> bool {
        &&& forall|i: int| 0 <= i < self.selectors@.len() ==> no_nul((#[trigger] self.selectors@[i])@)
        &&& forall|i: int, j: int|
            0 <= i < j < self.selectors@.len() ==> (#[trigger] self.selectors@[i])@ != (
            #[trigger] self.selectors@[j])@
    }

    /// Methods have known selectors.
    pub open spec fn methods_wf(&self) -> bool {
        forall|i: int|
            0 <= i < self.methods@.len() ==> self.has_sel((#[trigger] self.methods@[i]).sel)
    }

    /// No two protocols have the same name, and a protocol adopts only earlier ones. The
    /// descriptions of its methods are complete.
    pub open spec fn protocols_wf(&self) -> bool {
        &&& forall|i: int|
            0 <= i < self.protocols@.len() ==> self.protocol_wf(#[trigger] self.protocols@[i], i)
        &&& forall|i: int, j: int|
            0 <= i < j < self.protocols@.len() ==> (#[trigger] self.protocols@[i]).name@ != (
            #[trigger] self.protocols@[j]).name@
    }

    pub open spec fn protocol_wf(&self, record: ProtocolRecord, index: int) -> bool {
        &&& no_nul(record.name@)
        &&& forall|k: int|
            0 <= k < record.adopted@.len() ==> (#[trigger] record.adopted@[k]).index < index
        &&& forall|k: int|
            0 <= k < record.methods@.len() ==> self.raw_wf((#[trigger] record.methods@[k]).raw)
        &&& record.isa matches Some(class) ==> self.has_class(class)
    }

    /// Neither part of a description is missing, and its selector is known.
    pub open spec fn raw_wf(&self, raw: RawDescription) -> bool {
        &&& raw.name matches Some(sel) && self.has_sel(sel)
        &&& raw.types is Some
    }

    pub open spec fn side_wf(&self, side: ClassSide) -> bool {
        &&& forall|k: int|
            0 <= k < side.methods@.len() ==> self.has_method(#[trigger] side.methods@[k])
        &&& forall|k: int| 0 <= k < side.ivars@.len() ==> self.has_ivar(#[trigger] side.ivars@[k])
        &&& forall|k: int|
            0 <= k < side.protocols@.len() ==> self.has_protocol(#[trigger] side.protocols@[k])
        &&& side.isa matches Some(class) ==> self.has_class(class) && class.meta
    }

    /// No two classes have the same name, and the superclass of a class comes before it.
    pub open spec fn classes_wf(&self) -> bool {
        &&& forall|i: int|
            0 <= i < self.classes@.len() ==> self.class_wf(#[trigger] self.classes@[i], i)
        &&& forall|i: int, j: int|
            0 <= i < j < self.classes@.len() ==> (#[trigger] self.classes@[i]).name@ != (
            #[trigger] self.classes@[j]).name@
    }

    pub open spec fn class_wf(&self, record: ClassRecord, index: int) -> bool {
        &&& no_nul(record.name@)
        &&& record.superclass matches Some(s) ==> s < index
        &&& self.side_wf(record.class_side)
        &&& self.side_wf(record.meta_side)
    }

    /// Instances have known classes, and as much memory as their class asks for.
    pub open spec fn objects_wf(&self) -> bool {
        &&& forall|i: int|
            0 <= i < self.objects@.len() ==> self.object_wf(#[trigger] self.objects@[i])
        &&& self.protocol_class matches Some(class) ==> self.has_class(class)
    }

    pub open spec fn object_wf(&self, record: ObjectRecord) -> bool {
        &&& self.has_class(record.class)
        &&& record.memory@.len() == self.side(record.class).instance_size
    }

    /// What is known fits together.
    pub open spec fn wf(&self) -> bool {
        &&& self.selectors_wf()
        &&& self.methods_wf()
        &&& self.protocols_wf()
        &&& self.classes_wf()
        &&& self.objects_wf()
    }

    /// A runtime that knows nothing yet.
    pub fn new() -> (rt: Runtime)
        ensures
            rt.wf(),
            rt.selectors@.len() == 0,
            rt.methods@.len() == 0,
            rt.ivars@.len() == 0,
            rt.protocols@.len() == 0,
            rt.classes@.len() == 0,
            rt.objects@.len() == 0,
            rt.protocol_class is None,
    {
        Runtime {
            selectors: Vec::new(),
            methods: Vec::new(),
            ivars: Vec::new(),
            protocols: Vec::new(),
            classes: Vec::new(),
            objects: Vec::new(),
            protocol_class: None,
        }
    }
}

} // verus!
