//! Classes and metaclasses.

use vstd::prelude::*;

use crate::bytes::{
    copy_bytes, escaped, is_lossy_text, lossy, lossy_text, no_nul, push_escaped, same_bytes,
};
use crate::runtime::{
    AnyClass, AnyObject, AnyProtocol, ClassRecord, ClassSide, Imp, Ivar, IvarRecord, Method,
    MethodRecord, Runtime, Sel,
};

verus! {

impl AnyClass {
    /// A measure that falls along superclasses.
    pub open spec fn rank(self) -> nat {
        2 * self.index as nat + if self.meta {
            1nat
        } else {
            0nat
        }
    }

    /// The other one of a class and its metaclass.
    pub open spec fn twin(self) -> AnyClass {
        AnyClass { index: self.index, meta: !self.meta }
    }
}

impl Runtime {
    /// The name of a class. A metaclass has the name of its class.
    pub open spec fn class_name(&self, class: AnyClass) -> Seq<u8> {
        self.classes@[class.index as int].name@
    }

    /// The superclass of a class. Metaclasses inherit as their classes do, and the metaclass
    /// of a root class inherits from the root class.
    pub open spec fn superclass_of(&self, class: AnyClass) -> Option<AnyClass> {
        match self.classes@[class.index as int].superclass {
            Some(index) => Some(AnyClass { index, meta: class.meta }),
            None => if class.meta {
                Some(AnyClass { index: class.index, meta: false })
            } else {
                None
            },
        }
    }

    /// The index of the root class from which the class at `index` descends.
    pub open spec fn root_index(&self, index: usize) -> usize
        decreases index,
        when self.wf() && index < self.classes@.len()
    {
        match self.classes@[index as int].superclass {
            Some(above) => self.root_index(above),
            None => index,
        }
    }

    /// The class of a class as an object, unless it was changed: its metaclass, and for a
    /// metaclass, that of the root class.
    pub open spec fn regular_metaclass(&self, class: AnyClass) -> AnyClass {
        if class.meta {
            AnyClass { index: self.root_index(class.index), meta: true }
        } else {
            AnyClass { index: class.index, meta: true }
        }
    }

    /// The class of a class as an object.
    pub open spec fn metaclass_of(&self, class: AnyClass) -> AnyClass {
        match self.side(class).isa {
            Some(changed) => changed,
            None => self.regular_metaclass(class),
        }
    }

    /// The class, its superclass, and so on up to the root.
    pub open spec fn lineage(&self, class: AnyClass) -> Seq<AnyClass>
        decreases class.rank(),
        when self.wf() && self.has_class(class)
    {
        match self.superclass_of(class) {
            Some(above) => seq![class] + self.lineage(above),
            None => seq![class],
        }
    }

    /// The first of `methods` with the selector `sel`.
    pub open spec fn first_method(&self, methods: Seq<Method>, sel: Sel) -> Option<Method>
        decreases methods.len(),
    {
        if methods.len() == 0 {
            None
        } else if self.method_sel(methods[0]) == sel {
            Some(methods[0])
        } else {
            self.first_method(methods.skip(1), sel)
        }
    }

    /// The method for `sel` that a class itself defines.
    pub open spec fn own_method(&self, class: AnyClass, sel: Sel) -> Option<Method> {
        self.first_method(self.side(class).methods@, sel)
    }

    /// The method for `sel` that instances of a class have: its own, or else the one that it
    /// inherits.
    pub open spec fn find_method(&self, class: AnyClass, sel: Sel) -> Option<Method>
        decreases class.rank(),
        when self.wf() && self.has_class(class)
    {
        match self.own_method(class, sel) {
            Some(method) => Some(method),
            None => match self.superclass_of(class) {
                Some(above) => self.find_method(above, sel),
                None => None,
            },
        }
    }

    /// The method for `sel` that a class itself has as an object. For a metaclass, that is
    /// the one that its instance has.
    pub open spec fn find_class_method(&self, class: AnyClass, sel: Sel) -> Option<Method> {
        if class.meta {
            self.find_method(class, sel)
        } else {
            self.find_method(self.metaclass_of(class), sel)
        }
    }

    /// The name of an instance variable.
    pub open spec fn ivar_name(&self, ivar: Ivar) -> Seq<u8> {
        self.ivars@[ivar.index as int].name@
    }

    /// The first of `ivars` called `name`.
    pub open spec fn first_ivar(&self, ivars: Seq<Ivar>, name: Seq<u8>) -> Option<Ivar>
        decreases ivars.len(),
    {
        if ivars.len() == 0 {
            None
        } else if self.ivar_name(ivars[0]) == name {
            Some(ivars[0])
        } else {
            self.first_ivar(ivars.skip(1), name)
        }
    }

    /// The instance variable called `name` that a class itself defines.
    pub open spec fn own_ivar(&self, class: AnyClass, name: Seq<u8>) -> Option<Ivar> {
        self.first_ivar(self.side(class).ivars@, name)
    }

    /// The instance variable called `name` of a class: its own, or else the one that it
    /// inherits.
    pub open spec fn find_ivar(&self, class: AnyClass, name: Seq<u8>) -> Option<Ivar>
        decreases class.rank(),
        when self.wf() && self.has_class(class)
    {
        match self.own_ivar(class, name) {
            Some(ivar) => Some(ivar),
            None => match self.superclass_of(class) {
                Some(above) => self.find_ivar(above, name),
                None => None,
            },
        }
    }

    /// Whether a class is, or descends from, `ancestor`.
    pub open spec fn descends(&self, class: AnyClass, ancestor: AnyClass) -> bool {
        self.lineage(class).contains(ancestor)
    }

    /// Whether a class called `name` is registered.
    pub open spec fn has_class_named(&self, name: Seq<u8>) -> bool {
        exists|i: int| 0 <= i < self.classes@.len() && (#[trigger] self.classes@[i]).name@ == name
    }

    /// Nothing but one side of one class differs from `before` among the classes.
    pub open spec fn other_sides_kept(&self, before: &Runtime, class: AnyClass) -> bool {
        let i = class.index as int;
        &&& self.classes@.len() == before.classes@.len()
        &&& forall|k: int|
            0 <= k < self.classes@.len() && k != i ==> #[trigger] self.classes@[k]
                == before.classes@[k]
        &&& self.classes@[i].name == before.classes@[i].name
        &&& self.classes@[i].superclass == before.classes@[i].superclass
        &&& self.side(class.twin()) == before.side(class.twin())
    }
}

/// The superclass of a known class is known, and of lower rank.
pub proof fn superclass_is_known(rt: Runtime, class: AnyClass)
    requires
        rt.wf(),
        rt.has_class(class),
    ensures
        rt.superclass_of(class) matches Some(above) ==> rt.has_class(above) && above.rank()
            < class.rank(),
{
    assert(rt.class_wf(rt.classes@[class.index as int], class.index as int));
}

/// The root of a known class is a known class without superclass.
pub proof fn root_is_known(rt: Runtime, index: usize)
    requires
        rt.wf(),
        index < rt.classes@.len(),
    ensures
        rt.root_index(index) < rt.classes@.len(),
        rt.root_index(index) <= index,
        rt.classes@[rt.root_index(index) as int].superclass is None,
    decreases index,
{
    assert(rt.class_wf(rt.classes@[index as int], index as int));
    match rt.classes@[index as int].superclass {
        Some(above) => {
            root_is_known(rt, above);
        },
        None => {},
    }
}

/// A runtime stays sound while methods and instance variables are added and single sides of
/// classes change, as long as these stay sound.
pub(crate) proof fn grown_keeps_wf(before: Runtime, after: Runtime, class: AnyClass)
    requires
        before.wf(),
        before.has_class(class),
        after.selectors == before.selectors,
        after.protocols == before.protocols,
        after.objects == before.objects,
        after.protocol_class == before.protocol_class,
        before.methods@.len() <= after.methods@.len(),
        forall|i: int|
            0 <= i < after.methods@.len() ==> after.has_sel((#[trigger] after.methods@[i]).sel),
        before.ivars@.len() <= after.ivars@.len(),
        after.other_sides_kept(&before, class),
        after.side_wf(after.side(class)),
        after.side(class).instance_size == before.side(class).instance_size,
    ensures
        after.wf(),
{
    assert forall|k: int| 0 <= k < after.protocols@.len() implies after.protocol_wf(
        #[trigger] after.protocols@[k],
        k,
    ) by {
        assert(before.protocol_wf(before.protocols@[k], k));
    }
    assert forall|k: int| 0 <= k < after.classes@.len() implies after.class_wf(
        #[trigger] after.classes@[k],
        k,
    ) by {
        assert(before.class_wf(before.classes@[k], k));
        if k == class.index {
            assert(before.side_wf(before.side(class.twin())));
            assert(after.side_wf(after.side(class.twin())));
        }
    }
    assert forall|k: int| 0 <= k < after.objects@.len() implies after.object_wf(
        #[trigger] after.objects@[k],
    ) by {
        assert(before.object_wf(before.objects@[k]));
        let c = before.objects@[k].class;
        if c.index == class.index {
            assert(c == class || c == class.twin());
        }
    }
    assert forall|i: int, j: int| 0 <= i < j < after.classes@.len() implies (
    #[trigger] after.classes@[i]).name@ != (#[trigger] after.classes@[j]).name@ by {
        assert(before.classes@[i].name@ != before.classes@[j].name@);
    }
}

impl Runtime {
    /// Registers a class with its metaclass, or gives `None` where the name is taken.
    pub fn add_class(
        &mut self,
        name: &[u8],
        superclass: Option<AnyClass>,
        instance_size: usize,
        metaclass_size: usize,
    ) -> (class: Option<AnyClass>)
        requires
            old(self).wf(),
            no_nul(name@),
            superclass matches Some(s) ==> old(self).has_class(s) && !s.meta,
        ensures
            final(self).wf(),
            class is None <==> old(self).has_class_named(name@),
            class is None <==> exists|i: int|
                0 <= i < old(self).classes@.len() && (#[trigger] old(self).classes@[i]).name@
                    == name@,
            class is None ==> *final(self) == *old(self),
            class matches Some(c) ==> {
                &&& c == (AnyClass { index: old(self).classes@.len() as usize, meta: false })
                &&& final(self).classes@.len() == old(self).classes@.len() + 1
                &&& forall|i: int|
                    0 <= i < old(self).classes@.len() ==> #[trigger] final(self).classes@[i]
                        == old(self).classes@[i]
                &&& final(self).class_name(c) == name@
                &&& final(self).superclass_of(c) == superclass
                &&& final(self).side(c).methods@.len() == 0
                &&& final(self).side(c).ivars@.len() == 0
                &&& final(self).side(c).protocols@.len() == 0
                &&& final(self).side(c).instance_size == instance_size
                &&& final(self).side(c).isa is None
                &&& final(self).side(c.twin()).methods@.len() == 0
                &&& final(self).side(c.twin()).ivars@.len() == 0
                &&& final(self).side(c.twin()).protocols@.len() == 0
                &&& final(self).side(c.twin()).instance_size == metaclass_size
                &&& final(self).side(c.twin()).isa is None
                &&& final(self).selectors == old(self).selectors
                &&& final(self).methods == old(self).methods
                &&& final(self).ivars == old(self).ivars
                &&& final(self).protocols == old(self).protocols
                &&& final(self).objects == old(self).objects
                &&& final(self).protocol_class == old(self).protocol_class
            },
    {
        match AnyClass::get(self, name) {
            Some(class) => {
                assert(self.classes@[class.index as int].name@ == name@);
                return None;
            },
            None => {},
        }
        let class = AnyClass { index: self.classes.len(), meta: false };
        self.classes.push(
            ClassRecord {
                name: copy_bytes(name),
                superclass: match superclass {
                    Some(s) => Some(s.index),
                    None => None,
                },
                class_side: ClassSide {
                    methods: Vec::new(),
                    ivars: Vec::new(),
                    protocols: Vec::new(),
                    instance_size,
                    isa: None,
                },
                meta_side: ClassSide {
                    methods: Vec::new(),
                    ivars: Vec::new(),
                    protocols: Vec::new(),
                    instance_size: metaclass_size,
                    isa: None,
                },
            },
        );
        proof {
            let before = *old(self);
            assert forall|k: int| 0 <= k < self.protocols@.len() implies self.protocol_wf(
                #[trigger] self.protocols@[k],
                k,
            ) by {
                assert(before.protocol_wf(before.protocols@[k], k));
            }
            assert forall|k: int| 0 <= k < self.classes@.len() implies self.class_wf(
                #[trigger] self.classes@[k],
                k,
            ) by {
                if k < before.classes@.len() {
                    assert(before.class_wf(before.classes@[k], k));
                }
            }
            assert forall|k: int| 0 <= k < self.objects@.len() implies self.object_wf(
                #[trigger] self.objects@[k],
            ) by {
                assert(before.object_wf(before.objects@[k]));
            }
        }
        Some(class)
    }

    /// Adds a method to a class, or gives `None` where the class itself has one for the
    /// selector already.
    pub fn add_method(
        &mut self,
        class: AnyClass,
        sel: Sel,
        return_type: Vec<u8>,
        argument_types: Vec<Vec<u8>>,
        imp: Imp,
    ) -> (method: Option<Method>)
        requires
            old(self).wf(),
            old(self).has_class(class),
            old(self).has_sel(sel),
        ensures
            final(self).wf(),
            method is None <==> old(self).own_method(class, sel) is Some,
            method is None ==> *final(self) == *old(self),
            method matches Some(m) ==> {
                &&& m.index == old(self).methods@.len()
                &&& final(self).methods@ == old(self).methods@.push(
                    MethodRecord { sel, return_type, argument_types, imp },
                )
                &&& final(self).other_sides_kept(old(self), class)
                &&& final(self).side(class).methods@ == old(self).side(class).methods@.push(m)
                &&& final(self).side(class).ivars == old(self).side(class).ivars
                &&& final(self).side(class).protocols == old(self).side(class).protocols
                &&& final(self).side(class).instance_size == old(self).side(class).instance_size
                &&& final(self).side(class).isa == old(self).side(class).isa
                &&& final(self).selectors == old(self).selectors
                &&& final(self).ivars == old(self).ivars
                &&& final(self).protocols == old(self).protocols
                &&& final(self).objects == old(self).objects
                &&& final(self).protocol_class == old(self).protocol_class
            },
    {
        if class.own_instance_method(self, sel).is_some() {
            return None;
        }
        let method = Method { index: self.methods.len() };
        self.methods.push(MethodRecord { sel, return_type, argument_types, imp });
        let i: usize = class.index;
        if class.meta {
            self.classes[i].meta_side.methods.push(method);
        } else {
            self.classes[i].class_side.methods.push(method);
        }
        proof {
            assert(old(self).class_wf(old(self).classes@[i as int], i as int));
            grown_keeps_wf(*old(self), *self, class);
        }
        Some(method)
    }

    /// Adds an instance variable to a class.
    pub fn add_ivar(
        &mut self,
        class: AnyClass,
        name: &[u8],
        offset: isize,
        type_encoding: &[u8],
    ) -> (ivar: Ivar)
        requires
            old(self).wf(),
            old(self).has_class(class),
        ensures
            final(self).wf(),
            ivar.index == old(self).ivars@.len(),
            final(self).ivars@.len() == old(self).ivars@.len() + 1,
            forall|k: int|
                0 <= k < old(self).ivars@.len() ==> #[trigger] final(self).ivars@[k]
                    == old(self).ivars@[k],
            final(self).ivars@[ivar.index as int].name@ == name@,
            final(self).ivars@[ivar.index as int].offset == offset,
            final(self).ivars@[ivar.index as int].type_encoding@ == type_encoding@,
            final(self).other_sides_kept(old(self), class),
            final(self).side(class).methods == old(self).side(class).methods,
            final(self).side(class).ivars@ == old(self).side(class).ivars@.push(ivar),
            final(self).side(class).protocols == old(self).side(class).protocols,
            final(self).side(class).instance_size == old(self).side(class).instance_size,
            final(self).side(class).isa == old(self).side(class).isa,
            final(self).selectors == old(self).selectors,
            final(self).methods == old(self).methods,
            final(self).protocols == old(self).protocols,
            final(self).objects == old(self).objects,
            final(self).protocol_class == old(self).protocol_class,
    {
        let ivar = Ivar { index: self.ivars.len() };
        self.ivars.push(
            IvarRecord { name: copy_bytes(name), offset, type_encoding: copy_bytes(type_encoding) },
        );
        let i: usize = class.index;
        if class.meta {
            self.classes[i].meta_side.ivars.push(ivar);
        } else {
            self.classes[i].class_side.ivars.push(ivar);
        }
        proof {
            assert(old(self).class_wf(old(self).classes@[i as int], i as int));
            grown_keeps_wf(*old(self), *self, class);
        }
        ivar
    }

    /// Makes a class adopt a protocol.
    pub fn adopt(&mut self, class: AnyClass, protocol: AnyProtocol)
        requires
            old(self).wf(),
            old(self).has_class(class),
            old(self).has_protocol(protocol),
        ensures
            final(self).wf(),
            final(self).other_sides_kept(old(self), class),
            final(self).side(class).methods == old(self).side(class).methods,
            final(self).side(class).ivars == old(self).side(class).ivars,
            final(self).side(class).protocols@ == old(self).side(class).protocols@.push(protocol),
            final(self).side(class).instance_size == old(self).side(class).instance_size,
            final(self).side(class).isa == old(self).side(class).isa,
            final(self).selectors == old(self).selectors,
            final(self).methods == old(self).methods,
            final(self).ivars == old(self).ivars,
            final(self).protocols == old(self).protocols,
            final(self).objects == old(self).objects,
            final(self).protocol_class == old(self).protocol_class,
    {
        let i: usize = class.index;
        if class.meta {
            self.classes[i].meta_side.protocols.push(protocol);
        } else {
            self.classes[i].class_side.protocols.push(protocol);
        }
        proof {
            assert(old(self).class_wf(old(self).classes@[i as int], i as int));
            grown_keeps_wf(*old(self), *self, class);
        }
    }
}

impl AnyClass {
    /// Looks up a class by its name.
    pub fn get(rt: &Runtime, name: &[u8]) -> (class: Option<AnyClass>)
        ensures
            class matches Some(c) ==> rt.has_class(c) && !c.meta && rt.class_name(c) == name@,
            class is None <==> !rt.has_class_named(name@),
            class is None <==> forall|i: int|
                0 <= i < rt.classes@.len() ==> (#[trigger] rt.classes@[i]).name@ != name@,
            class matches Some(c) ==> c.index < rt.classes@.len()
                && rt.classes@[c.index as int].name@ == name@,
    {
        let mut i: usize = 0;
        while i < rt.classes.len()
            invariant
                i <= rt.classes@.len(),
                forall|j: int| 0 <= j < i ==> (#[trigger] rt.classes@[j]).name@ != name@,
            decreases rt.classes@.len() - i,
        {
            if same_bytes(rt.classes[i].name.as_slice(), name) {
                return Some(AnyClass { index: i, meta: false });
            }
            i += 1;
        }
        None
    }

    /// All registered classes.
    pub fn classes(rt: &Runtime) -> (classes: Vec<AnyClass>)
        ensures
            classes@.len() == rt.classes@.len(),
            forall|i: int|
                0 <= i < classes@.len() ==> #[trigger] classes@[i] == (AnyClass {
                    index: i as usize,
                    meta: false,
                }),
    {
        let mut classes: Vec<AnyClass> = Vec::new();
        let mut i: usize = 0;
        while i < rt.classes.len()
            invariant
                i <= rt.classes@.len(),
                classes@.len() == i,
                forall|j: int|
                    0 <= j < i ==> #[trigger] classes@[j] == (AnyClass {
                        index: j as usize,
                        meta: false,
                    }),
            decreases rt.classes@.len() - i,
        {
            classes.push(AnyClass { index: i, meta: false });
            i += 1;
        }
        classes
    }

    /// The number of registered classes.
    pub fn classes_count(rt: &Runtime) -> (n: usize)
        ensures
            n == rt.classes@.len(),
    {
        rt.classes.len()
    }

    /// The name of the class.
    pub fn name(self, rt: &Runtime) -> (name: &[u8])
        requires
            rt.has_class(self),
        ensures
            name@ == rt.class_name(self),
            name@ == rt.classes@[self.index as int].name@,
    {
        rt.classes[self.index].name.as_slice()
    }

    /// What the class itself defines.
    fn side(self, rt: &Runtime) -> (side: &ClassSide)
        requires
            rt.has_class(self),
        ensures
            *side == rt.side(self),
    {
        if self.meta {
            &rt.classes[self.index].meta_side
        } else {
            &rt.classes[self.index].class_side
        }
    }

    /// The superclass, or `None` for a root class.
    pub fn superclass(self, rt: &Runtime) -> (class: Option<AnyClass>)
        requires
            rt.has_class(self),
        ensures
            class == rt.superclass_of(self),
    {
        match rt.classes[self.index].superclass {
            Some(index) => Some(AnyClass { index, meta: self.meta }),
            None => if self.meta {
                Some(AnyClass { index: self.index, meta: false })
            } else {
                None
            },
        }
    }

    /// The metaclass of the class: its class as an object.
    pub fn metaclass(self, rt: &Runtime) -> (class: AnyClass)
        requires
            rt.wf(),
            rt.has_class(self),
        ensures
            class == rt.metaclass_of(self),
            rt.has_class(class),
    {
        assert(rt.class_wf(rt.classes@[self.index as int], self.index as int));
        match self.side(rt).isa {
            Some(changed) => {
                return changed;
            },
            None => {},
        }
        if !self.meta {
            return AnyClass { index: self.index, meta: true };
        }
        let mut index: usize = self.index;
        loop
            invariant
                rt.wf(),
                index < rt.classes@.len(),
                rt.root_index(index) == rt.root_index(self.index),
            ensures
                index == rt.root_index(self.index),
                index < rt.classes@.len(),
            decreases index,
        {
            assert(rt.class_wf(rt.classes@[index as int], index as int));
            match rt.classes[index].superclass {
                Some(above) => {
                    index = above;
                },
                None => {
                    break ;
                },
            }
        }
        AnyClass { index, meta: true }
    }

    /// Whether this is a metaclass.
    pub fn is_metaclass(self) -> (meta: bool)
        ensures
            meta == self.meta,
    {
        self.meta
    }

    /// The size of instances.
    pub fn instance_size(self, rt: &Runtime) -> (size: usize)
        requires
            rt.has_class(self),
        ensures
            size == rt.side(self).instance_size,
    {
        self.side(rt).instance_size
    }

    /// The method for `sel` that the class itself defines.
    pub fn own_instance_method(self, rt: &Runtime, sel: Sel) -> (method: Option<Method>)
        requires
            rt.wf(),
            rt.has_class(self),
        ensures
            method == rt.own_method(self, sel),
    {
        let methods = &self.side(rt).methods;
        let ghost all = methods@;
        let mut i: usize = 0;
        proof {
            assert(rt.class_wf(rt.classes@[self.index as int], self.index as int));
            assert(all.skip(0) =~= all);
        }
        while i < methods.len()
            invariant
                methods@ == all,
                rt.side_wf(rt.side(self)),
                all == rt.side(self).methods@,
                i <= all.len(),
                rt.own_method(self, sel) == rt.first_method(all.skip(i as int), sel),
            decreases all.len() - i,
        {
            let method = methods[i];
            assert(rt.has_method(all[i as int]));
            assert(all.skip(i as int)[0] == method);
            assert(all.skip(i as int).skip(1) =~= all.skip(i + 1));
            if method.name(rt) == sel {
                return Some(method);
            }
            i += 1;
        }
        None
    }

    /// The method for `sel` that instances of the class have, or `None` where neither the
    /// class nor its superclasses have one.
    pub fn instance_method(self, rt: &Runtime, sel: Sel) -> (method: Option<Method>)
        requires
            rt.wf(),
            rt.has_class(self),
        ensures
            method == rt.find_method(self, sel),
            method matches Some(m) ==> rt.has_method(m) && rt.method_sel(m) == sel,
    {
        let mut class = self;
        loop
            invariant
                rt.wf(),
                rt.has_class(class),
                rt.find_method(self, sel) == rt.find_method(class, sel),
            decreases class.rank(),
        {
            proof {
                superclass_is_known(*rt, class);
            }
            match class.own_instance_method(rt, sel) {
                Some(method) => {
                    proof {
                        found_method_is_known(*rt, class, sel);
                    }
                    return Some(method);
                },
                None => {},
            }
            match class.superclass(rt) {
                Some(above) => {
                    class = above;
                },
                None => {
                    return None;
                },
            }
        }
    }

    /// The method for `sel` that the class itself has, or `None` where neither the class nor
    /// its superclasses have one.
    ///
    /// The same as that of the metaclass.
    pub fn class_method(self, rt: &Runtime, sel: Sel) -> (method: Option<Method>)
        requires
            rt.wf(),
            rt.has_class(self),
        ensures
            method == rt.find_class_method(self, sel),
            method matches Some(m) ==> rt.has_method(m) && rt.method_sel(m) == sel,
    {
        if self.meta {
            self.instance_method(rt, sel)
        } else {
            self.metaclass(rt).instance_method(rt, sel)
        }
    }

    /// The instance variable called `name` that the class itself defines.
    fn own_instance_variable(self, rt: &Runtime, name: &[u8]) -> (ivar: Option<Ivar>)
        requires
            rt.wf(),
            rt.has_class(self),
        ensures
            ivar == rt.own_ivar(self, name@),
    {
        let ivars = &self.side(rt).ivars;
        let ghost all = ivars@;
        let mut i: usize = 0;
        proof {
            assert(rt.class_wf(rt.classes@[self.index as int], self.index as int));
            assert(all.skip(0) =~= all);
        }
        while i < ivars.len()
            invariant
                ivars@ == all,
                rt.side_wf(rt.side(self)),
                all == rt.side(self).ivars@,
                i <= all.len(),
                rt.own_ivar(self, name@) == rt.first_ivar(all.skip(i as int), name@),
            decreases all.len() - i,
        {
            let ivar = ivars[i];
            assert(rt.has_ivar(all[i as int]));
            assert(all.skip(i as int)[0] == ivar);
            assert(all.skip(i as int).skip(1) =~= all.skip(i + 1));
            if same_bytes(rt.ivars[ivar.index].name.as_slice(), name) {
                return Some(ivar);
            }
            i += 1;
        }
        None
    }

    /// The instance variable called `name`, or `None` where neither the class nor its
    /// superclasses have one.
    pub fn instance_variable(self, rt: &Runtime, name: &[u8]) -> (ivar: Option<Ivar>)
        requires
            rt.wf(),
            rt.has_class(self),
        ensures
            ivar == rt.find_ivar(self, name@),
            ivar matches Some(i) ==> rt.has_ivar(i) && rt.ivar_name(i) == name@,
    {
        let mut class = self;
        loop
            invariant
                rt.wf(),
                rt.has_class(class),
                rt.find_ivar(self, name@) == rt.find_ivar(class, name@),
            decreases class.rank(),
        {
            proof {
                superclass_is_known(*rt, class);
            }
            match class.own_instance_variable(rt, name) {
                Some(ivar) => {
                    proof {
                        found_ivar_is_known(*rt, class, name@);
                    }
                    return Some(ivar);
                },
                None => {},
            }
            match class.superclass(rt) {
                Some(above) => {
                    class = above;
                },
                None => {
                    return None;
                },
            }
        }
    }

    /// The variable called `name` that the class itself has as an object.
    pub fn class_variable(self, rt: &Runtime, name: &[u8]) -> (ivar: Option<Ivar>)
        requires
            rt.wf(),
            rt.has_class(self),
        ensures
            ivar == rt.find_ivar(rt.metaclass_of(self), name@),
            ivar matches Some(i) ==> rt.has_ivar(i) && rt.ivar_name(i) == name@,
    {
        self.metaclass(rt).instance_variable(rt, name)
    }

    /// The methods that the class itself defines.
    pub fn instance_methods(self, rt: &Runtime) -> (methods: &Vec<Method>)
        requires
            rt.has_class(self),
        ensures
            methods@ == rt.side(self).methods@,
    {
        &self.side(rt).methods
    }

    /// Whether the class adopts a protocol that is, or adopts, `protocol`.
    pub fn conforms_to(self, rt: &Runtime, protocol: AnyProtocol) -> (conforms: bool)
        requires
            rt.wf(),
            rt.has_class(self),
        ensures
            conforms == rt.class_conforms(self, protocol),
    {
        let adopted = &self.side(rt).protocols;
        proof {
            assert(rt.class_wf(rt.classes@[self.index as int], self.index as int));
        }
        let mut i: usize = 0;
        while i < adopted.len()
            invariant
                rt.wf(),
                rt.side_wf(rt.side(self)),
                adopted@ == rt.side(self).protocols@,
                i <= adopted@.len(),
                forall|j: int|
                    0 <= j < i ==> !rt.protocol_conforms(#[trigger] adopted@[j], protocol),
            decreases adopted@.len() - i,
        {
            if adopted[i].conforms_to(rt, protocol) {
                return true;
            }
            i += 1;
        }
        false
    }

    /// The protocols that the class itself adopts.
    pub fn adopted_protocols(self, rt: &Runtime) -> (protocols: &Vec<AnyProtocol>)
        requires
            rt.has_class(self),
        ensures
            protocols@ == rt.side(self).protocols@,
    {
        &self.side(rt).protocols
    }

    /// The instance variables that the class itself defines.
    pub fn instance_variables(self, rt: &Runtime) -> (ivars: &Vec<Ivar>)
        requires
            rt.has_class(self),
        ensures
            ivars@ == rt.side(self).ivars@,
    {
        &self.side(rt).ivars
    }

    /// Whether instances of the class respond to the selector, forwarding aside.
    pub fn responds_to(self, rt: &Runtime, sel: Sel) -> (responds: bool)
        requires
            rt.wf(),
            rt.has_class(self),
        ensures
            responds == (rt.find_method(self, sel) is Some),
    {
        self.instance_method(rt, sel).is_some()
    }

    /// Whether the class is, or descends from, `ancestor`.
    pub fn descends_from(self, rt: &Runtime, ancestor: AnyClass) -> (descends: bool)
        requires
            rt.wf(),
            rt.has_class(self),
        ensures
            descends == rt.descends(self, ancestor),
    {
        let mut class = self;
        loop
            invariant
                rt.wf(),
                rt.has_class(class),
                rt.descends(self, ancestor) == rt.descends(class, ancestor),
            decreases class.rank(),
        {
            proof {
                superclass_is_known(*rt, class);
                assert(rt.lineage(class)[0] == class);
            }
            if class == ancestor {
                return true;
            }
            match class.superclass(rt) {
                Some(above) => {
                    proof {
                        lineage_step(*rt, class, above, ancestor);
                    }
                    class = above;
                },
                None => {
                    return false;
                },
            }
        }
    }

    /// The class as an object.
    pub fn as_ref(self) -> (object: AnyObject)
        ensures
            object == AnyObject::Class(self),
    {
        AnyObject::Class(self)
    }

    /// The name as text. Class names are usually UTF-8, so nothing is lost as a rule.
    pub fn display(self, rt: &Runtime) -> (text: String)
        requires
            rt.has_class(self),
        ensures
            text@ == lossy(rt.class_name(self)),
            is_lossy_text(rt.class_name(self), text@),
    {
        lossy_text(self.name(rt))
    }

    /// The class as it is shown to developers, such as `AnyClass { name: "NSObject", .. }`.
    pub fn debug(self, rt: &Runtime) -> (text: String)
        requires
            rt.has_class(self),
        ensures
            text@ == "AnyClass { name: \""@ + escaped(rt.class_name(self)) + "\", .. }"@,
    {
        let mut text = "AnyClass { name: \"".to_owned();
        push_escaped(&mut text, self.name(rt));
        text.append("\", .. }");
        text
    }
}

/// The first of some methods for a selector is one of them, and for that selector.
proof fn first_method_is_one(rt: Runtime, methods: Seq<Method>, sel: Sel)
    ensures
        rt.first_method(methods, sel) matches Some(m) ==> methods.contains(m) && rt.method_sel(m)
            == sel,
    decreases methods.len(),
{
    if methods.len() > 0 {
        let rest = methods.skip(1);
        first_method_is_one(rt, rest, sel);
        assert(methods.contains(methods[0]));
        if rt.method_sel(methods[0]) != sel {
            match rt.first_method(rest, sel) {
                Some(m) => {
                    let i = choose|i: int| 0 <= i < rest.len() && rest[i] == m;
                    assert(methods[i + 1] == m);
                },
                None => {},
            }
        }
    }
}

/// A method that is found is known, and for the selector that was looked for.
pub proof fn found_method_is_known(rt: Runtime, class: AnyClass, sel: Sel)
    requires
        rt.wf(),
        rt.has_class(class),
    ensures
        rt.find_method(class, sel) matches Some(m) ==> rt.has_method(m) && rt.method_sel(m) == sel,
    decreases class.rank(),
{
    superclass_is_known(rt, class);
    assert(rt.class_wf(rt.classes@[class.index as int], class.index as int));
    first_method_is_one(rt, rt.side(class).methods@, sel);
    match rt.superclass_of(class) {
        Some(above) => {
            found_method_is_known(rt, above, sel);
        },
        None => {},
    }
}

/// The first of some instance variables of a name is one of them, and of that name.
proof fn first_ivar_is_one(rt: Runtime, ivars: Seq<Ivar>, name: Seq<u8>)
    ensures
        rt.first_ivar(ivars, name) matches Some(v) ==> ivars.contains(v) && rt.ivar_name(v) == name,
    decreases ivars.len(),
{
    if ivars.len() > 0 {
        let rest = ivars.skip(1);
        first_ivar_is_one(rt, rest, name);
        assert(ivars.contains(ivars[0]));
        if rt.ivar_name(ivars[0]) != name {
            match rt.first_ivar(rest, name) {
                Some(v) => {
                    let i = choose|i: int| 0 <= i < rest.len() && rest[i] == v;
                    assert(ivars[i + 1] == v);
                },
                None => {},
            }
        }
    }
}

/// An instance variable that is found is known, and of the name that was looked for.
pub proof fn found_ivar_is_known(rt: Runtime, class: AnyClass, name: Seq<u8>)
    requires
        rt.wf(),
        rt.has_class(class),
    ensures
        rt.find_ivar(class, name) matches Some(v) ==> rt.has_ivar(v) && rt.ivar_name(v) == name,
    decreases class.rank(),
{
    superclass_is_known(rt, class);
    assert(rt.class_wf(rt.classes@[class.index as int], class.index as int));
    first_ivar_is_one(rt, rt.side(class).ivars@, name);
    match rt.superclass_of(class) {
        Some(above) => {
            found_ivar_is_known(rt, above, name);
        },
        None => {},
    }
}

/// Whoever is above a class's superclass is above the class, and the class adds itself only.
proof fn lineage_step(rt: Runtime, class: AnyClass, above: AnyClass, ancestor: AnyClass)
    requires
        rt.wf(),
        rt.has_class(class),
        rt.superclass_of(class) == Some(above),
    ensures
        rt.descends(class, ancestor) <==> class == ancestor || rt.descends(above, ancestor),
{
    superclass_is_known(rt, class);
    let whole = rt.lineage(class);
    let rest = rt.lineage(above);
    assert(whole == seq![class] + rest);
    assert(whole[0] == class);
    if rest.contains(ancestor) {
        let i = choose|i: int| 0 <= i < rest.len() && rest[i] == ancestor;
        assert(whole[i + 1] == ancestor);
    }
    if whole.contains(ancestor) && class != ancestor {
        let i = choose|i: int| 0 <= i < whole.len() && whole[i] == ancestor;
        assert(rest[i - 1] == ancestor);
    }
}

/// A class responds to a selector exactly where it, or a class above it, has a method for it.
/// The method that is found is that of the nearest one.
pub proof fn nearest_method_is_found(rt: Runtime, class: AnyClass, sel: Sel)
    requires
        rt.wf(),
        rt.has_class(class),
    ensures
        rt.find_method(class, sel) is Some <==> exists|k: int|
            0 <= k < rt.lineage(class).len() && rt.own_method(
                #[trigger] rt.lineage(class)[k],
                sel,
            ) is Some,
        forall|k: int|
            0 <= k < rt.lineage(class).len() && rt.own_method(
                #[trigger] rt.lineage(class)[k],
                sel,
            ) is Some && (forall|j: int|
                0 <= j < k ==> rt.own_method(#[trigger] rt.lineage(class)[j], sel) is None)
                ==> rt.find_method(class, sel) == rt.own_method(rt.lineage(class)[k], sel),
    decreases class.rank(),
{
    superclass_is_known(rt, class);
    let whole = rt.lineage(class);
    assert(whole[0] == class);
    match rt.superclass_of(class) {
        None => {},
        Some(above) => {
            nearest_method_is_found(rt, above, sel);
            let rest = rt.lineage(above);
            assert(whole == seq![class] + rest);
            assert(forall|k: int| 0 < k < whole.len() ==> #[trigger] whole[k] == rest[k - 1]);
            if rt.own_method(class, sel) is None {
                if rt.find_method(above, sel) is Some {
                    let k = choose|k: int|
                        0 <= k < rest.len() && rt.own_method(#[trigger] rest[k], sel) is Some;
                    assert(whole[k + 1] == rest[k]);
                }
                assert forall|k: int|
                    0 <= k < whole.len() && rt.own_method(#[trigger] whole[k], sel) is Some && (
                    forall|j: int|
                        0 <= j < k ==> rt.own_method(
                            #[trigger] whole[j],
                            sel,
                        ) is None) implies rt.find_method(class, sel) == rt.own_method(
                    whole[k],
                    sel,
                ) by {
                    assert(k > 0);
                    assert forall|j: int| 0 <= j < k - 1 implies rt.own_method(
                        #[trigger] rest[j],
                        sel,
                    ) is None by {
                        assert(whole[j + 1] == rest[j]);
                    }
                    assert(rest[k - 1] == whole[k]);
                }
            }
        },
    }
}

/// A class responds to all that the classes above it respond to.
pub proof fn descendants_respond(rt: Runtime, class: AnyClass, ancestor: AnyClass, sel: Sel)
    requires
        rt.wf(),
        rt.has_class(class),
        rt.descends(class, ancestor),
        rt.find_method(ancestor, sel) is Some,
    ensures
        rt.find_method(class, sel) is Some,
    decreases class.rank(),
{
    superclass_is_known(rt, class);
    if class != ancestor {
        match rt.superclass_of(class) {
            Some(above) => {
                lineage_step(rt, class, above, ancestor);
                descendants_respond(rt, above, ancestor, sel);
            },
            None => {
                let i = choose|i: int|
                    0 <= i < rt.lineage(class).len() && rt.lineage(class)[i] == ancestor;
                assert(rt.lineage(class) == seq![class]);
            },
        }
    }
}

/// The instance variables of a class are those of the classes above it too, unless a nearer
/// one has the same name.
pub proof fn ivars_are_inherited(rt: Runtime, class: AnyClass, name: Seq<u8>)
    requires
        rt.wf(),
        rt.has_class(class),
    ensures
        rt.own_ivar(class, name) is Some ==> rt.find_ivar(class, name) == rt.own_ivar(class, name),
        rt.own_ivar(class, name) is None ==> rt.find_ivar(class, name) == match rt.superclass_of(
            class,
        ) {
            Some(above) => rt.find_ivar(above, name),
            None => None,
        },
{
}

/// Every class descends from itself.
pub proof fn descent_is_reflexive(rt: Runtime, class: AnyClass)
    requires
        rt.wf(),
        rt.has_class(class),
    ensures
        rt.descends(class, class),
{
    assert(rt.lineage(class)[0] == class);
}

/// Whoever a class descends from is known, and of lower rank unless it is the class itself.
pub proof fn ancestors_are_known(rt: Runtime, class: AnyClass, ancestor: AnyClass)
    requires
        rt.wf(),
        rt.has_class(class),
        rt.descends(class, ancestor),
    ensures
        rt.has_class(ancestor),
        class == ancestor || ancestor.rank() < class.rank(),
    decreases class.rank(),
{
    superclass_is_known(rt, class);
    if class != ancestor {
        match rt.superclass_of(class) {
            Some(above) => {
                lineage_step(rt, class, above, ancestor);
                ancestors_are_known(rt, above, ancestor);
            },
            None => {
                let i = choose|i: int|
                    0 <= i < rt.lineage(class).len() && rt.lineage(class)[i] == ancestor;
                assert(rt.lineage(class) == seq![class]);
            },
        }
    }
}

/// A class descends from whatever its ancestors descend from.
pub proof fn descent_is_transitive(rt: Runtime, a: AnyClass, b: AnyClass, c: AnyClass)
    requires
        rt.wf(),
        rt.has_class(a),
        rt.descends(a, b),
        rt.descends(b, c),
    ensures
        rt.descends(a, c),
    decreases a.rank(),
{
    ancestors_are_known(rt, a, b);
    superclass_is_known(rt, a);
    if a != b {
        match rt.superclass_of(a) {
            Some(above) => {
                lineage_step(rt, a, above, b);
                descent_is_transitive(rt, above, b, c);
                lineage_step(rt, a, above, c);
            },
            None => {
                let i = choose|i: int| 0 <= i < rt.lineage(a).len() && rt.lineage(a)[i] == b;
                assert(rt.lineage(a) == seq![a]);
            },
        }
    }
}

/// Two different classes do not descend from each other.
pub proof fn descent_is_antisymmetric(rt: Runtime, a: AnyClass, b: AnyClass)
    requires
        rt.wf(),
        rt.has_class(a),
        rt.descends(a, b),
        rt.descends(b, a),
    ensures
        a == b,
{
    ancestors_are_known(rt, a, b);
    ancestors_are_known(rt, b, a);
}

/// The class methods of a class are those of its metaclass.
///
/// Of metaclasses, this holds of those of root classes whose class was not changed.
pub proof fn class_methods_are_those_of_the_metaclass(rt: Runtime, class: AnyClass, sel: Sel)
    requires
        rt.wf(),
        rt.has_class(class),
        class.meta ==> rt.classes@[class.index as int].superclass is None && rt.side(class).isa
            is None,
    ensures
        rt.find_class_method(class, sel) == rt.find_class_method(rt.metaclass_of(class), sel),
        rt.find_class_method(class, sel) == rt.find_method(rt.metaclass_of(class), sel),
{
    assert(rt.class_wf(rt.classes@[class.index as int], class.index as int));
}

/// The class of a class as an object is a metaclass.
pub proof fn classes_of_classes_are_metaclasses(rt: Runtime, class: AnyClass)
    requires
        rt.wf(),
        rt.has_class(class),
    ensures
        rt.has_class(rt.metaclass_of(class)),
        rt.metaclass_of(class).meta,
{
    assert(rt.class_wf(rt.classes@[class.index as int], class.index as int));
    root_is_known(rt, class.index);
}

/// A metaclass has the name of its class, and inherits as its class does. That of a root class
/// inherits from the root class. This is so unless the class of a class was changed.
pub proof fn metaclasses_follow_classes(rt: Runtime, class: AnyClass)
    requires
        rt.wf(),
        rt.has_class(class),
        !class.meta,
        rt.side(class).isa is None,
        rt.superclass_of(class) matches Some(above) ==> rt.side(above).isa is None,
    ensures
        rt.class_name(rt.metaclass_of(class)) == rt.class_name(class),
        rt.superclass_of(rt.metaclass_of(class)) == Some(
            match rt.superclass_of(class) {
                Some(above) => rt.metaclass_of(above),
                None => class,
            },
        ),
{
}

/// The metaclass of every metaclass is the one of the root class, which is its own metaclass,
/// unless the class of a class was changed.
pub proof fn metaclasses_share_a_metaclass(rt: Runtime, class: AnyClass)
    requires
        rt.wf(),
        rt.has_class(class),
        rt.side(class).isa is None,
        rt.side(rt.metaclass_of(class)).isa is None,
    ensures
        rt.metaclass_of(rt.metaclass_of(class)) == (AnyClass {
            index: rt.root_index(class.index),
            meta: true,
        }),
{
    root_is_known(rt, class.index);
    root_is_its_own(rt, class.index);
}

/// The root of a root class is itself.
pub proof fn root_is_its_own(rt: Runtime, index: usize)
    requires
        rt.wf(),
        index < rt.classes@.len(),
    ensures
        rt.root_index(rt.root_index(index)) == rt.root_index(index),
    decreases index,
{
    assert(rt.class_wf(rt.classes@[index as int], index as int));
    match rt.classes@[index as int].superclass {
        Some(above) => {
            root_is_its_own(rt, above);
        },
        None => {},
    }
}

/// Every class and metaclass descends from its root class.
pub proof fn all_descend_from_the_root(rt: Runtime, class: AnyClass)
    requires
        rt.wf(),
        rt.has_class(class),
    ensures
        rt.descends(class, AnyClass { index: rt.root_index(class.index), meta: false }),
    decreases class.rank(),
{
    superclass_is_known(rt, class);
    let root = AnyClass { index: rt.root_index(class.index), meta: false };
    match rt.superclass_of(class) {
        Some(above) => {
            all_descend_from_the_root(rt, above);
            lineage_step(rt, class, above, root);
        },
        None => {
            descent_is_reflexive(rt, class);
        },
    }
}

/// Classes are told apart by their names.
pub proof fn class_names_are_unique(rt: Runtime, a: AnyClass, b: AnyClass)
    requires
        rt.wf(),
        rt.has_class(a),
        rt.has_class(b),
        a.meta == b.meta,
    ensures
        a == b <==> rt.class_name(a) == rt.class_name(b),
{
    let i = a.index as int;
    let j = b.index as int;
    if i < j {
        assert(rt.classes@[i].name@ != rt.classes@[j].name@);
    } else if j < i {
        assert(rt.classes@[j].name@ != rt.classes@[i].name@);
    }
}

/// Among known methods, the first for a selector depends on the selectors alone.
proof fn first_method_by_selectors(before: Runtime, after: Runtime, methods: Seq<Method>, sel: Sel)
    requires
        forall|k: int| 0 <= k < methods.len() ==> before.has_method(#[trigger] methods[k]),
        forall|m: Method|
            before.has_method(m) ==> #[trigger] after.method_sel(m) == before.method_sel(m),
    ensures
        after.first_method(methods, sel) == before.first_method(methods, sel),
    decreases methods.len(),
{
    if methods.len() > 0 {
        assert(before.has_method(methods[0]));
        let rest = methods.skip(1);
        assert forall|k: int| 0 <= k < rest.len() implies before.has_method(
            #[trigger] rest[k],
        ) by {
            assert(rest[k] == methods[k + 1]);
        }
        first_method_by_selectors(before, after, rest, sel);
    }
}

/// Which method is found does not depend on implementations: other ones change no lookup.
pub proof fn implementations_steer_no_lookup(
    before: Runtime,
    after: Runtime,
    imps: spec_fn(int) -> Imp,
    class: AnyClass,
    sel: Sel,
)
    requires
        before.wf(),
        after.wf(),
        after.has_new_imps(&before, imps),
        before.has_class(class),
    ensures
        after.find_method(class, sel) == before.find_method(class, sel),
    decreases class.rank(),
{
    superclass_is_known(before, class);
    assert(before.class_wf(before.classes@[class.index as int], class.index as int));
    assert forall|m: Method| before.has_method(m) implies #[trigger] after.method_sel(m)
        == before.method_sel(m) by {
        assert(after.methods@[m.index as int].sel == before.methods@[m.index as int].sel);
    }
    first_method_by_selectors(before, after, before.side(class).methods@, sel);
    match before.superclass_of(class) {
        Some(above) => {
            implementations_steer_no_lookup(before, after, imps, above, sel);
        },
        None => {},
    }
}

/// A method that was added to a class is the one that is found there.
pub proof fn added_method_is_found(before: Runtime, after: Runtime, class: AnyClass, method: Method)
    requires
        before.wf(),
        after.wf(),
        before.has_class(class),
        before.methods@ == after.methods@.drop_last(),
        after.methods@.len() > 0,
        method.index == before.methods@.len(),
        after.other_sides_kept(&before, class),
        after.side(class).methods@ == before.side(class).methods@.push(method),
        before.own_method(class, after.method_sel(method)) is None,
    ensures
        after.find_method(class, after.method_sel(method)) == Some(method),
{
    let sel = after.method_sel(method);
    let own = before.side(class).methods@;
    assert(before.class_wf(before.classes@[class.index as int], class.index as int));
    assert forall|m: Method| before.has_method(m) implies #[trigger] after.method_sel(m)
        == before.method_sel(m) by {
        assert(before.methods@[m.index as int] == after.methods@[m.index as int]);
    }
    first_method_by_selectors(before, after, own, sel);
    first_after_none(after, own, method);
}

/// Where no method is for the selector of a last one, that is the first.
proof fn first_after_none(rt: Runtime, methods: Seq<Method>, last: Method)
    requires
        rt.first_method(methods, rt.method_sel(last)) is None,
    ensures
        rt.first_method(methods.push(last), rt.method_sel(last)) == Some(last),
    decreases methods.len(),
{
    let all = methods.push(last);
    if methods.len() > 0 {
        assert(all[0] == methods[0]);
        assert(all.skip(1) =~= methods.skip(1).push(last));
        first_after_none(rt, methods.skip(1), last);
    } else {
        assert(all[0] == last);
    }
}

/// The root of a class depends on superclasses alone.
pub proof fn roots_follow_superclasses(before: Runtime, after: Runtime, index: usize)
    requires
        before.wf(),
        after.wf(),
        index < before.classes@.len(),
        after.classes@.len() == before.classes@.len(),
        forall|k: int|
            0 <= k < after.classes@.len() ==> (#[trigger] after.classes@[k]).superclass
                == before.classes@[k].superclass,
    ensures
        after.root_index(index) == before.root_index(index),
    decreases index,
{
    assert(before.class_wf(before.classes@[index as int], index as int));
    assert(after.classes@[index as int].superclass == before.classes@[index as int].superclass);
    match before.classes@[index as int].superclass {
        Some(above) => {
            roots_follow_superclasses(before, after, above);
        },
        None => {},
    }
}

} // verus!
