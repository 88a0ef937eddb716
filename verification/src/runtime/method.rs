//! Methods.

use vstd::prelude::*;
use vstd::utf8::{decode_utf8, valid_utf8};

use crate::bytes::{copy_bytes, utf8_text};
use crate::runtime::{Imp, Method, MethodRecord, Runtime, Sel};

verus! {

/// Why a method has no types.
#[derive(Debug, Clone, Copy, PartialEq, Eq, Structural)]
pub enum TypesError {
    /// The runtime reports no type encoding.
    Missing,
    /// The type encoding is not UTF-8.
    NotUtf8,
}

impl Runtime {
    /// The selector of a method.
    pub open spec fn method_sel(&self, method: Method) -> Sel {
        self.methods@[method.index as int].sel
    }

    /// The encodings of a method's types: that of what it returns, then those of its
    /// parameters.
    pub open spec fn method_types(&self, method: Method) -> Seq<Seq<u8>> {
        seq![self.methods@[method.index as int].return_type@] + self.parameter_types(method)
    }

    /// The encodings of a method's parameters.
    pub open spec fn parameter_types(&self, method: Method) -> Seq<Seq<u8>> {
        self.methods@[method.index as int].argument_types@.map_values(|v: Vec<u8>| v@)
    }

    /// The implementation of a method.
    pub open spec fn imp(&self, method: Method) -> Imp {
        self.methods@[method.index as int].imp
    }

    /// Nothing but implementations differs from `before`: they are what `imps` says for each
    /// index of a method.
    pub open spec fn has_new_imps(&self, before: &Runtime, imps: spec_fn(int) -> Imp) -> bool {
        &&& self.selectors == before.selectors
        &&& self.ivars == before.ivars
        &&& self.protocols == before.protocols
        &&& self.classes == before.classes
        &&& self.objects == before.objects
        &&& self.protocol_class == before.protocol_class
        &&& self.methods@.len() == before.methods@.len()
        &&& forall|i: int|
            0 <= i < self.methods@.len() ==> #[trigger] self.methods@[i] == (MethodRecord {
                imp: imps(i),
                ..before.methods@[i]
            })
    }

    /// The implementations after `method` got `imp`.
    pub open spec fn imps_with(&self, method: Method, imp: Imp) -> spec_fn(int) -> Imp {
        |i: int|
            if i == method.index {
                imp
            } else {
                self.methods@[i].imp
            }
    }

    /// The implementations after `a` and `b` exchanged theirs.
    pub open spec fn imps_exchanged(&self, a: Method, b: Method) -> spec_fn(int) -> Imp {
        |i: int|
            if i == a.index {
                self.imp(b)
            } else if i == b.index {
                self.imp(a)
            } else {
                self.methods@[i].imp
            }
    }
}

/// Other implementations leave a runtime as sound as it was.
proof fn new_imps_keep_wf(before: Runtime, after: Runtime, imps: spec_fn(int) -> Imp)
    requires
        before.wf(),
        after.has_new_imps(&before, imps),
    ensures
        after.wf(),
{
    assert forall|k: int| 0 <= k < after.protocols@.len() implies after.protocol_wf(
        #[trigger] after.protocols@[k],
        k,
    ) by {
        assert(before.protocol_wf(before.protocols@[k], k));
    }
    assert forall|k: int| 0 <= k < after.classes@.len() implies after.class_wf(
        #[trigger] after.classes@[k],
        k,
    ) by {
        assert(before.class_wf(before.classes@[k], k));
    }
    assert forall|k: int| 0 <= k < after.objects@.len() implies after.object_wf(
        #[trigger] after.objects@[k],
    ) by {
        assert(before.object_wf(before.objects@[k]));
    }
    assert forall|k: int| 0 <= k < after.methods@.len() implies after.has_sel(
        (#[trigger] after.methods@[k]).sel,
    ) by {
        assert(before.has_sel(before.methods@[k].sel));
    }
}

impl Method {
    /// The selector of the method.
    pub fn name(self, rt: &Runtime) -> (sel: Sel)
        requires
            rt.has_method(self),
        ensures
            sel == rt.method_sel(self),
            sel == rt.methods@[self.index as int].sel,
    {
        rt.methods[self.index].sel
    }

    /// The encoding of what the method returns.
    pub fn return_type(self, rt: &Runtime) -> (encoding: &[u8])
        requires
            rt.has_method(self),
        ensures
            encoding@ == rt.method_types(self)[0],
            encoding@ == rt.methods@[self.index as int].return_type@,
    {
        rt.methods[self.index].return_type.as_slice()
    }

    /// The encoding of a parameter, or `None` where the method has none at that index.
    pub fn argument_type(self, rt: &Runtime, index: usize) -> (encoding: Option<&[u8]>)
        requires
            rt.has_method(self),
        ensures
            encoding is Some <==> index < rt.parameter_types(self).len(),
            encoding matches Some(e) ==> e@ == rt.parameter_types(self)[index as int],
            encoding is Some <==> index < rt.methods@[self.index as int].argument_types@.len(),
            encoding matches Some(e) ==> e@
                == rt.methods@[self.index as int].argument_types@[index as int]@,
    {
        let types = &rt.methods[self.index].argument_types;
        if index < types.len() {
            Some(types[index].as_slice())
        } else {
            None
        }
    }

    /// The encodings of the method's types: that of what it returns, then those of its
    /// parameters.
    pub fn types(self, rt: &Runtime) -> (types: Vec<Vec<u8>>)
        requires
            rt.has_method(self),
        ensures
            types@.len() == rt.method_types(self).len(),
            forall|i: int|
                0 <= i < types@.len() ==> (#[trigger] types@[i])@ == rt.method_types(self)[i],
            types@.len() == rt.methods@[self.index as int].argument_types@.len() + 1,
            types@[0]@ == rt.methods@[self.index as int].return_type@,
            forall|i: int|
                0 < i < types@.len() ==> (#[trigger] types@[i])@
                    == rt.methods@[self.index as int].argument_types@[i - 1]@,
    {
        let mut types: Vec<Vec<u8>> = Vec::new();
        types.push(copy_bytes(self.return_type(rt)));
        let n: usize = self.arguments_count(rt);
        let mut i: usize = 0;
        while i < n
            invariant
                rt.has_method(self),
                i <= n == rt.parameter_types(self).len(),
                types@.len() == i + 1,
                forall|j: int|
                    0 <= j < types@.len() ==> (#[trigger] types@[j])@ == rt.method_types(self)[j],
            decreases n - i,
        {
            match self.argument_type(rt, i) {
                Some(encoding) => {
                    types.push(copy_bytes(encoding));
                },
                None => {},
            }
            i += 1;
        }
        types
    }

    /// The number of parameters, the receiver and the selector among them.
    pub fn arguments_count(self, rt: &Runtime) -> (n: usize)
        requires
            rt.has_method(self),
        ensures
            n == rt.parameter_types(self).len(),
            n == rt.methods@[self.index as int].argument_types@.len(),
    {
        rt.methods[self.index].argument_types.len()
    }

    /// The implementation of the method.
    pub fn implementation(self, rt: &Runtime) -> (imp: Imp)
        requires
            rt.has_method(self),
        ensures
            imp == rt.imp(self),
            imp == rt.methods@[self.index as int].imp,
    {
        rt.methods[self.index].imp
    }

    /// Gives the method another implementation, and returns the previous one.
    pub fn set_implementation(self, rt: &mut Runtime, imp: Imp) -> (previous: Imp)
        requires
            old(rt).wf(),
            old(rt).has_method(self),
        ensures
            final(rt).wf(),
            final(rt).has_new_imps(old(rt), old(rt).imps_with(self, imp)),
            previous == old(rt).imp(self),
            previous == old(rt).methods@[self.index as int].imp,
            final(rt).methods@ == old(rt).methods@.update(
                self.index as int,
                MethodRecord { imp, ..old(rt).methods@[self.index as int] },
            ),
            final(rt).classes == old(rt).classes,
            final(rt).objects == old(rt).objects,
    {
        let previous = rt.methods[self.index].imp;
        rt.methods[self.index].imp = imp;
        proof {
            new_imps_keep_wf(*old(rt), *rt, old(rt).imps_with(self, imp));
        }
        previous
    }

    /// Exchanges the implementations of two methods.
    pub fn exchange_implementation(self, rt: &mut Runtime, other: Method)
        requires
            old(rt).wf(),
            old(rt).has_method(self),
            old(rt).has_method(other),
        ensures
            final(rt).wf(),
            final(rt).has_new_imps(old(rt), old(rt).imps_exchanged(self, other)),
            final(rt).methods@[self.index as int].imp == old(rt).methods@[other.index as int].imp,
            final(rt).methods@[other.index as int].imp == old(rt).methods@[self.index as int].imp,
            forall|i: int|
                0 <= i < old(rt).methods@.len() && i != self.index && i != other.index
                    ==> #[trigger] final(rt).methods@[i] == old(rt).methods@[i],
            final(rt).classes == old(rt).classes,
            final(rt).objects == old(rt).objects,
    {
        let ours = rt.methods[self.index].imp;
        let theirs = rt.methods[other.index].imp;
        rt.methods[self.index].imp = theirs;
        rt.methods[other.index].imp = ours;
        proof {
            new_imps_keep_wf(*old(rt), *rt, old(rt).imps_exchanged(self, other));
        }
    }

    /// The type encoding that the runtime reports for a method, as text.
    pub fn type_encoding(raw: Option<&[u8]>) -> (text: Result<String, TypesError>)
        ensures
            raw is None ==> text == Err::<String, TypesError>(TypesError::Missing),
            raw matches Some(bytes) ==> if valid_utf8(bytes@) {
                text matches Ok(t) && t@ == decode_utf8(bytes@)
            } else {
                text == Err::<String, TypesError>(TypesError::NotUtf8)
            },
    {
        match raw {
            None => Err(TypesError::Missing),
            Some(bytes) => match utf8_text(bytes) {
                Some(text) => Ok(text),
                None => Err(TypesError::NotUtf8),
            },
        }
    }
}

/// Exchanging implementations comes to the same as giving each method that of the other.
pub proof fn exchange_is_two_settings(
    before: Runtime,
    between: Runtime,
    after: Runtime,
    m1: Method,
    m2: Method,
)
    requires
        before.wf(),
        before.has_method(m1),
        before.has_method(m2),
        between.has_new_imps(&before, before.imps_with(m2, before.imp(m1))),
        after.has_new_imps(&between, between.imps_with(m1, before.imp(m2))),
    ensures
        after.has_new_imps(&before, before.imps_exchanged(m1, m2)),
{
    assert forall|i: int| 0 <= i < after.methods@.len() implies #[trigger] after.methods@[i] == (
    MethodRecord { imp: before.imps_exchanged(m1, m2)(i), ..before.methods@[i] }) by {
        let _ = between.methods@[i];
    }
}

/// Exchanging implementations twice restores them.
pub proof fn exchange_twice_restores(
    before: Runtime,
    between: Runtime,
    after: Runtime,
    m1: Method,
    m2: Method,
)
    requires
        before.wf(),
        before.has_method(m1),
        before.has_method(m2),
        between.has_new_imps(&before, before.imps_exchanged(m1, m2)),
        after.has_new_imps(&between, between.imps_exchanged(m1, m2)),
    ensures
        after.methods@ == before.methods@,
{
    assert forall|i: int| 0 <= i < after.methods@.len() implies after.methods@[i]
        == before.methods@[i] by {
        let _ = between.methods@[i];
        let _ = between.methods@[m1.index as int];
        let _ = between.methods@[m2.index as int];
    }
    assert(after.methods@ =~= before.methods@);
}

/// The types of a method are that of what it returns, then those of its parameters in turn.
pub proof fn types_are_return_then_parameters(rt: Runtime, method: Method)
    requires
        rt.has_method(method),
    ensures
        rt.method_types(method).len() == rt.parameter_types(method).len() + 1,
        rt.method_types(method)[0] == rt.methods@[method.index as int].return_type@,
        forall|i: int|
            0 <= i < rt.parameter_types(method).len() ==> rt.method_types(method)[i + 1]
                == #[trigger] rt.parameter_types(method)[i],
{
}

} // verus!
