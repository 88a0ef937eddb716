//! Selectors.

use vstd::prelude::*;

use crate::bytes::{
    copy_bytes, count, escaped, is_lossy_text, lossy, lossy_text, no_nul, occurrences,
    push_escaped, same_bytes,
};
use crate::runtime::{Runtime, Sel};

verus! {

impl Runtime {
    /// The name of a selector.
    pub open spec fn sel_name(&self, sel: Sel) -> Seq<u8> {
        self.selectors@[sel.index as int]@
    }

    /// Whether a selector called `name` is registered.
    pub open spec fn registers(&self, name: Seq<u8>) -> bool {
        exists|sel: Sel| self.has_sel(sel) && #[trigger] self.sel_name(sel) == name
    }

    /// Whether only selectors were added since `before`, the earlier ones kept.
    pub open spec fn extends_selectors(&self, before: &Runtime) -> bool {
        &&& before.selectors@.len() <= self.selectors@.len()
        &&& forall|sel: Sel|
            before.has_sel(sel) ==> #[trigger] self.sel_name(sel) == before.sel_name(sel)
        &&& self.methods == before.methods
        &&& self.ivars == before.ivars
        &&& self.protocols == before.protocols
        &&& self.classes == before.classes
        &&& self.objects == before.objects
        &&& self.protocol_class == before.protocol_class
    }
}

impl Sel {
    /// Registers a selector: the one of that name, or a new one where there is none yet.
    pub fn register(rt: &mut Runtime, name: &[u8]) -> (sel: Sel)
        requires
            old(rt).wf(),
            no_nul(name@),
        ensures
            final(rt).wf(),
            final(rt).has_sel(sel),
            final(rt).sel_name(sel) == name@,
            final(rt).selectors@[sel.index as int]@ == name@,
            forall|i: int|
                0 <= i < old(rt).selectors@.len() ==> #[trigger] final(rt).selectors@[i]
                    == old(rt).selectors@[i],
            final(rt).extends_selectors(old(rt)),
            old(rt).registers(name@) ==> *final(rt) == *old(rt),
            !old(rt).registers(name@) ==> final(rt).selectors@.len() == old(rt).selectors@.len() + 1
                && sel.index == old(rt).selectors@.len(),
    {
        let mut i: usize = 0;
        while i < rt.selectors.len()
            invariant
                *rt == *old(rt),
                rt.wf(),
                i <= rt.selectors@.len(),
                forall|j: int| 0 <= j < i ==> (#[trigger] rt.selectors@[j])@ != name@,
            decreases rt.selectors@.len() - i,
        {
            if same_bytes(rt.selectors[i].as_slice(), name) {
                let sel = Sel { index: i };
                assert(rt.sel_name(sel) == name@);
                return sel;
            }
            i += 1;
        }
        let sel = Sel { index: rt.selectors.len() };
        rt.selectors.push(copy_bytes(name));
        proof {
            assert(forall|s: Sel| old(rt).has_sel(s) ==> rt.has_sel(s));
            assert forall|k: int| 0 <= k < rt.protocols@.len() implies rt.protocol_wf(
                #[trigger] rt.protocols@[k],
                k,
            ) by {
                assert(old(rt).protocol_wf(old(rt).protocols@[k], k));
            }
            assert forall|k: int| 0 <= k < rt.classes@.len() implies rt.class_wf(
                #[trigger] rt.classes@[k],
                k,
            ) by {
                assert(old(rt).class_wf(old(rt).classes@[k], k));
            }
            assert forall|k: int| 0 <= k < rt.objects@.len() implies rt.object_wf(
                #[trigger] rt.objects@[k],
            ) by {
                assert(old(rt).object_wf(old(rt).objects@[k]));
            }
            if old(rt).registers(name@) {
                let s = choose|s: Sel| old(rt).has_sel(s) && #[trigger] old(rt).sel_name(s) == name@;
                assert(old(rt).selectors@[s.index as int]@ == name@);
            }
        }
        sel
    }

    /// The name of the selector.
    pub fn name(self, rt: &Runtime) -> (name: &[u8])
        requires
            rt.has_sel(self),
        ensures
            name@ == rt.sel_name(self),
            name@ == rt.selectors@[self.index as int]@,
    {
        rt.selectors[self.index].as_slice()
    }

    /// The number of arguments that the selector takes: one for each colon of its name.
    pub fn number_of_arguments(self, rt: &Runtime) -> (n: usize)
        requires
            rt.has_sel(self),
        ensures
            n == occurrences(rt.sel_name(self), 58),
    {
        count(self.name(rt), 58)
    }

    /// The name as text. Selectors are basically always UTF-8, so nothing is lost as a rule.
    pub fn display(self, rt: &Runtime) -> (text: String)
        requires
            rt.has_sel(self),
        ensures
            text@ == lossy(rt.sel_name(self)),
            is_lossy_text(rt.sel_name(self), text@),
    {
        lossy_text(self.name(rt))
    }

    /// The selector as it is shown to developers, such as `Sel("abc:")`.
    pub fn debug(self, rt: &Runtime) -> (text: String)
        requires
            rt.has_sel(self),
        ensures
            text@ == "Sel(\""@ + escaped(rt.sel_name(self)) + "\")"@,
    {
        let mut text = "Sel(\"".to_owned();
        push_escaped(&mut text, self.name(rt));
        text.append("\")");
        text
    }
}

/// Selectors are equal exactly where their names are.
pub proof fn equal_selectors_have_equal_names(rt: Runtime, a: Sel, b: Sel)
    requires
        rt.wf(),
        rt.has_sel(a),
        rt.has_sel(b),
    ensures
        a == b <==> rt.sel_name(a) == rt.sel_name(b),
{
    if a.index < b.index {
        assert(rt.selectors@[a.index as int]@ != rt.selectors@[b.index as int]@);
    } else if b.index < a.index {
        assert(rt.selectors@[b.index as int]@ != rt.selectors@[a.index as int]@);
    }
}

/// However many selectors are registered in between, registering a name again gives the same
/// selector, and registering another name another one.
pub proof fn selectors_are_interned(before: Runtime, after: Runtime, a: Sel, b: Sel)
    requires
        before.wf(),
        after.wf(),
        after.extends_selectors(&before),
        before.has_sel(a),
        after.has_sel(b),
    ensures
        a == b <==> before.sel_name(a) == after.sel_name(b),
{
    assert(after.sel_name(a) == before.sel_name(a));
    equal_selectors_have_equal_names(after, a, b);
}

/// A selector made of two parts takes the arguments of both.
pub proof fn arguments_add_up(first: Seq<u8>, second: Seq<u8>)
    ensures
        occurrences(first + second, 58) == occurrences(first, 58) + occurrences(second, 58),
{
    crate::bytes::occurrences_add_up(first, second, 58);
}

} // verus!
