//! Instance variables.

use vstd::prelude::*;
use vstd::utf8::{decode_utf8, valid_utf8};

use crate::bytes::{escaped, push_escaped, push_signed, signed_decimal, utf8_text};
use crate::runtime::{AnyObject, Ivar, Runtime};

verus! {

/// Why an instance variable cannot be taken for a type.
#[derive(Debug)]
pub enum EncodingError {
    /// The type encoding of the variable is not UTF-8.
    NotUtf8,
    /// The type encoding of the variable differs from that of the type.
    Wrong { encoding: String, expected: String },
}

/// What is said of a wrong encoding.
pub open spec fn wrong_encoding(encoding: Seq<char>, expected: Seq<char>) -> Seq<char> {
    "wrong encoding. Tried to retrieve ivar with encoding "@ + encoding
        + ", but the encoding of the given type was "@ + expected
}

impl EncodingError {
    /// The error in words.
    pub fn message(&self) -> (text: String)
        ensures
            *self is NotUtf8 ==> text@ == "encoding must be UTF-8"@,
            *self matches EncodingError::Wrong { encoding, expected } ==> text@ == wrong_encoding(
                encoding@,
                expected@,
            ),
            *self matches EncodingError::Wrong { encoding, expected } ==> text@
                == "wrong encoding. Tried to retrieve ivar with encoding "@ + encoding@
                + ", but the encoding of the given type was "@ + expected@,
    {
        match self {
            EncodingError::NotUtf8 => "encoding must be UTF-8".to_owned(),
            EncodingError::Wrong { encoding, expected } => {
                let mut text = "wrong encoding. Tried to retrieve ivar with encoding ".to_owned();
                text.append(encoding.as_str());
                text.append(", but the encoding of the given type was ");
                text.append(expected.as_str());
                text
            },
        }
    }
}

impl Runtime {
    /// The offset of an instance variable from the start of an object.
    pub open spec fn ivar_offset(&self, ivar: Ivar) -> int {
        self.ivars@[ivar.index as int].offset as int
    }

    /// The type encoding of an instance variable.
    pub open spec fn ivar_encoding(&self, ivar: Ivar) -> Seq<u8> {
        self.ivars@[ivar.index as int].type_encoding@
    }

    /// The memory of an instance.
    pub open spec fn memory(&self, object: AnyObject) -> Seq<u8> {
        self.objects@[object->Instance_0 as int].memory@
    }

    /// Whether an instance holds an instance variable of `size` bytes.
    pub open spec fn holds(&self, object: AnyObject, ivar: Ivar, size: int) -> bool {
        &&& object is Instance
        &&& self.has_object(object)
        &&& self.has_ivar(ivar)
        &&& 0 <= size
        &&& 0 <= self.ivar_offset(ivar)
        &&& self.ivar_offset(ivar) + size <= self.memory(object).len()
    }

    /// The bytes of an instance variable of `size` bytes.
    pub open spec fn ivar_bytes(&self, object: AnyObject, ivar: Ivar, size: int) -> Seq<u8> {
        let start = self.ivar_offset(ivar);
        self.memory(object).subrange(start, start + size)
    }

    /// The memory of an instance after `bytes` were written to an instance variable.
    pub open spec fn memory_with(&self, object: AnyObject, ivar: Ivar, bytes: Seq<u8>) -> Seq<u8> {
        let start = self.ivar_offset(ivar);
        self.memory(object).take(start) + bytes + self.memory(object).skip(start + bytes.len())
    }

    /// Nothing but the memory of `object` differs from `before`.
    pub open spec fn other_memory_kept(&self, before: &Runtime, object: AnyObject) -> bool {
        &&& self.selectors == before.selectors
        &&& self.methods == before.methods
        &&& self.ivars == before.ivars
        &&& self.protocols == before.protocols
        &&& self.classes == before.classes
        &&& self.protocol_class == before.protocol_class
        &&& self.objects@.len() == before.objects@.len()
        &&& forall|i: int|
            0 <= i < self.objects@.len() && i != object->Instance_0 ==> #[trigger] self.objects@[i]
                == before.objects@[i]
        &&& self.objects@[object->Instance_0 as int].class
            == before.objects@[object->Instance_0 as int].class
        &&& self.memory(object).len() == before.memory(object).len()
    }
}

/// What a test of the encoding of an instance variable says of it: fine where `equivalent`
/// accepts the encoding, and an error otherwise. Where encodings are not `checked`, all is
/// fine.
pub open spec fn encoding_verdict<F: Fn(&str) -> bool>(
    checked: bool,
    found: Seq<u8>,
    expected: Seq<char>,
    equivalent: F,
    verdict: Option<EncodingError>,
) -> bool {
    match verdict {
        None => checked ==> {
            &&& valid_utf8(found)
            &&& exists|text: &str|
                text@ == decode_utf8(found) && #[trigger] call_ensures(equivalent, (text,), true)
        },
        Some(EncodingError::NotUtf8) => checked && !valid_utf8(found),
        Some(EncodingError::Wrong { encoding, expected: given }) => {
            &&& checked
            &&& valid_utf8(found)
            &&& encoding@ == decode_utf8(found)
            &&& given@ == expected
            &&& exists|text: &str|
                text@ == decode_utf8(found) && #[trigger] call_ensures(equivalent, (text,), false)
        },
    }
}

impl Ivar {
    /// The name of the instance variable.
    pub fn name(self, rt: &Runtime) -> (name: &[u8])
        requires
            rt.has_ivar(self),
        ensures
            name@ == rt.ivar_name(self),
            name@ == rt.ivars@[self.index as int].name@,
    {
        rt.ivars[self.index].name.as_slice()
    }

    /// The offset of the instance variable from the start of an object.
    pub fn offset(self, rt: &Runtime) -> (offset: isize)
        requires
            rt.has_ivar(self),
        ensures
            offset == rt.ivar_offset(self),
            offset == rt.ivars@[self.index as int].offset,
    {
        rt.ivars[self.index].offset
    }

    /// The type encoding of the instance variable.
    pub fn type_encoding(self, rt: &Runtime) -> (encoding: &[u8])
        requires
            rt.has_ivar(self),
        ensures
            encoding@ == rt.ivar_encoding(self),
            encoding@ == rt.ivars@[self.index as int].type_encoding@,
    {
        rt.ivars[self.index].type_encoding.as_slice()
    }

    /// Tests whether the type encoding of the instance variable is what a type expects.
    ///
    /// `equivalent` decides whether an encoding is equivalent to `expected`. Nothing is tested
    /// unless encodings are `checked`, as they are in builds with debug assertions where these
    /// tests are not disabled.
    pub fn debug_assert_encoding<F: Fn(&str) -> bool>(
        self,
        rt: &Runtime,
        expected: &str,
        equivalent: F,
        checked: bool,
    ) -> (result: Result<(), EncodingError>)
        requires
            rt.has_ivar(self),
            forall|text: &str| call_requires(equivalent, (text,)),
        ensures
            !checked ==> result is Ok,
            encoding_verdict(checked, rt.ivar_encoding(self), expected@, equivalent, result.err()),
    {
        if !checked {
            return Ok(());
        }
        let encoding = match utf8_text(self.type_encoding(rt)) {
            Some(encoding) => encoding,
            None => {
                return Err(EncodingError::NotUtf8);
            },
        };
        if equivalent(encoding.as_str()) {
            Ok(())
        } else {
            Err(EncodingError::Wrong { encoding, expected: expected.to_owned() })
        }
    }

    /// Where an instance holds the instance variable, counted from the start of its memory.
    pub fn load_ptr<F: Fn(&str) -> bool>(
        self,
        rt: &Runtime,
        object: AnyObject,
        size: usize,
        expected: &str,
        equivalent: F,
        checked: bool,
    ) -> (result: Result<usize, EncodingError>)
        requires
            rt.holds(object, self, size as int),
            forall|text: &str| call_requires(equivalent, (text,)),
        ensures
            !checked ==> result is Ok,
            encoding_verdict(checked, rt.ivar_encoding(self), expected@, equivalent, result.err()),
            result matches Ok(start) ==> start == rt.ivar_offset(self),
            result matches Ok(start) ==> start == rt.ivars@[self.index as int].offset,
    {
        match self.debug_assert_encoding(rt, expected, equivalent, checked) {
            Ok(()) => Ok(AnyObject::ivar_at_offset(0, self.offset(rt))),
            Err(error) => Err(error),
        }
    }

    /// The bytes of the instance variable in an instance.
    pub fn load<'a, F: Fn(&str) -> bool>(
        self,
        rt: &'a Runtime,
        object: AnyObject,
        size: usize,
        expected: &str,
        equivalent: F,
        checked: bool,
    ) -> (result: Result<&'a [u8], EncodingError>)
        requires
            rt.holds(object, self, size as int),
            forall|text: &str| call_requires(equivalent, (text,)),
        ensures
            !checked ==> result is Ok,
            encoding_verdict(checked, rt.ivar_encoding(self), expected@, equivalent, result.err()),
            result matches Ok(bytes) ==> bytes@ == rt.ivar_bytes(object, self, size as int),
    {
        let start = match self.load_ptr(rt, object, size, expected, equivalent, checked) {
            Ok(start) => start,
            Err(error) => {
                return Err(error);
            },
        };
        let index: usize = match object {
            AnyObject::Instance(index) => index,
            _ => 0,
        };
        let memory = rt.objects[index].memory.as_slice();
        let total: usize = memory.len();
        assert(start + size <= total);
        Ok(vstd::slice::slice_subrange(memory, start, start + size))
    }

    /// The bytes of the instance variable in an instance, to be written to.
    pub fn load_mut<'a, F: Fn(&str) -> bool>(
        self,
        rt: &'a mut Runtime,
        object: AnyObject,
        size: usize,
        expected: &str,
        equivalent: F,
        checked: bool,
    ) -> (result: Result<&'a mut [u8], EncodingError>)
        requires
            old(rt).wf(),
            old(rt).holds(object, self, size as int),
            forall|text: &str| call_requires(equivalent, (text,)),
        ensures
            !checked ==> result is Ok,
            encoding_verdict(
                checked,
                old(rt).ivar_encoding(self),
                expected@,
                equivalent,
                match result {
                    Ok(_) => None,
                    Err(error) => Some(error),
                },
            ),
            result is Err ==> *final(rt) == *old(rt),
            result matches Ok(bytes) ==> {
                &&& bytes@ == old(rt).ivar_bytes(object, self, size as int)
                &&& final(bytes)@.len() == size ==> {
                    &&& final(rt).wf()
                    &&& final(rt).other_memory_kept(old(rt), object)
                    &&& final(rt).memory(object) == old(rt).memory_with(object, self, final(bytes)@)
                }
            },
    {
        let start = match self.load_ptr(rt, object, size, expected, equivalent, checked) {
            Ok(start) => start,
            Err(error) => {
                return Err(error);
            },
        };
        let index: usize = match object {
            AnyObject::Instance(index) => index,
            _ => 0,
        };
        let memory = rt.objects[index].memory.as_mut_slice();
        let (_, rest) = memory.split_at_mut(start);
        let (bytes, _) = rest.split_at_mut(size);
        Ok(bytes)
    }

    /// The instance variable as it is shown to developers, such as
    /// `Ivar { name: "_foo", offset: 8, type_encoding: "I", .. }`.
    pub fn debug(self, rt: &Runtime) -> (text: String)
        requires
            rt.has_ivar(self),
        ensures
            text@ == "Ivar { name: \""@ + escaped(rt.ivar_name(self)) + "\", offset: "@
                + signed_decimal(rt.ivar_offset(self)) + ", type_encoding: \""@ + escaped(
                rt.ivar_encoding(self),
            ) + "\", .. }"@,
    {
        let mut text = "Ivar { name: \"".to_owned();
        push_escaped(&mut text, self.name(rt));
        text.append("\", offset: ");
        push_signed(&mut text, self.offset(rt) as i64);
        text.append(", type_encoding: \"");
        push_escaped(&mut text, self.type_encoding(rt));
        text.append("\", .. }");
        text
    }
}

/// What was written to an instance variable is read from it.
pub proof fn written_is_read(
    before: Runtime,
    after: Runtime,
    object: AnyObject,
    ivar: Ivar,
    bytes: Seq<u8>,
)
    requires
        before.holds(object, ivar, bytes.len() as int),
        after.other_memory_kept(&before, object),
        after.memory(object) == before.memory_with(object, ivar, bytes),
    ensures
        after.holds(object, ivar, bytes.len() as int),
        after.ivar_bytes(object, ivar, bytes.len() as int) == bytes,
{
    assert(after.ivar_bytes(object, ivar, bytes.len() as int) =~= bytes);
}

/// Writing to an instance variable changes none that it does not overlap, and none of another
/// object.
pub proof fn writing_leaves_others(
    before: Runtime,
    after: Runtime,
    object: AnyObject,
    ivar: Ivar,
    bytes: Seq<u8>,
    other: AnyObject,
    other_ivar: Ivar,
    size: int,
)
    requires
        before.holds(object, ivar, bytes.len() as int),
        before.holds(other, other_ivar, size),
        after.other_memory_kept(&before, object),
        after.memory(object) == before.memory_with(object, ivar, bytes),
        other != object || before.ivar_offset(other_ivar) + size <= before.ivar_offset(ivar)
            || before.ivar_offset(ivar) + bytes.len() <= before.ivar_offset(other_ivar),
    ensures
        after.ivar_bytes(other, other_ivar, size) == before.ivar_bytes(other, other_ivar, size),
{
    assert(after.ivar_bytes(other, other_ivar, size) =~= before.ivar_bytes(
        other,
        other_ivar,
        size,
    ));
}

} // verus!
