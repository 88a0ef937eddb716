//! Holding the signatures of methods against what callers expect.

use vstd::prelude::*;

use crate::runtime::{AnyClass, Method, Runtime, Sel};

verus! {

/// Why a method cannot be called as expected.
#[derive(Debug, Clone, Copy, PartialEq, Eq, Structural)]
pub enum VerificationError {
    /// The class has no method for the selector.
    MethodNotFound,
    /// The method returns something else.
    MismatchedReturn,
    /// The method takes another number of arguments.
    MismatchedArgumentsCount,
    /// The method takes something else as the argument at this index.
    MismatchedArgument(usize),
}

/// Whether `equivalent` can say `verdict` of two encodings.
pub open spec fn says<F: Fn(&[u8], &[u8]) -> bool>(
    equivalent: F,
    found: Seq<u8>,
    expected: Seq<u8>,
    verdict: bool,
) -> bool {
    exists|f: &[u8], e: &[u8]|
        f@ == found && e@ == expected && #[trigger] call_ensures(equivalent, (f, e), verdict)
}

impl Runtime {
    /// The encodings of the arguments that callers of a method pass: its parameters without
    /// the receiver and the selector.
    pub open spec fn passed_types(&self, method: Method) -> Seq<Seq<u8>> {
        if self.parameter_types(method).len() < 2 {
            Seq::empty()
        } else {
            self.parameter_types(method).skip(2)
        }
    }

    /// The return types agree, and so do the first `n` arguments.
    pub open spec fn agrees<F: Fn(&[u8], &[u8]) -> bool>(
        &self,
        method: Method,
        arguments: Seq<Vec<u8>>,
        returned: Seq<u8>,
        equivalent: F,
        n: int,
    ) -> bool {
        &&& says(equivalent, self.method_types(method)[0], returned, true)
        &&& n <= arguments.len()
        &&& n <= self.passed_types(method).len()
        &&& forall|i: int|
            0 <= i < n ==> says(
                equivalent,
                self.passed_types(method)[i],
                (#[trigger] arguments[i])@,
                true,
            )
    }

    /// What holding a method against the expected encodings gives.
    pub open spec fn signature_verdict<F: Fn(&[u8], &[u8]) -> bool>(
        &self,
        method: Option<Method>,
        arguments: Seq<Vec<u8>>,
        returned: Seq<u8>,
        equivalent: F,
        result: Result<(), VerificationError>,
    ) -> bool {
        match result {
            Ok(()) => {
                &&& method matches Some(m)
                &&& self.agrees(m, arguments, returned, equivalent, arguments.len() as int)
                &&& self.passed_types(m).len() == arguments.len()
            },
            Err(VerificationError::MethodNotFound) => method is None,
            Err(VerificationError::MismatchedReturn) => {
                &&& method matches Some(m)
                &&& says(equivalent, self.method_types(m)[0], returned, false)
            },
            Err(VerificationError::MismatchedArgument(i)) => {
                &&& method matches Some(m)
                &&& self.agrees(m, arguments, returned, equivalent, i as int)
                &&& i < arguments.len()
                &&& i < self.passed_types(m).len()
                &&& says(equivalent, self.passed_types(m)[i as int], arguments[i as int]@, false)
            },
            Err(VerificationError::MismatchedArgumentsCount) => {
                &&& method matches Some(m)
                &&& self.passed_types(m).len() != arguments.len()
                &&& self.agrees(
                    m,
                    arguments,
                    returned,
                    equivalent,
                    if arguments.len() < self.passed_types(m).len() {
                        arguments.len() as int
                    } else {
                        self.passed_types(m).len() as int
                    },
                )
            },
        }
    }
}

impl AnyClass {
    /// Tests the types of the method for a selector: whether it is there, takes `arguments`,
    /// and returns `returned`.
    ///
    /// `equivalent` decides whether the encoding of the method and the expected one are
    /// equivalent.
    pub fn verify_sel<F: Fn(&[u8], &[u8]) -> bool>(
        self,
        rt: &Runtime,
        sel: Sel,
        arguments: &Vec<Vec<u8>>,
        returned: &[u8],
        equivalent: F,
    ) -> (result: Result<(), VerificationError>)
        requires
            rt.wf(),
            rt.has_class(self),
            forall|f: &[u8], e: &[u8]| call_requires(equivalent, (f, e)),
        ensures
            rt.signature_verdict(
                rt.find_method(self, sel),
                arguments@,
                returned@,
                equivalent,
                result,
            ),
    {
        let method = match self.instance_method(rt, sel) {
            Some(method) => method,
            None => {
                return Err(VerificationError::MethodNotFound);
            },
        };
        if !equivalent(method.return_type(rt), returned) {
            return Err(VerificationError::MismatchedReturn);
        }
        let all: usize = method.arguments_count(rt);
        let count: usize = if all < 2 {
            0
        } else {
            all - 2
        };
        let mut i: usize = 0;
        while i < arguments.len()
            invariant
                rt.has_method(method),
                rt.find_method(self, sel) == Some(method),
                count == rt.passed_types(method).len(),
                count <= usize::MAX - 2,
                forall|f: &[u8], e: &[u8]| call_requires(equivalent, (f, e)),
                i <= arguments@.len(),
                rt.agrees(method, arguments@, returned@, equivalent, i as int),
            decreases arguments@.len() - i,
        {
            if i >= count {
                return Err(VerificationError::MismatchedArgumentsCount);
            }
            let found = match method.argument_type(rt, i + 2) {
                Some(found) => found,
                None => {
                    return Err(VerificationError::MismatchedArgumentsCount);
                },
            };
            assert(found@ == rt.passed_types(method)[i as int]);
            if !equivalent(found, arguments[i].as_slice()) {
                return Err(VerificationError::MismatchedArgument(i));
            }
            i += 1;
        }
        if count != arguments.len() {
            return Err(VerificationError::MismatchedArgumentsCount);
        }
        Ok(())
    }
}

} // verus!
