//! The standard library function `std::crypto::schnorr::Signature::verify`.

use vstd::prelude::*;
use vstd::string::*;

use crate::bytecode::builtins::BuiltinIdentifier;
use crate::semantic::element::Element;
use crate::semantic::function_error::Error;
use crate::semantic::function_error::ErrorView;
use crate::semantic::types::Type;

verus! {

/// The unique id of the structure `std::crypto::schnorr::Signature`.
pub const TYPE_ID_STD_CRYPTO_SCHNORR_SIGNATURE: usize = 1;

/// The function element of the Schnorr signature verification.
#[derive(Debug)]
pub struct Function {
    builtin_identifier: BuiltinIdentifier,
    identifier: &'static str,
    return_type: Box<Type>,
}

/// The type is the structure of a Schnorr signature.
pub open spec fn is_signature(kind: Type) -> bool {
    kind matches Type::Structure { unique_id, .. } && unique_id
        == TYPE_ID_STD_CRYPTO_SCHNORR_SIGNATURE
}

/// The type is that of a message: an array of booleans that holds whole
/// bytes, at least one, and no more bits than the limit.
pub open spec fn is_message(kind: Type) -> bool {
    kind matches Type::Array { element, size } && *element == Type::Boolean && size
        % crate::BITLENGTH_BYTE == 0 && 0 < size <= crate::LIMIT_SCHNORR_MESSAGE_BITS
}

/// Every element is a value or a constant.
pub open spec fn all_evaluable(elements: Seq<Element>) -> bool {
    forall|j: int| 0 <= j < elements.len() ==> (#[trigger] elements[j]).kind().is_some()
}

/// The text of the type that the first argument must have.
pub open spec fn signature_expectation() -> Seq<char> {
    "std::crypto::schnorr::Signature { r: std::crypto::ecc::Point, s: field, pk: std::crypto::ecc::Point }"@
}

/// The text of the type that the second argument must have.
pub open spec fn message_expectation() -> Seq<char> {
    "[bool; N], 0 < N <= 248, N % 8 == 0"@
}

impl Function {
    pub const ARGUMENT_INDEX_SIGNATURE: usize = 0;

    pub const ARGUMENT_INDEX_MESSAGE: usize = 1;

    pub const ARGUMENT_COUNT: usize = 2;

    #[verifier::type_invariant]
    spec fn wf(self) -> bool {
        self.identifier@ == "verify"@ && *self.return_type == Type::Boolean
    }

    /// The builtin that the function is compiled to.
    pub closed spec fn spec_builtin_identifier(self) -> BuiltinIdentifier {
        self.builtin_identifier
    }

    /// The function element, compiled to the given builtin.
    pub fn new(builtin_identifier: BuiltinIdentifier) -> (function: Self)
        ensures
            function.spec_builtin_identifier() == builtin_identifier,
    {
        Function { builtin_identifier, identifier: "verify", return_type: Box::new(Type::Boolean) }
    }

    /// The name of the function: `verify`.
    pub fn identifier(&self) -> (identifier: &'static str)
        ensures
            identifier@ == "verify"@,
    {
        proof {
            use_type_invariant(self);
        }
        self.identifier
    }

    /// The builtin that the function is compiled to.
    pub fn builtin_identifier(&self) -> (identifier: BuiltinIdentifier)
        ensures
            identifier == self.spec_builtin_identifier(),
    {
        self.builtin_identifier
    }

    /// The signature of the function, as it is written.
    pub fn to_text(&self) -> (text: String)
        ensures
            text@ == "fn std::crypto::schnorr::"@ + "verify"@
                + "(signature: std::crypto::schnorr::Signature, message: [bool; N]) -> bool"@,
    {
        proof {
            use_type_invariant(self);
        }
        let mut text = String::from_str("fn std::crypto::schnorr::");
        text.append(self.identifier);
        text.append("(signature: std::crypto::schnorr::Signature, message: [bool; N]) -> bool");
        text
    }

    /// Checks the arguments of a call and gives the type of its result.
    ///
    /// The call is accepted where there are exactly two arguments, each a
    /// value or a constant, the first a Schnorr signature and the second a
    /// message. Otherwise the first fault found is the error: an argument
    /// that cannot be evaluated, in the order of the arguments; then the
    /// first argument, missing or of a wrong type; then the second; then
    /// arguments beyond the second.
    pub fn call(self, actual_elements: Vec<Element>) -> (result: Result<Type, Error>)
        ensures
            match result {
                Ok(kind) => {
                    &&& kind == Type::Boolean
                    &&& all_evaluable(actual_elements@)
                    &&& actual_elements@.len() == 2
                    &&& is_signature(actual_elements@[0].kind().unwrap())
                    &&& is_message(actual_elements@[1].kind().unwrap())
                },
                Err(error) => match error@ {
                    ErrorView::ArgumentNotEvaluable { function, position, found } => {
                        &&& function == "verify"@
                        &&& 1 <= position <= actual_elements@.len()
                        &&& actual_elements@[position - 1].kind().is_none()
                        &&& forall|j: int|
                            0 <= j < position - 1 ==> (#[trigger] actual_elements@[j]).kind().is_some()
                        &&& found == actual_elements@[position - 1].text()
                    },
                    ErrorView::ArgumentType { function, name, position, expected, found } => {
                        &&& function == "verify"@
                        &&& all_evaluable(actual_elements@)
                        &&& actual_elements@.len() >= 1
                        &&& if !is_signature(actual_elements@[0].kind().unwrap()) {
                            &&& position == 1
                            &&& name == "signature"@
                            &&& expected == signature_expectation()
                            &&& found == actual_elements@[0].kind().unwrap().text()
                        } else {
                            &&& actual_elements@.len() >= 2
                            &&& !is_message(actual_elements@[1].kind().unwrap())
                            &&& position == 2
                            &&& name == "message"@
                            &&& expected == message_expectation()
                            &&& found == actual_elements@[1].kind().unwrap().text()
                        }
                    },
                    ErrorView::ArgumentCount { function, expected, found } => {
                        &&& function == "verify"@
                        &&& all_evaluable(actual_elements@)
                        &&& expected == 2
                        &&& found == actual_elements@.len()
                        &&& actual_elements@.len() != 2
                        &&& actual_elements@.len() >= 1 ==> is_signature(
                            actual_elements@[0].kind().unwrap(),
                        )
                        &&& actual_elements@.len() >= 2 ==> is_message(
                            actual_elements@[1].kind().unwrap(),
                        )
                    },
                },
            },
    {
        proof {
            use_type_invariant(&self);
        }
        let count = actual_elements.len();
        let mut index: usize = 0;
        while index < count
            invariant
                count == actual_elements@.len(),
                index <= count,
                self.identifier@ == "verify"@,
                forall|j: int| 0 <= j < index ==> (#[trigger] actual_elements@[j]).kind().is_some(),
            decreases count - index,
        {
            if !actual_elements[index].is_evaluable() {
                return Err(
                    Error::argument_not_evaluable(
                        String::from_str(self.identifier),
                        index + 1,
                        actual_elements[index].to_text(),
                    ),
                );
            }
            index += 1;
        }

        if count <= Self::ARGUMENT_INDEX_SIGNATURE {
            return Err(
                Error::argument_count(String::from_str(self.identifier), Self::ARGUMENT_COUNT, count),
            );
        }
        let signature = &actual_elements[Self::ARGUMENT_INDEX_SIGNATURE];
        if !signature.is_structure(TYPE_ID_STD_CRYPTO_SCHNORR_SIGNATURE) {
            return Err(
                Error::argument_type(
                    String::from_str(self.identifier),
                    String::from_str("signature"),
                    Self::ARGUMENT_INDEX_SIGNATURE + 1,
                    String::from_str(
                        "std::crypto::schnorr::Signature { r: std::crypto::ecc::Point, s: field, pk: std::crypto::ecc::Point }",
                    ),
                    signature.to_text(),
                ),
            );
        }

        if count <= Self::ARGUMENT_INDEX_MESSAGE {
            return Err(
                Error::argument_count(String::from_str(self.identifier), Self::ARGUMENT_COUNT, count),
            );
        }
        let message = &actual_elements[Self::ARGUMENT_INDEX_MESSAGE];
        let accepted = match message.boolean_array_size() {
            Some(size) => size % crate::BITLENGTH_BYTE == 0 && size > 0 && size
                <= crate::LIMIT_SCHNORR_MESSAGE_BITS,
            None => false,
        };
        if !accepted {
            return Err(
                Error::argument_type(
                    String::from_str(self.identifier),
                    String::from_str("message"),
                    Self::ARGUMENT_INDEX_MESSAGE + 1,
                    String::from_str("[bool; N], 0 < N <= 248, N % 8 == 0"),
                    message.to_text(),
                ),
            );
        }

        if count > Self::ARGUMENT_COUNT {
            return Err(
                Error::argument_count(String::from_str(self.identifier), Self::ARGUMENT_COUNT, count),
            );
        }

        Ok(*self.return_type)
    }
}

} // verus!
