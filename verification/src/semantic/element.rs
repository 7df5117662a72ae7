//! The elements that the analyzer evaluates expressions to.

use vstd::prelude::*;
use vstd::string::*;

use crate::semantic::integer::Integer;
use crate::semantic::types::Type;
use crate::text::decimal_text;

verus! {

/// A runtime value: only its type is known to the analyzer.
#[derive(Debug, PartialEq, Eq)]
pub struct RuntimeValue {
    pub kind: Type,
}

/// A value known to the analyzer.
#[derive(Debug, PartialEq, Eq)]
pub enum Constant {
    Unit,
    Boolean(bool),
    Integer(Integer),
}

/// What an expression evaluates to.
#[derive(Debug, PartialEq, Eq)]
pub enum Element {
    /// A runtime value.
    Value(RuntimeValue),
    /// A constant.
    Constant(Constant),
    /// A type.
    Type(Type),
    /// A module, by its name.
    Module(String),
}

impl Constant {
    /// The type of the constant.
    pub open spec fn kind(self) -> Type {
        match self {
            Constant::Unit => Type::Unit,
            Constant::Boolean(_) => Type::Boolean,
            Constant::Integer(integer) => integer.kind(),
        }
    }

    /// The type of the constant.
    pub fn to_kind(&self) -> (kind: Type)
        ensures
            kind == self.kind(),
    {
        match self {
            Constant::Unit => Type::Unit,
            Constant::Boolean(_) => Type::Boolean,
            Constant::Integer(integer) => integer.to_kind(),
        }
    }
}

impl Element {
    /// The type of the element, where the element can be evaluated: a
    /// runtime value or a constant.
    pub open spec fn kind(self) -> Option<Type> {
        match self {
            Element::Value(value) => Some(value.kind),
            Element::Constant(constant) => Some(constant.kind()),
            Element::Type(_) => None,
            Element::Module(_) => None,
        }
    }

    /// The element as it is written in a message: a value and a constant by
    /// their type, a type by itself, a module by its name.
    pub open spec fn text(self) -> Seq<char> {
        match self {
            Element::Value(value) => value.kind.text(),
            Element::Constant(constant) => constant.kind().text(),
            Element::Type(kind) => kind.text(),
            Element::Module(name) => "module "@ + name@,
        }
    }

    /// Whether the element can be evaluated.
    pub fn is_evaluable(&self) -> (evaluable: bool)
        ensures
            evaluable == self.kind().is_some(),
    {
        match self {
            Element::Value(_) => true,
            Element::Constant(_) => true,
            Element::Type(_) => false,
            Element::Module(_) => false,
        }
    }

    /// Writes the element as it stands in a message.
    pub fn to_text(&self) -> (text: String)
        ensures
            text@ == self.text(),
    {
        match self {
            Element::Value(value) => value.kind.to_text(),
            Element::Constant(constant) => constant.to_kind().to_text(),
            Element::Type(kind) => kind.to_text(),
            Element::Module(name) => {
                let mut text = String::from_str("module ");
                text.append(name.as_str());
                text
            },
        }
    }

    /// Whether the element has the structure type with the given id.
    pub fn is_structure(&self, unique_id: usize) -> (found: bool)
        ensures
            found == (self.kind() matches Some(Type::Structure { unique_id: id, .. }) && id
                == unique_id),
    {
        match self {
            Element::Value(value) => match &value.kind {
                Type::Structure { unique_id: id, .. } => *id == unique_id,
                _ => false,
            },
            _ => false,
        }
    }

    /// The size of the element's type, where that is an array of booleans.
    pub fn boolean_array_size(&self) -> (size: Option<usize>)
        ensures
            match size {
                Some(n) => self.kind() matches Some(Type::Array { element, size }) && *element
                    == Type::Boolean && size == n,
                None => !(self.kind() matches Some(Type::Array { element, .. }) && *element
                    == Type::Boolean),
            },
    {
        match self {
            Element::Value(value) => match &value.kind {
                Type::Array { element, size } => match &**element {
                    Type::Boolean => Some(*size),
                    _ => None,
                },
                _ => None,
            },
            _ => None,
        }
    }
}

} // verus!
