//! The types of the language.

use vstd::prelude::*;
use vstd::string::*;

use crate::json::JsonValue;
use crate::json::JsonView;
use crate::text::decimal;
use crate::text::decimal_text;

verus! {

broadcast use {
    vstd::std_specs::vec::axiom_vec_index_decreases,
    vstd::std_specs::vec::axiom_vec_decreases_to_view,
};

/// A type of the language.
#[derive(Debug, PartialEq, Eq)]
pub enum Type {
    /// The type of `()`.
    Unit,
    /// `bool`.
    Boolean,
    /// An unsigned integer of the given bitlength.
    IntegerUnsigned { bitlength: usize },
    /// A signed integer of the given bitlength.
    IntegerSigned { bitlength: usize },
    /// An element of the prime field.
    Field,
    /// An array of `size` elements.
    Array { element: Box<Type>, size: usize },
    /// A tuple.
    Tuple { types: Vec<Type> },
    /// A structure, known by its unique id.
    Structure { unique_id: usize, identifier: String, fields: Vec<(String, Type)> },
    /// An enumeration, known by its unique id.
    Enumeration { unique_id: usize, identifier: String, bitlength: usize },
}

impl Type {
    /// The number of field cells that a value of the type takes: one for a
    /// scalar, the sum of the components' sizes for an array, a tuple and a
    /// structure, none for the unit.
    pub open spec fn spec_size(self) -> nat
        decreases self,
    {
        match self {
            Type::Unit => 0,
            Type::Boolean => 1,
            Type::IntegerUnsigned { .. } => 1,
            Type::IntegerSigned { .. } => 1,
            Type::Field => 1,
            Type::Array { element, size } => size as nat * element.spec_size(),
            Type::Tuple { types } => Self::sizes_sum(types@, types@.len()),
            Type::Structure { fields, .. } => Self::fields_sum(fields@, fields@.len()),
            Type::Enumeration { .. } => 1,
        }
    }

    /// The sum of the sizes of the first `count` types.
    pub open spec fn sizes_sum(types: Seq<Type>, count: nat) -> nat
        decreases types, count,
    {
        if count == 0 || count > types.len() {
            0
        } else {
            Self::sizes_sum(types, (count - 1) as nat) + types[count - 1].spec_size()
        }
    }

    /// The sum of the sizes of the first `count` fields.
    pub open spec fn fields_sum(fields: Seq<(String, Type)>, count: nat) -> nat
        decreases fields, count,
    {
        if count == 0 || count > fields.len() {
            0
        } else {
            Self::fields_sum(fields, (count - 1) as nat) + fields[count - 1].1.spec_size()
        }
    }

    /// The type as it is written in a message.
    pub open spec fn text(self) -> Seq<char>
        decreases self,
    {
        match self {
            Type::Unit => "()"@,
            Type::Boolean => "bool"@,
            Type::IntegerUnsigned { bitlength } => "u"@ + decimal(bitlength as nat),
            Type::IntegerSigned { bitlength } => "i"@ + decimal(bitlength as nat),
            Type::Field => "field"@,
            Type::Array { element, size } => "["@ + element.text() + "; "@ + decimal(size as nat)
                + "]"@,
            Type::Tuple { types } => "("@ + Self::texts_joined(types@, types@.len()) + ")"@,
            Type::Structure { identifier, .. } => "struct "@ + identifier@,
            Type::Enumeration { identifier, .. } => "enum "@ + identifier@,
        }
    }

    /// The texts of the first `count` types, with `, ` between them.
    pub open spec fn texts_joined(types: Seq<Type>, count: nat) -> Seq<char>
        decreases types, count,
    {
        if count == 0 || count > types.len() {
            Seq::<char>::empty()
        } else if count == 1 {
            types[0].text()
        } else {
            Self::texts_joined(types, (count - 1) as nat) + ", "@ + types[count - 1].text()
        }
    }

    /// The document that a host fills in for a value of the type: `false`
    /// for a boolean, the text `0` for an integer, a field element and an
    /// enumeration, an array of the elements' documents for an array and for
    /// a tuple, an object of the fields' documents, in their order, for a
    /// structure.
    pub open spec fn template(self) -> JsonView
        decreases self,
    {
        match self {
            Type::Unit => JsonView::Array(Seq::<JsonView>::empty()),
            Type::Boolean => JsonView::Bool(false),
            Type::IntegerUnsigned { .. } => JsonView::String("0"@),
            Type::IntegerSigned { .. } => JsonView::String("0"@),
            Type::Field => JsonView::String("0"@),
            Type::Array { element, size } => {
                let item = element.template();
                JsonView::Array(Seq::new(size as nat, |i: int| item))
            },
            Type::Tuple { types } => JsonView::Array(Self::templates(types@, types@.len())),
            Type::Structure { fields, .. } => JsonView::Object(
                Self::field_templates(fields@, fields@.len()),
            ),
            Type::Enumeration { .. } => JsonView::String("0"@),
        }
    }

    /// The documents of the first `count` types.
    pub open spec fn templates(types: Seq<Type>, count: nat) -> Seq<JsonView>
        decreases types, count,
    {
        if count == 0 || count > types.len() {
            Seq::<JsonView>::empty()
        } else {
            Self::templates(types, (count - 1) as nat).push(types[count - 1].template())
        }
    }

    /// The members for the first `count` fields.
    pub open spec fn field_templates(fields: Seq<(String, Type)>, count: nat) -> Seq<
        (Seq<char>, JsonView),
    >
        decreases fields, count,
    {
        if count == 0 || count > fields.len() {
            Seq::<(Seq<char>, JsonView)>::empty()
        } else {
            Self::field_templates(fields, (count - 1) as nat).push(
                (fields[count - 1].0@, fields[count - 1].1.template()),
            )
        }
    }

    /// The size of a part is at most the sum of the sizes.
    pub proof fn lemma_sizes_sum_bounds(types: Seq<Type>, count: nat, i: int)
        requires
            0 <= i < count <= types.len(),
        ensures
            types[i].spec_size() <= Self::sizes_sum(types, count),
            Self::sizes_sum(types, (i + 1) as nat) <= Self::sizes_sum(types, count),
        decreases count,
    {
        if i + 1 < count {
            Self::lemma_sizes_sum_bounds(types, (count - 1) as nat, i);
        }
    }

    /// The size of a field is at most the sum of the sizes.
    pub proof fn lemma_fields_sum_bounds(fields: Seq<(String, Type)>, count: nat, i: int)
        requires
            0 <= i < count <= fields.len(),
        ensures
            fields[i].1.spec_size() <= Self::fields_sum(fields, count),
            Self::fields_sum(fields, (i + 1) as nat) <= Self::fields_sum(fields, count),
        decreases count,
    {
        if i + 1 < count {
            Self::lemma_fields_sum_bounds(fields, (count - 1) as nat, i);
        }
    }

    /// The number of field cells that a value of the type takes.
    pub fn size(&self) -> (size: usize)
        requires
            self.spec_size() <= usize::MAX,
        ensures
            size == self.spec_size(),
        decreases self,
    {
        match self {
            Type::Unit => 0,
            Type::Boolean => 1,
            Type::IntegerUnsigned { .. } => 1,
            Type::IntegerSigned { .. } => 1,
            Type::Field => 1,
            Type::Array { element, size } => {
                if *size == 0 {
                    assert(0 * element.spec_size() == 0) by (nonlinear_arith);
                    0
                } else {
                    assert(element.spec_size() <= *size as nat * element.spec_size())
                        by (nonlinear_arith)
                        requires
                            *size >= 1,
                    ;
                    *size * element.size()
                }
            },
            Type::Tuple { types } => {
                let mut sum: usize = 0;
                let mut i: usize = 0;
                while i < types.len()
                    invariant
                        i <= types@.len(),
                        sum == Self::sizes_sum(types@, i as nat),
                        Self::sizes_sum(types@, types@.len()) <= usize::MAX,
                        forall|j: int| 0 <= j < types@.len() ==> decreases_to!(self => types@[j]),
                    decreases types@.len() - i,
                {
                    proof {
                        Self::lemma_sizes_sum_bounds(types@, types@.len(), i as int);
                    }
                    sum = sum + types[i].size();
                    i += 1;
                }
                sum
            },
            Type::Structure { fields, .. } => {
                let mut sum: usize = 0;
                let mut i: usize = 0;
                while i < fields.len()
                    invariant
                        i <= fields@.len(),
                        sum == Self::fields_sum(fields@, i as nat),
                        Self::fields_sum(fields@, fields@.len()) <= usize::MAX,
                        forall|j: int|
                            0 <= j < fields@.len() ==> decreases_to!(self => fields@[j].1),
                    decreases fields@.len() - i,
                {
                    proof {
                        Self::lemma_fields_sum_bounds(fields@, fields@.len(), i as int);
                    }
                    sum = sum + fields[i].1.size();
                    i += 1;
                }
                sum
            },
            Type::Enumeration { .. } => 1,
        }
    }

    /// The number of field cells that a value of the type takes, if that
    /// number fits in `usize`.
    pub fn checked_size(&self) -> (size: Option<usize>)
        ensures
            size == if self.spec_size() <= usize::MAX {
                Some(self.spec_size() as usize)
            } else {
                None
            },
        decreases self,
    {
        match self {
            Type::Unit => Some(0),
            Type::Boolean => Some(1),
            Type::IntegerUnsigned { .. } => Some(1),
            Type::IntegerSigned { .. } => Some(1),
            Type::Field => Some(1),
            Type::Array { element, size } => {
                if *size == 0 {
                    assert(0 * element.spec_size() == 0) by (nonlinear_arith);
                    Some(0)
                } else {
                    assert(element.spec_size() <= *size as nat * element.spec_size())
                        by (nonlinear_arith)
                        requires
                            *size >= 1,
                    ;
                    match element.checked_size() {
                        Some(cells) => size.checked_mul(cells),
                        None => None,
                    }
                }
            },
            Type::Tuple { types } => {
                let mut sum: usize = 0;
                let mut i: usize = 0;
                while i < types.len()
                    invariant
                        i <= types@.len(),
                        sum == Self::sizes_sum(types@, i as nat),
                        self.spec_size() == Self::sizes_sum(types@, types@.len()),
                        forall|j: int| 0 <= j < types@.len() ==> decreases_to!(self => types@[j]),
                    decreases types@.len() - i,
                {
                    proof {
                        Self::lemma_sizes_sum_bounds(types@, types@.len(), i as int);
                    }
                    let cells = match types[i].checked_size() {
                        Some(cells) => cells,
                        None => return None,
                    };
                    sum = match sum.checked_add(cells) {
                        Some(sum) => sum,
                        None => return None,
                    };
                    i += 1;
                }
                Some(sum)
            },
            Type::Structure { fields, .. } => {
                let mut sum: usize = 0;
                let mut i: usize = 0;
                while i < fields.len()
                    invariant
                        i <= fields@.len(),
                        sum == Self::fields_sum(fields@, i as nat),
                        self.spec_size() == Self::fields_sum(fields@, fields@.len()),
                        forall|j: int|
                            0 <= j < fields@.len() ==> decreases_to!(self => fields@[j].1),
                    decreases fields@.len() - i,
                {
                    proof {
                        Self::lemma_fields_sum_bounds(fields@, fields@.len(), i as int);
                    }
                    let cells = match fields[i].1.checked_size() {
                        Some(cells) => cells,
                        None => return None,
                    };
                    sum = match sum.checked_add(cells) {
                        Some(sum) => sum,
                        None => return None,
                    };
                    i += 1;
                }
                Some(sum)
            },
            Type::Enumeration { .. } => Some(1),
        }
    }

    /// The document that a host fills in for a value of the type.
    pub fn to_template(&self) -> (document: JsonValue)
        ensures
            document@ == self.template(),
        decreases self,
    {
        match self {
            Type::Unit => {
                let items: Vec<JsonValue> = Vec::new();
                JsonValue::Array(items)
            },
            Type::Boolean => JsonValue::Bool(false),
            Type::IntegerUnsigned { .. } => JsonValue::String(String::from_str("0")),
            Type::IntegerSigned { .. } => JsonValue::String(String::from_str("0")),
            Type::Field => JsonValue::String(String::from_str("0")),
            Type::Array { element, size } => {
                let mut items: Vec<JsonValue> = Vec::new();
                let ghost item = element.template();
                let mut i: usize = 0;
                while i < *size
                    invariant
                        i <= *size,
                        items@.len() == i,
                        item == element.template(),
                        JsonValue::items_model(items@, i as nat) =~= Seq::new(
                            i as nat,
                            |j: int| item,
                        ),
                        decreases_to!(self => element),
                    decreases *size - i,
                {
                    let next = element.to_template();
                    proof {
                        JsonValue::lemma_items_model_push(items@, next);
                    }
                    items.push(next);
                    i += 1;
                }
                JsonValue::Array(items)
            },
            Type::Tuple { types } => {
                let mut items: Vec<JsonValue> = Vec::new();
                let mut i: usize = 0;
                while i < types.len()
                    invariant
                        i <= types@.len(),
                        items@.len() == i,
                        JsonValue::items_model(items@, i as nat) == Self::templates(types@, i as nat),
                        forall|j: int| 0 <= j < types@.len() ==> decreases_to!(self => types@[j]),
                    decreases types@.len() - i,
                {
                    let next = types[i].to_template();
                    proof {
                        JsonValue::lemma_items_model_push(items@, next);
                    }
                    items.push(next);
                    i += 1;
                }
                JsonValue::Array(items)
            },
            Type::Structure { fields, .. } => {
                let mut members: Vec<(String, JsonValue)> = Vec::new();
                let mut i: usize = 0;
                while i < fields.len()
                    invariant
                        i <= fields@.len(),
                        members@.len() == i,
                        JsonValue::members_model(members@, i as nat) == Self::field_templates(
                            fields@,
                            i as nat,
                        ),
                        forall|j: int|
                            0 <= j < fields@.len() ==> decreases_to!(self => fields@[j].1),
                    decreases fields@.len() - i,
                {
                    let member = (fields[i].0.clone(), fields[i].1.to_template());
                    proof {
                        JsonValue::lemma_members_model_push(members@, member);
                    }
                    members.push(member);
                    i += 1;
                }
                JsonValue::Object(members)
            },
            Type::Enumeration { .. } => JsonValue::String(String::from_str("0")),
        }
    }

    /// The object that a host fills in for the given fields.
    pub fn fields_template(fields: &Vec<(String, Type)>) -> (document: JsonValue)
        ensures
            document@ == JsonView::Object(Self::field_templates(fields@, fields@.len())),
    {
        let mut members: Vec<(String, JsonValue)> = Vec::new();
        let mut i: usize = 0;
        while i < fields.len()
            invariant
                i <= fields@.len(),
                members@.len() == i,
                JsonValue::members_model(members@, i as nat) == Self::field_templates(
                    fields@,
                    i as nat,
                ),
            decreases fields@.len() - i,
        {
            let member = (fields[i].0.clone(), fields[i].1.to_template());
            proof {
                JsonValue::lemma_members_model_push(members@, member);
            }
            members.push(member);
            i += 1;
        }
        JsonValue::Object(members)
    }

    /// The structure without fields: the type of no input and of no output.
    pub fn empty_structure() -> (kind: Self)
        ensures
            kind matches Type::Structure { unique_id, identifier, fields } && unique_id == 0
                && identifier@ == Seq::<char>::empty() && fields@ == Seq::<(String, Type)>::empty(),
            kind.spec_size() == 0,
    {
        let fields: Vec<(String, Type)> = Vec::new();
        assert(Self::fields_sum(fields@, 0) == 0);
        Type::Structure { unique_id: 0, identifier: String::new(), fields }
    }

    /// Writes the type as it stands in a message.
    pub fn to_text(&self) -> (text: String)
        ensures
            text@ == self.text(),
        decreases self,
    {
        match self {
            Type::Unit => String::from_str("()"),
            Type::Boolean => String::from_str("bool"),
            Type::IntegerUnsigned { bitlength } => {
                let mut text = String::from_str("u");
                text.append(decimal_text(*bitlength as u64).as_str());
                text
            },
            Type::IntegerSigned { bitlength } => {
                let mut text = String::from_str("i");
                text.append(decimal_text(*bitlength as u64).as_str());
                text
            },
            Type::Field => String::from_str("field"),
            Type::Array { element, size } => {
                let mut text = String::from_str("[");
                text.append(element.to_text().as_str());
                text.append("; ");
                text.append(decimal_text(*size as u64).as_str());
                text.append("]");
                text
            },
            Type::Tuple { types } => {
                let mut text = String::from_str("(");
                let mut i: usize = 0;
                while i < types.len()
                    invariant
                        i <= types@.len(),
                        text@ == "("@ + Self::texts_joined(types@, i as nat),
                        forall|j: int| 0 <= j < types@.len() ==> decreases_to!(self => types@[j]),
                    decreases types@.len() - i,
                {
                    if i > 0 {
                        text.append(", ");
                    }
                    text.append(types[i].to_text().as_str());
                    i += 1;
                    assert(text@ =~= "("@ + Self::texts_joined(types@, i as nat));
                }
                text.append(")");
                text
            },
            Type::Structure { identifier, .. } => {
                let mut text = String::from_str("struct ");
                text.append(identifier.as_str());
                text
            },
            Type::Enumeration { identifier, .. } => {
                let mut text = String::from_str("enum ");
                text.append(identifier.as_str());
                text
            },
        }
    }
}

} // verus!
