//! JSON documents and their text.

use vstd::prelude::*;

verus! {

broadcast use {
    vstd::std_specs::vec::axiom_vec_index_decreases,
    vstd::std_specs::vec::axiom_vec_decreases_to_view,
};

/// A JSON document.
#[derive(Debug, PartialEq, Eq)]
pub enum JsonValue {
    Bool(bool),
    String(String),
    Array(Vec<JsonValue>),
    /// The members of an object, in their order.
    Object(Vec<(String, JsonValue)>),
}

/// A JSON document, with sequences for its texts, items and members.
pub enum JsonView {
    Bool(bool),
    String(Seq<char>),
    Array(Seq<JsonView>),
    Object(Seq<(Seq<char>, JsonView)>),
}

impl JsonValue {
    /// What the document holds.
    pub open spec fn model(self) -> JsonView
        decreases self,
    {
        match self {
            JsonValue::Bool(value) => JsonView::Bool(value),
            JsonValue::String(text) => JsonView::String(text@),
            JsonValue::Array(items) => JsonView::Array(Self::items_model(items@, items@.len())),
            JsonValue::Object(members) => JsonView::Object(
                Self::members_model(members@, members@.len()),
            ),
        }
    }

    /// What the first `count` items hold.
    pub open spec fn items_model(items: Seq<JsonValue>, count: nat) -> Seq<JsonView>
        decreases items, count,
    {
        if count == 0 || count > items.len() {
            Seq::<JsonView>::empty()
        } else {
            Self::items_model(items, (count - 1) as nat).push(items[count - 1].model())
        }
    }

    /// What the first `count` members hold.
    pub open spec fn members_model(members: Seq<(String, JsonValue)>, count: nat) -> Seq<
        (Seq<char>, JsonView),
    >
        decreases members, count,
    {
        if count == 0 || count > members.len() {
            Seq::<(Seq<char>, JsonView)>::empty()
        } else {
            Self::members_model(members, (count - 1) as nat).push(
                (members[count - 1].0@, members[count - 1].1.model()),
            )
        }
    }

    /// The model of the first items does not depend on the items after them.
    pub proof fn lemma_items_model_prefix(items: Seq<JsonValue>, longer: Seq<JsonValue>, count: nat)
        requires
            count <= items.len() <= longer.len(),
            forall|i: int| 0 <= i < count ==> items[i] == longer[i],
        ensures
            Self::items_model(items, count) == Self::items_model(longer, count),
        decreases count,
    {
        if count > 0 {
            Self::lemma_items_model_prefix(items, longer, (count - 1) as nat);
        }
    }

    /// One more item adds its model to the models of the others.
    pub proof fn lemma_items_model_push(items: Seq<JsonValue>, item: JsonValue)
        ensures
            Self::items_model(items.push(item), items.len() + 1) == Self::items_model(
                items,
                items.len(),
            ).push(item.model()),
    {
        Self::lemma_items_model_prefix(items, items.push(item), items.len());
    }

    /// The model of the first members does not depend on the members after
    /// them.
    pub proof fn lemma_members_model_prefix(
        members: Seq<(String, JsonValue)>,
        longer: Seq<(String, JsonValue)>,
        count: nat,
    )
        requires
            count <= members.len() <= longer.len(),
            forall|i: int| 0 <= i < count ==> members[i] == longer[i],
        ensures
            Self::members_model(members, count) == Self::members_model(longer, count),
        decreases count,
    {
        if count > 0 {
            Self::lemma_members_model_prefix(members, longer, (count - 1) as nat);
        }
    }

    /// One more member adds its model to the models of the others.
    pub proof fn lemma_members_model_push(members: Seq<(String, JsonValue)>, member: (String, JsonValue))
        ensures
            Self::members_model(members.push(member), members.len() + 1) == Self::members_model(
                members,
                members.len(),
            ).push((member.0@, member.1.model())),
    {
        Self::lemma_members_model_prefix(members, members.push(member), members.len());
    }

    /// The text of the document, laid out on several lines.
    pub fn to_string_pretty(&self) -> (text: String)
        ensures
            text@ == pretty_text(self@),
    {
        serde_to_string_pretty(self)
    }
}

impl View for JsonValue {
    type V = JsonView;

    open spec fn view(&self) -> JsonView {
        self.model()
    }
}

/// The text that `serde_json::to_string_pretty` gives for a document.
pub uninterp spec fn pretty_text(document: JsonView) -> Seq<char>;

/// A document of the library as one of serde_json, part by part.
#[verifier::external_body]
fn to_serde(value: &JsonValue) -> (document: serde_json::Value) {
    match value {
        JsonValue::Bool(value) => serde_json::Value::Bool(*value),
        JsonValue::String(text) => serde_json::Value::String(text.clone()),
        JsonValue::Array(items) => serde_json::Value::Array(items.iter().map(to_serde).collect()),
        JsonValue::Object(members) => serde_json::Value::Object(
            members.iter().map(|(name, value)| (name.clone(), to_serde(value))).collect(),
        ),
    }
}

/// `serde_json::to_string_pretty` on a document of booleans, strings,
/// arrays and objects, whose members keep their order: its text. On such a
/// document the serializer does not fail.
#[verifier::external_body]
fn serde_to_string_pretty(value: &JsonValue) -> (text: String)
    ensures
        text@ == pretty_text(value@),
{
    serde_json::to_string_pretty(&to_serde(value)).unwrap_or_default()
}

/// The document of serde_json.
#[verifier::external_type_specification]
#[verifier::external_body]
pub struct ExSerdeValue(serde_json::Value);

} // verus!
