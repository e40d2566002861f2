//! The declared interface as data, and the two readers that work on one
//! operation: the attribute parser and the parameter extractor.

use vstd::prelude::*;
use vstd::string::*;
use crate::method::{classified, HttpMethod};
use crate::text::{copy_optional, optional_text};

verus! {

/// One attribute of an operation, such as `get(path = "/posts")`: its name
/// and the arguments it was written with.
#[derive(Clone, Debug, PartialEq, Eq)]
pub struct Attribute {
    pub name: String,
    pub path: Option<String>,
    pub data: Option<String>,
    pub encoded: Option<bool>,
}

/// The arguments of the attribute that binds an operation to a method.
#[derive(Clone, Debug, PartialEq, Eq)]
pub struct Attrs {
    pub path: String,
    pub data: Option<String>,
    pub encoded: Option<bool>,
}

/// What the attribute parser found for one operation.
#[derive(Clone, Debug, PartialEq, Eq)]
pub struct RequestMeta {
    pub method: HttpMethod,
    pub attributes: Attrs,
}

/// One entry of an operation's formal parameter list, as declared.
#[derive(Clone, Debug, PartialEq, Eq)]
pub enum FormalInput {
    /// The implicit receiver.
    Receiver,
    /// A parameter bound to a simple name.
    Named { name: String, ty: String },
    /// A parameter bound by a pattern that is not a simple name.
    Patterned { ty: String },
}

/// A formal parameter: its name and its declared type.
#[derive(Clone, Debug, PartialEq, Eq)]
pub struct Param {
    pub ident: String,
    pub ty: String,
}

/// One declared operation.
#[derive(Clone, Debug, PartialEq, Eq)]
pub struct OperationDescription {
    pub name: String,
    pub attributes: Vec<Attribute>,
    pub inputs: Vec<FormalInput>,
}

/// A named, ordered set of declared operations.
#[derive(Clone, Debug, PartialEq, Eq)]
pub struct InterfaceDescription {
    pub name: String,
    pub operations: Vec<OperationDescription>,
}

/// Why a description was rejected. Each error names the operation at fault.
#[derive(Clone, Debug, PartialEq, Eq)]
pub enum DescriptionError {
    /// No attribute of the operation names a supported method and gives a
    /// path.
    MissingPathAttribute { operation: String },
    /// The body source refers to a parameter that the operation does not
    /// declare.
    UnboundBodyParameter { operation: String, parameter: String },
}

impl DescriptionError {
    /// The error is a missing path attribute on the operation `operation`.
    pub open spec fn is_missing_path(self, operation: Seq<char>) -> bool {
        match self {
            DescriptionError::MissingPathAttribute { operation: o } => o@ == operation,
            _ => false,
        }
    }

    /// The error is an unbound body parameter `parameter` on the operation
    /// `operation`.
    pub open spec fn is_unbound_body(self, operation: Seq<char>, parameter: Seq<char>) -> bool {
        match self {
            DescriptionError::UnboundBodyParameter { operation: o, parameter: p } => o@
                == operation && p@ == parameter,
            _ => false,
        }
    }

    /// The text of the error's message.
    pub open spec fn message_text(self) -> Seq<char> {
        match self {
            DescriptionError::MissingPathAttribute { operation } => "No path attribute found on "@
                + operation@,
            DescriptionError::UnboundBodyParameter { operation, parameter } =>
                "No matching param for {"@ + parameter@ + "} on "@ + operation@,
        }
    }

    /// A message that names the operation and, for a body source, the
    /// parameter that is missing.
    pub fn message(&self) -> (text: String)
        ensures
            text@ == self.message_text(),
    {
        match self {
            DescriptionError::MissingPathAttribute { operation } => {
                let mut text = String::from_str("No path attribute found on ");
                text.append(operation.as_str());
                text
            },
            DescriptionError::UnboundBodyParameter { operation, parameter } => {
                let mut text = String::from_str("No matching param for {");
                text.append(parameter.as_str());
                text.append("} on ");
                text.append(operation.as_str());
                text
            },
        }
    }
}

/// The attribute's name is one of the five verb tokens.
pub open spec fn names_verb(attribute: Attribute) -> bool {
    classified(attribute.name@).supported()
}

/// The attribute gives a path template that is not empty.
pub open spec fn has_path(attribute: Attribute) -> bool {
    attribute.path is Some && attribute.path->0@.len() > 0
}

/// The position of the first attribute at or after `from` whose name is a
/// verb token.
pub open spec fn first_verb(attributes: Seq<Attribute>, from: int) -> Option<int>
    decreases attributes.len() - from,
{
    if from < 0 || from >= attributes.len() {
        None
    } else if names_verb(attributes[from]) {
        Some(from)
    } else {
        first_verb(attributes, from + 1)
    }
}

/// The position of the attribute that binds the operation: the first one
/// whose name is a verb token, provided that it gives a path.
pub open spec fn binding_attribute(attributes: Seq<Attribute>) -> Option<int> {
    match first_verb(attributes, 0) {
        Some(k) => if has_path(attributes[k]) {
            Some(k)
        } else {
            None
        },
        None => None,
    }
}

/// `meta` holds the method that `attribute` names and the arguments that it
/// was written with.
pub open spec fn meta_of(attribute: Attribute, meta: RequestMeta) -> bool {
    &&& meta.method == classified(attribute.name@)
    &&& attribute.path is Some && meta.attributes.path@ == attribute.path->0@
    &&& optional_text(meta.attributes.data) == optional_text(attribute.data)
    &&& meta.attributes.encoded == attribute.encoded
}

/// The first attribute found by `first_verb` names a verb and no attribute
/// before it does; where it finds none, no attribute names a verb.
pub proof fn lemma_first_verb(attributes: Seq<Attribute>, from: int)
    requires
        0 <= from,
    ensures
        match first_verb(attributes, from) {
            Some(k) => {
                &&& from <= k < attributes.len()
                &&& names_verb(attributes[k])
                &&& forall|j: int| from <= j < k ==> !names_verb(#[trigger] attributes[j])
            },
            None => forall|j: int|
                from <= j < attributes.len() ==> !names_verb(#[trigger] attributes[j]),
        },
    decreases attributes.len() - from,
{
    if from < attributes.len() && !names_verb(attributes[from]) {
        lemma_first_verb(attributes, from + 1);
    }
}

/// Where no attribute names a verb, none binds the operation.
pub proof fn lemma_no_verb_no_binding(attributes: Seq<Attribute>)
    requires
        forall|j: int| 0 <= j < attributes.len() ==> !names_verb(#[trigger] attributes[j]),
    ensures
        binding_attribute(attributes) is None,
{
    lemma_first_verb(attributes, 0);
}

/// Reads the attributes of the operation named `operation` in declaration
/// order and extracts method, path, body source and pre-encoded flag from
/// the first one whose name is a verb token. Attributes with other names
/// are passed over. The operation is rejected where no attribute names a
/// verb, or where the one that does gives no path or an empty one.
pub fn get_meta_from_attributes(operation: &str, attributes: &Vec<Attribute>) -> (result: Result<
    RequestMeta,
    DescriptionError,
>)
    ensures
        match result {
            Ok(meta) => {
                &&& binding_attribute(attributes@) is Some
                &&& meta_of(attributes@[binding_attribute(attributes@)->0], meta)
                &&& meta.method.supported()
                &&& meta.attributes.path@.len() > 0
            },
            Err(e) => binding_attribute(attributes@) is None && e.is_missing_path(operation@),
        },
{
    let mut i: usize = 0;
    while i < attributes.len()
        invariant
            i <= attributes.len(),
            first_verb(attributes@, 0) == first_verb(attributes@, i as int),
        decreases attributes.len() - i,
    {
        let attribute = &attributes[i];
        let method = HttpMethod::from(attribute.name.as_str());
        if method.is_supported() {
            match &attribute.path {
                Some(path) => {
                    if path.as_str().unicode_len() > 0 {
                        return Ok(
                            RequestMeta {
                                method,
                                attributes: Attrs {
                                    path: String::from_str(path.as_str()),
                                    data: copy_optional(&attribute.data),
                                    encoded: attribute.encoded,
                                },
                            },
                        );
                    }
                },
                None => {},
            }
            return Err(
                DescriptionError::MissingPathAttribute { operation: String::from_str(operation) },
            );
        }
        i += 1;
    }
    Err(DescriptionError::MissingPathAttribute { operation: String::from_str(operation) })
}

/// The names and types of the inputs that are bound to a simple name, in
/// declaration order.
pub open spec fn extracted(inputs: Seq<FormalInput>) -> Seq<(Seq<char>, Seq<char>)>
    decreases inputs.len(),
{
    if inputs.len() == 0 {
        Seq::empty()
    } else {
        let before = extracted(inputs.drop_last());
        match inputs.last() {
            FormalInput::Named { name, ty } => before.push((name@, ty@)),
            _ => before,
        }
    }
}

/// The names and types of a parameter list.
pub open spec fn signature(params: Seq<Param>) -> Seq<(Seq<char>, Seq<char>)> {
    Seq::new(params.len(), |i: int| (params[i].ident@, params[i].ty@))
}

/// The names of a parameter list.
pub open spec fn names(params: Seq<Param>) -> Seq<Seq<char>> {
    Seq::new(params.len(), |i: int| params[i].ident@)
}

/// Reads an operation's formal parameter list: each input bound to a simple
/// name becomes a parameter, in declaration order; the receiver and inputs
/// bound by a pattern are left out.
pub fn parse_method_params(inputs: &Vec<FormalInput>) -> (params: Vec<Param>)
    ensures
        signature(params@) == extracted(inputs@),
{
    let mut params: Vec<Param> = Vec::new();
    let mut i: usize = 0;
    while i < inputs.len()
        invariant
            i <= inputs.len(),
            signature(params@) == extracted(inputs@.take(i as int)),
        decreases inputs.len() - i,
    {
        proof {
            assert(inputs@.take(i + 1).drop_last() =~= inputs@.take(i as int));
        }
        let ghost before = params@;
        match &inputs[i] {
            FormalInput::Named { name, ty } => {
                params.push(
                    Param {
                        ident: String::from_str(name.as_str()),
                        ty: String::from_str(ty.as_str()),
                    },
                );
                assert(signature(params@) =~= signature(before).push((name@, ty@)));
            },
            _ => {},
        }
        i += 1;
    }
    proof {
        assert(inputs@.take(i as int) =~= inputs@);
    }
    params
}

} // verus!
