//! The generation pass and the client definition that it produces.

use vstd::prelude::*;
use vstd::string::*;
use crate::binding::{
    bind_placeholders, bound, braced, formatted, inner, lemma_first_named, resolve_body, resolved,
    BodyBinding, ResolvedBody,
};
use crate::client::RequestBody;
use crate::description::{
    binding_attribute, extracted, get_meta_from_attributes, lemma_no_verb_no_binding, names,
    names_verb, parse_method_params, signature, DescriptionError, InterfaceDescription,
    OperationDescription, Param,
};
use crate::method::{classified, HttpMethod};
use crate::text::optional_text;

verus! {

/// One operation of a client: the method and path template it is bound to,
/// its parameters as declared, and how they fill the path and the body.
#[derive(Clone, Debug, PartialEq, Eq)]
pub struct OperationDefinition {
    pub name: String,
    pub method: HttpMethod,
    pub path: String,
    pub encoded: bool,
    pub params: Vec<Param>,
    /// The positions of the parameters that fill the path, in declaration
    /// order.
    pub placeholders: Vec<usize>,
    pub body: BodyBinding,
}

/// What the generation pass makes of an accepted description.
#[derive(Clone, Debug, PartialEq, Eq)]
pub struct ClientDefinition {
    pub name: String,
    pub operations: Vec<OperationDefinition>,
}

/// The names of the parameters that the inputs declare by a simple name.
pub open spec fn parameter_names(signature: Seq<(Seq<char>, Seq<char>)>) -> Seq<Seq<char>> {
    Seq::new(signature.len(), |i: int| signature[i].0)
}

/// The body binding of an operation bound to `method`: resolved from the
/// body source where the method sends a body, and absent, whatever the
/// source says, where it does not.
pub open spec fn body_of(method: HttpMethod, data: Option<Seq<char>>, names: Seq<Seq<char>>)
    -> Option<ResolvedBody> {
    if method.carries_body() {
        resolved(data, names)
    } else {
        Some(ResolvedBody::Absent)
    }
}

/// The body binding that the description of `operation` asks for, given
/// that its attribute at position `k` binds it.
pub open spec fn declared_body(operation: OperationDescription, k: int) -> Option<ResolvedBody> {
    body_of(
        classified(operation.attributes@[k].name@),
        optional_text(operation.attributes@[k].data),
        parameter_names(extracted(operation.inputs@)),
    )
}

/// The operation can be translated: an attribute binds it, and its body
/// source, where its method sends a body, resolves.
pub open spec fn accepted(operation: OperationDescription) -> bool {
    match binding_attribute(operation.attributes@) {
        Some(k) => declared_body(operation, k) is Some,
        None => false,
    }
}

/// `definition` is the translation of `operation`.
pub open spec fn translates(operation: OperationDescription, definition: OperationDefinition)
    -> bool {
    &&& binding_attribute(operation.attributes@) is Some
    &&& {
        let attribute = operation.attributes@[binding_attribute(operation.attributes@)->0];
        &&& definition.name@ == operation.name@
        &&& definition.method == classified(attribute.name@)
        &&& Some(definition.path@) == optional_text(attribute.path)
        &&& definition.encoded == (attribute.encoded == Some(true))
        &&& signature(definition.params@) == extracted(operation.inputs@)
        &&& definition.placeholders@ == bound(definition.path@, names(definition.params@))
        &&& Some(definition.body@) == declared_body(
            operation,
            binding_attribute(operation.attributes@)->0,
        )
    }
}

/// `error` is the error that `operation` is rejected with.
pub open spec fn rejects(operation: OperationDescription, error: DescriptionError) -> bool {
    match binding_attribute(operation.attributes@) {
        None => error.is_missing_path(operation.name@),
        Some(k) => {
            &&& declared_body(operation, k) is None
            &&& operation.attributes@[k].data is Some
            &&& error.is_unbound_body(operation.name@, inner(operation.attributes@[k].data->0@))
        },
    }
}

impl OperationDefinition {
    /// The definition is one that the generation pass can have made.
    pub open spec fn wf(self) -> bool {
        &&& self.method.supported()
        &&& self.path@.len() > 0
        &&& self.placeholders@ == bound(self.path@, names(self.params@))
        &&& forall|i: int|
            0 <= i < self.placeholders.len() ==> (#[trigger] self.placeholders[i])
                < self.params.len()
        &&& self.body matches BodyBinding::Parameter(k) ==> k < self.params.len()
        &&& !self.method.carries_body() ==> self.body is Absent
    }

    /// Tests whether the definition is well-formed.
    pub fn is_well_formed(&self) -> (ok: bool)
        ensures
            ok == self.wf(),
    {
        if !self.method.is_supported() || self.path.as_str().unicode_len() == 0 {
            return false;
        }
        let expected = bind_placeholders(self.path.as_str(), &self.params);
        if !same_positions(&expected, &self.placeholders) {
            return false;
        }
        match &self.body {
            BodyBinding::Absent => true,
            BodyBinding::Parameter(k) => self.method.has_body() && *k < self.params.len(),
            BodyBinding::Ambient(_) => self.method.has_body(),
        }
    }

    /// The substitution list of a call with the argument texts `values`:
    /// for each bound parameter, its name and the text of its argument.
    pub open spec fn substitutions(self, values: Seq<Seq<char>>) -> Seq<(Seq<char>, Seq<char>)> {
        Seq::new(
            self.placeholders.len() as nat,
            |i: int|
                (self.params[self.placeholders[i] as int].ident@, values[self.placeholders[i] as int]),
        )
    }

    /// The path of a call with the argument texts `values`.
    pub open spec fn path_for(self, values: Seq<Seq<char>>) -> Seq<char> {
        formatted(self.path@, self.substitutions(values))
    }

    /// `body` is the body of a call with the argument texts `values`.
    pub open spec fn sends(self, values: Seq<Seq<char>>, body: RequestBody) -> bool {
        match self.body {
            BodyBinding::Absent => body is Absent,
            BodyBinding::Parameter(k) => body matches RequestBody::Raw(text) && text@
                == values[k as int],
            BodyBinding::Ambient(name) => body matches RequestBody::Ambient(reference)
                && reference@ == name@,
        }
    }
}

impl ClientDefinition {
    /// Every operation is well-formed.
    pub open spec fn wf(self) -> bool {
        forall|i: int| 0 <= i < self.operations.len() ==> (#[trigger] self.operations[i]).wf()
    }

    /// Tests whether every operation is well-formed.
    pub fn is_well_formed(&self) -> (ok: bool)
        ensures
            ok == self.wf(),
    {
        let mut i: usize = 0;
        while i < self.operations.len()
            invariant
                i <= self.operations.len(),
                forall|j: int| 0 <= j < i ==> (#[trigger] self.operations[j]).wf(),
            decreases self.operations.len() - i,
        {
            if !self.operations[i].is_well_formed() {
                return false;
            }
            i += 1;
        }
        true
    }
}

/// Compares two lists of positions.
fn same_positions(a: &Vec<usize>, b: &Vec<usize>) -> (same: bool)
    ensures
        same == (a@ == b@),
{
    if a.len() != b.len() {
        return false;
    }
    let mut i: usize = 0;
    while i < a.len()
        invariant
            i <= a.len(),
            a.len() == b.len(),
            forall|j: int| 0 <= j < i ==> a[j] == b[j],
        decreases a.len() - i,
    {
        if a[i] != b[i] {
            return false;
        }
        i += 1;
    }
    proof {
        assert(a@ =~= b@);
    }
    true
}

/// The parameter names of a list are the first components of its signature.
pub proof fn lemma_names_of_signature(params: Seq<Param>)
    ensures
        names(params) == parameter_names(signature(params)),
{
    assert(names(params) =~= parameter_names(signature(params)));
}

/// Translates one operation: reads its attributes and parameters, binds the
/// parameters to the path template and resolves the body source. The body
/// source is consulted only where the method sends a body. Where two
/// parameters share a name, a marker or a body source of that name refers
/// to the one declared first.
pub fn translate_operation(operation: &OperationDescription) -> (result: Result<
    OperationDefinition,
    DescriptionError,
>)
    ensures
        match result {
            Ok(definition) => accepted(*operation) && translates(*operation, definition)
                && definition.wf(),
            Err(error) => !accepted(*operation) && rejects(*operation, error),
        },
{
    let meta = match get_meta_from_attributes(operation.name.as_str(), &operation.attributes) {
        Ok(meta) => meta,
        Err(error) => {
            return Err(error);
        },
    };
    let params = parse_method_params(&operation.inputs);
    proof {
        lemma_names_of_signature(params@);
    }
    let placeholders = bind_placeholders(meta.attributes.path.as_str(), &params);
    let body = if meta.method.has_body() {
        match resolve_body(operation.name.as_str(), &meta.attributes.data, &params) {
            Ok(binding) => binding,
            Err(error) => {
                return Err(error);
            },
        }
    } else {
        BodyBinding::Absent
    };
    let encoded = match meta.attributes.encoded {
        Some(flag) => flag,
        None => false,
    };
    Ok(
        OperationDefinition {
            name: String::from_str(operation.name.as_str()),
            method: meta.method,
            path: meta.attributes.path,
            encoded,
            params,
            placeholders,
            body,
        },
    )
}

/// The position of the first operation at or after `from` that cannot be
/// translated.
pub open spec fn first_rejected(operations: Seq<OperationDescription>, from: int) -> Option<int>
    decreases operations.len() - from,
{
    if from < 0 || from >= operations.len() {
        None
    } else if !accepted(operations[from]) {
        Some(from)
    } else {
        first_rejected(operations, from + 1)
    }
}

/// Where `first_rejected` finds nothing, every operation from `from` on is
/// accepted; where it finds a position, the operation there is the first
/// that is not.
pub proof fn lemma_first_rejected(operations: Seq<OperationDescription>, from: int)
    requires
        0 <= from,
    ensures
        match first_rejected(operations, from) {
            Some(k) => {
                &&& from <= k < operations.len()
                &&& !accepted(operations[k])
                &&& forall|j: int| from <= j < k ==> accepted(#[trigger] operations[j])
            },
            None => forall|j: int|
                from <= j < operations.len() ==> accepted(#[trigger] operations[j]),
        },
    decreases operations.len() - from,
{
    if from < operations.len() && accepted(operations[from]) {
        lemma_first_rejected(operations, from + 1);
    }
}

/// A description with an operation that is not accepted has a first such
/// operation, so the generation pass gives no definition for it.
pub proof fn lemma_one_rejected(operations: Seq<OperationDescription>, k: int)
    requires
        0 <= k < operations.len(),
        !accepted(operations[k]),
    ensures
        first_rejected(operations, 0) is Some,
{
    lemma_first_rejected(operations, 0);
}

/// An operation none of whose attributes names a verb is not accepted, and
/// the error it is rejected with is a missing path attribute on it.
pub proof fn lemma_no_verb_rejected(operation: OperationDescription, error: DescriptionError)
    requires
        forall|j: int|
            0 <= j < operation.attributes.len() ==> !names_verb(#[trigger] operation.attributes[j]),
        rejects(operation, error),
    ensures
        !accepted(operation),
        error.is_missing_path(operation.name@),
{
    lemma_no_verb_no_binding(operation.attributes@);
}

/// An operation whose method sends a body and whose body source, in
/// braces, names none of its parameters is not accepted, and the error it
/// is rejected with is an unbound body parameter of that name.
pub proof fn lemma_unbound_body_rejected(
    operation: OperationDescription,
    source: Seq<char>,
    error: DescriptionError,
)
    requires
        binding_attribute(operation.attributes@) is Some,
        ({
            let attribute = operation.attributes@[binding_attribute(operation.attributes@)->0];
            &&& classified(attribute.name@).carries_body()
            &&& optional_text(attribute.data) == Some(source)
        }),
        braced(source),
        forall|j: int|
            0 <= j < extracted(operation.inputs@).len() ==> (#[trigger] extracted(
                operation.inputs@,
            )[j]).0 != inner(source),
        rejects(operation, error),
    ensures
        !accepted(operation),
        error.is_unbound_body(operation.name@, inner(source)),
{
    lemma_first_named(parameter_names(extracted(operation.inputs@)), inner(source), 0);
}

/// The generation pass. Translates the operations of a description in
/// declaration order, each on its own. Where all are accepted the result
/// is the client definition, with one operation per declared one, in the
/// same order. Otherwise the whole description is rejected, with the error
/// of the first operation that is not accepted, and no definition is made.
pub fn http_client(description: &InterfaceDescription) -> (result: Result<
    ClientDefinition,
    DescriptionError,
>)
    ensures
        match result {
            Ok(definition) => {
                &&& first_rejected(description.operations@, 0) is None
                &&& definition.name@ == description.name@
                &&& definition.operations.len() == description.operations.len()
                &&& forall|i: int|
                    0 <= i < definition.operations.len() ==> translates(
                        description.operations[i],
                        #[trigger] definition.operations[i],
                    )
                &&& definition.wf()
            },
            Err(error) => {
                &&& first_rejected(description.operations@, 0) is Some
                &&& rejects(
                    description.operations[first_rejected(description.operations@, 0)->0],
                    error,
                )
            },
        },
{
    let mut operations: Vec<OperationDefinition> = Vec::new();
    let mut i: usize = 0;
    while i < description.operations.len()
        invariant
            i <= description.operations.len(),
            operations.len() == i,
            first_rejected(description.operations@, 0) == first_rejected(
                description.operations@,
                i as int,
            ),
            forall|j: int|
                0 <= j < i ==> translates(description.operations[j], #[trigger] operations[j])
                    && operations[j].wf(),
        decreases description.operations.len() - i,
    {
        match translate_operation(&description.operations[i]) {
            Ok(definition) => {
                operations.push(definition);
            },
            Err(error) => {
                return Err(error);
            },
        }
        i += 1;
    }
    Ok(ClientDefinition { name: String::from_str(description.name.as_str()), operations })
}

} // verus!
