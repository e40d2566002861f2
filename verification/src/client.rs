//! The client: a base address and a definition, and the request that it
//! prepares for each call.

use vstd::prelude::*;
use vstd::string::*;
use crate::binding::{first_named, format_path, pairs, BodyBinding, Substitution};
use crate::generate::{ClientDefinition, OperationDefinition};
use crate::method::HttpMethod;
use crate::text::same_text;

verus! {

/// The body of a prepared request.
#[derive(Clone, Debug, PartialEq, Eq)]
pub enum RequestBody {
    /// No body is sent.
    Absent,
    /// This text is sent as it is.
    Raw(String),
    /// The value of this name in the scope of the call is sent.
    Ambient(String),
}

/// What a transport has to send for one call.
#[derive(Clone, Debug, PartialEq, Eq)]
pub struct PreparedRequest {
    pub method: HttpMethod,
    pub url: String,
    pub body: RequestBody,
}

/// A client: a base address and the operations that can be called on it.
#[derive(Clone, Debug, PartialEq, Eq)]
pub struct GeneratedClient {
    pub root: String,
    pub definition: ClientDefinition,
}

/// The texts of a list of arguments.
pub open spec fn texts(args: Seq<String>) -> Seq<Seq<char>> {
    Seq::new(args.len(), |i: int| args[i]@)
}

/// The names of a list of operations.
pub open spec fn operation_names(operations: Seq<OperationDefinition>) -> Seq<Seq<char>> {
    Seq::new(operations.len(), |i: int| operations[i].name@)
}

impl GeneratedClient {
    /// The client's definition is well-formed.
    pub open spec fn wf(self) -> bool {
        self.definition.wf()
    }

    /// The operation at `index` exists and takes `count` arguments.
    pub open spec fn callable(self, index: int, count: int) -> bool {
        0 <= index < self.definition.operations.len() && count
            == self.definition.operations[index].params.len()
    }

    /// The URL of a call of the operation at `index` with the argument texts
    /// `values`: the base address, then the formatted path, joined as they
    /// are.
    pub open spec fn url_for(self, index: int, values: Seq<Seq<char>>) -> Seq<char> {
        self.root@ + self.definition.operations[index].path_for(values)
    }

    /// `result` is what preparing a call of the operation at `index` with
    /// the arguments `args` gives.
    pub open spec fn prepares(
        self,
        index: int,
        args: Seq<String>,
        result: Option<PreparedRequest>,
    ) -> bool {
        match result {
            Some(request) => {
                &&& self.callable(index, args.len() as int)
                &&& request.method == self.definition.operations[index].method
                &&& request.url@ == self.url_for(index, texts(args))
                &&& self.definition.operations[index].sends(texts(args), request.body)
            },
            None => !self.callable(index, args.len() as int),
        }
    }

    /// A client for the base address `root`. The address is stored as it is.
    pub fn new(root: &str, definition: ClientDefinition) -> (client: GeneratedClient)
        ensures
            client.root@ == root@,
            client.definition == definition,
    {
        GeneratedClient { root: String::from_str(root), definition }
    }

    /// The position of the first operation named `name`.
    pub fn find_operation(&self, name: &str) -> (found: Option<usize>)
        ensures
            match found {
                Some(k) => first_named(operation_names(self.definition.operations@), name@, 0)
                    == Some(k as int) && k < self.definition.operations.len(),
                None => first_named(operation_names(self.definition.operations@), name@, 0)
                    is None,
            },
    {
        let mut i: usize = 0;
        while i < self.definition.operations.len()
            invariant
                i <= self.definition.operations.len(),
                first_named(operation_names(self.definition.operations@), name@, 0)
                    == first_named(operation_names(self.definition.operations@), name@, i as int),
            decreases self.definition.operations.len() - i,
        {
            if same_text(self.definition.operations[i].name.as_str(), name) {
                return Some(i);
            }
            i += 1;
        }
        None
    }

    /// Prepares a call of the operation at `index`. `args` holds the text of
    /// each argument, one per declared parameter, in declaration order. The
    /// URL is the base address followed by the path, in which the value of
    /// each bound parameter has taken the place of its marker; nothing is
    /// encoded or normalised. The body is the text of the bound argument,
    /// where the operation binds one. Nothing is prepared where there is no
    /// such operation or the number of arguments is not that of its
    /// parameters.
    pub fn request(&self, index: usize, args: &Vec<String>) -> (result: Option<PreparedRequest>)
        requires
            self.wf(),
        ensures
            self.prepares(index as int, args@, result),
    {
        if index >= self.definition.operations.len() {
            return None;
        }
        let operation = &self.definition.operations[index];
        if args.len() != operation.params.len() {
            return None;
        }
        let ghost values = texts(args@);
        let mut list: Vec<Substitution> = Vec::new();
        let mut i: usize = 0;
        while i < operation.placeholders.len()
            invariant
                i <= operation.placeholders.len(),
                operation.wf(),
                args.len() == operation.params.len(),
                values == texts(args@),
                list.len() == i,
                forall|j: int|
                    0 <= j < i ==> (#[trigger] pairs(list@)[j]) == operation.substitutions(
                        values,
                    )[j],
            decreases operation.placeholders.len() - i,
        {
            let k: usize = operation.placeholders[i];
            let ghost before = list@;
            list.push(
                Substitution {
                    name: String::from_str(operation.params[k].ident.as_str()),
                    value: String::from_str(args[k].as_str()),
                },
            );
            proof {
                assert forall|j: int| 0 <= j < i + 1 implies (#[trigger] pairs(list@)[j])
                    == operation.substitutions(values)[j] by {
                    if j < i {
                        assert(pairs(before)[j] == operation.substitutions(values)[j]);
                        assert(list@[j] == before[j]);
                    }
                }
            }
            i += 1;
        }
        proof {
            assert(pairs(list@) =~= operation.substitutions(values));
        }
        let path = format_path(operation.path.as_str(), &list);
        let mut url = String::from_str(self.root.as_str());
        url.append(path.as_str());
        let body = match &operation.body {
            BodyBinding::Absent => RequestBody::Absent,
            BodyBinding::Parameter(k) => RequestBody::Raw(String::from_str(args[*k].as_str())),
            BodyBinding::Ambient(name) => RequestBody::Ambient(String::from_str(name.as_str())),
        };
        Some(PreparedRequest { method: operation.method, url, body })
    }
}

/// Preparing the same call twice gives the same request: whatever two
/// results `request` may give for one client, operation and argument list,
/// they agree on whether a request is prepared, and on its method, its URL
/// and its body.
pub proof fn lemma_request_determined(
    client: GeneratedClient,
    index: int,
    args: Seq<String>,
    first: Option<PreparedRequest>,
    second: Option<PreparedRequest>,
)
    requires
        client.prepares(index, args, first),
        client.prepares(index, args, second),
    ensures
        first is Some <==> second is Some,
        first is Some ==> {
            &&& first->0.method == second->0.method
            &&& first->0.url@ == second->0.url@
            &&& first->0.body@ == second->0.body@
        },
{
}

/// A call depends on nothing but the base address, the operation called
/// and the arguments: two clients that agree on the base address and on the
/// operation at `index` prepare the same request there, whatever other
/// operations each of them holds.
pub proof fn lemma_request_independent(
    client: GeneratedClient,
    other: GeneratedClient,
    index: int,
    args: Seq<String>,
    result: Option<PreparedRequest>,
)
    requires
        0 <= index < client.definition.operations.len(),
        0 <= index < other.definition.operations.len(),
        client.root@ == other.root@,
        client.definition.operations[index] == other.definition.operations[index],
        client.prepares(index, args, result),
    ensures
        other.prepares(index, args, result),
{
}

/// The argument of a parameter that is not bound to the path does not
/// reach it: two argument lists that agree on the bound parameters give the
/// same path.
pub proof fn lemma_unbound_argument_ignored(
    operation: OperationDefinition,
    first: Seq<Seq<char>>,
    second: Seq<Seq<char>>,
)
    requires
        forall|i: int|
            0 <= i < operation.placeholders.len() ==> first[(
            #[trigger] operation.placeholders[i]) as int] == second[operation.placeholders[i] as int],
    ensures
        operation.path_for(first) == operation.path_for(second),
{
    assert(operation.substitutions(first) =~= operation.substitutions(second));
}

/// The mathematical form of a request body.
pub ghost enum SentBody {
    Absent,
    Raw(Seq<char>),
    Ambient(Seq<char>),
}

impl View for RequestBody {
    type V = SentBody;

    open spec fn view(&self) -> SentBody {
        match self {
            RequestBody::Absent => SentBody::Absent,
            RequestBody::Raw(text) => SentBody::Raw(text@),
            RequestBody::Ambient(name) => SentBody::Ambient(name@),
        }
    }
}

} // verus!
