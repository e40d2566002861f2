//! Binding declared parameters to a path template and to the request body,
//! and the substitution that materialises a path at call time.

use vstd::prelude::*;
use vstd::string::*;
use crate::description::{names, DescriptionError, Param};
use crate::text::{contains, occurs_at, same_text, text_contains, text_occurs_at};

verus! {

/// The marker that stands for the parameter `name` in a path template: the
/// name between one pair of braces.
pub open spec fn placeholder(name: Seq<char>) -> Seq<char> {
    seq!['{'] + name + seq!['}']
}

/// Builds the marker of the parameter `name`.
pub fn placeholder_of(name: &str) -> (marker: String)
    ensures
        marker@ == placeholder(name@),
{
    proof {
        reveal_strlit("{");
        reveal_strlit("}");
        assert("{"@ =~= seq!['{']);
        assert("}"@ =~= seq!['}']);
    }
    let mut marker = String::from_str("{");
    marker.append(name);
    marker.append("}");
    marker
}

/// The positions, in declaration order, of the parameters whose marker
/// stands somewhere in `template`.
pub open spec fn bound(template: Seq<char>, names: Seq<Seq<char>>) -> Seq<usize>
    decreases names.len(),
{
    if names.len() == 0 {
        Seq::empty()
    } else {
        let before = bound(template, names.drop_last());
        if contains(template, placeholder(names.last())) {
            before.push((names.len() - 1) as usize)
        } else {
            before
        }
    }
}

/// A parameter is bound exactly if its marker stands in the template, and
/// the bound positions come in strictly increasing order, which is
/// declaration order.
pub proof fn lemma_bound(template: Seq<char>, names: Seq<Seq<char>>)
    requires
        names.len() <= usize::MAX,
    ensures
        forall|i: int|
            0 <= i < bound(template, names).len() ==> {
                let k = #[trigger] bound(template, names)[i];
                k < names.len() && contains(template, placeholder(names[k as int]))
            },
        forall|k: int|
            0 <= k < names.len() && contains(template, placeholder(#[trigger] names[k]))
                ==> bound(template, names).contains(k as usize),
        forall|i: int, j: int|
            0 <= i < j < bound(template, names).len() ==> bound(template, names)[i] < bound(
                template,
                names,
            )[j],
        bound(template, names).len() <= names.len(),
    decreases names.len(),
{
    if names.len() > 0 {
        let shorter = names.drop_last();
        let before = bound(template, shorter);
        let now = bound(template, names);
        lemma_bound(template, shorter);
        assert forall|k: int|
            0 <= k < names.len() && contains(
                template,
                placeholder(#[trigger] names[k]),
            ) implies now.contains(k as usize) by {
            if k < names.len() - 1 {
                assert(shorter[k] == names[k]);
                assert(before.contains(k as usize));
                let i = choose|i: int| 0 <= i < before.len() && before[i] == k as usize;
                assert(now[i] == k as usize);
            } else {
                assert(now[now.len() - 1] == k as usize);
            }
        }
        assert forall|i: int| 0 <= i < now.len() implies ({
            let k = #[trigger] now[i];
            k < names.len() && contains(template, placeholder(names[k as int]))
        }) by {
            if i < before.len() {
                assert(now[i] == before[i]);
                assert(shorter[before[i] as int] == names[before[i] as int]);
            }
        }
    }
}

/// Finds the parameters whose marker stands in the template. The result
/// lists their positions in declaration order, whatever the order of the
/// markers in the template; a parameter without a marker is left out.
pub fn bind_placeholders(template: &str, params: &Vec<Param>) -> (bindings: Vec<usize>)
    ensures
        bindings@ == bound(template@, names(params@)),
        forall|i: int| 0 <= i < bindings.len() ==> (#[trigger] bindings[i]) < params.len(),
{
    let mut bindings: Vec<usize> = Vec::new();
    let mut i: usize = 0;
    while i < params.len()
        invariant
            i <= params.len(),
            bindings@ == bound(template@, names(params@).take(i as int)),
            forall|j: int| 0 <= j < bindings.len() ==> (#[trigger] bindings[j]) < i,
        decreases params.len() - i,
    {
        proof {
            assert(names(params@).take(i + 1).drop_last() =~= names(params@).take(i as int));
        }
        let marker = placeholder_of(params[i].ident.as_str());
        if text_contains(template, marker.as_str()) {
            bindings.push(i);
        }
        i += 1;
    }
    proof {
        assert(names(params@).take(i as int) =~= names(params@));
    }
    bindings
}

/// One entry of the substitution list of a call: a parameter's name and the
/// text of its value.
#[derive(Clone, Debug, PartialEq, Eq)]
pub struct Substitution {
    pub name: String,
    pub value: String,
}

/// The names and values of a substitution list.
pub open spec fn pairs(list: Seq<Substitution>) -> Seq<(Seq<char>, Seq<char>)> {
    Seq::new(list.len(), |i: int| (list[i].name@, list[i].value@))
}

/// The first entry at or after `from` whose marker stands in `template` at
/// position `at`.
pub open spec fn first_match(
    template: Seq<char>,
    at: int,
    list: Seq<(Seq<char>, Seq<char>)>,
    from: int,
) -> Option<int>
    decreases list.len() - from,
{
    if from < 0 || from >= list.len() {
        None
    } else if occurs_at(template, placeholder(list[from].0), at) {
        Some(from)
    } else {
        first_match(template, at, list, from + 1)
    }
}

/// The entry found by `first_match` has its marker at `at`, and no entry
/// before it has; where it finds none, no entry from `from` on has.
pub proof fn lemma_first_match(
    template: Seq<char>,
    at: int,
    list: Seq<(Seq<char>, Seq<char>)>,
    from: int,
)
    requires
        0 <= from,
    ensures
        match first_match(template, at, list, from) {
            Some(k) => {
                &&& from <= k < list.len()
                &&& occurs_at(template, placeholder(list[k].0), at)
                &&& at + list[k].0.len() + 2 <= template.len()
                &&& forall|j: int|
                    from <= j < k ==> !occurs_at(template, placeholder(#[trigger] list[j].0), at)
            },
            None => forall|j: int|
                from <= j < list.len() ==> !occurs_at(
                    template,
                    placeholder(#[trigger] list[j].0),
                    at,
                ),
        },
    decreases list.len() - from,
{
    if from < list.len() && !occurs_at(template, placeholder(list[from].0), at) {
        lemma_first_match(template, at, list, from + 1);
    }
}

/// The text that `template` gives from position `at` on: where the marker
/// of an entry stands, the entry's value takes its place (the first such
/// entry, if several do); any other character stands for itself. Values are
/// not read again for markers.
pub open spec fn formatted_from(
    template: Seq<char>,
    list: Seq<(Seq<char>, Seq<char>)>,
    at: int,
) -> Seq<char>
    decreases template.len() - at,
    via formatted_from_decreases
{
    if at < 0 || at >= template.len() {
        Seq::empty()
    } else {
        match first_match(template, at, list, 0) {
            Some(k) => list[k].1 + formatted_from(
                template,
                list,
                at + list[k].0.len() + 2,
            ),
            None => seq![template[at]] + formatted_from(template, list, at + 1),
        }
    }
}

#[via_fn]
proof fn formatted_from_decreases(
    template: Seq<char>,
    list: Seq<(Seq<char>, Seq<char>)>,
    at: int,
) {
    lemma_first_match(template, at, list, 0);
}

/// The text that `template` gives under a substitution list.
pub open spec fn formatted(template: Seq<char>, list: Seq<(Seq<char>, Seq<char>)>) -> Seq<char> {
    formatted_from(template, list, 0)
}

/// From `at` on, a template in which the marker of no entry stands is
/// formatted to its own text.
proof fn lemma_formatted_tail(template: Seq<char>, list: Seq<(Seq<char>, Seq<char>)>, at: int)
    requires
        0 <= at <= template.len(),
        forall|j: int, i: int|
            0 <= j < list.len() ==> !#[trigger] occurs_at(template, placeholder(list[j].0), i),
    ensures
        formatted_from(template, list, at) == template.subrange(at, template.len() as int),
    decreases template.len() - at,
{
    if at < template.len() {
        lemma_first_match(template, at, list, 0);
        lemma_formatted_tail(template, list, at + 1);
        assert(seq![template[at]] + template.subrange(at + 1, template.len() as int)
            =~= template.subrange(at, template.len() as int));
    } else {
        assert(template.subrange(at, template.len() as int) =~= Seq::<char>::empty());
    }
}

/// A template in which the marker of no entry stands is formatted to
/// itself: what is not the marker of an entry stays as it is, braces and
/// the markers of other names included.
pub proof fn lemma_formatted_unmatched(template: Seq<char>, list: Seq<(Seq<char>, Seq<char>)>)
    requires
        forall|j: int, i: int|
            0 <= j < list.len() ==> !#[trigger] occurs_at(template, placeholder(list[j].0), i),
    ensures
        formatted(template, list) == template,
{
    lemma_formatted_tail(template, list, 0);
    assert(template.subrange(0, template.len() as int) =~= template);
}

/// A template that is the marker of the first entry, and nothing else, is
/// formatted to that entry's value.
pub proof fn lemma_formatted_marker(list: Seq<(Seq<char>, Seq<char>)>)
    requires
        list.len() > 0,
    ensures
        formatted(placeholder(list[0].0), list) == list[0].1,
{
    let template = placeholder(list[0].0);
    assert(template.subrange(0, template.len() as int) =~= template);
    assert(occurs_at(template, template, 0));
    assert(first_match(template, 0, list, 0) == Some(0int));
    assert(formatted_from(template, list, template.len() as int) == Seq::<char>::empty());
    assert(list[0].1 + Seq::<char>::empty() =~= list[0].1);
}

/// Finds the first entry whose marker stands in `template` at `at`.
fn match_at(template: &str, at: usize, markers: &Vec<String>, Ghost(list): Ghost<
    Seq<(Seq<char>, Seq<char>)>,
>) -> (found: Option<usize>)
    requires
        markers.len() == list.len(),
        forall|i: int| 0 <= i < markers.len() ==> (#[trigger] markers[i])@ == placeholder(list[i].0),
    ensures
        match found {
            Some(k) => first_match(template@, at as int, list, 0) == Some(k as int) && k
                < markers.len(),
            None => first_match(template@, at as int, list, 0) is None,
        },
{
    let mut i: usize = 0;
    while i < markers.len()
        invariant
            i <= markers.len(),
            markers.len() == list.len(),
            forall|i: int|
                0 <= i < markers.len() ==> (#[trigger] markers[i])@ == placeholder(list[i].0),
            first_match(template@, at as int, list, 0) == first_match(
                template@,
                at as int,
                list,
                i as int,
            ),
        decreases markers.len() - i,
    {
        if text_occurs_at(template, markers[i].as_str(), at) {
            return Some(i);
        }
        i += 1;
    }
    None
}

/// Formats a path template: every marker `{name}` of an entry of `list` is
/// replaced by the entry's value, and all other text is kept as it is.
pub fn format_path(template: &str, list: &Vec<Substitution>) -> (path: String)
    ensures
        path@ == formatted(template@, pairs(list@)),
{
    let ghost entries = pairs(list@);
    let mut markers: Vec<String> = Vec::new();
    let mut i: usize = 0;
    while i < list.len()
        invariant
            i <= list.len(),
            markers.len() == i,
            entries == pairs(list@),
            forall|j: int| 0 <= j < i ==> (#[trigger] markers[j])@ == placeholder(entries[j].0),
        decreases list.len() - i,
    {
        markers.push(placeholder_of(list[i].name.as_str()));
        i += 1;
    }
    let n: usize = template.unicode_len();
    let mut path = String::new();
    let mut at: usize = 0;
    while at < n
        invariant
            at <= n,
            n == template@.len(),
            entries == pairs(list@),
            markers.len() == list.len(),
            forall|j: int|
                0 <= j < markers.len() ==> (#[trigger] markers[j])@ == placeholder(entries[j].0),
            path@ + formatted_from(template@, entries, at as int) == formatted(template@, entries),
        decreases n - at,
    {
        let ghost rest = formatted_from(template@, entries, at as int);
        let ghost so_far = path@;
        match match_at(template, at, &markers, Ghost(entries)) {
            Some(k) => {
                let width: usize = markers[k].as_str().unicode_len();
                proof {
                    lemma_first_match(template@, at as int, entries, 0);
                    assert(occurs_at(template@, placeholder(entries[k as int].0), at as int));
                    assert(width == entries[k as int].0.len() + 2);
                }
                path.append(list[k].value.as_str());
                at += width;
                proof {
                    let tail = formatted_from(template@, entries, at as int);
                    assert(rest == entries[k as int].1 + tail);
                    assert(path@ + tail =~= so_far + rest);
                }
            },
            None => {
                path.append(template.substring_char(at, at + 1));
                at += 1;
                proof {
                    let tail = formatted_from(template@, entries, at as int);
                    assert(template@.subrange(at - 1, at as int) =~= seq![template@[at - 1]]);
                    assert(path@ + tail =~= so_far + rest);
                }
            },
        }
    }
    proof {
        assert(path@ + Seq::<char>::empty() =~= path@);
    }
    path
}

/// Where a request's body comes from.
#[derive(Clone, Debug, PartialEq, Eq)]
pub enum BodyBinding {
    /// The operation sends no body.
    Absent,
    /// The parameter at this position supplies the body.
    Parameter(usize),
    /// A value of this name in the scope of the call supplies the body; it
    /// is not held against the declared parameters.
    Ambient(String),
}

/// The text is at least two characters long, starts with `{` and ends with
/// `}`.
pub open spec fn braced(text: Seq<char>) -> bool {
    text.len() >= 2 && text[0] == '{' && text[text.len() - 1] == '}'
}

/// The text between the first and the last character.
pub open spec fn inner(text: Seq<char>) -> Seq<char> {
    text.subrange(1, text.len() - 1)
}

/// The position of the first name at or after `from` that equals `name`.
pub open spec fn first_named(names: Seq<Seq<char>>, name: Seq<char>, from: int) -> Option<int>
    decreases names.len() - from,
{
    if from < 0 || from >= names.len() {
        None
    } else if names[from] == name {
        Some(from)
    } else {
        first_named(names, name, from + 1)
    }
}

/// `first_named` finds a position exactly if some name from `from` on equals
/// `name`, and then the first such.
pub proof fn lemma_first_named(names: Seq<Seq<char>>, name: Seq<char>, from: int)
    requires
        0 <= from,
    ensures
        match first_named(names, name, from) {
            Some(k) => {
                &&& from <= k < names.len()
                &&& names[k] == name
                &&& forall|j: int| from <= j < k ==> #[trigger] names[j] != name
            },
            None => forall|j: int| from <= j < names.len() ==> #[trigger] names[j] != name,
        },
    decreases names.len() - from,
{
    if from < names.len() && names[from] != name {
        lemma_first_named(names, name, from + 1);
    }
}

/// Finds the first parameter named `name`.
pub fn find_param(params: &Vec<Param>, name: &str) -> (found: Option<usize>)
    ensures
        match found {
            Some(k) => first_named(names(params@), name@, 0) == Some(k as int) && k
                < params.len(),
            None => first_named(names(params@), name@, 0) is None,
        },
{
    let mut i: usize = 0;
    while i < params.len()
        invariant
            i <= params.len(),
            first_named(names(params@), name@, 0) == first_named(names(params@), name@, i as int),
        decreases params.len() - i,
    {
        if same_text(params[i].ident.as_str(), name) {
            return Some(i);
        }
        i += 1;
    }
    None
}

/// What the body source `data` resolves to among the parameters `names`:
/// nothing where it is absent; the first parameter of the name between the
/// braces where it is braced, and no binding at all where there is none of
/// that name; an ambient reference to the whole text otherwise.
pub open spec fn resolved(data: Option<Seq<char>>, names: Seq<Seq<char>>) -> Option<
    ResolvedBody,
> {
    match data {
        None => Some(ResolvedBody::Absent),
        Some(text) => if braced(text) {
            match first_named(names, inner(text), 0) {
                Some(k) => Some(ResolvedBody::Parameter(k)),
                None => None,
            }
        } else {
            Some(ResolvedBody::Ambient(text))
        },
    }
}

/// The mathematical form of a body binding.
pub ghost enum ResolvedBody {
    Absent,
    Parameter(int),
    Ambient(Seq<char>),
}

impl View for BodyBinding {
    type V = ResolvedBody;

    open spec fn view(&self) -> ResolvedBody {
        match self {
            BodyBinding::Absent => ResolvedBody::Absent,
            BodyBinding::Parameter(k) => ResolvedBody::Parameter(*k as int),
            BodyBinding::Ambient(name) => ResolvedBody::Ambient(name@),
        }
    }
}

/// Resolves the body source of the operation named `operation`. A source
/// in braces must name a declared parameter, else the operation is
/// rejected; a source without braces is taken as an ambient reference; no
/// source means no body.
pub fn resolve_body(operation: &str, data: &Option<String>, params: &Vec<Param>) -> (result:
    Result<BodyBinding, DescriptionError>)
    ensures
        match result {
            Ok(binding) => resolved(crate::text::optional_text(*data), names(params@)) == Some(
                binding@,
            ) && (binding matches BodyBinding::Parameter(k) ==> k < params.len()),
            Err(e) => resolved(crate::text::optional_text(*data), names(params@)) is None
                && data is Some && e.is_unbound_body(operation@, inner(data->0@)),
        },
{
    match data {
        None => Ok(BodyBinding::Absent),
        Some(text) => {
            let source = text.as_str();
            let n: usize = source.unicode_len();
            if n >= 2 && source.get_char(0) == '{' && source.get_char(n - 1) == '}' {
                let name = source.substring_char(1, n - 1);
                match find_param(params, name) {
                    Some(k) => Ok(BodyBinding::Parameter(k)),
                    None => Err(
                        DescriptionError::UnboundBodyParameter {
                            operation: String::from_str(operation),
                            parameter: String::from_str(name),
                        },
                    ),
                }
            } else {
                Ok(BodyBinding::Ambient(String::from_str(source)))
            }
        },
    }
}

} // verus!
