//! Communication parameters of a database: the values their references give them, simple or
//! complex, and the lookup of a parameter by protocol and name.
use vstd::prelude::*;
use crate::error::{debug_str, debug_text, decimal, push_decimal, push_text, text, DiagServiceError};
use crate::com_params::{ComParamConfig, DeserializableCompParam};
use crate::text::str_eq;

verus! {

/// The simple value of a communication parameter, its text. (The unit a database may give
/// with it is not held.)
#[derive(Clone, Debug)]
pub struct ComParamSimpleValue {
    pub value: String,
}

/// The value of a communication parameter: a simple value, or the entries of a complex value
/// by name, in the order of the members (where a name occurs twice, the later entry counts).
#[derive(Debug)]
pub enum ComParamValue {
    Simple(ComParamSimpleValue),
    Complex(Vec<(String, ComParamValue)>),
}

/// A communication parameter value as contracts speak of it: texts in place of strings.
pub enum ComParamView {
    Simple(Seq<char>),
    Complex(Seq<(Seq<char>, ComParamView)>),
}

/// The view of a value.
pub open spec fn view_of(v: ComParamValue) -> ComParamView
    decreases v,
{
    match v {
        ComParamValue::Simple(s) => ComParamView::Simple(s.value@),
        ComParamValue::Complex(entries) => ComParamView::Complex(
            Seq::new(
                entries@.len(),
                |i: int|
                    if 0 <= i < entries@.len() {
                        (entries@[i].0@, view_of(entries@[i].1))
                    } else {
                        (Seq::empty(), ComParamView::Simple(Seq::empty()))
                    },
            ),
        ),
    }
}

/// The value of the last entry named `name` of the complex value entries `entries` (as a map
/// keeps the last of several inserts under one name).
pub open spec fn view_entry(entries: Seq<(Seq<char>, ComParamView)>, name: Seq<char>) -> Option<
    ComParamView,
>
    decreases entries.len(),
{
    if entries.len() == 0 {
        None
    } else if entries.last().0 == name {
        Some(entries.last().1)
    } else {
        view_entry(entries.drop_last(), name)
    }
}

/// The views of the entries of a complex value.
pub open spec fn entry_views(entries: Seq<(String, ComParamValue)>) -> Seq<(Seq<char>, ComParamView)> {
    Seq::new(entries.len(), |i: int| (entries[i].0@, view_of(entries[i].1)))
}

/// The view of a complex value is the views of its entries.
pub proof fn lemma_view_of_complex(entries: Vec<(String, ComParamValue)>)
    ensures
        view_of(ComParamValue::Complex(entries)) == ComParamView::Complex(entry_views(entries@)),
{
    match view_of(ComParamValue::Complex(entries)) {
        ComParamView::Complex(s) => assert(s =~= entry_views(entries@)),
        ComParamView::Simple(_) => {},
    }
}

/// The value of the last entry named `name` of `entries`.
pub(crate) fn find_complex_entry<'a>(entries: &'a Vec<(String, ComParamValue)>, name: &str) -> (r:
    Option<&'a ComParamValue>)
    ensures
        match view_entry(entry_views(entries@), name@) {
            Some(v) => r matches Some(x) && view_of(*x) == v,
            None => r is None,
        },
{
    let ghost ev = entry_views(entries@);
    let mut i: usize = entries.len();
    assert(ev.subrange(0, ev.len() as int) =~= ev);
    while i > 0
        invariant
            i <= entries@.len(),
            ev == entry_views(entries@),
            view_entry(ev, name@) == view_entry(ev.subrange(0, i as int), name@),
        decreases i,
    {
        let ghost head = ev.subrange(0, i as int);
        assert(head.last() == (entries@[i - 1].0@, view_of(entries@[i - 1].1)));
        if str_eq(entries[i - 1].0.as_str(), name) {
            return Some(&entries[i - 1].1);
        }
        assert(head.drop_last() =~= ev.subrange(0, i - 1));
        i = i - 1;
    }
    None
}

/// The type of a communication parameter in the database.
#[derive(Debug, Clone, Copy, PartialEq, Eq, Structural)]
pub enum ComParamType {
    Regular,
    Complex,
    /// A type this resolution does not know.
    Other,
}

/// The data of a regular communication parameter that resolution reads: whether it has a
/// data operation (which gives the unit of its values).
#[derive(Debug, Clone, Copy)]
pub struct RegularComParam {
    pub has_dop: bool,
}

/// The data of a complex communication parameter: its members, where the database lists any.
#[derive(Debug)]
pub struct ComplexComParam {
    pub com_params: Option<Vec<ComParam>>,
}

/// The type specific data of a communication parameter, as the database gives it.
#[derive(Debug)]
pub enum ComParamSpecificData {
    Regular(RegularComParam),
    Complex(ComplexComParam),
    /// No or other data.
    NoData,
}

/// A communication parameter of the database: its short name, type and type specific data.
#[derive(Debug)]
pub struct ComParam {
    pub short_name: Option<String>,
    pub com_param_type: ComParamType,
    pub specific_data: ComParamSpecificData,
}

/// A simple value given for a parameter, with its text where the database gives one.
#[derive(Debug, Clone)]
pub struct SimpleValue {
    pub value: Option<String>,
}

/// An entry of a complex value: a simple value, a complex value, or none.
#[derive(Debug, Clone)]
pub enum ComplexValueEntry {
    Simple(SimpleValue),
    Complex,
    Missing,
}

/// A complex value given for a complex parameter: the entry of each member by position.
#[derive(Debug, Clone)]
pub struct ComplexValue {
    pub entries: Vec<ComplexValueEntry>,
}

/// A reference of a diagnostic layer to a communication parameter: the short name of the
/// protocol it applies to, the value it gives and the parameter.
#[derive(Debug)]
pub struct ComParamRef {
    pub protocol_name: Option<String>,
    pub simple_value: Option<SimpleValue>,
    pub complex_value: Option<ComplexValue>,
    pub com_param: Option<ComParam>,
}

/// The entry of the complex value `cv` for member `i`; `Missing` past its entries.
pub open spec fn entry_at(cv: ComplexValue, i: int) -> ComplexValueEntry {
    if 0 <= i < cv.entries@.len() {
        cv.entries@[i]
    } else {
        ComplexValueEntry::Missing
    }
}

/// The outcome of resolving a parameter: its name and value, or the message of the invalid
/// database error.
pub type Resolved = Result<(Seq<char>, ComParamView), Seq<char>>;

/// The message for a member without a value at its position.
pub open spec fn no_entry_message(name: Seq<char>, i: int) -> Seq<char> {
    "ComplexValue entry for ComParam "@ + name + " at index "@ + decimal(i as nat)
        + " has no value"@
}

/// The outcome of member `child` at position `i` of a complex parameter whose value is `cv`;
/// `nested` is the outcome of resolving `child` itself against `cv`, used for a complex
/// member with a complex entry.
pub open spec fn member_outcome(child: ComParam, i: int, cv: ComplexValue, nested: Resolved) -> Resolved {
    match child.short_name {
        None => Err("ComParam has no short name"@),
        Some(n) => match child.com_param_type {
            ComParamType::Regular => match child.specific_data {
                ComParamSpecificData::Regular(_) => match entry_at(cv, i) {
                    ComplexValueEntry::Simple(sv) => match sv.value {
                        Some(v) => Ok((n@, ComParamView::Simple(v@))),
                        None => Err("ComParam "@ + n@ + " has no simple value"@),
                    },
                    ComplexValueEntry::Complex => Err(
                        "ComParam "@ + n@ + " is not a complex ComParam"@,
                    ),
                    ComplexValueEntry::Missing => Err(no_entry_message(n@, i)),
                },
                _ => Err("ComParam "@ + n@ + " is not regular, but has regular type"@),
            },
            ComParamType::Complex => match entry_at(cv, i) {
                ComplexValueEntry::Simple(_) => Err("ComParam "@ + n@ + " is not a simple ComParam"@),
                ComplexValueEntry::Complex => nested,
                ComplexValueEntry::Missing => Err(no_entry_message(n@, i)),
            },
            ComParamType::Other => Err("ComParam "@ + n@ + " has unknown type"@),
        },
    }
}

/// The first error among `outcomes`, if any.
pub open spec fn first_error(outcomes: Seq<Resolved>) -> Option<Seq<char>>
    decreases outcomes.len(),
{
    if outcomes.len() == 0 {
        None
    } else {
        match first_error(outcomes.drop_last()) {
            Some(m) => Some(m),
            None => match outcomes.last() {
                Err(m) => Some(m),
                Ok(_) => None,
            },
        }
    }
}

/// The resolved entries of `outcomes`, in order.
pub open spec fn resolved_entries(outcomes: Seq<Resolved>) -> Seq<(Seq<char>, ComParamView)>
    decreases outcomes.len(),
{
    if outcomes.len() == 0 {
        Seq::empty()
    } else {
        resolved_entries(outcomes.drop_last()) + match outcomes.last() {
            Ok(e) => seq![e],
            Err(_) => Seq::empty(),
        }
    }
}

/// The outcomes of the members `members` of a complex parameter resolved against `cv`.
pub open spec fn member_outcomes(members: Seq<ComParam>, cv: ComplexValue) -> Seq<Resolved>
    decreases members,
{
    Seq::new(
        members.len(),
        |i: int|
            if 0 <= i < members.len() {
                member_outcome(members[i], i, cv, resolve_complex_spec(members[i], cv))
            } else {
                Err(Seq::empty())
            },
    )
}

/// What a complex parameter `cp` resolves to against the complex value `cv`: its name and
/// the entries of its members, each resolved against `cv` by its position, or the first
/// error among them. (A complex member with a complex entry is resolved against `cv` again.)
pub open spec fn resolve_complex_spec(cp: ComParam, cv: ComplexValue) -> Resolved
    decreases cp,
{
    match cp.short_name {
        None => Err("ComParamRef has no short name"@),
        Some(name) => match cp.specific_data {
            ComParamSpecificData::Complex(c) => match c.com_params {
                None => Err("Complex ComParam "@ + name@ + " has no comParams"@),
                Some(list) => {
                    let outcomes = member_outcomes(list@, cv);
                    match first_error(outcomes) {
                        Some(m) => Err(m),
                        None => Ok((name@, ComParamView::Complex(resolved_entries(outcomes)))),
                    }
                },
            },
            _ => Err("ComParam "@ + name@ + " is not complex, but has complex type"@),
        },
    }
}

/// Whether `r` is the outcome `o`: the name and a value of its view, or an invalid database
/// error with its message.
pub open spec fn is_outcome(r: Result<(String, ComParamValue), DiagServiceError>, o: Resolved) -> bool {
    match o {
        Ok((n, v)) => r matches Ok((rn, rv)) && rn@ == n && view_of(rv) == v,
        Err(m) => r matches Err(DiagServiceError::InvalidDatabase(e)) && e@ == m,
    }
}


/// An invalid database error with the message `a`, `n`, `b`.
fn invalid_database(a: &str, n: &str, b: &str) -> (r: DiagServiceError)
    ensures
        r matches DiagServiceError::InvalidDatabase(e) && e@ == a@ + n@ + b@,
{
    let mut m = String::new();
    push_text(&mut m, a);
    push_text(&mut m, n);
    push_text(&mut m, b);
    DiagServiceError::InvalidDatabase(m)
}

/// The invalid database error for member `n` without a value at position `i`.
fn no_entry_error(n: &str, i: usize) -> (r: DiagServiceError)
    ensures
        r matches DiagServiceError::InvalidDatabase(e) && e@ == no_entry_message(n@, i as int),
{
    let mut m = String::new();
    push_text(&mut m, "ComplexValue entry for ComParam ");
    push_text(&mut m, n);
    push_text(&mut m, " at index ");
    push_decimal(&mut m, i as u64);
    push_text(&mut m, " has no value");
    DiagServiceError::InvalidDatabase(m)
}

/// An error within the first `k` outcomes is the first error of all of them.
proof fn lemma_first_error_prefix(outcomes: Seq<Resolved>, k: int)
    requires
        0 <= k <= outcomes.len(),
        first_error(outcomes.subrange(0, k)) is Some,
    ensures
        first_error(outcomes) == first_error(outcomes.subrange(0, k)),
    decreases outcomes.len() - k,
{
    if k < outcomes.len() {
        let next = outcomes.subrange(0, k + 1);
        assert(next.drop_last() =~= outcomes.subrange(0, k));
        lemma_first_error_prefix(outcomes, k + 1);
    } else {
        assert(outcomes.subrange(0, k) =~= outcomes);
    }
}

/// Resolves the complex parameter `com_param` against the complex value `complex_value`:
/// its short name and the entries of its members, each resolved against the value's entry at
/// its position (a complex member with a complex entry against `complex_value` again), or
/// an invalid database error for the first member that fails, or for a parameter without a
/// short name, members or complex data.
pub fn resolve_complex_value(com_param: &ComParam, complex_value: &ComplexValue) -> (r: Result<
    (String, ComParamValue),
    DiagServiceError,
>)
    requires
        com_param.com_param_type == ComParamType::Complex,
    ensures
        is_outcome(r, resolve_complex_spec(*com_param, *complex_value)),
    decreases com_param,
{
    let name = match &com_param.short_name {
        None => {
            return Err(DiagServiceError::InvalidDatabase(text("ComParamRef has no short name")));
        },
        Some(n) => n,
    };
    let list = match &com_param.specific_data {
        ComParamSpecificData::Complex(c) => match &c.com_params {
            None => {
                return Err(invalid_database("Complex ComParam ", name.as_str(), " has no comParams"));
            },
            Some(list) => list,
        },
        _ => {
            return Err(
                invalid_database("ComParam ", name.as_str(), " is not complex, but has complex type"),
            );
        },
    };
    let ghost cv = *complex_value;
    let ghost outcomes = member_outcomes(list@, cv);
    assert(resolve_complex_spec(*com_param, cv) == match first_error(outcomes) {
        Some(m) => Err(m),
        None => Ok((name@, ComParamView::Complex(resolved_entries(outcomes)))),
    });
    let mut entries: Vec<(String, ComParamValue)> = Vec::new();
    let mut i: usize = 0;
    assert(outcomes.subrange(0, 0) =~= Seq::<Resolved>::empty());
    assert(entry_views(entries@) =~= Seq::<(Seq<char>, ComParamView)>::empty());
    while i < list.len()
        invariant
            i <= list@.len(),
            cv == *complex_value,
            outcomes == member_outcomes(list@, cv),
            resolve_complex_spec(*com_param, cv) == match first_error(outcomes) {
                Some(m) => Err(m),
                None => Ok((name@, ComParamView::Complex(resolved_entries(outcomes)))),
            },
            com_param.specific_data matches ComParamSpecificData::Complex(c) && c.com_params == Some(*list),
            first_error(outcomes.subrange(0, i as int)) is None,
            entry_views(entries@) == resolved_entries(outcomes.subrange(0, i as int)),
        decreases list@.len() - i,
    {
        let child = &list[i];
        let entry: Option<&ComplexValueEntry> = if i < complex_value.entries.len() {
            Some(&complex_value.entries[i])
        } else {
            None
        };
        proof {
            assert(outcomes[i as int] == member_outcome(
                list@[i as int],
                i as int,
                cv,
                resolve_complex_spec(list@[i as int], cv),
            ));
            match entry {
                Some(e) => assert(entry_at(cv, i as int) == *e),
                None => assert(entry_at(cv, i as int) == ComplexValueEntry::Missing),
            }
        }
        let outcome: Result<(String, ComParamValue), DiagServiceError> = match &child.short_name {
            None => Err(DiagServiceError::InvalidDatabase(text("ComParam has no short name"))),
            Some(n) => match child.com_param_type {
                ComParamType::Regular => match &child.specific_data {
                    ComParamSpecificData::Regular(_) => match entry {
                        Some(ComplexValueEntry::Simple(sv)) => match &sv.value {
                            Some(v) => Ok(
                                (n.clone(), ComParamValue::Simple(ComParamSimpleValue { value: v.clone() })),
                            ),
                            None => Err(invalid_database("ComParam ", n.as_str(), " has no simple value")),
                        },
                        Some(ComplexValueEntry::Complex) => Err(
                            invalid_database("ComParam ", n.as_str(), " is not a complex ComParam"),
                        ),
                        _ => Err(no_entry_error(n.as_str(), i)),
                    },
                    _ => Err(
                        invalid_database(
                            "ComParam ",
                            n.as_str(),
                            " is not regular, but has regular type",
                        ),
                    ),
                },
                ComParamType::Complex => match entry {
                    Some(ComplexValueEntry::Simple(_)) => Err(
                        invalid_database("ComParam ", n.as_str(), " is not a simple ComParam"),
                    ),
                    Some(ComplexValueEntry::Complex) => {
                        resolve_complex_value(child, complex_value)
                    },
                    _ => Err(no_entry_error(n.as_str(), i)),
                },
                ComParamType::Other => Err(
                    invalid_database("ComParam ", n.as_str(), " has unknown type"),
                ),
            },
        };
        assert(is_outcome(outcome, outcomes[i as int]));
        proof {
            let pre = outcomes.subrange(0, i as int);
            let next = outcomes.subrange(0, i + 1);
            assert(next.drop_last() =~= pre);
            assert(next.last() == outcomes[i as int]);
        }
        match outcome {
            Err(e) => {
                proof {
                    lemma_first_error_prefix(outcomes, i as int + 1);
                }
                return Err(e);
            },
            Ok(entry) => {
                let ghost before = entries@;
                entries.push(entry);
                proof {
                    assert(entry_views(entries@) =~= entry_views(before) + seq![
                        (entry.0@, view_of(entry.1)),
                    ]);
                }
            },
        }
        i = i + 1;
    }
    proof {
        assert(outcomes.subrange(0, list@.len() as int) =~= outcomes);
        lemma_view_of_complex(entries);
    }
    Ok((name.clone(), ComParamValue::Complex(entries)))
}

/// The `Debug` text of an optional name (std `{:?}` of an `Option<&str>`).
pub open spec fn debug_option_name(n: Option<String>) -> Seq<char> {
    match n {
        Some(s) => "Some("@ + debug_str(s@) + ")"@,
        None => "None"@,
    }
}

/// Whether the value the reference `cpref` gives fits the type of its parameter `cp` where
/// resolution reads it: a simple value with a text belongs to a regular parameter, a complex
/// value (without a simple one) to a complex parameter.
pub open spec fn value_fits_type(cpref: ComParamRef, cp: ComParam) -> bool {
    !(cpref.simple_value is Some && cpref.complex_value is Some) && cp.short_name is Some ==> (
    (cpref.simple_value matches Some(sv) && sv.value is Some ==> cp.com_param_type
        == ComParamType::Regular) && (cpref.simple_value is None && cpref.complex_value is Some
        ==> cp.com_param_type == ComParamType::Complex))
}

/// What the reference `cpref` to the parameter `cp` resolves to: the parameter's name with
/// the simple value's text (a regular parameter with a data operation) or its complex value
/// resolved; an error where the reference gives both kinds of value or none, or the
/// parameter lacks a name, a text or a data operation.
pub open spec fn resolve_with_value_spec(cpref: ComParamRef, cp: ComParam) -> Resolved {
    if cpref.simple_value is Some && cpref.complex_value is Some {
        Err(
            "ComParamRef for "@ + debug_option_name(cp.short_name)
                + " has both simple and complex value"@,
        )
    } else {
        match cp.short_name {
            None => Err("ComParamRef has no short name"@),
            Some(name) => match cpref.simple_value {
                Some(sv) => match sv.value {
                    None => Err("ComParamRef for "@ + name@ + " has no simple value"@),
                    Some(v) => match cp.specific_data {
                        ComParamSpecificData::Regular(r) => if r.has_dop {
                            Ok((name@, ComParamView::Simple(v@)))
                        } else {
                            Err("ComParamRef for "@ + name@ + " has no data operation"@)
                        },
                        _ => Err("ComParam "@ + name@ + " is not regular, but has regular type"@),
                    },
                },
                None => match cpref.complex_value {
                    Some(cv) => resolve_complex_spec(cp, cv),
                    None => Err("ComParamRef for "@ + name@ + " has no value"@),
                },
            },
        }
    }
}

/// Resolves the reference `cpref` to the parameter `com_param`: the parameter's short name
/// and the value the reference gives it, a simple value's text (for a regular parameter with
/// a data operation) or its complex value resolved; fails with an invalid database error
/// where the reference gives both kinds of value or none, or the parameter lacks a short
/// name, a text or a data operation.
pub fn resolve_with_value(cpref: &ComParamRef, com_param: &ComParam) -> (r: Result<
    (String, ComParamValue),
    DiagServiceError,
>)
    requires
        value_fits_type(*cpref, *com_param),
    ensures
        is_outcome(r, resolve_with_value_spec(*cpref, *com_param)),
{
    if cpref.simple_value.is_some() && cpref.complex_value.is_some() {
        let mut m = String::new();
        push_text(&mut m, "ComParamRef for ");
        match &com_param.short_name {
            Some(n) => {
                push_text(&mut m, "Some(");
                push_text(&mut m, debug_text(n).as_str());
                push_text(&mut m, ")");
            },
            None => push_text(&mut m, "None"),
        }
        push_text(&mut m, " has both simple and complex value");
        assert(m@ =~= "ComParamRef for "@ + debug_option_name(com_param.short_name)
            + " has both simple and complex value"@);
        return Err(DiagServiceError::InvalidDatabase(m));
    }
    let name = match &com_param.short_name {
        None => {
            return Err(DiagServiceError::InvalidDatabase(text("ComParamRef has no short name")));
        },
        Some(n) => n,
    };
    match &cpref.simple_value {
        Some(sv) => match &sv.value {
            None => Err(invalid_database("ComParamRef for ", name.as_str(), " has no simple value")),
            Some(v) => match &com_param.specific_data {
                ComParamSpecificData::Regular(r) => {
                    if r.has_dop {
                        Ok(
                            (
                                name.clone(),
                                ComParamValue::Simple(ComParamSimpleValue { value: v.clone() }),
                            ),
                        )
                    } else {
                        Err(invalid_database("ComParamRef for ", name.as_str(), " has no data operation"))
                    }
                },
                _ => Err(
                    invalid_database("ComParam ", name.as_str(), " is not regular, but has regular type"),
                ),
            },
        },
        None => match &cpref.complex_value {
            Some(cv) => resolve_complex_value(com_param, cv),
            None => Err(invalid_database("ComParamRef for ", name.as_str(), " has no value")),
        },
    }
}

/// Resolves the reference `cpref` to its parameter as `resolve_with_value` does; fails with
/// an invalid database error when the reference has no parameter.
pub fn resolve_comparam(cpref: &ComParamRef) -> (r: Result<(String, ComParamValue), DiagServiceError>)
    requires
        cpref.com_param matches Some(cp) ==> value_fits_type(*cpref, cp),
    ensures
        match cpref.com_param {
            None => r matches Err(DiagServiceError::InvalidDatabase(e)) && e@
                == "ComParamRef has no ComParam"@,
            Some(cp) => is_outcome(r, resolve_with_value_spec(*cpref, cp)),
        },
{
    match &cpref.com_param {
        None => Err(DiagServiceError::InvalidDatabase(text("ComParamRef has no ComParam"))),
        Some(cp) => resolve_with_value(cpref, cp),
    }
}

/// Whether the reference `r` applies to the protocol named `protocol` and refers to the
/// parameter named `param`.
pub open spec fn refers_to(r: ComParamRef, protocol: Seq<char>, param: Seq<char>) -> bool {
    &&& r.protocol_name matches Some(p) && p@ == protocol
    &&& r.com_param matches Some(cp) && cp.short_name matches Some(n) && n@ == param
}

/// The position of the first of `refs` that applies to protocol `protocol` and refers to the
/// parameter `param`, if any.
pub open spec fn found_ref(refs: Seq<ComParamRef>, protocol: Seq<char>, param: Seq<char>) -> Option<
    int,
>
    decreases refs.len(),
{
    if refs.len() == 0 {
        None
    } else {
        match found_ref(refs.drop_last(), protocol, param) {
            Some(i) => Some(i),
            None => if refers_to(refs.last(), protocol, param) {
                Some(refs.len() - 1)
            } else {
                None
            },
        }
    }
}

/// The references of a layer, none where it lists none.
pub open spec fn refs_of(refs: Option<&Vec<ComParamRef>>) -> Seq<ComParamRef> {
    match refs {
        Some(v) => v@,
        None => Seq::empty(),
    }
}

/// Whether `i` is the first position of `refs` where `refers_to` holds.
proof fn lemma_found_ref_prefix(refs: Seq<ComParamRef>, protocol: Seq<char>, param: Seq<char>, k: int)
    requires
        0 <= k <= refs.len(),
        found_ref(refs.subrange(0, k), protocol, param) is None,
        k < refs.len() ==> refers_to(refs[k], protocol, param),
    ensures
        k < refs.len() ==> found_ref(refs, protocol, param) == Some(k),
        k == refs.len() ==> found_ref(refs, protocol, param) is None,
    decreases refs.len() - k,
{
    if k == refs.len() {
        assert(refs.subrange(0, k) =~= refs);
    } else {
        let next = refs.subrange(0, k + 1);
        assert(next.drop_last() =~= refs.subrange(0, k));
        assert(found_ref(next, protocol, param) == Some(k));
        lemma_found_prefix_stays(refs, protocol, param, k + 1);
    }
}

/// A reference found among the first `k` of `refs` is the one found among all of them.
proof fn lemma_found_prefix_stays(refs: Seq<ComParamRef>, protocol: Seq<char>, param: Seq<char>, k: int)
    requires
        0 <= k <= refs.len(),
        found_ref(refs.subrange(0, k), protocol, param) is Some,
    ensures
        found_ref(refs, protocol, param) == found_ref(refs.subrange(0, k), protocol, param),
    decreases refs.len() - k,
{
    if k == refs.len() {
        assert(refs.subrange(0, k) =~= refs);
    } else {
        let next = refs.subrange(0, k + 1);
        assert(next.drop_last() =~= refs.subrange(0, k));
        lemma_found_prefix_stays(refs, protocol, param, k + 1);
    }
}

/// A lookup selects a reference only by exactly the requested names: the reference found is
/// the first whose protocol's name equals the requested protocol name and whose parameter's
/// name equals the requested parameter name (a protocol whose name merely begins with the
/// requested one does not count); nothing is found exactly when no reference has both names,
/// and the lookup then fails with a not found error.
pub proof fn law_lookup_matches_names_exactly(
    refs: Seq<ComParamRef>,
    protocol: Seq<char>,
    param: Seq<char>,
)
    ensures
        found_ref(refs, protocol, param) matches Some(i) ==> {
            &&& 0 <= i < refs.len()
            &&& refs[i].protocol_name matches Some(p) && p@ == protocol
            &&& refs[i].com_param matches Some(cp) && cp.short_name matches Some(n) && n@ == param
            &&& forall|j: int|
                0 <= j < i ==> !{
                    &&& (#[trigger] refs[j]).protocol_name matches Some(p) && p@ == protocol
                    &&& refs[j].com_param matches Some(cp) && cp.short_name matches Some(n) && n@
                        == param
                }
        },
        found_ref(refs, protocol, param) is None <==> forall|j: int|
            0 <= j < refs.len() ==> !{
                &&& (#[trigger] refs[j]).protocol_name matches Some(p) && p@ == protocol
                &&& refs[j].com_param matches Some(cp) && cp.short_name matches Some(n) && n@
                    == param
            },
        lookup_outcome(Some(protocol), refs, param) is Err && (lookup_outcome(
            Some(protocol),
            refs,
            param,
        )->Err_0 is NotFound) <==> found_ref(refs, protocol, param) is None,
    decreases refs.len(),
{
    if refs.len() > 0 {
        let rest = refs.drop_last();
        let last = refs.len() - 1;
        law_lookup_matches_names_exactly(rest, protocol, param);
        match found_ref(rest, protocol, param) {
            Some(i) => {
                assert(rest[i] == refs[i]);
                assert forall|j: int| 0 <= j < i implies !{
                    &&& (#[trigger] refs[j]).protocol_name matches Some(p) && p@ == protocol
                    &&& refs[j].com_param matches Some(cp) && cp.short_name matches Some(n) && n@
                        == param
                } by {
                    assert(rest[j] == refs[j]);
                }
                assert(found_ref(refs, protocol, param) == Some(i));
                assert(!(forall|j: int|
                    0 <= j < refs.len() ==> !{
                        &&& (#[trigger] refs[j]).protocol_name matches Some(p) && p@ == protocol
                        &&& refs[j].com_param matches Some(cp) && cp.short_name matches Some(n)
                            && n@ == param
                    }));
            },
            None => {
                assert forall|j: int| 0 <= j < last implies !{
                    &&& (#[trigger] refs[j]).protocol_name matches Some(p) && p@ == protocol
                    &&& refs[j].com_param matches Some(cp) && cp.short_name matches Some(n) && n@
                        == param
                } by {
                    assert(rest[j] == refs[j]);
                    assert(!{
                        &&& (#[trigger] rest[j]).protocol_name matches Some(p) && p@ == protocol
                        &&& rest[j].com_param matches Some(cp) && cp.short_name matches Some(n)
                            && n@ == param
                    });
                }
                assert(refs.last() == refs[last]);
            },
        }
    }
    match found_ref(refs, protocol, param) {
        Some(i) => {
            match resolve_with_value_spec(refs[i], refs[i].com_param->Some_0) {
                Ok(_) => {},
                Err(_) => {},
            }
        },
        None => {},
    }
}

/// The text of an optional string.
pub open spec fn opt_text(s: Option<&str>) -> Option<Seq<char>> {
    match s {
        Some(t) => Some(t@),
        None => None,
    }
}

/// The errors a lookup ends in, with their messages.
pub enum LookupFailure {
    InvalidDatabase(Seq<char>),
    NotFound(Seq<char>),
}

/// Whether the reference a lookup of `param` for protocol `protocol_name` finds among `refs`
/// gives a value that fits its parameter's type.
pub open spec fn lookup_defined(protocol_name: Option<Seq<char>>, refs: Seq<ComParamRef>, param: Seq<
    char,
>) -> bool {
    protocol_name matches Some(p) ==> (found_ref(refs, p, param) matches Some(i) ==> value_fits_type(
        refs[i],
        refs[i].com_param->Some_0,
    ))
}

/// What a lookup of the parameter `param` for the protocol named `protocol_name` among the
/// references `refs` gives: the value of the first reference that applies to the protocol
/// and refers to a parameter of that name, resolved.
pub open spec fn lookup_outcome(protocol_name: Option<Seq<char>>, refs: Seq<ComParamRef>, param: Seq<
    char,
>) -> Result<ComParamView, LookupFailure> {
    match protocol_name {
        None => Err(LookupFailure::InvalidDatabase("Protocol has no short name"@)),
        Some(p) => match found_ref(refs, p, param) {
            None => Err(
                LookupFailure::NotFound("No ComParamRef found for "@ + param + " in protocol "@ + p),
            ),
            Some(i) => match resolve_with_value_spec(refs[i], refs[i].com_param->Some_0) {
                Ok((_, v)) => Ok(v),
                Err(m) => Err(LookupFailure::InvalidDatabase(m)),
            },
        },
    }
}

/// Whether `r` is the lookup outcome `o`.
pub open spec fn lookup_result_matches(
    r: Result<ComParamValue, DiagServiceError>,
    o: Result<ComParamView, LookupFailure>,
) -> bool {
    match o {
        Ok(v) => r matches Ok(rv) && view_of(rv) == v,
        Err(LookupFailure::InvalidDatabase(m)) => r matches Err(DiagServiceError::InvalidDatabase(e))
            && e@ == m,
        Err(LookupFailure::NotFound(m)) => r matches Err(DiagServiceError::NotFound(e)) && e@ == m,
    }
}

/// Looks up the value of the communication parameter `param_name` for the protocol named
/// `protocol_name` among the parameter references `refs` of the base variant: the first
/// reference that applies to the protocol and refers to a parameter of that name, resolved.
/// Fails with an invalid database error when the protocol has no name, with a not found error
/// when no reference fits, and as `resolve_with_value` when the reference does not resolve.
pub fn lookup(protocol_name: Option<&str>, refs: Option<&Vec<ComParamRef>>, param_name: &str) -> (r:
    Result<ComParamValue, DiagServiceError>)
    requires
        lookup_defined(opt_text(protocol_name), refs_of(refs), param_name@),
    ensures
        lookup_result_matches(r, lookup_outcome(opt_text(protocol_name), refs_of(refs), param_name@)),
{
    let protocol = match protocol_name {
        None => {
            return Err(DiagServiceError::InvalidDatabase(text("Protocol has no short name")));
        },
        Some(p) => p,
    };
    let ghost all = refs_of(refs);
    let found: Option<&ComParamRef> = match refs {
        None => None,
        Some(list) => {
            let mut i: usize = 0;
            let mut pos: Option<usize> = None;
            assert(list@.subrange(0, 0) =~= Seq::<ComParamRef>::empty());
            loop
                invariant_except_break
                    pos is None,
                    i <= list@.len(),
                    found_ref(list@.subrange(0, i as int), protocol@, param_name@) is None,
                invariant
                    all == list@,
                ensures
                    match pos {
                        Some(k) => k < list@.len() && found_ref(list@, protocol@, param_name@)
                            == Some(k as int) && refers_to(list@[k as int], protocol@, param_name@),
                        None => found_ref(list@, protocol@, param_name@) is None,
                    },
                decreases list@.len() - i,
            {
                if i >= list.len() {
                    proof {
                        lemma_found_ref_prefix(list@, protocol@, param_name@, list@.len() as int);
                    }
                    break;
                }
                let r = &list[i];
                let applies = match (&r.protocol_name, &r.com_param) {
                    (Some(p), Some(cp)) => match &cp.short_name {
                        Some(n) => str_eq(p.as_str(), protocol) && str_eq(n.as_str(), param_name),
                        None => false,
                    },
                    _ => false,
                };
                proof {
                    let next = list@.subrange(0, i + 1);
                    assert(next.drop_last() =~= list@.subrange(0, i as int));
                    assert(next.last() == list@[i as int]);
                }
                if applies {
                    proof {
                        lemma_found_ref_prefix(list@, protocol@, param_name@, i as int);
                    }
                    pos = Some(i);
                    break;
                }
                i = i + 1;
            }
            match pos {
                Some(k) => Some(&list[k]),
                None => None,
            }
        },
    };
    match found {
        None => {
            let mut m = String::new();
            push_text(&mut m, "No ComParamRef found for ");
            push_text(&mut m, param_name);
            push_text(&mut m, " in protocol ");
            push_text(&mut m, protocol);
            Err(DiagServiceError::NotFound(m))
        },
        Some(cp_ref) => match &cp_ref.com_param {
            None => Err(DiagServiceError::InvalidDatabase(text("ComParamRef has no ComParam"))),
            Some(cp) => match resolve_with_value(cp_ref, cp) {
                Ok((_, v)) => Ok(v),
                Err(e) => Err(e),
            },
        },
    }
}

/// The value of the com parameter `com_param` for the protocol named `protocol_name` among
/// the references `refs` of the base variant: the text of the simple value the lookup finds,
/// read as `T`; a clone of the parameter's default when the lookup fails, finds a complex
/// value, or the text does not read as `T`.
pub fn find_com_param<T: DeserializableCompParam + Clone>(
    protocol_name: Option<&str>,
    refs: Option<&Vec<ComParamRef>>,
    com_param: &ComParamConfig<T>,
) -> (r: T)
    requires
        lookup_defined(opt_text(protocol_name), refs_of(refs), com_param.name@),
    ensures
        match lookup_outcome(opt_text(protocol_name), refs_of(refs), com_param.name@) {
            Ok(ComParamView::Simple(text)) => match T::db_error(text) {
                None => T::db_reads_as(text, r),
                Some(_) => cloned(com_param.default, r),
            },
            _ => cloned(com_param.default, r),
        },
{
    match lookup(protocol_name, refs, com_param.name.as_str()) {
        Ok(ComParamValue::Simple(simple)) => match T::parse_from_db(simple.value.as_str()) {
            Ok(v) => v,
            Err(_) => com_param.default.clone(),
        },
        _ => com_param.default.clone(),
    }
}

} // verus!
