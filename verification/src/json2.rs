use vstd::prelude::*;

use crate::key_order::{bytes_lt_from, key_lt};

verus! {

// ---------------------------------------------------------------------------
// JSON values as they come in
// ---------------------------------------------------------------------------

/// A JSON value in the form the editor reads it: an integer is an
/// `Integer` (it must fit in an `i64`), a number with a fraction or an
/// exponent arrives as its decimal text. Object members are kept in the
/// order in which the reader produced them; a reader of JSON text gives them
/// in strictly increasing key order (see `json_wf`).
#[derive(Debug, PartialEq)]
pub enum JsonValue {
    Null,
    Bool(bool),
    Integer(i64),
    Float(String),
    String(String),
    Array(Vec<JsonValue>),
    Object(Vec<(String, JsonValue)>),
}

/// The mathematical value of a `JsonValue`.
#[verifier::ext_equal]
pub enum JsonView {
    Null,
    Bool(bool),
    Integer(i64),
    Float(Seq<char>),
    String(Seq<char>),
    Array(Seq<JsonView>),
    Object(Seq<(Seq<char>, JsonView)>),
}

pub open spec fn json_view(j: JsonValue) -> JsonView
    decreases j,
{
    match j {
        JsonValue::Null => JsonView::Null,
        JsonValue::Bool(b) => JsonView::Bool(b),
        JsonValue::Integer(i) => JsonView::Integer(i),
        JsonValue::Float(s) => JsonView::Float(s@),
        JsonValue::String(s) => JsonView::String(s@),
        JsonValue::Array(v) => JsonView::Array(json_views(v)),
        JsonValue::Object(v) => JsonView::Object(json_entry_views(v)),
    }
}

pub open spec fn json_views(v: Vec<JsonValue>) -> Seq<JsonView>
    decreases v,
{
    Seq::new(
        v@.len(),
        |i: int|
            if 0 <= i < v@.len() {
                json_view(v@[i])
            } else {
                JsonView::Null
            },
    )
}

pub open spec fn json_entry_views(v: Vec<(String, JsonValue)>) -> Seq<(Seq<char>, JsonView)>
    decreases v,
{
    Seq::new(
        v@.len(),
        |i: int|
            if 0 <= i < v@.len() {
                (v@[i].0@, json_view(v@[i].1))
            } else {
                (Seq::empty(), JsonView::Null)
            },
    )
}

impl View for JsonValue {
    type V = JsonView;

    open spec fn view(&self) -> JsonView {
        json_view(*self)
    }
}

// ---------------------------------------------------------------------------
// Nesting: the path from the root of a document to one of its nodes
// ---------------------------------------------------------------------------

/// One step from a document node into one of its children.
#[derive(Debug, Clone, PartialEq, Eq)]
pub enum Nest {
    ListElement(usize),
    MapKey(String),
}

pub enum NestView {
    ListElement(nat),
    MapKey(Seq<char>),
}

impl View for Nest {
    type V = NestView;

    open spec fn view(&self) -> NestView {
        match self {
            Nest::ListElement(i) => NestView::ListElement(*i as nat),
            Nest::MapKey(k) => NestView::MapKey(k@),
        }
    }
}

pub type Nesting = Vec<Nest>;

pub open spec fn nesting_view(n: Seq<Nest>) -> Seq<NestView> {
    n.map_values(|x: Nest| x@)
}

/// A copy of one step.
pub fn copy_nest(n: &Nest) -> (r: Nest)
    ensures
        r@ == n@,
{
    match n {
        Nest::ListElement(i) => Nest::ListElement(*i),
        Nest::MapKey(k) => Nest::MapKey(k.clone()),
    }
}

/// A copy of a whole path.
pub fn copy_nesting(n: &Vec<Nest>) -> (r: Vec<Nest>)
    ensures
        nesting_view(r@) == nesting_view(n@),
{
    let mut r: Vec<Nest> = Vec::new();
    let mut i: usize = 0;
    while i < n.len()
        invariant
            0 <= i <= n.len(),
            r.len() == i,
            forall|k: int| 0 <= k < i ==> r@[k]@ == n@[k]@,
        decreases n.len() - i,
    {
        r.push(copy_nest(&n[i]));
        i = i + 1;
    }
    assert(nesting_view(r@) =~= nesting_view(n@));
    r
}

/// Whether two steps are the same.
pub fn nest_eq(a: &Nest, b: &Nest) -> (r: bool)
    ensures
        r == (a@ == b@),
{
    match (a, b) {
        (Nest::ListElement(x), Nest::ListElement(y)) => *x == *y,
        (Nest::MapKey(x), Nest::MapKey(y)) => *x == *y,
        _ => false,
    }
}

/// Whether two paths are the same.
pub fn nesting_eq(a: &Vec<Nest>, b: &Vec<Nest>) -> (r: bool)
    ensures
        r == (nesting_view(a@) == nesting_view(b@)),
{
    if a.len() != b.len() {
        proof {
            assert(nesting_view(a@).len() != nesting_view(b@).len());
        }
        return false;
    }
    let mut i: usize = 0;
    while i < a.len()
        invariant
            0 <= i <= a.len(),
            a.len() == b.len(),
            forall|k: int| 0 <= k < i ==> a@[k]@ == b@[k]@,
        decreases a.len() - i,
    {
        if !nest_eq(&a[i], &b[i]) {
            proof {
                assert(nesting_view(a@)[i as int] != nesting_view(b@)[i as int]);
            }
            return false;
        }
        i = i + 1;
    }
    assert(nesting_view(a@) =~= nesting_view(b@));
    true
}

// ---------------------------------------------------------------------------
// Parsed documents
// ---------------------------------------------------------------------------

/// A JSON document turned into the shape the editor renders and infers
/// schemas from. Every node records the path that leads to it.

pub enum ParsedDocument {
    Null { nesting: Nesting },
    Bool { value: bool, nesting: Nesting },
    String { value: String, nesting: Nesting },
    Number { value: i128, nesting: Nesting },
    List { value: Vec<ParsedDocument>, nesting: Nesting },
    /// Entries in the order of the object they were read from.
    Object { value: Vec<(String, ParsedDocument)>, nesting: Nesting },
    /// A list whose elements give nothing to infer a type from.
    EmptyCantInfer { value: JsonValue, nesting: Nesting },
    /// A list whose elements do not all have the same type.
    NonHomogeneousCantParse { value: JsonValue, nesting: Nesting },
}

/// The mathematical value of a `ParsedDocument`.
#[verifier::ext_equal]
pub enum DocView {
    Null { nesting: Seq<NestView> },
    Bool { value: bool, nesting: Seq<NestView> },
    String { value: Seq<char>, nesting: Seq<NestView> },
    Number { value: i128, nesting: Seq<NestView> },
    List { value: Seq<DocView>, nesting: Seq<NestView> },
    Object { value: Seq<(Seq<char>, DocView)>, nesting: Seq<NestView> },
    EmptyCantInfer { value: JsonView, nesting: Seq<NestView> },
    NonHomogeneousCantParse { value: JsonView, nesting: Seq<NestView> },
}

pub open spec fn doc_view(d: ParsedDocument) -> DocView
    decreases d,
{
    match d {
        ParsedDocument::Null { nesting } => DocView::Null { nesting: nesting_view(nesting@) },
        ParsedDocument::Bool { value, nesting } => DocView::Bool {
            value,
            nesting: nesting_view(nesting@),
        },
        ParsedDocument::String { value, nesting } => DocView::String {
            value: value@,
            nesting: nesting_view(nesting@),
        },
        ParsedDocument::Number { value, nesting } => DocView::Number {
            value,
            nesting: nesting_view(nesting@),
        },
        ParsedDocument::List { value, nesting } => DocView::List {
            value: doc_views(value),
            nesting: nesting_view(nesting@),
        },
        ParsedDocument::Object { value, nesting } => DocView::Object {
            value: doc_entry_views(value),
            nesting: nesting_view(nesting@),
        },
        ParsedDocument::EmptyCantInfer { value, nesting } => DocView::EmptyCantInfer {
            value: value@,
            nesting: nesting_view(nesting@),
        },
        ParsedDocument::NonHomogeneousCantParse { value, nesting } =>
            DocView::NonHomogeneousCantParse { value: value@, nesting: nesting_view(nesting@) },
    }
}

pub open spec fn doc_views(v: Vec<ParsedDocument>) -> Seq<DocView>
    decreases v,
{
    Seq::new(
        v@.len(),
        |i: int|
            if 0 <= i < v@.len() {
                doc_view(v@[i])
            } else {
                DocView::Null { nesting: Seq::empty() }
            },
    )
}

pub open spec fn doc_entry_views(v: Vec<(String, ParsedDocument)>) -> Seq<(Seq<char>, DocView)>
    decreases v,
{
    Seq::new(
        v@.len(),
        |i: int|
            if 0 <= i < v@.len() {
                (v@[i].0@, doc_view(v@[i].1))
            } else {
                (Seq::empty(), DocView::Null { nesting: Seq::empty() })
            },
    )
}

impl View for ParsedDocument {
    type V = DocView;

    open spec fn view(&self) -> DocView {
        doc_view(*self)
    }
}

/// The path recorded in a node.
pub open spec fn doc_nesting(d: DocView) -> Seq<NestView> {
    match d {
        DocView::Null { nesting } => nesting,
        DocView::Bool { nesting, .. } => nesting,
        DocView::String { nesting, .. } => nesting,
        DocView::Number { nesting, .. } => nesting,
        DocView::List { nesting, .. } => nesting,
        DocView::Object { nesting, .. } => nesting,
        DocView::EmptyCantInfer { nesting, .. } => nesting,
        DocView::NonHomogeneousCantParse { nesting, .. } => nesting,
    }
}

/// How many children a node has: the elements of a list, the values of a map.
pub open spec fn num_children(d: DocView) -> nat {
    match d {
        DocView::List { value, .. } => value.len(),
        DocView::Object { value, .. } => value.len(),
        _ => 0,
    }
}

/// The `i`-th child of a node.
pub open spec fn child_at(d: DocView, i: int) -> DocView {
    match d {
        DocView::List { value, .. } => value[i],
        DocView::Object { value, .. } => value[i].1,
        _ => d,
    }
}

/// All nodes of a document, the node itself first, then the subtree of
/// each child in order (depth-first, pre-order).
pub open spec fn preorder(d: DocView) -> Seq<DocView>
    decreases d, 2nat, 0nat,
{
    seq![d] + descendants_upto(d, num_children(d) as int)
}

/// The nodes below `d`, in pre-order.
pub open spec fn descendants(d: DocView) -> Seq<DocView>
    decreases d, 1nat, 0nat,
{
    descendants_upto(d, num_children(d) as int)
}

/// The pre-order sequences of the first `k` children of `d`, one after another.
pub open spec fn descendants_upto(d: DocView, k: int) -> Seq<DocView>
    decreases d, 0nat, k,
{
    if k <= 0 || k > num_children(d) {
        seq![]
    } else {
        match d {
            DocView::List { value, .. } => descendants_upto(d, k - 1) + preorder(value[k - 1]),
            DocView::Object { value, .. } => descendants_upto(d, k - 1) + preorder(value[k - 1].1),
            _ => seq![],
        }
    }
}

/// The first node of `p` whose path is `n`.
pub open spec fn first_with_nesting(p: Seq<DocView>, n: Seq<NestView>) -> Option<DocView>
    decreases p.len(),
{
    if p.len() == 0 {
        None
    } else if doc_nesting(p[0]) == n {
        Some(p[0])
    } else {
        first_with_nesting(p.drop_first(), n)
    }
}

// ---------------------------------------------------------------------------
// Document types
// ---------------------------------------------------------------------------

/// The shape of a parsed document, without its values.
enum DocType {
    Null,
    Bool,
    String,
    Number,
    List(Box<DocType>),
    Object(Vec<(String, DocType)>),
    EmptyCantInfer,
    NonHomogeneousCantParse,
}

/// The mathematical value of a document type.
#[verifier::ext_equal]
pub enum DocTypeView {
    Null,
    Bool,
    String,
    Number,
    List(Box<DocTypeView>),
    Object(Seq<(Seq<char>, DocTypeView)>),
    EmptyCantInfer,
    NonHomogeneousCantParse,
}

spec fn doc_type_view(t: DocType) -> DocTypeView
    decreases t,
{
    match t {
        DocType::Null => DocTypeView::Null,
        DocType::Bool => DocTypeView::Bool,
        DocType::String => DocTypeView::String,
        DocType::Number => DocTypeView::Number,
        DocType::List(inner) => DocTypeView::List(Box::new(doc_type_view(*inner))),
        DocType::Object(v) => DocTypeView::Object(doc_type_entry_views(v)),
        DocType::EmptyCantInfer => DocTypeView::EmptyCantInfer,
        DocType::NonHomogeneousCantParse => DocTypeView::NonHomogeneousCantParse,
    }
}

spec fn doc_type_entry_views(v: Vec<(String, DocType)>) -> Seq<(Seq<char>, DocTypeView)>
    decreases v,
{
    Seq::new(
        v@.len(),
        |i: int|
            if 0 <= i < v@.len() {
                (v@[i].0@, doc_type_view(v@[i].1))
            } else {
                (Seq::empty(), DocTypeView::Null)
            },
    )
}

impl View for DocType {
    type V = DocTypeView;

    closed spec fn view(&self) -> DocTypeView {
        doc_type_view(*self)
    }
}

/// The type of a document, or `None` where the document holds a list whose
/// elements are not all of one type (or no element at all), which the type
/// of a document cannot describe.
pub open spec fn doc_type_of(d: DocView) -> Option<DocTypeView>
    decreases d,
{
    match d {
        DocView::Null { .. } => Some(DocTypeView::Null),
        DocView::Bool { .. } => Some(DocTypeView::Bool),
        DocView::String { .. } => Some(DocTypeView::String),
        DocView::Number { .. } => Some(DocTypeView::Number),
        DocView::List { value, .. } => {
            let ts = element_types(value);
            if value.len() > 0 && ts[0] is Some && (forall|i: int|
                0 <= i < ts.len() ==> #[trigger] ts[i] == ts[0]) {
                Some(DocTypeView::List(Box::new(ts[0].unwrap())))
            } else {
                None
            }
        },
        DocView::Object { value, .. } => {
            let ts = member_types(value);
            if forall|i: int| 0 <= i < ts.len() ==> #[trigger] ts[i] is Some {
                Some(
                    DocTypeView::Object(
                        Seq::new(value.len(), |i: int| (value[i].0, ts[i].unwrap())),
                    ),
                )
            } else {
                None
            }
        },
        DocView::EmptyCantInfer { .. } => Some(DocTypeView::EmptyCantInfer),
        DocView::NonHomogeneousCantParse { .. } => Some(DocTypeView::NonHomogeneousCantParse),
    }
}

/// The types of the elements of a list.
pub open spec fn element_types(value: Seq<DocView>) -> Seq<Option<DocTypeView>>
    decreases value,
{
    Seq::new(
        value.len(),
        |i: int|
            if 0 <= i < value.len() {
                doc_type_of(value[i])
            } else {
                None
            },
    )
}

/// The types of the values of an object's members.
pub open spec fn member_types(value: Seq<(Seq<char>, DocView)>) -> Seq<Option<DocTypeView>>
    decreases value,
{
    Seq::new(
        value.len(),
        |i: int|
            if 0 <= i < value.len() {
                doc_type_of(value[i].1)
            } else {
                None
            },
    )
}

// ---------------------------------------------------------------------------
// Facts about the views of sequences
// ---------------------------------------------------------------------------

pub broadcast proof fn lemma_json_views(v: Vec<JsonValue>)
    ensures
        #[trigger] json_views(v).len() == v@.len(),
        forall|k: int| 0 <= k < v@.len() ==> #[trigger] json_views(v)[k] == json_view(v@[k]),
{
}

pub broadcast proof fn lemma_json_entry_views(v: Vec<(String, JsonValue)>)
    ensures
        #[trigger] json_entry_views(v).len() == v@.len(),
        forall|k: int|
            0 <= k < v@.len() ==> #[trigger] json_entry_views(v)[k] == (v@[k].0@, json_view(v@[k].1)),
{
}

pub broadcast proof fn lemma_doc_views(v: Vec<ParsedDocument>)
    ensures
        #[trigger] doc_views(v).len() == v@.len(),
        forall|k: int| 0 <= k < v@.len() ==> #[trigger] doc_views(v)[k] == doc_view(v@[k]),
{
}

pub broadcast proof fn lemma_doc_entry_views(v: Vec<(String, ParsedDocument)>)
    ensures
        #[trigger] doc_entry_views(v).len() == v@.len(),
        forall|k: int|
            0 <= k < v@.len() ==> #[trigger] doc_entry_views(v)[k] == (v@[k].0@, doc_view(v@[k].1)),
{
}

broadcast proof fn lemma_doc_type_entry_views(v: Vec<(String, DocType)>)
    ensures
        #[trigger] doc_type_entry_views(v).len() == v@.len(),
        forall|k: int|
            0 <= k < v@.len() ==> #[trigger] doc_type_entry_views(v)[k] == (
                v@[k].0@,
                doc_type_view(v@[k].1),
            ),
{
}

pub broadcast group group_view_facts {
    lemma_json_views,
    lemma_json_entry_views,
    lemma_doc_views,
    lemma_doc_entry_views,
    lemma_doc_type_entry_views,
}

// ---------------------------------------------------------------------------
// Parsing
// ---------------------------------------------------------------------------

/// The document that parsing `j` gives, where `n` is the path to `j`, or
/// `None` where parsing cannot complete: a list is only accepted where the
/// type of each of its elements can be told (see `doc_type_of`).
///
/// Scalars keep their value (a non-integer number becomes its text). An
/// array becomes `EmptyCantInfer` when each element's type is
/// `EmptyCantInfer` (an empty array too), `NonHomogeneousCantParse` when two
/// elements have different types other than `EmptyCantInfer`, and a `List`
/// of the parsed elements otherwise. An object becomes an `Object` of its
/// members with their values parsed.
pub open spec fn parse_spec(j: JsonView, n: Seq<NestView>) -> Option<DocView>
    decreases j,
{
    match j {
        JsonView::Null => Some(DocView::Null { nesting: n }),
        JsonView::Bool(b) => Some(DocView::Bool { value: b, nesting: n }),
        JsonView::Integer(i) => Some(DocView::Number { value: i as i128, nesting: n }),
        JsonView::Float(s) => Some(DocView::String { value: s, nesting: n }),
        JsonView::String(s) => Some(DocView::String { value: s, nesting: n }),
        JsonView::Array(vs) => {
            let docs = parse_elements(vs, n);
            let types = parsed_types(docs);
            if exists|i: int| 0 <= i < vs.len() && #[trigger] types[i] is None {
                None
            } else if forall|i: int|
                0 <= i < vs.len() ==> #[trigger] types[i] == Some(DocTypeView::EmptyCantInfer) {
                Some(DocView::EmptyCantInfer { value: j, nesting: n })
            } else if exists|a: int, b: int|
                0 <= a < vs.len() && 0 <= b < vs.len() && #[trigger] types[a] != Some(
                    DocTypeView::EmptyCantInfer,
                ) && #[trigger] types[b] != Some(DocTypeView::EmptyCantInfer) && types[a]
                    != types[b] {
                Some(DocView::NonHomogeneousCantParse { value: j, nesting: n })
            } else {
                Some(DocView::List { value: Seq::new(vs.len(), |i: int| docs[i].unwrap()), nesting: n })
            }
        },
        JsonView::Object(kvs) => {
            let docs = parse_members(kvs, n);
            if forall|i: int| 0 <= i < kvs.len() ==> #[trigger] docs[i] is Some {
                Some(
                    DocView::Object {
                        value: Seq::new(kvs.len(), |i: int| (kvs[i].0, docs[i].unwrap())),
                        nesting: n,
                    },
                )
            } else {
                None
            }
        },
    }
}

/// The elements of an array, each parsed under its own path.
pub open spec fn parse_elements(vs: Seq<JsonView>, n: Seq<NestView>) -> Seq<Option<DocView>>
    decreases vs,
{
    Seq::new(
        vs.len(),
        |i: int|
            if 0 <= i < vs.len() {
                parse_spec(vs[i], n.push(NestView::ListElement(i as nat)))
            } else {
                None
            },
    )
}

/// The values of an object's members, each parsed under its own path.
pub open spec fn parse_members(kvs: Seq<(Seq<char>, JsonView)>, n: Seq<NestView>) -> Seq<
    Option<DocView>,
>
    decreases kvs,
{
    Seq::new(
        kvs.len(),
        |i: int|
            if 0 <= i < kvs.len() {
                parse_spec(kvs[i].1, n.push(NestView::MapKey(kvs[i].0)))
            } else {
                None
            },
    )
}

/// The types of parsed documents (`None` where there is no document or no type).
pub open spec fn parsed_types(docs: Seq<Option<DocView>>) -> Seq<Option<DocTypeView>> {
    Seq::new(
        docs.len(),
        |i: int|
            match docs[i] {
                Some(d) => doc_type_of(d),
                None => None,
            },
    )
}

/// A copy of a JSON value.
pub fn clone_json(j: &JsonValue) -> (r: JsonValue)
    ensures
        r@ == j@,
    decreases j,
{
    broadcast use group_view_facts;

    match j {
        JsonValue::Null => JsonValue::Null,
        JsonValue::Bool(b) => JsonValue::Bool(*b),
        JsonValue::Integer(i) => JsonValue::Integer(*i),
        JsonValue::Float(s) => JsonValue::Float(s.clone()),
        JsonValue::String(s) => JsonValue::String(s.clone()),
        JsonValue::Array(vs) => {
            let mut r: Vec<JsonValue> = Vec::new();
            let mut i: usize = 0;
            while i < vs.len()
                invariant
                    0 <= i <= vs.len(),
                    r.len() == i,
                    *j == JsonValue::Array(*vs),
                    forall|k: int| 0 <= k < i ==> #[trigger] json_view(r@[k]) == json_view(vs@[k]),
                decreases vs.len() - i,
            {
                assert(decreases_to!(*j => (*j)->Array_0));
                assert(decreases_to!(*j => vs@[i as int]));
                r.push(clone_json(&vs[i]));
                i = i + 1;
            }
            assert(json_views(r) =~= json_views(*vs));
            JsonValue::Array(r)
        },
        JsonValue::Object(kvs) => {
            let mut r: Vec<(String, JsonValue)> = Vec::new();
            let mut i: usize = 0;
            while i < kvs.len()
                invariant
                    0 <= i <= kvs.len(),
                    r.len() == i,
                    *j == JsonValue::Object(*kvs),
                    forall|k: int|
                        0 <= k < i ==> r@[k].0@ == kvs@[k].0@ && #[trigger] json_view(r@[k].1) == json_view(kvs@[k].1),
                decreases kvs.len() - i,
            {
                assert(decreases_to!(*j => (*j)->Object_0));
                assert(decreases_to!(kvs@[i as int] => kvs@[i as int].1));
                let key = kvs[i].0.clone();
                let value = clone_json(&kvs[i].1);
                r.push((key, value));
                i = i + 1;
            }
            assert(json_entry_views(r) =~= json_entry_views(*kvs));
            JsonValue::Object(r)
        },
    }
}

/// A copy of a document.
pub fn clone_doc(d: &ParsedDocument) -> (r: ParsedDocument)
    ensures
        r@ == d@,
    decreases d,
{
    broadcast use group_view_facts;

    match d {
        ParsedDocument::Null { nesting } => ParsedDocument::Null { nesting: copy_nesting(nesting) },
        ParsedDocument::Bool { value, nesting } => ParsedDocument::Bool {
            value: *value,
            nesting: copy_nesting(nesting),
        },
        ParsedDocument::String { value, nesting } => ParsedDocument::String {
            value: value.clone(),
            nesting: copy_nesting(nesting),
        },
        ParsedDocument::Number { value, nesting } => ParsedDocument::Number {
            value: *value,
            nesting: copy_nesting(nesting),
        },
        ParsedDocument::List { value, nesting } => {
            let mut r: Vec<ParsedDocument> = Vec::new();
            let mut i: usize = 0;
            while i < value.len()
                invariant
                    0 <= i <= value.len(),
                    r.len() == i,
                    *d == (ParsedDocument::List { value: *value, nesting: *nesting }),
                    forall|k: int| 0 <= k < i ==> #[trigger] doc_view(r@[k]) == doc_view(value@[k]),
                decreases value.len() - i,
            {
                assert(decreases_to!(*d => (*d)->List_value));
                assert(decreases_to!(*d => value@[i as int]));
                r.push(clone_doc(&value[i]));
                i = i + 1;
            }
            assert(doc_views(r) =~= doc_views(*value));
            ParsedDocument::List { value: r, nesting: copy_nesting(nesting) }
        },
        ParsedDocument::Object { value, nesting } => {
            let mut r: Vec<(String, ParsedDocument)> = Vec::new();
            let mut i: usize = 0;
            while i < value.len()
                invariant
                    0 <= i <= value.len(),
                    r.len() == i,
                    *d == (ParsedDocument::Object { value: *value, nesting: *nesting }),
                    forall|k: int|
                        0 <= k < i ==> r@[k].0@ == value@[k].0@ && #[trigger] doc_view(r@[k].1)
                            == doc_view(value@[k].1),
                decreases value.len() - i,
            {
                assert(decreases_to!(*d => (*d)->Object_value));
                assert(decreases_to!(value@[i as int] => value@[i as int].1));
                let key = value[i].0.clone();
                let inner = clone_doc(&value[i].1);
                r.push((key, inner));
                i = i + 1;
            }
            assert(doc_entry_views(r) =~= doc_entry_views(*value));
            ParsedDocument::Object { value: r, nesting: copy_nesting(nesting) }
        },
        ParsedDocument::EmptyCantInfer { value, nesting } => ParsedDocument::EmptyCantInfer {
            value: clone_json(value),
            nesting: copy_nesting(nesting),
        },
        ParsedDocument::NonHomogeneousCantParse { value, nesting } =>
            ParsedDocument::NonHomogeneousCantParse {
            value: clone_json(value),
            nesting: copy_nesting(nesting),
        },
    }
}

impl Clone for ParsedDocument {
    /// A copy of the document.
    fn clone(&self) -> (r: Self)
        ensures
            r@ == self@,
    {
        clone_doc(self)
    }
}

impl Clone for JsonValue {
    /// A copy of the value.
    fn clone(&self) -> (r: Self)
        ensures
            r@ == self@,
    {
        clone_json(self)
    }
}

impl DocType {
    fn is_empty_cant_infer(&self) -> (r: bool)
        ensures
            r == (self@ == DocTypeView::EmptyCantInfer),
    {
        match self {
            DocType::EmptyCantInfer => true,
            _ => false,
        }
    }
}

/// Whether two document types are the same.
fn doc_type_eq(a: &DocType, b: &DocType) -> (r: bool)
    ensures
        r == (a@ == b@),
    decreases a,
{
    broadcast use group_view_facts;

    match (a, b) {
        (DocType::Null, DocType::Null) => true,
        (DocType::Bool, DocType::Bool) => true,
        (DocType::String, DocType::String) => true,
        (DocType::Number, DocType::Number) => true,
        (DocType::List(x), DocType::List(y)) => {
            let r = doc_type_eq(x, y);
            proof {
                if r {
                    assert(a@ =~= b@);
                }
            }
            r
        },
        (DocType::Object(x), DocType::Object(y)) => {
            if x.len() != y.len() {
                proof {
                    assert(doc_type_entry_views(*x).len() != doc_type_entry_views(*y).len());
                }
                return false;
            }
            let mut i: usize = 0;
            while i < x.len()
                invariant
                    0 <= i <= x.len(),
                    x.len() == y.len(),
                    *a == DocType::Object(*x),
                    *b == DocType::Object(*y),
                    forall|k: int|
                        0 <= k < i ==> #[trigger] doc_type_entry_views(*x)[k]
                            == doc_type_entry_views(*y)[k],
                decreases x.len() - i,
            {
                if x[i].0 != y[i].0 {
                    proof {
                        assert(doc_type_entry_views(*x)[i as int] != doc_type_entry_views(*y)[i as int]);
                    }
                    return false;
                }
                if !doc_type_eq(&x[i].1, &y[i].1) {
                    proof {
                        assert(doc_type_entry_views(*x)[i as int] != doc_type_entry_views(*y)[i as int]);
                    }
                    return false;
                }
                i = i + 1;
            }
            assert(doc_type_entry_views(*x) =~= doc_type_entry_views(*y));
            true
        },
        (DocType::EmptyCantInfer, DocType::EmptyCantInfer) => true,
        (DocType::NonHomogeneousCantParse, DocType::NonHomogeneousCantParse) => true,
        _ => false,
    }
}

/// The view of an optional document type.
spec fn opt_type_view(t: Option<DocType>) -> Option<DocTypeView> {
    match t {
        Some(t) => Some(t@),
        None => None,
    }
}

impl ParsedDocument {
    /// The type of this document, or `None` where it holds a list whose
    /// elements do not all have one type.
    fn doc_type(&self) -> (r: Option<DocType>)
        ensures
            opt_type_view(r) == doc_type_of(self@),
        decreases self,
    {
        broadcast use group_view_facts;

        match self {
            ParsedDocument::Null { .. } => Some(DocType::Null),
            ParsedDocument::Bool { .. } => Some(DocType::Bool),
            ParsedDocument::String { .. } => Some(DocType::String),
            ParsedDocument::Number { .. } => Some(DocType::Number),
            ParsedDocument::List { value, nesting } => {
                let ghost vs = doc_views(*value);
                let ghost ts = element_types(vs);
                if value.len() == 0 {
                    return None;
                }
                let mut first: Option<DocType> = None;
                let mut i: usize = 0;
                while i < value.len()
                    invariant
                        0 < value.len(),
                        0 <= i <= value.len(),
                        *self == (ParsedDocument::List { value: *value, nesting: *nesting }),
                        vs == doc_views(*value),
                        ts == element_types(vs),
                        i == 0 <==> first is None,
                        first matches Some(f) ==> ts[0] == Some(f@),
                        forall|k: int| 0 <= k < i ==> #[trigger] ts[k] == ts[0],
                    decreases value.len() - i,
                {
                    proof {
                        assert(decreases_to!(*self => (*self)->List_value));
                        assert(ts[i as int] == doc_type_of(vs[i as int]));
                    }
                    let t = match value[i].doc_type() {
                        Some(t) => t,
                        None => {
                            assert(!(ts[i as int] is Some && ts[i as int] == ts[0]));
                            return None;
                        },
                    };
                    match &first {
                        None => {
                            first = Some(t);
                        },
                        Some(f) => {
                            if !doc_type_eq(f, &t) {
                                // the elements do not all have one type
                                assert(ts[i as int] != ts[0]);
                                return None;
                            }
                        },
                    }
                    i = i + 1;
                }
                match first {
                    Some(f) => {
                        assert(ts[0] is Some);
                        Some(DocType::List(Box::new(f)))
                    },
                    None => None,
                }
            },
            ParsedDocument::Object { value, nesting } => {
                let ghost vs = doc_entry_views(*value);
                let ghost ts = member_types(vs);
                let mut r: Vec<(String, DocType)> = Vec::new();
                let mut i: usize = 0;
                while i < value.len()
                    invariant
                        0 <= i <= value.len(),
                        r.len() == i,
                        *self == (ParsedDocument::Object { value: *value, nesting: *nesting }),
                        vs == doc_entry_views(*value),
                        ts == member_types(vs),
                        forall|k: int|
                            0 <= k < i ==> (#[trigger] r@[k]).0@ == vs[k].0 && Some(
                                doc_type_view(r@[k].1),
                            ) == ts[k],
                    decreases value.len() - i,
                {
                    assert(vs[i as int].1 == value@[i as int].1@);
                    assert(decreases_to!(*self => (*self)->Object_value));
                    assert(decreases_to!(value@[i as int] => value@[i as int].1));
                    let key = value[i].0.clone();
                    let t = match value[i].1.doc_type() {
                        Some(t) => t,
                        None => {
                            assert(ts[i as int] is None);
                            return None;
                        },
                    };
                    r.push((key, t));
                    i = i + 1;
                }
                assert forall|k: int| 0 <= k < ts.len() implies #[trigger] ts[k] is Some by {
                    assert(Some(doc_type_view(r@[k].1)) == ts[k]);
                }
                assert(doc_type_entry_views(r) =~= Seq::new(
                    vs.len(),
                    |k: int| (vs[k].0, ts[k].unwrap()),
                ));
                Some(DocType::Object(r))
            },
            ParsedDocument::EmptyCantInfer { .. } => Some(DocType::EmptyCantInfer),
            ParsedDocument::NonHomogeneousCantParse { .. } => Some(DocType::NonHomogeneousCantParse),
        }
    }
}

/// The view of an optional document.
pub open spec fn opt_doc_view(d: Option<ParsedDocument>) -> Option<DocView> {
    match d {
        Some(d) => Some(d@),
        None => None,
    }
}

/// Parses a JSON value into a document whose root has the empty path.
pub fn parse(j: JsonValue) -> (r: ParsedDocument)
    requires
        parse_spec(j@, Seq::empty()) is Some,
    ensures
        r@ == parse_spec(j@, Seq::empty()).unwrap(),
        json_wf(j@) ==> doc_wf(r@),
{
    proof {
        if json_wf(j@) {
            lemma_parsed_wf(j@, Seq::empty());
        }
    }
    match try_parse(j) {
        Some(d) => d,
        None => {
            // excluded by the precondition
            let root: Nesting = Vec::new();
            ParsedDocument::Null { nesting: root }
        },
    }
}

/// Parses a JSON value into a document whose root has the empty path, or
/// gives `None` where a list's elements do not let it be parsed (see
/// `parse_spec`).
pub fn try_parse(j: JsonValue) -> (r: Option<ParsedDocument>)
    ensures
        opt_doc_view(r) == parse_spec(j@, Seq::empty()),
        json_wf(j@) ==> (r matches Some(d) ==> doc_wf(d@)),
{
    proof {
        if json_wf(j@) && parse_spec(j@, Seq::empty()) is Some {
            lemma_parsed_wf(j@, Seq::empty());
        }
    }
    let root: Nesting = Vec::new();
    proof {
        assert(nesting_view(root@) =~= Seq::empty());
    }
    parse_nesting(&j, root)
}

/// Parses a JSON value found at path `nesting`.
fn parse_nesting(j: &JsonValue, nesting: Nesting) -> (r: Option<ParsedDocument>)
    ensures
        opt_doc_view(r) == parse_spec(j@, nesting_view(nesting@)),
    decreases j,
{
    broadcast use group_view_facts;

    match j {
        JsonValue::Null => Some(ParsedDocument::Null { nesting }),
        JsonValue::Bool(b) => Some(ParsedDocument::Bool { value: *b, nesting }),
        JsonValue::Integer(i) => Some(ParsedDocument::Number { value: *i as i128, nesting }),
        // a number that is not an integer is kept as its text
        JsonValue::Float(s) => Some(ParsedDocument::String { value: s.clone(), nesting }),
        JsonValue::String(s) => Some(ParsedDocument::String { value: s.clone(), nesting }),
        JsonValue::Array(vs) => {
            let ghost n = nesting_view(nesting@);
            let ghost jvs = json_views(*vs);
            let ghost pdocs = parse_elements(jvs, n);
            let ghost ptypes = parsed_types(pdocs);
            let mut docs: Vec<ParsedDocument> = Vec::new();
            let mut types: Vec<DocType> = Vec::new();
            // the first element whose type is not `EmptyCantInfer`
            let mut first: Option<usize> = None;
            // whether an element's type differs from that of `first`
            let mut hetero = false;
            let mut i: usize = 0;
            while i < vs.len()
                invariant
                    0 <= i <= vs.len(),
                    docs.len() == i,
                    types.len() == i,
                    *j == JsonValue::Array(*vs),
                    n == nesting_view(nesting@),
                    jvs == json_views(*vs),
                    pdocs == parse_elements(jvs, n),
                    ptypes == parsed_types(pdocs),
                    forall|k: int| 0 <= k < i ==> #[trigger] ptypes[k] is Some,
                    forall|k: int| 0 <= k < i ==> Some(doc_view(#[trigger] docs@[k])) == pdocs[k],
                    forall|k: int|
                        0 <= k < i ==> Some(doc_type_view(#[trigger] types@[k])) == ptypes[k],
                    first is None <==> forall|k: int|
                        0 <= k < i ==> #[trigger] ptypes[k] == Some(DocTypeView::EmptyCantInfer),
                    first matches Some(f) ==> f < i && ptypes[f as int] != Some(
                        DocTypeView::EmptyCantInfer,
                    ),
                    hetero <==> (first matches Some(f) && exists|k: int|
                        0 <= k < i && #[trigger] ptypes[k] != Some(DocTypeView::EmptyCantInfer)
                            && ptypes[k] != ptypes[f as int]),
                decreases vs.len() - i,
            {
                let mut inner = copy_nesting(&nesting);
                inner.push(Nest::ListElement(i));
                proof {
                    assert(nesting_view(inner@) =~= n.push(NestView::ListElement(i as nat)));
                    assert(jvs[i as int] == json_view(vs@[i as int]));
                    assert(decreases_to!(*j => (*j)->Array_0));
                    assert(pdocs[i as int] == parse_spec(
                        jvs[i as int],
                        n.push(NestView::ListElement(i as nat)),
                    ));
                }
                let d = match parse_nesting(&vs[i], inner) {
                    Some(d) => d,
                    None => {
                        assert(ptypes[i as int] is None);
                        return None;
                    },
                };
                assert(doc_type_of(d@) == ptypes[i as int]);
                let t = match d.doc_type() {
                    Some(t) => t,
                    None => {
                        assert(ptypes[i as int] is None);
                        return None;
                    },
                };
                if !t.is_empty_cant_infer() {
                    match first {
                        None => {
                            first = Some(i);
                        },
                        Some(f) => {
                            if !doc_type_eq(&types[f], &t) {
                                hetero = true;
                            }
                        },
                    }
                }
                docs.push(d);
                types.push(t);
                i = i + 1;
            }
            if first.is_none() {
                proof {
                    assert forall|k: int| 0 <= k < jvs.len() implies #[trigger] ptypes[k] == Some(
                        DocTypeView::EmptyCantInfer,
                    ) by {}
                }
                Some(ParsedDocument::EmptyCantInfer { value: clone_json(j), nesting })
            } else if hetero {
                proof {
                    let f = first.unwrap() as int;
                    let k = choose|k: int|
                        0 <= k < i && #[trigger] ptypes[k] != Some(DocTypeView::EmptyCantInfer)
                            && ptypes[k] != ptypes[f];
                    assert(ptypes[f] != Some(DocTypeView::EmptyCantInfer));
                    assert(ptypes[k] != Some(DocTypeView::EmptyCantInfer));
                }
                Some(ParsedDocument::NonHomogeneousCantParse { value: clone_json(j), nesting })
            } else {
                proof {
                    let f = first.unwrap() as int;
                    assert(ptypes[f] != Some(DocTypeView::EmptyCantInfer));
                    assert(!(forall|k: int|
                        0 <= k < jvs.len() ==> #[trigger] ptypes[k] == Some(
                            DocTypeView::EmptyCantInfer,
                        )));
                    assert forall|a: int, b: int|
                        0 <= a < jvs.len() && 0 <= b < jvs.len() && #[trigger] ptypes[a] != Some(
                            DocTypeView::EmptyCantInfer,
                        ) && #[trigger] ptypes[b] != Some(DocTypeView::EmptyCantInfer) implies ptypes[a]
                        == ptypes[b] by {
                        assert(ptypes[a] == ptypes[f]);
                        assert(ptypes[b] == ptypes[f]);
                    }
                    assert(doc_views(docs) =~= Seq::new(jvs.len(), |k: int| pdocs[k].unwrap()));
                }
                Some(ParsedDocument::List { value: docs, nesting })
            }
        },
        JsonValue::Object(kvs) => {
            let ghost n = nesting_view(nesting@);
            let ghost jkvs = json_entry_views(*kvs);
            let ghost pdocs = parse_members(jkvs, n);
            let mut members: Vec<(String, ParsedDocument)> = Vec::new();
            let mut i: usize = 0;
            while i < kvs.len()
                invariant
                    0 <= i <= kvs.len(),
                    members.len() == i,
                    *j == JsonValue::Object(*kvs),
                    n == nesting_view(nesting@),
                    jkvs == json_entry_views(*kvs),
                    pdocs == parse_members(jkvs, n),
                    forall|k: int|
                        0 <= k < i ==> (#[trigger] members@[k]).0@ == jkvs[k].0 && Some(
                            doc_view(members@[k].1),
                        ) == pdocs[k],
                decreases kvs.len() - i,
            {
                let mut inner = copy_nesting(&nesting);
                inner.push(Nest::MapKey(kvs[i].0.clone()));
                proof {
                    assert(nesting_view(inner@) =~= n.push(NestView::MapKey(jkvs[i as int].0)));
                    assert(jkvs[i as int].1 == json_view(kvs@[i as int].1));
                    assert(decreases_to!(*j => (*j)->Object_0));
                    assert(decreases_to!(kvs@[i as int] => kvs@[i as int].1));
                    assert(pdocs[i as int] == parse_spec(
                        jkvs[i as int].1,
                        n.push(NestView::MapKey(jkvs[i as int].0)),
                    ));
                }
                let d = match parse_nesting(&kvs[i].1, inner) {
                    Some(d) => d,
                    None => {
                        return None;
                    },
                };
                members.push((kvs[i].0.clone(), d));
                i = i + 1;
            }
            proof {
                assert forall|k: int| 0 <= k < kvs.len() implies #[trigger] pdocs[k] is Some by {
                    assert(Some(doc_view(members@[k].1)) == pdocs[k]);
                }
                assert(doc_entry_views(members) =~= Seq::new(
                    jkvs.len(),
                    |k: int| (jkvs[k].0, pdocs[k].unwrap()),
                ));
            }
            Some(ParsedDocument::Object { value: members, nesting })
        },
    }
}

/// The document a node of `d` is, with `d` as it is held.
pub open spec fn exec_child(d: ParsedDocument, k: int) -> ParsedDocument {
    match d {
        ParsedDocument::List { value, .. } => value@[k],
        ParsedDocument::Object { value, .. } => value@[k].1,
        _ => d,
    }
}

/// The views of the documents that a sequence of references points to.
pub open spec fn ref_views(r: Seq<&ParsedDocument>) -> Seq<DocView> {
    r.map_values(|x: &ParsedDocument| doc_view(*x))
}

proof fn lemma_child(d: ParsedDocument, k: int)
    requires
        0 <= k < num_children(d@),
    ensures
        decreases_to!(d => exec_child(d, k)),
        doc_view(exec_child(d, k)) == child_at(d@, k),
{
    broadcast use group_view_facts;

    match d {
        ParsedDocument::List { value, .. } => {
            assert(decreases_to!(d => d->List_value));
        },
        ParsedDocument::Object { value, .. } => {
            assert(decreases_to!(d => d->Object_value));
            assert(decreases_to!(value@[k] => value@[k].1));
        },
        _ => {},
    }
}

impl ParsedDocument {
    /// The path recorded in this node.
    pub fn nesting(&self) -> (r: &Nesting)
        ensures
            nesting_view(r@) == doc_nesting(self@),
    {
        match self {
            ParsedDocument::Null { nesting, .. }
            | ParsedDocument::NonHomogeneousCantParse { nesting, .. }
            | ParsedDocument::EmptyCantInfer { nesting, .. }
            | ParsedDocument::Bool { nesting, .. }
            | ParsedDocument::Object { nesting, .. }
            | ParsedDocument::List { nesting, .. }
            | ParsedDocument::String { nesting, .. }
            | ParsedDocument::Number { nesting, .. } => nesting,
        }
    }

    /// The first node in pre-order (this node first) whose path is `nesting`.
    pub fn find<'a>(&'a self, nesting: &Nesting) -> (r: Option<&'a ParsedDocument>)
        ensures
            (r is Some) == (first_with_nesting(preorder(self@), nesting_view(nesting@)) is Some),
            r matches Some(x) ==> first_with_nesting(preorder(self@), nesting_view(nesting@))
                == Some(doc_view(*x)),
    {
        let ghost n = nesting_view(nesting@);
        if nesting_eq(self.nesting(), nesting) {
            return Some(self);
        }
        let all = self.all_children_dfs();
        let ghost p = preorder(self@);
        proof {
            assert(p.drop_first() =~= descendants(self@));
            assert(p[0] == self@);
            assert(first_with_nesting(p, n) == first_with_nesting(p.drop_first(), n));
            assert(ref_views(all@).subrange(0, all.len() as int) =~= ref_views(all@));
        }
        let mut i: usize = 0;
        while i < all.len()
            invariant
                0 <= i <= all.len(),
                n == nesting_view(nesting@),
                p == preorder(self@),
                ref_views(all@) == descendants(self@),
                first_with_nesting(p, n) == first_with_nesting(
                    ref_views(all@).subrange(i as int, all.len() as int),
                    n,
                ),
            decreases all.len() - i,
        {
            let c = all[i];
            let ghost rest = ref_views(all@).subrange(i as int, all.len() as int);
            assert(rest[0] == doc_view(*c));
            if nesting_eq(c.nesting(), nesting) {
                assert(first_with_nesting(rest, n) == Some(rest[0]));
                return Some(c);
            }
            assert(rest.drop_first() =~= ref_views(all@).subrange(i + 1, all.len() as int));
            i = i + 1;
        }
        None
    }

    /// The children of this node: the elements of a list, the values of an object.
    fn iterate_children<'a>(&'a self) -> (r: Vec<&'a ParsedDocument>)
        ensures
            r.len() == num_children(self@),
            forall|k: int| 0 <= k < r.len() ==> *r@[k] == exec_child(*self, k),
    {
        broadcast use group_view_facts;

        let mut r: Vec<&'a ParsedDocument> = Vec::new();
        match self {
            ParsedDocument::List { value, .. } => {
                let mut i: usize = 0;
                while i < value.len()
                    invariant
                        0 <= i <= value.len(),
                        r.len() == i,
                        *self == (ParsedDocument::List { value: *value, nesting: self->List_nesting }),
                        forall|k: int| 0 <= k < i ==> *r@[k] == value@[k],
                    decreases value.len() - i,
                {
                    r.push(&value[i]);
                    i = i + 1;
                }
            },
            ParsedDocument::Object { value, .. } => {
                let mut i: usize = 0;
                while i < value.len()
                    invariant
                        0 <= i <= value.len(),
                        r.len() == i,
                        *self == (ParsedDocument::Object {
                            value: *value,
                            nesting: self->Object_nesting,
                        }),
                        forall|k: int| 0 <= k < i ==> *r@[k] == value@[k].1,
                    decreases value.len() - i,
                {
                    r.push(&value[i].1);
                    i = i + 1;
                }
            },
            // scalars don't have children
            _ => {},
        }
        r
    }

    /// All nodes below this one, in pre-order.
    fn all_children_dfs<'a>(&'a self) -> (r: Vec<&'a ParsedDocument>)
        ensures
            ref_views(r@) == descendants(self@),
        decreases self,
    {
        let children = self.iterate_children();
        let mut r: Vec<&'a ParsedDocument> = Vec::new();
        proof {
            assert(ref_views(r@) =~= descendants_upto(self@, 0));
        }
        let mut i: usize = 0;
        while i < children.len()
            invariant
                0 <= i <= children.len(),
                children.len() == num_children(self@),
                forall|k: int| 0 <= k < children.len() ==> *children@[k] == exec_child(*self, k),
                ref_views(r@) == descendants_upto(self@, i as int),
            decreases children.len() - i,
        {
            let c = children[i];
            proof {
                lemma_child(*self, i as int);
            }
            let sub = c.all_children_dfs();
            let ghost before = r@;
            r.push(c);
            let mut k: usize = 0;
            while k < sub.len()
                invariant
                    0 <= k <= sub.len(),
                    r@ == before.push(c) + sub@.subrange(0, k as int),
                decreases sub.len() - k,
            {
                r.push(sub[k]);
                k = k + 1;
                assert(r@ =~= before.push(c) + sub@.subrange(0, k as int));
            }
            proof {
                assert(sub@.subrange(0, k as int) =~= sub@);
                assert(ref_views(r@) =~= ref_views(before) + preorder(doc_view(*c)));
                assert(descendants_upto(self@, i + 1) == descendants_upto(self@, i as int)
                    + preorder(child_at(self@, i as int)));
            }
            i = i + 1;
        }
        r
    }
}

// ---------------------------------------------------------------------------
// Every node of a parsed document has a path of its own
// ---------------------------------------------------------------------------

/// Whether `a` is a beginning of `b`.
pub open spec fn nesting_prefix(a: Seq<NestView>, b: Seq<NestView>) -> bool {
    a.len() <= b.len() && b.subrange(0, a.len() as int) == a
}

/// Whether, all through `j`, no object has two members with the same key
/// (as is so of every object a JSON reader hands over).
pub open spec fn keys_distinct(j: JsonView) -> bool
    decreases j,
{
    match j {
        JsonView::Array(vs) => all_true(elements_keys_distinct(vs)),
        JsonView::Object(kvs) => {
            &&& forall|a: int, b: int|
                0 <= a < b < kvs.len() ==> #[trigger] kvs[a].0 != #[trigger] kvs[b].0
            &&& all_true(members_keys_distinct(kvs))
        },
        _ => true,
    }
}

/// For each element of an array, whether its objects have distinct keys.
pub open spec fn elements_keys_distinct(vs: Seq<JsonView>) -> Seq<bool>
    decreases vs,
{
    Seq::new(
        vs.len(),
        |i: int|
            if 0 <= i < vs.len() {
                keys_distinct(vs[i])
            } else {
                true
            },
    )
}

/// For each member of an object, whether the objects in its value have distinct keys.
pub open spec fn members_keys_distinct(kvs: Seq<(Seq<char>, JsonView)>) -> Seq<bool>
    decreases kvs,
{
    Seq::new(
        kvs.len(),
        |i: int|
            if 0 <= i < kvs.len() {
                keys_distinct(kvs[i].1)
            } else {
                true
            },
    )
}

// ---------------------------------------------------------------------------
// Well-formed values: object members in strictly increasing key order
// ---------------------------------------------------------------------------

/// Whether the members of `kvs` come in strictly increasing order of their
/// keys (so that no key comes twice), as in a map ordered by key.
pub open spec fn keys_sorted<V>(kvs: Seq<(Seq<char>, V)>) -> bool {
    forall|a: int, b: int| 0 <= a < b < kvs.len() ==> key_lt(#[trigger] kvs[a].0, #[trigger] kvs[b].0)
}

/// Whether every object in `j` has its members in strictly increasing key
/// order, as every value that serde_json reads has: its objects are maps
/// ordered by key.
pub open spec fn json_wf(j: JsonView) -> bool
    decreases j,
{
    match j {
        JsonView::Array(vs) => all_true(elements_wf(vs)),
        JsonView::Object(kvs) => keys_sorted(kvs) && all_true(members_wf(kvs)),
        _ => true,
    }
}

/// For each element of an array, whether it is well formed.
pub open spec fn elements_wf(vs: Seq<JsonView>) -> Seq<bool>
    decreases vs,
{
    Seq::new(vs.len(), |i: int| if 0 <= i < vs.len() { json_wf(vs[i]) } else { true })
}

/// For each member of an object, whether its value is well formed.
pub open spec fn members_wf(kvs: Seq<(Seq<char>, JsonView)>) -> Seq<bool>
    decreases kvs,
{
    Seq::new(kvs.len(), |i: int| if 0 <= i < kvs.len() { json_wf(kvs[i].1) } else { true })
}

/// Whether every object in document `d` has its members in strictly
/// increasing key order, as in a map ordered by key.
pub open spec fn doc_wf(d: DocView) -> bool
    decreases d,
{
    match d {
        DocView::List { value, .. } => all_true(doc_elements_wf(value)),
        DocView::Object { value, .. } => keys_sorted(value) && all_true(doc_members_wf(value)),
        _ => true,
    }
}

/// For each element of a list, whether it is well formed.
pub open spec fn doc_elements_wf(vs: Seq<DocView>) -> Seq<bool>
    decreases vs,
{
    Seq::new(vs.len(), |i: int| if 0 <= i < vs.len() { doc_wf(vs[i]) } else { true })
}

/// For each member of an object, whether its value is well formed.
pub open spec fn doc_members_wf(kvs: Seq<(Seq<char>, DocView)>) -> Seq<bool>
    decreases kvs,
{
    Seq::new(kvs.len(), |i: int| if 0 <= i < kvs.len() { doc_wf(kvs[i].1) } else { true })
}

/// No string comes before itself.
pub proof fn lemma_key_lt_irreflexive(a: Seq<u8>, i: int)
    requires
        0 <= i,
    ensures
        !bytes_lt_from(a, a, i),
    decreases a.len() - i,
{
    if i < a.len() {
        lemma_key_lt_irreflexive(a, i + 1);
    }
}

/// Members in strictly increasing key order have distinct keys.
pub proof fn lemma_sorted_keys_distinct<V>(kvs: Seq<(Seq<char>, V)>)
    requires
        keys_sorted(kvs),
    ensures
        forall|a: int, b: int| 0 <= a < b < kvs.len() ==> #[trigger] kvs[a].0 != #[trigger] kvs[b].0,
{
    assert forall|a: int, b: int| 0 <= a < b < kvs.len() implies #[trigger] kvs[a].0
        != #[trigger] kvs[b].0 by {
        lemma_key_lt_irreflexive(vstd::utf8::encode_utf8(kvs[a].0), 0);
        assert(key_lt(kvs[a].0, kvs[b].0));
    }
}

/// A well-formed value has distinct keys in each of its objects.
pub proof fn lemma_wf_keys_distinct(j: JsonView)
    requires
        json_wf(j),
    ensures
        keys_distinct(j),
    decreases j,
{
    match j {
        JsonView::Array(vs) => {
            assert forall|i: int| 0 <= i < vs.len() implies #[trigger] elements_keys_distinct(vs)[i] by {
                assert(elements_wf(vs)[i]);
                lemma_wf_keys_distinct(vs[i]);
            }
            assert(all_true(elements_keys_distinct(vs)));
        },
        JsonView::Object(kvs) => {
            lemma_sorted_keys_distinct(kvs);
            assert forall|i: int| 0 <= i < kvs.len() implies #[trigger] members_keys_distinct(kvs)[i] by {
                assert(members_wf(kvs)[i]);
                lemma_wf_keys_distinct(kvs[i].1);
            }
            assert(all_true(members_keys_distinct(kvs)));
        },
        _ => {},
    }
}

/// Parsing a well-formed value gives a well-formed document: its objects
/// keep the members in the order of the value's objects.
pub proof fn lemma_parsed_wf(j: JsonView, n: Seq<NestView>)
    requires
        json_wf(j),
        parse_spec(j, n) is Some,
    ensures
        doc_wf(parse_spec(j, n).unwrap()),
    decreases j,
{
    match j {
        JsonView::Array(vs) => {
            let docs = parse_elements(vs, n);
            let d = parse_spec(j, n).unwrap();
            if d is List {
                let value = d->List_value;
                assert forall|i: int| 0 <= i < value.len() implies #[trigger] doc_elements_wf(value)[i] by {
                    assert(elements_wf(vs)[i]);
                    assert(parsed_types(docs)[i] is Some);
                    assert(docs[i] == parse_spec(vs[i], n.push(NestView::ListElement(i as nat))));
                    lemma_parsed_wf(vs[i], n.push(NestView::ListElement(i as nat)));
                }
                assert(all_true(doc_elements_wf(value)));
            }
        },
        JsonView::Object(kvs) => {
            let docs = parse_members(kvs, n);
            let d = parse_spec(j, n).unwrap();
            let value = d->Object_value;
            assert forall|i: int| 0 <= i < value.len() implies #[trigger] doc_members_wf(value)[i] by {
                assert(members_wf(kvs)[i]);
                assert(docs[i] == parse_spec(kvs[i].1, n.push(NestView::MapKey(kvs[i].0))));
                lemma_parsed_wf(kvs[i].1, n.push(NestView::MapKey(kvs[i].0)));
            }
            assert forall|a: int, b: int| 0 <= a < b < value.len() implies key_lt(
                #[trigger] value[a].0,
                #[trigger] value[b].0,
            ) by {
                assert(key_lt(kvs[a].0, kvs[b].0));
            }
            assert(all_true(doc_members_wf(value)));
        },
        _ => {},
    }
}

/// Whether every element of `s` holds.
pub open spec fn all_true(s: Seq<bool>) -> bool {
    forall|i: int| 0 <= i < s.len() ==> #[trigger] s[i]
}

/// The step from a JSON value to its `i`-th child.
pub open spec fn step_of(j: JsonView, i: int) -> NestView {
    match j {
        JsonView::Object(kvs) => NestView::MapKey(kvs[i].0),
        _ => NestView::ListElement(i as nat),
    }
}

/// The `i`-th child of a JSON value.
pub open spec fn child_json(j: JsonView, i: int) -> JsonView {
    match j {
        JsonView::Array(vs) => vs[i],
        JsonView::Object(kvs) => kvs[i].1,
        _ => j,
    }
}

proof fn lemma_first_concat(a: Seq<DocView>, b: Seq<DocView>, t: Seq<NestView>)
    ensures
        first_with_nesting(a + b, t) == (if first_with_nesting(a, t) is Some {
            first_with_nesting(a, t)
        } else {
            first_with_nesting(b, t)
        }),
    decreases a.len(),
{
    if a.len() > 0 {
        assert((a + b).drop_first() =~= a.drop_first() + b);
        lemma_first_concat(a.drop_first(), b, t);
    } else {
        assert(a + b =~= b);
    }
}

proof fn lemma_prefix_push(n: Seq<NestView>, s: NestView, t: Seq<NestView>)
    requires
        nesting_prefix(n.push(s), t),
    ensures
        nesting_prefix(n, t),
        t.len() > n.len(),
        t[n.len() as int] == s,
{
    assert(t.subrange(0, n.len() as int) =~= t.subrange(0, (n.len() + 1) as int).subrange(0, n.len() as int));
    assert(t[n.len() as int] == t.subrange(0, (n.len() + 1) as int)[n.len() as int]);
    assert(n.push(s).subrange(0, n.len() as int) =~= n);
}

/// The facts that tie a parsed document to the JSON value it came from:
/// its children are the parsed children of the value.
pub proof fn lemma_parsed_children(j: JsonView, n: Seq<NestView>)
    requires
        parse_spec(j, n) is Some,
    ensures
        doc_nesting(parse_spec(j, n).unwrap()) == n,
        num_children(parse_spec(j, n).unwrap()) > 0 ==> (j is Array || j is Object),
        forall|i: int|
            0 <= i < num_children(parse_spec(j, n).unwrap()) ==> parse_spec(
                #[trigger] child_json(j, i),
                n.push(step_of(j, i)),
            ) == Some(child_at(parse_spec(j, n).unwrap(), i)),
        j is Array && num_children(parse_spec(j, n).unwrap()) > 0 ==> num_children(
            parse_spec(j, n).unwrap(),
        ) == j->Array_0.len(),
        j is Object ==> num_children(parse_spec(j, n).unwrap()) == j->Object_0.len(),
{
    match j {
        JsonView::Array(vs) => {
            let docs = parse_elements(vs, n);
            assert forall|i: int| 0 <= i < num_children(parse_spec(j, n).unwrap()) implies parse_spec(
                #[trigger] child_json(j, i),
                n.push(step_of(j, i)),
            ) == Some(child_at(parse_spec(j, n).unwrap(), i)) by {
                assert(docs[i] == parse_spec(vs[i], n.push(NestView::ListElement(i as nat))));
                assert(parsed_types(docs)[i] is Some);
            }
        },
        JsonView::Object(kvs) => {
            let docs = parse_members(kvs, n);
            assert forall|i: int| 0 <= i < num_children(parse_spec(j, n).unwrap()) implies parse_spec(
                #[trigger] child_json(j, i),
                n.push(step_of(j, i)),
            ) == Some(child_at(parse_spec(j, n).unwrap(), i)) by {
                assert(docs[i] == parse_spec(kvs[i].1, n.push(NestView::MapKey(kvs[i].0))));
            }
        },
        _ => {},
    }
}

/// Searching a parsed document: paths outside it are not found, every node
/// is found by its own path, and every node's path begins with the root's.
proof fn lemma_search_parsed(j: JsonView, n: Seq<NestView>)
    requires
        parse_spec(j, n) is Some,
        keys_distinct(j),
    ensures
        forall|t: Seq<NestView>| !nesting_prefix(n, t) ==> first_with_nesting(
            preorder(parse_spec(j, n).unwrap()),
            t,
        ) is None,
        forall|k: int|
            0 <= k < preorder(parse_spec(j, n).unwrap()).len() ==> {
                let x = #[trigger] preorder(parse_spec(j, n).unwrap())[k];
                &&& first_with_nesting(preorder(parse_spec(j, n).unwrap()), doc_nesting(x)) == Some(x)
                &&& nesting_prefix(n, doc_nesting(x))
            },
    decreases j, 1nat, 0nat,
{
    let d = parse_spec(j, n).unwrap();
    let nc = num_children(d) as int;
    lemma_parsed_children(j, n);
    lemma_search_children(j, n, nc);
    let p = preorder(d);
    let desc = descendants_upto(d, nc);
    assert(p == seq![d] + desc);
    assert(doc_nesting(d) == n);
    assert(n.subrange(0, n.len() as int) =~= n);
    assert forall|t: Seq<NestView>| !nesting_prefix(n, t) implies first_with_nesting(p, t) is None by {
        lemma_first_concat(seq![d], desc, t);
        assert(seq![d].drop_first() =~= Seq::<DocView>::empty());
        assert(t != n);
        assert(seq![d][0] == d);
        assert(first_with_nesting(Seq::<DocView>::empty(), t) is None);
        assert(first_with_nesting(seq![d], t) is None);
        assert forall|i: int| 0 <= i < nc implies !nesting_prefix(n.push(step_of(j, i)), t) by {
            if nesting_prefix(n.push(step_of(j, i)), t) {
                lemma_prefix_push(n, step_of(j, i), t);
            }
        }
    }
    assert forall|k: int| 0 <= k < p.len() implies {
        let x = #[trigger] p[k];
        &&& first_with_nesting(p, doc_nesting(x)) == Some(x)
        &&& nesting_prefix(n, doc_nesting(x))
    } by {
        let x = p[k];
        if k == 0 {
            assert(x == d);
        } else {
            assert(x == desc[k - 1]);
            let i = choose|i: int| 0 <= i < nc && nesting_prefix(n.push(step_of(j, i)), doc_nesting(x));
            lemma_prefix_push(n, step_of(j, i), doc_nesting(x));
            assert(doc_nesting(x) != n);
            lemma_first_concat(seq![d], desc, doc_nesting(x));
            assert(seq![d].drop_first() =~= Seq::<DocView>::empty());
            assert(seq![d][0] == d);
            assert(first_with_nesting(Seq::<DocView>::empty(), doc_nesting(x)) is None);
            assert(first_with_nesting(seq![d], doc_nesting(x)) is None);
            assert(first_with_nesting(desc, doc_nesting(x)) == Some(x));
            assert(doc_nesting(x).subrange(0, n.len() as int) == n);
        }
    }
}

/// The same facts for the nodes below the first `m` children of a parsed
/// document: a path that begins with the path of child `i` is searched for
/// in that child's nodes only, a path that begins with no child's path is
/// not found, and every node lies below one of the children and is found
/// there by its own path.
proof fn lemma_search_children(j: JsonView, n: Seq<NestView>, m: int)
    requires
        parse_spec(j, n) is Some,
        keys_distinct(j),
        0 <= m <= num_children(parse_spec(j, n).unwrap()),
    ensures
        forall|t: Seq<NestView>, i: int|
            0 <= i < m && #[trigger] nesting_prefix(n.push(step_of(j, i)), t) ==> first_with_nesting(
                descendants_upto(parse_spec(j, n).unwrap(), m),
                t,
            ) == first_with_nesting(preorder(child_at(parse_spec(j, n).unwrap(), i)), t),
        forall|t: Seq<NestView>|
            (forall|i: int| 0 <= i < m ==> !#[trigger] nesting_prefix(n.push(step_of(j, i)), t))
                ==> first_with_nesting(descendants_upto(parse_spec(j, n).unwrap(), m), t) is None,
        forall|k: int|
            0 <= k < descendants_upto(parse_spec(j, n).unwrap(), m).len() ==> exists|i: int|
                0 <= i < m && nesting_prefix(
                    n.push(step_of(j, i)),
                    doc_nesting(#[trigger] descendants_upto(parse_spec(j, n).unwrap(), m)[k]),
                ) && first_with_nesting(
                    preorder(child_at(parse_spec(j, n).unwrap(), i)),
                    doc_nesting(descendants_upto(parse_spec(j, n).unwrap(), m)[k]),
                ) == Some(descendants_upto(parse_spec(j, n).unwrap(), m)[k]),
    decreases j, 0nat, m,
{
    let d = parse_spec(j, n).unwrap();
    if m > 0 {
        lemma_search_children(j, n, m - 1);
        lemma_parsed_children(j, n);
        let c = child_at(d, m - 1);
        let s = step_of(j, m - 1);
        match j {
            JsonView::Array(vs) => {
                assert(child_json(j, m - 1) == vs[m - 1]);
                assert(elements_keys_distinct(vs)[m - 1]);
                lemma_search_parsed(vs[m - 1], n.push(s));
            },
            JsonView::Object(kvs) => {
                assert(child_json(j, m - 1) == kvs[m - 1].1);
                assert(members_keys_distinct(kvs)[m - 1]);
                lemma_search_parsed(kvs[m - 1].1, n.push(s));
            },
            _ => {},
        }
        assert(parse_spec(child_json(j, m - 1), n.push(s)) == Some(c));
        let before = descendants_upto(d, m - 1);
        let here = preorder(c);
        assert(descendants_upto(d, m) == before + here);
        // the steps to different children differ
        assert forall|i: int| 0 <= i < m - 1 implies #[trigger] step_of(j, i) != s by {
            match j {
                JsonView::Object(kvs) => {
                    assert(kvs[i].0 != kvs[m - 1].0);
                },
                _ => {},
            }
        }
        assert forall|t: Seq<NestView>, i: int|
            0 <= i < m && #[trigger] nesting_prefix(n.push(step_of(j, i)), t) implies first_with_nesting(
            before + here,
            t,
        ) == first_with_nesting(preorder(child_at(d, i)), t) by {
            lemma_first_concat(before, here, t);
            lemma_prefix_push(n, step_of(j, i), t);
            if i < m - 1 {
                if nesting_prefix(n.push(s), t) {
                    lemma_prefix_push(n, s, t);
                }
            } else {
                assert forall|i2: int| 0 <= i2 < m - 1 implies !#[trigger] nesting_prefix(
                    n.push(step_of(j, i2)),
                    t,
                ) by {
                    if nesting_prefix(n.push(step_of(j, i2)), t) {
                        lemma_prefix_push(n, step_of(j, i2), t);
                    }
                }
            }
        }
        assert forall|t: Seq<NestView>|
            (forall|i: int| 0 <= i < m ==> !#[trigger] nesting_prefix(n.push(step_of(j, i)), t))
                implies first_with_nesting(before + here, t) is None by {
            lemma_first_concat(before, here, t);
            assert(!nesting_prefix(n.push(step_of(j, m - 1)), t));
        }
        assert forall|k: int| 0 <= k < (before + here).len() implies exists|i: int|
            0 <= i < m && nesting_prefix(n.push(step_of(j, i)), doc_nesting(#[trigger] (before + here)[k]))
                && first_with_nesting(preorder(child_at(d, i)), doc_nesting((before + here)[k])) == Some(
                (before + here)[k],
            ) by {
            if k < before.len() {
                assert((before + here)[k] == before[k]);
            } else {
                let x = here[k - before.len()];
                assert((before + here)[k] == x);
                assert(nesting_prefix(n.push(step_of(j, m - 1)), doc_nesting(x)));
            }
        }
    }
}


/// Parsing records in the root the path it was given, and in every node a
/// path that begins with it.
pub proof fn lemma_parsed_paths(j: JsonView, n: Seq<NestView>)
    requires
        parse_spec(j, n) is Some,
        json_wf(j),
    ensures
        doc_nesting(parse_spec(j, n).unwrap()) == n,
        forall|k: int|
            0 <= k < preorder(parse_spec(j, n).unwrap()).len() ==> nesting_prefix(
                n,
                doc_nesting(#[trigger] preorder(parse_spec(j, n).unwrap())[k]),
            ),
{
    lemma_wf_keys_distinct(j);
    lemma_parsed_children(j, n);
    lemma_search_parsed(j, n);
}

/// In a document parsed from a well-formed JSON value, each node's path is
/// its own: finding a node by the path recorded in it gives that node back.
pub proof fn lemma_find_own_nesting(j: JsonView, k: int)
    requires
        parse_spec(j, Seq::empty()) is Some,
        json_wf(j),
        0 <= k < preorder(parse_spec(j, Seq::empty()).unwrap()).len(),
    ensures
        first_with_nesting(
            preorder(parse_spec(j, Seq::empty()).unwrap()),
            doc_nesting(preorder(parse_spec(j, Seq::empty()).unwrap())[k]),
        ) == Some(preorder(parse_spec(j, Seq::empty()).unwrap())[k]),
{
    lemma_wf_keys_distinct(j);
    lemma_search_parsed(j, Seq::empty());
}

/// Finding by a path that no node of the document holds gives nothing.
pub proof fn lemma_find_unheld_path(p: Seq<DocView>, n: Seq<NestView>)
    requires
        forall|k: int| 0 <= k < p.len() ==> doc_nesting(#[trigger] p[k]) != n,
    ensures
        first_with_nesting(p, n) is None,
    decreases p.len(),
{
    if p.len() > 0 {
        assert(doc_nesting(p[0]) != n);
        assert forall|k: int| 0 <= k < p.drop_first().len() implies doc_nesting(
            #[trigger] p.drop_first()[k],
        ) != n by {
            assert(p.drop_first()[k] == p[k + 1]);
        }
        lemma_find_unheld_path(p.drop_first(), n);
    }
}

} // verus!
