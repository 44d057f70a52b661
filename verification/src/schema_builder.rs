use vstd::prelude::*;

use crate::json2::{
    all_true, doc_entry_views, doc_view, group_view_facts, doc_wf, doc_members_wf, json_wf, lemma_parsed_wf, lemma_sorted_keys_distinct, parse_elements, parse_members, parse_spec,
    parsed_types, DocTypeView, DocView, JsonView, NestView, ParsedDocument,
};

verus! {

// ---------------------------------------------------------------------------
// Field types
// ---------------------------------------------------------------------------

/// The kinds of field a user can pick for a schema field.
#[derive(Clone, PartialEq, Eq, Structural, Copy, Debug)]
pub enum FieldType {
    String,
    Number,
    Boolean,
    Null,
    Object,
}

/// Every kind of field, in the order the editor offers them.
pub const ALL_FIELD_TYPES: [FieldType; 5] = [
    FieldType::String,
    FieldType::Number,
    FieldType::Boolean,
    FieldType::Null,
    FieldType::Object,
];

/// The name under which a field type is shown.
pub open spec fn field_type_name(ft: FieldType) -> Seq<char> {
    match ft {
        FieldType::String => "String"@,
        FieldType::Number => "Number"@,
        FieldType::Boolean => "Boolean"@,
        FieldType::Null => "Null"@,
        FieldType::Object => "Object"@,
    }
}

impl FieldType {
    /// The name under which this field type is shown.
    pub fn to_string(&self) -> (r: String)
        ensures
            r@ == field_type_name(*self),
    {
        let s = match self {
            FieldType::String => "String",
            FieldType::Number => "Number",
            FieldType::Boolean => "Boolean",
            FieldType::Null => "Null",
            FieldType::Object => "Object",
        };
        s.to_owned()
    }
}

// ---------------------------------------------------------------------------
// Schemas
// ---------------------------------------------------------------------------

/// What a schema node is called: the root, or the name of an object member.
#[derive(Debug)]
pub enum FieldIdentifier {
    Root,
    Name(String),
}

pub enum FieldIdView {
    Root,
    Name(Seq<char>),
}

impl View for FieldIdentifier {
    type V = FieldIdView;

    open spec fn view(&self) -> FieldIdView {
        match self {
            FieldIdentifier::Root => FieldIdView::Root,
            FieldIdentifier::Name(n) => FieldIdView::Name(n@),
        }
    }
}

impl Clone for FieldIdentifier {
    fn clone(&self) -> (r: Self)
        ensures
            r == *self,
    {
        match self {
            FieldIdentifier::Root => FieldIdentifier::Root,
            FieldIdentifier::Name(n) => FieldIdentifier::Name(n.clone()),
        }
    }
}

/// The path of field identifiers from the root of a schema to one of its nodes.
pub type Indent = Vec<FieldIdentifier>;

pub open spec fn indent_view(i: Seq<FieldIdentifier>) -> Seq<FieldIdView> {
    i.map_values(|f: FieldIdentifier| f@)
}

/// A copy of a path.
pub fn copy_indent(i: &Vec<FieldIdentifier>) -> (r: Vec<FieldIdentifier>)
    ensures
        r@ == i@,
{
    let mut r: Vec<FieldIdentifier> = Vec::new();
    let mut k: usize = 0;
    while k < i.len()
        invariant
            0 <= k <= i.len(),
            r@ == i@.subrange(0, k as int),
        decreases i.len() - k,
    {
        r.push(i[k].clone());
        k = k + 1;
        assert(r@ =~= i@.subrange(0, k as int));
    }
    assert(i@.subrange(0, k as int) =~= i@);
    r
}

/// A node of a schema inferred from a JSON document.
pub struct Schema {
    pub field_id: FieldIdentifier,
    pub typ: SchemaType,
    pub optional: bool,
}

/// What a schema node holds, with an example value for scalars.
pub enum SchemaType {
    String { example: String },
    Number { example: i128 },
    Boolean { example: bool },
    Null,
    List { schema: Box<Schema> },
    /// Members in the order of the object they were inferred from.
    Object { map: Vec<(String, Schema)> },
    CameFromUnsupportedList,
}

pub struct SchemaView {
    pub field_id: FieldIdView,
    pub typ: SchemaTypeView,
    pub optional: bool,
}

pub enum SchemaTypeView {
    String { example: Seq<char> },
    Number { example: i128 },
    Boolean { example: bool },
    Null,
    List { schema: Box<SchemaView> },
    Object { map: Seq<(Seq<char>, SchemaView)> },
    CameFromUnsupportedList,
}

pub open spec fn schema_view(s: Schema) -> SchemaView
    decreases s,
{
    SchemaView { field_id: s.field_id@, typ: schema_type_view(s.typ), optional: s.optional }
}

pub open spec fn schema_type_view(t: SchemaType) -> SchemaTypeView
    decreases t,
{
    match t {
        SchemaType::String { example } => SchemaTypeView::String { example: example@ },
        SchemaType::Number { example } => SchemaTypeView::Number { example },
        SchemaType::Boolean { example } => SchemaTypeView::Boolean { example },
        SchemaType::Null => SchemaTypeView::Null,
        SchemaType::List { schema } => SchemaTypeView::List { schema: Box::new(schema_view(*schema)) },
        SchemaType::Object { map } => SchemaTypeView::Object { map: schema_entry_views(map) },
        SchemaType::CameFromUnsupportedList => SchemaTypeView::CameFromUnsupportedList,
    }
}

pub open spec fn schema_entry_views(v: Vec<(String, Schema)>) -> Seq<(Seq<char>, SchemaView)>
    decreases v,
{
    Seq::new(
        v@.len(),
        |i: int|
            if 0 <= i < v@.len() {
                (v@[i].0@, schema_view(v@[i].1))
            } else {
                (Seq::empty(), SchemaView { field_id: FieldIdView::Root, typ: SchemaTypeView::Null, optional: false })
            },
    )
}

impl View for Schema {
    type V = SchemaView;

    open spec fn view(&self) -> SchemaView {
        schema_view(*self)
    }
}

pub broadcast proof fn lemma_schema_entry_views(v: Vec<(String, Schema)>)
    ensures
        #[trigger] schema_entry_views(v).len() == v@.len(),
        forall|k: int|
            0 <= k < v@.len() ==> #[trigger] schema_entry_views(v)[k] == (
                v@[k].0@,
                schema_view(v@[k].1),
            ),
{
}

/// A copy of a schema node's shape.
pub fn clone_schema_type(t: &SchemaType) -> (r: SchemaType)
    ensures
        schema_type_view(r) == schema_type_view(*t),
    decreases t, 0nat,
{
    broadcast use lemma_schema_entry_views;

    match t {
        SchemaType::String { example } => SchemaType::String { example: example.clone() },
        SchemaType::Number { example } => SchemaType::Number { example: *example },
        SchemaType::Boolean { example } => SchemaType::Boolean { example: *example },
        SchemaType::Null => SchemaType::Null,
        SchemaType::List { schema } => {
            assert(decreases_to!(*t => (*t)->List_schema));
            SchemaType::List { schema: Box::new(clone_schema(schema)) }
        },
        SchemaType::Object { map } => {
            let mut r: Vec<(String, Schema)> = Vec::new();
            let mut i: usize = 0;
            while i < map.len()
                invariant
                    0 <= i <= map.len(),
                    r.len() == i,
                    *t == (SchemaType::Object { map: *map }),
                    forall|k: int|
                        0 <= k < i ==> r@[k].0@ == map@[k].0@ && #[trigger] schema_view(r@[k].1)
                            == schema_view(map@[k].1),
                decreases map.len() - i,
            {
                assert(decreases_to!(*t => (*t)->Object_map));
                assert(decreases_to!(map@[i as int] => map@[i as int].1));
                let key = map[i].0.clone();
                let inner = clone_schema(&map[i].1);
                r.push((key, inner));
                i = i + 1;
            }
            assert(schema_entry_views(r) =~= schema_entry_views(*map));
            SchemaType::Object { map: r }
        },
        SchemaType::CameFromUnsupportedList => SchemaType::CameFromUnsupportedList,
    }
}

/// A copy of a schema.
pub fn clone_schema(s: &Schema) -> (r: Schema)
    ensures
        r@ == s@,
    decreases s, 1nat,
{
    assert(decreases_to!(*s => s.typ));
    Schema { field_id: s.field_id.clone(), typ: clone_schema_type(&s.typ), optional: s.optional }
}

impl Clone for Schema {
    /// A copy of the schema.
    fn clone(&self) -> (r: Self)
        ensures
            r@ == self@,
    {
        clone_schema(self)
    }
}

impl Clone for SchemaType {
    /// A copy of the shape.
    fn clone(&self) -> (r: Self)
        ensures
            schema_type_view(r) == schema_type_view(*self),
    {
        clone_schema_type(self)
    }
}

/// The field type of a schema node with this shape (lists have none).
pub open spec fn field_type_of(t: SchemaTypeView) -> Option<FieldType> {
    match t {
        SchemaTypeView::String { .. } => Some(FieldType::String),
        SchemaTypeView::Number { .. } => Some(FieldType::Number),
        SchemaTypeView::Boolean { .. } => Some(FieldType::Boolean),
        SchemaTypeView::Null => Some(FieldType::Null),
        SchemaTypeView::Object { .. } => Some(FieldType::Object),
        _ => None,
    }
}

/// The shape of a fresh node of field type `ft`, with an empty example.
pub open spec fn schema_type_for(ft: FieldType) -> SchemaTypeView {
    match ft {
        FieldType::String => SchemaTypeView::String { example: Seq::empty() },
        FieldType::Number => SchemaTypeView::Number { example: 0 },
        FieldType::Boolean => SchemaTypeView::Boolean { example: false },
        FieldType::Null => SchemaTypeView::Null,
        FieldType::Object => SchemaTypeView::Object { map: Seq::empty() },
    }
}

/// A fresh node made for a field type has that field type.
pub proof fn lemma_field_type_round_trip(ft: FieldType)
    ensures
        field_type_of(schema_type_for(ft)) == Some(ft),
{
}

impl SchemaType {
    /// A fresh node shape of field type `ft`, with an empty example.
    pub fn from_field_type(ft: FieldType) -> (r: SchemaType)
        ensures
            schema_type_view(r) == schema_type_for(ft),
    {
        match ft {
            FieldType::String => SchemaType::String { example: String::new() },
            FieldType::Number => SchemaType::Number { example: 0 },
            FieldType::Boolean => SchemaType::Boolean { example: false },
            FieldType::Null => SchemaType::Null,
            FieldType::Object => {
                let map: Vec<(String, Schema)> = Vec::new();
                assert(schema_entry_views(map) =~= Seq::empty());
                SchemaType::Object { map }
            },
        }
    }
}

// ---------------------------------------------------------------------------
// Inferring a schema from a parsed document
// ---------------------------------------------------------------------------

/// The schema inferred from document `d` for a node called `fid`, or `None`
/// where `d` holds an empty list (which a parsed document never does).
/// A list is described by the schema of its first element; an object by
/// the schemas of its members, each called by its key.
pub open spec fn schema_from_doc(d: DocView, fid: FieldIdView) -> Option<SchemaView>
    decreases d,
{
    let typ = match d {
        DocView::Null { .. } => Some(SchemaTypeView::Null),
        DocView::Bool { value, .. } => Some(SchemaTypeView::Boolean { example: value }),
        DocView::String { value, .. } => Some(SchemaTypeView::String { example: value }),
        DocView::Number { value, .. } => Some(SchemaTypeView::Number { example: value }),
        DocView::List { value, .. } => {
            if value.len() == 0 {
                None
            } else {
                match schema_from_doc(value[0], fid) {
                    Some(s) => Some(SchemaTypeView::List { schema: Box::new(s) }),
                    None => None,
                }
            }
        },
        DocView::Object { value, .. } => {
            let ss = member_schemas(value);
            if forall|i: int| 0 <= i < value.len() ==> #[trigger] ss[i] is Some {
                Some(
                    SchemaTypeView::Object {
                        map: Seq::new(value.len(), |i: int| (value[i].0, ss[i].unwrap())),
                    },
                )
            } else {
                None
            }
        },
        DocView::EmptyCantInfer { .. } => Some(SchemaTypeView::CameFromUnsupportedList),
        DocView::NonHomogeneousCantParse { .. } => Some(SchemaTypeView::CameFromUnsupportedList),
    };
    match typ {
        Some(t) => Some(SchemaView { field_id: fid, typ: t, optional: false }),
        None => None,
    }
}

/// The schemas of an object's members, each called by its key.
pub open spec fn member_schemas(value: Seq<(Seq<char>, DocView)>) -> Seq<Option<SchemaView>>
    decreases value,
{
    Seq::new(
        value.len(),
        |i: int|
            if 0 <= i < value.len() {
                schema_from_doc(value[i].1, FieldIdView::Name(value[i].0))
            } else {
                None
            },
    )
}


/// A schema can be inferred from every document that parsing gives: a
/// parsed document holds no empty list.
pub proof fn lemma_parsed_has_schema(j: JsonView, n: Seq<NestView>, fid: FieldIdView)
    requires
        parse_spec(j, n) is Some,
    ensures
        schema_from_doc(parse_spec(j, n).unwrap(), fid) is Some,
    decreases j,
{
    match j {
        JsonView::Array(vs) => {
            let docs = parse_elements(vs, n);
            let types = parsed_types(docs);
            if parse_spec(j, n).unwrap() is List {
                assert(!(forall|i: int|
                    0 <= i < vs.len() ==> #[trigger] types[i] == Some(DocTypeView::EmptyCantInfer)));
                assert(vs.len() > 0);
                assert(types[0] is Some);
                assert(docs[0] == parse_spec(vs[0], n.push(NestView::ListElement(0))));
                lemma_parsed_has_schema(vs[0], n.push(NestView::ListElement(0)), fid);
            }
        },
        JsonView::Object(kvs) => {
            let docs = parse_members(kvs, n);
            let d = parse_spec(j, n).unwrap();
            let value = d->Object_value;
            assert forall|i: int| 0 <= i < value.len() implies #[trigger] member_schemas(value)[i] is Some by {
                assert(docs[i] is Some);
                assert(docs[i] == parse_spec(kvs[i].1, n.push(NestView::MapKey(kvs[i].0))));
                lemma_parsed_has_schema(kvs[i].1, n.push(NestView::MapKey(kvs[i].0)), FieldIdView::Name(kvs[i].0));
            }
        },
        _ => {},
    }
}

// ---------------------------------------------------------------------------
// Walking a schema
// ---------------------------------------------------------------------------

/// The nodes of `s` in depth-first pre-order, `s` first, each with its path:
/// `indent` followed by the identifiers from `s` down to the node.
pub open spec fn dfs(s: SchemaView, indent: Seq<FieldIdView>) -> Seq<(SchemaView, Seq<FieldIdView>)>
    decreases s, 1nat, 0nat,
{
    seq![(s, indent.push(s.field_id))] + dfs_members(s, indent.push(s.field_id), member_count(s))
}

/// The number of members of an object node.
pub open spec fn member_count(s: SchemaView) -> int {
    match s.typ {
        SchemaTypeView::Object { map } => map.len() as int,
        _ => 0,
    }
}

/// The walks of the first `k` members of `s`, one after another, under `path`.
pub open spec fn dfs_members(s: SchemaView, path: Seq<FieldIdView>, k: int) -> Seq<
    (SchemaView, Seq<FieldIdView>),
>
    decreases s, 0nat, k,
{
    if k <= 0 {
        seq![]
    } else {
        match s.typ {
            SchemaTypeView::Object { map } => if k > map.len() {
                seq![]
            } else {
                dfs_members(s, path, k - 1) + dfs(map[k - 1].1, path)
            },
            _ => seq![],
        }
    }
}

/// A node of a schema with its path.
pub type SchemaWithIndent<'a> = (&'a Schema, Indent);

pub open spec fn walk_views(r: Seq<SchemaWithIndent>) -> Seq<(SchemaView, Seq<FieldIdView>)> {
    r.map_values(|e: SchemaWithIndent| (schema_view(*e.0), indent_view(e.1@)))
}

// ---------------------------------------------------------------------------
// Finding a node by its path
// ---------------------------------------------------------------------------

/// Why a path does not lead to a node.
#[derive(Debug, PartialEq, Eq, Structural, Copy, Clone)]
pub enum SchemaPathError {
    /// The path goes below a node that is not an object, or names the root below the top.
    BadIndent,
    /// The path names a member that the object does not have.
    NoSuchField,
}

/// The index of the first member of `map` whose key is `k`.
pub open spec fn key_index<V>(map: Seq<(Seq<char>, V)>, k: Seq<char>) -> Option<int>
    decreases map.len(),
{
    if map.len() == 0 {
        None
    } else if map[0].0 == k {
        Some(0)
    } else {
        match key_index(map.drop_first(), k) {
            Some(i) => Some(i + 1),
            None => None,
        }
    }
}

pub proof fn lemma_key_index<V>(map: Seq<(Seq<char>, V)>, k: Seq<char>)
    ensures
        match key_index(map, k) {
            Some(i) => 0 <= i < map.len() && map[i].0 == k && forall|j: int|
                0 <= j < i ==> #[trigger] map[j].0 != k,
            None => forall|j: int| 0 <= j < map.len() ==> #[trigger] map[j].0 != k,
        },
    decreases map.len(),
{
    if map.len() > 0 && map[0].0 != k {
        lemma_key_index(map.drop_first(), k);
        assert forall|j: int| 1 <= j < map.len() implies #[trigger] map[j] == map.drop_first()[j - 1] by {}
    }
}

/// The node that `path` leads to from `s`. The first identifier stands for
/// `s` itself; each following one names a member of the object reached so far.
pub open spec fn lookup(s: SchemaView, path: Seq<FieldIdView>) -> Result<SchemaView, SchemaPathError>
    decreases path.len(),
{
    if path.len() <= 1 {
        Ok(s)
    } else {
        match s.typ {
            SchemaTypeView::Object { map } => match path[1] {
                FieldIdView::Root => Err(SchemaPathError::BadIndent),
                FieldIdView::Name(k) => match key_index(map, k) {
                    Some(i) => lookup(map[i].1, path.drop_first()),
                    None => Err(SchemaPathError::NoSuchField),
                },
            },
            _ => Err(SchemaPathError::BadIndent),
        }
    }
}

/// `s` with its members replaced by `map`.
pub open spec fn with_members(s: SchemaView, map: Seq<(Seq<char>, SchemaView)>) -> SchemaView {
    SchemaView { typ: SchemaTypeView::Object { map }, ..s }
}

/// `s` with the node that `path` leads to replaced by `sub`.
pub open spec fn replace_at(s: SchemaView, path: Seq<FieldIdView>, sub: SchemaView) -> SchemaView
    decreases path.len(),
{
    if path.len() <= 1 {
        sub
    } else {
        match s.typ {
            SchemaTypeView::Object { map } => match path[1] {
                FieldIdView::Root => s,
                FieldIdView::Name(k) => match key_index(map, k) {
                    Some(i) => with_members(
                        s,
                        map.update(i, (map[i].0, replace_at(map[i].1, path.drop_first(), sub))),
                    ),
                    None => s,
                },
            },
            _ => s,
        }
    }
}

proof fn lemma_member_update(s: Schema, i: int)
    requires
        s.typ is Object,
        0 <= i < s.typ->map@.len(),
    ensures
        forall|ns: Schema|
            ns.field_id == s.field_id && ns.optional == s.optional && ns.typ is Object
                && ns.typ->map@ == s.typ->map@.update(i, (s.typ->map@[i].0, ns.typ->map@[i].1))
                ==> #[trigger] schema_view(ns) == with_members(
                schema_view(s),
                schema_entry_views(s.typ->map).update(
                    i,
                    (s.typ->map@[i].0@, schema_view(ns.typ->map@[i].1)),
                ),
            ),
        forall|ns: Schema|
            ns.field_id == s.field_id && ns.optional == s.optional && ns.typ is Object
                && ns.typ->map@ == s.typ->map@.update(i, (s.typ->map@[i].0, ns.typ->map@[i].1))
                && schema_view(ns.typ->map@[i].1) == schema_view(s.typ->map@[i].1)
                ==> #[trigger] schema_view(ns) == schema_view(s),
{
    broadcast use lemma_schema_entry_views;

    assert forall|ns: Schema|
        ns.field_id == s.field_id && ns.optional == s.optional && ns.typ is Object
            && ns.typ->map@ == s.typ->map@.update(
            i,
            (s.typ->map@[i].0, ns.typ->map@[i].1),
        ) implies #[trigger] schema_view(ns) == with_members(
        schema_view(s),
        schema_entry_views(s.typ->map).update(i, (s.typ->map@[i].0@, schema_view(ns.typ->map@[i].1))),
    ) by {
        assert(schema_entry_views(ns.typ->map) =~= schema_entry_views(s.typ->map).update(
            i,
            (s.typ->map@[i].0@, schema_view(ns.typ->map@[i].1)),
        ));
    }
    assert forall|ns: Schema|
        ns.field_id == s.field_id && ns.optional == s.optional && ns.typ is Object
            && ns.typ->map@ == s.typ->map@.update(i, (s.typ->map@[i].0, ns.typ->map@[i].1))
            && schema_view(ns.typ->map@[i].1) == schema_view(s.typ->map@[i].1) implies #[trigger] schema_view(ns)
        == schema_view(s) by {
        assert(schema_entry_views(ns.typ->map) =~= schema_entry_views(s.typ->map));
    }
}


/// Replacing the value of one member keeps the keys, so the first member
/// with a given key stays where it was.
proof fn lemma_key_index_update<V>(map: Seq<(Seq<char>, V)>, i: int, v: V, k: Seq<char>)
    requires
        0 <= i < map.len(),
    ensures
        key_index(map.update(i, (map[i].0, v)), k) == key_index(map, k),
{
    let m2 = map.update(i, (map[i].0, v));
    lemma_key_index(map, k);
    lemma_key_index(m2, k);
    assert forall|j: int| 0 <= j < map.len() implies #[trigger] m2[j].0 == map[j].0 by {}
    match key_index(map, k) {
        Some(a) => match key_index(m2, k) {
            Some(b) => {
                if a < b {
                    assert(m2[a].0 == k);
                } else if b < a {
                    assert(map[b].0 == k);
                }
            },
            None => {
                assert(m2[a].0 == k);
            },
        },
        None => match key_index(m2, k) {
            Some(b) => {
                assert(map[b].0 == k);
            },
            None => {},
        },
    }
}

/// After replacing the node that a path leads to, the path leads to the
/// new node.
pub proof fn lemma_lookup_after_replace(s: SchemaView, path: Seq<FieldIdView>, sub: SchemaView)
    requires
        lookup(s, path) is Ok,
    ensures
        lookup(replace_at(s, path, sub), path) == Ok::<SchemaView, SchemaPathError>(sub),
    decreases path.len(),
{
    if path.len() > 1 {
        match s.typ {
            SchemaTypeView::Object { map } => match path[1] {
                FieldIdView::Name(k) => {
                    let i = key_index(map, k).unwrap();
                    lemma_key_index(map, k);
                    let inner = replace_at(map[i].1, path.drop_first(), sub);
                    lemma_key_index_update(map, i, inner, k);
                    lemma_lookup_after_replace(map[i].1, path.drop_first(), sub);
                },
                _ => {},
            },
            _ => {},
        }
    }
}


// ---------------------------------------------------------------------------
// Walking and finding agree
// ---------------------------------------------------------------------------

/// Whether, all through `s`, the members of each object have distinct keys,
/// as the members of a map do, and each member is called by its key; every
/// schema inferred from a well-formed document is so (`from_parsed_doc`).
pub open spec fn members_named(s: SchemaView) -> bool
    decreases s,
{
    match s.typ {
        SchemaTypeView::Object { map } => {
            &&& forall|a: int, b: int| 0 <= a < b < map.len() ==> #[trigger] map[a].0 != #[trigger] map[b].0
            &&& forall|i: int| 0 <= i < map.len() ==> #[trigger] map[i].1.field_id == FieldIdView::Name(map[i].0)
            &&& all_true(members_named_each(map))
        },
        _ => true,
    }
}

/// For each member, whether its value's members are named by their keys.
pub open spec fn members_named_each(map: Seq<(Seq<char>, SchemaView)>) -> Seq<bool>
    decreases map,
{
    Seq::new(
        map.len(),
        |i: int|
            if 0 <= i < map.len() {
                members_named(map[i].1)
            } else {
                true
            },
    )
}

/// Every node that the walk of `s` under `indent` lists has a path that
/// begins with `indent` and the identifier of `s`, and the rest of the path
/// leads from `s` to that node.
proof fn lemma_walk_lookup(s: SchemaView, indent: Seq<FieldIdView>)
    requires
        members_named(s),
    ensures
        forall|k: int|
            0 <= k < dfs(s, indent).len() ==> {
                let e = #[trigger] dfs(s, indent)[k];
                &&& e.1.len() > indent.len()
                &&& e.1.subrange(0, indent.len() + 1 as int) == indent.push(s.field_id)
                &&& lookup(s, e.1.subrange(indent.len() as int, e.1.len() as int)) == Ok::<
                    SchemaView,
                    SchemaPathError,
                >(e.0)
            },
    decreases s, 1nat, 0nat,
{
    let path = indent.push(s.field_id);
    lemma_walk_members(s, path, member_count(s));
    let rest = dfs_members(s, path, member_count(s));
    assert(dfs(s, indent) == seq![(s, path)] + rest);
    assert forall|k: int| 0 <= k < dfs(s, indent).len() implies {
        let e = #[trigger] dfs(s, indent)[k];
        &&& e.1.len() > indent.len()
        &&& e.1.subrange(0, indent.len() + 1 as int) == indent.push(s.field_id)
        &&& lookup(s, e.1.subrange(indent.len() as int, e.1.len() as int)) == Ok::<
            SchemaView,
            SchemaPathError,
        >(e.0)
    } by {
        let e = dfs(s, indent)[k];
        if k == 0 {
            assert(e == (s, path));
            assert(path.subrange(0, indent.len() + 1 as int) =~= path);
            assert(path.subrange(indent.len() as int, path.len() as int).len() == 1);
        } else {
            assert(e == rest[k - 1]);
            let i = choose|i: int|
                0 <= i < member_count(s) && e.1.len() > path.len() && e.1.subrange(0, path.len() + 1 as int)
                    == path.push(s.typ->map[i].1.field_id) && lookup(
                    s.typ->map[i].1,
                    e.1.subrange(path.len() as int, e.1.len() as int),
                ) == Ok::<SchemaView, SchemaPathError>(e.0);
            let map = s.typ->map;
            let q = e.1.subrange(indent.len() as int, e.1.len() as int);
            assert(e.1.subrange(0, indent.len() + 1 as int) =~= e.1.subrange(0, path.len() + 1 as int).subrange(
                0,
                indent.len() + 1 as int,
            ));
            assert(path.push(map[i].1.field_id).subrange(0, indent.len() + 1 as int) =~= path);
            assert(q[0] == e.1[indent.len() as int]);
            assert(q[1] == e.1[path.len() as int]);
            assert(e.1[path.len() as int] == path.push(map[i].1.field_id)[path.len() as int]);
            assert(map[i].1.field_id == FieldIdView::Name(map[i].0));
            lemma_key_index(map, map[i].0);
            let ki = key_index(map, map[i].0).unwrap();
            if ki < i {
                assert(map[ki].0 != map[i].0);
            } else if ki > i {
                assert(map[i].0 != map[i].0);
            }
            assert(q.drop_first() =~= e.1.subrange(path.len() as int, e.1.len() as int));
        }
    }
}

/// The same for the walks of the first `m` members of `s` under `path`:
/// each listed node lies below one of those members.
proof fn lemma_walk_members(s: SchemaView, path: Seq<FieldIdView>, m: int)
    requires
        members_named(s),
        0 <= m <= member_count(s),
    ensures
        forall|k: int|
            0 <= k < dfs_members(s, path, m).len() ==> exists|i: int|
                0 <= i < m && (#[trigger] dfs_members(s, path, m)[k]).1.len() > path.len()
                    && dfs_members(s, path, m)[k].1.subrange(0, path.len() + 1 as int) == path.push(
                    s.typ->map[i].1.field_id,
                ) && lookup(
                    s.typ->map[i].1,
                    dfs_members(s, path, m)[k].1.subrange(
                        path.len() as int,
                        dfs_members(s, path, m)[k].1.len() as int,
                    ),
                ) == Ok::<SchemaView, SchemaPathError>(dfs_members(s, path, m)[k].0),
    decreases s, 0nat, m,
{
    if m > 0 {
        lemma_walk_members(s, path, m - 1);
        let map = s.typ->map;
        assert(s.typ is Object);
        assert(members_named(s));
        assert(members_named_each(map)[m - 1]);
        lemma_walk_lookup(map[m - 1].1, path);
        let before = dfs_members(s, path, m - 1);
        let here = dfs(map[m - 1].1, path);
        assert(dfs_members(s, path, m) == before + here);
        assert forall|k: int| 0 <= k < (before + here).len() implies exists|i: int|
            0 <= i < m && (#[trigger] (before + here)[k]).1.len() > path.len() && (before
                + here)[k].1.subrange(0, path.len() + 1 as int) == path.push(map[i].1.field_id) && lookup(
                map[i].1,
                (before + here)[k].1.subrange(path.len() as int, (before + here)[k].1.len() as int),
            ) == Ok::<SchemaView, SchemaPathError>((before + here)[k].0) by {
            if k < before.len() {
                assert((before + here)[k] == before[k]);
            } else {
                assert((before + here)[k] == here[k - before.len()]);
            }
        }
    }
}

/// In a schema whose members have distinct keys and are called by them,
/// every node that the walk lists is found again by its path.
pub proof fn lemma_walk_paths_lead_back(s: SchemaView, k: int)
    requires
        members_named(s),
        0 <= k < dfs(s, Seq::empty()).len(),
    ensures
        lookup(s, dfs(s, Seq::empty())[k].1) == Ok::<SchemaView, SchemaPathError>(dfs(s, Seq::empty())[k].0),
{
    lemma_walk_lookup(s, Seq::empty());
    let e = dfs(s, Seq::empty())[k];
    assert(e.1.subrange(0, e.1.len() as int) =~= e.1);
}

/// A schema inferred from a well-formed document has distinct member keys
/// all through (as a map would), each member called by its key.
pub proof fn lemma_doc_members_named(d: DocView, fid: FieldIdView)
    requires
        doc_wf(d),
        schema_from_doc(d, fid) is Some,
    ensures
        members_named(schema_from_doc(d, fid).unwrap()),
    decreases d,
{
    match d {
        DocView::Object { value, .. } => {
            let ss = member_schemas(value);
            let s = schema_from_doc(d, fid).unwrap();
            let map = s.typ->map;
            assert(map.len() == value.len());
            assert forall|i: int| 0 <= i < map.len() implies #[trigger] members_named_each(map)[i] by {
                assert(doc_members_wf(value)[i]);
                assert(ss[i] is Some);
                assert(ss[i] == schema_from_doc(value[i].1, FieldIdView::Name(value[i].0)));
                lemma_doc_members_named(value[i].1, FieldIdView::Name(value[i].0));
            }
            assert forall|i: int| 0 <= i < map.len() implies #[trigger] map[i].1.field_id
                == FieldIdView::Name(map[i].0) by {
                assert(ss[i] is Some);
            }
            lemma_sorted_keys_distinct(value);
            assert forall|a: int, b: int| 0 <= a < b < map.len() implies #[trigger] map[a].0
                != #[trigger] map[b].0 by {
                assert(value[a].0 != value[b].0);
            }
            assert(s.typ is Object);
            assert(all_true(members_named_each(map)));
            assert(members_named(s));
        },
        _ => {},
    }
}

/// In the schema inferred from a well-formed JSON document, every node that
/// the walk lists is found again by its path: what `iter_dfs_including_self`
/// hands out, `get_mut` reaches.
pub proof fn lemma_inferred_paths_lead_back(j: JsonView, k: int)
    requires
        parse_spec(j, Seq::empty()) is Some,
        json_wf(j),
        0 <= k < dfs(
            schema_from_doc(parse_spec(j, Seq::empty()).unwrap(), FieldIdView::Root).unwrap(),
            Seq::empty(),
        ).len(),
    ensures
        ({
            let s = schema_from_doc(parse_spec(j, Seq::empty()).unwrap(), FieldIdView::Root).unwrap();
            lookup(s, dfs(s, Seq::empty())[k].1) == Ok::<SchemaView, SchemaPathError>(
                dfs(s, Seq::empty())[k].0,
            )
        }),
{
    lemma_parsed_has_schema(j, Seq::empty(), FieldIdView::Root);
    lemma_parsed_wf(j, Seq::empty());
    lemma_doc_members_named(parse_spec(j, Seq::empty()).unwrap(), FieldIdView::Root);
    let s = schema_from_doc(parse_spec(j, Seq::empty()).unwrap(), FieldIdView::Root).unwrap();
    lemma_walk_paths_lead_back(s, k);
}

/// A scalar node's schema is named as asked, not optional, and has the
/// node's own value as its example: a boolean's value, a string's text, a
/// number's value.
pub proof fn lemma_scalar_schemas(n: Seq<NestView>, fid: FieldIdView, b: bool, t: Seq<char>, x: i128)
    ensures
        schema_from_doc((DocView::Bool { value: b, nesting: n }), fid) == Some(
            (SchemaView { field_id: fid, typ: SchemaTypeView::Boolean { example: b }, optional: false }),
        ),
        schema_from_doc((DocView::String { value: t, nesting: n }), fid) == Some(
            (SchemaView { field_id: fid, typ: SchemaTypeView::String { example: t }, optional: false }),
        ),
        schema_from_doc((DocView::Number { value: x, nesting: n }), fid) == Some(
            (SchemaView { field_id: fid, typ: SchemaTypeView::Number { example: x }, optional: false }),
        ),
        schema_from_doc((DocView::Null { nesting: n }), fid) == Some(
            (SchemaView { field_id: fid, typ: SchemaTypeView::Null, optional: false }),
        ),
{
}

/// The schema inferred from a parsed JSON scalar takes the JSON value as its
/// example: `true`/`false` for a boolean, the integer for an integer, the
/// text for a string, and the decimal text for a number with a fraction.
pub proof fn lemma_json_scalar_examples(n: Seq<NestView>, fid: FieldIdView, b: bool, i: i64, t: Seq<char>)
    ensures
        schema_from_doc(parse_spec(JsonView::Bool(b), n).unwrap(), fid).unwrap().typ
            == (SchemaTypeView::Boolean { example: b }),
        schema_from_doc(parse_spec(JsonView::Integer(i), n).unwrap(), fid).unwrap().typ
            == (SchemaTypeView::Number { example: i as i128 }),
        schema_from_doc(parse_spec(JsonView::String(t), n).unwrap(), fid).unwrap().typ
            == (SchemaTypeView::String { example: t }),
        schema_from_doc(parse_spec(JsonView::Float(t), n).unwrap(), fid).unwrap().typ
            == (SchemaTypeView::String { example: t }),
{
}

impl Schema {
    /// The field type of this node.
    pub fn field_type(&self) -> (r: FieldType)
        requires
            field_type_of(self@.typ) is Some,
        ensures
            r == field_type_of(self@.typ).unwrap(),
    {
        match self.typ {
            SchemaType::String { .. } => FieldType::String,
            SchemaType::Number { .. } => FieldType::Number,
            SchemaType::Boolean { .. } => FieldType::Boolean,
            SchemaType::Null => FieldType::Null,
            SchemaType::Object { .. } => FieldType::Object,
            // lists and unsupported lists have no field type
            SchemaType::List { .. } => FieldType::Null,
            SchemaType::CameFromUnsupportedList => FieldType::Null,
        }
    }

    /// The schema inferred from a whole document.
    pub fn from_parsed_doc_root(doc: &ParsedDocument) -> (r: Schema)
        requires
            schema_from_doc(doc@, FieldIdView::Root) is Some,
        ensures
            r@ == schema_from_doc(doc@, FieldIdView::Root).unwrap(),
            doc_wf(doc@) ==> members_named(r@),
    {
        Self::from_parsed_doc(doc, FieldIdentifier::Root)
    }

    /// The schema inferred from `doc` for a node called `field_id`.
    pub fn from_parsed_doc(doc: &ParsedDocument, field_id: FieldIdentifier) -> (r: Schema)
        requires
            schema_from_doc(doc@, field_id@) is Some,
        ensures
            r@ == schema_from_doc(doc@, field_id@).unwrap(),
            doc_wf(doc@) ==> members_named(r@),
        decreases doc,
    {
        proof {
            if doc_wf(doc@) {
                lemma_doc_members_named(doc@, field_id@);
            }
        }
        broadcast use group_view_facts, lemma_schema_entry_views;

        let schema_type = match doc {
            ParsedDocument::Null { .. } => SchemaType::Null,
            ParsedDocument::Bool { value, .. } => SchemaType::Boolean { example: *value },
            ParsedDocument::String { value, .. } => SchemaType::String { example: value.clone() },
            ParsedDocument::Number { value, .. } => SchemaType::Number { example: *value },
            ParsedDocument::List { value, .. } => {
                // a parsed list is never empty
                assert(doc_view(value@[0]) == doc@->List_value[0]);
                let first = &value[0];
                SchemaType::List {
                    schema: Box::new(Self::from_parsed_doc(first, field_id.clone())),
                }
            },
            ParsedDocument::Object { value, .. } => {
                let ghost dv = doc_entry_views(*value);
                let ghost ss = member_schemas(dv);
                assert forall|k: int| 0 <= k < value.len() implies #[trigger] ss[k] is Some by {
                    if ss[k] is None {
                        assert(schema_from_doc(doc@, field_id@) is None);
                    }
                }
                let mut map: Vec<(String, Schema)> = Vec::new();
                let mut i: usize = 0;
                while i < value.len()
                    invariant
                        0 <= i <= value.len(),
                        map.len() == i,
                        *doc == (ParsedDocument::Object {
                            value: *value,
                            nesting: doc->Object_nesting,
                        }),
                        dv == doc_entry_views(*value),
                        ss == member_schemas(dv),
                        forall|k: int| 0 <= k < value.len() ==> #[trigger] ss[k] is Some,
                        forall|k: int|
                            0 <= k < i ==> (#[trigger] map@[k]).0@ == dv[k].0 && Some(
                                schema_view(map@[k].1),
                            ) == ss[k],
                    decreases value.len() - i,
                {
                    proof {
                        assert(decreases_to!(*doc => (*doc)->Object_value));
                        assert(decreases_to!(value@[i as int] => value@[i as int].1));
                        assert(ss[i as int] == schema_from_doc(
                            dv[i as int].1,
                            FieldIdView::Name(dv[i as int].0),
                        ));
                    }
                    let key = value[i].0.clone();
                    let inner = Self::from_parsed_doc(&value[i].1, FieldIdentifier::Name(value[i].0.clone()));
                    map.push((key, inner));
                    i = i + 1;
                }
                proof {
                    assert(schema_entry_views(map) =~= Seq::new(
                        dv.len(),
                        |k: int| (dv[k].0, ss[k].unwrap()),
                    ));
                }
                SchemaType::Object { map }
            },
            ParsedDocument::EmptyCantInfer { .. } => SchemaType::CameFromUnsupportedList,
            ParsedDocument::NonHomogeneousCantParse { .. } => SchemaType::CameFromUnsupportedList,
        };
        Schema { field_id, typ: schema_type, optional: false }
    }
}

/// The index of the first member of `map` called `name`.
pub fn member_index(map: &Vec<(String, Schema)>, name: &String) -> (r: Option<usize>)
    ensures
        r matches Some(i) ==> key_index(schema_entry_views(*map), name@) == Some(i as int),
        r is None ==> key_index(schema_entry_views(*map), name@) is None,
{
    broadcast use lemma_schema_entry_views;

    let ghost mv = schema_entry_views(*map);
    proof {
        lemma_key_index(mv, name@);
    }
    let mut i: usize = 0;
    while i < map.len()
        invariant
            0 <= i <= map.len(),
            mv == schema_entry_views(*map),
            forall|j: int| 0 <= j < i ==> #[trigger] mv[j].0 != name@,
        decreases map.len() - i,
    {
        if map[i].0 == *name {
            proof {
                assert(mv[i as int].0 == name@);
                lemma_key_index(mv, name@);
                match key_index(mv, name@) {
                    Some(j) => {
                        if j < i {
                            assert(mv[j].0 != name@);
                        } else if j > i {
                            assert(mv[i as int].0 != name@);
                        }
                    },
                    None => {
                        assert(mv[i as int].0 != name@);
                    },
                }
            }
            return Some(i);
        }
        i = i + 1;
    }
    None
}

impl Schema {
    /// The node that `indent` leads to, for changing it in place.
    pub fn get_mut(&mut self, indent: &[FieldIdentifier]) -> (r: Result<&mut Schema, SchemaPathError>)
        requires
            indent@.len() >= 1,
        ensures
            r matches Ok(x) ==> lookup(old(self)@, indent_view(indent@)) == Ok::<SchemaView, SchemaPathError>(x@) && final(self)@
                == replace_at(old(self)@, indent_view(indent@), final(x)@),
            r matches Err(e) ==> lookup(old(self)@, indent_view(indent@)) == Err::<SchemaView, SchemaPathError>(e)
                && final(self)@ == old(self)@,
    {
        proof {
            assert(indent@.subrange(0, indent@.len() as int) =~= indent@);
        }
        self.get_mut_from(indent, 0)
    }

    /// The node that `indent[pos..]` leads to.
    #[verifier::rlimit(100)]
    #[verifier::spinoff_prover]
    fn get_mut_from(&mut self, indent: &[FieldIdentifier], pos: usize) -> (r: Result<&mut Schema, SchemaPathError>)
        requires
            pos < indent@.len(),
        ensures
            r matches Ok(x) ==> lookup(old(self)@, indent_view(indent@.subrange(pos as int, indent@.len() as int)))
                == Ok::<SchemaView, SchemaPathError>(x@) && final(self)@ == replace_at(
                old(self)@,
                indent_view(indent@.subrange(pos as int, indent@.len() as int)),
                final(x)@,
            ),
            r matches Err(e) ==> lookup(old(self)@, indent_view(indent@.subrange(pos as int, indent@.len() as int)))
                == Err::<SchemaView, SchemaPathError>(e) && final(self)@ == old(self)@,
        decreases indent@.len() - pos,
    {
        broadcast use lemma_schema_entry_views;

        let ghost path = indent_view(indent@.subrange(pos as int, indent@.len() as int));
        if pos == indent.len() - 1 {
            return Ok(self);
        }
        let ghost rest = indent_view(indent@.subrange(pos + 1, indent@.len() as int));
        proof {
            assert(path.drop_first() =~= rest);
            assert(path[1] == indent@[pos + 1]@);
        }
        let is_object = match &self.typ {
            SchemaType::Object { .. } => true,
            _ => false,
        };
        if !is_object {
            return Err(SchemaPathError::BadIndent);
        }
        let name = match &indent[pos + 1] {
            FieldIdentifier::Root => {
                return Err(SchemaPathError::BadIndent);
            },
            FieldIdentifier::Name(name) => name,
        };
        let ghost old_self = *self;
        match &mut self.typ {
            SchemaType::Object { map } => {
                let found = member_index(map, name);
                let i = match found {
                    Some(i) => i,
                    None => {
                        return Err(SchemaPathError::NoSuchField);
                    },
                };
                proof {
                    lemma_key_index(schema_entry_views(*map), name@);
                    assert(old_self.typ->map == *map);
                    lemma_member_update(old_self, i as int);
                }
                let entry = &mut map[i];
                entry.1.get_mut_from(indent, pos + 1)
            },
            _ => Err(SchemaPathError::BadIndent),
        }
    }

    /// Every node of this schema with its path, in depth-first pre-order.
    pub fn iter_dfs_including_self(&self) -> (r: Vec<SchemaWithIndent<'_>>)
        ensures
            walk_views(r@) == dfs(self@, Seq::empty()),
    {
        let indent: Indent = Vec::new();
        proof {
            assert(indent_view(indent@) =~= Seq::empty());
        }
        self.iter_dfs_including_self_rec(indent)
    }

    /// Every node of this schema with its path, in depth-first pre-order,
    /// where `indent` is the path above this node.
    pub fn iter_dfs_including_self_rec(&self, indent: Indent) -> (r: Vec<SchemaWithIndent<'_>>)
        ensures
            walk_views(r@) == dfs(self@, indent_view(indent@)),
        decreases self,
    {
        broadcast use lemma_schema_entry_views;

        let ghost iv0 = indent_view(indent@);
        let mut indent = indent;
        let indent2 = copy_indent(&indent);
        indent.push(self.field_id.clone());
        let ghost path = indent_view(indent@);
        proof {
            assert(path =~= indent_view(indent2@).push(self@.field_id));
        }
        let mut r: Vec<SchemaWithIndent<'_>> = Vec::new();
        r.push((self, indent));
        proof {
            assert(walk_views(r@) =~= seq![(self@, path)] + dfs_members(self@, path, 0));
        }
        match &self.typ {
            SchemaType::Object { map } => {
                let mut i: usize = 0;
                while i < map.len()
                    invariant
                        0 <= i <= map.len(),
                        self.typ == (SchemaType::Object { map: *map }),
                        indent_view(indent2@).push(self@.field_id) == path,
                        walk_views(r@) == seq![(self@, path)] + dfs_members(self@, path, i as int),
                    decreases map.len() - i,
                {
                    let mut child_indent = copy_indent(&indent2);
                    child_indent.push(self.field_id.clone());
                    proof {
                        assert(indent_view(child_indent@) =~= path);
                        assert(decreases_to!(*self => self.typ));
                        assert(decreases_to!(self.typ => self.typ->map));
                        assert(decreases_to!(map@[i as int] => map@[i as int].1));
                    }
                    let mut sub = map[i].1.iter_dfs_including_self_rec(child_indent);
                    let ghost before = r@;
                    let ghost sub_before = sub@;
                    r.append(&mut sub);
                    proof {
                        assert(walk_views(r@) =~= walk_views(before) + walk_views(sub_before));
                        assert(dfs_members(self@, path, i + 1) == dfs_members(self@, path, i as int)
                            + dfs(schema_entry_views(*map)[i as int].1, path));
                    }
                    i = i + 1;
                }
                assert(self@.typ == schema_type_view(self.typ));
                assert(schema_type_view(self.typ) == (SchemaTypeView::Object { map: schema_entry_views(*map) }));
                assert(member_count(self@) == i);
            },
            _ => {},
        }
        assert(path == iv0.push(self@.field_id));
        r
    }
}

} // verus!
