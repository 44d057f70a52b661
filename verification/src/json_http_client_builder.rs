use vstd::prelude::*;

use crate::key_order::{key_lt, str_lt};
use crate::json2::{clone_json, parse, parse_spec, JsonValue, JsonView, Nesting, ParsedDocument};
use crate::schema_builder::{
    lemma_parsed_has_schema, lemma_schema_entry_views, schema_entry_views, schema_from_doc,
    schema_type_view, schema_view, FieldIdView, Schema, SchemaType, SchemaTypeView, SchemaView,
};

verus! {

/// The name given to the type of a whole response.
pub const NAME_OF_ROOT: &'static str = "Response";

/// A field of a JSON response that the user picked.
#[derive(Clone, Debug)]
pub struct SelectedField {
    pub name: String,
    pub nesting: Nesting,
    pub typespec_id: u128,
}

/// The identifiers of the scalar types of the language (string, number,
/// boolean, null), which responses are described with.
#[derive(Clone, Copy, Debug)]
pub struct ScalarTypespecIds {
    pub string: u128,
    pub number: u128,
    pub boolean: u128,
    pub null: u128,
}

/// The type of a response (or of a part of one), before any type of the
/// language is made for it.
#[derive(PartialEq, Eq, Hash, Debug)]
pub enum ReturnTypeSpec {
    /// Fields in the order of the schema's members.
    Struct(Vec<(String, ReturnTypeSpec)>),
    List(Box<ReturnTypeSpec>),
    Scalar { typespec_id: u128 },
    Optional(Box<ReturnTypeSpec>),
}

pub enum ReturnTypeSpecView {
    Struct(Seq<(Seq<char>, ReturnTypeSpecView)>),
    List(Box<ReturnTypeSpecView>),
    Scalar { typespec_id: u128 },
    Optional(Box<ReturnTypeSpecView>),
}

pub open spec fn return_type_spec_view(r: ReturnTypeSpec) -> ReturnTypeSpecView
    decreases r,
{
    match r {
        ReturnTypeSpec::Struct(v) => ReturnTypeSpecView::Struct(return_type_spec_entry_views(v)),
        ReturnTypeSpec::List(inner) => ReturnTypeSpecView::List(Box::new(return_type_spec_view(*inner))),
        ReturnTypeSpec::Scalar { typespec_id } => ReturnTypeSpecView::Scalar { typespec_id },
        ReturnTypeSpec::Optional(inner) => ReturnTypeSpecView::Optional(
            Box::new(return_type_spec_view(*inner)),
        ),
    }
}

pub open spec fn return_type_spec_entry_views(v: Vec<(String, ReturnTypeSpec)>) -> Seq<
    (Seq<char>, ReturnTypeSpecView),
>
    decreases v,
{
    Seq::new(
        v@.len(),
        |i: int|
            if 0 <= i < v@.len() {
                (v@[i].0@, return_type_spec_view(v@[i].1))
            } else {
                (Seq::empty(), ReturnTypeSpecView::Scalar { typespec_id: 0 })
            },
    )
}

impl View for ReturnTypeSpec {
    type V = ReturnTypeSpecView;

    open spec fn view(&self) -> ReturnTypeSpecView {
        return_type_spec_view(*self)
    }
}

pub broadcast proof fn lemma_return_type_spec_entry_views(v: Vec<(String, ReturnTypeSpec)>)
    ensures
        #[trigger] return_type_spec_entry_views(v).len() == v@.len(),
        forall|k: int|
            0 <= k < v@.len() ==> #[trigger] return_type_spec_entry_views(v)[k] == (
                v@[k].0@,
                return_type_spec_view(v@[k].1),
            ),
{
}

/// A copy of a response type.
pub fn clone_return_type(t: &ReturnTypeSpec) -> (r: ReturnTypeSpec)
    ensures
        r@ == t@,
    decreases t,
{
    broadcast use lemma_return_type_spec_entry_views;

    match t {
        ReturnTypeSpec::Struct(fields) => {
            let mut r: Vec<(String, ReturnTypeSpec)> = Vec::new();
            let mut i: usize = 0;
            while i < fields.len()
                invariant
                    0 <= i <= fields.len(),
                    r.len() == i,
                    *t == ReturnTypeSpec::Struct(*fields),
                    forall|k: int|
                        0 <= k < i ==> r@[k].0@ == fields@[k].0@ && #[trigger] return_type_spec_view(
                            r@[k].1,
                        ) == return_type_spec_view(fields@[k].1),
                decreases fields.len() - i,
            {
                assert(decreases_to!(*t => (*t)->Struct_0));
                assert(decreases_to!(fields@[i as int] => fields@[i as int].1));
                let key = fields[i].0.clone();
                let inner = clone_return_type(&fields[i].1);
                r.push((key, inner));
                i = i + 1;
            }
            assert(return_type_spec_entry_views(r) =~= return_type_spec_entry_views(*fields));
            ReturnTypeSpec::Struct(r)
        },
        ReturnTypeSpec::List(inner) => ReturnTypeSpec::List(Box::new(clone_return_type(inner))),
        ReturnTypeSpec::Scalar { typespec_id } => ReturnTypeSpec::Scalar { typespec_id: *typespec_id },
        ReturnTypeSpec::Optional(inner) => ReturnTypeSpec::Optional(
            Box::new(clone_return_type(inner)),
        ),
    }
}

impl Clone for ReturnTypeSpec {
    /// A copy of the response type.
    fn clone(&self) -> (r: Self)
        ensures
            r@ == self@,
    {
        clone_return_type(self)
    }
}

/// `fields` with `e` put in by its key, as a map ordered by key takes it: in
/// place of the member with the same key, else before the first member
/// whose key comes after it.
pub open spec fn insert_by_key<V>(fields: Seq<(Seq<char>, V)>, e: (Seq<char>, V)) -> Seq<(Seq<char>, V)>
    decreases fields.len(),
{
    if fields.len() == 0 {
        seq![e]
    } else if fields[0].0 == e.0 {
        seq![e] + fields.drop_first()
    } else if key_lt(e.0, fields[0].0) {
        seq![e] + fields
    } else {
        seq![fields[0]] + insert_by_key(fields.drop_first(), e)
    }
}

/// `fields` collected, one after another, into a map ordered by key: each
/// key once, with the last value given for it, in the order of the keys.
pub open spec fn sorted_by_key<V>(fields: Seq<(Seq<char>, V)>) -> Seq<(Seq<char>, V)>
    decreases fields.len(),
{
    if fields.len() == 0 {
        seq![]
    } else {
        insert_by_key(sorted_by_key(fields.drop_last()), fields.last())
    }
}

/// The value of the first member of `fields` whose key is `k`, if any.
pub open spec fn field_named<V>(fields: Seq<(Seq<char>, V)>, k: Seq<char>) -> Option<V>
    decreases fields.len(),
{
    if fields.len() == 0 {
        None
    } else if fields[0].0 == k {
        Some(fields[0].1)
    } else {
        field_named(fields.drop_first(), k)
    }
}

/// After putting a member in by its key, its key finds it, and every other
/// key finds what it found before.
proof fn lemma_insert_by_key_finds<V>(fields: Seq<(Seq<char>, V)>, e: (Seq<char>, V), k: Seq<char>)
    ensures
        field_named(insert_by_key(fields, e), k) == if k == e.0 {
            Some(e.1)
        } else {
            field_named(fields, k)
        },
    decreases fields.len(),
{
    let r = insert_by_key(fields, e);
    if fields.len() == 0 {
        assert(r.drop_first() =~= Seq::<(Seq<char>, V)>::empty());
    } else if fields[0].0 == e.0 {
        assert(r.drop_first() =~= fields.drop_first());
    } else if key_lt(e.0, fields[0].0) {
        assert(r.drop_first() =~= fields);
    } else {
        lemma_insert_by_key_finds(fields.drop_first(), e, k);
        assert(r.drop_first() =~= insert_by_key(fields.drop_first(), e));
    }
}

/// Collecting members with distinct keys into a map ordered by key keeps
/// each member's value under its key.
proof fn lemma_sorted_by_key_finds<V>(fields: Seq<(Seq<char>, V)>, i: int)
    requires
        forall|a: int, b: int| 0 <= a < b < fields.len() ==> #[trigger] fields[a].0 != #[trigger] fields[b].0,
        0 <= i < fields.len(),
    ensures
        field_named(sorted_by_key(fields), fields[i].0) == Some(fields[i].1),
    decreases fields.len(),
{
    let f2 = fields.drop_last();
    lemma_insert_by_key_finds(sorted_by_key(f2), fields.last(), fields[i].0);
    if i < fields.len() - 1 {
        assert(fields[i].0 != fields[fields.len() - 1].0);
        assert(f2[i] == fields[i]);
        lemma_sorted_by_key_finds(f2, i);
    }
}

/// A response type is wrapped in `Optional` exactly when it is asked for
/// an optional node, around the type of the node taken as not optional.
pub proof fn lemma_optional_wraps(t: SchemaTypeView, optional: bool, ids: ScalarTypespecIds)
    requires
        return_type_for(t, optional, ids) is Some,
    ensures
        (return_type_for(t, optional, ids).unwrap() is Optional) == optional,
        optional ==> return_type_for(t, optional, ids).unwrap()->Optional_0 == Box::new(
            return_type_for(t, false, ids).unwrap(),
        ),
{
}

/// The response type of an object whose members have distinct names is a
/// struct holding, under each member's name, that member's response type:
/// optional exactly when the member is optional.
pub proof fn lemma_struct_fields_follow_members(
    t: SchemaTypeView,
    optional: bool,
    ids: ScalarTypespecIds,
    i: int,
)
    requires
        t is Object,
        forall|a: int, b: int|
            0 <= a < b < t->map.len() ==> #[trigger] t->map[a].0 != #[trigger] t->map[b].0,
        return_type_for(t, optional, ids) is Some,
        0 <= i < t->map.len(),
    ensures
        return_type_for(t, false, ids).unwrap() is Struct,
        ({
            let fields = return_type_for(t, false, ids).unwrap()->Struct_0;
            let member = t->map[i].1;
            &&& field_named(fields, t->map[i].0) is Some
            &&& (field_named(fields, t->map[i].0).unwrap() is Optional) == member.optional
            &&& field_named(fields, t->map[i].0) == return_type_for(member.typ, member.optional, ids)
        }),
{
    let map = t->map;
    let fs = member_return_types(map, ids);
    let all = Seq::new(map.len(), |k: int| (map[k].0, fs[k].unwrap()));
    assert forall|a: int, b: int| 0 <= a < b < all.len() implies #[trigger] all[a].0 != #[trigger] all[b].0 by {
        assert(map[a].0 != map[b].0);
    }
    lemma_sorted_by_key_finds(all, i);
    assert(fs[i] is Some);
    lemma_optional_wraps(map[i].1.typ, map[i].1.optional, ids);
}

/// Puts a field into fields ordered by name, as a map ordered by key does.
fn insert_field(r: &mut Vec<(String, ReturnTypeSpec)>, e: (String, ReturnTypeSpec))
    ensures
        return_type_spec_entry_views(*final(r)) == insert_by_key(
            return_type_spec_entry_views(*old(r)),
            (e.0@, e.1@),
        ),
{
    broadcast use lemma_return_type_spec_entry_views;

    let ghost s = return_type_spec_entry_views(*r);
    let ghost ev = (e.0@, e.1@);
    proof {
        assert(s.subrange(0, s.len() as int) =~= s);
        assert(s.subrange(0, 0) + insert_by_key(s, ev) =~= insert_by_key(s, ev));
    }
    let mut i: usize = 0;
    while i < r.len()
        invariant
            0 <= i <= r.len(),
            r@ == old(r)@,
            ev == (e.0@, e.1@),
            s == return_type_spec_entry_views(*r),
            insert_by_key(s, ev) == s.subrange(0, i as int) + insert_by_key(
                s.subrange(i as int, s.len() as int),
                ev,
            ),
        decreases r.len() - i,
    {
        let ghost rest = s.subrange(i as int, s.len() as int);
        assert(rest[0] == s[i as int]);
        if r[i].0 == e.0 {
            proof {
                assert(rest.drop_first() =~= s.subrange(i + 1, s.len() as int));
            }
            let ghost r0 = *r;
            r.set(i, e);
            proof {
                assert forall|k: int| 0 <= k < s.len() && k != i implies #[trigger] return_type_spec_entry_views(*r)[k]
                    == s[k] by {
                    assert(r@[k] == r0@[k]);
                    assert(s[k] == return_type_spec_entry_views(r0)[k]);
                }
                assert(return_type_spec_entry_views(*r).len() == s.len());
                assert(r@[i as int] == e);
                assert(return_type_spec_entry_views(*r)[i as int] == ev);
                assert(return_type_spec_entry_views(*r) =~= s.subrange(0, i as int) + (seq![ev]
                    + rest.drop_first()));
            }
            return;
        }
        if str_lt(e.0.as_str(), r[i].0.as_str()) {
            let ghost r0 = *r;
            r.insert(i, e);
            proof {
                assert(return_type_spec_entry_views(*r).len() == s.len() + 1);
                assert(return_type_spec_entry_views(r0).len() == s.len());
                assert forall|k: int| 0 <= k < s.len() + 1 implies #[trigger] return_type_spec_entry_views(*r)[k]
                    == (s.subrange(0, i as int) + (seq![ev] + rest))[k] by {
                    if k < i {
                        assert(r@[k] == r0@[k]);
                    } else if k > i {
                        assert(r@[k] == r0@[k - 1]);
                    }
                }
                assert(return_type_spec_entry_views(*r) =~= s.subrange(0, i as int) + (seq![ev]
                    + rest));
            }
            return;
        }
        proof {
            assert(rest.drop_first() =~= s.subrange(i + 1, s.len() as int));
            assert(s.subrange(0, i + 1) =~= s.subrange(0, i as int) + seq![rest[0]]);
        }
        i = i + 1;
    }
    r.push(e);
    proof {
        assert(return_type_spec_entry_views(*r).len() == s.len() + 1);
        assert(s.subrange(0, i as int) =~= s);
        assert(return_type_spec_entry_views(*r) =~= s + seq![ev]);
    }
}

/// The response type that a schema node of shape `t` describes (wrapped
/// in `Optional` when the node is optional), or `None` where the schema
/// holds a list that could not be inferred.
pub open spec fn return_type_for(t: SchemaTypeView, optional: bool, ids: ScalarTypespecIds) -> Option<
    ReturnTypeSpecView,
>
    decreases t,
{
    let base = match t {
        SchemaTypeView::String { .. } => Some(ReturnTypeSpecView::Scalar { typespec_id: ids.string }),
        SchemaTypeView::Number { .. } => Some(ReturnTypeSpecView::Scalar { typespec_id: ids.number }),
        SchemaTypeView::Boolean { .. } => Some(
            ReturnTypeSpecView::Scalar { typespec_id: ids.boolean },
        ),
        SchemaTypeView::Null => Some(ReturnTypeSpecView::Scalar { typespec_id: ids.null }),
        SchemaTypeView::List { schema } => match return_type_for(schema.typ, schema.optional, ids) {
            Some(inner) => Some(ReturnTypeSpecView::List(Box::new(inner))),
            None => None,
        },
        SchemaTypeView::Object { map } => {
            let fields = member_return_types(map, ids);
            if forall|i: int| 0 <= i < map.len() ==> #[trigger] fields[i] is Some {
                Some(
                    ReturnTypeSpecView::Struct(
                        sorted_by_key(Seq::new(map.len(), |i: int| (map[i].0, fields[i].unwrap()))),
                    ),
                )
            } else {
                None
            }
        },
        SchemaTypeView::CameFromUnsupportedList => None,
    };
    match base {
        Some(b) => if optional {
            Some(ReturnTypeSpecView::Optional(Box::new(b)))
        } else {
            Some(b)
        },
        None => None,
    }
}

/// The response types of an object's members.
pub open spec fn member_return_types(map: Seq<(Seq<char>, SchemaView)>, ids: ScalarTypespecIds) -> Seq<
    Option<ReturnTypeSpecView>,
>
    decreases map,
{
    Seq::new(
        map.len(),
        |i: int|
            if 0 <= i < map.len() {
                return_type_for(map[i].1.typ, map[i].1.optional, ids)
            } else {
                None
            },
    )
}

impl ReturnTypeSpec {
    /// The response type that a schema node describes.
    pub fn from_schema_type(schema_type: &SchemaType, optional: bool, ids: &ScalarTypespecIds) -> (r:
        ReturnTypeSpec)
        requires
            return_type_for(schema_type_view(*schema_type), optional, *ids) is Some,
        ensures
            r@ == return_type_for(schema_type_view(*schema_type), optional, *ids).unwrap(),
        decreases schema_type,
    {
        broadcast use lemma_schema_entry_views, lemma_return_type_spec_entry_views;

        let return_type_spec = match schema_type {
            SchemaType::String { .. } => ReturnTypeSpec::Scalar { typespec_id: ids.string },
            SchemaType::Number { .. } => ReturnTypeSpec::Scalar { typespec_id: ids.number },
            SchemaType::Boolean { .. } => ReturnTypeSpec::Scalar { typespec_id: ids.boolean },
            SchemaType::Null => ReturnTypeSpec::Scalar { typespec_id: ids.null },
            SchemaType::List { schema } => {
                assert(decreases_to!(*schema_type => (*schema_type)->List_schema));
                assert(decreases_to!((*schema_type)->List_schema => (*schema_type)->List_schema.typ));
                let inner = Self::from_schema_type(&schema.typ, schema.optional, ids);
                ReturnTypeSpec::List(Box::new(inner))
            },
            SchemaType::Object { map } => {
                let ghost mv = schema_entry_views(*map);
                let ghost fs = member_return_types(mv, *ids);
                assert forall|k: int| 0 <= k < map.len() implies #[trigger] fs[k] is Some by {
                    if fs[k] is None {
                        assert(return_type_for(schema_type_view(*schema_type), optional, *ids) is None);
                    }
                }
                let ghost all = Seq::new(map.len() as nat, |k: int| (mv[k].0, fs[k].unwrap()));
                let mut fields: Vec<(String, ReturnTypeSpec)> = Vec::new();
                proof {
                    assert(all.subrange(0, 0) =~= Seq::<(Seq<char>, ReturnTypeSpecView)>::empty());
                    assert(return_type_spec_entry_views(fields) =~= Seq::<
                        (Seq<char>, ReturnTypeSpecView),
                    >::empty());
                }
                let mut i: usize = 0;
                while i < map.len()
                    invariant
                        0 <= i <= map.len(),
                        *schema_type == (SchemaType::Object { map: *map }),
                        mv == schema_entry_views(*map),
                        fs == member_return_types(mv, *ids),
                        all == Seq::new(map.len() as nat, |k: int| (mv[k].0, fs[k].unwrap())),
                        forall|k: int| 0 <= k < map.len() ==> #[trigger] fs[k] is Some,
                        return_type_spec_entry_views(fields) == sorted_by_key(
                            all.subrange(0, i as int),
                        ),
                    decreases map.len() - i,
                {
                    proof {
                        assert(decreases_to!(*schema_type => (*schema_type)->Object_map));
                        assert(decreases_to!(map@[i as int] => map@[i as int].1));
                        assert(decreases_to!(map@[i as int].1 => map@[i as int].1.typ));
                        assert(fs[i as int] == return_type_for(
                            mv[i as int].1.typ,
                            mv[i as int].1.optional,
                            *ids,
                        ));
                    }
                    let inner = Self::from_schema_type(&map[i].1.typ, map[i].1.optional, ids);
                    let key = map[i].0.clone();
                    proof {
                        assert(all.subrange(0, i + 1).drop_last() =~= all.subrange(0, i as int));
                        assert(all.subrange(0, i + 1).last() == (key@, inner@));
                    }
                    insert_field(&mut fields, (key, inner));
                    i = i + 1;
                }
                proof {
                    assert(all.subrange(0, i as int) =~= all);
                }
                ReturnTypeSpec::Struct(fields)
            },
            // excluded by the precondition: such a schema has no response type
            SchemaType::CameFromUnsupportedList => ReturnTypeSpec::Scalar { typespec_id: ids.null },
        };
        if optional {
            ReturnTypeSpec::Optional(Box::new(return_type_spec))
        } else {
            return_type_spec
        }
    }
}

/// The state of building a JSON HTTP client: the response of a test run,
/// the document parsed from it, the schema inferred from that document,
/// and the fields the user picked.
#[derive(Clone)]
pub struct JSONHTTPClientBuilder {
    pub test_run_result: Option<Result<JsonValue, String>>,
    pub test_run_parsed_doc: Option<ParsedDocument>,
    pub external_schema: Option<Schema>,
    pub json_http_client_id: u128,
    pub selected_fields: Vec<SelectedField>,
}

/// The view of a test run's result: the JSON response, or the error's text.
pub open spec fn test_result_view(r: Result<JsonValue, String>) -> Result<JsonView, Seq<char>> {
    match r {
        Ok(v) => Ok(v@),
        Err(e) => Err(e@),
    }
}

impl JSONHTTPClientBuilder {
    /// A builder for the client `json_http_client_id` with nothing tried yet.
    pub fn new(json_http_client_id: u128) -> (r: Self)
        ensures
            r.test_run_result is None,
            r.test_run_parsed_doc is None,
            r.external_schema is None,
            r.json_http_client_id == json_http_client_id,
            r.selected_fields@.len() == 0,
    {
        Self {
            test_run_result: None,
            test_run_parsed_doc: None,
            external_schema: None,
            json_http_client_id,
            selected_fields: Vec::new(),
        }
    }

    /// Takes the result of a test run: keeps it, parses a response and
    /// infers its schema, and forgets the fields picked so far.
    pub fn set_test_result(&mut self, result: Result<JsonValue, String>)
        requires
            result matches Ok(v) ==> parse_spec(v@, Seq::empty()) is Some,
        ensures
            final(self).test_run_result matches Some(r) && test_result_view(r) == test_result_view(result),
            match result {
                Ok(v) => {
                    &&& final(self).test_run_parsed_doc matches Some(d) && d@ == parse_spec(
                        v@,
                        Seq::empty(),
                    ).unwrap()
                    &&& final(self).external_schema matches Some(s) && s@ == schema_from_doc(
                        parse_spec(v@, Seq::empty()).unwrap(),
                        FieldIdView::Root,
                    ).unwrap()
                },
                Err(_) => {
                    &&& final(self).test_run_parsed_doc is None
                    &&& final(self).external_schema == old(self).external_schema
                },
            },
            final(self).json_http_client_id == old(self).json_http_client_id,
            final(self).selected_fields@.len() == 0,
    {
        let kept = match &result {
            Ok(v) => Ok(clone_json(v)),
            Err(e) => Err(e.clone()),
        };
        self.test_run_result = Some(kept);
        match result {
            Ok(value) => {
                proof {
                    lemma_parsed_has_schema(value@, Seq::empty(), FieldIdView::Root);
                }
                let parsed_doc = parse(value);
                self.external_schema = Some(Schema::from_parsed_doc_root(&parsed_doc));
                self.test_run_parsed_doc = Some(parsed_doc);
            },
            Err(_) => {
                self.test_run_parsed_doc = None;
            },
        }
        self.selected_fields.clear();
    }
}

} // verus!
