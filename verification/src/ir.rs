//! The executable intermediate representation of an API description.
//!
//! Definitions and properties are kept as insertion-ordered vectors of
//! named entries; every lookup, update and removal acts on the first entry
//! of the given name, so every pass is deterministic and the synthesized
//! property sets keep a stable order.

use vstd::prelude::*;

use crate::model::{
    ApiSpecView, DefinitionView, GroupVersionKindView, KubernetesAction, OperationView,
    OptionalPropertyView, ParameterLocation, ParameterView, PropertyView, RefPathView,
    RelativeTo, ResponseView, SchemaKindView, SchemaView, TypeView,
};

verus! {

/// A reference to another definition.
#[derive(Debug, PartialEq)]
pub struct RefPath {
    pub path: String,
    pub relative_to: RelativeTo,
    pub can_be_default: Option<bool>,
}

/// A (group, version, kind) triple identifying a resource.
#[derive(Debug, PartialEq)]
pub struct GroupVersionKind {
    pub group: String,
    pub version: String,
    pub kind: String,
}

/// One named object property together with its required flag.
#[derive(Debug, PartialEq)]
pub struct Property {
    pub name: String,
    pub schema: Schema,
    pub required: bool,
}

/// One entry of a synthesized optional-parameter aggregate; the required
/// flag is dropped by convention.
#[derive(Debug, PartialEq)]
pub struct OptionalProperty {
    pub name: String,
    pub schema: Schema,
}

/// The closed set of schema shapes.  Passes migrate schemas from
/// `Properties` and `Ref` into specialized `Ty` shapes, never the reverse.
#[allow(inconsistent_fields)]
#[derive(Debug, PartialEq)]
pub enum SchemaKind {
    Properties(Vec<Property>),
    Ref(RefPath),
    Ty(Type),
}

/// The synthesized and special type shapes that the passes install.
#[allow(inconsistent_fields)]
#[derive(Debug, PartialEq)]
pub enum Type {
    Array { items: Box<Schema> },
    DeleteOptional(Vec<OptionalProperty>),
    ListDef { metadata: Box<SchemaKind> },
    ListOptional(Vec<OptionalProperty>),
    ListRef { items: Box<SchemaKind> },
    Patch,
    PatchOptional(Vec<OptionalProperty>),
    WatchEvent(RefPath),
    WatchOptional(Vec<OptionalProperty>),
    DeleteResponse,
    ListResponse,
    PatchResponse,
    WatchResponse,
}

/// A schema: a description, a shape, and resource metadata.
#[derive(Debug, PartialEq)]
pub struct Schema {
    pub description: Option<String>,
    pub kind: SchemaKind,
    pub kubernetes_group_kind_versions: Option<Vec<GroupVersionKind>>,
    pub has_corresponding_list_type: bool,
}

/// One named definition.
#[derive(Debug, PartialEq)]
pub struct Definition {
    pub path: String,
    pub schema: Schema,
}

/// One operation parameter.
#[derive(Debug, PartialEq)]
pub struct Parameter {
    pub location: ParameterLocation,
    pub name: String,
    pub required: bool,
    pub schema: Schema,
}

/// One response: an HTTP status code and the body schema.
#[derive(Debug, PartialEq)]
pub struct Response {
    pub status: u16,
    pub schema: Schema,
}

/// One API operation.
#[derive(Debug, PartialEq)]
pub struct Operation {
    pub id: String,
    pub description: Option<String>,
    pub kubernetes_action: Option<KubernetesAction>,
    pub kubernetes_group_kind_version: Option<GroupVersionKind>,
    pub parameters: Vec<Parameter>,
    pub responses: Vec<Response>,
}

/// The whole API description: the single mutable unit threaded through the
/// fixup pipeline.
#[derive(Debug, PartialEq)]
pub struct ApiSpec {
    pub definitions: Vec<Definition>,
    pub operations: Vec<Operation>,
}

pub open spec fn view_opt_string(s: Option<String>) -> Option<Seq<char>> {
    match s {
        Some(t) => Some(t@),
        None => None,
    }
}

impl View for RefPath {
    type V = RefPathView;

    open spec fn view(&self) -> RefPathView {
        RefPathView {
            path: self.path@,
            relative_to: self.relative_to,
            can_be_default: self.can_be_default,
        }
    }
}

impl View for GroupVersionKind {
    type V = GroupVersionKindView;

    open spec fn view(&self) -> GroupVersionKindView {
        GroupVersionKindView { group: self.group@, version: self.version@, kind: self.kind@ }
    }
}

pub open spec fn view_gvks_opt(g: Option<Vec<GroupVersionKind>>) -> Option<
    Seq<GroupVersionKindView>,
> {
    match g {
        Some(gvks) => Some(Seq::new(gvks@.len(), |i: int| gvks@[i]@)),
        None => None,
    }
}

pub open spec fn view_schema(s: Schema) -> SchemaView
    decreases s,
{
    SchemaView {
        description: view_opt_string(s.description),
        kind: view_schema_kind(s.kind),
        kubernetes_group_kind_versions: view_gvks_opt(s.kubernetes_group_kind_versions),
        has_corresponding_list_type: s.has_corresponding_list_type,
    }
}

pub open spec fn view_properties(ps: Seq<Property>) -> Seq<PropertyView>
    decreases ps,
{
    if ps.len() == 0 {
        Seq::empty()
    } else {
        seq![view_property(ps[0])] + view_properties(ps.subrange(1, ps.len() as int))
    }
}

pub open spec fn view_optional_properties(ps: Seq<OptionalProperty>) -> Seq<OptionalPropertyView>
    decreases ps,
{
    if ps.len() == 0 {
        Seq::empty()
    } else {
        seq![view_optional_property(ps[0])] + view_optional_properties(
            ps.subrange(1, ps.len() as int),
        )
    }
}

pub open spec fn view_schema_kind(k: SchemaKind) -> SchemaKindView
    decreases k,
    via view_schema_kind_decreases
{
    match k {
        SchemaKind::Properties(props) => SchemaKindView::Properties(view_properties(props@)),
        SchemaKind::Ref(r) => SchemaKindView::Ref(r@),
        SchemaKind::Ty(t) => SchemaKindView::Ty(view_type(t)),
    }
}

#[via_fn]
proof fn view_schema_kind_decreases(k: SchemaKind) {
    match k {
        SchemaKind::Properties(props) => {
            assert(decreases_to!(k => props));
            assert(decreases_to!(props => props@));
        },
        _ => {},
    }
}

pub open spec fn view_property(p: Property) -> PropertyView
    decreases p,
{
    PropertyView { name: p.name@, schema: view_schema(p.schema), required: p.required }
}

pub open spec fn view_optional_property(p: OptionalProperty) -> OptionalPropertyView
    decreases p,
{
    OptionalPropertyView { name: p.name@, schema: view_schema(p.schema) }
}

pub open spec fn view_type(t: Type) -> TypeView
    decreases t,
    via view_type_decreases
{
    match t {
        Type::Array { items } => TypeView::Array { items: Box::new(view_schema(*items)) },
        Type::DeleteOptional(props) => TypeView::DeleteOptional(
            view_optional_properties(props@),
        ),
        Type::ListDef { metadata } => TypeView::ListDef {
            metadata: Box::new(view_schema_kind(*metadata)),
        },
        Type::ListOptional(props) => TypeView::ListOptional(view_optional_properties(props@)),
        Type::ListRef { items } => TypeView::ListRef {
            items: Box::new(view_schema_kind(*items)),
        },
        Type::Patch => TypeView::Patch,
        Type::PatchOptional(props) => TypeView::PatchOptional(view_optional_properties(props@)),
        Type::WatchEvent(r) => TypeView::WatchEvent(r@),
        Type::WatchOptional(props) => TypeView::WatchOptional(view_optional_properties(props@)),
        Type::DeleteResponse => TypeView::DeleteResponse,
        Type::ListResponse => TypeView::ListResponse,
        Type::PatchResponse => TypeView::PatchResponse,
        Type::WatchResponse => TypeView::WatchResponse,
    }
}

#[via_fn]
proof fn view_type_decreases(t: Type) {
    match t {
        Type::DeleteOptional(props) => {
            assert(decreases_to!(t => props));
            assert(decreases_to!(props => props@));
        },
        Type::ListOptional(props) => {
            assert(decreases_to!(t => props));
            assert(decreases_to!(props => props@));
        },
        Type::PatchOptional(props) => {
            assert(decreases_to!(t => props));
            assert(decreases_to!(props => props@));
        },
        Type::WatchOptional(props) => {
            assert(decreases_to!(t => props));
            assert(decreases_to!(props => props@));
        },
        _ => {},
    }
}

/// `view_properties` maps its argument pointwise.
pub broadcast proof fn lemma_view_properties(ps: Seq<Property>)
    ensures
        (#[trigger] view_properties(ps)).len() == ps.len(),
        forall|i: int| 0 <= i < ps.len() ==> view_properties(ps)[i] == view_property(ps[i]),
    decreases ps,
{
    if ps.len() != 0 {
        lemma_view_properties(ps.subrange(1, ps.len() as int));
    }
}

/// `view_optional_properties` maps its argument pointwise.
pub broadcast proof fn lemma_view_optional_properties(ps: Seq<OptionalProperty>)
    ensures
        (#[trigger] view_optional_properties(ps)).len() == ps.len(),
        forall|i: int|
            0 <= i < ps.len() ==> view_optional_properties(ps)[i] == view_optional_property(
                ps[i],
            ),
    decreases ps,
{
    if ps.len() != 0 {
        lemma_view_optional_properties(ps.subrange(1, ps.len() as int));
    }
}

impl View for Schema {
    type V = SchemaView;

    open spec fn view(&self) -> SchemaView {
        view_schema(*self)
    }
}

impl View for SchemaKind {
    type V = SchemaKindView;

    open spec fn view(&self) -> SchemaKindView {
        view_schema_kind(*self)
    }
}

impl View for Property {
    type V = PropertyView;

    open spec fn view(&self) -> PropertyView {
        view_property(*self)
    }
}

impl View for OptionalProperty {
    type V = OptionalPropertyView;

    open spec fn view(&self) -> OptionalPropertyView {
        view_optional_property(*self)
    }
}

impl View for Type {
    type V = TypeView;

    open spec fn view(&self) -> TypeView {
        view_type(*self)
    }
}

impl View for Definition {
    type V = DefinitionView;

    open spec fn view(&self) -> DefinitionView {
        DefinitionView { path: self.path@, schema: self.schema@ }
    }
}

impl View for Parameter {
    type V = ParameterView;

    open spec fn view(&self) -> ParameterView {
        ParameterView {
            location: self.location,
            name: self.name@,
            required: self.required,
            schema: self.schema@,
        }
    }
}

impl View for Response {
    type V = ResponseView;

    open spec fn view(&self) -> ResponseView {
        ResponseView { status: self.status, schema: self.schema@ }
    }
}

pub open spec fn view_strings(ss: Seq<String>) -> Seq<Seq<char>> {
    Seq::new(ss.len(), |i: int| ss[i]@)
}

pub open spec fn view_parameters(ps: Seq<Parameter>) -> Seq<ParameterView> {
    Seq::new(ps.len(), |i: int| ps[i]@)
}

pub open spec fn view_responses(rs: Seq<Response>) -> Seq<ResponseView> {
    Seq::new(rs.len(), |i: int| rs[i]@)
}

pub open spec fn view_definitions(ds: Seq<Definition>) -> Seq<DefinitionView> {
    Seq::new(ds.len(), |i: int| ds[i]@)
}

pub open spec fn view_operations(os: Seq<Operation>) -> Seq<OperationView> {
    Seq::new(os.len(), |i: int| os[i]@)
}

impl View for Operation {
    type V = OperationView;

    open spec fn view(&self) -> OperationView {
        OperationView {
            id: self.id@,
            description: view_opt_string(self.description),
            kubernetes_action: self.kubernetes_action,
            kubernetes_group_kind_version: match self.kubernetes_group_kind_version {
                Some(gvk) => Some(gvk@),
                None => None,
            },
            parameters: view_parameters(self.parameters@),
            responses: view_responses(self.responses@),
        }
    }
}

impl View for ApiSpec {
    type V = ApiSpecView;

    open spec fn view(&self) -> ApiSpecView {
        ApiSpecView {
            definitions: view_definitions(self.definitions@),
            operations: view_operations(self.operations@),
        }
    }
}

impl RefPath {
    /// A value-identical copy.
    pub fn deep_clone(&self) -> (r: RefPath)
        ensures
            r@ == self@,
    {
        RefPath {
            path: self.path.clone(),
            relative_to: self.relative_to,
            can_be_default: self.can_be_default,
        }
    }
}

impl GroupVersionKind {
    /// A value-identical copy.
    pub fn deep_clone(&self) -> (r: GroupVersionKind)
        ensures
            r@ == self@,
            r.group@ == self.group@,
            r.version@ == self.version@,
            r.kind@ == self.kind@,
    {
        GroupVersionKind {
            group: self.group.clone(),
            version: self.version.clone(),
            kind: self.kind.clone(),
        }
    }
}

/// A value-identical copy of an optional description.
pub fn clone_opt_string(s: &Option<String>) -> (r: Option<String>)
    ensures
        view_opt_string(r) == view_opt_string(*s),
{
    match s {
        Some(t) => Some(t.clone()),
        None => None,
    }
}

/// A value-identical copy of an optional (group, version, kind) list.
pub fn clone_gvks(gvks: &Option<Vec<GroupVersionKind>>) -> (r: Option<Vec<GroupVersionKind>>)
    ensures
        view_gvks_opt(r) == view_gvks_opt(*gvks),
{
    match gvks {
        Some(gv) => {
            let mut rv: Vec<GroupVersionKind> = Vec::new();
            let mut i: usize = 0;
            while i < gv.len()
                invariant
                    i <= gv@.len(),
                    rv@.len() == i,
                    forall|j: int| 0 <= j < i ==> rv@[j]@ == gv@[j]@,
                decreases gv@.len() - i,
            {
                rv.push(gv[i].deep_clone());
                i = i + 1;
            }
            proof {
                assert(Seq::new(rv@.len(), |i: int| rv@[i]@) =~= Seq::new(
                    gv@.len(),
                    |i: int| gv@[i]@,
                ));
            }
            Some(rv)
        },
        None => None,
    }
}

impl Schema {
    /// A value-identical deep copy.
    pub fn deep_clone(&self) -> (r: Schema)
        ensures
            r@ == self@,
        decreases *self,
    {
        let r = Schema {
            description: clone_opt_string(&self.description),
            kind: self.kind.deep_clone(),
            kubernetes_group_kind_versions: clone_gvks(&self.kubernetes_group_kind_versions),
            has_corresponding_list_type: self.has_corresponding_list_type,
        };
        r
    }
}

impl SchemaKind {
    /// A value-identical deep copy.
    pub fn deep_clone(&self) -> (r: SchemaKind)
        ensures
            r@ == self@,
        decreases *self,
    {
        match self {
            SchemaKind::Properties(props) => SchemaKind::Properties(clone_properties(props)),
            SchemaKind::Ref(rp) => SchemaKind::Ref(rp.deep_clone()),
            SchemaKind::Ty(t) => SchemaKind::Ty(t.deep_clone()),
        }
    }
}

/// A value-identical deep copy of a property list.
pub fn clone_properties(ps: &Vec<Property>) -> (r: Vec<Property>)
    ensures
        view_properties(r@) == view_properties(ps@),
    decreases *ps,
{
    let mut r: Vec<Property> = Vec::new();
    let mut i: usize = 0;
    while i < ps.len()
        invariant
            i <= ps@.len(),
            r@.len() == i,
            forall|j: int| 0 <= j < i ==> r@[j]@ == ps@[j]@,
        decreases ps@.len() - i,
    {
        let p = &ps[i];
        r.push(
            Property {
                name: p.name.clone(),
                schema: p.schema.deep_clone(),
                required: p.required,
            },
        );
        i = i + 1;
    }
    proof {
        broadcast use {lemma_view_properties};

        assert(view_properties(r@) =~= view_properties(ps@));
    }
    r
}

/// A value-identical deep copy of an optional-property list.
pub fn clone_optional_properties(ps: &Vec<OptionalProperty>) -> (r: Vec<OptionalProperty>)
    ensures
        view_optional_properties(r@) == view_optional_properties(ps@),
    decreases *ps,
{
    let mut r: Vec<OptionalProperty> = Vec::new();
    let mut i: usize = 0;
    while i < ps.len()
        invariant
            i <= ps@.len(),
            r@.len() == i,
            forall|j: int| 0 <= j < i ==> r@[j]@ == ps@[j]@,
        decreases ps@.len() - i,
    {
        let p = &ps[i];
        r.push(OptionalProperty { name: p.name.clone(), schema: p.schema.deep_clone() });
        i = i + 1;
    }
    proof {
        broadcast use {lemma_view_optional_properties};

        assert(view_optional_properties(r@) =~= view_optional_properties(ps@));
    }
    r
}

impl Type {
    /// A value-identical deep copy.
    pub fn deep_clone(&self) -> (r: Type)
        ensures
            r@ == self@,
        decreases *self,
    {
        match self {
            Type::Array { items } => Type::Array { items: Box::new(items.deep_clone()) },
            Type::DeleteOptional(props) => Type::DeleteOptional(clone_optional_properties(props)),
            Type::ListDef { metadata } => Type::ListDef {
                metadata: Box::new(metadata.deep_clone()),
            },
            Type::ListOptional(props) => Type::ListOptional(clone_optional_properties(props)),
            Type::ListRef { items } => Type::ListRef { items: Box::new(items.deep_clone()) },
            Type::Patch => Type::Patch,
            Type::PatchOptional(props) => Type::PatchOptional(clone_optional_properties(props)),
            Type::WatchEvent(rp) => Type::WatchEvent(rp.deep_clone()),
            Type::WatchOptional(props) => Type::WatchOptional(clone_optional_properties(props)),
            Type::DeleteResponse => Type::DeleteResponse,
            Type::ListResponse => Type::ListResponse,
            Type::PatchResponse => Type::PatchResponse,
            Type::WatchResponse => Type::WatchResponse,
        }
    }
}

impl Parameter {
    /// A value-identical deep copy.
    pub fn deep_clone(&self) -> (r: Parameter)
        ensures
            r@ == self@,
    {
        Parameter {
            location: self.location,
            name: self.name.clone(),
            required: self.required,
            schema: self.schema.deep_clone(),
        }
    }
}

impl Response {
    /// A value-identical deep copy.
    pub fn deep_clone(&self) -> (r: Response)
        ensures
            r@ == self@,
    {
        Response { status: self.status, schema: self.schema.deep_clone() }
    }
}

/// A value-identical deep copy of a parameter list.
pub fn clone_parameters(ps: &Vec<Parameter>) -> (r: Vec<Parameter>)
    ensures
        view_parameters(r@) == view_parameters(ps@),
{
    let mut r: Vec<Parameter> = Vec::new();
    let mut i: usize = 0;
    while i < ps.len()
        invariant
            i <= ps@.len(),
            r@.len() == i,
            forall|j: int| 0 <= j < i ==> r@[j]@ == ps@[j]@,
        decreases ps@.len() - i,
    {
        r.push(ps[i].deep_clone());
        i = i + 1;
    }
    proof {
        assert(view_parameters(r@) =~= view_parameters(ps@));
    }
    r
}

/// A value-identical deep copy of a response list.
pub fn clone_responses(rs: &Vec<Response>) -> (r: Vec<Response>)
    ensures
        view_responses(r@) == view_responses(rs@),
{
    let mut r: Vec<Response> = Vec::new();
    let mut i: usize = 0;
    while i < rs.len()
        invariant
            i <= rs@.len(),
            r@.len() == i,
            forall|j: int| 0 <= j < i ==> r@[j]@ == rs@[j]@,
        decreases rs@.len() - i,
    {
        r.push(rs[i].deep_clone());
        i = i + 1;
    }
    proof {
        assert(view_responses(r@) =~= view_responses(rs@));
    }
    r
}

impl Operation {
    /// A value-identical deep copy.
    pub fn deep_clone(&self) -> (r: Operation)
        ensures
            r@ == self@,
    {
        Operation {
            id: self.id.clone(),
            description: clone_opt_string(&self.description),
            kubernetes_action: self.kubernetes_action,
            kubernetes_group_kind_version: match &self.kubernetes_group_kind_version {
                Some(gvk) => Some(gvk.deep_clone()),
                None => None,
            },
            parameters: clone_parameters(&self.parameters),
            responses: clone_responses(&self.responses),
        }
    }
}

} // verus!
