//! The decoded asset-graph model: imports, exports, property trees, and the
//! well-formedness invariant every patch strategy preserves.
//!
//! One `AssetGraph` stands for one decoded content unit. Indices are signed:
//! `0` is null, a positive index `i` names export `i - 1`, a negative index
//! `i` names import `-i - 1`. Every index stored anywhere in the graph must
//! be null or resolve to a live import or export; a dangling index is fatal
//! to the loader.

use vstd::prelude::*;

verus! {

broadcast use {
    vstd::seq::axiom_seq_index_decreases,
    vstd::seq::axiom_seq_subrange_decreases,
    vstd::std_specs::vec::axiom_vec_decreases_to_view,
    vstd::std_specs::vec::axiom_vec_index_decreases,
};

/// The flag bit marking an export as the class-default object of its class.
pub const FLAG_CLASS_DEFAULT_OBJECT: u32 = 0x10;

/// An interned name: text plus a numeric disambiguator. Number `0` prints as
/// the bare text; a number `n > 0` prints as `text_n`.
pub struct FName {
    pub text: String,
    pub number: i32,
}

/// Mathematical shape of an [`FName`].
#[verifier::ext_equal]
pub struct FNameV {
    pub text: Seq<char>,
    pub number: int,
}

impl DeepView for FName {
    type V = FNameV;

    open spec fn deep_view(&self) -> FNameV {
        FNameV { text: self.text@, number: self.number as int }
    }
}

impl FName {
    /// A name with no numeric disambiguator.
    pub fn new(text: &str) -> (r: FName)
        ensures
            r.deep_view() == (FNameV { text: text@, number: 0 }),
    {
        FName { text: text.to_owned(), number: 0 }
    }

    /// A name with an explicit numeric disambiguator.
    pub fn with_number(text: &str, number: i32) -> (r: FName)
        ensures
            r.deep_view() == (FNameV { text: text@, number: number as int }),
    {
        FName { text: text.to_owned(), number }
    }

    /// An identical copy.
    pub fn duplicate(&self) -> (r: FName)
        ensures
            r.deep_view() == self.deep_view(),
    {
        FName { text: self.text.clone(), number: self.number }
    }
}

/// A reference to an object defined outside this graph.
pub struct Import {
    pub class_package: FName,
    pub class_name: FName,
    pub outer_index: i32,
    pub object_name: FName,
}

/// Mathematical shape of an [`Import`].
#[verifier::ext_equal]
pub struct ImportV {
    pub class_package: FNameV,
    pub class_name: FNameV,
    pub outer_index: int,
    pub object_name: FNameV,
}

impl DeepView for Import {
    type V = ImportV;

    open spec fn deep_view(&self) -> ImportV {
        ImportV {
            class_package: self.class_package.deep_view(),
            class_name: self.class_name.deep_view(),
            outer_index: self.outer_index as int,
            object_name: self.object_name.deep_view(),
        }
    }
}

impl Import {
    /// An identical copy.
    pub fn duplicate(&self) -> (r: Import)
        ensures
            r.deep_view() == self.deep_view(),
    {
        Import {
            class_package: self.class_package.duplicate(),
            class_name: self.class_name.duplicate(),
            outer_index: self.outer_index,
            object_name: self.object_name.duplicate(),
        }
    }
}

/// A value in an export's property tree.
pub enum Property {
    /// A hard object reference, by graph index.
    Object { name: FName, value: i32, has_guid: bool },
    /// A soft object reference: an asset path plus an optional sub-path.
    SoftObject { name: FName, asset_path: FName, sub_path: Option<String> },
    /// An ordered sequence of values of one declared element type.
    Array { name: FName, array_type: Option<FName>, value: Vec<Property> },
    /// A named bundle of nested values.
    Struct { name: FName, struct_type: Option<FName>, value: Vec<Property> },
    /// A name value.
    Name { name: FName, value: FName },
    /// A boolean value.
    Bool { name: FName, value: bool },
    /// A 128-bit identifier value.
    Guid { name: FName, value: [u8; 16] },
    /// Any property kind this engine reads past without interpreting.
    Other { name: FName },
}

/// Mathematical shape of a [`Property`].
#[verifier::ext_equal]
pub enum PropertyV {
    Object { name: FNameV, value: int, has_guid: bool },
    SoftObject { name: FNameV, asset_path: FNameV, sub_path: Option<Seq<char>> },
    Array { name: FNameV, array_type: Option<FNameV>, value: Seq<PropertyV> },
    Struct { name: FNameV, struct_type: Option<FNameV>, value: Seq<PropertyV> },
    Name { name: FNameV, value: FNameV },
    Bool { name: FNameV, value: bool },
    Guid { name: FNameV, value: Seq<u8> },
    Other { name: FNameV },
}

/// Views of a sequence of properties, element by element.
pub open spec fn prop_views(s: Seq<Property>) -> Seq<PropertyV>
    decreases s,
{
    if s.len() == 0 {
        Seq::empty()
    } else {
        seq![s[0].deep_view()] + prop_views(s.drop_first())
    }
}

impl DeepView for Property {
    type V = PropertyV;

    open spec fn deep_view(&self) -> PropertyV
        decreases self,
    {
        match self {
            Property::Object { name, value, has_guid } => PropertyV::Object {
                name: name.deep_view(),
                value: *value as int,
                has_guid: *has_guid,
            },
            Property::SoftObject { name, asset_path, sub_path } => PropertyV::SoftObject {
                name: name.deep_view(),
                asset_path: asset_path.deep_view(),
                sub_path: match sub_path {
                    Some(s) => Some(s@),
                    None => None,
                },
            },
            Property::Array { name, array_type, value } => PropertyV::Array {
                name: name.deep_view(),
                array_type: match array_type {
                    Some(t) => Some(t.deep_view()),
                    None => None,
                },
                value: prop_views(value@),
            },
            Property::Struct { name, struct_type, value } => PropertyV::Struct {
                name: name.deep_view(),
                struct_type: match struct_type {
                    Some(t) => Some(t.deep_view()),
                    None => None,
                },
                value: prop_views(value@),
            },
            Property::Name { name, value } => PropertyV::Name {
                name: name.deep_view(),
                value: value.deep_view(),
            },
            Property::Bool { name, value } => PropertyV::Bool {
                name: name.deep_view(),
                value: *value,
            },
            Property::Guid { name, value } => PropertyV::Guid {
                name: name.deep_view(),
                value: value.deep_view(),
            },
            Property::Other { name } => PropertyV::Other { name: name.deep_view() },
        }
    }
}

pub proof fn lemma_prop_views(s: Seq<Property>)
    ensures
        prop_views(s).len() == s.len(),
        forall|i: int| 0 <= i < s.len() ==> prop_views(s)[i] == #[trigger] s[i].deep_view(),
    decreases s.len(),
{
    if s.len() > 0 {
        lemma_prop_views(s.drop_first());
        assert(prop_views(s) == seq![s[0].deep_view()] + prop_views(s.drop_first()));
        assert forall|i: int| 0 <= i < s.len() implies prop_views(s)[i] == #[trigger] s[i]
            .deep_view() by {
            if i > 0 {
                assert(s.drop_first()[i - 1] == s[i]);
                assert(prop_views(s.drop_first())[i - 1] == s.drop_first()[i - 1].deep_view());
                assert(prop_views(s)[i] == prop_views(s.drop_first())[i - 1]);
            }
        }
    }
}

impl PropertyV {
    /// The name any property kind carries.
    pub open spec fn name(self) -> FNameV {
        match self {
            PropertyV::Object { name, .. } => name,
            PropertyV::SoftObject { name, .. } => name,
            PropertyV::Array { name, .. } => name,
            PropertyV::Struct { name, .. } => name,
            PropertyV::Name { name, .. } => name,
            PropertyV::Bool { name, .. } => name,
            PropertyV::Guid { name, .. } => name,
            PropertyV::Other { name } => name,
        }
    }
}

impl Property {
    /// The name any property kind carries.
    pub fn get_name(&self) -> (r: &FName)
        ensures
            r.deep_view() == self.deep_view().name(),
    {
        match self {
            Property::Object { name, .. } => name,
            Property::SoftObject { name, .. } => name,
            Property::Array { name, .. } => name,
            Property::Struct { name, .. } => name,
            Property::Name { name, .. } => name,
            Property::Bool { name, .. } => name,
            Property::Guid { name, .. } => name,
            Property::Other { name } => name,
        }
    }

    /// A structurally identical copy.
    pub fn duplicate(&self) -> (r: Property)
        ensures
            r.deep_view() == self.deep_view(),
        decreases self,
    {
        match self {
            Property::Object { name, value, has_guid } => Property::Object {
                name: name.duplicate(),
                value: *value,
                has_guid: *has_guid,
            },
            Property::SoftObject { name, asset_path, sub_path } => Property::SoftObject {
                name: name.duplicate(),
                asset_path: asset_path.duplicate(),
                sub_path: match sub_path {
                    Some(s) => Some(s.clone()),
                    None => None,
                },
            },
            Property::Array { name, array_type, value } => Property::Array {
                name: name.duplicate(),
                array_type: match array_type {
                    Some(t) => Some(t.duplicate()),
                    None => None,
                },
                value: duplicate_properties(value),
            },
            Property::Struct { name, struct_type, value } => Property::Struct {
                name: name.duplicate(),
                struct_type: match struct_type {
                    Some(t) => Some(t.duplicate()),
                    None => None,
                },
                value: duplicate_properties(value),
            },
            Property::Name { name, value } => Property::Name {
                name: name.duplicate(),
                value: value.duplicate(),
            },
            Property::Bool { name, value } => Property::Bool {
                name: name.duplicate(),
                value: *value,
            },
            Property::Guid { name, value } => Property::Guid {
                name: name.duplicate(),
                value: *value,
            },
            Property::Other { name } => Property::Other { name: name.duplicate() },
        }
    }
}

/// A structurally identical copy of a whole property list.
pub fn duplicate_properties(props: &Vec<Property>) -> (r: Vec<Property>)
    ensures
        prop_views(r@) == prop_views(props@),
    decreases props,
{
    let mut r: Vec<Property> = Vec::new();
    let n = props.len();
    let mut i: usize = 0;
    proof {
        lemma_prop_views(props@);
    }
    while i < n
        invariant
            i <= n,
            n == props@.len(),
            r@.len() == i,
            prop_views(props@).len() == props@.len(),
            forall|j: int| 0 <= j < props@.len() ==> prop_views(props@)[j]
                == #[trigger] props@[j].deep_view(),
            forall|j: int| 0 <= j < i ==> #[trigger] r@[j].deep_view() == props@[j].deep_view(),
        decreases n - i,
    {
        let d = props[i].duplicate();
        r.push(d);
        i = i + 1;
    }
    proof {
        lemma_prop_views(r@);
        assert forall|j: int|
            0 <= j < r@.len() implies prop_views(r@)[j] == prop_views(props@)[j] by {
            assert(prop_views(r@)[j] == r@[j].deep_view());
            assert(r@[j].deep_view() == props@[j].deep_view());
        }
        assert(prop_views(r@) =~= prop_views(props@));
    }
    r
}

pub proof fn lemma_prop_views_update(s: Seq<Property>, j: int, p: Property)
    requires
        0 <= j < s.len(),
    ensures
        prop_views(s.update(j, p)) == prop_views(s).update(j, p.deep_view()),
{
    lemma_prop_views(s);
    lemma_prop_views(s.update(j, p));
    assert forall|i: int|
        0 <= i < s.len() implies prop_views(s.update(j, p))[i] == prop_views(s).update(
        j,
        p.deep_view(),
    )[i] by {
        if i == j {
            assert(s.update(j, p)[i] == p);
            assert(prop_views(s.update(j, p))[i] == s.update(j, p)[i].deep_view());
        } else {
            assert(s.update(j, p)[i] == s[i]);
            assert(prop_views(s.update(j, p))[i] == s.update(j, p)[i].deep_view());
            assert(prop_views(s)[i] == s[i].deep_view());
        }
    }
    assert(prop_views(s.update(j, p)) =~= prop_views(s).update(j, p.deep_view()));
}

pub proof fn lemma_prop_views_push(s: Seq<Property>, p: Property)
    ensures
        prop_views(s.push(p)) == prop_views(s).push(p.deep_view()),
{
    lemma_prop_views(s);
    lemma_prop_views(s.push(p));
    assert forall|i: int|
        0 <= i < s.len() + 1 implies prop_views(s.push(p))[i] == prop_views(s).push(
        p.deep_view(),
    )[i] by {
        if i < s.len() {
            assert(s.push(p)[i] == s[i]);
            assert(prop_views(s.push(p))[i] == s.push(p)[i].deep_view());
            assert(prop_views(s)[i] == s[i].deep_view());
        } else {
            assert(s.push(p)[i] == p);
            assert(prop_views(s.push(p))[i] == s.push(p)[i].deep_view());
        }
    }
    assert(prop_views(s.push(p)) =~= prop_views(s).push(p.deep_view()));
}

/// What kind of export a record is, with the kind-specific payload.
pub enum ExportKind {
    /// A plain object instance.
    Normal,
    /// A class definition, with the indices of its member exports.
    Class { children: Vec<i32> },
    /// A property definition, referencing the class of the property's value.
    Property { property_class: i32 },
    /// Any other export kind this engine reads past without interpreting.
    Other,
}

/// Mathematical shape of an [`ExportKind`].
#[verifier::ext_equal]
pub enum ExportKindV {
    Normal,
    Class { children: Seq<int> },
    Property { property_class: int },
    Other,
}

/// A sequence of `i32` indices as mathematical integers.
pub open spec fn ints_of(s: Seq<i32>) -> Seq<int> {
    s.map_values(|x: i32| x as int)
}

impl DeepView for ExportKind {
    type V = ExportKindV;

    open spec fn deep_view(&self) -> ExportKindV {
        match self {
            ExportKind::Normal => ExportKindV::Normal,
            ExportKind::Class { children } => ExportKindV::Class { children: ints_of(children@) },
            ExportKind::Property { property_class } => ExportKindV::Property {
                property_class: *property_class as int,
            },
            ExportKind::Other => ExportKindV::Other,
        }
    }
}

/// An object defined inside the graph. All kinds share this base record;
/// the four dependency lists feed the loader's staged initialization pass.
pub struct Export {
    pub object_name: FName,
    pub object_flags: u32,
    pub class_index: i32,
    pub outer_index: i32,
    pub template_index: i32,
    pub create_before_serialization: Vec<i32>,
    pub create_before_create: Vec<i32>,
    pub serialization_before_serialization: Vec<i32>,
    pub serialization_before_create: Vec<i32>,
    pub kind: ExportKind,
    pub properties: Vec<Property>,
}

/// Mathematical shape of an [`Export`].
#[verifier::ext_equal]
pub struct ExportV {
    pub object_name: FNameV,
    pub object_flags: u32,
    pub class_index: int,
    pub outer_index: int,
    pub template_index: int,
    pub create_before_serialization: Seq<int>,
    pub create_before_create: Seq<int>,
    pub serialization_before_serialization: Seq<int>,
    pub serialization_before_create: Seq<int>,
    pub kind: ExportKindV,
    pub properties: Seq<PropertyV>,
}

impl DeepView for Export {
    type V = ExportV;

    open spec fn deep_view(&self) -> ExportV {
        ExportV {
            object_name: self.object_name.deep_view(),
            object_flags: self.object_flags,
            class_index: self.class_index as int,
            outer_index: self.outer_index as int,
            template_index: self.template_index as int,
            create_before_serialization: ints_of(self.create_before_serialization@),
            create_before_create: ints_of(self.create_before_create@),
            serialization_before_serialization: ints_of(self.serialization_before_serialization@),
            serialization_before_create: ints_of(self.serialization_before_create@),
            kind: self.kind.deep_view(),
            properties: prop_views(self.properties@),
        }
    }
}

impl ExportV {
    /// An export whose property list is read by the anchor queries: plain
    /// instances and class definitions carry property lists.
    pub open spec fn has_properties(self) -> bool {
        self.kind is Normal || self.kind is Class
    }

    /// Whether this export is flagged as a class-default object.
    pub open spec fn is_cdo(self) -> bool {
        self.object_flags & FLAG_CLASS_DEFAULT_OBJECT != 0
    }
}

impl Export {
    /// A structurally identical copy.
    pub fn duplicate(&self) -> (r: Export)
        ensures
            r.deep_view() == self.deep_view(),
    {
        let kind = match &self.kind {
            ExportKind::Normal => ExportKind::Normal,
            ExportKind::Class { children } => ExportKind::Class { children: children.clone() },
            ExportKind::Property { property_class } => ExportKind::Property {
                property_class: *property_class,
            },
            ExportKind::Other => ExportKind::Other,
        };
        Export {
            object_name: self.object_name.duplicate(),
            object_flags: self.object_flags,
            class_index: self.class_index,
            outer_index: self.outer_index,
            template_index: self.template_index,
            create_before_serialization: self.create_before_serialization.clone(),
            create_before_create: self.create_before_create.clone(),
            serialization_before_serialization: self.serialization_before_serialization.clone(),
            serialization_before_create: self.serialization_before_create.clone(),
            kind,
            properties: duplicate_properties(&self.properties),
        }
    }
}

/// One decoded content unit: its imports and its exports, in graph order.
pub struct AssetGraph {
    pub imports: Vec<Import>,
    pub exports: Vec<Export>,
}

/// Mathematical shape of an [`AssetGraph`].
#[verifier::ext_equal]
pub struct GraphV {
    pub imports: Seq<ImportV>,
    pub exports: Seq<ExportV>,
}

/// Views of a sequence of imports, element by element.
pub open spec fn import_views(s: Seq<Import>) -> Seq<ImportV> {
    Seq::new(s.len(), |i: int| s[i].deep_view())
}

/// Views of a sequence of exports, element by element.
pub open spec fn export_views(s: Seq<Export>) -> Seq<ExportV> {
    Seq::new(s.len(), |i: int| s[i].deep_view())
}

pub proof fn lemma_export_views_update(s: Seq<Export>, j: int, e: Export)
    requires
        0 <= j < s.len(),
    ensures
        export_views(s.update(j, e)) == export_views(s).update(j, e.deep_view()),
{
    assert(export_views(s.update(j, e)) =~= export_views(s).update(j, e.deep_view()));
}

impl DeepView for AssetGraph {
    type V = GraphV;

    open spec fn deep_view(&self) -> GraphV {
        GraphV { imports: import_views(self.imports@), exports: export_views(self.exports@) }
    }
}

/// `i` names a live import or export of `g`.
pub open spec fn live_ref(g: GraphV, i: int) -> bool {
    (0 < i && i <= g.exports.len()) || (i < 0 && -i <= g.imports.len())
}

/// `i` is null or names a live import or export of `g`.
pub open spec fn valid_ref(g: GraphV, i: int) -> bool {
    i == 0 || live_ref(g, i)
}

/// Every index in `s` is a valid reference into `g`.
pub open spec fn valid_refs(g: GraphV, s: Seq<int>) -> bool {
    forall|k: int| 0 <= k < s.len() ==> valid_ref(g, #[trigger] s[k])
}

/// Every index in `s` is a live (non-null) reference into `g`.
pub open spec fn live_refs(g: GraphV, s: Seq<int>) -> bool {
    forall|k: int| 0 <= k < s.len() ==> live_ref(g, #[trigger] s[k])
}

/// Every index stored in the property resolves within `g`.
pub open spec fn prop_valid(g: GraphV, p: PropertyV) -> bool
    decreases p,
{
    match p {
        PropertyV::Object { value, .. } => valid_ref(g, value),
        PropertyV::Array { value, .. } => props_valid(g, value),
        PropertyV::Struct { value, .. } => props_valid(g, value),
        _ => true,
    }
}

/// Every index stored anywhere in the property list resolves within `g`.
pub open spec fn props_valid(g: GraphV, s: Seq<PropertyV>) -> bool
    decreases s,
{
    if s.len() == 0 {
        true
    } else {
        prop_valid(g, s[0]) && props_valid(g, s.drop_first())
    }
}

pub proof fn lemma_props_valid(g: GraphV, s: Seq<PropertyV>)
    ensures
        props_valid(g, s) <==> (forall|i: int| 0 <= i < s.len() ==> prop_valid(
            g,
            #[trigger] s[i],
        )),
    decreases s.len(),
{
    if s.len() > 0 {
        lemma_props_valid(g, s.drop_first());
        assert forall|i: int| 0 <= i < s.drop_first().len() implies s.drop_first()[i] == s[i
            + 1] by {}
        if props_valid(g, s) {
            assert forall|i: int| 0 <= i < s.len() implies prop_valid(g, #[trigger] s[i]) by {
                if i > 0 {
                    assert(prop_valid(g, s.drop_first()[i - 1]));
                }
            }
        }
        if forall|i: int| 0 <= i < s.len() ==> prop_valid(g, #[trigger] s[i]) {
            assert forall|i: int| 0 <= i < s.drop_first().len() implies prop_valid(
                g,
                #[trigger] s.drop_first()[i],
            ) by {
                assert(s.drop_first()[i] == s[i + 1]);
            }
        }
    }
}

/// Every index the export stores resolves within `g`.
pub open spec fn export_valid(g: GraphV, e: ExportV) -> bool {
    &&& valid_ref(g, e.class_index)
    &&& valid_ref(g, e.outer_index)
    &&& valid_ref(g, e.template_index)
    &&& valid_refs(g, e.create_before_serialization)
    &&& valid_refs(g, e.create_before_create)
    &&& valid_refs(g, e.serialization_before_serialization)
    &&& valid_refs(g, e.serialization_before_create)
    &&& match e.kind {
        ExportKindV::Class { children } => valid_refs(g, children),
        ExportKindV::Property { property_class } => valid_ref(g, property_class),
        _ => true,
    }
    &&& props_valid(g, e.properties)
}

/// Every index the import stores resolves within `g`.
pub open spec fn import_valid(g: GraphV, im: ImportV) -> bool {
    valid_ref(g, im.outer_index)
}

/// The graph-wide invariant: every index stored by any import or export is
/// null or resolves to a live import or export of the same graph.
pub open spec fn graph_wf(g: GraphV) -> bool {
    &&& forall|i: int| 0 <= i < g.imports.len() ==> import_valid(g, #[trigger] g.imports[i])
    &&& forall|i: int| 0 <= i < g.exports.len() ==> export_valid(g, #[trigger] g.exports[i])
}

/// `g2` holds at least everything `g` holds, so any reference valid in `g`
/// stays valid in `g2`.
pub open spec fn graph_extends(g2: GraphV, g: GraphV) -> bool {
    g2.imports.len() >= g.imports.len() && g2.exports.len() >= g.exports.len()
}

pub proof fn lemma_prop_valid_mono(g: GraphV, g2: GraphV, p: PropertyV)
    requires
        graph_extends(g2, g),
        prop_valid(g, p),
    ensures
        prop_valid(g2, p),
    decreases p,
{
    match p {
        PropertyV::Array { value, .. } => {
            lemma_props_valid_mono(g, g2, value);
        },
        PropertyV::Struct { value, .. } => {
            lemma_props_valid_mono(g, g2, value);
        },
        _ => {},
    }
}

pub proof fn lemma_props_valid_mono(g: GraphV, g2: GraphV, s: Seq<PropertyV>)
    requires
        graph_extends(g2, g),
        props_valid(g, s),
    ensures
        props_valid(g2, s),
    decreases s,
{
    if s.len() > 0 {
        lemma_prop_valid_mono(g, g2, s[0]);
        lemma_props_valid_mono(g, g2, s.drop_first());
    }
}

pub proof fn lemma_export_valid_mono(g: GraphV, g2: GraphV, e: ExportV)
    requires
        graph_extends(g2, g),
        export_valid(g, e),
    ensures
        export_valid(g2, e),
{
    lemma_props_valid_mono(g, g2, e.properties);
}

/// Appending valid imports and exports preserves the graph invariant.
pub proof fn lemma_wf_extend(g: GraphV, g2: GraphV)
    requires
        graph_wf(g),
        g2.imports.len() >= g.imports.len(),
        g2.exports.len() >= g.exports.len(),
        forall|i: int| 0 <= i < g.imports.len() ==> g2.imports[i] == g.imports[i],
        forall|i: int| 0 <= i < g.exports.len() ==> g2.exports[i] == g.exports[i],
        forall|i: int| g.imports.len() <= i < g2.imports.len() ==> import_valid(
            g2,
            #[trigger] g2.imports[i],
        ),
        forall|i: int| g.exports.len() <= i < g2.exports.len() ==> export_valid(
            g2,
            #[trigger] g2.exports[i],
        ),
    ensures
        graph_wf(g2),
{
    assert forall|i: int| 0 <= i < g2.imports.len() implies import_valid(
        g2,
        #[trigger] g2.imports[i],
    ) by {
        if i < g.imports.len() {
            assert(import_valid(g, g.imports[i]));
        }
    }
    assert forall|i: int| 0 <= i < g2.exports.len() implies export_valid(
        g2,
        #[trigger] g2.exports[i],
    ) by {
        if i < g.exports.len() {
            assert(export_valid(g, g.exports[i]));
            lemma_export_valid_mono(g, g2, g.exports[i]);
        }
    }
}

impl AssetGraph {
    /// A graph with no imports and no exports.
    pub fn new() -> (r: AssetGraph)
        ensures
            r.deep_view().imports.len() == 0,
            r.deep_view().exports.len() == 0,
    {
        AssetGraph { imports: Vec::new(), exports: Vec::new() }
    }

    /// Appends a fresh import record and returns the (negative) index that
    /// now names it. Never reuses an equivalent existing record.
    pub fn add_import(&mut self, import: Import) -> (idx: i32)
        requires
            old(self).imports@.len() < 0x7fff_ffff,
        ensures
            final(self).deep_view().imports == old(self).deep_view().imports.push(
                import.deep_view(),
            ),
            final(self).deep_view().exports == old(self).deep_view().exports,
            idx as int == -(old(self).deep_view().imports.len() + 1),
            live_ref(final(self).deep_view(), idx as int),
    {
        let n = self.imports.len();
        self.imports.push(import);
        proof {
            assert(import_views(self.imports@) =~= import_views(old(self).imports@).push(
                import.deep_view(),
            ));
            assert(export_views(self.exports@) =~= export_views(old(self).exports@));
        }
        -(n as i32) - 1
    }

    /// Appends a fresh export record and returns the (positive) index that
    /// now names it.
    pub fn add_export(&mut self, export: Export) -> (idx: i32)
        requires
            old(self).exports@.len() < 0x7fff_fffe,
        ensures
            final(self).deep_view().exports == old(self).deep_view().exports.push(
                export.deep_view(),
            ),
            final(self).deep_view().imports == old(self).deep_view().imports,
            idx as int == old(self).deep_view().exports.len() + 1,
            live_ref(final(self).deep_view(), idx as int),
    {
        let n = self.exports.len();
        self.exports.push(export);
        proof {
            assert(export_views(self.exports@) =~= export_views(old(self).exports@).push(
                export.deep_view(),
            ));
            assert(import_views(self.imports@) =~= import_views(old(self).imports@));
        }
        (n as i32) + 1
    }
}


pub proof fn lemma_props_valid_update(g: GraphV, s: Seq<PropertyV>, j: int, p: PropertyV)
    requires
        props_valid(g, s),
        prop_valid(g, p),
        0 <= j < s.len(),
    ensures
        props_valid(g, s.update(j, p)),
{
    lemma_props_valid(g, s);
    lemma_props_valid(g, s.update(j, p));
    assert forall|i: int| 0 <= i < s.update(j, p).len() implies prop_valid(
        g,
        #[trigger] s.update(j, p)[i],
    ) by {
        if i == j {
            assert(s.update(j, p)[i] == p);
        } else {
            assert(s.update(j, p)[i] == s[i]);
        }
    }
}

pub proof fn lemma_props_valid_push(g: GraphV, s: Seq<PropertyV>, p: PropertyV)
    requires
        props_valid(g, s),
        prop_valid(g, p),
    ensures
        props_valid(g, s.push(p)),
{
    lemma_props_valid(g, s);
    lemma_props_valid(g, s.push(p));
    assert forall|i: int| 0 <= i < s.push(p).len() implies prop_valid(
        g,
        #[trigger] s.push(p)[i],
    ) by {
        if i < s.len() {
            assert(s.push(p)[i] == s[i]);
        } else {
            assert(s.push(p)[i] == p);
        }
    }
}

} // verus!
