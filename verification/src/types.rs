//! Wire-level data model: attribute values, items, schemas, and the
//! request / response payloads of each operation.

use vstd::prelude::*;

verus! {

/// A typed attribute value. Only the `S` (string) variant is interpreted by
/// key operations and condition evaluation; `N` and `B` round-trip.
#[derive(Debug, PartialEq, Eq)]
pub enum Attribute {
    S(String),
    N(String),
    B(Vec<u8>),
}

/// Mathematical value of an [`Attribute`].
#[verifier::ext_equal]
pub enum AttrV {
    S(Seq<char>),
    N(Seq<char>),
    B(Seq<u8>),
}

impl View for Attribute {
    type V = AttrV;

    open spec fn view(&self) -> AttrV {
        match self {
            Attribute::S(s) => AttrV::S(s@),
            Attribute::N(s) => AttrV::N(s@),
            Attribute::B(b) => AttrV::B(b@),
        }
    }
}

impl DeepView for Attribute {
    type V = AttrV;

    open spec fn deep_view(&self) -> AttrV {
        self.view()
    }
}

impl Clone for Attribute {
    fn clone(&self) -> (r: Self)
        ensures
            r@ == self@,
    {
        match self {
            Attribute::S(s) => Attribute::S(s.clone()),
            Attribute::N(s) => Attribute::N(s.clone()),
            Attribute::B(b) => {
                let r = Attribute::B(b.clone());
                proof {
                    assert(r@ =~= self@);
                }
                r
            },
        }
    }
}

impl Attribute {
    /// The string payload, for `S` values; other types have none.
    pub fn to_string(&self) -> (r: Result<String, crate::errors::TableError>)
        ensures
            match r {
                Ok(s) => self@ matches AttrV::S(p) && s@ == p,
                Err(e) => !(self@ is S) && e matches crate::errors::TableError::UnsupportedKeyType,
            },
    {
        match self {
            Attribute::S(s) => Ok(s.clone()),
            _ => Err(crate::errors::TableError::UnsupportedKeyType),
        }
    }
}

/// One named attribute of an item.
#[derive(Debug, PartialEq, Eq)]
pub struct Attr {
    pub name: String,
    pub value: Attribute,
}

/// Mathematical value of an [`Attr`].
#[verifier::ext_equal]
pub struct AttrEntryV {
    pub name: Seq<char>,
    pub value: AttrV,
}

impl View for Attr {
    type V = AttrEntryV;

    open spec fn view(&self) -> AttrEntryV {
        AttrEntryV { name: self.name@, value: self.value@ }
    }
}

impl DeepView for Attr {
    type V = AttrEntryV;

    open spec fn deep_view(&self) -> AttrEntryV {
        self.view()
    }
}

impl Clone for Attr {
    fn clone(&self) -> (r: Self)
        ensures
            r@ == self@,
    {
        Attr { name: self.name.clone(), value: self.value.clone() }
    }
}

/// Mathematical value of an [`Item`]: its attributes, in insertion order.
pub type ItemV = Seq<AttrEntryV>;

/// First binding of `name` in `item` at or after index `i`.
pub open spec fn item_get_from(item: ItemV, i: int, name: Seq<char>) -> Option<AttrV>
    decreases item.len() - i,
{
    if i < 0 || i >= item.len() {
        None
    } else if item[i].name == name {
        Some(item[i].value)
    } else {
        item_get_from(item, i + 1, name)
    }
}

/// The value bound to `name` in `item`, if any.
pub open spec fn item_get(item: ItemV, name: Seq<char>) -> Option<AttrV> {
    item_get_from(item, 0, name)
}

/// A mapping from attribute name to attribute value.
#[derive(Debug, PartialEq, Eq)]
pub struct Item {
    pub attrs: Vec<Attr>,
}

impl View for Item {
    type V = ItemV;

    open spec fn view(&self) -> ItemV {
        self.attrs.deep_view()
    }
}

impl DeepView for Item {
    type V = ItemV;

    open spec fn deep_view(&self) -> ItemV {
        self.view()
    }
}

impl Clone for Item {
    fn clone(&self) -> (r: Self)
        ensures
            r@ == self@,
    {
        let attrs = self.attrs.clone();
        proof {
            assert forall|i: int| 0 <= i < attrs.len() implies attrs.deep_view()[i]
                == self.attrs.deep_view()[i] by {
                assert(cloned::<Attr>(self.attrs[i], attrs[i]));
            }
            assert(attrs.deep_view() =~= self.attrs.deep_view());
        }
        Item { attrs }
    }
}

impl Item {
    pub fn new() -> (r: Item)
        ensures
            r@ =~= Seq::<AttrEntryV>::empty(),
    {
        Item { attrs: Vec::new() }
    }

    /// Index of the binding of `name`, if there is one.
    fn position_of(&self, name: &str) -> (r: Option<usize>)
        ensures
            match r {
                Some(i) => i < self@.len() && self@[i as int].name == name@
                    && forall|j: int| 0 <= j < i ==> self@[j].name != name@,
                None => forall|j: int| 0 <= j < self@.len() ==> self@[j].name != name@,
            },
    {
        let n = self.attrs.len();
        let mut i: usize = 0;
        while i < n
            invariant
                n == self@.len(),
                i <= n,
                forall|j: int| 0 <= j < i ==> self@[j].name != name@,
            decreases n - i,
        {
            assert(self@[i as int] == self.attrs@[i as int]@);
            if crate::strutil::str_eq(self.attrs[i].name.as_str(), name) {
                return Some(i);
            }
            i = i + 1;
        }
        None
    }

    /// Bind `name` to `value`, replacing an existing binding.
    pub fn insert(&mut self, name: String, value: Attribute)
        ensures
            final(self)@ =~= spec_item_insert(old(self)@, name@, value@),
    {
        match self.position_of(name.as_str()) {
            Some(i) => {
                self.attrs.remove(i);
                self.attrs.insert(i, Attr { name, value });
                proof {
                    lemma_item_insert_at(old(self)@, name@, value@, i as int);
                    assert(final(self)@ =~= old(self)@.update(
                        i as int,
                        AttrEntryV { name: name@, value: value@ },
                    ));
                }
            },
            None => {
                self.attrs.push(Attr { name, value });
                proof {
                    lemma_item_insert_absent(old(self)@, name@, value@);
                    assert(final(self)@ =~= old(self)@.push(
                        AttrEntryV { name: name@, value: value@ },
                    ));
                }
            },
        }
    }

    /// Look a name up.
    pub fn get(&self, name: &str) -> (r: Option<&Attribute>)
        ensures
            match r {
                Some(a) => item_get(self@, name@) == Some(a@),
                None => item_get(self@, name@) is None,
            },
    {
        match self.position_of(name) {
            Some(i) => {
                proof {
                    lemma_item_get_at(self@, name@, i as int);
                }
                Some(&self.attrs[i].value)
            },
            None => {
                proof {
                    lemma_item_get_absent(self@, name@);
                }
                None
            },
        }
    }

    /// Number of attributes.
    pub fn len(&self) -> (r: usize)
        ensures
            r == self@.len(),
    {
        self.attrs.len()
    }
}

/// Replacement-or-append update of an item, mirroring map insertion.
pub open spec fn spec_item_insert(item: ItemV, name: Seq<char>, value: AttrV) -> ItemV
    decreases item.len(),
{
    if item.len() == 0 {
        seq![AttrEntryV { name, value }]
    } else if item[0].name == name {
        seq![AttrEntryV { name, value }] + item.drop_first()
    } else {
        seq![item[0]] + spec_item_insert(item.drop_first(), name, value)
    }
}

/// If `name` is bound first at index `i`, inserting updates index `i`.
proof fn lemma_item_insert_at(item: ItemV, name: Seq<char>, value: AttrV, i: int)
    requires
        0 <= i < item.len(),
        item[i].name == name,
        forall|j: int| 0 <= j < i ==> item[j].name != name,
    ensures
        spec_item_insert(item, name, value) =~= item.update(
            i,
            AttrEntryV { name, value },
        ),
    decreases i,
{
    if i == 0 {
        assert(spec_item_insert(item, name, value) =~= item.update(
            0,
            AttrEntryV { name, value },
        ));
    } else {
        lemma_item_insert_at(item.drop_first(), name, value, i - 1);
        assert(spec_item_insert(item, name, value) =~= item.update(
            i,
            AttrEntryV { name, value },
        ));
    }
}

/// If `name` is unbound, inserting appends.
proof fn lemma_item_insert_absent(item: ItemV, name: Seq<char>, value: AttrV)
    ensures
        (forall|j: int| 0 <= j < item.len() ==> item[j].name != name) ==> (
        spec_item_insert(item, name, value) =~= item.push(AttrEntryV { name, value })),
    decreases item.len(),
{
    if item.len() > 0 {
        lemma_item_insert_absent(item.drop_first(), name, value);
    }
}

/// If `name` is bound first at index `i`, the lookup yields that value.
proof fn lemma_item_get_at(item: ItemV, name: Seq<char>, i: int)
    requires
        0 <= i < item.len(),
        item[i].name == name,
        forall|j: int| 0 <= j < i ==> item[j].name != name,
    ensures
        item_get(item, name) == Some(item[i].value),
{
    lemma_item_get_from_at(item, name, 0, i);
}

proof fn lemma_item_get_from_at(item: ItemV, name: Seq<char>, k: int, i: int)
    requires
        0 <= k <= i < item.len(),
        item[i].name == name,
        forall|j: int| k <= j < i ==> item[j].name != name,
    ensures
        item_get_from(item, k, name) == Some(item[i].value),
    decreases i - k,
{
    if k < i {
        lemma_item_get_from_at(item, name, k + 1, i);
    }
}

/// If no binding carries `name`, the lookup yields nothing.
proof fn lemma_item_get_absent(item: ItemV, name: Seq<char>)
    requires
        forall|j: int| 0 <= j < item.len() ==> item[j].name != name,
    ensures
        item_get(item, name) is None,
{
    lemma_item_get_from_absent(item, name, 0);
}

proof fn lemma_item_get_from_absent(item: ItemV, name: Seq<char>, k: int)
    requires
        0 <= k,
        forall|j: int| k <= j < item.len() ==> item[j].name != name,
    ensures
        item_get_from(item, k, name) is None,
    decreases item.len() - k,
{
    if k < item.len() {
        lemma_item_get_from_absent(item, name, k + 1);
    }
}

/// Each element of a list's deep value is that element's deep value.
pub broadcast proof fn lemma_vec_deep_view_index<T: DeepView>(v: Vec<T>, i: int)
    requires
        0 <= i < v.view().len(),
    ensures
        #[trigger] v.deep_view()[i] == v.view()[i].deep_view(),
{
}

/// A list and its deep value have one length.
pub broadcast proof fn lemma_vec_deep_view_len<T: DeepView>(v: Vec<T>)
    ensures
        #[trigger] v.deep_view().len() == v.view().len(),
{
}

/// The declared type of an attribute: string, number, or binary.
#[derive(Debug, Clone, Copy, PartialEq, Eq, Structural)]
pub enum AttributeType {
    S,
    N,
    B,
}

/// The role an attribute plays in the key schema.
#[derive(Debug, Clone, Copy, PartialEq, Eq, Structural)]
pub enum KeyType {
    HASH,
    RANGE,
}

/// Declares the type of one attribute named by the key schema.
#[derive(Debug, PartialEq, Eq)]
pub struct AttributeDefinition {
    pub attribute_name: String,
    pub attribute_type: AttributeType,
}

impl Clone for AttributeDefinition {
    fn clone(&self) -> (r: Self)
        ensures
            r@ == self@,
    {
        AttributeDefinition {
            attribute_name: self.attribute_name.clone(),
            attribute_type: self.attribute_type,
        }
    }
}

/// Mathematical value of an [`AttributeDefinition`].
#[verifier::ext_equal]
pub struct AttributeDefinitionV {
    pub attribute_name: Seq<char>,
    pub attribute_type: AttributeType,
}

impl DeepView for AttributeDefinition {
    type V = AttributeDefinitionV;

    open spec fn deep_view(&self) -> AttributeDefinitionV {
        self.view()
    }
}

impl View for AttributeDefinition {
    type V = AttributeDefinitionV;

    open spec fn view(&self) -> AttributeDefinitionV {
        AttributeDefinitionV {
            attribute_name: self.attribute_name@,
            attribute_type: self.attribute_type,
        }
    }
}

/// One entry of a key schema: an attribute name and its role.
#[derive(Debug, PartialEq, Eq)]
pub struct KeySchema {
    pub attribute_name: String,
    pub key_type: KeyType,
}

impl Clone for KeySchema {
    fn clone(&self) -> (r: Self)
        ensures
            r@ == self@,
    {
        KeySchema { attribute_name: self.attribute_name.clone(), key_type: self.key_type }
    }
}

/// Mathematical value of a [`KeySchema`] entry.
#[verifier::ext_equal]
pub struct KeySchemaV {
    pub attribute_name: Seq<char>,
    pub key_type: KeyType,
}

impl DeepView for KeySchema {
    type V = KeySchemaV;

    open spec fn deep_view(&self) -> KeySchemaV {
        self.view()
    }
}

impl View for KeySchema {
    type V = KeySchemaV;

    open spec fn view(&self) -> KeySchemaV {
        KeySchemaV { attribute_name: self.attribute_name@, key_type: self.key_type }
    }
}

/// The payload of a table-creation request.
#[derive(Debug, Clone)]
pub struct CreateTableInput {
    pub table_name: String,
    pub attribute_definitions: Vec<AttributeDefinition>,
    pub key_schema: Vec<KeySchema>,
}

/// The payload of a table-description request.
#[derive(Debug, Clone)]
pub struct DescribeTableInput {
    pub table_name: String,
}

/// Throughput metadata reported by table descriptions. The store enforces
/// no throughput; the description carries fixed default numbers.
#[derive(Debug, Clone, Copy, PartialEq, Eq)]
pub struct ProvisionedThroughputDescription {
    pub last_increase_date_time: Option<i64>,
    pub last_decrease_date_time: Option<i64>,
    pub number_of_decreases_today: Option<usize>,
    pub read_capacity_units: Option<u64>,
    pub write_capacity_units: Option<u64>,
}

impl Default for ProvisionedThroughputDescription {
    /// The fixed defaults: no decreases today, ten read and write units.
    fn default() -> (r: ProvisionedThroughputDescription)
        ensures
            r == spec_default_throughput(),
    {
        ProvisionedThroughputDescription {
            last_increase_date_time: None,
            last_decrease_date_time: None,
            number_of_decreases_today: Some(0),
            read_capacity_units: Some(10),
            write_capacity_units: Some(10),
        }
    }
}

pub open spec fn spec_default_throughput() -> ProvisionedThroughputDescription {
    ProvisionedThroughputDescription {
        last_increase_date_time: None,
        last_decrease_date_time: None,
        number_of_decreases_today: Some(0usize),
        read_capacity_units: Some(10u64),
        write_capacity_units: Some(10u64),
    }
}

/// Metadata returned for a table by creation and description responses.
#[derive(Debug, Clone)]
pub struct TableDescription {
    pub table_name: Option<String>,
    pub attribute_definitions: Option<Vec<AttributeDefinition>>,
    pub table_status: Option<String>,
    pub table_size_bytes: Option<usize>,
    pub item_count: Option<usize>,
    pub key_schema: Option<Vec<KeySchema>>,
    pub table_arn: Option<String>,
    pub table_id: Option<String>,
    pub creation_date_time: Option<i64>,
    pub provisioned_throughput: Option<ProvisionedThroughputDescription>,
}

/// The payload of an item-insertion request.
#[derive(Debug, Clone)]
pub struct PutItemInput {
    pub table_name: String,
    pub item: Item,
}

/// The (empty) result of an item insertion.
#[derive(Debug, Clone)]
pub struct PutItemOutput {}

/// The result of a table description.
#[derive(Debug, Clone)]
pub struct DescribeTableOutput {
    pub table: TableDescription,
}

/// The result of a table creation.
#[derive(Debug, Clone)]
pub struct CreateTableOutput {
    pub table_description: TableDescription,
}

/// The result of a query or scan: the selected items and their counts.
#[derive(Debug, Clone)]
pub struct QueryOutput {
    pub items: Vec<Item>,
    pub count: usize,
    pub scanned_count: usize,
}

/// The (empty) result of a table deletion.
#[derive(Debug, Clone)]
pub struct DeleteTableOutput {}

/// The payload of a query request.
#[derive(Debug, Clone)]
pub struct QueryInput {
    pub table_name: String,
    pub key_condition_expression: String,
    pub expression_attribute_names: Option<Vec<(String, String)>>,
    pub expression_attribute_values: Option<Vec<(String, Attribute)>>,
}

/// The payload of a single-item lookup.
#[derive(Debug, Clone)]
pub struct GetItemInput {
    pub table_name: String,
    pub key: Item,
}

/// The result of a single-item lookup; `None` stands for a miss.
#[derive(Debug, Clone)]
pub struct GetItemOutput {
    pub item: Option<Item>,
}

/// The (empty) payload of a table-listing request.
#[derive(Debug, Clone)]
pub struct ListTablesInput {}

/// The result of a table-listing request.
#[derive(Debug, Clone)]
pub struct ListTablesOutput {
    pub table_names: Vec<String>,
}

/// The payload of a table-deletion request.
#[derive(Debug, Clone)]
pub struct DeleteTableInput {
    pub table_name: String,
}

/// The payload of a scan request.
#[derive(Debug, Clone)]
pub struct ScanInput {
    pub table_name: String,
}

/// One write of a batch: an item to put.
#[derive(Debug, PartialEq, Eq)]
pub struct BatchPutRequestItem {
    pub item: Item,
}

impl Clone for BatchPutRequestItem {
    fn clone(&self) -> (r: Self)
        ensures
            r.deep_view() == self.deep_view(),
    {
        BatchPutRequestItem { item: self.item.clone() }
    }
}

impl DeepView for BatchPutRequestItem {
    type V = ItemV;

    /// A batch request carries exactly one item; its value is that item's.
    open spec fn deep_view(&self) -> ItemV {
        self.item@
    }
}

/// One request of a batch write.
#[derive(Debug, PartialEq, Eq)]
pub struct BatchPutRequest {
    pub put_request: BatchPutRequestItem,
}

impl Clone for BatchPutRequest {
    fn clone(&self) -> (r: Self)
        ensures
            r.deep_view() == self.deep_view(),
    {
        BatchPutRequest { put_request: self.put_request.clone() }
    }
}

impl DeepView for BatchPutRequest {
    type V = ItemV;

    /// A batch request carries exactly one item; its value is that item's.
    open spec fn deep_view(&self) -> ItemV {
        self.put_request.item@
    }
}

/// The payload of a batch write: requests grouped by table name.
#[derive(Debug, Clone)]
pub struct BatchWriteInput {
    pub request_items: Vec<(String, Vec<BatchPutRequest>)>,
}

/// The result of a batch write: the requests that were not applied.
#[derive(Debug, Clone)]
pub struct BatchWriteItemOutput {
    pub unprocessed_items: Option<Vec<(String, Vec<BatchPutRequest>)>>,
}

} // verus!
