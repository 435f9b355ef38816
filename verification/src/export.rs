//! What is read out of the store: entities with their text properties, the
//! nodes among them, and the records handed to the analyzer.

use vstd::prelude::*;
use vstd::string::StringExecFns;
use crate::graph::{Node, NodeView};
use crate::json::{quote, quoted};
use crate::resolver::{decimal_value, is_numeric, key_of, ResolveError};
use crate::store::NodeKeyView;
use crate::text::is_digit;

verus! {

/// The character of a digit value below ten.
pub open spec fn digit_char(d: nat) -> char {
    ((48 + d) as u8) as char
}

/// A natural number in decimal notation, without leading zeros.
pub open spec fn digits(n: nat) -> Seq<char>
    decreases n,
{
    if n < 10 {
        seq![digit_char(n)]
    } else {
        digits(n / 10).push(digit_char(n % 10))
    }
}

/// An integer in decimal notation, with a minus sign where it is negative.
pub open spec fn decimal_text(n: int) -> Seq<char> {
    if n < 0 {
        seq!['-'] + digits((-n) as nat)
    } else {
        digits(n as nat)
    }
}

fn push_digits(out: &mut String, n: u64)
    ensures
        final(out)@ == old(out)@ + digits(n as nat),
    decreases n,
{
    if n >= 10 {
        push_digits(out, n / 10);
    }
    let d: u8 = (n % 10) as u8;
    let c: char = (48 + d) as char;
    out.push(c);
    assert(out@ =~= old(out)@ + digits(n as nat));
}

/// Writes an integer in decimal notation.
pub fn decimal(n: i64) -> (s: String)
    ensures
        s@ == decimal_text(n as int),
{
    let mut out = String::new();
    if n < 0 {
        out.push('-');
        let magnitude: u64 = if n == i64::MIN {
            9223372036854775808
        } else {
            (-n) as u64
        };
        push_digits(&mut out, magnitude);
        assert(out@ =~= seq!['-'] + digits((-n) as nat));
    } else {
        push_digits(&mut out, n as u64);
        assert(out@ =~= digits(n as nat));
    }
    out
}

/// The notation of a natural number is made of digits and denotes that
/// number.
pub proof fn lemma_digits_denote(n: nat)
    ensures
        digits(n).len() > 0,
        is_numeric(digits(n)),
        decimal_value(digits(n)) == n,
    decreases n,
{
    if n < 10 {
        let s = digits(n);
        assert(s.drop_last() =~= Seq::<char>::empty());
        assert(decimal_value(s.drop_last()) == 0);
    } else {
        lemma_digits_denote(n / 10);
        let s = digits(n);
        assert(s.drop_last() =~= digits(n / 10));
        assert forall|i: int| 0 <= i < s.len() implies is_digit(#[trigger] s[i]) by {
            if i < s.len() - 1 {
                assert(s[i] == digits(n / 10)[i]);
            }
        }
    }
}

/// A text property of an entity.
#[derive(Clone, Debug, PartialEq, Eq)]
pub struct Property {
    pub name: String,
    pub value: String,
}

/// [`Property`] as a mathematical value.
pub struct PropertyView {
    pub name: Seq<char>,
    pub value: Seq<char>,
}

impl View for Property {
    type V = PropertyView;

    open spec fn view(&self) -> PropertyView {
        PropertyView { name: self.name@, value: self.value@ }
    }
}

/// An entity read from the store: what it is, and its text properties.
#[derive(Clone, Debug, PartialEq, Eq)]
pub struct QueryResult {
    pub entity: String,
    pub properties: Vec<Property>,
}

/// [`QueryResult`] as a mathematical value.
pub struct QueryResultView {
    pub entity: Seq<char>,
    pub properties: Seq<PropertyView>,
}

/// The properties of a vector as mathematical values.
pub open spec fn property_views(properties: Seq<Property>) -> Seq<PropertyView> {
    Seq::new(properties.len(), |i: int| properties[i]@)
}

impl View for QueryResult {
    type V = QueryResultView;

    open spec fn view(&self) -> QueryResultView {
        QueryResultView { entity: self.entity@, properties: property_views(self.properties@) }
    }
}

/// The two kinds of entity in a graph.
#[derive(Clone, Copy, Debug, PartialEq, Eq, Structural)]
pub enum EntityKind {
    Node,
    Relationship,
}

/// How an entity is named in a result: its kind, and its identity in
/// brackets.
pub open spec fn entity_label(kind: EntityKind, id: i64) -> Seq<char> {
    match kind {
        EntityKind::Node => "Node("@ + decimal_text(id as int) + ")"@,
        EntityKind::Relationship => "Relationship("@ + decimal_text(id as int) + ")"@,
    }
}

/// An attribute as the store gives it: its name, and its value where the
/// value is text.
#[derive(Clone, Debug, PartialEq, Eq)]
pub struct Field {
    pub name: String,
    pub text: Option<String>,
}

/// [`Field`] as a mathematical value.
pub struct FieldView {
    pub name: Seq<char>,
    pub text: Option<Seq<char>>,
}

impl View for Field {
    type V = FieldView;

    open spec fn view(&self) -> FieldView {
        FieldView {
            name: self.name@,
            text: match self.text {
                Some(t) => Some(t@),
                None => None,
            },
        }
    }
}

/// The fields of a vector as mathematical values.
pub open spec fn field_views(fields: Seq<Field>) -> Seq<FieldView> {
    Seq::new(fields.len(), |i: int| fields[i]@)
}

/// The fields that hold text, as properties, in their order.
pub open spec fn text_properties(fields: Seq<FieldView>) -> Seq<PropertyView>
    decreases fields.len(),
{
    if fields.len() == 0 {
        Seq::empty()
    } else {
        let before = text_properties(fields.drop_last());
        match fields.last().text {
            Some(value) => before.push(PropertyView { name: fields.last().name, value }),
            None => before,
        }
    }
}

/// Property `i` has the name and no property before it has.
pub open spec fn is_first_named(properties: Seq<PropertyView>, name: Seq<char>, i: int) -> bool {
    &&& 0 <= i < properties.len()
    &&& properties[i].name == name
    &&& forall|j: int| 0 <= j < i ==> (#[trigger] properties[j]).name != name
}

/// The value of the first property with a name.
pub open spec fn property_value(properties: Seq<PropertyView>, name: Seq<char>) -> Option<
    Seq<char>,
> {
    if exists|i: int| is_first_named(properties, name, i) {
        Some(properties[choose|i: int| is_first_named(properties, name, i)].value)
    } else {
        None
    }
}

/// The node that an entity with identity `id` and these properties is: its
/// external identity is the property `id`, its content the property
/// `content`, or nothing where the entity has none.
pub open spec fn node_of(id: i64, properties: Seq<PropertyView>) -> NodeView {
    NodeView {
        id,
        external_id: property_value(properties, "id"@),
        content: match property_value(properties, "content"@) {
            Some(content) => content,
            None => Seq::empty(),
        },
    }
}

/// A node as the analyzer gets it.
#[derive(Clone, Debug, PartialEq, Eq)]
pub struct ExportRecord {
    pub id: String,
    pub content: String,
}

/// [`ExportRecord`] as a mathematical value.
pub struct ExportRecordView {
    pub id: Seq<char>,
    pub content: Seq<char>,
}

impl View for ExportRecord {
    type V = ExportRecordView;

    open spec fn view(&self) -> ExportRecordView {
        ExportRecordView { id: self.id@, content: self.content@ }
    }
}

/// How a node is exported: under its external identity where it has one,
/// else under the identity that the store assigned, in decimal notation.
pub open spec fn export_of(node: NodeView) -> ExportRecordView {
    ExportRecordView {
        id: match node.external_id {
            Some(external_id) => external_id,
            None => decimal_text(node.id as int),
        },
        content: node.content,
    }
}

impl QueryResult {
    /// The result for an entity: its label, and those of its fields that
    /// hold text.
    pub fn new(kind: EntityKind, id: i64, fields: &Vec<Field>) -> (r: QueryResult)
        ensures
            r@.entity == entity_label(kind, id),
            r@.properties == text_properties(field_views(fields@)),
    {
        let mut entity = match kind {
            EntityKind::Node => String::from_str("Node("),
            EntityKind::Relationship => String::from_str("Relationship("),
        };
        let number = decimal(id);
        entity.append(number.as_str());
        entity.append(")");
        let ghost all = field_views(fields@);
        let mut properties: Vec<Property> = Vec::new();
        assert(all.take(0) =~= Seq::<FieldView>::empty());
        for i in 0..fields.len()
            invariant
                all == field_views(fields@),
                property_views(properties@) == text_properties(all.take(i as int)),
        {
            let ghost before = property_views(properties@);
            assert(all.take(i + 1).drop_last() =~= all.take(i as int));
            assert(all.take(i + 1).last() == fields@[i as int]@);
            match &fields[i].text {
                Some(value) => {
                    properties.push(Property { name: fields[i].name.clone(), value: value.clone() });
                    assert(property_views(properties@) =~= before.push(
                        PropertyView { name: fields@[i as int].name@, value: value@ },
                    ));
                },
                None => {},
            }
        }
        assert(all.take(fields@.len() as int) =~= all);
        QueryResult { entity, properties }
    }

    /// The value of the first property with this name.
    pub fn property(&self, name: &str) -> (r: Option<&String>)
        ensures
            match r {
                Some(value) => property_value(self@.properties, name@) == Some(value@),
                None => property_value(self@.properties, name@) is None,
            },
    {
        let wanted = name.to_owned();
        let ghost views = self@.properties;
        let mut i: usize = 0;
        while i < self.properties.len()
            invariant
                i <= self.properties.len(),
                wanted@ == name@,
                views == self@.properties,
                forall|j: int| 0 <= j < i ==> (#[trigger] views[j]).name != name@,
            decreases self.properties.len() - i,
        {
            assert(views[i as int] == self.properties@[i as int]@);
            if self.properties[i].name == wanted {
                proof {
                    lemma_first_named(views, name@, i as int);
                }
                return Some(&self.properties[i].value);
            }
            i += 1;
        }
        None
    }

    /// The node that this result describes, given the identity that the
    /// store assigned to it.
    pub fn node(&self, id: i64) -> (n: Node)
        ensures
            n@ == node_of(id, self@.properties),
    {
        let external_id = match self.property("id") {
            Some(value) => Some(value.clone()),
            None => None,
        };
        let content = match self.property("content") {
            Some(value) => value.clone(),
            None => String::new(),
        };
        Node { id, external_id, content }
    }
}

/// The first property with a name is the one that [`property_value`]
/// gives.
pub proof fn lemma_first_named(properties: Seq<PropertyView>, name: Seq<char>, i: int)
    requires
        is_first_named(properties, name, i),
    ensures
        property_value(properties, name) == Some(properties[i].value),
{
    let k = choose|k: int| is_first_named(properties, name, k);
    if k < i {
        assert(properties[k].name != name);
    } else if i < k {
        assert(properties[i].name != name);
    }
}

/// A record as a JSON object with the members `id` and `content`.
pub open spec fn record_text(record: ExportRecordView) -> Seq<char> {
    "{\"id\":"@ + quoted(record.id) + ",\"content\":"@ + quoted(record.content) + "}"@
}

/// Records as JSON objects, with a comma between one and the next.
pub open spec fn records_text(records: Seq<ExportRecordView>) -> Seq<char>
    decreases records.len(),
{
    if records.len() == 0 {
        Seq::empty()
    } else if records.len() == 1 {
        record_text(records[0])
    } else {
        records_text(records.drop_last()) + ","@ + record_text(records.last())
    }
}

/// The analyzer's input: the records as a JSON array, in their order.
pub open spec fn input_text(records: Seq<ExportRecordView>) -> Seq<char> {
    "["@ + records_text(records) + "]"@
}

/// The records of a vector as mathematical values.
pub open spec fn record_views(records: Seq<ExportRecord>) -> Seq<ExportRecordView> {
    Seq::new(records.len(), |i: int| records[i]@)
}

/// Writes the input of the analyzer: a JSON array with one object for each
/// record.
pub fn analyzer_input(records: &Vec<ExportRecord>) -> (text: String)
    ensures
        text@ == input_text(record_views(records@)),
{
    let ghost all = record_views(records@);
    let mut text = String::from_str("[");
    let ghost opening = text@;
    assert(all.take(0) =~= Seq::<ExportRecordView>::empty());
    assert(text@ =~= opening + records_text(all.take(0)));
    for i in 0..records.len()
        invariant
            all == record_views(records@),
            opening == "["@,
            text@ == opening + records_text(all.take(i as int)),
    {
        let ghost before = text@;
        let ghost so_far = all.take(i as int);
        assert(all.take(i + 1).drop_last() =~= so_far);
        assert(all.take(i + 1).last() == records@[i as int]@);
        if i > 0 {
            text.append(",");
        }
        text.append("{\"id\":");
        text.append(quote(records[i].id.as_str()).as_str());
        text.append(",\"content\":");
        text.append(quote(records[i].content.as_str()).as_str());
        text.append("}");
        proof {
            let one = record_text(records@[i as int]@);
            if i == 0 {
                assert(so_far.len() == 0);
                assert(all.take(i + 1)[0] == records@[i as int]@);
                assert(text@ =~= opening + one);
            } else {
                assert(text@ =~= opening + (records_text(so_far) + ","@ + one));
            }
        }
    }
    assert(all.take(records@.len() as int) =~= all);
    text.append("]");
    text
}

/// The record under which a node is handed to the analyzer.
pub fn export(node: &Node) -> (r: ExportRecord)
    ensures
        r@ == export_of(node@),
{
    let id = match &node.external_id {
        Some(external_id) => external_id.clone(),
        None => decimal(node.id),
    };
    ExportRecord { id, content: node.content.clone() }
}

/// A node without external identity is exported under a reference that
/// names it again: the reference is the key of the identity that the store
/// assigned.
pub proof fn lemma_exported_identity_names_the_node(node: NodeView)
    requires
        node.external_id is None,
        node.id >= 0,
    ensures
        key_of(export_of(node).id) == Ok::<NodeKeyView, ResolveError>(NodeKeyView::Id(node.id)),
{
    lemma_digits_denote(node.id as nat);
}

/// One section of a schema report: for every row the title on a line of
/// its own, and after it the row's text on a line of its own where the row
/// could be read.
pub open spec fn section(title: Seq<char>, rows: Seq<Option<Seq<char>>>) -> Seq<char>
    decreases rows.len(),
{
    if rows.len() == 0 {
        Seq::empty()
    } else {
        section(title, rows.drop_last()) + title + seq!['\n'] + match rows.last() {
            Some(text) => text + seq!['\n'],
            None => Seq::empty(),
        }
    }
}

/// The rows of a vector as mathematical values.
pub open spec fn row_views(rows: Seq<Option<String>>) -> Seq<Option<Seq<char>>> {
    Seq::new(
        rows.len(),
        |i: int|
            match rows[i] {
                Some(text) => Some(text@),
                None => None,
            },
    )
}

fn push_section(out: &mut String, title: &str, rows: &Vec<Option<String>>)
    ensures
        final(out)@ == old(out)@ + section(title@, row_views(rows@)),
{
    let ghost all = row_views(rows@);
    assert(all.take(0) =~= Seq::<Option<Seq<char>>>::empty());
    assert(out@ =~= old(out)@ + section(title@, all.take(0)));
    for i in 0..rows.len()
        invariant
            all == row_views(rows@),
            out@ == old(out)@ + section(title@, all.take(i as int)),
    {
        assert(all.take(i + 1).drop_last() =~= all.take(i as int));
        assert(all.take(i + 1).last() == all[i as int]);
        let ghost before = out@;
        out.append(title);
        out.push('\n');
        match &rows[i] {
            Some(text) => {
                out.append(text.as_str());
                out.push('\n');
                assert(out@ =~= before + title@ + seq!['\n'] + (text@ + seq!['\n']));
            },
            None => {
                assert(out@ =~= before + title@ + seq!['\n'] + Seq::<char>::empty());
            },
        }
        assert(out@ =~= old(out)@ + section(title@, all.take(i + 1)));
    }
    assert(all.take(rows@.len() as int) =~= all);
}

/// The schema report: a section for the node types, then one for the
/// relationship types.
pub fn schema_report(node_rows: &Vec<Option<String>>, relationship_rows: &Vec<Option<String>>) -> (s:
    String)
    ensures
        s@ == section("Node:"@, row_views(node_rows@)) + section(
            "Relationship:"@,
            row_views(relationship_rows@),
        ),
{
    let mut out = String::new();
    push_section(&mut out, "Node:", node_rows);
    push_section(&mut out, "Relationship:", relationship_rows);
    out
}

} // verus!
