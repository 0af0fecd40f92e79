//! The gain map properties of an Ultra HDR XMP packet, as the texts that the
//! packet holds for them. Turning a text into a number is left to the
//! caller.

use vstd::prelude::*;
use vstd::slice::slice_to_vec;
use vstd::utf8::{decode_utf8, encode_utf8_decode_utf8, valid_utf8};

use crate::value::string_from_utf8;

verus! {

/// An attribute of an element: its local name and its value.
#[derive(Debug, Clone, PartialEq, Eq)]
pub struct XmlAttribute {
    pub name: String,
    pub value: String,
}

/// A node of a parsed XML document, with what this library reads of it.
#[derive(Debug, Clone, PartialEq, Eq)]
pub struct XmlNode {
    /// The local name of an element; empty for any other node.
    pub name: String,
    /// The text of a text node or of a comment; for an element, the text of
    /// its first child where that is a text node.
    pub text: Option<String>,
    /// The attributes of an element, in the order of the document.
    pub attributes: Vec<XmlAttribute>,
    /// The places of the child nodes in the list of the document's nodes,
    /// in the order of the document.
    pub children: Vec<usize>,
}

/// The text of a property: one value, or one for each channel.
#[derive(Debug, Clone, PartialEq, Eq)]
pub enum XmpValue {
    /// One value, which stands for all three channels.
    Scalar(String),
    /// The texts of the first three `li` elements of a `Seq`: red, green,
    /// blue.
    Triple(String, String, String),
}

/// The gain map properties of an XMP packet, as texts.
#[derive(Debug, Clone, PartialEq, Eq)]
pub struct GainMapXmp {
    /// `BaseRenditionIsHDR`; `false` where the packet does not say `true`.
    pub base_rendition_is_hdr: bool,
    /// `GainMapMin`
    pub gain_map_min: Option<XmpValue>,
    /// `GainMapMax`
    pub gain_map_max: Option<XmpValue>,
    /// `Gamma`
    pub gamma: Option<XmpValue>,
    /// `OffsetSDR`
    pub offset_sdr: Option<XmpValue>,
    /// `OffsetHDR`
    pub offset_hdr: Option<XmpValue>,
    /// `HDRCapacityMin`
    pub hdr_capacity_min: Option<String>,
    /// `HDRCapacityMax`, which every packet must hold.
    pub hdr_capacity_max: String,
}

/// The mathematical content of an [`XmlAttribute`].
pub struct XmlAttributeView {
    pub name: Seq<char>,
    pub value: Seq<char>,
}

/// The mathematical content of an [`XmlNode`].
pub struct XmlNodeView {
    pub name: Seq<char>,
    pub text: Option<Seq<char>>,
    pub attributes: Seq<XmlAttributeView>,
    pub children: Seq<usize>,
}

/// The mathematical content of an [`XmpValue`].
pub enum XmpValueView {
    Scalar(Seq<char>),
    Triple(Seq<char>, Seq<char>, Seq<char>),
}

/// The mathematical content of a [`GainMapXmp`].
pub struct GainMapXmpView {
    pub base_rendition_is_hdr: bool,
    pub gain_map_min: Option<XmpValueView>,
    pub gain_map_max: Option<XmpValueView>,
    pub gamma: Option<XmpValueView>,
    pub offset_sdr: Option<XmpValueView>,
    pub offset_hdr: Option<XmpValueView>,
    pub hdr_capacity_min: Option<Seq<char>>,
    pub hdr_capacity_max: Seq<char>,
}

/// The characters of an optional string.
pub open spec fn spec_optional_text(text: Option<String>) -> Option<Seq<char>> {
    match text {
        Some(t) => Some(t@),
        None => None,
    }
}

/// The views of a row of attributes.
pub open spec fn spec_attribute_views(attributes: Seq<XmlAttribute>) -> Seq<XmlAttributeView> {
    attributes.map_values(|a: XmlAttribute| a@)
}

/// The views of a row of nodes.
pub open spec fn spec_node_views(nodes: Seq<XmlNode>) -> Seq<XmlNodeView> {
    nodes.map_values(|n: XmlNode| n@)
}

impl View for XmlAttribute {
    type V = XmlAttributeView;

    open spec fn view(&self) -> XmlAttributeView {
        XmlAttributeView { name: self.name@, value: self.value@ }
    }
}

impl View for XmlNode {
    type V = XmlNodeView;

    open spec fn view(&self) -> XmlNodeView {
        XmlNodeView {
            name: self.name@,
            text: spec_optional_text(self.text),
            attributes: spec_attribute_views(self.attributes@),
            children: self.children@,
        }
    }
}

impl View for XmpValue {
    type V = XmpValueView;

    open spec fn view(&self) -> XmpValueView {
        match self {
            XmpValue::Scalar(text) => XmpValueView::Scalar(text@),
            XmpValue::Triple(r, g, b) => XmpValueView::Triple(r@, g@, b@),
        }
    }
}

impl XmpValueView {
    /// The texts for red, green and blue: one value stands for all three.
    pub open spec fn channels(self) -> (Seq<char>, Seq<char>, Seq<char>) {
        match self {
            XmpValueView::Scalar(text) => (text, text, text),
            XmpValueView::Triple(r, g, b) => (r, g, b),
        }
    }
}

impl XmpValue {
    /// The texts for red, green and blue: one value stands for all three.
    pub fn channels(&self) -> (r: (String, String, String))
        ensures
            (r.0@, r.1@, r.2@) == self@.channels(),
    {
        match self {
            XmpValue::Scalar(text) => (text.clone(), text.clone(), text.clone()),
            XmpValue::Triple(r, g, b) => (r.clone(), g.clone(), b.clone()),
        }
    }
}

/// The view of an optional property value.
pub open spec fn spec_optional_value(value: Option<XmpValue>) -> Option<XmpValueView> {
    match value {
        Some(v) => Some(v@),
        None => None,
    }
}

impl View for GainMapXmp {
    type V = GainMapXmpView;

    open spec fn view(&self) -> GainMapXmpView {
        GainMapXmpView {
            base_rendition_is_hdr: self.base_rendition_is_hdr,
            gain_map_min: spec_optional_value(self.gain_map_min),
            gain_map_max: spec_optional_value(self.gain_map_max),
            gamma: spec_optional_value(self.gamma),
            offset_sdr: spec_optional_value(self.offset_sdr),
            offset_hdr: spec_optional_value(self.offset_hdr),
            hdr_capacity_min: spec_optional_text(self.hdr_capacity_min),
            hdr_capacity_max: self.hdr_capacity_max@,
        }
    }
}

/// The view of an optional record of properties.
pub open spec fn spec_optional_xmp(xmp: Option<GainMapXmp>) -> Option<GainMapXmpView> {
    match xmp {
        Some(x) => Some(x@),
        None => None,
    }
}

/// The views of an optional list of nodes.
pub open spec fn spec_optional_nodes(nodes: Option<Vec<XmlNode>>) -> Option<Seq<XmlNodeView>> {
    match nodes {
        Some(n) => Some(spec_node_views(n@)),
        None => None,
    }
}

/// What `roxmltree` makes of the document `text`: its nodes in the order of
/// the document, the root first, each with its local name, its text, its
/// attributes and the places of its children in this list; or `None` where
/// `text` is not a document that it accepts.
pub uninterp spec fn xml_nodes(text: Seq<char>) -> Option<Seq<XmlNodeView>>;

/// `roxmltree::Document::parse`, with the document handed out as a list of
/// plain nodes. The contract gives the outcome the name [`xml_nodes`] and
/// claims no more than that it depends on the text alone. The list is that
/// of `Document::descendants`; of each node it holds `tag_name().name()`,
/// `text()`, name and value of each of `attributes()`, and for each of
/// `children()` the number `id().get_usize()`, which is the node's place in
/// the list.
#[verifier::external_body]
fn parse_xml(text: &str) -> (r: Option<Vec<XmlNode>>)
    ensures
        spec_optional_nodes(r) == xml_nodes(text@),
{
    let document = roxmltree::Document::parse(text).ok()?;
    let attribute = |a: roxmltree::Attribute| {
        XmlAttribute { name: a.name().to_string(), value: a.value().to_string() }
    };
    let node = |n: roxmltree::Node| {
        XmlNode {
            name: n.tag_name().name().to_string(),
            text: n.text().map(|t| t.to_string()),
            attributes: n.attributes().map(attribute).collect(),
            children: n.children().map(|c| c.id().get_usize()).collect(),
        }
    };
    Some(document.descendants().map(node).collect())
}

/// Whether the attribute of index `i` is the first with the name `name`.
pub open spec fn spec_is_first_attribute(
    attributes: Seq<XmlAttributeView>,
    name: Seq<char>,
    i: int,
) -> bool {
    &&& 0 <= i < attributes.len()
    &&& attributes[i].name == name
    &&& forall|j: int| 0 <= j < i ==> attributes[j].name != name
}

/// The value of the first attribute of `node` with the name `name`.
pub open spec fn spec_attribute(node: XmlNodeView, name: Seq<char>) -> Option<Seq<char>> {
    if exists|i: int| spec_is_first_attribute(node.attributes, name, i) {
        Some(
            node.attributes[choose|i: int|
                spec_is_first_attribute(node.attributes, name, i)].value,
        )
    } else {
        None
    }
}

/// Whether the child of index `k` of the node at `parent` is a node of the
/// list with the name `name`.
pub open spec fn spec_child_is_named(
    nodes: Seq<XmlNodeView>,
    parent: int,
    k: int,
    name: Seq<char>,
) -> bool {
    &&& nodes[parent].children[k] < nodes.len()
    &&& nodes[nodes[parent].children[k] as int].name == name
}

/// Whether the child of index `k` of the node at `parent` is its first
/// child with the name `name`.
pub open spec fn spec_is_first_child(
    nodes: Seq<XmlNodeView>,
    parent: int,
    name: Seq<char>,
    k: int,
) -> bool {
    &&& 0 <= k < nodes[parent].children.len()
    &&& spec_child_is_named(nodes, parent, k, name)
    &&& forall|j: int| 0 <= j < k ==> !spec_child_is_named(nodes, parent, j, name)
}

/// The place in the list of the first child of the node at `parent` with
/// the name `name`.
pub open spec fn spec_child(nodes: Seq<XmlNodeView>, parent: int, name: Seq<char>) -> Option<int> {
    if exists|k: int| spec_is_first_child(nodes, parent, name, k) {
        Some(
            nodes[parent].children[choose|k: int| spec_is_first_child(nodes, parent, name, k)]
                as int,
        )
    } else {
        None
    }
}

/// Whether the node at `i` is the first of the document with the name
/// `name`.
pub open spec fn spec_is_first_node(nodes: Seq<XmlNodeView>, name: Seq<char>, i: int) -> bool {
    &&& 0 <= i < nodes.len()
    &&& nodes[i].name == name
    &&& forall|j: int| 0 <= j < i ==> nodes[j].name != name
}

/// The place of the first node of the document with the name
/// `Description`.
pub open spec fn spec_description(nodes: Seq<XmlNodeView>) -> Option<int> {
    if exists|i: int| spec_is_first_node(nodes, "Description"@, i) {
        Some(choose|i: int| spec_is_first_node(nodes, "Description"@, i))
    } else {
        None
    }
}

/// The places in the list of those among the first `k` children of the
/// node at `parent` that have the name `name`, in their order.
pub open spec fn spec_children_named(
    nodes: Seq<XmlNodeView>,
    parent: int,
    name: Seq<char>,
    k: nat,
) -> Seq<int>
    decreases k,
{
    if k == 0 {
        Seq::empty()
    } else {
        let before = spec_children_named(nodes, parent, name, (k - 1) as nat);
        if spec_child_is_named(nodes, parent, k - 1, name) {
            before.push(nodes[parent].children[k - 1] as int)
        } else {
            before
        }
    }
}

/// The three values of a sequence: the texts of the first three children
/// of the node at `sequence` that are named `li`. There are none where it
/// has fewer than three such children, or where one of the three has no
/// text.
pub open spec fn spec_triple(nodes: Seq<XmlNodeView>, sequence: int) -> Option<XmpValueView> {
    let items = spec_children_named(nodes, sequence, "li"@, nodes[sequence].children.len());
    if items.len() >= 3 {
        match (nodes[items[0]].text, nodes[items[1]].text, nodes[items[2]].text) {
            (Some(r), Some(g), Some(b)) => Some(XmpValueView::Triple(r, g, b)),
            _ => None,
        }
    } else {
        None
    }
}

/// The text of a property that holds one value: the value of the attribute
/// of that name on the element at `description`, or else the text of its
/// first child element of that name.
pub open spec fn spec_scalar_property(
    nodes: Seq<XmlNodeView>,
    description: int,
    name: Seq<char>,
) -> Option<Seq<char>> {
    match spec_attribute(nodes[description], name) {
        Some(value) => Some(value),
        None => match spec_child(nodes, description, name) {
            Some(child) => nodes[child].text,
            None => None,
        },
    }
}

/// The text of a property that holds a value for each channel: the value of
/// the attribute of that name on the element at `description`, which then
/// stands for all three; or else, of its first child element of that name,
/// the three values of the first `Seq` in it, or its text where it holds no
/// `Seq`.
pub open spec fn spec_triple_property(
    nodes: Seq<XmlNodeView>,
    description: int,
    name: Seq<char>,
) -> Option<XmpValueView> {
    match spec_attribute(nodes[description], name) {
        Some(value) => Some(XmpValueView::Scalar(value)),
        None => match spec_child(nodes, description, name) {
            None => None,
            Some(child) => match spec_child(nodes, child, "Seq"@) {
                Some(sequence) => spec_triple(nodes, sequence),
                None => match nodes[child].text {
                    Some(text) => Some(XmpValueView::Scalar(text)),
                    None => None,
                },
            },
        },
    }
}

/// The gain map properties that a document holds: those of its first
/// element named `Description`. There are none where the document has no
/// such element, or where that element lacks `HDRCapacityMax`.
pub open spec fn spec_gain_map_xmp(nodes: Seq<XmlNodeView>) -> Option<GainMapXmpView> {
    match spec_description(nodes) {
        None => None,
        Some(d) => match spec_scalar_property(nodes, d, "HDRCapacityMax"@) {
            None => None,
            Some(hdr_capacity_max) => Some(
                GainMapXmpView {
                    base_rendition_is_hdr: spec_scalar_property(nodes, d, "BaseRenditionIsHDR"@)
                        == Some("true"@),
                    gain_map_min: spec_triple_property(nodes, d, "GainMapMin"@),
                    gain_map_max: spec_triple_property(nodes, d, "GainMapMax"@),
                    gamma: spec_triple_property(nodes, d, "Gamma"@),
                    offset_sdr: spec_triple_property(nodes, d, "OffsetSDR"@),
                    offset_hdr: spec_triple_property(nodes, d, "OffsetHDR"@),
                    hdr_capacity_min: spec_scalar_property(nodes, d, "HDRCapacityMin"@),
                    hdr_capacity_max,
                },
            ),
        },
    }
}

/// The gain map properties that the bytes of an XMP packet hold. There are
/// none where the bytes are not UTF-8 or not an XML document.
pub open spec fn spec_gain_map_xmp_of_bytes(xmp_bytes: Seq<u8>) -> Option<GainMapXmpView> {
    if !valid_utf8(xmp_bytes) {
        None
    } else {
        match xml_nodes(decode_utf8(xmp_bytes)) {
            None => None,
            Some(nodes) => spec_gain_map_xmp(nodes),
        }
    }
}

/// Whether two strings hold the same characters.
pub fn str_equals(a: &str, b: &str) -> (r: bool)
    ensures
        r == (a@ == b@),
{
    let a_bytes: &[u8] = a.as_bytes();
    let b_bytes: &[u8] = b.as_bytes();
    proof {
        encode_utf8_decode_utf8(a@);
        encode_utf8_decode_utf8(b@);
    }
    if a_bytes.len() != b_bytes.len() {
        return false;
    }
    let mut i: usize = 0;
    while i < a_bytes.len()
        invariant
            a_bytes.len() == b_bytes.len(),
            i <= a_bytes.len(),
            forall|j: int| 0 <= j < i ==> a_bytes[j] == b_bytes[j],
            a@ == b@ ==> a_bytes@ == b_bytes@,
        decreases a_bytes.len() - i,
    {
        if a_bytes[i] != b_bytes[i] {
            return false;
        }
        i += 1;
    }
    assert(a_bytes@ =~= b_bytes@);
    true
}

/// The value of the first attribute of `node` with the name `name`.
fn find_attribute<'a>(node: &'a XmlNode, name: &str) -> (r: Option<&'a String>)
    ensures
        match r {
            Some(value) => spec_attribute(node@, name@) == Some(value@),
            None => spec_attribute(node@, name@) is None,
        },
{
    let ghost attributes = node@.attributes;
    assert(forall|j: int|
        0 <= j < attributes.len() ==> attributes[j] == (#[trigger] node.attributes[j])@);
    let mut i: usize = 0;
    while i < node.attributes.len()
        invariant
            i <= node.attributes.len(),
            attributes == node@.attributes,
            forall|j: int|
                0 <= j < attributes.len() ==> attributes[j] == (#[trigger] node.attributes[j])@,
            forall|j: int| 0 <= j < i ==> attributes[j].name != name@,
        decreases node.attributes.len() - i,
    {
        if str_equals(node.attributes[i].name.as_str(), name) {
            proof {
                assert(spec_is_first_attribute(attributes, name@, i as int));
                let chosen = choose|k: int| spec_is_first_attribute(attributes, name@, k);
                assert(chosen == i);
            }
            return Some(&node.attributes[i].value);
        }
        i += 1;
    }
    None
}

/// The place in the list of the first child of the node at `parent` with
/// the name `name`.
fn find_child(nodes: &[XmlNode], parent: usize, name: &str) -> (r: Option<usize>)
    requires
        parent < nodes.len(),
    ensures
        match r {
            Some(child) => spec_child(spec_node_views(nodes@), parent as int, name@) == Some(
                child as int,
            ) && child < nodes.len(),
            None => spec_child(spec_node_views(nodes@), parent as int, name@) is None,
        },
{
    let ghost views = spec_node_views(nodes@);
    let children: &Vec<usize> = &nodes[parent].children;
    assert(views[parent as int].children == children@);
    let mut k: usize = 0;
    while k < children.len()
        invariant
            k <= children.len(),
            parent < nodes.len(),
            views == spec_node_views(nodes@),
            views[parent as int].children == children@,
            forall|j: int| 0 <= j < k ==> !spec_child_is_named(views, parent as int, j, name@),
        decreases children.len() - k,
    {
        let child: usize = children[k];
        if child < nodes.len() && str_equals(nodes[child].name.as_str(), name) {
            proof {
                assert(spec_child_is_named(views, parent as int, k as int, name@));
                assert(spec_is_first_child(views, parent as int, name@, k as int));
                let chosen = choose|c: int| spec_is_first_child(views, parent as int, name@, c);
                assert(chosen == k);
            }
            return Some(child);
        }
        k += 1;
    }
    None
}

/// The place of the first node of the document with the name
/// `Description`.
fn find_description(nodes: &[XmlNode]) -> (r: Option<usize>)
    ensures
        match r {
            Some(d) => spec_description(spec_node_views(nodes@)) == Some(d as int) && d
                < nodes.len(),
            None => spec_description(spec_node_views(nodes@)) is None,
        },
{
    let ghost views = spec_node_views(nodes@);
    let mut i: usize = 0;
    while i < nodes.len()
        invariant
            i <= nodes.len(),
            views == spec_node_views(nodes@),
            forall|j: int| 0 <= j < i ==> views[j].name != "Description"@,
        decreases nodes.len() - i,
    {
        if str_equals(nodes[i].name.as_str(), "Description") {
            proof {
                assert(spec_is_first_node(views, "Description"@, i as int));
                let chosen = choose|k: int| spec_is_first_node(views, "Description"@, k);
                assert(chosen == i);
            }
            return Some(i);
        }
        i += 1;
    }
    None
}

/// The places in the list of the children of the node at `parent` that
/// have the name `name`, in their order.
fn children_named(nodes: &[XmlNode], parent: usize, name: &str) -> (r: Vec<usize>)
    requires
        parent < nodes.len(),
    ensures
        r@.map_values(|c: usize| c as int) == spec_children_named(
            spec_node_views(nodes@),
            parent as int,
            name@,
            spec_node_views(nodes@)[parent as int].children.len(),
        ),
        forall|i: int| 0 <= i < r.len() ==> r[i] < nodes.len(),
{
    let ghost views = spec_node_views(nodes@);
    let children: &Vec<usize> = &nodes[parent].children;
    assert(views[parent as int].children == children@);
    let mut found: Vec<usize> = Vec::new();
    let mut k: usize = 0;
    assert(found@.map_values(|c: usize| c as int) =~= Seq::empty());
    while k < children.len()
        invariant
            k <= children.len(),
            parent < nodes.len(),
            views == spec_node_views(nodes@),
            views[parent as int].children == children@,
            found@.map_values(|c: usize| c as int) == spec_children_named(
                views,
                parent as int,
                name@,
                k as nat,
            ),
            forall|i: int| 0 <= i < found.len() ==> found[i] < nodes.len(),
        decreases children.len() - k,
    {
        let child: usize = children[k];
        if child < nodes.len() && str_equals(nodes[child].name.as_str(), name) {
            assert(found@.push(child).map_values(|c: usize| c as int) =~= found@.map_values(
                |c: usize| c as int,
            ).push(child as int));
            found.push(child);
        }
        k += 1;
    }
    found
}

/// The three values of the sequence at `sequence`.
fn triple(nodes: &[XmlNode], sequence: usize) -> (r: Option<XmpValue>)
    requires
        sequence < nodes.len(),
    ensures
        spec_optional_value(r) == spec_triple(spec_node_views(nodes@), sequence as int),
{
    let items: Vec<usize> = children_named(nodes, sequence, "li");
    if items.len() < 3 {
        return None;
    }
    proof {
        let places = items@.map_values(|c: usize| c as int);
        assert(places[0] == items[0] && places[1] == items[1] && places[2] == items[2]);
    }
    match (&nodes[items[0]].text, &nodes[items[1]].text, &nodes[items[2]].text) {
        (Some(r), Some(g), Some(b)) => Some(XmpValue::Triple(r.clone(), g.clone(), b.clone())),
        _ => None,
    }
}

/// The text of a property that holds one value.
fn scalar_property(nodes: &[XmlNode], description: usize, name: &str) -> (r: Option<String>)
    requires
        description < nodes.len(),
    ensures
        spec_optional_text(r) == spec_scalar_property(
            spec_node_views(nodes@),
            description as int,
            name@,
        ),
{
    match find_attribute(&nodes[description], name) {
        Some(value) => Some(value.clone()),
        None => match find_child(nodes, description, name) {
            Some(child) => match &nodes[child].text {
                Some(text) => Some(text.clone()),
                None => None,
            },
            None => None,
        },
    }
}

/// The text of a property that holds a value for each channel.
fn triple_property(nodes: &[XmlNode], description: usize, name: &str) -> (r: Option<XmpValue>)
    requires
        description < nodes.len(),
    ensures
        spec_optional_value(r) == spec_triple_property(
            spec_node_views(nodes@),
            description as int,
            name@,
        ),
{
    match find_attribute(&nodes[description], name) {
        Some(value) => Some(XmpValue::Scalar(value.clone())),
        None => match find_child(nodes, description, name) {
            None => None,
            Some(child) => match find_child(nodes, child, "Seq") {
                Some(sequence) => triple(nodes, sequence),
                None => match &nodes[child].text {
                    Some(text) => Some(XmpValue::Scalar(text.clone())),
                    None => None,
                },
            },
        },
    }
}

impl GainMapXmp {
    /// Reads the gain map properties from the nodes of a parsed document.
    pub fn from_nodes(nodes: &[XmlNode]) -> (r: Option<GainMapXmp>)
        ensures
            spec_optional_xmp(r) == spec_gain_map_xmp(spec_node_views(nodes@)),
    {
        let description: usize = find_description(nodes)?;
        let hdr_capacity_max: String = scalar_property(nodes, description, "HDRCapacityMax")?;
        let base_rendition_is_hdr: bool = match scalar_property(
            nodes,
            description,
            "BaseRenditionIsHDR",
        ) {
            Some(text) => str_equals(text.as_str(), "true"),
            None => false,
        };
        Some(
            GainMapXmp {
                base_rendition_is_hdr,
                gain_map_min: triple_property(nodes, description, "GainMapMin"),
                gain_map_max: triple_property(nodes, description, "GainMapMax"),
                gamma: triple_property(nodes, description, "Gamma"),
                offset_sdr: triple_property(nodes, description, "OffsetSDR"),
                offset_hdr: triple_property(nodes, description, "OffsetHDR"),
                hdr_capacity_min: scalar_property(nodes, description, "HDRCapacityMin"),
                hdr_capacity_max,
            },
        )
    }

    /// Reads the gain map properties from the bytes of an XMP packet.
    pub fn new_from_xmp_bytes(xmp_bytes: &[u8]) -> (r: Option<GainMapXmp>)
        ensures
            spec_optional_xmp(r) == spec_gain_map_xmp_of_bytes(xmp_bytes@),
    {
        let text: String = string_from_utf8(slice_to_vec(xmp_bytes))?;
        let nodes: Vec<XmlNode> = parse_xml(text.as_str())?;
        Self::from_nodes(nodes.as_slice())
    }
}

} // verus!
