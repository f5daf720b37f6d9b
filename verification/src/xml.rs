//! `data/xmlToJson`: an XML document as a tree of JSON objects.

use vstd::prelude::*;
use crate::apps::{result_model, AppExecutionError, AppFault, AppOutput, OutputModel};
use crate::json::{items_model, member_str, JsonModel, JsonObject, JsonValue};
use crate::text::{is_blank, str_is_blank, trim, trimmed};

verus! {

/// One node of an XML document.
#[derive(Debug, PartialEq)]
pub enum XmlNode {
    Element {
        name: String,
        /// The attributes as pairs of name and value. A name stands at most once.
        attributes: Vec<(String, String)>,
        children: Vec<XmlNode>,
    },
    Comment(String),
    CData(String),
    Text(String),
    /// A processing instruction: its name, and its data if it has any.
    ProcessingInstruction(String, Option<String>),
}

/// The model of an [`XmlNode`].
pub ghost enum XmlModel {
    Element { name: Seq<char>, attributes: Map<Seq<char>, Seq<char>>, children: Seq<XmlModel> },
    Comment(Seq<char>),
    CData(Seq<char>),
    Text(Seq<char>),
    ProcessingInstruction(Seq<char>, Option<Seq<char>>),
}

/// The map that a list of attributes stands for.
pub open spec fn attributes_model(attributes: Seq<(String, String)>) -> Map<Seq<char>, Seq<char>>
    decreases attributes.len(),
{
    if attributes.len() == 0 {
        Map::empty()
    } else {
        attributes_model(attributes.drop_last()).insert(
            attributes.last().0@,
            attributes.last().1@,
        )
    }
}

/// The models of a list of nodes, one for one.
pub open spec fn nodes_model(nodes: Seq<XmlNode>) -> Seq<XmlModel>
    decreases nodes,
{
    if nodes.len() == 0 {
        Seq::empty()
    } else {
        nodes_model(nodes.drop_last()).push(nodes.last()@)
    }
}

impl View for XmlNode {
    type V = XmlModel;

    open spec fn view(&self) -> XmlModel
        decreases self,
    {
        match self {
            XmlNode::Element { name, attributes, children } => XmlModel::Element {
                name: name@,
                attributes: attributes_model(attributes@),
                children: nodes_model(children@),
            },
            XmlNode::Comment(text) => XmlModel::Comment(text@),
            XmlNode::CData(text) => XmlModel::CData(text@),
            XmlNode::Text(text) => XmlModel::Text(text@),
            XmlNode::ProcessingInstruction(name, data) => XmlModel::ProcessingInstruction(
                name@,
                crate::calendar::optional_text(*data),
            ),
        }
    }
}

/// `xmltree`'s element type, carried from its parser to the copy below.
#[verifier::external_type_specification]
#[verifier::external_body]
pub struct ExXmlElement(xmltree::Element);

/// What `xmltree::Element::parse` makes of a text: the root element, or the
/// message of the error it reports.
pub uninterp spec fn parsed_xml(text: Seq<char>) -> Result<XmlModel, Seq<char>>;

/// The node that one of `xmltree`'s elements holds: its name, its
/// attributes and its children, without what it says of namespaces.
pub uninterp spec fn xml_model(element: xmltree::Element) -> XmlModel;

/// Calls `xmltree::Element::parse` on the bytes of the text; an error is
/// handed back as the message that it displays.
#[verifier::external_body]
fn xml_parse(text: &str) -> (out: Result<xmltree::Element, String>)
    ensures
        match out {
            Ok(element) => parsed_xml(text@) == Ok::<XmlModel, Seq<char>>(xml_model(element)),
            Err(e) => parsed_xml(text@) == Err::<XmlModel, Seq<char>>(e@),
        },
{
    xmltree::Element::parse(text.as_bytes()).map_err(|e| e.to_string())
}

/// Copies one of `xmltree`'s elements: name, attributes and children, each
/// child variant by variant.
#[verifier::external_body]
fn from_xmltree(element: &xmltree::Element) -> (out: XmlNode)
    ensures
        out@ == xml_model(*element),
{
    XmlNode::Element {
        name: element.name.clone(),
        attributes: element.attributes.iter().map(|(k, v)| (k.clone(), v.clone())).collect(),
        children: element.children.iter().map(|child| match child {
            xmltree::XMLNode::Element(e) => from_xmltree(e),
            xmltree::XMLNode::Comment(t) => XmlNode::Comment(t.clone()),
            xmltree::XMLNode::CData(t) => XmlNode::CData(t.clone()),
            xmltree::XMLNode::Text(t) => XmlNode::Text(t.clone()),
            xmltree::XMLNode::ProcessingInstruction(n, d) => XmlNode::ProcessingInstruction(n.clone(), d.clone()),
        }).collect(),
    }
}

/// What reading a document came to, as a model.
pub open spec fn xml_outcome(out: Result<XmlNode, String>) -> Result<XmlModel, Seq<char>> {
    match out {
        Ok(node) => Ok(node@),
        Err(e) => Err(e@),
    }
}

/// Reads an XML document and hands back its root element.
pub fn parse_xml(text: &str) -> (out: Result<XmlNode, String>)
    ensures
        xml_outcome(out) == parsed_xml(text@),
{
    match xml_parse(text) {
        Ok(raw) => Ok(from_xmltree(&raw)),
        Err(e) => Err(e),
    }
}

/// An object with a type and a text.
pub open spec fn text_node(kind: Seq<char>, text: Seq<char>) -> JsonModel {
    JsonModel::Object(
        Map::<Seq<char>, JsonModel>::empty().insert("type"@, JsonModel::Str(kind)).insert(
            "text"@,
            JsonModel::Str(text),
        ),
    )
}

/// The attributes of an element as a JSON object of strings.
pub open spec fn attributes_json(attributes: Map<Seq<char>, Seq<char>>) -> JsonModel {
    JsonModel::Object(
        Map::new(
            |k: Seq<char>| attributes.contains_key(k),
            |k: Seq<char>| JsonModel::Str(attributes[k]),
        ),
    )
}

/// The JSON object that shows a node; none for a text of nothing but white
/// space. An element shows its name, its attributes, and those of its
/// children that show; a processing instruction shows with a text that is
/// its name and its data.
pub open spec fn node_json(node: XmlModel) -> Option<JsonModel>
    decreases node,
{
    match node {
        XmlModel::Element { name, attributes, children } => Some(
            JsonModel::Object(
                Map::<Seq<char>, JsonModel>::empty().insert(
                    "type"@,
                    JsonModel::Str("element"@),
                ).insert("name"@, JsonModel::Str(name)).insert(
                    "attributes"@,
                    attributes_json(attributes),
                ).insert("children"@, JsonModel::Array(children_json(children))),
            ),
        ),
        XmlModel::Text(text) => if is_blank(text) {
            None
        } else {
            Some(text_node("text"@, text))
        },
        XmlModel::CData(text) => Some(text_node("cdata"@, text)),
        XmlModel::Comment(text) => Some(text_node("comment"@, text)),
        XmlModel::ProcessingInstruction(name, data) => Some(
            text_node(
                "processing-instruction"@,
                trimmed(
                    name + " "@ + (match data {
                        Some(data) => data,
                        None => Seq::empty(),
                    }),
                ),
            ),
        ),
    }
}

/// The JSON objects of the children that show, in their order.
pub open spec fn children_json(children: Seq<XmlModel>) -> Seq<JsonModel>
    decreases children,
{
    if children.len() == 0 {
        Seq::empty()
    } else {
        match node_json(children.last()) {
            Some(shown) => children_json(children.drop_last()).push(shown),
            None => children_json(children.drop_last()),
        }
    }
}

/// The JSON object that shows a document with this root.
pub open spec fn document_json(root: XmlModel) -> JsonModel {
    JsonModel::Object(
        Map::<Seq<char>, JsonModel>::empty().insert("type"@, JsonModel::Str("document"@)).insert(
            "root"@,
            match node_json(root) {
                Some(shown) => shown,
                None => JsonModel::Null,
            },
        ),
    )
}

fn text_node_of(kind: &str, text: String) -> (out: JsonValue)
    ensures
        out@ == text_node(kind@, text@),
{
    let mut object = JsonObject::new();
    object.insert("type".to_owned(), JsonValue::Str(kind.to_owned()));
    object.insert("text".to_owned(), JsonValue::Str(text));
    JsonValue::Object(object)
}

fn attributes_json_of(attributes: &Vec<(String, String)>) -> (out: JsonValue)
    ensures
        out@ == attributes_json(attributes_model(attributes@)),
{
    let mut object = JsonObject::new();
    let mut i: usize = 0;
    assert(JsonModel::Object(object@) == attributes_json(attributes_model(attributes@.take(0)))) by {
        assert(object@ =~= Map::new(
            |k: Seq<char>| attributes_model(attributes@.take(0)).contains_key(k),
            |k: Seq<char>| JsonModel::Str(attributes_model(attributes@.take(0))[k]),
        ));
    }
    while i < attributes.len()
        invariant
            i <= attributes.len(),
            JsonModel::Object(object@) == attributes_json(
                attributes_model(attributes@.take(i as int)),
            ),
        decreases attributes.len() - i,
    {
        let ghost before = attributes_model(attributes@.take(i as int));
        let key = attributes[i].0.clone();
        let value = attributes[i].1.clone();
        proof {
            assert(attributes@.take(i + 1).drop_last() == attributes@.take(i as int));
            let after = before.insert(key@, value@);
            assert(object@.insert(key@, JsonModel::Str(value@)) =~= Map::new(
                |k: Seq<char>| after.contains_key(k),
                |k: Seq<char>| JsonModel::Str(after[k]),
            ));
        }
        object.insert(key, JsonValue::Str(value));
        i += 1;
    }
    assert(attributes@.take(attributes.len() as int) == attributes@);
    JsonValue::Object(object)
}

/// What an optional value stands for.
pub open spec fn shown_model(value: Option<JsonValue>) -> Option<JsonModel> {
    match value {
        Some(v) => Some(v@),
        None => None,
    }
}

/// Shows one node of a document as JSON.
#[verifier::loop_isolation(false)]
pub fn xml_child_to_json(child: &XmlNode) -> (out: Option<JsonValue>)
    ensures
        shown_model(out) == node_json(child@),
    decreases child,
{
    match child {
        XmlNode::Element { name, attributes, children } => {
            let mut shown: Vec<JsonValue> = Vec::new();
            let mut i: usize = 0;
            while i < children.len()
                invariant
                    i <= children.len(),
                    items_model(shown@) == children_json(nodes_model(children@.take(i as int))),
                decreases children.len() - i,
            {
                proof {
                    let upto = children@.take(i + 1);
                    assert(upto.drop_last() == children@.take(i as int));
                    assert(nodes_model(upto) == nodes_model(upto.drop_last()).push(upto.last()@));
                    assert(nodes_model(upto).drop_last() == nodes_model(children@.take(i as int)));
                }
                match xml_child_to_json(&children[i]) {
                    Some(value) => {
                        proof {
                            assert(shown@.push(value).drop_last() == shown@);
                        }
                        shown.push(value);
                    },
                    None => {},
                }
                i += 1;
            }
            assert(children@.take(children.len() as int) == children@);
            let mut object = JsonObject::new();
            object.insert("type".to_owned(), JsonValue::Str("element".to_owned()));
            object.insert("name".to_owned(), JsonValue::Str(name.clone()));
            object.insert("attributes".to_owned(), attributes_json_of(attributes));
            object.insert("children".to_owned(), JsonValue::Array(shown));
            Some(JsonValue::Object(object))
        },
        XmlNode::Text(text) => {
            if str_is_blank(text.as_str()) {
                None
            } else {
                Some(text_node_of("text", text.clone()))
            }
        },
        XmlNode::CData(text) => Some(text_node_of("cdata", text.clone())),
        XmlNode::Comment(text) => Some(text_node_of("comment", text.clone())),
        XmlNode::ProcessingInstruction(name, data) => {
            let mut whole = name.clone();
            whole.append(" ");
            match data {
                Some(data) => {
                    whole.append(data.as_str());
                },
                None => {
                },
            }
            Some(text_node_of("processing-instruction", trim(whole.as_str())))
        },
    }
}

/// `data/xmlToJson`: reads the XML document in the field `xml` and shows
/// it as a document with its root element.
pub open spec fn xml_to_json_result(fields: Map<Seq<char>, JsonModel>) -> Result<OutputModel, AppFault> {
    match member_str(fields, "xml"@) {
        None => Err(AppFault::MissingField("xml"@)),
        Some(text) => match parsed_xml(text) {
            Ok(root) => Ok(OutputModel::Value(document_json(root))),
            Err(why) => Err(
                AppFault::InvalidField { field: "xml"@, reason: "failed to parse xml: "@ + why },
            ),
        },
    }
}

/// Runs `data/xmlToJson`.
pub fn execute_data_xml_to_json(fields: &JsonObject) -> (out: Result<AppOutput, AppExecutionError>)
    ensures
        result_model(out) == xml_to_json_result(fields@),
{
    let text = match fields.get_str("xml") {
        Some(text) => text,
        None => {
            return Err(AppExecutionError::MissingField("xml"));
        },
    };
    let root = match parse_xml(text) {
        Ok(root) => root,
        Err(why) => {
            let mut reason = "failed to parse xml: ".to_owned();
            reason.append(why.as_str());
            return Err(AppExecutionError::InvalidField { field: "xml", reason });
        },
    };
    let shown = match xml_child_to_json(&root) {
        Some(shown) => shown,
        None => JsonValue::Null,
    };
    let mut object = JsonObject::new();
    object.insert("type".to_owned(), JsonValue::Str("document".to_owned()));
    object.insert("root".to_owned(), shown);
    Ok(AppOutput::Value(JsonValue::Object(object)))
}

} // verus!
