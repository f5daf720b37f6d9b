//! Scenes as graphs of nodes and wires, read from their JSON documents.

use vstd::prelude::*;
use crate::json::{member, member_bool, member_i64, member_str, member_u64, model_str, JsonModel,
    JsonObject, JsonValue};
use crate::text::{parse_i64, parse_u64, same_text, signed_value, unsigned_value};

verus! {

/// One operation of a scene.
#[derive(Debug, Clone, PartialEq)]
pub struct SceneNode {
    pub id: String,
    pub keyword: String,
    pub config: JsonObject,
    /// `event` for a node that stands for an event, `app` for an operation.
    pub node_type: String,
}

/// A wire from an output port of one node to an input port of another.
#[derive(Debug, Clone, PartialEq, Eq)]
pub struct SceneEdge {
    pub source: String,
    pub source_handle: String,
    pub target: String,
    pub target_handle: String,
}

/// A scene that can be rendered.
#[derive(Debug, Clone, PartialEq)]
pub struct E2eScene {
    nodes: Vec<SceneNode>,
    edges: Vec<SceneEdge>,
    name: String,
    background_color: String,
}

/// Why a scene could not be read or rendered.
#[derive(Debug, Clone, PartialEq, Eq)]
pub enum E2eError {
    Io(String),
    Json(String),
    Invalid(String),
    Unsupported(String),
    Image(String),
}

/// The size of the picture that a scene is rendered to, and where its assets are.
#[derive(Debug, Clone)]
pub struct E2eRenderer {
    pub width: u32,
    pub height: u32,
    pub assets_dir: String,
}

/// The model of an [`E2eError`].
pub ghost enum E2eFault {
    Io(Seq<char>),
    Json(Seq<char>),
    Invalid(Seq<char>),
    Unsupported(Seq<char>),
    Image(Seq<char>),
}

impl View for E2eError {
    type V = E2eFault;

    open spec fn view(&self) -> E2eFault {
        match self {
            E2eError::Io(why) => E2eFault::Io(why@),
            E2eError::Json(why) => E2eFault::Json(why@),
            E2eError::Invalid(why) => E2eFault::Invalid(why@),
            E2eError::Unsupported(why) => E2eFault::Unsupported(why@),
            E2eError::Image(why) => E2eFault::Image(why@),
        }
    }
}

impl E2eError {
    /// The sentence that [`E2eError::message`] writes.
    pub open spec fn message_text(&self) -> Seq<char> {
        match self {
            E2eError::Io(why) => "io error: "@ + why@,
            E2eError::Json(why) => "json error: "@ + why@,
            E2eError::Invalid(why) => "invalid scene: "@ + why@,
            E2eError::Unsupported(why) => "unsupported scene: "@ + why@,
            E2eError::Image(why) => "image error: "@ + why@,
        }
    }

    /// The error as a sentence.
    pub fn message(&self) -> (out: String)
        ensures
            out@ == self.message_text(),
    {
        let (head, why) = match self {
            E2eError::Io(why) => ("io error: ", why),
            E2eError::Json(why) => ("json error: ", why),
            E2eError::Invalid(why) => ("invalid scene: ", why),
            E2eError::Unsupported(why) => ("unsupported scene: ", why),
            E2eError::Image(why) => ("image error: ", why),
        };
        let mut out = head.to_owned();
        out.append(why.as_str());
        out
    }
}

/// The text of a setting, or the default where the setting is no string.
pub open spec fn setting_text(config: Map<Seq<char>, JsonModel>, key: Seq<char>, default: Seq<char>) -> Seq<
    char,
> {
    match member_str(config, key) {
        Some(text) => text,
        None => default,
    }
}

/// The text of a setting.
pub fn config_string(config: &JsonObject, key: &str, default: &str) -> (out: String)
    ensures
        out@ == setting_text(config@, key@, default@),
{
    match config.get_str(key) {
        Some(text) => text.to_owned(),
        None => default.to_owned(),
    }
}

/// A setting as a whole number of 32 bits with a sign: a JSON integer in
/// that range, or a string that writes one; else the default.
pub open spec fn setting_i32(config: Map<Seq<char>, JsonModel>, key: Seq<char>, default: int) -> int {
    match member_i64(config, key) {
        Some(n) => if i32::MIN <= n <= i32::MAX {
            n
        } else {
            default
        },
        None => match member_str(config, key) {
            Some(text) => match signed_value(text) {
                Some(n) => if i32::MIN <= n <= i32::MAX {
                    n
                } else {
                    default
                },
                None => default,
            },
            None => default,
        },
    }
}

/// A setting as a whole number of 32 bits with a sign.
pub fn config_i32(config: &JsonObject, key: &str, default: i32) -> (out: i32)
    ensures
        out == setting_i32(config@, key@, default as int),
{
    match config.get_i64(key) {
        Some(n) => if -0x8000_0000 <= n && n <= 0x7fff_ffff {
            n as i32
        } else {
            default
        },
        None => match config.get_str(key) {
            Some(text) => match parse_i64(text) {
                Some(n) => if -0x8000_0000 <= n && n <= 0x7fff_ffff {
                    n as i32
                } else {
                    default
                },
                None => default,
            },
            None => default,
        },
    }
}

/// A setting as a whole number of 32 bits without a sign: a JSON integer
/// in that range, or a string that writes one; else the default.
pub open spec fn setting_u32(config: Map<Seq<char>, JsonModel>, key: Seq<char>, default: int) -> int {
    match member_u64(config, key) {
        Some(n) => if n <= u32::MAX {
            n
        } else {
            default
        },
        None => match member_str(config, key) {
            Some(text) => match unsigned_value(text) {
                Some(n) => if n <= u32::MAX {
                    n
                } else {
                    default
                },
                None => default,
            },
            None => default,
        },
    }
}

/// A setting as a whole number of 32 bits without a sign.
pub fn config_u32(config: &JsonObject, key: &str, default: u32) -> (out: u32)
    ensures
        out == setting_u32(config@, key@, default as int),
{
    match config.get_u64(key) {
        Some(n) => if n <= 0xffff_ffff {
            n as u32
        } else {
            default
        },
        None => match config.get_str(key) {
            Some(text) => match parse_u64(text) {
                Some(n) => if n <= 0xffff_ffff {
                    n as u32
                } else {
                    default
                },
                None => default,
            },
            None => default,
        },
    }
}

/// A letter of ASCII in lower case; any other character as it is.
pub open spec fn ascii_lower(c: char) -> char {
    if c == 'T' {
        't'
    } else if c == 'R' {
        'r'
    } else if c == 'U' {
        'u'
    } else if c == 'E' {
        'e'
    } else {
        c
    }
}

/// Whether a text says `true`, whatever the case of its letters.
pub open spec fn says_true(text: Seq<char>) -> bool {
    text.len() == 4 && ascii_lower(text[0]) == 't' && ascii_lower(text[1]) == 'r' && ascii_lower(
        text[2],
    ) == 'u' && ascii_lower(text[3]) == 'e'
}

/// A setting as a truth value: a JSON boolean, or a string, which is true
/// where it says `true` or `1`; else the default.
pub open spec fn setting_bool(config: Map<Seq<char>, JsonModel>, key: Seq<char>, default: bool) -> bool {
    match member_bool(config, key) {
        Some(value) => value,
        None => match member_str(config, key) {
            Some(text) => says_true(text) || text == "1"@,
            None => default,
        },
    }
}

fn lower_of(c: char) -> (out: char)
    ensures
        out == ascii_lower(c),
{
    if c == 'T' {
        't'
    } else if c == 'R' {
        'r'
    } else if c == 'U' {
        'u'
    } else if c == 'E' {
        'e'
    } else {
        c
    }
}

/// A setting as a truth value.
pub fn config_bool(config: &JsonObject, key: &str, default: bool) -> (out: bool)
    ensures
        out == setting_bool(config@, key@, default),
{
    match config.get_bool(key) {
        Some(value) => value,
        None => match config.get_str(key) {
            Some(text) => {
                let v = crate::text::chars_of(text);
                let truth = v.len() == 4 && lower_of(v[0]) == 't' && lower_of(v[1]) == 'r'
                    && lower_of(v[2]) == 'u' && lower_of(v[3]) == 'e';
                truth || same_text(text, "1")
            },
            None => default,
        },
    }
}

impl E2eScene {
    /// The nodes of the scene.
    pub closed spec fn node_list(&self) -> Seq<SceneNode> {
        self.nodes@
    }

    /// The wires of the scene.
    pub closed spec fn edge_list(&self) -> Seq<SceneEdge> {
        self.edges@
    }

    /// The colour behind everything that the scene draws, as it is written.
    pub closed spec fn background(&self) -> Seq<char> {
        self.background_color@
    }

    /// The name of the scene.
    pub closed spec fn title(&self) -> Seq<char> {
        self.name@
    }

    /// A scene of these parts.
    pub fn new(nodes: Vec<SceneNode>, edges: Vec<SceneEdge>, name: String, background_color: String) -> (out:
        Self)
        ensures
            out.node_list() == nodes@,
            out.edge_list() == edges@,
            out.title() == name@,
            out.background() == background_color@,
    {
        E2eScene { nodes, edges, name, background_color }
    }

    /// The nodes of the scene.
    pub fn nodes(&self) -> (out: &Vec<SceneNode>)
        ensures
            out@ == self.node_list(),
    {
        &self.nodes
    }

    /// The wires of the scene.
    pub fn edges(&self) -> (out: &Vec<SceneEdge>)
        ensures
            out@ == self.edge_list(),
    {
        &self.edges
    }

    /// The name of the scene.
    pub fn name(&self) -> (out: &str)
        ensures
            out@ == self.title(),
    {
        self.name.as_str()
    }

    /// The colour behind everything that the scene draws, as it is written.
    pub fn background_color(&self) -> (out: &str)
        ensures
            out@ == self.background(),
    {
        self.background_color.as_str()
    }
}

/// Whether the node at place `i` is the one that a wire to `id` reaches:
/// the last node with that id.
pub open spec fn is_node_of(nodes: Seq<SceneNode>, id: Seq<char>, i: int) -> bool {
    &&& 0 <= i < nodes.len()
    &&& nodes[i].id@ == id
    &&& forall|j: int| i < j < nodes.len() ==> (#[trigger] nodes[j]).id@ != id
}

/// Whether a node is the event that starts a rendering.
pub open spec fn is_render_event(node: SceneNode) -> bool {
    node.node_type@ == "event"@ && node.keyword@ == "render"@
}

/// Whether the node at place `i` is the entry of the scene: the first render event.
pub open spec fn is_entry(nodes: Seq<SceneNode>, i: int) -> bool {
    &&& 0 <= i < nodes.len()
    &&& is_render_event(nodes[i])
    &&& forall|j: int| 0 <= j < i ==> !is_render_event(#[trigger] nodes[j])
}

/// Whether the wire at place `i` is the one that leaves the port `handle`
/// of the node `id`: the first such wire.
pub open spec fn is_edge_from(edges: Seq<SceneEdge>, id: Seq<char>, handle: Seq<char>, i: int) -> bool {
    &&& 0 <= i < edges.len()
    &&& edges[i].source@ == id
    &&& edges[i].source_handle@ == handle
    &&& forall|j: int|
        0 <= j < i ==> !((#[trigger] edges[j]).source@ == id && edges[j].source_handle@ == handle)
}

/// Whether the wire at place `i` is the one that enters the port `handle`
/// of the node `id`: the first such wire.
pub open spec fn is_edge_into(edges: Seq<SceneEdge>, id: Seq<char>, handle: Seq<char>, i: int) -> bool {
    &&& 0 <= i < edges.len()
    &&& edges[i].target@ == id
    &&& edges[i].target_handle@ == handle
    &&& forall|j: int|
        0 <= j < i ==> !((#[trigger] edges[j]).target@ == id && edges[j].target_handle@ == handle)
}

/// The place of the node that a wire to `id` reaches, if there is such a node.
pub open spec fn node_of_id(nodes: Seq<SceneNode>, id: Seq<char>) -> Option<int> {
    if exists|i: int| is_node_of(nodes, id, i) {
        Some(choose|i: int| is_node_of(nodes, id, i))
    } else {
        None
    }
}

/// The place of the wire that leaves the port `handle` of the node `id`, if there is one.
pub open spec fn edge_from(edges: Seq<SceneEdge>, id: Seq<char>, handle: Seq<char>) -> Option<int> {
    if exists|i: int| is_edge_from(edges, id, handle, i) {
        Some(choose|i: int| is_edge_from(edges, id, handle, i))
    } else {
        None
    }
}

/// The place of the wire that enters the port `handle` of the node `id`, if there is one.
pub open spec fn edge_into(edges: Seq<SceneEdge>, id: Seq<char>, handle: Seq<char>) -> Option<int> {
    if exists|i: int| is_edge_into(edges, id, handle, i) {
        Some(choose|i: int| is_edge_into(edges, id, handle, i))
    } else {
        None
    }
}

/// The place of the entry of a scene, if it has one.
pub open spec fn entry_of(nodes: Seq<SceneNode>) -> Option<int> {
    if exists|i: int| is_entry(nodes, i) {
        Some(choose|i: int| is_entry(nodes, i))
    } else {
        None
    }
}

/// An optional place as a number.
pub open spec fn place(found: Option<usize>) -> Option<int> {
    match found {
        Some(i) => Some(i as int),
        None => None,
    }
}

/// The place of the node that a wire to `id` reaches.
pub fn find_node(nodes: &Vec<SceneNode>, id: &str) -> (out: Option<usize>)
    ensures
        match out {
            Some(i) => is_node_of(nodes@, id@, i as int),
            None => forall|j: int| 0 <= j < nodes@.len() ==> (#[trigger] nodes@[j]).id@ != id@,
        },
        place(out) == node_of_id(nodes@, id@),
{
    let out = find_last_node(nodes, id);
    proof {
        match out {
            Some(i) => {
            },
            None => {
            },
        }
    }
    out
}

fn find_last_node(nodes: &Vec<SceneNode>, id: &str) -> (out: Option<usize>)
    ensures
        match out {
            Some(i) => is_node_of(nodes@, id@, i as int),
            None => forall|j: int| 0 <= j < nodes@.len() ==> (#[trigger] nodes@[j]).id@ != id@,
        },
{
    let mut i: usize = nodes.len();
    while i > 0
        invariant
            i <= nodes.len(),
            forall|j: int| i <= j < nodes@.len() ==> (#[trigger] nodes@[j]).id@ != id@,
        decreases i,
    {
        i -= 1;
        if same_text(nodes[i].id.as_str(), id) {
            return Some(i);
        }
    }
    None
}

/// The place of the entry of a scene.
pub fn find_entry(nodes: &Vec<SceneNode>) -> (out: Option<usize>)
    ensures
        match out {
            Some(i) => is_entry(nodes@, i as int),
            None => forall|j: int| 0 <= j < nodes@.len() ==> !is_render_event(#[trigger] nodes@[j]),
        },
        place(out) == entry_of(nodes@),
{
    let out = find_first_entry(nodes);
    proof {
        match out {
            Some(i) => {
            },
            None => {
            },
        }
    }
    out
}

fn find_first_entry(nodes: &Vec<SceneNode>) -> (out: Option<usize>)
    ensures
        match out {
            Some(i) => is_entry(nodes@, i as int),
            None => forall|j: int| 0 <= j < nodes@.len() ==> !is_render_event(#[trigger] nodes@[j]),
        },
{
    let mut i: usize = 0;
    while i < nodes.len()
        invariant
            i <= nodes.len(),
            forall|j: int| 0 <= j < i ==> !is_render_event(#[trigger] nodes@[j]),
        decreases nodes.len() - i,
    {
        if same_text(nodes[i].node_type.as_str(), "event") && same_text(
            nodes[i].keyword.as_str(),
            "render",
        ) {
            return Some(i);
        }
        i += 1;
    }
    None
}

/// The place of the wire that leaves a port.
pub fn find_edge_from(edges: &Vec<SceneEdge>, id: &str, handle: &str) -> (out: Option<usize>)
    ensures
        match out {
            Some(i) => is_edge_from(edges@, id@, handle@, i as int),
            None => forall|j: int|
                0 <= j < edges@.len() ==> !((#[trigger] edges@[j]).source@ == id@
                    && edges@[j].source_handle@ == handle@),
        },
        place(out) == edge_from(edges@, id@, handle@),
{
    let out = find_first_edge_from(edges, id, handle);
    proof {
        match out {
            Some(i) => {
            },
            None => {
            },
        }
    }
    out
}

fn find_first_edge_from(edges: &Vec<SceneEdge>, id: &str, handle: &str) -> (out: Option<usize>)
    ensures
        match out {
            Some(i) => is_edge_from(edges@, id@, handle@, i as int),
            None => forall|j: int|
                0 <= j < edges@.len() ==> !((#[trigger] edges@[j]).source@ == id@
                    && edges@[j].source_handle@ == handle@),
        },
{
    let mut i: usize = 0;
    while i < edges.len()
        invariant
            i <= edges.len(),
            forall|j: int|
                0 <= j < i ==> !((#[trigger] edges@[j]).source@ == id@ && edges@[j].source_handle@
                    == handle@),
        decreases edges.len() - i,
    {
        if same_text(edges[i].source.as_str(), id) && same_text(
            edges[i].source_handle.as_str(),
            handle,
        ) {
            return Some(i);
        }
        i += 1;
    }
    None
}

/// The place of the wire that enters a port.
pub fn find_edge_into(edges: &Vec<SceneEdge>, id: &str, handle: &str) -> (out: Option<usize>)
    ensures
        match out {
            Some(i) => is_edge_into(edges@, id@, handle@, i as int),
            None => forall|j: int|
                0 <= j < edges@.len() ==> !((#[trigger] edges@[j]).target@ == id@
                    && edges@[j].target_handle@ == handle@),
        },
        place(out) == edge_into(edges@, id@, handle@),
{
    let out = find_first_edge_into(edges, id, handle);
    proof {
        match out {
            Some(i) => {
            },
            None => {
            },
        }
    }
    out
}

fn find_first_edge_into(edges: &Vec<SceneEdge>, id: &str, handle: &str) -> (out: Option<usize>)
    ensures
        match out {
            Some(i) => is_edge_into(edges@, id@, handle@, i as int),
            None => forall|j: int|
                0 <= j < edges@.len() ==> !((#[trigger] edges@[j]).target@ == id@
                    && edges@[j].target_handle@ == handle@),
        },
{
    let mut i: usize = 0;
    while i < edges.len()
        invariant
            i <= edges.len(),
            forall|j: int|
                0 <= j < i ==> !((#[trigger] edges@[j]).target@ == id@ && edges@[j].target_handle@
                    == handle@),
        decreases edges.len() - i,
    {
        if same_text(edges[i].target.as_str(), id) && same_text(
            edges[i].target_handle.as_str(),
            handle,
        ) {
            return Some(i);
        }
        i += 1;
    }
    None
}

/// The model of a [`SceneNode`].
pub ghost struct NodeModel {
    pub id: Seq<char>,
    pub keyword: Seq<char>,
    pub config: Map<Seq<char>, JsonModel>,
    pub node_type: Seq<char>,
}

/// The model of a [`SceneEdge`].
pub ghost struct EdgeModel {
    pub source: Seq<char>,
    pub source_handle: Seq<char>,
    pub target: Seq<char>,
    pub target_handle: Seq<char>,
}

impl View for SceneNode {
    type V = NodeModel;

    open spec fn view(&self) -> NodeModel {
        NodeModel {
            id: self.id@,
            keyword: self.keyword@,
            config: self.config@,
            node_type: self.node_type@,
        }
    }
}

impl View for SceneEdge {
    type V = EdgeModel;

    open spec fn view(&self) -> EdgeModel {
        EdgeModel {
            source: self.source@,
            source_handle: self.source_handle@,
            target: self.target@,
            target_handle: self.target_handle@,
        }
    }
}

/// The models of a list of nodes.
pub open spec fn node_models(nodes: Seq<SceneNode>) -> Seq<NodeModel> {
    nodes.map_values(|n: SceneNode| n@)
}

/// The models of a list of wires.
pub open spec fn edge_models(edges: Seq<SceneEdge>) -> Seq<EdgeModel> {
    edges.map_values(|e: SceneEdge| e@)
}

/// The members of a value that is an object.
pub open spec fn object_of(value: JsonModel) -> Option<Map<Seq<char>, JsonModel>> {
    match value {
        JsonModel::Object(object) => Some(object),
        _ => None,
    }
}

/// The member `key` of a value that is an object.
pub open spec fn field(value: JsonModel, key: Seq<char>) -> Option<JsonModel> {
    match object_of(value) {
        Some(object) => member(object, key),
        None => None,
    }
}

/// The member `key` of a value, if it is a string.
pub open spec fn field_str(value: JsonModel, key: Seq<char>) -> Option<Seq<char>> {
    match field(value, key) {
        Some(v) => model_str(v),
        None => None,
    }
}

/// The node that an entry of the document describes; none for an entry
/// whose data name no keyword. An entry has to have an id and data.
pub open spec fn node_of(entry: JsonModel) -> Result<Option<NodeModel>, Seq<char>> {
    match field_str(entry, "id"@) {
        None => Err("node missing id"@),
        Some(id) => match field(entry, "data"@) {
            Some(JsonModel::Object(data)) => match member_str(data, "keyword"@) {
                None => Ok(None),
                Some(keyword) => Ok(
                    Some(
                        NodeModel {
                            id,
                            keyword,
                            config: match member(data, "config"@) {
                                Some(JsonModel::Object(config)) => config,
                                _ => Map::empty(),
                            },
                            node_type: match field_str(entry, "type"@) {
                                Some(kind) => kind,
                                None => "app"@,
                            },
                        },
                    ),
                ),
            },
            _ => Err("node "@ + id + " missing data"@),
        },
    }
}

/// The nodes that the entries `entries[from..]` describe, behind `held`.
pub open spec fn nodes_from(entries: Seq<JsonModel>, from: int, held: Seq<NodeModel>) -> Result<
    Seq<NodeModel>,
    Seq<char>,
>
    decreases entries.len() - from,
{
    if from < 0 || from >= entries.len() {
        Ok(held)
    } else {
        match node_of(entries[from]) {
            Err(why) => Err(why),
            Ok(Some(node)) => nodes_from(entries, from + 1, held.push(node)),
            Ok(None) => nodes_from(entries, from + 1, held),
        }
    }
}

/// The wire that an entry of the document describes. A wire has to name
/// the nodes at its ends; a port that is not named has the empty name.
pub open spec fn edge_of(entry: JsonModel) -> Result<EdgeModel, Seq<char>> {
    match field_str(entry, "source"@) {
        None => Err("edge missing source"@),
        Some(source) => match field_str(entry, "target"@) {
            None => Err("edge missing target"@),
            Some(target) => Ok(
                EdgeModel {
                    source,
                    source_handle: match field_str(entry, "sourceHandle"@) {
                        Some(handle) => handle,
                        None => Seq::empty(),
                    },
                    target,
                    target_handle: match field_str(entry, "targetHandle"@) {
                        Some(handle) => handle,
                        None => Seq::empty(),
                    },
                },
            ),
        },
    }
}

/// The wires that the entries `entries[from..]` describe, behind `held`.
pub open spec fn edges_from(entries: Seq<JsonModel>, from: int, held: Seq<EdgeModel>) -> Result<
    Seq<EdgeModel>,
    Seq<char>,
>
    decreases entries.len() - from,
{
    if from < 0 || from >= entries.len() {
        Ok(held)
    } else {
        match edge_of(entries[from]) {
            Err(why) => Err(why),
            Ok(edge) => edges_from(entries, from + 1, held.push(edge)),
        }
    }
}

/// The model of an [`E2eScene`].
pub ghost struct SceneModel {
    pub nodes: Seq<NodeModel>,
    pub edges: Seq<EdgeModel>,
    pub name: Seq<char>,
    pub background_color: Seq<char>,
}

impl View for E2eScene {
    type V = SceneModel;

    closed spec fn view(&self) -> SceneModel {
        SceneModel {
            nodes: node_models(self.nodes@),
            edges: edge_models(self.edges@),
            name: self.name@,
            background_color: self.background_color@,
        }
    }
}

/// The scene that a document describes: its nodes and wires, its name
/// (`scene` where it has none) and the background colour of its settings
/// (black where they name none). The message says what is missing.
pub open spec fn scene_of(document: JsonModel) -> Result<SceneModel, Seq<char>> {
    match field(document, "nodes"@) {
        Some(JsonModel::Array(nodes)) => match field(document, "edges"@) {
            Some(JsonModel::Array(edges)) => match nodes_from(nodes, 0, Seq::empty()) {
                Err(why) => Err(why),
                Ok(nodes) => match edges_from(edges, 0, Seq::empty()) {
                    Err(why) => Err(why),
                    Ok(edges) => Ok(
                        SceneModel {
                            nodes,
                            edges,
                            name: match field_str(document, "name"@) {
                                Some(name) => name,
                                None => "scene"@,
                            },
                            background_color: match field(document, "settings"@) {
                                Some(settings) => match field_str(settings, "backgroundColor"@) {
                                    Some(color) => color,
                                    None => "#000000"@,
                                },
                                None => "#000000"@,
                            },
                        },
                    ),
                },
            },
            _ => Err("missing edges"@),
        },
        _ => Err("missing nodes"@),
    }
}

fn text_of<'a>(value: &'a JsonValue, key: &str) -> (out: Option<&'a str>)
    ensures
        crate::json::slice_text(out) == field_str(value@, key@),
{
    match value.get(key) {
        Some(v) => v.as_str(),
        None => None,
    }
}

fn read_node(entry: &JsonValue) -> (out: Result<Option<SceneNode>, String>)
    ensures
        match out {
            Ok(Some(node)) => node_of(entry@) == Ok::<Option<NodeModel>, Seq<char>>(Some(node@)),
            Ok(None) => node_of(entry@) == Ok::<Option<NodeModel>, Seq<char>>(None),
            Err(why) => node_of(entry@) == Err::<Option<NodeModel>, Seq<char>>(why@),
        },
{
    let id = match text_of(entry, "id") {
        Some(id) => id,
        None => {
            return Err("node missing id".to_owned());
        },
    };
    let node_type = match text_of(entry, "type") {
        Some(kind) => kind.to_owned(),
        None => "app".to_owned(),
    };
    let data = match entry.get("data") {
        Some(value) => match value.as_object() {
            Some(data) => data,
            None => {
                let mut why = "node ".to_owned();
                why.append(id);
                why.append(" missing data");
                return Err(why);
            },
        },
        None => {
            let mut why = "node ".to_owned();
            why.append(id);
            why.append(" missing data");
            return Err(why);
        },
    };
    let keyword = match data.get_str("keyword") {
        Some(keyword) => keyword.to_owned(),
        None => {
            return Ok(None);
        },
    };
    let config = match data.get("config") {
        Some(value) => match value.as_object() {
            Some(config) => config.clone(),
            None => JsonObject::new(),
        },
        None => JsonObject::new(),
    };
    Ok(Some(SceneNode { id: id.to_owned(), keyword, config, node_type }))
}

fn read_edge(entry: &JsonValue) -> (out: Result<SceneEdge, String>)
    ensures
        match out {
            Ok(edge) => edge_of(entry@) == Ok::<EdgeModel, Seq<char>>(edge@),
            Err(why) => edge_of(entry@) == Err::<EdgeModel, Seq<char>>(why@),
        },
{
    let source = match text_of(entry, "source") {
        Some(source) => source.to_owned(),
        None => {
            return Err("edge missing source".to_owned());
        },
    };
    let source_handle = match text_of(entry, "sourceHandle") {
        Some(handle) => handle.to_owned(),
        None => String::new(),
    };
    let target = match text_of(entry, "target") {
        Some(target) => target.to_owned(),
        None => {
            return Err("edge missing target".to_owned());
        },
    };
    let target_handle = match text_of(entry, "targetHandle") {
        Some(handle) => handle.to_owned(),
        None => String::new(),
    };
    Ok(SceneEdge { source, source_handle, target, target_handle })
}

impl E2eScene {
    /// Reads a scene from its document.
    #[verifier::loop_isolation(false)]
    pub fn from_json(document: &JsonValue) -> (out: Result<Self, E2eError>)
        ensures
            match out {
                Ok(scene) => scene_of(document@) == Ok::<SceneModel, Seq<char>>(scene@),
                Err(e) => e matches E2eError::Invalid(why) && scene_of(document@) == Err::<
                    SceneModel,
                    Seq<char>,
                >(why@),
            },
    {
        let node_entries = match document.get("nodes") {
            Some(value) => match value.as_array() {
                Some(entries) => entries,
                None => {
                    return Err(E2eError::Invalid("missing nodes".to_owned()));
                },
            },
            None => {
                return Err(E2eError::Invalid("missing nodes".to_owned()));
            },
        };
        let edge_entries = match document.get("edges") {
            Some(value) => match value.as_array() {
                Some(entries) => entries,
                None => {
                    return Err(E2eError::Invalid("missing edges".to_owned()));
                },
            },
            None => {
                return Err(E2eError::Invalid("missing edges".to_owned()));
            },
        };
        proof {
            crate::json::lemma_items_model(node_entries@);
            crate::json::lemma_items_model(edge_entries@);
        }
        let ghost node_items = crate::json::items_model(node_entries@);
        let ghost edge_items = crate::json::items_model(edge_entries@);
        let mut nodes: Vec<SceneNode> = Vec::new();
        let mut i: usize = 0;
        assert(node_models(nodes@) == Seq::<NodeModel>::empty());
        while i < node_entries.len()
            invariant
                i <= node_entries.len(),
                nodes_from(node_items, i as int, node_models(nodes@)) == nodes_from(
                    node_items,
                    0,
                    Seq::empty(),
                ),
            decreases node_entries.len() - i,
        {
            match read_node(&node_entries[i]) {
                Ok(Some(node)) => {
                    assert(node_models(nodes@.push(node)) == node_models(nodes@).push(node@));
                    nodes.push(node);
                },
                Ok(None) => {},
                Err(why) => {
                    return Err(E2eError::Invalid(why));
                },
            }
            i += 1;
        }
        let mut edges: Vec<SceneEdge> = Vec::new();
        let mut k: usize = 0;
        assert(edge_models(edges@) == Seq::<EdgeModel>::empty());
        while k < edge_entries.len()
            invariant
                k <= edge_entries.len(),
                edges_from(edge_items, k as int, edge_models(edges@)) == edges_from(
                    edge_items,
                    0,
                    Seq::empty(),
                ),
            decreases edge_entries.len() - k,
        {
            match read_edge(&edge_entries[k]) {
                Ok(edge) => {
                    assert(edge_models(edges@.push(edge)) == edge_models(edges@).push(edge@));
                    edges.push(edge);
                },
                Err(why) => {
                    return Err(E2eError::Invalid(why));
                },
            }
            k += 1;
        }
        let name = match text_of(document, "name") {
            Some(name) => name.to_owned(),
            None => "scene".to_owned(),
        };
        let background_color = match document.get("settings") {
            Some(settings) => match text_of(settings, "backgroundColor") {
                Some(color) => color.to_owned(),
                None => "#000000".to_owned(),
            },
            None => "#000000".to_owned(),
        };
        Ok(E2eScene { nodes, edges, name, background_color })
    }

    /// Reads a scene from the text of its document.
    pub fn from_text(text: &str) -> (out: Result<Self, E2eError>)
        ensures
            match out {
                Ok(scene) => crate::json::parsed_json(text@) matches Ok(document) && scene_of(
                    document,
                ) == Ok::<SceneModel, Seq<char>>(scene@),
                Err(E2eError::Json(why)) => crate::json::parsed_json(text@) == Err::<
                    JsonModel,
                    Seq<char>,
                >(why@),
                Err(E2eError::Invalid(why)) => crate::json::parsed_json(text@) matches Ok(document)
                    && scene_of(document) == Err::<SceneModel, Seq<char>>(why@),
                Err(_) => false,
            },
    {
        match crate::json::parse_json(text) {
            Ok(document) => Self::from_json(&document),
            Err(why) => Err(E2eError::Json(why)),
        }
    }
}

} // verus!
