//! Rendering a scene to a picture: the nodes are evaluated on demand, each
//! at most once, along the wires that enter them.
//!
//! What needs the file system, the network, a font or arithmetic on
//! fractions is not done here. The run asks its host for it with an
//! [`Action`] and goes on when the host hands back the [`Event`] that answers it.

use vstd::prelude::*;
use vstd::utf8::encode_utf8;
use crate::canvas::{at_least_one, black, channel, filled_model, fitted_size, hex_color, overlaid,
    overlay, parse_hex_color, qr_code, qr_picture, resize_exact, resize_fit, Canvas,
    CanvasModel, GreyImage, GreyModel, Rgba};
use crate::e2e::{config_bool, config_i32, config_string, config_u32, edge_from, edge_into,
    entry_of, find_edge_from, find_edge_into, find_entry, find_node, node_of_id, setting_bool,
    setting_i32, setting_text, setting_u32, E2eError, E2eFault, E2eRenderer, E2eScene, SceneNode};
use crate::json::{member_str, JsonModel, JsonObject};
use crate::text::{decimal_text, same_text, starts_with, strip_prefix, trim, trimmed, u64_to_text};

verus! {

/// What a node hands to the nodes that are wired to it.
#[derive(Debug, Clone, PartialEq)]
pub enum NodeOutput {
    Image(Canvas),
    Text(String),
    Bool(bool),
}

/// How a download of a picture went.
#[derive(Debug, Clone, PartialEq)]
pub enum DownloadOutcome {
    Image(Canvas),
    /// The bytes arrived and are no picture.
    DecodeFailed,
    /// Nothing arrived.
    Failed,
}

/// The sizes of the cells of a grid as the host computed them, and the
/// room that all columns, or all rows, have together.
#[derive(Debug, Clone, PartialEq)]
pub struct SplitLayout {
    pub column_widths: Vec<u32>,
    pub row_heights: Vec<u32>,
    pub total_width: i32,
    pub total_height: i32,
}

/// Where the columns and the rows of a grid begin.
#[derive(Debug, Clone, PartialEq)]
pub struct SplitPositions {
    pub xs: Vec<i64>,
    pub ys: Vec<i64>,
}

/// What the host is asked to do.
#[derive(Debug, Clone, PartialEq)]
pub enum Action {
    /// Paint a gradient between two colours; the angle is in the settings.
    Gradient { width: u32, height: u32, start: Rgba, end: Rgba, config: JsonObject },
    /// Make a picture of one colour; how opaque it is, is in the settings.
    NewImage { width: u32, height: u32, color: Rgba, config: JsonObject },
    /// Load a picture from the assets; the path is relative to their directory.
    LoadLocal { path: String },
    /// Say in what box a picture of one size has to fit so that, with its
    /// proportions kept, it covers a box of another size, or else so that
    /// that box contains it. The sides are 1 at least where that is asked.
    Bounds {
        source_width: u32,
        source_height: u32,
        width: u32,
        height: u32,
        cover: bool,
        at_least_one: bool,
    },
    /// Make a picture less opaque; by how much is in the settings.
    Opacity { image: Canvas, config: JsonObject },
    /// Write a text onto a picture; font, place and colours are in the settings.
    Text { image: Canvas, text: String, config: JsonObject },
    DownloadImage { url: String },
    DownloadText { url: String },
    /// Divide a picture of this size into a grid.
    Layout { config: JsonObject, width: u32, height: u32, rows: u32, columns: u32 },
    /// Say where the columns and rows of these sizes begin.
    Positions { config: JsonObject, column_widths: Vec<u32>, row_heights: Vec<u32> },
}

/// What the host hands back.
#[derive(Debug, PartialEq)]
pub enum Event {
    Image(Canvas),
    Bounds { width: u32, height: u32 },
    Loaded(Result<Canvas, String>),
    Download(DownloadOutcome),
    Text(String),
    Layout(SplitLayout),
    Positions(SplitPositions),
}

/// What a run says after each of its steps.
#[derive(Debug, PartialEq)]
pub enum Request {
    /// The next step can be made at once.
    Continue,
    /// The next step has to bring the answer to this.
    Perform(Action),
    /// The run is over.
    Finished(Result<Canvas, E2eError>),
}

/// What a node has gathered while it is evaluated.
#[derive(Debug, PartialEq)]
enum Slot {
    /// No wire, so nothing was asked for.
    Missing,
    Output(NodeOutput),
    Answer(Event),
}

/// A node that is being evaluated, at the size at which it is wanted.
#[derive(Debug, PartialEq)]
struct Frame {
    node: usize,
    width: u32,
    height: u32,
    slots: Vec<Slot>,
}

/// What a node does next.
enum Decision {
    /// It needs the output of the node with this id, at this size.
    Need { id: String, width: u32, height: u32 },
    /// It would need an output, but no wire brings one.
    Skip,
    Perform(Action),
    Done(Result<NodeOutput, E2eError>),
}

/// The rendering of one scene.
pub struct RenderRun {
    scene: E2eScene,
    frames: Vec<Frame>,
    cache: Vec<Option<NodeOutput>>,
    entered: Vec<bool>,
    evaluated: Vec<usize>,
    awaiting: bool,
    finished: Option<Result<Canvas, E2eError>>,
}

/// The model of a [`NodeOutput`].
pub ghost enum NodeValue {
    Image(CanvasModel),
    Text(Seq<char>),
    Bool(bool),
}

/// The model of a [`DownloadOutcome`].
pub ghost enum DownloadModel {
    Image(CanvasModel),
    DecodeFailed,
    Failed,
}

/// The model of a [`SplitLayout`].
pub ghost struct LayoutModel {
    pub column_widths: Seq<u32>,
    pub row_heights: Seq<u32>,
    pub total_width: i32,
    pub total_height: i32,
}

/// The model of a [`SplitPositions`].
pub ghost struct PositionsModel {
    pub xs: Seq<i64>,
    pub ys: Seq<i64>,
}

/// The model of an [`Action`].
pub ghost enum ActionModel {
    Gradient { width: u32, height: u32, start: Rgba, end: Rgba, config: Map<Seq<char>, JsonModel> },
    NewImage { width: u32, height: u32, color: Rgba, config: Map<Seq<char>, JsonModel> },
    LoadLocal { path: Seq<char> },
    Bounds {
        source_width: u32,
        source_height: u32,
        width: u32,
        height: u32,
        cover: bool,
        at_least_one: bool,
    },
    Opacity { image: CanvasModel, config: Map<Seq<char>, JsonModel> },
    Text { image: CanvasModel, text: Seq<char>, config: Map<Seq<char>, JsonModel> },
    DownloadImage { url: Seq<char> },
    DownloadText { url: Seq<char> },
    Layout { config: Map<Seq<char>, JsonModel>, width: u32, height: u32, rows: u32, columns: u32 },
    Positions { config: Map<Seq<char>, JsonModel>, column_widths: Seq<u32>, row_heights: Seq<u32> },
}

/// The model of an [`Event`].
pub ghost enum EventModel {
    Image(CanvasModel),
    Bounds { width: u32, height: u32 },
    Loaded(Result<CanvasModel, Seq<char>>),
    Download(DownloadModel),
    Text(Seq<char>),
    Layout(LayoutModel),
    Positions(PositionsModel),
}

/// The model of a [`Request`].
pub ghost enum RequestModel {
    Continue,
    Perform(ActionModel),
    Finished(Result<CanvasModel, E2eFault>),
}

/// What a node has gathered in one place: nothing, for want of a wire; the
/// output of another node; or an answer of the host.
pub ghost enum SlotModel {
    Missing,
    Output(NodeValue),
    Answer(EventModel),
}

/// A node that is being evaluated: its place among the nodes, the size at
/// which it is wanted, and what it has gathered so far.
pub ghost struct FrameModel {
    pub node: int,
    pub width: u32,
    pub height: u32,
    pub slots: Seq<SlotModel>,
}

/// What a node does next: it needs the output of another node at some
/// size; it would need one, but no wire brings it; it asks the host; or it
/// is done.
pub ghost enum DecisionModel {
    Need { id: Seq<char>, width: u32, height: u32 },
    Skip,
    Perform(ActionModel),
    Done(Result<NodeValue, E2eFault>),
}

impl View for NodeOutput {
    type V = NodeValue;

    open spec fn view(&self) -> NodeValue {
        match self {
            NodeOutput::Image(canvas) => NodeValue::Image(canvas@),
            NodeOutput::Text(text) => NodeValue::Text(text@),
            NodeOutput::Bool(value) => NodeValue::Bool(*value),
        }
    }
}

impl View for DownloadOutcome {
    type V = DownloadModel;

    open spec fn view(&self) -> DownloadModel {
        match self {
            DownloadOutcome::Image(canvas) => DownloadModel::Image(canvas@),
            DownloadOutcome::DecodeFailed => DownloadModel::DecodeFailed,
            DownloadOutcome::Failed => DownloadModel::Failed,
        }
    }
}

impl View for SplitLayout {
    type V = LayoutModel;

    open spec fn view(&self) -> LayoutModel {
        LayoutModel {
            column_widths: self.column_widths@,
            row_heights: self.row_heights@,
            total_width: self.total_width,
            total_height: self.total_height,
        }
    }
}

impl View for SplitPositions {
    type V = PositionsModel;

    open spec fn view(&self) -> PositionsModel {
        PositionsModel { xs: self.xs@, ys: self.ys@ }
    }
}

impl View for Action {
    type V = ActionModel;

    open spec fn view(&self) -> ActionModel {
        match self {
            Action::Gradient { width, height, start, end, config } => ActionModel::Gradient {
                width: *width,
                height: *height,
                start: *start,
                end: *end,
                config: config@,
            },
            Action::NewImage { width, height, color, config } => ActionModel::NewImage {
                width: *width,
                height: *height,
                color: *color,
                config: config@,
            },
            Action::LoadLocal { path } => ActionModel::LoadLocal { path: path@ },
            Action::Bounds {
                source_width,
                source_height,
                width,
                height,
                cover,
                at_least_one,
            } => ActionModel::Bounds {
                source_width: *source_width,
                source_height: *source_height,
                width: *width,
                height: *height,
                cover: *cover,
                at_least_one: *at_least_one,
            },
            Action::Opacity { image, config } => ActionModel::Opacity {
                image: image@,
                config: config@,
            },
            Action::Text { image, text, config } => ActionModel::Text {
                image: image@,
                text: text@,
                config: config@,
            },
            Action::DownloadImage { url } => ActionModel::DownloadImage { url: url@ },
            Action::DownloadText { url } => ActionModel::DownloadText { url: url@ },
            Action::Layout { config, width, height, rows, columns } => ActionModel::Layout {
                config: config@,
                width: *width,
                height: *height,
                rows: *rows,
                columns: *columns,
            },
            Action::Positions { config, column_widths, row_heights } => ActionModel::Positions {
                config: config@,
                column_widths: column_widths@,
                row_heights: row_heights@,
            },
        }
    }
}

impl View for Event {
    type V = EventModel;

    open spec fn view(&self) -> EventModel {
        match self {
            Event::Image(canvas) => EventModel::Image(canvas@),
            Event::Bounds { width, height } => EventModel::Bounds {
                width: *width,
                height: *height,
            },
            Event::Loaded(Ok(canvas)) => EventModel::Loaded(Ok(canvas@)),
            Event::Loaded(Err(why)) => EventModel::Loaded(Err(why@)),
            Event::Download(outcome) => EventModel::Download(outcome@),
            Event::Text(text) => EventModel::Text(text@),
            Event::Layout(layout) => EventModel::Layout(layout@),
            Event::Positions(positions) => EventModel::Positions(positions@),
        }
    }
}

/// What the result of a run stands for.
pub open spec fn result_model(result: Result<Canvas, E2eError>) -> Result<CanvasModel, E2eFault> {
    match result {
        Ok(canvas) => Ok(canvas@),
        Err(e) => Err(e@),
    }
}

impl View for Request {
    type V = RequestModel;

    open spec fn view(&self) -> RequestModel {
        match self {
            Request::Continue => RequestModel::Continue,
            Request::Perform(action) => RequestModel::Perform(action@),
            Request::Finished(result) => RequestModel::Finished(result_model(*result)),
        }
    }
}

impl View for Slot {
    type V = SlotModel;

    closed spec fn view(&self) -> SlotModel {
        match self {
            Slot::Missing => SlotModel::Missing,
            Slot::Output(output) => SlotModel::Output(output@),
            Slot::Answer(event) => SlotModel::Answer(event@),
        }
    }
}

impl View for Frame {
    type V = FrameModel;

    closed spec fn view(&self) -> FrameModel {
        FrameModel {
            node: self.node as int,
            width: self.width,
            height: self.height,
            slots: self.slots@.map_values(|slot: Slot| slot@),
        }
    }
}

impl View for Decision {
    type V = DecisionModel;

    closed spec fn view(&self) -> DecisionModel {
        match self {
            Decision::Need { id, width, height } => DecisionModel::Need {
                id: id@,
                width: *width,
                height: *height,
            },
            Decision::Skip => DecisionModel::Skip,
            Decision::Perform(action) => DecisionModel::Perform(action@),
            Decision::Done(Ok(output)) => DecisionModel::Done(Ok(output@)),
            Decision::Done(Err(e)) => DecisionModel::Done(Err(e@)),
        }
    }
}

/// A failure of the run over something that is not as it has to be.
pub open spec fn fault(why: Seq<char>) -> E2eFault {
    E2eFault::Invalid(why)
}

fn invalid<T>(why: &str) -> (out: Result<T, E2eError>)
    ensures
        out matches Err(e) && e@ == fault(why@),
{
    Err(E2eError::Invalid(why.to_owned()))
}

/// Whether a picture holds exactly the bytes of its pixels, and the bytes
/// of one row can be counted.
pub open spec fn canvas_wf(canvas: CanvasModel) -> bool {
    canvas.pixels.len() == canvas.width * canvas.height * 4 && canvas.width * 4 <= usize::MAX
}

/// A picture of one colour, if one of this size can be held.
pub open spec fn solid_picture(width: u32, height: u32, color: Rgba) -> Result<CanvasModel, E2eFault> {
    if Canvas::fits(width, height) {
        Ok(filled_model(width, height, color))
    } else {
        Err(fault("picture is too large"@))
    }
}

/// A picture of one colour, if one of this size can be held.
pub fn solid(width: u32, height: u32, color: Rgba) -> (out: Result<Canvas, E2eError>)
    ensures
        result_model(out) == solid_picture(width, height, color),
        out matches Ok(canvas) ==> canvas.wf() && canvas.is_filled(color),
{
    if Canvas::size_fits(width, height) {
        Ok(Canvas::filled(width, height, color))
    } else {
        invalid("picture is too large")
    }
}

/// The colour that a text names, or the fallback where it names none.
pub open spec fn color_or(text: Seq<char>, fallback: Rgba) -> Rgba {
    match hex_color(text) {
        Some(color) => color,
        None => fallback,
    }
}

fn color_of(text: &str, fallback: Rgba) -> (out: Rgba)
    ensures
        out == color_or(text@, fallback),
{
    match parse_hex_color(text) {
        Some(color) => color,
        None => fallback,
    }
}

fn is_well_formed(canvas: &Canvas) -> (out: bool)
    ensures
        out == canvas.wf(),
        out == canvas_wf(canvas@),
{
    let held = canvas.pixels.len();
    assert(0 <= canvas.width * canvas.height <= 0xffff_fffe_0000_0001) by (nonlinear_arith)
        requires
            0 <= canvas.width <= 0xffff_ffff,
            0 <= canvas.height <= 0xffff_ffff,
    ;
    let bytes: u128 = (canvas.width as u128) * (canvas.height as u128) * 4;
    held as u128 == bytes && (canvas.width as u128) * 4 <= usize::MAX as u128
}

impl Canvas {
    /// A copy of the picture.
    pub fn clone_canvas(&self) -> (out: Canvas)
        ensures
            out@ == self@,
    {
        let mut pixels: Vec<u8> = Vec::new();
        let mut i: usize = 0;
        while i < self.pixels.len()
            invariant
                i <= self.pixels.len(),
                pixels@ == self.pixels@.take(i as int),
            decreases self.pixels.len() - i,
        {
            pixels.push(self.pixels[i]);
            i += 1;
        }
        assert(self.pixels@.take(self.pixels.len() as int) == self.pixels@);
        Canvas { width: self.width, height: self.height, pixels }
    }
}

/// The colour of the picture that stands for a failed download, at a
/// place: dark red, but a brighter red down the diagonal from the upper
/// left corner.
pub open spec fn error_color(x: int, y: int) -> Rgba {
    if x == y {
        Rgba { r: 200, g: 0, b: 0, a: 255 }
    } else {
        Rgba { r: 50, g: 0, b: 0, a: 255 }
    }
}

/// The colour at a place while the diagonal is drawn as far as column `done`.
spec fn drawn_color(x: int, y: int, done: int) -> Rgba {
    if x == y && x < done {
        Rgba { r: 200, g: 0, b: 0, a: 255 }
    } else {
        Rgba { r: 50, g: 0, b: 0, a: 255 }
    }
}

/// The picture that stands for a failed download.
pub open spec fn error_model(width: u32, height: u32) -> CanvasModel {
    CanvasModel {
        width,
        height,
        pixels: Seq::new(
            (width * height * 4) as nat,
            |i: int| channel(error_color((i / 4) % (width as int), (i / 4) / (width as int)), i),
        ),
    }
}

/// The picture that stands for a failed download, if one of this size can be held.
pub open spec fn error_picture(width: u32, height: u32) -> Result<CanvasModel, E2eFault> {
    if Canvas::fits(width, height) {
        Ok(error_model(width, height))
    } else {
        Err(fault("picture is too large"@))
    }
}

/// Two places of a picture have their bytes at different offsets.
proof fn lemma_pixels_apart(width: int, x: int, y: int, u: int, v: int)
    by (nonlinear_arith)
    requires
        0 <= x < width,
        0 <= u < width,
        0 <= y,
        0 <= v,
        x != u || y != v,
    ensures
        (y * width + x) * 4 + 4 <= (v * width + u) * 4 || (v * width + u) * 4 + 4 <= (y * width
            + x) * 4,
{
}

/// The offset of a place is within the bytes of the picture.
proof fn lemma_pixel_within(width: int, height: int, x: int, y: int)
    by (nonlinear_arith)
    requires
        0 <= x < width,
        0 <= y < height,
    ensures
        0 <= (y * width + x) * 4,
        (y * width + x) * 4 + 4 <= width * height * 4,
{
}

/// The place to which a byte of a picture belongs.
proof fn lemma_place_of_byte(width: int, height: int, i: int)
    requires
        0 <= i < width * height * 4,
        width > 0,
    ensures
        0 <= (i / 4) % width < width,
        0 <= (i / 4) / width < height,
        i == (((i / 4) / width) * width + (i / 4) % width) * 4 + i % 4,
{
    let p = i / 4;
    vstd::arithmetic::div_mod::lemma_fundamental_div_mod(p, width);
    vstd::arithmetic::div_mod::lemma_mod_bound(p, width);
    assert(p / width < height) by (nonlinear_arith)
        requires
            p == width * (p / width) + p % width,
            0 <= p % width,
            p < width * height,
            width > 0,
    ;
    assert((p / width) * width == width * (p / width)) by (nonlinear_arith);
}

/// The picture that stands for a download that failed.
pub fn error_image(width: u32, height: u32) -> (out: Result<Canvas, E2eError>)
    ensures
        result_model(out) == error_picture(width, height),
        out matches Ok(canvas) ==> canvas.wf(),
{
    let dark = Rgba { r: 50, g: 0, b: 0, a: 255 };
    let bright = Rgba { r: 200, g: 0, b: 0, a: 255 };
    let mut canvas = match solid(width, height, dark) {
        Ok(canvas) => canvas,
        Err(e) => {
            return Err(e);
        },
    };
    let side = if width < height {
        width
    } else {
        height
    };
    proof {
        assert forall|x: int, y: int| 0 <= x < width && 0 <= y < height implies #[trigger] canvas.has_pixel(
            x,
            y,
            drawn_color(x, y, 0),
        ) by {
            lemma_pixel_within(width as int, height as int, x, y);
            let k = y * width + x;
            let at = k * 4;
        }
    }
    let mut i: u32 = 0;
    while i < side
        invariant
            i <= side,
            side <= width,
            side <= height,
            canvas.wf(),
            canvas.width == width,
            canvas.height == height,
            bright == (Rgba { r: 200, g: 0, b: 0, a: 255 }),
            forall|x: int, y: int|
                0 <= x < width && 0 <= y < height ==> #[trigger] canvas.has_pixel(
                    x,
                    y,
                    drawn_color(x, y, i as int),
                ),
        decreases side - i,
    {
        let ghost before = canvas;
        canvas.put_pixel(i, i, bright);
        proof {
            assert forall|x: int, y: int| 0 <= x < width && 0 <= y < height implies #[trigger] canvas.has_pixel(
                x,
                y,
                drawn_color(x, y, i + 1),
            ) by {
                if x == i && y == i {
                } else {
                    lemma_pixels_apart(width as int, x, y, i as int, i as int);
                    lemma_pixel_within(width as int, height as int, x, y);
                    assert(before.has_pixel(x, y, drawn_color(x, y, i as int)));
                }
            }
        }
        i += 1;
    }
    proof {
        let model = error_model(width, height);
        assert forall|k: int| 0 <= k < canvas.pixels@.len() implies canvas.pixels@[k]
            == model.pixels[k] by {
            lemma_place_of_byte(width as int, height as int, k);
            let x = (k / 4) % (width as int);
            let y = (k / 4) / (width as int);
            assert(canvas.has_pixel(x, y, drawn_color(x, y, i as int)));
        }
        assert(canvas.pixels@ =~= model.pixels);
    }
    Ok(canvas)
}

/// The picture in a slot: the output of a node that is a picture with
/// exactly the bytes of its pixels.
pub open spec fn slot_picture(slot: SlotModel) -> Option<CanvasModel> {
    match slot {
        SlotModel::Output(NodeValue::Image(canvas)) => if canvas_wf(canvas) {
            Some(canvas)
        } else {
            None
        },
        _ => None,
    }
}

fn slot_image(slot: &Slot) -> (out: Option<&Canvas>)
    ensures
        match out {
            Some(canvas) => slot_picture(slot@) == Some(canvas@) && canvas.wf(),
            None => slot_picture(slot@) is None,
        },
{
    match slot {
        Slot::Output(NodeOutput::Image(canvas)) => if is_well_formed(canvas) {
            Some(canvas)
        } else {
            None
        },
        _ => None,
    }
}

/// The picture that the host handed back, if it handed back one with
/// exactly the bytes of its pixels.
pub open spec fn answered_picture(slot: SlotModel) -> Result<CanvasModel, E2eFault> {
    match slot {
        SlotModel::Answer(EventModel::Image(canvas)) => if canvas_wf(canvas) {
            Ok(canvas)
        } else {
            Err(fault("the host handed back a picture that is not well formed"@))
        },
        _ => Err(fault("the host handed back something else than a picture"@)),
    }
}

fn answered_image(slot: &Slot) -> (out: Result<Canvas, E2eError>)
    ensures
        result_model(out) == answered_picture(slot@),
        out matches Ok(canvas) ==> canvas.wf(),
{
    match slot {
        Slot::Answer(Event::Image(canvas)) => if is_well_formed(canvas) {
            Ok(canvas.clone_canvas())
        } else {
            invalid("the host handed back a picture that is not well formed")
        },
        _ => invalid("the host handed back something else than a picture"),
    }
}

/// The picture in a slot, or a black one of this size.
pub open spec fn picture_or_default(slot: SlotModel, width: u32, height: u32) -> Result<
    CanvasModel,
    E2eFault,
> {
    match slot_picture(slot) {
        Some(canvas) => Ok(canvas),
        None => solid_picture(width, height, black()),
    }
}

fn image_or_default(slot: &Slot, width: u32, height: u32) -> (out: Result<Canvas, E2eError>)
    ensures
        result_model(out) == picture_or_default(slot@, width, height),
        out matches Ok(canvas) ==> canvas.wf(),
{
    match slot_image(slot) {
        Some(canvas) => Ok(canvas.clone_canvas()),
        None => solid(width, height, Rgba { r: 0, g: 0, b: 0, a: 255 }),
    }
}

/// The decision to ask along the wire that enters a port, or to pass the port over.
pub open spec fn need_along_in(scene: &E2eScene, id: Seq<char>, port: Seq<char>, width: u32, height: u32) -> DecisionModel {
    match edge_into(scene.edge_list(), id, port) {
        Some(e) => DecisionModel::Need { id: scene.edge_list()[e].source@, width, height },
        None => DecisionModel::Skip,
    }
}

/// The decision to ask along the wire that leaves a port, or to pass the port over.
pub open spec fn need_along_out(scene: &E2eScene, id: Seq<char>, port: Seq<char>, width: u32, height: u32) -> DecisionModel {
    match edge_from(scene.edge_list(), id, port) {
        Some(e) => DecisionModel::Need { id: scene.edge_list()[e].target@, width, height },
        None => DecisionModel::Skip,
    }
}

fn need_input(scene: &E2eScene, node: &SceneNode, port: &str, width: u32, height: u32) -> (out:
    Decision)
    ensures
        out@ == need_along_in(scene, node.id@, port@, width, height),
{
    match find_edge_into(scene.edges(), node.id.as_str(), port) {
        Some(e) => Decision::Need { id: scene.edges()[e].source.clone(), width, height },
        None => Decision::Skip,
    }
}

fn need_output(scene: &E2eScene, node: &SceneNode, port: &str, width: u32, height: u32) -> (out:
    Decision)
    ensures
        out@ == need_along_out(scene, node.id@, port@, width, height),
{
    match find_edge_from(scene.edges(), node.id.as_str(), port) {
        Some(e) => Decision::Need { id: scene.edges()[e].target.clone(), width, height },
        None => Decision::Skip,
    }
}

/// The decision that a node is done with a picture, or has failed.
pub open spec fn done_picture(canvas: Result<CanvasModel, E2eFault>) -> DecisionModel {
    match canvas {
        Ok(canvas) => DecisionModel::Done(Ok(NodeValue::Image(canvas))),
        Err(e) => DecisionModel::Done(Err(e)),
    }
}

fn done_image(canvas: Result<Canvas, E2eError>) -> (out: Decision)
    ensures
        out@ == done_picture(result_model(canvas)),
{
    match canvas {
        Ok(canvas) => Decision::Done(Ok(NodeOutput::Image(canvas))),
        Err(e) => Decision::Done(Err(e)),
    }
}

/// Where a picture of one length begins on a line of another so that it
/// stands in the middle; at the start of the line where it is the longer one.
pub open spec fn centred(outer: u32, inner: u32) -> int {
    if outer >= inner {
        (outer - inner) / 2
    } else {
        0
    }
}

fn centre(outer: u32, inner: u32) -> (out: i64)
    ensures
        out == centred(outer, inner),
{
    if outer >= inner {
        ((outer - inner) / 2) as i64
    } else {
        0
    }
}

/// One picture laid over another, keeping the size of the lower one.
pub open spec fn laid_over(bottom: CanvasModel, top: CanvasModel, x: int, y: int) -> CanvasModel {
    CanvasModel { width: bottom.width, height: bottom.height, pixels: overlaid(bottom, top, x, y) }
}

/// One picture laid over the middle of another.
pub open spec fn laid_centred(bottom: CanvasModel, top: CanvasModel) -> CanvasModel {
    laid_over(bottom, top, centred(bottom.width, top.width), centred(bottom.height, top.height))
}

/// The bytes of a picture that was scaled, or none where it was not.
pub open spec fn pixels_of(scaled: Result<Canvas, E2eError>) -> Seq<u8> {
    match scaled {
        Ok(canvas) => canvas.pixels@,
        Err(_) => Seq::empty(),
    }
}

/// A picture stretched to exactly this size, if there is room to scale
/// it. `scaled` are the bytes that the scaling came to: they are for the
/// machine to say, the size is not.
pub open spec fn stretched_picture(source: CanvasModel, width: u32, height: u32, scaled: Seq<u8>) -> Result<
    CanvasModel,
    E2eFault,
> {
    if Canvas::can_scale(source.width, width, height) {
        Ok(CanvasModel { width, height, pixels: scaled })
    } else {
        Err(fault("picture is too large"@))
    }
}

fn stretch(source: &Canvas, width: u32, height: u32) -> (out: Result<Canvas, E2eError>)
    requires
        source.wf(),
    ensures
        result_model(out) == stretched_picture(source@, width, height, pixels_of(out)),
        out matches Ok(canvas) ==> canvas.wf(),
{
    if Canvas::scales(source.width, width, height) {
        Ok(resize_exact(source, width, height))
    } else {
        invalid("picture is too large")
    }
}

/// A picture scaled to fit a box, with its proportions kept, if there is
/// room to scale it. `scaled` are the bytes that the scaling came to.
pub open spec fn fitted_picture(source: CanvasModel, width: u32, height: u32, scaled: Seq<u8>) -> Result<
    CanvasModel,
    E2eFault,
> {
    if Canvas::can_scale(source.width, at_least_one(width), at_least_one(height)) {
        Ok(
            CanvasModel {
                width: fitted_size(source.width, source.height, width, height).0,
                height: fitted_size(source.width, source.height, width, height).1,
                pixels: scaled,
            },
        )
    } else {
        Err(fault("picture is too large"@))
    }
}

fn fit(source: &Canvas, width: u32, height: u32) -> (out: Result<Canvas, E2eError>)
    requires
        source.wf(),
    ensures
        result_model(out) == fitted_picture(source@, width, height, pixels_of(out)),
        out matches Ok(canvas) ==> canvas.wf(),
{
    let w = if width < 1 {
        1
    } else {
        width
    };
    let h = if height < 1 {
        1
    } else {
        height
    };
    if Canvas::scales(source.width, w, h) {
        Ok(resize_fit(source, width, height))
    } else {
        invalid("picture is too large")
    }
}

/// The box that the host handed back, if it handed back one.
pub open spec fn answered_bounds(slot: SlotModel) -> Result<(u32, u32), E2eFault> {
    match slot {
        SlotModel::Answer(EventModel::Bounds { width, height }) => Ok((width, height)),
        _ => Err(fault("the host handed back something else than a box"@)),
    }
}

fn answered_box(slot: &Slot) -> (out: Result<(u32, u32), E2eError>)
    ensures
        match out {
            Ok(sides) => answered_bounds(slot@) == Ok::<(u32, u32), E2eFault>(sides),
            Err(e) => answered_bounds(slot@) == Err::<(u32, u32), E2eFault>(e@),
        },
{
    match slot {
        Slot::Answer(Event::Bounds { width, height }) => Ok((*width, *height)),
        _ => invalid("the host handed back something else than a box"),
    }
}

fn lay_over(bottom: Canvas, top: &Canvas, x: i64, y: i64) -> (out: Canvas)
    requires
        bottom.wf(),
        top.wf(),
    ensures
        out.wf(),
        out@ == laid_over(bottom@, top@, x as int, y as int),
{
    overlay(bottom, top, x, y)
}

fn lay_centred(bottom: Canvas, top: &Canvas) -> (out: Canvas)
    requires
        bottom.wf(),
        top.wf(),
    ensures
        out.wf(),
        out@ == laid_centred(bottom@, top@),
{
    let x = centre(bottom.width, top.width);
    let y = centre(bottom.height, top.height);
    overlay(bottom, top, x, y)
}

/// White, and opaque.
pub open spec fn white() -> Rgba {
    Rgba { r: 255, g: 255, b: 255, a: 255 }
}

/// Black, and not opaque at all.
pub open spec fn clear() -> Rgba {
    Rgba { r: 0, g: 0, b: 0, a: 0 }
}

/// The failure of a node that was handed more than it asked for.
pub open spec fn overfull() -> DecisionModel {
    DecisionModel::Done(Err(fault("a node gathered more than it asked for"@)))
}

/// The failure of a node.
pub open spec fn done_fault(e: E2eFault) -> DecisionModel {
    DecisionModel::Done(Err(e))
}

/// A node that paints a picture of the size at which it is wanted, in the
/// colour of its setting `color`.
pub open spec fn color_decision(config: Map<Seq<char>, JsonModel>, frame: FrameModel) -> DecisionModel {
    done_picture(
        solid_picture(
            frame.width,
            frame.height,
            color_or(setting_text(config, "color"@, "#000000"@), black()),
        ),
    )
}

fn decide_color(node: &SceneNode, frame: &Frame) -> (out: Decision)
    ensures
        out@ == color_decision(node.config@, frame@),
{
    let color = color_of(
        config_string(&node.config, "color", "#000000").as_str(),
        Rgba { r: 0, g: 0, b: 0, a: 255 },
    );
    done_image(solid(frame.width, frame.height, color))
}

/// A node whose picture the host paints: it asks for it, and is done with
/// what the host hands back.
pub open spec fn painted(frame: FrameModel, action: ActionModel) -> DecisionModel {
    if frame.slots.len() > 1 {
        overfull()
    } else if frame.slots.len() == 0 {
        DecisionModel::Perform(action)
    } else {
        done_picture(answered_picture(frame.slots[0]))
    }
}

fn decide_painted(frame: &Frame, action: Action) -> (out: Decision)
    ensures
        out@ == painted(frame@, action@),
{
    if frame.slots.len() > 1 {
        Decision::Done(invalid("a node gathered more than it asked for"))
    } else if frame.slots.len() == 0 {
        Decision::Perform(action)
    } else {
        done_image(answered_image(&frame.slots[0]))
    }
}

/// A gradient from the setting `startColor`, else black, to `endColor`, else white.
pub open spec fn gradient_decision(config: Map<Seq<char>, JsonModel>, frame: FrameModel) -> DecisionModel {
    painted(
        frame,
        ActionModel::Gradient {
            width: frame.width,
            height: frame.height,
            start: color_or(setting_text(config, "startColor"@, "#000000"@), black()),
            end: color_or(setting_text(config, "endColor"@, "#FFFFFF"@), white()),
            config,
        },
    )
}

fn decide_gradient(node: &SceneNode, frame: &Frame) -> (out: Decision)
    ensures
        out@ == gradient_decision(node.config@, frame@),
{
    let start = color_of(
        config_string(&node.config, "startColor", "#000000").as_str(),
        Rgba { r: 0, g: 0, b: 0, a: 255 },
    );
    let end = color_of(
        config_string(&node.config, "endColor", "#FFFFFF").as_str(),
        Rgba { r: 255, g: 255, b: 255, a: 255 },
    );
    decide_painted(
        frame,
        Action::Gradient {
            width: frame.width,
            height: frame.height,
            start,
            end,
            config: node.config.clone(),
        },
    )
}

/// A new picture of the settings `width` and `height`, else of the size
/// at which the node is wanted, in the colour of the setting `color`.
pub open spec fn new_image_decision(config: Map<Seq<char>, JsonModel>, frame: FrameModel) -> DecisionModel {
    painted(
        frame,
        ActionModel::NewImage {
            width: setting_u32(config, "width"@, frame.width as int) as u32,
            height: setting_u32(config, "height"@, frame.height as int) as u32,
            color: color_or(setting_text(config, "color"@, "#000000"@), black()),
            config,
        },
    )
}

fn decide_new_image(node: &SceneNode, frame: &Frame) -> (out: Decision)
    ensures
        out@ == new_image_decision(node.config@, frame@),
{
    let width = config_u32(&node.config, "width", frame.width);
    let height = config_u32(&node.config, "height", frame.height);
    let color = color_of(
        config_string(&node.config, "color", "#000000").as_str(),
        Rgba { r: 0, g: 0, b: 0, a: 255 },
    );
    decide_painted(frame, Action::NewImage { width, height, color, config: node.config.clone() })
}

/// `text` without every `prefix` that stands at its front.
pub open spec fn without_leading(text: Seq<char>, prefix: Seq<char>) -> Seq<char>
    decreases text.len(),
{
    if prefix.len() > 0 && prefix.is_prefix_of(text) {
        without_leading(text.skip(prefix.len() as int), prefix)
    } else {
        text
    }
}

fn strip_leading(text: &str, prefix: &str) -> (out: String)
    ensures
        out@ == without_leading(text@, prefix@),
{
    let mut rest = text.to_owned();
    if prefix.unicode_len() == 0 {
        return rest;
    }
    loop
        invariant
            prefix@.len() > 0,
            without_leading(rest@, prefix@) == without_leading(text@, prefix@),
        decreases rest@.len(),
    {
        match strip_prefix(rest.as_str(), prefix) {
            Some(shorter) => {
                rest = shorter;
            },
            None => {
                return rest;
            },
        }
    }
}

/// The path of an asset below the directory of the assets: the path as it
/// is written, without `./`, `/assets/` and `assets/` at its front.
pub open spec fn asset_path(path: Seq<char>) -> Seq<char> {
    without_leading(without_leading(without_leading(path, "./"@), "/assets/"@), "assets/"@)
}

/// A picture from the assets: the node asks the host to load it, and
/// fails as the loading did.
pub open spec fn local_image_decision(config: Map<Seq<char>, JsonModel>, frame: FrameModel) -> DecisionModel {
    match member_str(config, "path"@) {
        None => done_fault(fault("data/localImage requires path"@)),
        Some(path) => if frame.slots.len() == 0 {
            DecisionModel::Perform(ActionModel::LoadLocal { path: asset_path(path) })
        } else {
            match frame.slots[0] {
                SlotModel::Answer(EventModel::Loaded(Ok(canvas))) => DecisionModel::Done(
                    Ok(NodeValue::Image(canvas)),
                ),
                SlotModel::Answer(EventModel::Loaded(Err(why))) => done_fault(E2eFault::Image(why)),
                _ => done_fault(
                    fault("the host handed back something else than a loaded picture"@),
                ),
            }
        },
    }
}

fn decide_local_image(node: &SceneNode, frame: &Frame) -> (out: Decision)
    ensures
        out@ == local_image_decision(node.config@, frame@),
{
    let path = match node.config.get_str("path") {
        Some(path) => path,
        None => {
            return Decision::Done(invalid("data/localImage requires path"));
        },
    };
    if frame.slots.len() == 0 {
        let a = strip_leading(path, "./");
        let b = strip_leading(a.as_str(), "/assets/");
        let c = strip_leading(b.as_str(), "assets/");
        return Decision::Perform(Action::LoadLocal { path: c });
    }
    match &frame.slots[0] {
        Slot::Answer(Event::Loaded(Ok(canvas))) => Decision::Done(
            Ok(NodeOutput::Image(canvas.clone_canvas())),
        ),
        Slot::Answer(Event::Loaded(Err(why))) => Decision::Done(Err(E2eError::Image(why.clone()))),
        _ => Decision::Done(invalid("the host handed back something else than a loaded picture")),
    }
}

/// A picture at another size. The size is that of the settings `width`
/// and `height`, else that of the picture. The setting `scalingMode` says
/// how: `stretch` to exactly that size; `cover` to fit the box that the
/// host works out; `center`, the picture as it is in the middle of an
/// empty one; else so that the size contains it. `scaled` are the bytes
/// that the scaling comes to, where the node scales.
pub open spec fn resize_decision(
    scene: &E2eScene,
    id: Seq<char>,
    config: Map<Seq<char>, JsonModel>,
    frame: FrameModel,
    scaled: Seq<u8>,
) -> DecisionModel {
    if frame.slots.len() == 0 {
        need_along_in(scene, id, "fieldInput/image"@, frame.width, frame.height)
    } else {
        match picture_or_default(frame.slots[0], frame.width, frame.height) {
            Err(e) => done_fault(e),
            Ok(source) => {
                let width = setting_u32(config, "width"@, source.width as int) as u32;
                let height = setting_u32(config, "height"@, source.height as int) as u32;
                let mode = setting_text(config, "scalingMode"@, "contain"@);
                if mode == "stretch"@ {
                    done_picture(stretched_picture(source, width, height, scaled))
                } else if mode == "cover"@ {
                    if frame.slots.len() == 1 {
                        DecisionModel::Perform(
                            ActionModel::Bounds {
                                source_width: source.width,
                                source_height: source.height,
                                width,
                                height,
                                cover: true,
                                at_least_one: false,
                            },
                        )
                    } else {
                        match answered_bounds(frame.slots[1]) {
                            Err(e) => done_fault(e),
                            Ok(sides) => done_picture(
                                fitted_picture(source, sides.0, sides.1, scaled),
                            ),
                        }
                    }
                } else if mode == "center"@ {
                    match solid_picture(width, height, clear()) {
                        Err(e) => done_fault(e),
                        Ok(empty) => done_picture(Ok(laid_centred(empty, source))),
                    }
                } else {
                    done_picture(fitted_picture(source, width, height, scaled))
                }
            },
        }
    }
}

fn decide_resize(scene: &E2eScene, node: &SceneNode, frame: &Frame) -> (out: (
    Decision,
    Ghost<Seq<u8>>,
))
    ensures
        out.0@ == resize_decision(scene, node.id@, node.config@, frame@, out.1@),
{
    let none: Ghost<Seq<u8>> = Ghost(Seq::empty());
    if frame.slots.len() == 0 {
        return (need_input(scene, node, "fieldInput/image", frame.width, frame.height), none);
    }
    let source = match image_or_default(&frame.slots[0], frame.width, frame.height) {
        Ok(source) => source,
        Err(e) => {
            return (Decision::Done(Err(e)), none);
        },
    };
    let width = config_u32(&node.config, "width", source.width);
    let height = config_u32(&node.config, "height", source.height);
    let mode = config_string(&node.config, "scalingMode", "contain");
    if same_text(mode.as_str(), "stretch") {
        let scaled = stretch(&source, width, height);
        let bytes: Ghost<Seq<u8>> = Ghost(pixels_of(scaled));
        (done_image(scaled), bytes)
    } else if same_text(mode.as_str(), "cover") {
        if frame.slots.len() == 1 {
            (
                Decision::Perform(
                    Action::Bounds {
                        source_width: source.width,
                        source_height: source.height,
                        width,
                        height,
                        cover: true,
                        at_least_one: false,
                    },
                ),
                none,
            )
        } else {
            match answered_box(&frame.slots[1]) {
                Ok(sides) => {
                    let scaled = fit(&source, sides.0, sides.1);
                    let bytes: Ghost<Seq<u8>> = Ghost(pixels_of(scaled));
                    (done_image(scaled), bytes)
                },
                Err(e) => (Decision::Done(Err(e)), none),
            }
        }
    } else if same_text(mode.as_str(), "center") {
        let empty = match solid(width, height, Rgba { r: 0, g: 0, b: 0, a: 0 }) {
            Ok(empty) => empty,
            Err(e) => {
                return (Decision::Done(Err(e)), none);
            },
        };
        (done_image(Ok(lay_centred(empty, &source))), none)
    } else {
        let scaled = fit(&source, width, height);
        let bytes: Ghost<Seq<u8>> = Ghost(pixels_of(scaled));
        (done_image(scaled), bytes)
    }
}

/// The picture that a composite lays onto its target: the one wired to
/// `image`, else the one wired to `inputImage`, else a black one.
pub open spec fn composite_source(frame: FrameModel) -> Result<CanvasModel, E2eFault> {
    match slot_picture(frame.slots[1]) {
        Some(canvas) => Ok(canvas),
        None => picture_or_default(frame.slots[2], frame.width, frame.height),
    }
}

/// Whether a picture is no larger than another, a side of 0 counted as 1.
pub open spec fn within(inner: CanvasModel, outer: CanvasModel) -> bool {
    inner.width <= at_least_one(outer.width) && inner.height <= at_least_one(outer.height)
}

/// A picture scaled for a composite to fit the box that the host worked
/// out. Scaled so that the target contains it, it may not be larger than
/// the target. `scaled` are the bytes that the scaling came to.
pub open spec fn scaled_for(
    source: CanvasModel,
    target: CanvasModel,
    sides: (u32, u32),
    cover: bool,
    scaled: Seq<u8>,
) -> Result<CanvasModel, E2eFault> {
    match fitted_picture(source, sides.0, sides.1, scaled) {
        Err(e) => Err(e),
        Ok(scaled) => if !cover && !within(scaled, target) {
            Err(fault("a picture was scaled past the box that has to contain it"@))
        } else {
            Ok(scaled)
        },
    }
}

/// One picture laid onto the middle of another, or the failure to make it.
pub open spec fn laid_onto(target: CanvasModel, top: Result<CanvasModel, E2eFault>) -> DecisionModel {
    match top {
        Err(e) => done_fault(e),
        Ok(top) => done_picture(Ok(laid_centred(target, top))),
    }
}

/// One picture in the middle of another. The target is what the wire
/// `next` brings, else a black picture. The setting `placement` says how
/// the picture is scaled before: `cover` and `contain` to fit the box that
/// the host works out, keeping the proportions; `stretch` to exactly the
/// size of the target; else not at all. `scaled` are the bytes that the
/// scaling comes to, where the node scales.
pub open spec fn composite_decision(
    scene: &E2eScene,
    id: Seq<char>,
    config: Map<Seq<char>, JsonModel>,
    frame: FrameModel,
    scaled: Seq<u8>,
) -> DecisionModel {
    let n = frame.slots.len();
    if n == 0 {
        need_along_out(scene, id, "next"@, frame.width, frame.height)
    } else if n == 1 {
        need_along_in(scene, id, "fieldInput/image"@, frame.width, frame.height)
    } else if n == 2 {
        need_along_in(scene, id, "fieldInput/inputImage"@, frame.width, frame.height)
    } else if frame.slots[1] is Missing && frame.slots[2] is Missing {
        done_fault(fault("render/image requires an image input"@))
    } else {
        match picture_or_default(frame.slots[0], frame.width, frame.height) {
            Err(e) => done_fault(e),
            Ok(target) => match composite_source(frame) {
                Err(e) => done_fault(e),
                Ok(source) => {
                    let placement = setting_text(config, "placement"@, "center"@);
                    if placement == "cover"@ || placement == "contain"@ {
                        if n == 3 {
                            DecisionModel::Perform(
                                ActionModel::Bounds {
                                    source_width: source.width,
                                    source_height: source.height,
                                    width: target.width,
                                    height: target.height,
                                    cover: placement == "cover"@,
                                    at_least_one: true,
                                },
                            )
                        } else {
                            match answered_bounds(frame.slots[3]) {
                                Err(e) => done_fault(e),
                                Ok(sides) => laid_onto(
                                    target,
                                    scaled_for(source, target, sides, placement == "cover"@, scaled),
                                ),
                            }
                        }
                    } else if placement == "stretch"@ {
                        laid_onto(
                            target,
                            stretched_picture(source, target.width, target.height, scaled),
                        )
                    } else {
                        done_picture(Ok(laid_centred(target, source)))
                    }
                },
            },
        }
    }
}

fn scale_for(source: &Canvas, sides: (u32, u32), cover: bool, width: u32, height: u32) -> (out:
    Result<Canvas, E2eError>)
    requires
        source.wf(),
    ensures
        forall|target: CanvasModel|
            target.width == width && target.height == height ==> result_model(out) == scaled_for(
                source@,
                target,
                sides,
                cover,
                pixels_of(out),
            ),
        out matches Ok(canvas) ==> canvas.wf(),
{
    let scaled = match fit(source, sides.0, sides.1) {
        Ok(scaled) => scaled,
        Err(e) => {
            return Err(e);
        },
    };
    let widest = if width < 1 {
        1
    } else {
        width
    };
    let highest = if height < 1 {
        1
    } else {
        height
    };
    if !cover && (scaled.width > widest || scaled.height > highest) {
        invalid("a picture was scaled past the box that has to contain it")
    } else {
        Ok(scaled)
    }
}

fn lay_onto(target: Canvas, top: Result<Canvas, E2eError>) -> (out: Decision)
    requires
        target.wf(),
        top matches Ok(canvas) ==> canvas.wf(),
    ensures
        out@ == laid_onto(target@, result_model(top)),
{
    match top {
        Ok(top) => done_image(Ok(lay_centred(target, &top))),
        Err(e) => Decision::Done(Err(e)),
    }
}

fn decide_composite(scene: &E2eScene, node: &SceneNode, frame: &Frame) -> (out: (
    Decision,
    Ghost<Seq<u8>>,
))
    ensures
        out.0@ == composite_decision(scene, node.id@, node.config@, frame@, out.1@),
{
    let none: Ghost<Seq<u8>> = Ghost(Seq::empty());
    let n = frame.slots.len();
    if n == 0 {
        return (need_output(scene, node, "next", frame.width, frame.height), none);
    }
    if n == 1 {
        return (need_input(scene, node, "fieldInput/image", frame.width, frame.height), none);
    }
    if n == 2 {
        return (need_input(scene, node, "fieldInput/inputImage", frame.width, frame.height), none);
    }
    if matches!(frame.slots[1], Slot::Missing) && matches!(frame.slots[2], Slot::Missing) {
        return (Decision::Done(invalid("render/image requires an image input")), none);
    }
    let target = match image_or_default(&frame.slots[0], frame.width, frame.height) {
        Ok(target) => target,
        Err(e) => {
            return (Decision::Done(Err(e)), none);
        },
    };
    let source = match slot_image(&frame.slots[1]) {
        Some(canvas) => canvas.clone_canvas(),
        None => match image_or_default(&frame.slots[2], frame.width, frame.height) {
            Ok(canvas) => canvas,
            Err(e) => {
                return (Decision::Done(Err(e)), none);
            },
        },
    };
    let placement = config_string(&node.config, "placement", "center");
    let cover = same_text(placement.as_str(), "cover");
    if cover || same_text(placement.as_str(), "contain") {
        if n == 3 {
            return (
                Decision::Perform(
                    Action::Bounds {
                        source_width: source.width,
                        source_height: source.height,
                        width: target.width,
                        height: target.height,
                        cover,
                        at_least_one: true,
                    },
                ),
                none,
            );
        }
        let sides = match answered_box(&frame.slots[3]) {
            Ok(sides) => sides,
            Err(e) => {
                return (Decision::Done(Err(e)), none);
            },
        };
        let scaled = scale_for(&source, sides, cover, target.width, target.height);
        let bytes: Ghost<Seq<u8>> = Ghost(pixels_of(scaled));
        (lay_onto(target, scaled), bytes)
    } else if same_text(placement.as_str(), "stretch") {
        let scaled = stretch(&source, target.width, target.height);
        let bytes: Ghost<Seq<u8>> = Ghost(pixels_of(scaled));
        (lay_onto(target, scaled), bytes)
    } else {
        (done_image(Ok(lay_centred(target, &source))), none)
    }
}

/// The text that a node writes: what is wired to its port `text`, a truth
/// value as `true` or `false`, nothing for a picture; without a wire, its
/// setting `text`.
pub open spec fn shown_text(slot: SlotModel, config: Map<Seq<char>, JsonModel>) -> Seq<char> {
    match slot {
        SlotModel::Output(NodeValue::Text(text)) => text,
        SlotModel::Output(NodeValue::Bool(value)) => if value {
            "true"@
        } else {
            "false"@
        },
        SlotModel::Output(NodeValue::Image(_)) => Seq::empty(),
        _ => setting_text(config, "text"@, ""@),
    }
}

/// A text on a picture: the picture wired to `inputImage`, else a black
/// one. The host writes the text; with no text the picture stays as it is.
pub open spec fn text_decision(
    scene: &E2eScene,
    id: Seq<char>,
    config: Map<Seq<char>, JsonModel>,
    frame: FrameModel,
) -> DecisionModel {
    let n = frame.slots.len();
    if n == 0 {
        need_along_in(scene, id, "fieldInput/inputImage"@, frame.width, frame.height)
    } else if n == 1 {
        need_along_in(scene, id, "fieldInput/text"@, frame.width, frame.height)
    } else {
        match picture_or_default(frame.slots[0], frame.width, frame.height) {
            Err(e) => done_fault(e),
            Ok(image) => {
                let text = shown_text(frame.slots[1], config);
                if text.len() == 0 {
                    done_picture(Ok(image))
                } else if n == 2 {
                    DecisionModel::Perform(ActionModel::Text { image, text, config })
                } else {
                    done_picture(answered_picture(frame.slots[2]))
                }
            },
        }
    }
}

fn decide_text(scene: &E2eScene, node: &SceneNode, frame: &Frame) -> (out: Decision)
    ensures
        out@ == text_decision(scene, node.id@, node.config@, frame@),
{
    let n = frame.slots.len();
    if n == 0 {
        return need_input(scene, node, "fieldInput/inputImage", frame.width, frame.height);
    }
    if n == 1 {
        return need_input(scene, node, "fieldInput/text", frame.width, frame.height);
    }
    let image = match image_or_default(&frame.slots[0], frame.width, frame.height) {
        Ok(image) => image,
        Err(e) => {
            return Decision::Done(Err(e));
        },
    };
    let text: String = match &frame.slots[1] {
        Slot::Output(NodeOutput::Text(text)) => text.clone(),
        Slot::Output(NodeOutput::Bool(value)) => if *value {
            "true".to_owned()
        } else {
            "false".to_owned()
        },
        Slot::Output(NodeOutput::Image(_)) => String::new(),
        _ => config_string(&node.config, "text", ""),
    };
    if text.as_str().unicode_len() == 0 {
        return Decision::Done(Ok(NodeOutput::Image(image)));
    }
    if n == 2 {
        return Decision::Perform(Action::Text { image, text, config: node.config.clone() });
    }
    done_image(answered_image(&frame.slots[2]))
}

/// A picture made less opaque, which the host does: the picture wired to
/// `image`, else a black one.
pub open spec fn opacity_decision(
    scene: &E2eScene,
    id: Seq<char>,
    config: Map<Seq<char>, JsonModel>,
    frame: FrameModel,
) -> DecisionModel {
    let n = frame.slots.len();
    if n == 0 {
        need_along_in(scene, id, "fieldInput/image"@, frame.width, frame.height)
    } else if n == 1 {
        match picture_or_default(frame.slots[0], frame.width, frame.height) {
            Err(e) => done_fault(e),
            Ok(image) => DecisionModel::Perform(ActionModel::Opacity { image, config }),
        }
    } else {
        done_picture(answered_picture(frame.slots[1]))
    }
}

fn decide_opacity(scene: &E2eScene, node: &SceneNode, frame: &Frame) -> (out: Decision)
    ensures
        out@ == opacity_decision(scene, node.id@, node.config@, frame@),
{
    let n = frame.slots.len();
    if n == 0 {
        return need_input(scene, node, "fieldInput/image", frame.width, frame.height);
    }
    if n == 1 {
        let image = match image_or_default(&frame.slots[0], frame.width, frame.height) {
            Ok(image) => image,
            Err(e) => {
                return Decision::Done(Err(e));
            },
        };
        return Decision::Perform(Action::Opacity { image, config: node.config.clone() });
    }
    done_image(answered_image(&frame.slots[1]))
}

/// The picture of a code in two colours: a pixel is dark where the shade
/// of grey that was drawn for it is below 128.
pub open spec fn coloured(picture: GreyModel, dark: Rgba, light: Rgba) -> Result<CanvasModel, E2eFault> {
    if Canvas::fits(picture.width, picture.height) {
        Ok(
            CanvasModel {
                width: picture.width,
                height: picture.height,
                pixels: Seq::new(
                    4 * picture.shades.len(),
                    |i: int|
                        channel(
                            if picture.shades[i / 4] < 128 {
                                dark
                            } else {
                                light
                            },
                            i,
                        ),
                ),
            },
        )
    } else {
        Err(fault("picture is too large"@))
    }
}

fn colour_code(picture: &GreyImage, dark: Rgba, light: Rgba) -> (out: Result<Canvas, E2eError>)
    requires
        picture.shades@.len() == picture.width * picture.height,
    ensures
        result_model(out) == coloured(picture@, dark, light),
        out matches Ok(canvas) ==> canvas.wf(),
{
    if !Canvas::size_fits(picture.width, picture.height) {
        return invalid("picture is too large");
    }
    let ghost model = coloured(picture@, dark, light)->Ok_0;
    let mut pixels: Vec<u8> = Vec::new();
    let mut i: usize = 0;
    while i < picture.shades.len()
        invariant
            i <= picture.shades.len(),
            pixels@.len() == 4 * i,
            model == coloured(picture@, dark, light)->Ok_0,
            Canvas::fits(picture.width, picture.height),
            forall|j: int| 0 <= j < pixels@.len() ==> pixels@[j] == model.pixels[j],
        decreases picture.shades.len() - i,
    {
        let color = if picture.shades[i] < 128 {
            dark
        } else {
            light
        };
        pixels.push(color.r);
        pixels.push(color.g);
        pixels.push(color.b);
        pixels.push(color.a);
        i += 1;
    }
    assert(pixels@ =~= model.pixels);
    Ok(Canvas { width: picture.width, height: picture.height, pixels })
}

/// The side of the square that a code is drawn to fit: the setting
/// `size`, else 180, but 32 at least.
pub open spec fn code_size(config: Map<Seq<char>, JsonModel>) -> u32 {
    let asked = setting_u32(config, "size"@, 180) as u32;
    if asked < 32 {
        32
    } else {
        asked
    }
}

/// The QR code of the setting `code` in the colours of the settings
/// `qrCodeColor`, else black, and `backgroundColor`, else white. Where the
/// text makes no code, a black picture.
pub open spec fn qr_decision(config: Map<Seq<char>, JsonModel>, frame: FrameModel) -> DecisionModel {
    let code = setting_text(config, "code"@, "frameos"@);
    let dark = color_or(setting_text(config, "qrCodeColor"@, "#000000"@), black());
    let light = color_or(setting_text(config, "backgroundColor"@, "#ffffff"@), white());
    if code_size(config) * code_size(config) > isize::MAX {
        done_fault(fault("picture is too large"@))
    } else {
        match qr_picture(encode_utf8(code), code_size(config)) {
            Some(picture) => done_picture(coloured(picture, dark, light)),
            None => done_picture(solid_picture(frame.width, frame.height, black())),
        }
    }
}

fn decide_qr(node: &SceneNode, frame: &Frame) -> (out: Decision)
    ensures
        out@ == qr_decision(node.config@, frame@),
{
    let code = config_string(&node.config, "code", "frameos");
    let asked = config_u32(&node.config, "size", 180);
    let size = if asked < 32 {
        32
    } else {
        asked
    };
    let dark = color_of(
        config_string(&node.config, "qrCodeColor", "#000000").as_str(),
        Rgba { r: 0, g: 0, b: 0, a: 255 },
    );
    let light = color_of(
        config_string(&node.config, "backgroundColor", "#ffffff").as_str(),
        Rgba { r: 255, g: 255, b: 255, a: 255 },
    );
    assert(0 <= size * size <= 0xffff_fffe_0000_0001) by (nonlinear_arith)
        requires
            0 <= size <= 0xffff_ffff,
    ;
    if (size as u128) * (size as u128) > isize::MAX as u128 {
        return Decision::Done(invalid("picture is too large"));
    }
    match qr_code(code.as_str().as_bytes(), size) {
        Some(picture) => done_image(colour_code(&picture, dark, light)),
        None => done_image(solid(frame.width, frame.height, Rgba { r: 0, g: 0, b: 0, a: 255 })),
    }
}

/// Whether an address begins as one of the web does.
pub open spec fn is_web_address(url: Seq<char>) -> bool {
    "http://"@.is_prefix_of(url) || "https://"@.is_prefix_of(url)
}

fn web_address(url: &str) -> (out: bool)
    ensures
        out == is_web_address(url@),
{
    starts_with(url, "http://") || starts_with(url, "https://")
}

/// A picture from the web. An address that is none of the web, and a
/// download that fails, come to the picture that stands for a failure.
pub open spec fn download_image_decision(config: Map<Seq<char>, JsonModel>, frame: FrameModel) -> DecisionModel {
    let url = setting_text(config, "url"@, ""@);
    if !is_web_address(url) {
        done_picture(error_picture(frame.width, frame.height))
    } else if frame.slots.len() == 0 {
        DecisionModel::Perform(ActionModel::DownloadImage { url })
    } else {
        match frame.slots[0] {
            SlotModel::Answer(EventModel::Download(DownloadModel::Image(canvas))) => DecisionModel::Done(
                Ok(NodeValue::Image(canvas)),
            ),
            SlotModel::Answer(EventModel::Download(_)) => done_picture(
                error_picture(frame.width, frame.height),
            ),
            _ => done_fault(fault("the host handed back something else than a download"@)),
        }
    }
}

fn decide_download_image(node: &SceneNode, frame: &Frame) -> (out: Decision)
    ensures
        out@ == download_image_decision(node.config@, frame@),
{
    let url = config_string(&node.config, "url", "");
    if !web_address(url.as_str()) {
        return done_image(error_image(frame.width, frame.height));
    }
    if frame.slots.len() == 0 {
        return Decision::Perform(Action::DownloadImage { url });
    }
    match &frame.slots[0] {
        Slot::Answer(Event::Download(DownloadOutcome::Image(canvas))) => Decision::Done(
            Ok(NodeOutput::Image(canvas.clone_canvas())),
        ),
        Slot::Answer(Event::Download(_)) => done_image(error_image(frame.width, frame.height)),
        _ => Decision::Done(invalid("the host handed back something else than a download")),
    }
}

/// A text from the web; `invalid url` for an address that is none of the web.
pub open spec fn download_text_decision(config: Map<Seq<char>, JsonModel>, frame: FrameModel) -> DecisionModel {
    let url = setting_text(config, "url"@, ""@);
    if !is_web_address(url) {
        DecisionModel::Done(Ok(NodeValue::Text("invalid url"@)))
    } else if frame.slots.len() == 0 {
        DecisionModel::Perform(ActionModel::DownloadText { url })
    } else {
        match frame.slots[0] {
            SlotModel::Answer(EventModel::Text(text)) => DecisionModel::Done(
                Ok(NodeValue::Text(text)),
            ),
            _ => done_fault(fault("the host handed back something else than a text"@)),
        }
    }
}

fn decide_download_text(node: &SceneNode, frame: &Frame) -> (out: Decision)
    ensures
        out@ == download_text_decision(node.config@, frame@),
{
    let url = config_string(&node.config, "url", "");
    if !web_address(url.as_str()) {
        return Decision::Done(Ok(NodeOutput::Text("invalid url".to_owned())));
    }
    if frame.slots.len() == 0 {
        return Decision::Perform(Action::DownloadText { url });
    }
    match &frame.slots[0] {
        Slot::Answer(Event::Text(text)) => Decision::Done(Ok(NodeOutput::Text(text.clone()))),
        _ => Decision::Done(invalid("the host handed back something else than a text")),
    }
}

fn clone_output(output: &NodeOutput) -> (out: NodeOutput)
    ensures
        out@ == output@,
{
    match output {
        NodeOutput::Image(canvas) => NodeOutput::Image(canvas.clone_canvas()),
        NodeOutput::Text(text) => NodeOutput::Text(text.clone()),
        NodeOutput::Bool(value) => NodeOutput::Bool(*value),
    }
}

/// Whether a condition holds: a truth value as it is; a text unless it
/// is blank or says `false`; a picture always; without a wire, the
/// setting `condition`.
pub open spec fn truth_of(slot: SlotModel, config: Map<Seq<char>, JsonModel>) -> bool {
    match slot {
        SlotModel::Output(NodeValue::Bool(value)) => value,
        SlotModel::Output(NodeValue::Text(text)) => trimmed(text).len() > 0 && trimmed(text)
            != "false"@,
        SlotModel::Output(NodeValue::Image(_)) => true,
        _ => setting_bool(config, "condition"@, false),
    }
}

/// The port of the branch that a condition chooses.
pub open spec fn branch_port(condition: bool) -> Seq<char> {
    if condition {
        "field/thenNode"@
    } else {
        "field/elseNode"@
    }
}

/// One of two branches: the output of the branch that the condition
/// chooses, or the condition itself where no wire leaves for that branch.
pub open spec fn if_else_decision(
    scene: &E2eScene,
    id: Seq<char>,
    config: Map<Seq<char>, JsonModel>,
    frame: FrameModel,
) -> DecisionModel {
    let n = frame.slots.len();
    if n == 0 {
        need_along_in(scene, id, "fieldInput/condition"@, frame.width, frame.height)
    } else {
        let condition = truth_of(frame.slots[0], config);
        if n == 1 {
            need_along_out(scene, id, branch_port(condition), frame.width, frame.height)
        } else {
            match frame.slots[1] {
                SlotModel::Output(output) => DecisionModel::Done(Ok(output)),
                _ => DecisionModel::Done(Ok(NodeValue::Bool(condition))),
            }
        }
    }
}

fn decide_if_else(scene: &E2eScene, node: &SceneNode, frame: &Frame) -> (out: Decision)
    ensures
        out@ == if_else_decision(scene, node.id@, node.config@, frame@),
{
    let n = frame.slots.len();
    if n == 0 {
        return need_input(scene, node, "fieldInput/condition", frame.width, frame.height);
    }
    let condition = match &frame.slots[0] {
        Slot::Output(NodeOutput::Bool(value)) => *value,
        Slot::Output(NodeOutput::Text(text)) => {
            let word = trim(text.as_str());
            word.as_str().unicode_len() > 0 && !same_text(word.as_str(), "false")
        },
        Slot::Output(NodeOutput::Image(_)) => true,
        _ => config_bool(&node.config, "condition", false),
    };
    if n == 1 {
        let port = if condition {
            "field/thenNode"
        } else {
            "field/elseNode"
        };
        return need_output(scene, node, port, frame.width, frame.height);
    }
    match &frame.slots[1] {
        Slot::Output(output) => Decision::Done(Ok(clone_output(output))),
        _ => Decision::Done(Ok(NodeOutput::Bool(condition))),
    }
}

/// What the wire `next` brings, or the text of the setting `valueString`
/// where no wire leaves that port.
pub open spec fn set_as_state_decision(
    scene: &E2eScene,
    id: Seq<char>,
    config: Map<Seq<char>, JsonModel>,
    frame: FrameModel,
) -> DecisionModel {
    if frame.slots.len() == 0 {
        need_along_out(scene, id, "next"@, frame.width, frame.height)
    } else {
        match frame.slots[0] {
            SlotModel::Output(output) => DecisionModel::Done(Ok(output)),
            _ => DecisionModel::Done(
                Ok(NodeValue::Text(setting_text(config, "valueString"@, ""@))),
            ),
        }
    }
}

fn decide_set_as_state(scene: &E2eScene, node: &SceneNode, frame: &Frame) -> (out: Decision)
    ensures
        out@ == set_as_state_decision(scene, node.id@, node.config@, frame@),
{
    if frame.slots.len() == 0 {
        return need_output(scene, node, "next", frame.width, frame.height);
    }
    match &frame.slots[0] {
        Slot::Output(output) => Decision::Done(Ok(clone_output(output))),
        _ => Decision::Done(Ok(NodeOutput::Text(config_string(&node.config, "valueString", "")))),
    }
}

/// A length of 32 bits read as a number with a sign.
pub open spec fn signed32(v: u32) -> int {
    if v <= i32::MAX {
        v as int
    } else {
        v - 0x1_0000_0000
    }
}

/// The sum of lengths, each read as a number with a sign.
pub open spec fn signed_sum(lengths: Seq<u32>) -> int
    decreases lengths.len(),
{
    if lengths.len() == 0 {
        0
    } else {
        signed_sum(lengths.drop_last()) + signed32(lengths.last())
    }
}

/// The length that the last of `lengths` gets so that all of them fill
/// `total`: what the others leave of it, but 1 at least, and no more than
/// 32 bits hold.
pub open spec fn last_length(lengths: Seq<u32>, total: int) -> u32 {
    let rest = total - signed_sum(lengths.drop_last());
    if rest < 1 {
        1
    } else if rest > u32::MAX {
        u32::MAX
    } else {
        rest as u32
    }
}

/// The lengths with the last of them made to fill `total`.
pub open spec fn filling(lengths: Seq<u32>, total: int) -> Seq<u32> {
    if lengths.len() == 0 {
        lengths
    } else {
        lengths.update(lengths.len() - 1, last_length(lengths, total))
    }
}

/// Gives the last of the lengths what the others leave of `total`.
pub fn fix_last_dimension(dimensions: &mut Vec<u32>, total: i32)
    ensures
        final(dimensions)@ == filling(old(dimensions)@, total as int),
{
    if dimensions.len() == 0 {
        return ;
    }
    let n = dimensions.len();
    let ghost others = dimensions@.drop_last();
    let mut sum: i128 = 0;
    let mut i: usize = 0;
    while i < n - 1
        invariant
            i <= n - 1,
            n == dimensions@.len(),
            others == dimensions@.drop_last(),
            sum == signed_sum(others.take(i as int)),
            -0x8000_0000 * i <= sum <= 0x8000_0000 * i,
        decreases n - 1 - i,
    {
        let v = dimensions[i];
        let signed: i128 = if v <= 0x7fff_ffff {
            v as i128
        } else {
            (v as i128) - 0x1_0000_0000
        };
        proof {
            assert(others.take(i + 1).drop_last() == others.take(i as int));
        }
        sum = sum + signed;
        i += 1;
    }
    assert(others.take(others.len() as int) == others);
    let rest: i128 = (total as i128) - sum;
    let last: u32 = if rest < 1 {
        1
    } else if rest > 0xffff_ffff {
        0xffff_ffff
    } else {
        rest as u32
    };
    dimensions.set(n - 1, last);
}

fn copy_lengths(lengths: &Vec<u32>) -> (out: Vec<u32>)
    ensures
        out@ == lengths@,
{
    let mut out: Vec<u32> = Vec::new();
    let mut i: usize = 0;
    while i < lengths.len()
        invariant
            i <= lengths.len(),
            out@ == lengths@.take(i as int),
        decreases lengths.len() - i,
    {
        out.push(lengths[i]);
        i += 1;
    }
    out
}

/// The name of the port from which the cell in row `r` and column `c` of
/// a grid is wired, both counted from 0.
pub open spec fn cell_port(r: nat, c: nat) -> Seq<char> {
    "field/render_functions["@ + decimal_text(r + 1) + "]["@ + decimal_text(c + 1) + "]"@
}

fn cell_port_of(r: u64, c: u64) -> (out: String)
    requires
        r < u64::MAX,
        c < u64::MAX,
    ensures
        out@ == cell_port(r as nat, c as nat),
{
    let mut out = "field/render_functions[".to_owned();
    out.append(u64_to_text(r + 1).as_str());
    out.append("][");
    out.append(u64_to_text(c + 1).as_str());
    out.append("]");
    out
}

/// A count of rows or columns: 1 at least.
pub open spec fn at_least_1(n: int) -> u32 {
    if n < 1 {
        1
    } else {
        n as u32
    }
}

fn count_of(n: i32) -> (out: u32)
    ensures
        1 <= out <= 0x7fff_ffff,
        out == at_least_1(n as int),
{
    if n < 1 {
        1
    } else {
        n as u32
    }
}

/// A grid: how many columns it has, how wide they are and how high the
/// rows, where they begin, and whether a cell that nothing is wired to
/// stays empty.
pub ghost struct Grid {
    pub columns: int,
    pub widths: Seq<u32>,
    pub heights: Seq<u32>,
    pub xs: Seq<i64>,
    pub ys: Seq<i64>,
    pub hide_empty: bool,
}

/// The decision to ask for one cell of a grid: along the wire of that
/// cell, else along the wire for all cells; the cell is passed over where
/// there is neither.
pub open spec fn cell_decision(scene: &E2eScene, id: Seq<char>, r: nat, c: nat, width: u32, height: u32) -> DecisionModel {
    match edge_from(scene.edge_list(), id, cell_port(r, c)) {
        Some(e) => DecisionModel::Need { id: scene.edge_list()[e].target@, width, height },
        None => need_along_out(scene, id, "field/render_function"@, width, height),
    }
}

/// The picture of a grid with its cell `k`, counted row by row, laid
/// onto it: what was gathered for the cell, if that is a picture; a black
/// picture of the size of the cell where nothing is wired to it, unless
/// such cells stay empty.
pub open spec fn with_cell(output: CanvasModel, slot: SlotModel, grid: Grid, k: int) -> Result<
    CanvasModel,
    E2eFault,
> {
    let r = k / grid.columns;
    let c = k % grid.columns;
    match slot {
        SlotModel::Missing => if grid.hide_empty {
            Ok(output)
        } else {
            match solid_picture(grid.widths[c], grid.heights[r], black()) {
                Ok(fill) => Ok(laid_over(output, fill, grid.xs[c] as int, grid.ys[r] as int)),
                Err(e) => Err(e),
            }
        },
        _ => match slot_picture(slot) {
            Some(cell) => Ok(laid_over(output, cell, grid.xs[c] as int, grid.ys[r] as int)),
            None => Ok(output),
        },
    }
}

/// The picture of a grid with its first `k` cells laid onto `base`.
pub open spec fn assembled(cells: Seq<SlotModel>, grid: Grid, base: CanvasModel, k: int) -> Result<
    CanvasModel,
    E2eFault,
>
    decreases k,
{
    if k <= 0 {
        Ok(base)
    } else {
        match assembled(cells, grid, base, k - 1) {
            Err(e) => Err(e),
            Ok(output) => with_cell(output, cells[k - 1], grid, k - 1),
        }
    }
}

/// A grid that fails at one of its cells fails in the same way with more cells.
proof fn lemma_assembled_fails(cells: Seq<SlotModel>, grid: Grid, base: CanvasModel, k: int, m: int)
    requires
        0 <= k <= m,
        assembled(cells, grid, base, k) is Err,
    ensures
        assembled(cells, grid, base, m) == assembled(cells, grid, base, k),
    decreases m - k,
{
    if k < m {
        lemma_assembled_fails(cells, grid, base, k, m - 1);
    }
}

/// A picture divided into a grid of cells, each rendered by the node that
/// is wired to it. The host says how large the cells are and where they
/// begin; the last column and the last row take what the others leave.
pub open spec fn split_decision(
    scene: &E2eScene,
    id: Seq<char>,
    config: Map<Seq<char>, JsonModel>,
    frame: FrameModel,
) -> DecisionModel {
    let rows = at_least_1(setting_i32(config, "rows"@, 1));
    let columns = at_least_1(setting_i32(config, "columns"@, 1));
    let n = frame.slots.len();
    if n == 0 {
        DecisionModel::Perform(
            ActionModel::Layout { config, width: frame.width, height: frame.height, rows, columns },
        )
    } else {
        match frame.slots[0] {
            SlotModel::Answer(EventModel::Layout(layout)) => if layout.column_widths.len()
                != columns || layout.row_heights.len() != rows {
                done_fault(fault("the host handed back the layout of another grid"@))
            } else {
                let widths = filling(layout.column_widths, layout.total_width as int);
                let heights = filling(layout.row_heights, layout.total_height as int);
                if n == 1 {
                    DecisionModel::Perform(
                        ActionModel::Positions {
                            config,
                            column_widths: widths,
                            row_heights: heights,
                        },
                    )
                } else {
                    match frame.slots[1] {
                        SlotModel::Answer(EventModel::Positions(positions)) => if positions.xs.len()
                            != columns || positions.ys.len() != rows {
                            done_fault(fault("the host handed back the positions of another grid"@))
                        } else if n - 2 > rows * columns {
                            overfull()
                        } else if n - 2 < rows * columns {
                            let r = (n - 2) / (columns as int);
                            let c = (n - 2) % (columns as int);
                            cell_decision(scene, id, r as nat, c as nat, widths[c], heights[r])
                        } else {
                            match solid_picture(frame.width, frame.height, clear()) {
                                Err(e) => done_fault(e),
                                Ok(base) => done_picture(
                                    assembled(
                                        frame.slots.skip(2),
                                        Grid {
                                            columns: columns as int,
                                            widths,
                                            heights,
                                            xs: positions.xs,
                                            ys: positions.ys,
                                            hide_empty: setting_bool(config, "hideEmpty"@, false),
                                        },
                                        base,
                                        n - 2,
                                    ),
                                ),
                            }
                        },
                        _ => done_fault(
                            fault("the host handed back something else than positions"@),
                        ),
                    }
                }
            },
            _ => done_fault(fault("the host handed back something else than a layout"@)),
        }
    }
}

fn decide_cell(scene: &E2eScene, node: &SceneNode, r: u64, c: u64, width: u32, height: u32) -> (out:
    Decision)
    requires
        r < u64::MAX,
        c < u64::MAX,
    ensures
        out@ == cell_decision(scene, node.id@, r as nat, c as nat, width, height),
{
    let port = cell_port_of(r, c);
    match find_edge_from(scene.edges(), node.id.as_str(), port.as_str()) {
        Some(e) => Decision::Need { id: scene.edges()[e].target.clone(), width, height },
        None => need_output(scene, node, "field/render_function", width, height),
    }
}

#[verifier::loop_isolation(false)]
fn decide_split(scene: &E2eScene, node: &SceneNode, frame: &Frame) -> (out: Decision)
    ensures
        out@ == split_decision(scene, node.id@, node.config@, frame@),
{
    let rows = count_of(config_i32(&node.config, "rows", 1));
    let columns = count_of(config_i32(&node.config, "columns", 1));
    let n = frame.slots.len();
    if n == 0 {
        return Decision::Perform(
            Action::Layout {
                config: node.config.clone(),
                width: frame.width,
                height: frame.height,
                rows,
                columns,
            },
        );
    }
    let layout = match &frame.slots[0] {
        Slot::Answer(Event::Layout(layout)) => layout,
        _ => {
            return Decision::Done(invalid("the host handed back something else than a layout"));
        },
    };
    if layout.column_widths.len() as u64 != columns as u64 || layout.row_heights.len() as u64
        != rows as u64 {
        return Decision::Done(invalid("the host handed back the layout of another grid"));
    }
    let mut widths = copy_lengths(&layout.column_widths);
    let mut heights = copy_lengths(&layout.row_heights);
    fix_last_dimension(&mut widths, layout.total_width);
    fix_last_dimension(&mut heights, layout.total_height);
    if n == 1 {
        return Decision::Perform(
            Action::Positions {
                config: node.config.clone(),
                column_widths: widths,
                row_heights: heights,
            },
        );
    }
    let positions = match &frame.slots[1] {
        Slot::Answer(Event::Positions(positions)) => positions,
        _ => {
            return Decision::Done(invalid("the host handed back something else than positions"));
        },
    };
    if positions.xs.len() as u64 != columns as u64 || positions.ys.len() as u64 != rows as u64 {
        return Decision::Done(invalid("the host handed back the positions of another grid"));
    }
    assert(rows * columns <= 0x7fff_ffff * 0x7fff_ffff) by (nonlinear_arith)
        requires
            1 <= rows <= 0x7fff_ffff,
            1 <= columns <= 0x7fff_ffff,
    ;
    let cells: u64 = (rows as u64) * (columns as u64);
    let gathered: u64 = (n - 2) as u64;
    if gathered > cells {
        return Decision::Done(invalid("a node gathered more than it asked for"));
    }
    if gathered < cells {
        let r = gathered / (columns as u64);
        let c = gathered % (columns as u64);
        assert(r < rows) by (nonlinear_arith)
            requires
                gathered < (rows as u64) * (columns as u64),
                r == gathered / (columns as u64),
                columns >= 1,
        ;
        return decide_cell(scene, node, r, c, widths[c as usize], heights[r as usize]);
    }
    let hide_empty = config_bool(&node.config, "hideEmpty", false);
    let mut output = match solid(frame.width, frame.height, Rgba { r: 0, g: 0, b: 0, a: 0 }) {
        Ok(output) => output,
        Err(e) => {
            return Decision::Done(Err(e));
        },
    };
    let ghost base = output@;
    let ghost grid = Grid {
        columns: columns as int,
        widths: widths@,
        heights: heights@,
        xs: positions.xs@,
        ys: positions.ys@,
        hide_empty,
    };
    let ghost held = frame@.slots.skip(2);
    let mut k: usize = 0;
    while k < n - 2
        invariant
            k <= n - 2,
            output.wf(),
            assembled(held, grid, base, k as int) == Ok::<CanvasModel, E2eFault>(output@),
        decreases n - 2 - k,
    {
        let r = (k as u64) / (columns as u64);
        let c = (k as u64) % (columns as u64);
        assert(r < rows) by (nonlinear_arith)
            requires
                k < (rows as u64) * (columns as u64),
                r == (k as u64) / (columns as u64),
                columns >= 1,
        ;
        let x = positions.xs[c as usize];
        let y = positions.ys[r as usize];
        let ghost before = output@;
        match &frame.slots[k + 2] {
            Slot::Missing => {
                if !hide_empty {
                    match solid(
                        widths[c as usize],
                        heights[r as usize],
                        Rgba { r: 0, g: 0, b: 0, a: 255 },
                    ) {
                        Ok(fill) => {
                            output = lay_over(output, &fill, x, y);
                        },
                        Err(e) => {
                            proof {
                                lemma_assembled_fails(held, grid, base, k + 1, n - 2);
                            }
                            return Decision::Done(Err(e));
                        },
                    }
                }
            },
            slot => {
                match slot_image(slot) {
                    Some(cell) => {
                        output = lay_over(output, cell, x, y);
                    },
                    None => {},
                }
            },
        }
        k += 1;
    }
    Decision::Done(Ok(NodeOutput::Image(output)))
}

/// Whether the renderer has an operation of this name.
pub open spec fn handles(keyword: Seq<char>) -> bool {
    ||| keyword == "render/color"@
    ||| keyword == "render/gradient"@
    ||| keyword == "data/newImage"@
    ||| keyword == "data/localImage"@
    ||| keyword == "data/resizeImage"@
    ||| keyword == "render/image"@
    ||| keyword == "render/split"@
    ||| keyword == "renderGradientSplit"@
    ||| keyword == "renderTextSplit"@
    ||| keyword == "render/text"@
    ||| keyword == "renderTextRich"@
    ||| keyword == "render/opacity"@
    ||| keyword == "data/qr"@
    ||| keyword == "data/downloadImage"@
    ||| keyword == "data/downloadUrl"@
    ||| keyword == "logic/ifElse"@
    ||| keyword == "logicIfElse"@
    ||| keyword == "logic/setAsState"@
}

/// The message for an operation that the renderer does not have.
pub open spec fn unsupported_message(keyword: Seq<char>) -> Seq<char> {
    "keyword "@ + keyword + " is not implemented"@
}

/// The entry of a scene: it hands on the picture that the wire `next`
/// brings; without such a wire it paints the background of the scene.
pub open spec fn root_decision(scene: &E2eScene, id: Seq<char>, frame: FrameModel) -> DecisionModel {
    if frame.slots.len() == 0 {
        need_along_out(scene, id, "next"@, frame.width, frame.height)
    } else {
        match frame.slots[0] {
            SlotModel::Missing => done_picture(
                solid_picture(frame.width, frame.height, color_or(scene.background(), black())),
            ),
            SlotModel::Output(NodeValue::Image(canvas)) => DecisionModel::Done(
                Ok(NodeValue::Image(canvas)),
            ),
            _ => done_fault(fault("render pipeline root did not return image"@)),
        }
    }
}

fn decide_root(scene: &E2eScene, node: &SceneNode, frame: &Frame) -> (out: Decision)
    ensures
        out@ == root_decision(scene, node.id@, frame@),
{
    if frame.slots.len() == 0 {
        return need_output(scene, node, "next", frame.width, frame.height);
    }
    match &frame.slots[0] {
        Slot::Missing => done_image(
            solid(
                frame.width,
                frame.height,
                color_of(scene.background_color(), Rgba { r: 0, g: 0, b: 0, a: 255 }),
            ),
        ),
        Slot::Output(NodeOutput::Image(canvas)) => Decision::Done(
            Ok(NodeOutput::Image(canvas.clone_canvas())),
        ),
        _ => Decision::Done(invalid("render pipeline root did not return image")),
    }
}

/// What an operation does next, by its name.
pub open spec fn operation_decision(
    scene: &E2eScene,
    keyword: Seq<char>,
    id: Seq<char>,
    config: Map<Seq<char>, JsonModel>,
    frame: FrameModel,
    scaled: Seq<u8>,
) -> DecisionModel {
    if keyword == "render/color"@ {
        color_decision(config, frame)
    } else if keyword == "render/gradient"@ {
        gradient_decision(config, frame)
    } else if keyword == "data/newImage"@ {
        new_image_decision(config, frame)
    } else if keyword == "data/localImage"@ {
        local_image_decision(config, frame)
    } else if keyword == "data/resizeImage"@ {
        resize_decision(scene, id, config, frame, scaled)
    } else if keyword == "render/image"@ {
        composite_decision(scene, id, config, frame, scaled)
    } else if keyword == "render/split"@ || keyword == "renderGradientSplit"@ || keyword
        == "renderTextSplit"@ {
        split_decision(scene, id, config, frame)
    } else if keyword == "render/text"@ || keyword == "renderTextRich"@ {
        text_decision(scene, id, config, frame)
    } else if keyword == "render/opacity"@ {
        opacity_decision(scene, id, config, frame)
    } else if keyword == "data/qr"@ {
        qr_decision(config, frame)
    } else if keyword == "data/downloadImage"@ {
        download_image_decision(config, frame)
    } else if keyword == "data/downloadUrl"@ {
        download_text_decision(config, frame)
    } else if keyword == "logic/ifElse"@ || keyword == "logicIfElse"@ {
        if_else_decision(scene, id, config, frame)
    } else if keyword == "logic/setAsState"@ {
        set_as_state_decision(scene, id, config, frame)
    } else {
        done_fault(E2eFault::Unsupported(unsupported_message(keyword)))
    }
}

/// What the node of a frame does next. The frame at the bottom of a run
/// is that of the entry of the scene. `scaled` are the bytes that the
/// scaling of a picture comes to, where the node scales one.
pub open spec fn decision_of(scene: &E2eScene, frame: FrameModel, root: bool, scaled: Seq<u8>) -> DecisionModel {
    let node = scene.node_list()[frame.node];
    if root {
        root_decision(scene, node.id@, frame)
    } else {
        operation_decision(scene, node.keyword@, node.id@, node.config@, frame, scaled)
    }
}

fn decide(scene: &E2eScene, frame: &Frame, root: bool) -> (out: (Decision, Ghost<Seq<u8>>))
    requires
        frame.node < scene.node_list().len(),
    ensures
        out.0@ == decision_of(scene, frame@, root, out.1@),
{
    let none: Ghost<Seq<u8>> = Ghost(Seq::empty());
    let node = &scene.nodes()[frame.node];
    if root {
        return (decide_root(scene, node, frame), none);
    }
    let keyword = node.keyword.as_str();
    if same_text(keyword, "render/color") {
        (decide_color(node, frame), none)
    } else if same_text(keyword, "render/gradient") {
        (decide_gradient(node, frame), none)
    } else if same_text(keyword, "data/newImage") {
        (decide_new_image(node, frame), none)
    } else if same_text(keyword, "data/localImage") {
        (decide_local_image(node, frame), none)
    } else if same_text(keyword, "data/resizeImage") {
        decide_resize(scene, node, frame)
    } else if same_text(keyword, "render/image") {
        decide_composite(scene, node, frame)
    } else if same_text(keyword, "render/split") || same_text(keyword, "renderGradientSplit")
        || same_text(keyword, "renderTextSplit") {
        (decide_split(scene, node, frame), none)
    } else if same_text(keyword, "render/text") || same_text(keyword, "renderTextRich") {
        (decide_text(scene, node, frame), none)
    } else if same_text(keyword, "render/opacity") {
        (decide_opacity(scene, node, frame), none)
    } else if same_text(keyword, "data/qr") {
        (decide_qr(node, frame), none)
    } else if same_text(keyword, "data/downloadImage") {
        (decide_download_image(node, frame), none)
    } else if same_text(keyword, "data/downloadUrl") {
        (decide_download_text(node, frame), none)
    } else if same_text(keyword, "logic/ifElse") || same_text(keyword, "logicIfElse") {
        (decide_if_else(scene, node, frame), none)
    } else if same_text(keyword, "logic/setAsState") {
        (decide_set_as_state(scene, node, frame), none)
    } else {
        let mut why = "keyword ".to_owned();
        why.append(keyword);
        why.append(" is not implemented");
        (Decision::Done(Err(E2eError::Unsupported(why))), none)
    }
}

fn clone_result(result: &Result<Canvas, E2eError>) -> (out: Result<Canvas, E2eError>)
    ensures
        result_model(out) == result_model(*result),
{
    match result {
        Ok(canvas) => Ok(canvas.clone_canvas()),
        Err(E2eError::Io(why)) => Err(E2eError::Io(why.clone())),
        Err(E2eError::Json(why)) => Err(E2eError::Json(why.clone())),
        Err(E2eError::Invalid(why)) => Err(E2eError::Invalid(why.clone())),
        Err(E2eError::Unsupported(why)) => Err(E2eError::Unsupported(why.clone())),
        Err(E2eError::Image(why)) => Err(E2eError::Image(why.clone())),
    }
}

/// The message for a scene without an entry.
pub open spec fn no_entry_message(name: Seq<char>) -> Seq<char> {
    "scene "@ + name + " has no render event"@
}

/// The model of a [`RenderRun`].
pub ghost struct RunModel {
    /// The nodes that are being evaluated, the entry of the scene first
    /// and after each node the one that it waits for.
    pub frames: Seq<FrameModel>,
    /// For each node of the scene what it came to, once it has.
    pub cache: Seq<Option<NodeValue>>,
    /// The places of the nodes whose evaluation has begun, in the order
    /// in which it began.
    pub evaluated: Seq<usize>,
    /// Whether the run waits for the host to answer its last request.
    pub awaiting: bool,
    /// How the run ended, once it has.
    pub finished: Option<Result<CanvasModel, E2eFault>>,
}

/// The models of what was kept of the nodes.
pub open spec fn kept(cache: Seq<Option<NodeOutput>>) -> Seq<Option<NodeValue>> {
    cache.map_values(
        |entry: Option<NodeOutput>|
            match entry {
                Some(output) => Some(output@),
                None => None,
            },
    )
}

/// The model of how a run ended.
pub open spec fn ending(finished: Option<Result<Canvas, E2eError>>) -> Option<
    Result<CanvasModel, E2eFault>,
> {
    match finished {
        Some(result) => Some(result_model(result)),
        None => None,
    }
}

impl View for RenderRun {
    type V = RunModel;

    closed spec fn view(&self) -> RunModel {
        RunModel {
            frames: self.frames@.map_values(|frame: Frame| frame@),
            cache: kept(self.cache@),
            evaluated: self.evaluated@,
            awaiting: self.awaiting,
            finished: ending(self.finished),
        }
    }
}

/// A run that ends with a failure.
pub open spec fn failed(run: RunModel, e: E2eFault) -> (RunModel, RequestModel) {
    (
        RunModel { awaiting: false, finished: Some(Err(e)), ..run },
        RequestModel::Finished(Err(e)),
    )
}

/// A run whose topmost node has gathered one thing more.
pub open spec fn gathered(run: RunModel, slot: SlotModel) -> RunModel {
    let top = run.frames.last();
    RunModel {
        frames: run.frames.drop_last().push(FrameModel { slots: top.slots.push(slot), ..top }),
        ..run
    }
}

/// A run that goes on to evaluate the node at place `i`.
pub open spec fn entered(run: RunModel, i: int, width: u32, height: u32) -> RunModel {
    RunModel {
        frames: run.frames.push(FrameModel { node: i, width, height, slots: Seq::empty() }),
        evaluated: run.evaluated.push(i as usize),
        ..run
    }
}

/// A run after its topmost node has asked for the output of the node
/// `id`: a black picture where the scene has no such node; what that node
/// came to before, if it was evaluated; else its evaluation begins, unless
/// it has begun already, which is a circle in the wires.
pub open spec fn asked(scene: &E2eScene, run: RunModel, id: Seq<char>, width: u32, height: u32) -> (
    RunModel,
    RequestModel,
) {
    match node_of_id(scene.node_list(), id) {
        None => match solid_picture(width, height, black()) {
            Ok(canvas) => (
                gathered(run, SlotModel::Output(NodeValue::Image(canvas))),
                RequestModel::Continue,
            ),
            Err(e) => failed(run, e),
        },
        Some(i) => match run.cache[i] {
            Some(output) => (gathered(run, SlotModel::Output(output)), RequestModel::Continue),
            None => if run.evaluated.contains(i as usize) {
                failed(run, fault("the wires of the scene run in a circle"@))
            } else {
                (entered(run, i, width, height), RequestModel::Continue)
            },
        },
    }
}

/// A run after its topmost node has come to an output: the end of the
/// run for the entry of the scene, whose output has to be a picture; for
/// any other node the output is kept and handed to the node that waits.
pub open spec fn returned(run: RunModel, output: NodeValue) -> (RunModel, RequestModel) {
    if run.frames.len() == 1 {
        let result = match output {
            NodeValue::Image(canvas) => Ok(canvas),
            _ => Err(fault("render pipeline root did not return image"@)),
        };
        (
            RunModel { frames: run.frames.drop_last(), finished: Some(result), ..run },
            RequestModel::Finished(result),
        )
    } else {
        (
            gathered(
                RunModel {
                    frames: run.frames.drop_last(),
                    cache: run.cache.update(run.frames.last().node, Some(output)),
                    ..run
                },
                SlotModel::Output(output),
            ),
            RequestModel::Continue,
        )
    }
}

/// A run after one step, and what it says to its host.
///
/// A run that has ended says again how it ended. A run that waits for an
/// answer takes the event as that answer and fails without one; a run
/// that does not wait fails if it is handed one. Else the topmost node
/// decides what it does next. `scaled` are the bytes that the scaling of a
/// picture comes to, where the step scales one: the machine says them.
pub open spec fn stepped(
    scene: &E2eScene,
    run: RunModel,
    event: Option<EventModel>,
    scaled: Seq<u8>,
) -> (RunModel, RequestModel) {
    if run.finished is Some {
        (run, RequestModel::Finished(run.finished->0))
    } else if run.awaiting {
        match event {
            Some(answer) => (
                RunModel { awaiting: false, ..gathered(run, SlotModel::Answer(answer)) },
                RequestModel::Continue,
            ),
            None => failed(run, fault("the host owes an answer"@)),
        }
    } else if event is Some {
        failed(run, fault("no answer was asked for"@))
    } else {
        match decision_of(scene, run.frames.last(), run.frames.len() == 1, scaled) {
            DecisionModel::Need { id, width, height } => asked(scene, run, id, width, height),
            DecisionModel::Skip => (gathered(run, SlotModel::Missing), RequestModel::Continue),
            DecisionModel::Perform(action) => (
                RunModel { awaiting: true, ..run },
                RequestModel::Perform(action),
            ),
            DecisionModel::Done(Err(e)) => failed(run, e),
            DecisionModel::Done(Ok(output)) => returned(run, output),
        }
    }
}

/// The model of an event that may be there.
pub open spec fn event_model(event: Option<Event>) -> Option<EventModel> {
    match event {
        Some(event) => Some(event@),
        None => None,
    }
}

/// A run before its first step. A scene without a render event is turned
/// down. A scene from whose entry no wire leaves the port `next` comes to
/// a picture in its background colour. For any other scene the entry is
/// about to be evaluated.
pub open spec fn started(scene: &E2eScene, width: u32, height: u32) -> RunModel {
    let nodes = scene.node_list();
    let fresh = RunModel {
        frames: Seq::empty(),
        cache: Seq::new(nodes.len(), |i: int| None),
        evaluated: Seq::empty(),
        awaiting: false,
        finished: None,
    };
    match entry_of(nodes) {
        None => RunModel {
            finished: Some(Err(fault(no_entry_message(scene.title())))),
            ..fresh
        },
        Some(i) => if edge_from(scene.edge_list(), nodes[i].id@, "next"@) is None {
            RunModel {
                finished: Some(
                    solid_picture(width, height, color_or(scene.background(), black())),
                ),
                ..fresh
            }
        } else {
            RunModel {
                frames: seq![FrameModel { node: i, width, height, slots: Seq::empty() }],
                ..fresh
            }
        },
    }
}

impl RenderRun {
    /// What holds of a run between any two of its steps.
    pub closed spec fn wf(&self) -> bool {
        let n = self.scene.node_list().len();
        &&& self.cache@.len() == n
        &&& self.entered@.len() == n
        &&& forall|k: int| 0 <= k < self.frames@.len() ==> (#[trigger] self.frames@[k]).node < n
        &&& forall|k: int| 0 <= k < self.evaluated@.len() ==> (#[trigger] self.evaluated@[k]) < n
        &&& self.evaluated@.no_duplicates()
        &&& forall|i: int|
            0 <= i < n ==> (#[trigger] self.entered@[i] <==> self.evaluated@.contains(i as usize))
        &&& self.finished is None ==> self.frames@.len() > 0
    }

    /// The scene that is rendered.
    pub closed spec fn scene(&self) -> E2eScene {
        self.scene
    }

    /// Whether the run has ended.
    pub fn is_finished(&self) -> (out: bool)
        ensures
            out == self@.finished is Some,
    {
        self.finished.is_some()
    }

    fn fail(&mut self, error: E2eError) -> (out: Request)
        requires
            old(self).wf(),
        ensures
            final(self).wf(),
            final(self).scene() == old(self).scene(),
            (final(self)@, out@) == failed(old(self)@, error@),
    {
        let result: Result<Canvas, E2eError> = Err(error);
        let out = clone_result(&result);
        self.finished = Some(result);
        self.awaiting = false;
        Request::Finished(out)
    }

    fn gather(&mut self, slot: Slot)
        requires
            old(self).wf(),
            old(self).frames@.len() > 0,
        ensures
            final(self).wf(),
            final(self).scene() == old(self).scene(),
            final(self)@ == gathered(old(self)@, slot@),
            final(self).frames@.len() == old(self).frames@.len(),
    {
        let ghost before = self.frames@;
        let mut frame = self.frames.pop().unwrap();
        let ghost top = frame;
        frame.slots.push(slot);
        self.frames.push(frame);
        proof {
            assert(frame@.slots =~= top@.slots.push(slot@));
            assert(self@.frames =~= gathered(old(self)@, slot@).frames);
        }
    }

    /// Begins the evaluation of the node at place `i`.
    fn enter(&mut self, i: usize, width: u32, height: u32)
        requires
            old(self).wf(),
            i < old(self).scene().node_list().len(),
            !old(self)@.evaluated.contains(i),
        ensures
            final(self).wf(),
            final(self).scene() == old(self).scene(),
            final(self)@ == entered(old(self)@, i as int, width, height),
    {
        let ghost before = self.evaluated@;
        let count = self.entered.len();
        self.entered.set(i, true);
        self.evaluated.push(i);
        self.frames.push(Frame { node: i, width, height, slots: Vec::new() });
        proof {
            assert forall|k: int| 0 <= k < self.scene.node_list().len() implies (
            #[trigger] self.entered@[k] <==> self.evaluated@.contains(k as usize)) by {
                if k == i {
                    assert(self.evaluated@[before.len() as int] == i);
                } else {
                    if before.contains(k as usize) {
                        let j = choose|j: int| 0 <= j < before.len() && before[j] == k as usize;
                        assert(self.evaluated@[j] == k as usize);
                    }
                    if self.evaluated@.contains(k as usize) {
                        let j = choose|j: int|
                            0 <= j < self.evaluated@.len() && self.evaluated@[j] == k as usize;
                    }
                }
            }
            assert(self.frames@.last()@.slots =~= Seq::<SlotModel>::empty());
            assert(self@.frames =~= entered(old(self)@, i as int, width, height).frames);
        }
    }

    /// Hands the topmost node the output of the node `id`, or begins the
    /// evaluation of that node.
    fn ask(&mut self, id: &str, width: u32, height: u32) -> (out: Request)
        requires
            old(self).wf(),
            old(self).frames@.len() > 0,
            old(self)@.finished is None,
        ensures
            final(self).wf(),
            final(self).scene() == old(self).scene(),
            (final(self)@, out@) == asked(&old(self).scene(), old(self)@, id@, width, height),
    {
        match find_node(self.scene.nodes(), id) {
            None => match solid(width, height, Rgba { r: 0, g: 0, b: 0, a: 255 }) {
                Ok(canvas) => {
                    self.gather(Slot::Output(NodeOutput::Image(canvas)));
                    Request::Continue
                },
                Err(e) => self.fail(e),
            },
            Some(i) => {
                let cached = match &self.cache[i] {
                    Some(output) => Some(clone_output(output)),
                    None => None,
                };
                match cached {
                    Some(output) => {
                        self.gather(Slot::Output(output));
                        Request::Continue
                    },
                    None => {
                        if self.entered[i] {
                            return self.fail(
                                E2eError::Invalid("the wires of the scene run in a circle".to_owned()),
                            );
                        }
                        self.enter(i, width, height);
                        Request::Continue
                    },
                }
            },
        }
    }

    /// Ends the evaluation of the topmost node with its output.
    fn give_back(&mut self, output: NodeOutput) -> (out: Request)
        requires
            old(self).wf(),
            old(self).frames@.len() > 0,
            old(self)@.finished is None,
        ensures
            final(self).wf(),
            final(self).scene() == old(self).scene(),
            (final(self)@, out@) == returned(old(self)@, output@),
    {
        let ghost before = self.frames@;
        let frame = self.frames.pop().unwrap();
        assert(self@.frames =~= old(self)@.frames.drop_last());
        if self.frames.len() == 0 {
            let result = match output {
                NodeOutput::Image(canvas) => Ok(canvas),
                _ => invalid("render pipeline root did not return image"),
            };
            let out = clone_result(&result);
            self.finished = Some(result);
            return Request::Finished(out);
        }
        let ghost cache = self.cache@;
        self.cache.set(frame.node, Some(clone_output(&output)));
        assert(kept(self.cache@) =~= kept(cache).update(frame.node as int, Some(output@)));
        self.gather(Slot::Output(output));
        Request::Continue
    }

    fn advance(&mut self, event: Option<Event>) -> (out: (Request, Ghost<Seq<u8>>))
        requires
            old(self).wf(),
        ensures
            final(self).wf(),
            final(self).scene() == old(self).scene(),
            (final(self)@, out.0@) == stepped(
                &old(self).scene(),
                old(self)@,
                event_model(event),
                out.1@,
            ),
            final(self)@.evaluated.no_duplicates(),
            old(self)@.evaluated.is_prefix_of(final(self)@.evaluated),
            final(self)@.evaluated.len() <= old(self)@.evaluated.len() + 1,
            out.0 is Finished <==> final(self)@.finished is Some,
            out.0 is Perform <==> final(self)@.awaiting && final(self)@.finished is None,
    {
        let none: Ghost<Seq<u8>> = Ghost(Seq::empty());
        match &self.finished {
            Some(result) => {
                return (Request::Finished(clone_result(result)), none);
            },
            None => {},
        }
        if self.awaiting {
            return match event {
                Some(answer) => {
                    self.awaiting = false;
                    self.gather(Slot::Answer(answer));
                    (Request::Continue, none)
                },
                None => (self.fail(E2eError::Invalid("the host owes an answer".to_owned())), none),
            };
        }
        if event.is_some() {
            return (self.fail(E2eError::Invalid("no answer was asked for".to_owned())), none);
        }
        let top = self.frames.len() - 1;
        let root = top == 0;
        let (decision, scaled) = decide(&self.scene, &self.frames[top], root);
        let request = match decision {
            Decision::Need { id, width, height } => self.ask(id.as_str(), width, height),
            Decision::Skip => {
                self.gather(Slot::Missing);
                Request::Continue
            },
            Decision::Perform(action) => {
                self.awaiting = true;
                Request::Perform(action)
            },
            Decision::Done(Err(e)) => self.fail(e),
            Decision::Done(Ok(output)) => self.give_back(output),
        };
        (request, scaled)
    }

    /// Makes one step of the run. `event` is the answer to the request of
    /// the step before, if that step made one.
    ///
    /// The step is the one that [`stepped`] describes, for whatever bytes
    /// the scaling of a picture comes to where the step scales one. No
    /// node is evaluated twice: the evaluation of a node begins only if it
    /// has not begun before, and what the node came to is kept for every
    /// later wire that asks for it.
    pub fn step(&mut self, event: Option<Event>) -> (out: Request)
        requires
            old(self).wf(),
        ensures
            final(self).wf(),
            final(self).scene() == old(self).scene(),
            exists|scaled: Seq<u8>|
                (final(self)@, out@) == #[trigger] stepped(
                    &old(self).scene(),
                    old(self)@,
                    event_model(event),
                    scaled,
                ),
            final(self)@.evaluated.no_duplicates(),
            old(self)@.evaluated.is_prefix_of(final(self)@.evaluated),
            final(self)@.evaluated.len() <= old(self)@.evaluated.len() + 1,
            out is Finished <==> final(self)@.finished is Some,
            out is Perform <==> final(self)@.awaiting && final(self)@.finished is None,
    {
        let (out, scaled) = self.advance(event);
        proof {
            assert((self@, out@) == stepped(
                &old(self).scene(),
                old(self)@,
                event_model(event),
                scaled@,
            ));
        }
        out
    }
}

impl E2eRenderer {
    /// Begins the rendering of a scene.
    ///
    /// A scene without a render event is turned down. A scene from whose
    /// entry no wire leaves the port `next` comes to a picture of the
    /// renderer's size, filled with the background colour of the scene
    /// (black where that is no colour). For any other scene the run is
    /// ready for its first step.
    pub fn render_scene(&self, scene: E2eScene) -> (run: RenderRun)
        ensures
            run.wf(),
            run.scene() == scene,
            run@ == started(&scene, self.width, self.height),
    {
        let mut cache: Vec<Option<NodeOutput>> = Vec::new();
        let mut entered: Vec<bool> = Vec::new();
        let mut k: usize = 0;
        while k < scene.nodes().len()
            invariant
                k <= scene.node_list().len(),
                cache@.len() == k,
                entered@.len() == k,
                forall|i: int| 0 <= i < k ==> !entered@[i],
                forall|i: int| 0 <= i < k ==> cache@[i] is None,
            decreases scene.node_list().len() - k,
        {
            cache.push(None);
            entered.push(false);
            k += 1;
        }
        let mut frames: Vec<Frame> = Vec::new();
        let finished = match find_entry(scene.nodes()) {
            None => {
                let mut why = "scene ".to_owned();
                why.append(scene.name());
                why.append(" has no render event");
                Some(Err(E2eError::Invalid(why)))
            },
            Some(i) => {
                match find_edge_from(scene.edges(), scene.nodes()[i].id.as_str(), "next") {
                    None => {
                        let color = color_of(
                            scene.background_color(),
                            Rgba { r: 0, g: 0, b: 0, a: 255 },
                        );
                        Some(solid(self.width, self.height, color))
                    },
                    Some(_) => {
                        frames.push(
                            Frame { node: i, width: self.width, height: self.height, slots: Vec::new() },
                        );
                        None
                    },
                }
            },
        };
        let run = RenderRun {
            scene,
            frames,
            cache,
            entered,
            evaluated: Vec::new(),
            awaiting: false,
            finished,
        };
        proof {
            let model = started(&scene, self.width, self.height);
            assert(run@.cache =~= model.cache);
            if run.frames@.len() > 0 {
                assert(run.frames@[0]@.slots =~= Seq::<SlotModel>::empty());
            }
            assert(run@.frames =~= model.frames);
        }
        run
    }
}

/// The evaluation of a node begins at most once in a run: a step adds at
/// most one node to those whose evaluation has begun, and never one that
/// is among them already.
pub proof fn law_evaluation_begins_once(
    scene: &E2eScene,
    run: RunModel,
    event: Option<EventModel>,
    scaled: Seq<u8>,
)
    requires
        run.evaluated.no_duplicates(),
    ensures
        stepped(scene, run, event, scaled).0.evaluated.no_duplicates(),
        run.evaluated.is_prefix_of(stepped(scene, run, event, scaled).0.evaluated),
        stepped(scene, run, event, scaled).0.evaluated.len() <= run.evaluated.len() + 1,
{
    let next = stepped(scene, run, event, scaled).0;
    if next.evaluated != run.evaluated {
        let decision = decision_of(scene, run.frames.last(), run.frames.len() == 1, scaled);
        let i = node_of_id(scene.node_list(), decision->Need_id)->0;
        assert(next.evaluated == run.evaluated.push(i as usize));
        assert(!run.evaluated.contains(i as usize));
    }
}

/// A node that has been evaluated is not evaluated again: a wire that
/// asks for it is handed what the node came to.
pub proof fn law_output_is_kept(
    scene: &E2eScene,
    run: RunModel,
    id: Seq<char>,
    width: u32,
    height: u32,
    output: NodeValue,
)
    requires
        node_of_id(scene.node_list(), id) matches Some(i) && run.cache[i] == Some(output),
    ensures
        asked(scene, run, id, width, height) == (
            gathered(run, SlotModel::Output(output)),
            RequestModel::Continue,
        ),
        asked(scene, run, id, width, height).0.evaluated == run.evaluated,
{
}

/// A composite that stretches its picture fills the target exactly,
/// whatever bytes the scaling comes to: the picture is laid on with the
/// size of the target, at its upper left corner.
pub proof fn law_stretch_fills_target(
    scene: &E2eScene,
    id: Seq<char>,
    config: Map<Seq<char>, JsonModel>,
    frame: FrameModel,
    scaled: Seq<u8>,
)
    requires
        setting_text(config, "placement"@, "center"@) == "stretch"@,
        composite_decision(scene, id, config, frame, scaled) matches DecisionModel::Done(Ok(_)),
    ensures
        ({
            let target = picture_or_default(frame.slots[0], frame.width, frame.height)->Ok_0;
            let laid = CanvasModel { width: target.width, height: target.height, pixels: scaled };
            composite_decision(scene, id, config, frame, scaled) == done_picture(
                Ok(laid_over(target, laid, 0, 0)),
            )
        }),
{
    reveal_strlit("stretch");
    reveal_strlit("cover");
    reveal_strlit("contain");
    assert("stretch"@[0] != "cover"@[0]);
    assert("stretch"@[0] != "contain"@[0]);
}

/// A composite that scales its picture so that the target contains it
/// lays on a picture that is no larger than the target in either
/// direction, a side of 0 counted as 1, whatever size and bytes the
/// scaling comes to.
pub proof fn law_contain_stays_within_target(
    scene: &E2eScene,
    id: Seq<char>,
    config: Map<Seq<char>, JsonModel>,
    frame: FrameModel,
    scaled: Seq<u8>,
)
    requires
        setting_text(config, "placement"@, "center"@) == "contain"@,
        composite_decision(scene, id, config, frame, scaled) matches DecisionModel::Done(Ok(_)),
    ensures
        ({
            let target = picture_or_default(frame.slots[0], frame.width, frame.height)->Ok_0;
            let sides = answered_bounds(frame.slots[3])->Ok_0;
            let laid = fitted_picture(
                composite_source(frame)->Ok_0,
                sides.0,
                sides.1,
                scaled,
            )->Ok_0;
            &&& within(laid, target)
            &&& composite_decision(scene, id, config, frame, scaled) == done_picture(
                Ok(laid_centred(target, laid)),
            )
        }),
{
    reveal_strlit("cover");
    reveal_strlit("contain");
    assert("contain"@.len() != "cover"@.len());
}

/// A scene from whose entry no wire leaves the port `next` is rendered
/// to a picture of the size that is asked for, filled with the background
/// colour of the scene, or with black where that names no colour.
pub proof fn law_no_next_wire_paints_background(
    scene: &E2eScene,
    width: u32,
    height: u32,
    scaled: Seq<u8>,
)
    requires
        Canvas::fits(width, height),
        entry_of(scene.node_list()) matches Some(i) && edge_from(
            scene.edge_list(),
            scene.node_list()[i].id@,
            "next"@,
        ) is None,
    ensures
        started(scene, width, height).finished == Some(
            Ok::<CanvasModel, E2eFault>(
                filled_model(width, height, color_or(scene.background(), black())),
            ),
        ),
        stepped(scene, started(scene, width, height), None, scaled).1 == RequestModel::Finished(
            Ok(filled_model(width, height, color_or(scene.background(), black()))),
        ),
{
}

/// An operation that the renderer does not have fails, and names the operation.
pub proof fn law_unknown_operation_fails(
    scene: &E2eScene,
    keyword: Seq<char>,
    id: Seq<char>,
    config: Map<Seq<char>, JsonModel>,
    frame: FrameModel,
    scaled: Seq<u8>,
)
    requires
        !handles(keyword),
    ensures
        operation_decision(scene, keyword, id, config, frame, scaled) == done_fault(
            E2eFault::Unsupported(unsupported_message(keyword)),
        ),
{
}

} // verus!
