use frameos::canvas::{Canvas, Rgba};
use frameos::dataflow::{
    error_image, fix_last_dimension, Action, DownloadOutcome, Event, RenderRun, Request,
    SplitLayout, SplitPositions,
};
use frameos::e2e::{E2eError, E2eRenderer, E2eScene};
use frameos::json::parse_json;

/// A host that answers every request in the plainest way, and notes what it was asked.
struct Host {
    asked: Vec<String>,
    downloads: DownloadKind,
    oversize: bool,
}

#[derive(Clone, Copy)]
enum DownloadKind {
    Fails,
    Undecodable,
    Green,
}

fn fill(width: u32, height: u32, color: Rgba) -> Canvas {
    Canvas::filled(width, height, color)
}

const GREEN: Rgba = Rgba { r: 0, g: 255, b: 0, a: 255 };

impl Host {
    fn new() -> Self {
        Host { asked: Vec::new(), downloads: DownloadKind::Fails, oversize: false }
    }

    fn perform(&mut self, action: Action) -> Event {
        match action {
            Action::Gradient { width, height, start, .. } => {
                self.asked.push("gradient".to_string());
                Event::Image(fill(width, height, start))
            }
            Action::NewImage { width, height, color, .. } => {
                self.asked.push("newImage".to_string());
                Event::Image(fill(width, height, color))
            }
            Action::LoadLocal { path } => {
                self.asked.push(format!("load:{path}"));
                if path == "missing.png" {
                    Event::Loaded(Err("no such file".to_string()))
                } else {
                    Event::Loaded(Ok(fill(2, 2, GREEN)))
                }
            }
            Action::Bounds { source_width, source_height, width, height, cover, at_least_one } => {
                self.asked.push(format!("bounds:{width}x{height}:{cover}"));
                if self.oversize {
                    return Event::Bounds { width: width * 2 + 2, height: height * 2 + 2 };
                }
                let by_width = width as f32 / source_width as f32;
                let by_height = height as f32 / source_height as f32;
                let factor = if cover { by_width.max(by_height) } else { by_width.min(by_height) };
                let mut sides = (source_width as f32 * factor, source_height as f32 * factor);
                if at_least_one {
                    sides = (sides.0.max(1.0), sides.1.max(1.0));
                }
                Event::Bounds { width: sides.0 as u32, height: sides.1 as u32 }
            }
            Action::Opacity { image, .. } => {
                self.asked.push("opacity".to_string());
                Event::Image(image)
            }
            Action::Text { image, text, .. } => {
                self.asked.push(format!("text:{text}"));
                Event::Image(image)
            }
            Action::DownloadImage { url } => {
                self.asked.push(format!("downloadImage:{url}"));
                Event::Download(match self.downloads {
                    DownloadKind::Fails => DownloadOutcome::Failed,
                    DownloadKind::Undecodable => DownloadOutcome::DecodeFailed,
                    DownloadKind::Green => DownloadOutcome::Image(fill(3, 3, GREEN)),
                })
            }
            Action::DownloadText { url } => {
                self.asked.push(format!("downloadText:{url}"));
                Event::Text("fetched".to_string())
            }
            Action::Layout { width, height, rows, columns, .. } => {
                self.asked.push(format!("layout:{rows}x{columns}"));
                Event::Layout(SplitLayout {
                    column_widths: vec![width / columns; columns as usize],
                    row_heights: vec![height / rows; rows as usize],
                    total_width: width as i32,
                    total_height: height as i32,
                })
            }
            Action::Positions { column_widths, row_heights, .. } => {
                self.asked.push("positions".to_string());
                let mut xs = Vec::new();
                let mut x = 0i64;
                for width in &column_widths {
                    xs.push(x);
                    x += *width as i64;
                }
                let mut ys = Vec::new();
                let mut y = 0i64;
                for height in &row_heights {
                    ys.push(y);
                    y += *height as i64;
                }
                Event::Positions(SplitPositions { xs, ys })
            }
        }
    }
}

fn scene(document: &str) -> E2eScene {
    E2eScene::from_json(&parse_json(document).expect("document should be json"))
        .expect("document should be a scene")
}

fn renderer(width: u32, height: u32) -> E2eRenderer {
    E2eRenderer { width, height, assets_dir: "/assets".to_string() }
}

fn drive(run: &mut RenderRun, host: &mut Host) -> Result<Canvas, E2eError> {
    let mut answer = None;
    for _ in 0..100_000 {
        match run.step(answer.take()) {
            Request::Continue => {}
            Request::Perform(action) => answer = Some(host.perform(action)),
            Request::Finished(result) => return result,
        }
    }
    panic!("the run did not end");
}

fn render(document: &str, width: u32, height: u32, host: &mut Host) -> Result<Canvas, E2eError> {
    let mut run = renderer(width, height).render_scene(scene(document));
    drive(&mut run, host)
}

fn pixel(canvas: &Canvas, x: u32, y: u32) -> [u8; 4] {
    let at = ((y * canvas.width + x) * 4) as usize;
    [canvas.pixels[at], canvas.pixels[at + 1], canvas.pixels[at + 2], canvas.pixels[at + 3]]
}

const ENTRY: &str = r#"{"id": "start", "type": "event", "data": {"keyword": "render"}}"#;

fn document(nodes: &str, edges: &str) -> String {
    format!(r##"{{"name": "test", "settings": {{"backgroundColor": "#102030"}}, "nodes": [{ENTRY}{nodes}], "edges": [{edges}]}}"##)
}

fn edge(source: &str, source_handle: &str, target: &str, target_handle: &str) -> String {
    format!(
        r#"{{"source": "{source}", "sourceHandle": "{source_handle}", "target": "{target}", "targetHandle": "{target_handle}"}}"#
    )
}

fn node(id: &str, keyword: &str, config: &str) -> String {
    format!(r#", {{"id": "{id}", "data": {{"keyword": "{keyword}", "config": {config}}}}}"#)
}

#[test]
fn scene_without_next_edge_is_its_background() {
    let mut host = Host::new();
    let canvas = render(&document("", ""), 4, 3, &mut host).expect("render should succeed");
    assert_eq!((canvas.width, canvas.height), (4, 3));
    assert_eq!(canvas.pixels.len(), 4 * 3 * 4);
    for y in 0..3 {
        for x in 0..4 {
            assert_eq!(pixel(&canvas, x, y), [0x10, 0x20, 0x30, 255]);
        }
    }
    assert!(host.asked.is_empty());
}

#[test]
fn scene_without_next_edge_is_over_before_its_first_step() {
    let run = renderer(2, 2).render_scene(scene(&document("", "")));
    assert!(run.is_finished());
}

#[test]
fn background_that_is_no_colour_is_black() {
    let text = format!(r#"{{"nodes": [{ENTRY}], "edges": []}}"#).replace("#102030", "");
    let mut host = Host::new();
    let canvas = render(&text, 2, 1, &mut host).expect("render should succeed");
    assert_eq!(canvas.pixels, vec![0, 0, 0, 255, 0, 0, 0, 255]);
    let odd = document("", "").replace("#102030", "nonsense");
    let canvas = render(&odd, 1, 1, &mut host).expect("render should succeed");
    assert_eq!(canvas.pixels, vec![0, 0, 0, 255]);
}

#[test]
fn scene_without_render_event_is_turned_down() {
    let text = r#"{"name": "empty", "nodes": [], "edges": []}"#;
    let mut host = Host::new();
    let error = render(text, 2, 2, &mut host).expect_err("render should fail");
    assert_eq!(error, E2eError::Invalid("scene empty has no render event".to_string()));
}

#[test]
fn color_node_fills_the_canvas() {
    let text = document(
        &node("fill", "render/color", r##"{"color": "#ff8000"}"##),
        &edge("start", "next", "fill", "prev"),
    );
    let mut host = Host::new();
    let canvas = render(&text, 3, 2, &mut host).expect("render should succeed");
    assert_eq!(pixel(&canvas, 2, 1), [255, 128, 0, 255]);
    assert_eq!(canvas.pixels.len(), 24);
}

#[test]
fn unknown_keyword_is_unsupported() {
    let text = document(&node("odd", "render/unknown", "{}"), &edge("start", "next", "odd", "prev"));
    let mut host = Host::new();
    let error = render(&text, 2, 2, &mut host).expect_err("render should fail");
    assert_eq!(
        error,
        E2eError::Unsupported("keyword render/unknown is not implemented".to_string())
    );
}

#[test]
fn wire_to_a_node_that_does_not_exist_brings_a_black_canvas() {
    let text = document("", &edge("start", "next", "nowhere", "prev"));
    let mut host = Host::new();
    let canvas = render(&text, 2, 2, &mut host).expect("render should succeed");
    assert_eq!(pixel(&canvas, 1, 1), [0, 0, 0, 255]);
}

#[test]
fn node_wired_twice_is_evaluated_once() {
    let nodes = format!(
        "{}{}",
        node("compose", "render/image", r#"{"placement": "stretch"}"#),
        node("paint", "render/gradient", r##"{"startColor": "#010203"}"##)
    );
    let edges = format!(
        "{}, {}, {}",
        edge("start", "next", "compose", "prev"),
        edge("paint", "fieldOutput", "compose", "fieldInput/image"),
        edge("paint", "fieldOutput", "compose", "fieldInput/inputImage")
    );
    let mut host = Host::new();
    let mut run = renderer(4, 4).render_scene(scene(&document(&nodes, &edges)));
    let canvas = drive(&mut run, &mut host).expect("render should succeed");
    assert_eq!(host.asked, vec!["gradient".to_string()]);
    assert_eq!(pixel(&canvas, 0, 0), [1, 2, 3, 255]);
    assert_eq!((canvas.width, canvas.height), (4, 4));
}

#[test]
fn stretch_fills_the_target_exactly() {
    let nodes = format!(
        "{}{}",
        node("compose", "render/image", r#"{"placement": "stretch"}"#),
        node("small", "data/newImage", r##"{"width": 1, "height": 1, "color": "#0000ff"}"##)
    );
    let edges = format!(
        "{}, {}",
        edge("start", "next", "compose", "prev"),
        edge("small", "fieldOutput", "compose", "fieldInput/image")
    );
    let mut host = Host::new();
    let canvas = render(&document(&nodes, &edges), 5, 3, &mut host).expect("render should succeed");
    assert_eq!((canvas.width, canvas.height), (5, 3));
    for y in 0..3 {
        for x in 0..5 {
            assert_eq!(pixel(&canvas, x, y), [0, 0, 255, 255]);
        }
    }
}

#[test]
fn identity_placement_centres_the_source() {
    let nodes = format!(
        "{}{}",
        node("compose", "render/image", r#"{"placement": "center"}"#),
        node("dot", "data/newImage", r##"{"width": 1, "height": 1, "color": "#ffffff"}"##)
    );
    let edges = format!(
        "{}, {}",
        edge("start", "next", "compose", "prev"),
        edge("dot", "fieldOutput", "compose", "fieldInput/image")
    );
    let mut host = Host::new();
    let canvas = render(&document(&nodes, &edges), 3, 3, &mut host).expect("render should succeed");
    assert_eq!(pixel(&canvas, 1, 1), [255, 255, 255, 255]);
    assert_eq!(pixel(&canvas, 0, 0), [0, 0, 0, 255]);
    assert_eq!(pixel(&canvas, 2, 2), [0, 0, 0, 255]);
}

#[test]
fn contain_and_cover_ask_the_host_for_the_box() {
    for (placement, cover) in [("contain", false), ("cover", true)] {
        let nodes = format!(
            "{}{}",
            node("compose", "render/image", &format!(r#"{{"placement": "{placement}"}}"#)),
            node("dot", "data/newImage", r##"{"width": 1, "height": 1, "color": "#ffffff"}"##)
        );
        let edges = format!(
            "{}, {}",
            edge("start", "next", "compose", "prev"),
            edge("dot", "fieldOutput", "compose", "fieldInput/image")
        );
        let mut host = Host::new();
        render(&document(&nodes, &edges), 6, 4, &mut host).expect("render should succeed");
        assert_eq!(host.asked, vec!["newImage".to_string(), format!("bounds:6x4:{cover}")]);
    }
}

fn placed(placement: &str, host: &mut Host) -> Result<Canvas, E2eError> {
    let nodes = format!(
        "{}{}",
        node("compose", "render/image", &format!(r#"{{"placement": "{placement}"}}"#)),
        node("bar", "data/newImage", r##"{"width": 2, "height": 1, "color": "#0000ff"}"##)
    );
    let edges = format!(
        "{}, {}",
        edge("start", "next", "compose", "prev"),
        edge("bar", "fieldOutput", "compose", "fieldInput/image")
    );
    render(&document(&nodes, &edges), 6, 4, host)
}

#[test]
fn contain_scales_the_picture_into_the_target() {
    let mut host = Host::new();
    let canvas = placed("contain", &mut host).expect("render should succeed");
    assert_eq!((canvas.width, canvas.height), (6, 4));
    for x in 0..6 {
        for y in 0..3 {
            assert_eq!(pixel(&canvas, x, y), [0, 0, 255, 255], "at {x},{y}");
        }
        assert_eq!(pixel(&canvas, x, 3), [0, 0, 0, 255], "at {x},3");
    }
}

#[test]
fn cover_scales_the_picture_over_the_whole_target() {
    let mut host = Host::new();
    let canvas = placed("cover", &mut host).expect("render should succeed");
    assert_eq!((canvas.width, canvas.height), (6, 4));
    for x in 0..6 {
        for y in 0..4 {
            assert_eq!(pixel(&canvas, x, y), [0, 0, 255, 255], "at {x},{y}");
        }
    }
}

#[test]
fn contain_turns_down_a_picture_that_is_larger_than_the_target() {
    let mut host = Host::new();
    host.oversize = true;
    assert_eq!(
        placed("contain", &mut host),
        Err(E2eError::Invalid(
            "a picture was scaled past the box that has to contain it".to_string()
        ))
    );
    let mut host = Host::new();
    host.oversize = true;
    let canvas = placed("cover", &mut host).expect("cover may be larger than the target");
    assert_eq!((canvas.width, canvas.height), (6, 4));
}

#[test]
fn resize_node_covers_the_box_that_the_host_works_out() {
    let nodes = format!(
        "{}{}",
        node("resize", "data/resizeImage", r#"{"width": 6, "height": 2, "scalingMode": "cover"}"#),
        node("square", "data/newImage", r##"{"width": 4, "height": 4, "color": "#ffffff"}"##)
    );
    let edges = format!(
        "{}, {}",
        edge("start", "next", "resize", "prev"),
        edge("square", "fieldOutput", "resize", "fieldInput/image")
    );
    let mut host = Host::new();
    let canvas = render(&document(&nodes, &edges), 8, 8, &mut host).expect("render");
    assert_eq!((canvas.width, canvas.height), (6, 6));
    assert_eq!(host.asked, vec!["newImage".to_string(), "bounds:6x2:true".to_string()]);
}

#[test]
fn qr_node_turns_down_a_size_that_no_picture_can_have() {
    let nodes = node("code", "data/qr", r#"{"code": "hello", "size": 4294967295}"#);
    let edges = edge("start", "next", "code", "prev");
    let mut host = Host::new();
    assert_eq!(
        render(&document(&nodes, &edges), 4, 4, &mut host),
        Err(E2eError::Invalid("picture is too large".to_string()))
    );
}

#[test]
fn composite_without_an_image_input_is_an_error() {
    let text = document(
        &node("compose", "render/image", "{}"),
        &edge("start", "next", "compose", "prev"),
    );
    let mut host = Host::new();
    let error = render(&text, 2, 2, &mut host).expect_err("render should fail");
    assert_eq!(error, E2eError::Invalid("render/image requires an image input".to_string()));
}

#[test]
fn if_else_follows_the_branch_of_its_condition() {
    for (condition, expected) in [("true", [255, 0, 0, 255]), ("false", [0, 0, 255, 255])] {
        let nodes = format!(
            "{}{}{}",
            node("choice", "logic/ifElse", &format!(r#"{{"condition": {condition}}}"#)),
            node("red", "render/color", r##"{"color": "#ff0000"}"##),
            node("blue", "render/color", r##"{"color": "#0000ff"}"##)
        );
        let edges = format!(
            "{}, {}, {}",
            edge("start", "next", "choice", "prev"),
            edge("choice", "field/thenNode", "red", "prev"),
            edge("choice", "field/elseNode", "blue", "prev")
        );
        let mut host = Host::new();
        let canvas = render(&document(&nodes, &edges), 1, 1, &mut host).expect("render");
        assert_eq!(pixel(&canvas, 0, 0), expected);
    }
}

#[test]
fn if_else_reads_a_text_as_its_condition() {
    for (url, expected) in [("ftp://x", [255, 0, 0, 255]), ("http://x", [255, 0, 0, 255])] {
        let nodes = format!(
            "{}{}{}{}",
            node("choice", "logic/ifElse", "{}"),
            node("fetch", "data/downloadUrl", &format!(r#"{{"url": "{url}"}}"#)),
            node("red", "render/color", r##"{"color": "#ff0000"}"##),
            node("blue", "render/color", r##"{"color": "#0000ff"}"##)
        );
        let edges = format!(
            "{}, {}, {}, {}",
            edge("start", "next", "choice", "prev"),
            edge("fetch", "fieldOutput", "choice", "fieldInput/condition"),
            edge("choice", "field/thenNode", "red", "prev"),
            edge("choice", "field/elseNode", "blue", "prev")
        );
        let mut host = Host::new();
        let canvas = render(&document(&nodes, &edges), 1, 1, &mut host).expect("render");
        assert_eq!(pixel(&canvas, 0, 0), expected);
    }
}

#[test]
fn root_that_is_no_image_is_an_error() {
    let text = document(
        &node("fetch", "data/downloadUrl", r#"{"url": "gopher://x"}"#),
        &edge("start", "next", "fetch", "prev"),
    );
    let mut host = Host::new();
    let error = render(&text, 1, 1, &mut host).expect_err("render should fail");
    assert_eq!(
        error,
        E2eError::Invalid("render pipeline root did not return image".to_string())
    );
    assert!(host.asked.is_empty());
}

#[test]
fn download_of_another_scheme_is_not_attempted() {
    let text = document(
        &node("fetch", "data/downloadImage", r#"{"url": "file:///etc/passwd"}"#),
        &edge("start", "next", "fetch", "prev"),
    );
    let mut host = Host::new();
    let canvas = render(&text, 3, 2, &mut host).expect("render should succeed");
    assert!(host.asked.is_empty());
    assert_eq!(canvas, error_image(3, 2).expect("error image"));
    assert_eq!(pixel(&canvas, 0, 0), [200, 0, 0, 255]);
    assert_eq!(pixel(&canvas, 1, 1), [200, 0, 0, 255]);
    assert_eq!(pixel(&canvas, 2, 1), [50, 0, 0, 255]);
    assert_eq!(pixel(&canvas, 1, 0), [50, 0, 0, 255]);
}

#[test]
fn failed_download_degrades_to_the_error_image() {
    for kind in [DownloadKind::Fails, DownloadKind::Undecodable] {
        let text = document(
            &node("fetch", "data/downloadImage", r#"{"url": "https://example.com/a.png"}"#),
            &edge("start", "next", "fetch", "prev"),
        );
        let mut host = Host::new();
        host.downloads = kind;
        let canvas = render(&text, 2, 2, &mut host).expect("render should succeed");
        assert_eq!(canvas, error_image(2, 2).expect("error image"));
        assert_eq!(host.asked, vec!["downloadImage:https://example.com/a.png".to_string()]);
    }
    let text = document(
        &node("fetch", "data/downloadImage", r#"{"url": "https://example.com/a.png"}"#),
        &edge("start", "next", "fetch", "prev"),
    );
    let mut host = Host::new();
    host.downloads = DownloadKind::Green;
    let canvas = render(&text, 2, 2, &mut host).expect("render should succeed");
    assert_eq!((canvas.width, canvas.height), (3, 3));
}

#[test]
fn local_image_needs_a_path_and_passes_failures_on() {
    let text = document(&node("pic", "data/localImage", "{}"), &edge("start", "next", "pic", "prev"));
    let mut host = Host::new();
    let error = render(&text, 1, 1, &mut host).expect_err("render should fail");
    assert_eq!(error, E2eError::Invalid("data/localImage requires path".to_string()));

    let text = document(
        &node("pic", "data/localImage", r#"{"path": "././/assets/assets/missing.png"}"#),
        &edge("start", "next", "pic", "prev"),
    );
    let error = render(&text, 1, 1, &mut host).expect_err("render should fail");
    assert_eq!(error, E2eError::Image("no such file".to_string()));
    assert_eq!(host.asked, vec!["load:missing.png".to_string()]);
}

#[test]
fn text_node_without_text_hands_on_its_image() {
    let text = document(&node("label", "render/text", "{}"), &edge("start", "next", "label", "prev"));
    let mut host = Host::new();
    let canvas = render(&text, 2, 2, &mut host).expect("render should succeed");
    assert!(host.asked.is_empty());
    assert_eq!(pixel(&canvas, 0, 0), [0, 0, 0, 255]);

    let text = document(
        &node("label", "render/text", r#"{"text": "hello"}"#),
        &edge("start", "next", "label", "prev"),
    );
    render(&text, 2, 2, &mut host).expect("render should succeed");
    assert_eq!(host.asked, vec!["text:hello".to_string()]);
}

#[test]
fn text_node_takes_its_text_from_a_wire() {
    let nodes = format!(
        "{}{}",
        node("label", "render/text", r#"{"text": "fallback"}"#),
        node("state", "logic/setAsState", r#"{"valueString": "wired"}"#)
    );
    let edges = format!(
        "{}, {}",
        edge("start", "next", "label", "prev"),
        edge("state", "fieldOutput", "label", "fieldInput/text")
    );
    let mut host = Host::new();
    render(&document(&nodes, &edges), 2, 2, &mut host).expect("render should succeed");
    assert_eq!(host.asked, vec!["text:wired".to_string()]);
}

#[test]
fn split_renders_each_cell_and_fills_the_empty_ones() {
    let nodes = format!(
        "{}{}",
        node("grid", "render/split", r#"{"rows": 1, "columns": "2"}"#),
        node("red", "render/color", r##"{"color": "#ff0000"}"##)
    );
    let edges = format!(
        "{}, {}",
        edge("start", "next", "grid", "prev"),
        edge("grid", "field/render_functions[1][2]", "red", "prev")
    );
    let mut host = Host::new();
    let canvas = render(&document(&nodes, &edges), 4, 2, &mut host).expect("render should succeed");
    assert_eq!(host.asked, vec!["layout:1x2".to_string(), "positions".to_string()]);
    assert_eq!(pixel(&canvas, 0, 0), [0, 0, 0, 255]);
    assert_eq!(pixel(&canvas, 1, 1), [0, 0, 0, 255]);
    assert_eq!(pixel(&canvas, 2, 0), [255, 0, 0, 255]);
    assert_eq!(pixel(&canvas, 3, 1), [255, 0, 0, 255]);
}

#[test]
fn split_can_hide_its_empty_cells() {
    let text = document(
        &node("grid", "renderTextSplit", r#"{"rows": 2, "columns": 1, "hideEmpty": "TRUE"}"#),
        &edge("start", "next", "grid", "prev"),
    );
    let mut host = Host::new();
    let canvas = render(&text, 2, 2, &mut host).expect("render should succeed");
    assert_eq!(canvas.pixels, vec![0; 16]);
}

#[test]
fn split_shares_the_fallback_renderer_and_evaluates_it_once() {
    let nodes = format!(
        "{}{}",
        node("grid", "render/split", r#"{"rows": 2, "columns": 2}"#),
        node("paint", "render/gradient", r##"{"startColor": "#00ff00"}"##)
    );
    let edges = format!(
        "{}, {}",
        edge("start", "next", "grid", "prev"),
        edge("grid", "field/render_function", "paint", "prev")
    );
    let mut host = Host::new();
    render(&document(&nodes, &edges), 4, 4, &mut host).expect("render should succeed");
    assert_eq!(
        host.asked,
        vec!["layout:2x2".to_string(), "positions".to_string(), "gradient".to_string()]
    );
}

#[test]
fn wires_in_a_circle_are_an_error() {
    let nodes = format!(
        "{}{}",
        node("a", "render/opacity", "{}"),
        node("b", "render/opacity", "{}")
    );
    let edges = format!(
        "{}, {}, {}",
        edge("start", "next", "a", "prev"),
        edge("b", "out", "a", "fieldInput/image"),
        edge("a", "out", "b", "fieldInput/image")
    );
    let mut host = Host::new();
    let error = render(&document(&nodes, &edges), 2, 2, &mut host).expect_err("render should fail");
    assert_eq!(
        error,
        E2eError::Invalid("the wires of the scene run in a circle".to_string())
    );
}

#[test]
fn resize_node_stretches_centres_and_fits() {
    for (mode, expected) in [("stretch", (6, 2)), ("center", (6, 2)), ("contain", (2, 2))] {
        let nodes = format!(
            "{}{}",
            node(
                "resize",
                "data/resizeImage",
                &format!(r#"{{"width": 6, "height": 2, "scalingMode": "{mode}"}}"#)
            ),
            node("square", "data/newImage", r##"{"width": 4, "height": 4, "color": "#ffffff"}"##)
        );
        let edges = format!(
            "{}, {}",
            edge("start", "next", "resize", "prev"),
            edge("square", "fieldOutput", "resize", "fieldInput/image")
        );
        let mut host = Host::new();
        let canvas = render(&document(&nodes, &edges), 8, 8, &mut host).expect("render");
        assert_eq!((canvas.width, canvas.height), expected, "mode {mode}");
    }
}

#[test]
fn qr_node_draws_a_code_in_two_colours() {
    let text = document(
        &node(
            "code",
            "data/qr",
            r##"{"code": "frameos", "size": 64, "qrCodeColor": "#112233", "backgroundColor": "#ddeeff"}"##,
        ),
        &edge("start", "next", "code", "prev"),
    );
    let mut host = Host::new();
    let canvas = render(&text, 8, 8, &mut host).expect("render should succeed");
    assert!(canvas.width > 0 && canvas.width <= 64);
    assert_eq!(canvas.width, canvas.height);
    assert_eq!(canvas.pixels.len(), (canvas.width * canvas.height * 4) as usize);
    assert_eq!(pixel(&canvas, 0, 0), [0xdd, 0xee, 0xff, 255]);
    let dark = canvas.pixels.chunks(4).filter(|p| *p == [0x11, 0x22, 0x33, 255]).count();
    let light = canvas.pixels.chunks(4).filter(|p| *p == [0xdd, 0xee, 0xff, 255]).count();
    assert!(dark > 0);
    assert_eq!(dark + light, (canvas.width * canvas.height) as usize);
}

#[test]
fn a_step_that_is_owed_an_answer_fails_without_one() {
    let text = document(
        &node("paint", "render/gradient", "{}"),
        &edge("start", "next", "paint", "prev"),
    );
    let mut run = renderer(2, 2).render_scene(scene(&text));
    loop {
        match run.step(None) {
            Request::Continue => {}
            Request::Perform(_) => break,
            Request::Finished(_) => panic!("the run should ask for the gradient"),
        }
    }
    assert_eq!(
        run.step(None),
        Request::Finished(Err(E2eError::Invalid("the host owes an answer".to_string())))
    );
    assert!(run.is_finished());
}

#[test]
fn an_answer_that_was_not_asked_for_fails_the_run() {
    let text = document(&node("fill", "render/color", "{}"), &edge("start", "next", "fill", "prev"));
    let mut run = renderer(2, 2).render_scene(scene(&text));
    assert_eq!(
        run.step(Some(Event::Text("unasked".to_string()))),
        Request::Finished(Err(E2eError::Invalid("no answer was asked for".to_string())))
    );
}

#[test]
fn last_dimension_takes_what_the_others_leave() {
    let mut lengths = vec![100, 100, 95];
    fix_last_dimension(&mut lengths, 320);
    assert_eq!(lengths, vec![100, 100, 120]);
    let mut lengths = vec![200, 200];
    fix_last_dimension(&mut lengths, 300);
    assert_eq!(lengths, vec![200, 100]);
    let mut lengths = vec![200, 200];
    fix_last_dimension(&mut lengths, 100);
    assert_eq!(lengths, vec![200, 1]);
    let mut lengths: Vec<u32> = vec![];
    fix_last_dimension(&mut lengths, 100);
    assert!(lengths.is_empty());
    let mut lengths = vec![7];
    fix_last_dimension(&mut lengths, -5);
    assert_eq!(lengths, vec![1]);
}

#[test]
fn scene_documents_are_read_with_their_defaults() {
    let parsed = scene(
        r#"{"nodes": [
            {"id": "a", "data": {"keyword": "render/color"}},
            {"id": "note", "data": {}},
            {"id": "b", "type": "event", "data": {"keyword": "render", "config": {"x": 1}}}
        ], "edges": [{"source": "b", "target": "a"}]}"#,
    );
    assert_eq!(parsed.name(), "scene");
    assert_eq!(parsed.background_color(), "#000000");
    assert_eq!(parsed.nodes().len(), 2);
    assert_eq!(parsed.nodes()[0].node_type, "app");
    assert_eq!(parsed.nodes()[1].node_type, "event");
    assert_eq!(parsed.edges()[0].source_handle, "");
    assert_eq!(parsed.edges()[0].target_handle, "");
}

#[test]
fn scene_documents_that_lack_something_are_turned_down() {
    let cases = [
        (r#"{"edges": []}"#, "missing nodes"),
        (r#"{"nodes": []}"#, "missing edges"),
        (r#"{"nodes": [{"data": {}}], "edges": []}"#, "node missing id"),
        (r#"{"nodes": [{"id": "n7"}], "edges": []}"#, "node n7 missing data"),
        (r#"{"nodes": [], "edges": [{"target": "a"}]}"#, "edge missing source"),
        (r#"{"nodes": [], "edges": [{"source": "a"}]}"#, "edge missing target"),
    ];
    for (text, why) in cases {
        let error = E2eScene::from_json(&parse_json(text).unwrap()).expect_err("should fail");
        assert_eq!(error, E2eError::Invalid(why.to_string()));
    }
    assert!(matches!(E2eScene::from_text("{"), Err(E2eError::Json(_))));
}
