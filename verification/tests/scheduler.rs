use wayland_overlay::color::Rgba;
use wayland_overlay::draw::{DrawOperation, Length, PaintCommand, PixelParams, RectangleParams};
use wayland_overlay::network::Command;
use wayland_overlay::scheduler::Scheduler;
use wayland_overlay::wayland::Presentation;

fn pixel(x: i32) -> DrawOperation {
    DrawOperation::Pixel(PixelParams { x, y: 0, color: "FFFFFF".to_string() })
}

fn command(layer: i32, timeout_ms: Option<u64>, ops: Vec<DrawOperation>) -> Command {
    Command { layer: Some(layer), timeout_ms, operations: ops }
}

fn frame(pool_len: usize) -> Presentation {
    Presentation { width: 20, height: 10, stride: 80, size: 800, grow_pool: pool_len < 800 }
}

fn configured() -> Scheduler {
    let mut s = Scheduler::new(20, 10);
    s.app.configure(20, 10);
    s
}

#[test]
fn unconfigured_ticks_apply_commands_but_present_nothing() {
    let mut s = Scheduler::new(20, 10);
    assert_eq!(s.advance(0, vec![command(1, None, vec![pixel(1)])], 800), None);
    assert_eq!(s.canvas.layer_ids(), vec![1]);
    assert!(s.app.renderer.commands.is_empty());
    assert!(s.dirty);
    assert_eq!(s.advance(16, vec![command(2, Some(10), vec![pixel(2)])], 800), None);
    assert_eq!(s.canvas.layer_ids(), vec![1, 2]);
    assert_eq!(s.advance(32, vec![], 800), None);
    assert_eq!(s.canvas.layer_ids(), vec![1]);
    assert!(s.app.renderer.commands.is_empty());
}

#[test]
fn first_tick_after_configure_presents() {
    let mut s = Scheduler::new(20, 10);
    s.advance(0, vec![command(1, None, vec![pixel(1)])], 800);
    s.app.configure(20, 10);
    assert_eq!(s.advance(16, vec![], 800), Some(frame(800)));
    assert_eq!(s.app.renderer.commands.len(), 1);
    assert!(!s.dirty && !s.app.needs_render);
}

#[test]
fn idle_tick_presents_nothing() {
    let mut s = configured();
    assert_eq!(s.advance(0, vec![], 0), Some(frame(0)));
    assert_eq!(s.advance(16, vec![], 800), None);
    assert_eq!(s.advance(32, vec![], 800), None);
    assert!(!s.dirty && !s.app.needs_render);
}

#[test]
fn a_command_makes_a_frame_due() {
    let mut s = configured();
    s.advance(0, vec![], 800);
    assert_eq!(s.advance(16, vec![command(0, None, vec![pixel(4)])], 800), Some(frame(800)));
    assert_eq!(
        s.app.renderer.commands,
        vec![PaintCommand::FillRect {
            x: 4000,
            y: 0,
            width: 1000,
            height: 1000,
            color: Rgba { r: 255, g: 255, b: 255, a: 255 },
        }]
    );
    assert_eq!(s.advance(32, vec![], 800), None);
}

#[test]
fn an_expired_layer_makes_a_frame_due() {
    let mut s = configured();
    s.advance(0, vec![command(0, Some(100), vec![pixel(4)])], 800);
    assert_eq!(s.advance(99, vec![], 800), None);
    assert_eq!(s.app.renderer.commands.len(), 1);
    assert_eq!(s.advance(100, vec![], 800), Some(frame(800)));
    assert!(s.app.renderer.commands.is_empty());
    assert!(s.canvas.layer_ids().is_empty());
    assert_eq!(s.advance(116, vec![], 800), None);
}

#[test]
fn a_resize_makes_a_frame_due() {
    let mut s = configured();
    s.advance(0, vec![command(0, None, vec![pixel(4)])], 800);
    assert!(s.app.configure(40, 30));
    assert!(s.app.renderer.commands.is_empty());
    assert_eq!(
        s.advance(16, vec![], 800),
        Some(Presentation { width: 40, height: 30, stride: 160, size: 4800, grow_pool: true })
    );
    assert_eq!(s.app.renderer.commands.len(), 1);
}

#[test]
fn a_request_makes_a_frame_due() {
    let mut s = configured();
    s.advance(0, vec![], 800);
    s.request_render();
    assert!(s.dirty);
    assert_eq!(s.advance(16, vec![], 800), Some(frame(800)));
    assert_eq!(s.advance(32, vec![], 800), None);
}

#[test]
fn commands_of_one_tick_apply_in_order() {
    let mut s = configured();
    s.advance(
        0,
        vec![
            command(3, None, vec![pixel(1)]),
            command(1, None, vec![pixel(2)]),
            command(3, None, vec![pixel(3), pixel(4)]),
        ],
        800,
    );
    assert_eq!(s.canvas.layer_ids(), vec![1, 3]);
    assert_eq!(s.canvas.get(3).unwrap().operations.len(), 2);
    assert_eq!(s.app.renderer.commands.len(), 3);
}

#[test]
fn prune_comes_before_the_commands_of_the_tick() {
    let mut s = configured();
    s.advance(0, vec![command(1, Some(10), vec![pixel(1)])], 800);
    s.advance(10, vec![command(2, Some(0), vec![pixel(2)])], 800);
    assert_eq!(s.canvas.layer_ids(), vec![2]);
    s.advance(10, vec![], 800);
    assert!(s.canvas.layer_ids().is_empty());
}

#[test]
fn tick_takes_what_waits_in_the_channel() {
    let (sender, receiver) = crossbeam::channel::unbounded::<Command>();
    let mut s = configured();
    assert_eq!(s.tick(&receiver, 0, 800), Some(frame(800)));
    assert_eq!(s.tick(&receiver, 16, 800), None);
    sender.send(command(5, None, vec![pixel(5)])).unwrap();
    sender.send(command(1, Some(16), vec![pixel(1)])).unwrap();
    sender.send(command(5, None, vec![pixel(6), pixel(7)])).unwrap();
    assert_eq!(s.tick(&receiver, 32, 800), Some(frame(800)));
    assert!(receiver.is_empty());
    assert_eq!(s.canvas.layer_ids(), vec![1, 5]);
    assert_eq!(s.app.renderer.commands.len(), 3);
    assert_eq!(s.tick(&receiver, 47, 800), None);
    assert_eq!(s.tick(&receiver, 48, 800), Some(frame(800)));
    assert_eq!(s.canvas.layer_ids(), vec![5]);
}

#[test]
fn tick_goes_on_when_the_senders_are_gone() {
    let (sender, receiver) = crossbeam::channel::unbounded::<Command>();
    sender.send(command(1, None, vec![pixel(1)])).unwrap();
    drop(sender);
    let mut s = configured();
    assert_eq!(s.tick(&receiver, 0, 800), Some(frame(800)));
    assert_eq!(s.canvas.layer_ids(), vec![1]);
    assert_eq!(s.tick(&receiver, 16, 800), None);
}

#[test]
fn layer_two_is_removed_one_prune_after_an_empty_command_with_timeout_zero() {
    let mut s = configured();
    let rectangle = DrawOperation::Rectangle(RectangleParams {
        x1: 0,
        y1: 0,
        x2: 10,
        y2: 10,
        fill_color: "0xFFFFFFFF".to_string(),
        outline_width: Length { millis: 0 },
        outline_color: "0x00000000".to_string(),
    });
    let first = Command { layer: Some(2), timeout_ms: None, operations: vec![rectangle] };
    let second = Command { layer: Some(2), timeout_ms: Some(0), operations: vec![] };
    s.advance(1000, vec![first, second], 800);
    assert_eq!(s.canvas.layer_ids(), vec![2]);
    assert!(s.app.renderer.commands.is_empty());
    assert_eq!(s.advance(1016, vec![], 800), Some(frame(800)));
    assert!(s.canvas.get(2).is_none());
    assert!(s.app.renderer.commands.is_empty());
}

#[test]
fn a_server_needs_an_endpoint() {
    use_endpoints(None, None, false);
    use_endpoints(Some(7435), None, true);
    use_endpoints(None, Some("/tmp/overlay.sock"), true);
    use_endpoints(Some(0), Some(""), true);
}

fn use_endpoints(udp: Option<u16>, socket: Option<&str>, expected: bool) {
    let endpoints = wayland_overlay::network::Endpoints { udp, socket: socket.map(|s| s.to_string()) };
    assert_eq!(endpoints.any(), expected);
}
