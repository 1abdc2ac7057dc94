use crossbeam::queue::SegQueue;

use softrender::Canvas;
use softrender::Color;
use softrender::Coord;
use softrender::LoopState;
use softrender::Paint;
use softrender::PollEvent;
use softrender::present;

#[test]
fn close_request_moves_open_to_closing() {
    assert_eq!(
        present::handle_event(LoopState::Open, PollEvent::CloseRequested),
        LoopState::Closing
    );
    assert_eq!(
        present::handle_event(LoopState::Open, PollEvent::QuitKeyCombo),
        LoopState::Closing
    );
    assert_eq!(present::handle_event(LoopState::Open, PollEvent::Other), LoopState::Open);
    assert_eq!(
        present::handle_event(LoopState::Closing, PollEvent::Other),
        LoopState::Closing
    );
}

#[test]
fn loop_stops_after_closing() {
    assert!(present::loop_continues(LoopState::Open));
    assert!(!present::loop_continues(LoopState::Closing));
    assert!(!present::loop_continues(LoopState::Closed));
    assert_eq!(present::shutdown(LoopState::Closing), LoopState::Closed);
}

#[test]
fn event_batch_folds_in_order() {
    let events = vec![PollEvent::Other, PollEvent::CloseRequested, PollEvent::Other];
    assert_eq!(present::poll_events(LoopState::Open, &events), LoopState::Closing);
    let quiet = vec![PollEvent::Other, PollEvent::Other];
    assert_eq!(present::poll_events(LoopState::Open, &quiet), LoopState::Open);
    let empty: Vec<PollEvent> = vec![];
    assert_eq!(present::poll_events(LoopState::Open, &empty), LoopState::Open);
}

#[test]
fn drain_writes_every_queued_instruction() {
    let mut canvas = Canvas::new(2, 2);
    let mut q: SegQueue<Paint> = SegQueue::new();
    q.push(Paint::new(Coord { x: 1, y: 1 }, Color { r: 4, g: 4, b: 4, a: 255 }));
    q.push(Paint::new(Coord { x: 0, y: 1 }, Color { r: 3, g: 3, b: 3, a: 255 }));
    present::drain_channel(&mut canvas, &mut q);
    assert!(q.is_empty());
    assert_eq!(canvas.get(1, 1), Color { r: 4, g: 4, b: 4, a: 255 });
    assert_eq!(canvas.get(0, 1), Color { r: 3, g: 3, b: 3, a: 255 });
    assert_eq!(canvas.get(0, 0), Color { r: 0, g: 0, b: 0, a: 0 });
    assert_eq!(canvas.get(1, 0), Color { r: 0, g: 0, b: 0, a: 0 });
}

#[test]
fn presentation_step_renders_before_draining() {
    let mut canvas = Canvas::new(1, 2);
    let mut q: SegQueue<Paint> = SegQueue::new();
    q.push(Paint::new(Coord { x: 0, y: 0 }, Color { r: 7, g: 7, b: 7, a: 255 }));
    let events = vec![PollEvent::CloseRequested];
    let (frame, state) = present::presentation_step(&mut canvas, &mut q, &events, LoopState::Open);
    // the frame shows the canvas as it stood before this iteration's drain
    assert_eq!(frame, vec![0, 0, 0, 0, 0, 0, 0, 0]);
    // the drain of the same iteration has landed in the canvas
    assert_eq!(canvas.get(0, 0), Color { r: 7, g: 7, b: 7, a: 255 });
    assert!(q.is_empty());
    assert_eq!(state, LoopState::Closing);
}

#[test]
fn dispatch_produces_one_instruction_per_coordinate() {
    let width: usize = 6;
    let height: usize = 4;
    let mut q: SegQueue<Paint> = SegQueue::new();
    softrender::dispatch::dispatch_stateful(width, height, &(), &|c: Coord, _s: &()| Color {
        r: c.x as u8,
        g: c.y as u8,
        b: 0,
        a: 255,
    }, &mut q);

    let mut seen = vec![0usize; width * height];
    let mut total: usize = 0;
    while let Some(p) = q.pop() {
        assert!(p.x < width && p.y < height);
        assert_eq!(p.r, p.x as u8);
        assert_eq!(p.g, p.y as u8);
        seen[p.y * width + p.x] += 1;
        total += 1;
    }
    assert_eq!(total, width * height);
    for count in seen {
        assert_eq!(count, 1);
    }
}
