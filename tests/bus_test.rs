use uno::game::UnoGame;
use uno::ports::bus::{ConsolerLogger, EventBus};

#[test]
fn test_log_bus() {
    let mut bus = EventBus::new();
    bus.register_handler(ConsolerLogger::new());

    let mut game = UnoGame::new();
    let events = game.init_game(vec!["Alice".into(), "Bob".into()]);
    let n = events.len();
    bus.publish(events);
    assert_eq!(bus.handlers.len(), 1);
    assert_eq!(bus.handlers[0].lines.len(), n);
    assert!(bus.handlers[0].lines[0].contains("PlayerJoined"));
    assert!(bus.handlers[0].lines[0].starts_with("[ConsoleLogger] Event: "));
}

#[test]
fn bus_hands_batches_to_every_handler_in_order() {
    let mut bus = EventBus::new();
    bus.register_handler(ConsolerLogger::new());
    bus.register_handler(ConsolerLogger::new());
    let mut game = UnoGame::new();
    let events = game.init_game(vec!["Ann".into()]);
    let n = events.len();
    bus.publish_events(&events);
    bus.publish_events(&events[..1]);
    assert_eq!(bus.handlers[0].lines.len(), n + 1);
    assert_eq!(bus.handlers[1].lines.len(), n + 1);
    assert_eq!(bus.handlers[0].lines, bus.handlers[1].lines);
}
