use astrodon::registry::SubscriptionRegistry;
use astrodon::router::{
    ipc_send_event, route, run_window, send_to_window, AstrodonMessage, RouteAction, RunWindowMessage,
    SentToWindowMessage, WindowContent, WryEvent,
};
use astrodon::windows::{LoopAction, WindowEvent, WindowTable};

#[test]
fn two_listeners_both_receive_then_leave() {
    let mut reg = SubscriptionRegistry::new();
    assert!(reg.subscribe("ready".to_string(), 1));
    assert!(reg.subscribe("ready".to_string(), 2));
    assert!(!reg.subscribe("ready".to_string(), 2));
    let action = route(ipc_send_event("ready".to_string(), "\"ok\"".to_string()), &reg);
    assert_eq!(action, RouteAction::Deliver { subscribers: vec![1, 2], content: "\"ok\"".to_string() });
    reg.unsubscribe(&"ready".to_string(), 1);
    assert_eq!(reg.subscribers(&"ready".to_string()), vec![2]);
    reg.unsubscribe(&"ready".to_string(), 2);
    assert!(reg.subscribers(&"ready".to_string()).is_empty());
    assert!(!reg.has_event(&"ready".to_string()));
}

#[test]
fn event_without_listeners_reaches_nobody() {
    let reg = SubscriptionRegistry::new();
    let action = route(AstrodonMessage::SentToDenoMessage("x".to_string(), "1".to_string()), &reg);
    assert_eq!(action, RouteAction::Deliver { subscribers: vec![], content: "1".to_string() });
}

#[test]
fn registered_listener_gets_fresh_id() {
    let mut reg = SubscriptionRegistry::new();
    let a = reg.register_listener("e".to_string()).unwrap();
    let b = reg.register_listener("e".to_string()).unwrap();
    assert_ne!(a, b);
    assert_eq!(reg.subscribers(&"e".to_string()), vec![a, b]);
}

#[test]
fn unsubscribe_leaves_other_names() {
    let mut reg = SubscriptionRegistry::new();
    reg.subscribe("a".to_string(), 5);
    reg.subscribe("b".to_string(), 5);
    reg.unsubscribe(&"a".to_string(), 5);
    reg.unsubscribe(&"a".to_string(), 5);
    assert_eq!(reg.subscribers(&"b".to_string()), vec![5]);
    assert!(!reg.has_event(&"a".to_string()));
}

#[test]
fn run_window_then_send_to_window() {
    let open = RunWindowMessage {
        id: "main".to_string(),
        title: "T".to_string(),
        content: WindowContent::Url { url: "https://x".to_string() },
    };
    let reg = SubscriptionRegistry::new();
    let action = route(run_window(open.clone()), &reg);
    assert_eq!(action, RouteAction::ToWindowLoop(WryEvent::NewWindow(open.clone())));

    let mut table: WindowTable<&str> = WindowTable::new();
    table.open(open.id.clone(), 41, "webview-main");
    assert_eq!(table.window_for(&"main".to_string()), Some(&"webview-main"));

    let msg = send_to_window(SentToWindowMessage {
        id: "main".to_string(),
        event: "ping".to_string(),
        content: "1".to_string(),
    });
    let action = route(msg, &reg);
    assert_eq!(
        action,
        RouteAction::ToWindowLoop(WryEvent::RunScript(
            "main".to_string(),
            "window.dispatchEvent(new CustomEvent('ping', {detail: JSON.parse(1)}));".to_string()
        ))
    );
}

#[test]
fn send_to_unknown_window_is_dropped() {
    let mut table: WindowTable<u8> = WindowTable::new();
    table.open("main".to_string(), 1, 10);
    assert_eq!(table.window_for(&"other".to_string()), None);
    assert_eq!(table.live_count(), 1);
    assert_eq!(table.get(1), Some(&10));
}

#[test]
fn closing_windows_until_none_left() {
    let mut table: WindowTable<u8> = WindowTable::new();
    table.open("a".to_string(), 1, 10);
    table.open("b".to_string(), 2, 20);
    assert!(!table.close(1));
    assert_eq!(table.window_for(&"a".to_string()), None);
    assert_eq!(table.window_for(&"b".to_string()), Some(&20));
    assert_eq!(table.get(2), Some(&20));
    assert_eq!(table.live_count(), 1);
    assert!(table.close(2));
    assert_eq!(table.live_count(), 0);
}

#[test]
fn reused_logical_name_points_at_newest_window() {
    let mut table: WindowTable<u8> = WindowTable::new();
    table.open("a".to_string(), 1, 10);
    table.open("a".to_string(), 2, 20);
    assert_eq!(table.window_for(&"a".to_string()), Some(&20));
    assert!(!table.close(2));
    assert_eq!(table.window_for(&"a".to_string()), None);
    assert_eq!(table.get(1), Some(&10));
}

#[test]
fn loop_steps_through_window_lifecycle() {
    let mut table: WindowTable<u8> = WindowTable::new();
    table.open("main".to_string(), 7, 1);
    table.open("side".to_string(), 8, 2);
    assert_eq!(
        table.handle(WindowEvent::RunScript("main".to_string(), "f()".to_string())),
        LoopAction::Evaluate { window: 7, script: "f()".to_string() }
    );
    assert_eq!(table.handle(WindowEvent::RunScript("nope".to_string(), "f()".to_string())), LoopAction::Wait);
    assert_eq!(table.handle(WindowEvent::Resized(8)), LoopAction::Resize(8));
    assert_eq!(table.handle(WindowEvent::Resized(99)), LoopAction::Wait);
    assert_eq!(table.handle(WindowEvent::CloseRequested(8)), LoopAction::Wait);
    assert_eq!(table.handle(WindowEvent::RunScript("side".to_string(), "g()".to_string())), LoopAction::Wait);
    assert_eq!(table.handle(WindowEvent::CloseRequested(7)), LoopAction::Exit);
    assert_eq!(table.live_count(), 0);
}
