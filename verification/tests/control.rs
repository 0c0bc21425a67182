use rustforge::event_bus::{BusObservation, BusStep, EventBusClient};
use rustforge::events::{Envelope, OrderSide, OrderType, SystemEvent, TradeSide};
use rustforge::gateway::TimeInForce;
use rustforge::interceptor::MaxOpenOrders;
use rustforge::kill_switch::KillSwitch;
use rustforge::persistence::{should_flush, BatchEvent, DbEvent, TickBatch, BATCH_SIZE};
use rustforge::risk::KillSwitchState;
use rustforge::tui::{
    can_center, centered_rect, handle_key, Area, Key, KeyPress, UiCommand, UiState, MOD_CONTROL,
    MOD_NONE, MOD_SHIFT,
};
use std::cmp::Ordering;

fn press(modifiers: u8, key: Key) -> KeyPress {
    KeyPress { modifiers, key }
}

fn idle() -> UiState {
    UiState { should_quit: false, show_help: false, paper_mode: false, active_panel: 0 }
}

#[test]
fn envelopes_order_by_time_then_sequence() {
    let a = Envelope::new(100, 1, 7, "a");
    let b = Envelope::new(100, 2, 8, "b");
    let c = Envelope::new(99, 3, 9, "c");
    assert_eq!(a.cmp(&b), Ordering::Less);
    assert_eq!(b.cmp(&a), Ordering::Greater);
    assert_eq!(c.cmp(&a), Ordering::Less);
    assert_eq!(a.cmp(&a), Ordering::Equal);
    assert_eq!(a.partial_cmp(&b), Some(Ordering::Less));
    assert!(c < a && a < b);
}

#[test]
fn envelopes_are_equal_by_sequence_number() {
    let a = Envelope::new(100, 1, 7, "a");
    let b = Envelope::new(5, 9, 7, "b");
    let c = Envelope::new(100, 1, 8, "a");
    assert!(a == b);
    assert!(a != c);
    assert_eq!(a.ts_event, 100);
    assert_eq!(a.ts_init, 1);
    assert_eq!(a.payload, "a");
}

#[test]
fn enums_compare_and_copy() {
    assert_eq!(TradeSide::Buy, TradeSide::Buy);
    assert_ne!(TradeSide::Sell, TradeSide::Unknown);
    assert_ne!(OrderSide::Buy, OrderSide::Sell);
    assert_eq!(OrderType::Limit, OrderType::Limit);
    assert_ne!(TimeInForce::IOC, TimeInForce::FOK);
    let s = SystemEvent::Shutdown;
    assert!(matches!(s, SystemEvent::Shutdown));
}

#[test]
fn kill_switch_latches() {
    let mut k = KillSwitch::new();
    assert!(!k.is_halted());
    k.trigger("manual");
    assert!(k.is_halted());
    k.trigger("again");
    assert!(k.is_halted());
}

#[test]
fn max_open_orders_blocks_at_the_limit() {
    let rule = MaxOpenOrders { max_orders: 3 };
    assert!(!rule.blocks(0));
    assert!(!rule.blocks(2));
    assert!(rule.blocks(3));
    assert!(rule.blocks(10));
    assert!(MaxOpenOrders { max_orders: 0 }.blocks(0));
}

#[test]
fn bus_client_keeps_its_address_and_steps() {
    let c = EventBusClient::new("127.0.0.1:7000".to_string());
    assert_eq!(c.addr(), "127.0.0.1:7000");
    assert_eq!(c.next_step(BusObservation::Connected), BusStep::ReadLine);
    assert_eq!(c.next_step(BusObservation::ConnectFailed), BusStep::PauseThenReconnect);
    assert_eq!(c.next_step(BusObservation::EventDecoded), BusStep::Deliver);
    assert_eq!(c.next_step(BusObservation::UndecodableLine), BusStep::ReadLine);
    assert_eq!(c.next_step(BusObservation::Delivered), BusStep::ReadLine);
    assert_eq!(c.next_step(BusObservation::ReceiverGone), BusStep::Stop);
    assert_eq!(c.next_step(BusObservation::ConnectionLost), BusStep::Reconnect);
}

#[test]
fn flush_policy() {
    assert!(!should_flush(BatchEvent::TickBuffered(BATCH_SIZE - 1)));
    assert!(should_flush(BatchEvent::TickBuffered(BATCH_SIZE)));
    assert!(!should_flush(BatchEvent::TimerFired(0)));
    assert!(should_flush(BatchEvent::TimerFired(1)));
}

#[test]
fn tick_batch_flushes_a_full_batch_in_order() {
    let mut b: TickBatch<u32> = TickBatch::new();
    for i in 0..(BATCH_SIZE as u32 - 1) {
        assert!(b.on_event(DbEvent::MarketTick(i)).is_none());
    }
    assert_eq!(b.len(), BATCH_SIZE - 1);
    let batch = b.on_event(DbEvent::MarketTick(9999)).unwrap();
    assert_eq!(batch.len(), BATCH_SIZE);
    assert_eq!(batch[0], 0);
    assert_eq!(batch[1], 1);
    assert_eq!(batch[BATCH_SIZE - 1], 9999);
    assert_eq!(b.len(), 0);
}

#[test]
fn tick_batch_timer_flushes_only_a_non_empty_buffer() {
    let mut b: TickBatch<&str> = TickBatch::new();
    assert!(b.on_timer().is_none());
    assert!(b.on_event(DbEvent::MarketTick("a")).is_none());
    assert!(b.on_event(DbEvent::MarketTick("b")).is_none());
    assert_eq!(b.on_timer(), Some(vec!["a", "b"]));
    assert_eq!(b.len(), 0);
    assert!(b.on_timer().is_none());
}

#[test]
fn risk_kill_switch_records_the_first_reason() {
    let mut k = KillSwitchState::new();
    assert!(!k.is_active());
    assert_eq!(k.check(), Ok(()));
    assert!(k.activate("Drawdown 6.00% exceeds halt threshold 5.00%".to_string()));
    assert!(k.is_active());
    assert!(!k.activate("second".to_string()));
    assert_eq!(
        k.check(),
        Err("Order blocked by kill switch: Drawdown 6.00% exceeds halt threshold 5.00%".to_string())
    );
}

#[test]
fn risk_kill_switch_reset_allows_orders() {
    let mut k = KillSwitchState::new();
    k.activate("x".to_string());
    assert!(k.check().is_err());
    k.reset();
    assert!(!k.is_active());
    assert_eq!(k.check(), Ok(()));
    assert!(k.activate("y".to_string()));
    assert_eq!(k.check(), Err("Order blocked by kill switch: y".to_string()));
}

#[test]
fn help_swallows_keys_until_dismissed() {
    let mut s = UiState { show_help: true, ..idle() };
    assert_eq!(handle_key(&mut s, press(MOD_NONE, Key::Char('q'))), UiCommand::Nothing);
    assert!(!s.should_quit && s.show_help);
    assert_eq!(handle_key(&mut s, press(MOD_CONTROL, Key::Char('x'))), UiCommand::Nothing);
    assert!(s.show_help);
    assert_eq!(handle_key(&mut s, press(MOD_SHIFT, Key::Char('?'))), UiCommand::Nothing);
    assert!(!s.show_help);
    let mut s = UiState { show_help: true, ..idle() };
    handle_key(&mut s, press(MOD_CONTROL, Key::Esc));
    assert!(!s.show_help);
}

#[test]
fn key_bindings() {
    let mut s = idle();
    assert_eq!(handle_key(&mut s, press(MOD_NONE, Key::Char('?'))), UiCommand::Nothing);
    assert!(s.show_help);
    let mut s = idle();
    handle_key(&mut s, press(MOD_NONE, Key::Char('4')));
    assert_eq!(s.active_panel, 3);
    handle_key(&mut s, press(MOD_CONTROL, Key::Char('p')));
    assert!(s.paper_mode);
    handle_key(&mut s, press(MOD_CONTROL, Key::Char('p')));
    assert!(!s.paper_mode);
    assert_eq!(handle_key(&mut s, press(MOD_NONE, Key::Char('k'))), UiCommand::ScrollUp);
    assert_eq!(handle_key(&mut s, press(MOD_NONE, Key::Down)), UiCommand::ScrollDown);
    assert_eq!(handle_key(&mut s, press(MOD_NONE, Key::Tab)), UiCommand::NextPanel);
    assert_eq!(handle_key(&mut s, press(MOD_SHIFT, Key::BackTab)), UiCommand::PrevPanel);
    assert_eq!(handle_key(&mut s, press(MOD_CONTROL, Key::Char('x'))), UiCommand::CancelAll);
    assert_eq!(handle_key(&mut s, press(MOD_NONE, Key::Char('x'))), UiCommand::CancelSelected);
    assert_eq!(handle_key(&mut s, press(MOD_SHIFT, Key::Char('A'))), UiCommand::TriggerMirofish);
    assert_eq!(handle_key(&mut s, press(MOD_NONE, Key::Char('a'))), UiCommand::TriggerDexter);
    assert_eq!(handle_key(&mut s, press(MOD_NONE, Key::F(5))), UiCommand::RefreshPortfolio);
    assert_eq!(handle_key(&mut s, press(MOD_NONE, Key::F(6))), UiCommand::Nothing);
    assert_eq!(handle_key(&mut s, press(MOD_NONE, Key::Esc)), UiCommand::DismissDialog);
    assert_eq!(handle_key(&mut s, press(MOD_SHIFT, Key::Char('b'))), UiCommand::Nothing);
    assert_eq!(s.active_panel, 3);
    assert!(!s.should_quit);
    handle_key(&mut s, press(MOD_CONTROL, Key::Char('c')));
    assert!(s.should_quit);
}

#[test]
fn centered_rect_of_a_full_screen() {
    let r = Area { x: 0, y: 0, width: 100, height: 50 };
    assert!(can_center(60, 80, r));
    assert_eq!(centered_rect(60, 80, r), Area { x: 20, y: 5, width: 60, height: 40 });
    let r = Area { x: 3, y: 2, width: 81, height: 25 };
    assert_eq!(centered_rect(60, 80, r), Area { x: 19, y: 4, width: 48, height: 20 });
}

#[test]
fn can_center_rejects_overflow() {
    assert!(!can_center(60, 80, Area { x: 0, y: 0, width: 2000, height: 10 }));
    assert!(!can_center(150, 80, Area { x: 0, y: 0, width: 100, height: 10 }));
    assert!(can_center(150, 80, Area { x: 0, y: 0, width: 0, height: 10 }));
    assert!(!can_center(0, 80, Area { x: 65535, y: 0, width: 10, height: 10 }));
}
