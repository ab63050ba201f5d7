use event_bus::command::{LightOffCommand, LightOnCommand, Remote};
use event_bus::event::{Event, EventTypeId, LightAction, LightActionType};
use event_bus::handler::LightActionHandler;
use event_bus::light::Light;
use event_bus::mediator::{BroadcastOutcome, ConcreteMediator, Handler, Mediator};
use event_bus::observer::{LightStateObserver, Subject};

fn light_action(name: &str, action_type: LightActionType) -> Event {
    Event::Light(LightAction { action_type, light_name: name.to_string() })
}

#[test]
fn fresh_observer_has_seen_nothing() {
    let o = LightStateObserver::new();
    assert_eq!(o.update_count(), 0);
    assert_eq!(o.last_update(), None);
}

#[test]
fn on_then_off_notifies_each_round() {
    let mut light = Light::new("light_1".to_string(), false);
    let key = "light_observer_1".to_string();
    light.attach_observer(&key, LightStateObserver::new());
    light.on();
    assert!(light.state());
    assert_eq!(light.get_observer(&key).unwrap().update_count(), 1);
    assert_eq!(light.get_observer(&key).unwrap().last_update(), Some(true));
    light.off();
    assert!(!light.state());
    let observer = light.get_observer(&key).unwrap();
    assert_eq!(observer.update_count(), 2);
    assert_eq!(observer.last_update(), Some(false));
}

#[test]
fn attach_with_existing_key_replaces() {
    let mut light = Light::new("light_1".to_string(), false);
    let key = "watcher".to_string();
    light.attach_observer(&key, LightStateObserver::new());
    light.on();
    assert_eq!(light.get_observer(&key).unwrap().update_count(), 1);
    light.attach_observer(&key, LightStateObserver::new());
    assert_eq!(light.observer_count(), 1);
    assert_eq!(light.get_observer(&key).unwrap().update_count(), 0);
}

#[test]
fn detach_never_attached_key_returns_false() {
    let mut light = Light::new("light_1".to_string(), true);
    let key = "watcher".to_string();
    light.attach_observer(&key, LightStateObserver::new());
    let missing = "nobody".to_string();
    assert!(!light.detach_observer(&missing));
    assert!(light.state());
    assert_eq!(light.observer_count(), 1);
}

#[test]
fn detach_attached_key_stops_notifications() {
    let mut light = Light::new("light_1".to_string(), false);
    let key = "watcher".to_string();
    light.attach_observer(&key, LightStateObserver::new());
    light.on();
    assert!(light.detach_observer(&key));
    assert_eq!(light.observer_count(), 0);
    light.off();
    assert!(light.get_observer(&key).is_none());
}

#[test]
fn remote_executes_bound_command() {
    let mut lights = vec![
        Light::new("a".to_string(), false),
        Light::new("b".to_string(), true),
    ];
    let mut remote = Remote::new(LightOnCommand::new(0));
    remote.execute(&mut lights);
    assert!(lights[0].state());
    assert!(lights[1].state());
    remote.set_command(LightOnCommand::new(1));
    remote.execute(&mut lights);
    assert!(lights[1].state());
    let mut off_remote = Remote::new(LightOffCommand::new(1));
    off_remote.execute(&mut lights);
    assert!(!lights[1].state());
    assert!(lights[0].state());
}

#[test]
fn command_is_re_invocable() {
    let mut lights = vec![Light::new("a".to_string(), false)];
    let mut remote = Remote::new(LightOnCommand::new(0));
    remote.execute(&mut lights);
    remote.execute(&mut lights);
    assert!(lights[0].state());
}

#[test]
fn event_reports_its_kind() {
    let e = light_action("light_1", LightActionType::On);
    assert_eq!(e.type_id(), EventTypeId::LightAction);
}

#[test]
fn handler_declares_light_action() {
    let h = LightActionHandler::new();
    assert_eq!(h.handles_type(), EventTypeId::LightAction);
}

#[test]
fn add_light_with_existing_name_replaces() {
    let mut handler = LightActionHandler::new();
    handler.add_light(Light::new("light_1".to_string(), false));
    handler.add_light(Light::new("light_1".to_string(), true));
    assert_eq!(handler.light_count(), 1);
    let name = "light_1".to_string();
    assert!(handler.get_light(&name).unwrap().state());
}

#[test]
fn broadcast_without_registration_is_unhandled() {
    let mut handler = LightActionHandler::new();
    handler.add_light(Light::new("light_1".to_string(), false));
    let key = "watcher".to_string();
    {
        // The handler was never registered, so the bus cannot reach it.
        let mut mediator: ConcreteMediator<LightActionHandler> = ConcreteMediator::new();
        let outcome = mediator.broadcast(&light_action("light_1", LightActionType::On));
        assert_eq!(outcome, BroadcastOutcome::UnhandledEventKind);
        assert_eq!(mediator.handler_count(EventTypeId::LightAction), 0);
    }
    let name = "light_1".to_string();
    let light = handler.get_light(&name).unwrap();
    assert!(!light.state());
    assert!(light.get_observer(&key).is_none());
}

#[test]
fn broadcast_drives_light_and_notifies_observer() {
    let mut light = Light::new("light_1".to_string(), false);
    let key = "light_observer_1".to_string();
    light.attach_observer(&key, LightStateObserver::new());
    let mut handler = LightActionHandler::new();
    handler.add_light(light);
    let mut mediator = ConcreteMediator::new();
    mediator.mediate(handler);

    let outcome = mediator.broadcast(&light_action("light_1", LightActionType::On));
    assert_eq!(outcome, BroadcastOutcome::Handled);
    let name = "light_1".to_string();
    {
        let h = mediator.get_handler(EventTypeId::LightAction, 0).unwrap();
        let l = h.get_light(&name).unwrap();
        assert!(l.state());
        let observer = l.get_observer(&key).unwrap();
        assert_eq!(observer.update_count(), 1);
        assert_eq!(observer.last_update(), Some(true));
    }

    let outcome = mediator.broadcast(&light_action("light_1", LightActionType::Off));
    assert_eq!(outcome, BroadcastOutcome::Handled);
    let h = mediator.get_handler(EventTypeId::LightAction, 0).unwrap();
    let l = h.get_light(&name).unwrap();
    assert!(!l.state());
    let observer = l.get_observer(&key).unwrap();
    assert_eq!(observer.update_count(), 2);
    assert_eq!(observer.last_update(), Some(false));
}

#[test]
fn broadcast_missing_target_is_silent_no_op() {
    let mut light = Light::new("light_1".to_string(), false);
    let key = "watcher".to_string();
    light.attach_observer(&key, LightStateObserver::new());
    let mut handler = LightActionHandler::new();
    handler.add_light(light);
    let mut mediator = ConcreteMediator::new();
    mediator.mediate(handler);

    let outcome = mediator.broadcast(&light_action("nonexistent", LightActionType::On));
    // The handler ran and found no entity: still a handled broadcast.
    assert_eq!(outcome, BroadcastOutcome::Handled);
    let name = "light_1".to_string();
    let h = mediator.get_handler(EventTypeId::LightAction, 0).unwrap();
    let l = h.get_light(&name).unwrap();
    assert!(!l.state());
    assert_eq!(l.get_observer(&key).unwrap().update_count(), 0);
}

#[test]
fn broadcast_runs_every_registered_handler() {
    let mut first = LightActionHandler::new();
    first.add_light(Light::new("shared".to_string(), false));
    let mut second = LightActionHandler::new();
    second.add_light(Light::new("shared".to_string(), false));
    let mut mediator = ConcreteMediator::new();
    mediator.mediate(first);
    mediator.mediate(second);
    assert_eq!(mediator.handler_count(EventTypeId::LightAction), 2);

    let outcome = mediator.broadcast(&light_action("shared", LightActionType::On));
    assert_eq!(outcome, BroadcastOutcome::Handled);
    let name = "shared".to_string();
    for k in 0..2 {
        let h = mediator.get_handler(EventTypeId::LightAction, k).unwrap();
        assert!(h.get_light(&name).unwrap().state());
    }
}
