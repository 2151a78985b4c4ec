use hal_sim::dto::display::{Change as DisplayChange, DisplayMeta, DisplayName};
use hal_sim::dto::gpio::{ButtonType, PinMeta, PinName, PinType, PinValue};
use hal_sim::dto::web::{DisplayUpdate, PinInputUpdate, PinUpdate, WebEvent, WebRequest};
use hal_sim::gpio::Change;
use hal_sim::notification::Notifier;
use hal_sim::peripherals::{PeripheralStore, Peripherals};
use hal_sim::web::Session;
use hal_sim::ws::{broadcast, WS_MAX_CONNECTIONS, WS_MAX_FRAME_LEN};

fn name(text: &str) -> PinName {
    PinName::try_from(text).unwrap()
}

fn title(text: &str) -> DisplayName {
    DisplayName::try_from(text).unwrap()
}

fn taken() -> (PeripheralStore, Peripherals) {
    let mut store = PeripheralStore::new();
    let peripherals = Peripherals::take(&mut store).unwrap();
    (store, peripherals)
}

fn button_meta() -> PinMeta {
    PinMeta {
        name: name("Button"),
        category: name("Inputs"),
        pin_type: PinType::Input(ButtonType::Toggle),
    }
}

fn pin_update(id: u8, meta: Option<PinMeta>, dropped: bool, value: PinValue) -> Option<WebEvent> {
    Some(WebEvent::PinUpdate(PinUpdate { id, meta, dropped, value }))
}

fn drain(session: &mut Session, store: &mut PeripheralStore) -> Vec<WebEvent> {
    let mut events = Vec::new();
    while let Some(event) = session.send_state(store) {
        events.push(event);
    }
    events
}

fn drain_store(store: &mut PeripheralStore) {
    while Peripherals::fetch(store, &mut None, &mut None).is_some() {}
    store.poll_wait();
}

#[test]
fn connection_limits() {
    assert_eq!(WS_MAX_CONNECTIONS, 2);
    assert_eq!(WS_MAX_FRAME_LEN, 512);
}

#[test]
fn late_session_is_told_the_present_state_as_created() {
    let (mut store, mut peripherals) = taken();
    let _button = peripherals.pins.input(&mut store, name("Button"), name("Inputs"), false);

    let mut sessions = vec![Session::new(&store)];
    broadcast(&mut store, &mut sessions);
    assert_eq!(
        sessions[0].send_state(&mut store),
        pin_update(0, Some(button_meta()), false, PinValue::Input(false))
    );
    assert_eq!(sessions[0].send_state(&mut store), None);

    let request = WebRequest::PinInputUpdate(PinInputUpdate::Discrete(0, true));
    assert!(store.accepts(&request));
    assert!(hal_sim::web::receive(&mut store, Some(request)));
    assert!(store.notification().triggered());
    broadcast(&mut store, &mut sessions);
    assert_eq!(
        sessions[0].send_state(&mut store),
        pin_update(0, None, false, PinValue::Input(true))
    );
    assert_eq!(sessions[0].send_state(&mut store), None);

    sessions.push(Session::new(&store));
    broadcast(&mut store, &mut sessions);
    assert_eq!(
        sessions[1].send_state(&mut store),
        pin_update(0, Some(button_meta()), false, PinValue::Input(true))
    );
    assert_eq!(sessions[1].send_state(&mut store), None);
    assert_eq!(sessions[0].send_state(&mut store), None);
}

#[test]
fn late_session_is_told_at_once() {
    let (mut store, mut peripherals) = taken();
    let _button = peripherals.pins.input(&mut store, name("Button"), name("Inputs"), true);
    let _screen = peripherals.displays.display::<u32>(&mut store, title("Screen"), 1, 1);
    drain_store(&mut store);
    assert_eq!(*store.pin(0).unwrap().change(), Change::Unchanged);

    let mut late = Session::new(&store);
    assert!(late.notification().triggered());
    assert_eq!(late.known_pins(), 1);
    assert_eq!(late.known_displays(), 1);
    let events = drain(&mut late, &mut store);
    assert_eq!(events.len(), 3);
    assert_eq!(
        events[0],
        WebEvent::PinUpdate(PinUpdate {
            id: 0,
            meta: Some(button_meta()),
            dropped: false,
            value: PinValue::Input(true)
        })
    );
    assert_eq!(
        events[1],
        WebEvent::DisplayUpdate(DisplayUpdate::MetaUpdate {
            id: 0,
            meta: Some(DisplayMeta { name: title("Screen"), width: 1, height: 1 }),
            dropped: false
        })
    );
    assert!(!late.notification().triggered());
}

#[test]
fn session_drains_only_after_it_was_woken() {
    let (mut store, mut peripherals) = taken();
    let mut led = peripherals.pins.output(&mut store, name("Led"), name("Out"), false);
    let mut sessions = vec![Session::new(&store)];
    assert_eq!(drain(&mut sessions[0], &mut store).len(), 1);
    assert!(!sessions[0].notification().triggered());

    assert!(led.set_output(&mut store, true));
    assert_eq!(sessions[0].send_state(&mut store), None);
    broadcast(&mut store, &mut sessions);
    assert!(sessions[0].notification().triggered());
    assert!(sessions[0].send_state(&mut store).is_some());
    assert!(sessions[0].notification().triggered());
    assert_eq!(sessions[0].send_state(&mut store), None);
    assert!(!sessions[0].notification().triggered());
}

#[test]
fn broadcast_wakes_the_task_of_every_session() {
    let (mut store, _peripherals) = taken();
    let mut sessions = vec![Session::new(&store), Session::new(&store)];
    let first = sessions[0].notification().waker();
    let second = sessions[1].notification().waker();
    assert!(embassy_futures::poll_once(first.wait()).is_ready());
    assert!(embassy_futures::poll_once(second.wait()).is_ready());
    assert!(embassy_futures::poll_once(first.wait()).is_pending());
    assert_eq!(sessions[0].send_state(&mut store), None);
    assert_eq!(sessions[1].send_state(&mut store), None);

    broadcast(&mut store, &mut sessions);
    assert!(embassy_futures::poll_once(first.wait()).is_ready());
    assert!(embassy_futures::poll_once(second.wait()).is_ready());
    assert!(embassy_futures::poll_once(first.wait()).is_pending());
    assert_eq!(sessions[0].send_state(&mut store), None);
}

#[test]
fn broadcast_leaves_the_records_of_the_store() {
    let (mut store, mut peripherals) = taken();
    let mut led = peripherals.pins.output(&mut store, name("Led"), name("Out"), false);
    let mut screen = peripherals.displays.display::<u32>(&mut store, title("Screen"), 2, 2);
    drain_store(&mut store);
    assert!(led.set_output(&mut store, true));
    screen.draw_iter(&mut store, &[(1, 1, 5)]);
    assert!(store.notification().triggered());

    let mut sessions = vec![Session::new(&store), Session::new(&store)];
    broadcast(&mut store, &mut sessions);
    assert!(!store.notification().triggered());
    assert_eq!(*store.pin(0).unwrap().change(), Change::Updated);
    assert_eq!(*store.pin(0).unwrap().pin().value(), PinValue::Output(true));
    assert_eq!(
        *store.display(0).unwrap().change(),
        DisplayChange::Updated(vec![(0, 0), (1, 2)], false)
    );
    assert!(sessions[0].notification().triggered());
    assert!(sessions[1].notification().triggered());
    broadcast(&mut store, &mut sessions);
    assert_eq!(*store.pin(0).unwrap().change(), Change::Updated);
}

#[test]
fn first_drain_resets_the_record_of_the_store() {
    let (mut store, mut peripherals) = taken();
    let mut led = peripherals.pins.output(&mut store, name("Led"), name("Out"), false);
    let mut screen = peripherals.displays.display::<u32>(&mut store, title("Screen"), 2, 2);
    let mut sessions = vec![Session::new(&store), Session::new(&store)];
    drain(&mut sessions[0], &mut store);
    drain(&mut sessions[1], &mut store);
    assert_eq!(*store.pin(0).unwrap().change(), Change::Unchanged);
    assert_eq!(*store.display(0).unwrap().change(), DisplayChange::Updated(vec![], false));

    assert!(led.set_output(&mut store, true));
    screen.draw_iter(&mut store, &[(1, 1, 5)]);
    broadcast(&mut store, &mut sessions);
    assert_eq!(*store.pin(0).unwrap().change(), Change::Updated);

    assert_eq!(
        sessions[0].send_state(&mut store),
        pin_update(0, None, false, PinValue::Output(true))
    );
    assert_eq!(*store.pin(0).unwrap().change(), Change::Unchanged);
    assert_eq!(
        *store.display(0).unwrap().change(),
        DisplayChange::Updated(vec![(0, 0), (1, 2)], false)
    );
    assert!(sessions[0].send_state(&mut store).is_some());
    assert_eq!(*store.display(0).unwrap().change(), DisplayChange::Updated(vec![], false));
    assert_eq!(sessions[0].send_state(&mut store), None);

    assert_eq!(
        drain(&mut sessions[1], &mut store).len(),
        2
    );
    assert_eq!(*store.pin(0).unwrap().change(), Change::Unchanged);
}

#[test]
fn broadcast_gives_a_new_place_the_record_of_the_store() {
    let (mut store, mut peripherals) = taken();
    let mut sessions = vec![Session::new(&store), Session::new(&store)];
    assert_eq!(sessions[0].known_pins(), 0);
    let _led = peripherals.pins.output(&mut store, name("Led"), name("Out"), false);
    broadcast(&mut store, &mut sessions);
    assert_eq!(sessions[0].known_pins(), 1);
    assert_eq!(
        sessions[0].send_state(&mut store),
        pin_update(
            0,
            Some(PinMeta { name: name("Led"), category: name("Out"), pin_type: PinType::Output }),
            false,
            PinValue::Output(false)
        )
    );

    let _other = peripherals.pins.output(&mut store, name("Other"), name("Out"), true);
    drain_store(&mut store);
    broadcast(&mut store, &mut sessions);
    assert_eq!(sessions[0].known_pins(), 2);
    assert_eq!(drain(&mut sessions[0], &mut store), vec![]);
}

#[test]
fn created_comes_before_updated() {
    let (mut store, mut peripherals) = taken();
    let mut led = peripherals.pins.output(&mut store, name("Led"), name("Out"), false);
    let mut sessions = vec![Session::new(&store)];
    broadcast(&mut store, &mut sessions);
    assert!(led.set_output(&mut store, true));
    broadcast(&mut store, &mut sessions);
    let events = drain(&mut sessions[0], &mut store);
    assert_eq!(
        events,
        vec![WebEvent::PinUpdate(PinUpdate {
            id: 0,
            meta: Some(PinMeta {
                name: name("Led"),
                category: name("Out"),
                pin_type: PinType::Output
            }),
            dropped: false,
            value: PinValue::Output(true),
        })]
    );
}

#[test]
fn pending_update_stays_while_the_store_records_it() {
    let (mut store, mut peripherals) = taken();
    let mut led = peripherals.pins.output(&mut store, name("Led"), name("Out"), false);
    let mut other = peripherals.pins.output(&mut store, name("Other"), name("Out"), false);
    let mut sessions = vec![Session::new(&store)];
    drain(&mut sessions[0], &mut store);

    assert!(led.set_output(&mut store, true));
    broadcast(&mut store, &mut sessions);
    assert!(other.set_output(&mut store, true));
    broadcast(&mut store, &mut sessions);
    broadcast(&mut store, &mut sessions);
    let events = drain(&mut sessions[0], &mut store);
    assert_eq!(
        events,
        vec![
            WebEvent::PinUpdate(PinUpdate {
                id: 0,
                meta: None,
                dropped: false,
                value: PinValue::Output(true)
            }),
            WebEvent::PinUpdate(PinUpdate {
                id: 1,
                meta: None,
                dropped: false,
                value: PinValue::Output(true)
            }),
        ]
    );
}

#[test]
fn pending_update_takes_on_the_record_of_the_store() {
    let (mut store, mut peripherals) = taken();
    let mut led = peripherals.pins.output(&mut store, name("Led"), name("Out"), false);
    let mut other = peripherals.pins.output(&mut store, name("Other"), name("Out"), false);
    let mut sessions = vec![Session::new(&store), Session::new(&store)];
    drain(&mut sessions[0], &mut store);
    drain(&mut sessions[1], &mut store);

    assert!(led.set_output(&mut store, true));
    broadcast(&mut store, &mut sessions);
    assert_eq!(
        drain(&mut sessions[0], &mut store),
        vec![WebEvent::PinUpdate(PinUpdate {
            id: 0,
            meta: None,
            dropped: false,
            value: PinValue::Output(true)
        })]
    );
    assert!(other.set_output(&mut store, true));
    broadcast(&mut store, &mut sessions);
    assert_eq!(
        drain(&mut sessions[1], &mut store),
        vec![WebEvent::PinUpdate(PinUpdate {
            id: 1,
            meta: None,
            dropped: false,
            value: PinValue::Output(true)
        })]
    );
}

#[test]
fn sessions_drain_on_their_own() {
    let (mut store, mut peripherals) = taken();
    let mut led = peripherals.pins.output(&mut store, name("Led"), name("Out"), false);
    let mut sessions = vec![Session::new(&store), Session::new(&store)];
    broadcast(&mut store, &mut sessions);
    drain(&mut sessions[0], &mut store);
    drain(&mut sessions[1], &mut store);

    assert!(led.set_output(&mut store, true));
    broadcast(&mut store, &mut sessions);
    let told = pin_update(0, None, false, PinValue::Output(true));
    assert_eq!(sessions[0].send_state(&mut store), told);
    assert_eq!(sessions[0].send_state(&mut store), None);
    assert_eq!(sessions[0].send_state(&mut store), None);
    assert_eq!(*store.pin(0).unwrap().pin().value(), PinValue::Output(true));
    assert_eq!(sessions[1].send_state(&mut store), told);
    assert_eq!(sessions[1].send_state(&mut store), None);
}

#[test]
fn every_session_is_told_of_a_dropped_pin_once() {
    let (mut store, mut peripherals) = taken();
    let led = peripherals.pins.output(&mut store, name("Led"), name("Out"), true);
    let mut sessions = vec![Session::new(&store), Session::new(&store)];
    broadcast(&mut store, &mut sessions);
    drain(&mut sessions[0], &mut store);

    led.drop(&mut store);
    broadcast(&mut store, &mut sessions);
    broadcast(&mut store, &mut sessions);
    sessions.push(Session::new(&store));
    broadcast(&mut store, &mut sessions);

    let meta = PinMeta { name: name("Led"), category: name("Out"), pin_type: PinType::Output };
    assert_eq!(
        drain(&mut sessions[0], &mut store),
        vec![WebEvent::PinUpdate(PinUpdate {
            id: 0,
            meta: None,
            dropped: true,
            value: PinValue::Output(true)
        })]
    );
    for late in 1..3 {
        assert_eq!(
            drain(&mut sessions[late], &mut store),
            vec![WebEvent::PinUpdate(PinUpdate {
                id: 0,
                meta: Some(meta.clone()),
                dropped: true,
                value: PinValue::Output(true)
            })]
        );
    }
    broadcast(&mut store, &mut sessions);
    for session in sessions.iter_mut() {
        assert_eq!(drain(session, &mut store), vec![]);
    }
}

#[test]
fn every_session_is_told_of_a_dropped_display_once() {
    let (mut store, mut peripherals) = taken();
    let screen = peripherals.displays.display::<u32>(&mut store, title("Screen"), 1, 1);
    let mut sessions = vec![Session::new(&store), Session::new(&store)];
    broadcast(&mut store, &mut sessions);
    assert_eq!(drain(&mut sessions[0], &mut store).len(), 2);

    screen.drop(&mut store);
    broadcast(&mut store, &mut sessions);
    let told = drain(&mut sessions[0], &mut store);
    assert_eq!(
        told,
        vec![WebEvent::DisplayUpdate(DisplayUpdate::MetaUpdate {
            id: 0,
            meta: None,
            dropped: true
        })]
    );
    let late = drain(&mut sessions[1], &mut store);
    assert_eq!(late.len(), 2);
    assert_eq!(
        late[0],
        WebEvent::DisplayUpdate(DisplayUpdate::MetaUpdate {
            id: 0,
            meta: Some(DisplayMeta { name: title("Screen"), width: 1, height: 1 }),
            dropped: true
        })
    );
    broadcast(&mut store, &mut sessions);
    assert_eq!(drain(&mut sessions[0], &mut store), vec![]);
    assert_eq!(drain(&mut sessions[1], &mut store), vec![]);
}

#[test]
fn pins_come_before_displays_and_lesser_ids_first() {
    let (mut store, mut peripherals) = taken();
    let _screen = peripherals.displays.display::<u32>(&mut store, title("Screen"), 1, 1);
    let _other = peripherals.displays.display::<u32>(&mut store, title("Other"), 1, 1);
    let _led = peripherals.pins.output(&mut store, name("Led"), name("Out"), false);
    let _button = peripherals.pins.input(&mut store, name("Button"), name("Inputs"), false);
    let mut sessions = vec![Session::new(&store)];
    broadcast(&mut store, &mut sessions);
    let order: Vec<(bool, u8)> = drain(&mut sessions[0], &mut store)
        .iter()
        .map(|event| match event {
            WebEvent::PinUpdate(update) => (true, update.id),
            WebEvent::DisplayUpdate(update) => (false, update.id()),
        })
        .collect();
    assert_eq!(
        order,
        vec![(true, 0), (true, 1), (false, 0), (false, 0), (false, 1), (false, 1)]
    );
}

#[test]
fn session_merges_the_rows_that_were_drawn() {
    let (mut store, mut peripherals) = taken();
    let mut screen = peripherals.displays.display::<u32>(&mut store, title("Screen"), 8, 2);
    let mut sessions = vec![Session::new(&store)];
    broadcast(&mut store, &mut sessions);
    drain(&mut sessions[0], &mut store);

    screen.draw_iter(&mut store, &[(1, 0, 7)]);
    broadcast(&mut store, &mut sessions);
    screen.draw_iter(&mut store, &[(6, 0, 7), (3, 1, 7)]);
    broadcast(&mut store, &mut sessions);
    let events = drain(&mut sessions[0], &mut store);
    let spans: Vec<(u16, u16, usize)> = events
        .iter()
        .map(|event| match event {
            WebEvent::DisplayUpdate(DisplayUpdate::StripeUpdate(stripe)) => {
                (stripe.row, stripe.start, stripe.data.len() / 3)
            }
            other => panic!("no stripe: {:?}", other),
        })
        .collect();
    assert_eq!(spans, vec![(0, 1, 6), (1, 3, 1)]);
}

#[test]
fn local_observer_drains_the_store_itself() {
    let (mut store, mut peripherals) = taken();
    let mut led = peripherals.pins.output(&mut store, name("Led"), name("Out"), false);
    let mut signal = Notifier::new();
    let mut pins = None;
    let mut displays = None;
    assert_eq!(hal_sim::io::send(&mut store, &mut pins, &mut displays, &mut signal), None);

    hal_sim::io::peripherals_callback(&mut signal);
    assert!(signal.triggered());
    let first = hal_sim::io::send(&mut store, &mut pins, &mut displays, &mut signal);
    assert!(matches!(
        first,
        Some(WebEvent::PinUpdate(PinUpdate { id: 0, meta: Some(_), dropped: false, .. }))
    ));
    assert!(signal.triggered());
    assert_eq!(*store.pin(0).unwrap().change(), Change::Unchanged);
    assert_eq!(hal_sim::io::send(&mut store, &mut pins, &mut displays, &mut signal), None);
    assert!(!signal.triggered());

    led.set_output(&mut store, true);
    hal_sim::io::peripherals_callback(&mut signal);
    assert_eq!(
        hal_sim::io::send(&mut store, &mut pins, &mut displays, &mut signal),
        pin_update(0, None, false, PinValue::Output(true))
    );
    assert_eq!(pins, None);
    assert_eq!(displays, None);
}

#[test]
fn received_request_is_applied() {
    let (mut store, mut peripherals) = taken();
    let button = peripherals.pins.input(&mut store, name("Button"), name("Inputs"), false);
    let request = WebRequest::PinInputUpdate(PinInputUpdate::Discrete(0, true));
    assert!(hal_sim::web::receive(&mut store, Some(request.clone())));
    assert!(!hal_sim::web::receive(&mut store, Some(request.clone())));
    assert!(!hal_sim::web::receive(&mut store, None));
    assert!(!Peripherals::apply(&mut store, request));
    assert!(button.is_high(&store));
}

#[test]
fn callback_raises_the_signal_of_the_store() {
    let mut store = PeripheralStore::new();
    assert!(!store.notification().triggered());
    hal_sim::web::peripherals_callback(&mut store);
    assert!(store.notification().triggered());
    assert!(store.poll_wait());
    assert!(!store.poll_wait());
}

#[test]
fn cursor_is_looked_at_as_far_as_the_store_has_pins() {
    let (mut store, mut peripherals) = taken();
    let _led = peripherals.pins.output(&mut store, name("Led"), name("Out"), false);
    let mut pins = Some(vec![Change::Unchanged, Change::Updated]);
    let mut displays = Some(vec![DisplayChange::Created]);
    assert_eq!(Peripherals::fetch(&mut store, &mut pins, &mut displays), None);
    assert_eq!(pins, Some(vec![Change::Unchanged, Change::Updated]));
    assert_eq!(displays, Some(vec![DisplayChange::Created]));

    let mut short: Option<Vec<Change>> = Some(vec![]);
    assert_eq!(Peripherals::find_pin_change(&mut store, &mut short), None);
    assert_eq!(*store.pin(0).unwrap().change(), Change::Created);
}

#[test]
fn consumed_pin_change_is_reset() {
    let (mut store, mut peripherals) = taken();
    let _led = peripherals.pins.output(&mut store, name("Led"), name("Out"), true);
    let pin = store.pin(0).unwrap().pin();
    let mut change = Change::Unchanged;
    assert_eq!(Peripherals::consume_pin_change(7, pin, &mut change), None);
    assert_eq!(change, Change::Unchanged);
    let mut change = Change::Updated;
    assert_eq!(
        Peripherals::consume_pin_change(7, pin, &mut change),
        pin_update(7, None, false, PinValue::Output(true))
    );
    assert_eq!(change, Change::Unchanged);
}

#[test]
fn cursor_fits_where_every_span_lies_on_its_display() {
    let (mut store, mut peripherals) = taken();
    let _screen = peripherals.displays.display::<u32>(&mut store, title("Screen"), 4, 2);
    let updated = |spans: Vec<(usize, usize)>| Some(vec![DisplayChange::Updated(spans, false)]);
    assert!(store.fits(&None));
    assert!(store.fits(&Some(vec![])));
    assert!(store.fits(&Some(vec![DisplayChange::Created])));
    assert!(store.fits(&updated(vec![(0, 4), (1, 2)])));
    assert!(store.fits(&updated(vec![(0, 0), (9, 9), (7, 3)])));
    assert!(!store.fits(&updated(vec![(0, 5)])));
    assert!(!store.fits(&updated(vec![(0, 4), (0, 4), (0, 1)])));
    assert!(store.fits(&Some(vec![
        DisplayChange::Updated(vec![(3, 4)], true),
        DisplayChange::Updated(vec![(0, 100)], false),
    ])));
    assert!(DisplayChange::Updated(vec![(3, 4)], false).fits(4, 1));
    assert!(!DisplayChange::Updated(vec![(3, 4)], false).fits(3, 1));
    assert!(!DisplayChange::Updated(vec![(3, 4)], false).fits(4, 0));
    assert!(DisplayChange::Created.fits(0, 0));

    let mut sessions = vec![Session::new(&store)];
    assert!(sessions[0].fits(&store));
    broadcast(&mut store, &mut sessions);
    assert!(sessions[0].fits(&store));
    drain(&mut sessions[0], &mut store);
    assert!(sessions[0].fits(&store));
}

#[test]
fn draining_a_viewer_cursor_resets_the_record_of_the_store() {
    let (mut store, mut peripherals) = taken();
    let _led = peripherals.pins.output(&mut store, name("Led"), name("Out"), true);
    let _screen = peripherals.displays.display::<u32>(&mut store, title("Screen"), 2, 1);
    let mut pins = vec![Change::Updated, Change::Created];
    assert_eq!(*store.pin(0).unwrap().change(), Change::Created);
    assert_eq!(
        hal_sim::web::find_pin_change(&mut store, &mut pins),
        pin_update(0, None, false, PinValue::Output(true))
    );
    assert_eq!(pins, vec![Change::Unchanged, Change::Created]);
    assert_eq!(*store.pin(0).unwrap().change(), Change::Unchanged);
    assert_eq!(hal_sim::web::find_pin_change(&mut store, &mut pins), None);
    assert_eq!(pins, vec![Change::Unchanged, Change::Created]);

    let mut displays = vec![DisplayChange::Updated(vec![(1, 2)], false)];
    assert_eq!(*store.display(0).unwrap().change(), DisplayChange::Created);
    let event = hal_sim::web::find_display_change(&mut store, &mut displays);
    match event {
        Some(WebEvent::DisplayUpdate(DisplayUpdate::StripeUpdate(stripe))) => {
            assert_eq!((stripe.id, stripe.row, stripe.start), (0, 0, 1));
            assert_eq!(stripe.data.as_slice(), &[0, 0, 0]);
        }
        other => panic!("no stripe: {:?}", other),
    }
    assert_eq!(displays, vec![DisplayChange::Updated(vec![(0, 0)], false)]);
    assert_eq!(*store.display(0).unwrap().change(), DisplayChange::Updated(vec![], false));
    assert_eq!(hal_sim::web::find_display_change(&mut store, &mut displays), None);
    assert_eq!(*store.display(0).unwrap().change(), DisplayChange::Updated(vec![], false));
}
