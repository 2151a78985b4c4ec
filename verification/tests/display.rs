use hal_sim::display::Display;
use hal_sim::dto::display::{Change, DisplayMeta, DisplayName};
use hal_sim::dto::web::{
    encode_pixels, pixel_bytes, DisplayUpdate, StripeUpdate, WebEvent, SCREEN_MAX_STRIPE_LEN,
    SCREEN_MAX_STRIPE_U8_LEN, STRIPE_PIXEL_SIZE,
};
use hal_sim::peripherals::{PeripheralStore, Peripherals};

fn title(text: &str) -> DisplayName {
    DisplayName::try_from(text).unwrap()
}

fn with_display(width: usize, height: usize) -> (PeripheralStore, Display<u32>) {
    let mut store = PeripheralStore::new();
    let mut peripherals = Peripherals::take(&mut store).unwrap();
    let display = peripherals.displays.display(&mut store, title("Screen"), width, height);
    (store, display)
}

fn local_fetch(store: &mut PeripheralStore) -> Option<WebEvent> {
    Peripherals::fetch(store, &mut None, &mut None)
}

fn stripe(event: Option<WebEvent>) -> StripeUpdate {
    match event {
        Some(WebEvent::DisplayUpdate(DisplayUpdate::StripeUpdate(stripe))) => stripe,
        other => panic!("no stripe: {:?}", other),
    }
}

fn drain_all(store: &mut PeripheralStore) {
    while local_fetch(store).is_some() {}
}

#[test]
fn stripe_limits() {
    assert_eq!(SCREEN_MAX_STRIPE_LEN, 320);
    assert_eq!(STRIPE_PIXEL_SIZE, 3);
    assert_eq!(SCREEN_MAX_STRIPE_U8_LEN, 960);
}

#[test]
fn pixel_is_sent_red_green_blue() {
    assert_eq!(pixel_bytes(0x0011_2233), (0x11, 0x22, 0x33));
    assert_eq!(pixel_bytes(0xff11_2233), (0x11, 0x22, 0x33));
    assert_eq!(pixel_bytes(0), (0, 0, 0));
    assert_eq!(pixel_bytes(0xffff_ffff), (0xff, 0xff, 0xff));
    assert_eq!(pixel_bytes(0x0000_0100), (0, 1, 0));
}

#[test]
fn pixels_are_encoded_in_order() {
    let pixels = [0x0001_0203, 0x0004_0506, 0x0007_0809, 0x000a_0b0c];
    assert_eq!(encode_pixels(&pixels, 0, 0).as_slice(), &[] as &[u8]);
    assert_eq!(encode_pixels(&pixels, 1, 2).as_slice(), &[4, 5, 6, 7, 8, 9]);
    assert_eq!(
        encode_pixels(&pixels, 0, 4).as_slice(),
        &[1, 2, 3, 4, 5, 6, 7, 8, 9, 10, 11, 12]
    );
    let row = vec![0x00ab_cdef; 320];
    let data = encode_pixels(&row, 0, 320);
    assert_eq!(data.len(), 960);
    assert_eq!(&data[957..], &[0xab, 0xcd, 0xef]);
}

#[test]
fn new_display_is_black_and_created() {
    let (store, display) = with_display(4, 3);
    assert_eq!(display.id(), 0);
    assert_eq!(display.bounding_box(&store), (4, 3));
    let state = store.display(0).unwrap();
    assert_eq!(*state.change(), Change::Created);
    assert_eq!(
        *state.display().meta(),
        DisplayMeta { name: title("Screen"), width: 4, height: 3 }
    );
    assert_eq!(state.display().buffer(), &[0u32; 12]);
    assert!(!state.display().dropped());
    assert!(!store.notification().triggered());
}

#[test]
fn created_display_is_announced_then_sent_whole() {
    let (mut store, _display) = with_display(2, 2);
    assert_eq!(
        local_fetch(&mut store),
        Some(WebEvent::DisplayUpdate(DisplayUpdate::MetaUpdate {
            id: 0,
            meta: Some(DisplayMeta { name: title("Screen"), width: 2, height: 2 }),
            dropped: false,
        }))
    );
    assert_eq!(
        *store.display(0).unwrap().change(),
        Change::Updated(vec![(0, 2), (0, 2)], false)
    );
    let first = stripe(local_fetch(&mut store));
    assert_eq!((first.id, first.row, first.start), (0, 0, 0));
    assert_eq!(first.data.as_slice(), &[0, 0, 0, 0, 0, 0]);
    let second = stripe(local_fetch(&mut store));
    assert_eq!((second.id, second.row, second.start), (0, 1, 0));
    assert_eq!(local_fetch(&mut store), None);
    assert_eq!(local_fetch(&mut store), None);
}

#[test]
fn drawing_marks_what_changed() {
    let (mut store, mut display) = with_display(8, 4);
    drain_all(&mut store);
    store.poll_wait();

    display.draw_iter(&mut store, &[(2, 1, 0x00ff_0000), (5, 1, 0x0000_ff00), (7, 3, 0x0000_00ff)]);
    assert!(store.notification().triggered());
    assert_eq!(
        *store.display(0).unwrap().change(),
        Change::Updated(vec![(0, 0), (2, 6), (0, 0), (7, 8)], false)
    );
    assert_eq!(store.display(0).unwrap().display().buffer()[8 + 2], 0x00ff_0000);
    assert_eq!(store.display(0).unwrap().display().buffer()[8 + 5], 0x0000_ff00);
    assert_eq!(store.display(0).unwrap().display().buffer()[3 * 8 + 7], 0x0000_00ff);

    let first = stripe(local_fetch(&mut store));
    assert_eq!((first.id, first.row, first.start), (0, 1, 2));
    assert_eq!(first.data.as_slice(), &[0xff, 0, 0, 0, 0, 0, 0, 0, 0, 0, 0xff, 0]);
    let second = stripe(local_fetch(&mut store));
    assert_eq!((second.id, second.row, second.start), (0, 3, 7));
    assert_eq!(second.data.as_slice(), &[0, 0, 0xff]);
    assert_eq!(local_fetch(&mut store), None);
}

#[test]
fn drawing_the_same_colour_changes_nothing() {
    let (mut store, _display) = with_display(8, 4);
    drain_all(&mut store);
    store.poll_wait();

    assert!(!store.draw(0, &[(2, 1, 0), (3, 3, 0)]));
    assert_eq!(
        *store.display(0).unwrap().change(),
        Change::Updated(vec![(0, 0), (0, 0), (0, 0), (0, 0)], false)
    );
    assert!(!store.notification().triggered());

    assert!(store.draw(0, &[(2, 1, 9)]));
    drain_all(&mut store);
    store.poll_wait();
    assert!(!store.draw(0, &[(2, 1, 9)]));
    assert!(!store.notification().triggered());
    assert_eq!(local_fetch(&mut store), None);
}

#[test]
fn pixel_drawn_and_restored_counts_as_changed() {
    let (mut store, _display) = with_display(8, 4);
    drain_all(&mut store);
    store.poll_wait();
    assert!(store.draw(0, &[(2, 1, 9), (2, 1, 0)]));
    assert_eq!(
        *store.display(0).unwrap().change(),
        Change::Updated(vec![(0, 0), (2, 3), (0, 0), (0, 0)], false)
    );
    assert_eq!(store.display(0).unwrap().display().buffer()[8 + 2], 0);
}

#[test]
fn pixels_outside_the_display_are_passed_over() {
    let (mut store, _display) = with_display(8, 4);
    drain_all(&mut store);
    store.poll_wait();
    let outside = [
        (-1, 0, 1),
        (0, -1, 1),
        (8, 0, 1),
        (0, 4, 1),
        (i32::MAX, i32::MAX, 1),
        (i32::MIN, i32::MIN, 1),
    ];
    assert!(!store.draw(0, &outside));
    assert!(!store.notification().triggered());
    assert_eq!(store.display(0).unwrap().display().buffer(), &[0u32; 32]);
    assert!(store.draw(0, &[(-1, 0, 1), (7, 3, 1)]));
    assert_eq!(store.display(0).unwrap().display().buffer()[31], 1);
}

#[test]
fn display_without_pixels_takes_no_drawing() {
    let (mut store, _display) = with_display(0, 5);
    assert!(!store.draw(0, &[(0, 0, 1)]));
    assert!(matches!(
        local_fetch(&mut store),
        Some(WebEvent::DisplayUpdate(DisplayUpdate::MetaUpdate { id: 0, meta: Some(_), dropped: false }))
    ));
    assert_eq!(local_fetch(&mut store), None);
}

#[test]
fn long_span_is_split_into_stripes() {
    let (mut store, _display) = with_display(1000, 1);
    drain_all(&mut store);
    let pixels: Vec<(i32, i32, u32)> = (0..1000).map(|x| (x, 0, 0x0001_0000 + x as u32)).collect();
    assert!(store.draw(0, &pixels));
    assert_eq!(*store.display(0).unwrap().change(), Change::Updated(vec![(0, 1000)], false));

    let mut starts = Vec::new();
    let mut lens = Vec::new();
    while let Some(event) = local_fetch(&mut store) {
        let stripe = stripe(Some(event));
        assert_eq!(stripe.id, 0);
        assert_eq!(stripe.row, 0);
        assert_eq!(stripe.data.len() % 3, 0);
        assert!(stripe.data.len() <= 960);
        let first = stripe.start as u32;
        assert_eq!(&stripe.data[..3], &[1, (first >> 8) as u8, first as u8]);
        starts.push(stripe.start);
        lens.push(stripe.data.len() / 3);
    }
    assert_eq!(starts, vec![0, 320, 640, 960]);
    assert_eq!(lens, vec![320, 320, 320, 40]);
}

#[test]
fn span_of_a_stripe_and_one_pixel() {
    let (mut store, _display) = with_display(400, 2);
    drain_all(&mut store);
    store.poll_wait();
    let pixels: Vec<(i32, i32, u32)> = (10..331).map(|x| (x, 1, 5)).collect();
    assert!(store.draw(0, &pixels));
    let first = stripe(local_fetch(&mut store));
    assert_eq!((first.row, first.start, first.data.len()), (1, 10, 960));
    assert_eq!(
        *store.display(0).unwrap().change(),
        Change::Updated(vec![(0, 0), (330, 331)], false)
    );
    let second = stripe(local_fetch(&mut store));
    assert_eq!((second.row, second.start, second.data.len()), (1, 330, 3));
    assert_eq!(local_fetch(&mut store), None);
}

#[test]
fn span_of_exactly_one_stripe() {
    let (mut store, _display) = with_display(320, 1);
    drain_all(&mut store);
    let pixels: Vec<(i32, i32, u32)> = (0..320).map(|x| (x, 0, 5)).collect();
    assert!(store.draw(0, &pixels));
    let only = stripe(local_fetch(&mut store));
    assert_eq!((only.row, only.start, only.data.len()), (0, 0, 960));
    assert_eq!(local_fetch(&mut store), None);
}

#[test]
fn dropped_display_is_told_before_its_pixels() {
    let (mut store, display) = with_display(4, 2);
    drain_all(&mut store);
    store.poll_wait();
    assert!(store.draw(0, &[(1, 1, 3)]));
    display.drop(&mut store);
    assert!(store.display(0).unwrap().display().dropped());
    assert_eq!(store.display_count(), 1);
    assert_eq!(
        local_fetch(&mut store),
        Some(WebEvent::DisplayUpdate(DisplayUpdate::MetaUpdate { id: 0, meta: None, dropped: true }))
    );
    let rest = stripe(local_fetch(&mut store));
    assert_eq!((rest.row, rest.start), (1, 1));
    assert_eq!(rest.data.as_slice(), &[0, 0, 3]);
    assert_eq!(local_fetch(&mut store), None);
}

#[test]
fn display_update_knows_its_display() {
    let meta = DisplayUpdate::MetaUpdate { id: 4, meta: None, dropped: false };
    assert_eq!(meta.id(), 4);
    let stripe = DisplayUpdate::StripeUpdate(StripeUpdate {
        id: 6,
        row: 1,
        start: 2,
        data: encode_pixels(&[0x0001_0203], 0, 1),
    });
    assert_eq!(stripe.id(), 6);
    assert_eq!(stripe.clone(), stripe);
    assert_eq!(meta.clone(), meta);
}
