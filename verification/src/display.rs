//! Displays: their framebuffers in the store, and the handles through which
//! firmware draws on them.

use vstd::prelude::*;

use core::marker::PhantomData;

pub use crate::dto::display::{Change, DisplayMeta, DisplayName};

use crate::dto::display::{
    lemma_first_row_exists, merged_rows, no_rows, ChangeView, DisplayMetaView,
};
use crate::peripherals::{PeripheralStore, MAX_DISPLAYS};

verus! {

/// A pixel to draw: its column, its row and its colour.
pub type Pixel = (i32, i32, u32);

/// The right to create displays; it comes with the peripherals when they
/// are taken.
#[derive(Debug)]
pub struct Displays {
    _taken: (),
}

impl Displays {
    pub(crate) fn new() -> (displays: Self) {
        Displays { _taken: () }
    }

    /// Creates a display of the given size for colours of the type `C`.
    /// All of its pixels have the colour 0.
    pub fn display<C>(
        &mut self,
        store: &mut PeripheralStore,
        name: DisplayName,
        width: usize,
        height: usize,
    ) -> (display: Display<C>)
        requires
            old(store)@.wf(),
            old(store)@.displays.len() < MAX_DISPLAYS,
            width * height <= usize::MAX,
        ensures
            display.id() == old(store)@.displays.len(),
            final(store)@ == old(store)@.create_display((DisplayMeta { name, width, height })@),
            final(store)@.wf(),
    {
        let id = store.create_display(name, width, height);
        Display::new(id)
    }
}

/// The handle of a display: the right to draw on it. The colours that are
/// drawn are those of `C`, converted to numbers.
#[derive(Debug)]
pub struct Display<C> {
    id: u8,
    _color: PhantomData<C>,
}

impl<C> Display<C> {
    fn new(id: u8) -> (display: Self)
        ensures
            display.id() == id,
    {
        Display { id, _color: PhantomData }
    }

    pub closed spec fn spec_id(&self) -> u8 {
        self.id
    }

    /// The id of the display in the store.
    #[verifier::when_used_as_spec(spec_id)]
    pub fn id(&self) -> (id: u8)
        ensures
            id == self.spec_id(),
    {
        self.id
    }

    /// Draws `pixels`; see `PeripheralStore::draw`.
    pub fn draw_iter(&mut self, store: &mut PeripheralStore, pixels: &[Pixel])
        requires
            old(store)@.wf(),
            old(store)@.has_display(old(self).id() as int),
        ensures
            final(store)@ == old(store)@.draw(old(self).id() as int, pixels@),
            final(store)@.wf(),
            *final(self) == *old(self),
    {
        let _ = store.draw(self.id, pixels);
    }

    /// The width and the height of the display.
    pub fn bounding_box(&self, store: &PeripheralStore) -> (size: (usize, usize))
        requires
            store@.has_display(self.id() as int),
        ensures
            size.0 == store@.displays[self.id() as int].display.meta.width,
            size.1 == store@.displays[self.id() as int].display.meta.height,
    {
        let meta = store.display_state(self.id as usize).display().meta();
        (meta.width, meta.height)
    }

    /// Gives the handle up: the display is marked as dropped, which the
    /// viewers are told; it keeps its place and its id.
    pub fn drop(self, store: &mut PeripheralStore)
        requires
            old(store)@.wf(),
            old(store)@.has_display(self.id() as int),
        ensures
            final(store)@ == old(store)@.drop_display(self.id() as int),
            final(store)@.wf(),
    {
        store.drop_display(self.id);
    }
}

/// The state of a display that firmware and viewers share.
#[derive(Debug)]
pub struct SharedDisplay {
    meta: DisplayMeta,
    dropped: bool,
    buffer: Vec<u32>,
}

/// The mathematical content of a `SharedDisplay`.
pub struct SharedDisplayView {
    pub meta: DisplayMetaView,
    pub dropped: bool,
    /// The colours of the pixels, row by row.
    pub buffer: Seq<u32>,
}

impl SharedDisplayView {
    /// The buffer holds one colour for each pixel.
    pub open spec fn wf(self) -> bool {
        self.buffer.len() == self.meta.width * self.meta.height
    }

    /// Whether the display has a pixel in column `x` of row `y`.
    pub open spec fn holds(self, x: int, y: int) -> bool {
        0 <= x < self.meta.width && 0 <= y < self.meta.height
    }

    /// The place of a pixel in the buffer.
    pub open spec fn offset(self, x: int, y: int) -> int {
        y * self.meta.width + x
    }

    /// Whether drawing `pixel` changes the display: the pixel lies on the
    /// display and has another colour there.
    pub open spec fn changed_by(self, pixel: Pixel) -> bool {
        &&& self.holds(pixel.0 as int, pixel.1 as int)
        &&& self.buffer[self.offset(pixel.0 as int, pixel.1 as int)] != pixel.2
    }

    /// The display after `pixel` was drawn.
    pub open spec fn with_pixel(self, pixel: Pixel) -> SharedDisplayView {
        if self.changed_by(pixel) {
            SharedDisplayView {
                buffer: self.buffer.update(self.offset(pixel.0 as int, pixel.1 as int), pixel.2),
                ..self
            }
        } else {
            self
        }
    }

    /// The colours of `len` pixels of row `row` from column `start` on.
    pub open spec fn span(self, row: int, start: int, len: int) -> Seq<u32> {
        self.buffer.subrange(self.offset(start, row), self.offset(start, row) + len)
    }
}

impl View for SharedDisplay {
    type V = SharedDisplayView;

    closed spec fn view(&self) -> SharedDisplayView {
        SharedDisplayView { meta: self.meta@, dropped: self.dropped, buffer: self.buffer@ }
    }
}

/// A pixel of row `y` lies in the buffer, and before the pixels of the rows
/// below.
pub proof fn lemma_offset_in_buffer(x: int, y: int, width: int, height: int)
    requires
        0 <= x < width,
        0 <= y < height,
    ensures
        0 <= y * width + x < width * height,
        y * width + width <= width * height,
{
    assert(y * width + width == (y + 1) * width) by (nonlinear_arith);
    assert((y + 1) * width <= height * width) by (nonlinear_arith)
        requires
            y + 1 <= height,
            0 <= width,
    ;
    assert(height * width == width * height) by (nonlinear_arith);
    assert(0 <= y * width) by (nonlinear_arith)
        requires
            0 <= y,
            0 <= width,
    ;
}

/// A display together with the record of what changed on it.
pub struct DisplayStateView {
    pub display: SharedDisplayView,
    pub change: ChangeView,
}

impl DisplayStateView {
    /// The buffer has the size of the display, and every dirty span lies on
    /// the display.
    pub open spec fn wf(self) -> bool {
        &&& self.display.wf()
        &&& self.change.wf()
        &&& self.change.fits(self.display.meta.width, self.display.meta.height)
    }

    /// The display after `pixel` was drawn: a pixel that lies outside, or
    /// has that colour already, changes nothing; else the colour is written
    /// and the pixel is marked dirty.
    pub open spec fn with_pixel(self, pixel: Pixel) -> DisplayStateView {
        if self.display.changed_by(pixel) {
            DisplayStateView {
                display: self.display.with_pixel(pixel),
                change: self.change.with_row(pixel.1 as int, pixel.0 as int, pixel.0 as int + 1),
            }
        } else {
            self
        }
    }

    /// The display after `pixels` were drawn, one after the other.
    pub open spec fn drawn(self, pixels: Seq<Pixel>) -> DisplayStateView
        decreases pixels.len(),
    {
        if pixels.len() == 0 {
            self
        } else {
            self.drawn(pixels.drop_last()).with_pixel(pixels.last())
        }
    }

    /// Whether drawing `pixels`, one after the other, changes a pixel.
    pub open spec fn changed_by(self, pixels: Seq<Pixel>) -> bool
        decreases pixels.len(),
    {
        if pixels.len() == 0 {
            false
        } else {
            ||| self.changed_by(pixels.drop_last())
            ||| self.drawn(pixels.drop_last()).display.changed_by(pixels.last())
        }
    }

    /// The display after its handle was released.
    pub open spec fn released(self) -> DisplayStateView {
        DisplayStateView {
            display: SharedDisplayView { dropped: true, ..self.display },
            change: self.change.merged(ChangeView::Updated { rows: no_rows(), dropped: true }),
        }
    }

    /// The display with another record of changes.
    pub open spec fn with_change(self, change: ChangeView) -> DisplayStateView {
        DisplayStateView { change, ..self }
    }

    /// Drawing one pixel keeps the display well-formed.
    pub proof fn lemma_with_pixel_wf(self, pixel: Pixel)
        requires
            self.wf(),
        ensures
            self.with_pixel(pixel).wf(),
            self.with_pixel(pixel).display.meta == self.display.meta,
            self.with_pixel(pixel).display.dropped == self.display.dropped,
    {
        if self.display.changed_by(pixel) {
            let after = self.with_pixel(pixel);
            lemma_offset_in_buffer(
                pixel.0 as int,
                pixel.1 as int,
                self.display.meta.width as int,
                self.display.meta.height as int,
            );
            match self.change {
                ChangeView::Created => {},
                ChangeView::Updated { rows, dropped } => {
                    let marked = after.change->rows;
                    assert forall|row: int| #[trigger] marked.dom().contains(row) implies 0
                        <= row < self.display.meta.height && 0 <= marked[row].0 < marked[row].1
                        <= self.display.meta.width by {
                        if row != pixel.1 as int {
                            assert(rows.dom().contains(row));
                        }
                    }
                },
            }
        }
    }

    /// Drawing pixels that have their colours already changes nothing: not
    /// the buffer, not the record of changes.
    pub proof fn lemma_drawn_same(self, pixels: Seq<Pixel>)
        requires
            forall|at: int|
                0 <= at < pixels.len() ==> !self.display.changed_by(#[trigger] pixels[at]),
        ensures
            self.drawn(pixels) == self,
            !self.changed_by(pixels),
        decreases pixels.len(),
    {
        if pixels.len() > 0 {
            let before = pixels.drop_last();
            assert forall|at: int| 0 <= at < before.len() implies !self.display.changed_by(
                #[trigger] before[at],
            ) by {
                assert(before[at] == pixels[at]);
            }
            self.lemma_drawn_same(before);
            assert(!self.display.changed_by(pixels[pixels.len() - 1]));
        }
    }

    /// Where drawing changed no pixel, the display is as it was.
    pub proof fn lemma_not_changed_same(self, pixels: Seq<Pixel>)
        requires
            !self.changed_by(pixels),
        ensures
            self.drawn(pixels) == self,
        decreases pixels.len(),
    {
        if pixels.len() > 0 {
            self.lemma_not_changed_same(pixels.drop_last());
        }
    }

    /// A pixel does not change without a record of it: where drawing
    /// changed a pixel, a change is pending afterwards.
    pub proof fn lemma_drawn_is_recorded(self, pixels: Seq<Pixel>)
        requires
            self.wf(),
            self.changed_by(pixels),
        ensures
            !self.drawn(pixels).change.is_quiet(),
        decreases pixels.len(),
    {
        let before = self.drawn(pixels.drop_last());
        let after = self.drawn(pixels);
        let pixel = pixels.last();
        self.lemma_drawn_wf(pixels.drop_last());
        self.lemma_drawn_wf(pixels);
        if self.changed_by(pixels.drop_last()) {
            self.lemma_drawn_is_recorded(pixels.drop_last());
        }
        match after.change {
            ChangeView::Created => {},
            ChangeView::Updated { rows, dropped } => {
                if !dropped {
                    if before.display.changed_by(pixel) {
                        assert(rows.dom().contains(pixel.1 as int));
                        lemma_first_row_exists(rows, pixel.1 as int);
                    } else {
                        assert(after == before);
                    }
                }
            },
        }
    }

    /// Releasing the handle keeps the display well-formed.
    pub proof fn lemma_released_wf(self)
        requires
            self.wf(),
        ensures
            self.released().wf(),
    {
        match self.change {
            ChangeView::Created => {},
            ChangeView::Updated { rows, dropped } => {
                assert(merged_rows(rows, no_rows()) =~= rows);
            },
        }
    }

    /// Drawing keeps the display well-formed, and its metadata as it was.
    pub proof fn lemma_drawn_wf(self, pixels: Seq<Pixel>)
        requires
            self.wf(),
        ensures
            self.drawn(pixels).wf(),
            self.drawn(pixels).display.meta == self.display.meta,
            self.drawn(pixels).display.dropped == self.display.dropped,
        decreases pixels.len(),
    {
        if pixels.len() > 0 {
            self.lemma_drawn_wf(pixels.drop_last());
            self.drawn(pixels.drop_last()).lemma_with_pixel_wf(pixels.last());
        }
    }
}

impl SharedDisplay {
    /// A display of the given size, all of whose pixels have the colour 0.
    pub(crate) fn new(name: DisplayName, width: usize, height: usize) -> (display: Self)
        requires
            width * height <= usize::MAX,
        ensures
            display@ == (SharedDisplayView {
                meta: (DisplayMeta { name, width, height })@,
                dropped: false,
                buffer: Seq::new((width * height) as nat, |i: int| 0u32),
            }),
            display@.wf(),
    {
        let buffer = vec![0u32; width * height];
        assert(buffer@ =~= Seq::new((width * height) as nat, |i: int| 0u32));
        SharedDisplay { meta: DisplayMeta { name, width, height }, dropped: false, buffer }
    }

    pub fn meta(&self) -> (meta: &DisplayMeta)
        ensures
            meta@ == self@.meta,
    {
        &self.meta
    }

    pub fn dropped(&self) -> (dropped: bool)
        ensures
            dropped == self@.dropped,
    {
        self.dropped
    }

    /// The colours of the pixels, row by row.
    pub fn buffer(&self) -> (buffer: &[u32])
        ensures
            buffer@ == self@.buffer,
    {
        self.buffer.as_slice()
    }

    /// Draws `pixels`, one after the other, and records in `changed_state`
    /// what changed. Pixels that lie outside the display are passed over.
    /// Returns whether a pixel changed.
    pub(crate) fn draw_iter(&mut self, changed_state: &mut Change, pixels: &[Pixel]) -> (changed:
        bool)
        requires
            (DisplayStateView { display: old(self)@, change: old(changed_state)@ }).wf(),
        ensures
            (DisplayStateView { display: final(self)@, change: final(changed_state)@ }) == (
            DisplayStateView { display: old(self)@, change: old(changed_state)@ }).drawn(pixels@),
            changed == (DisplayStateView {
                display: old(self)@,
                change: old(changed_state)@,
            }).changed_by(pixels@),
    {
        let ghost start = DisplayStateView { display: self@, change: changed_state@ };
        let mut changed = false;
        let mut i: usize = 0;
        while i < pixels.len()
            invariant
                i <= pixels.len(),
                start.wf(),
                (DisplayStateView { display: self@, change: changed_state@ }) == start.drawn(
                    pixels@.take(i as int),
                ),
                changed == start.changed_by(pixels@.take(i as int)),
            decreases pixels.len() - i,
        {
            let pixel = pixels[i];
            let ghost now = DisplayStateView { display: self@, change: changed_state@ };
            proof {
                start.lemma_drawn_wf(pixels@.take(i as int));
                assert(pixels@.take(i as int + 1).drop_last() =~= pixels@.take(i as int));
                assert(pixels@.take(i as int + 1).last() == pixel);
            }
            if pixel.0 >= 0 && pixel.1 >= 0 {
                let x = pixel.0 as usize;
                let y = pixel.1 as usize;
                if x < self.meta.width && y < self.meta.height {
                    proof {
                        lemma_offset_in_buffer(
                            x as int,
                            y as int,
                            self.meta.width as int,
                            self.meta.height as int,
                        );
                    }
                    assert(now.wf());
                    assert(y * self.meta.width + x < self.buffer.len());
                    let offset = y * self.meta.width + x;
                    if self.buffer[offset] != pixel.2 {
                        self.buffer[offset] = pixel.2;
                        changed_state.update_row(y, x, x + 1);
                        changed = true;
                    }
                }
            }
            assert((DisplayStateView { display: self@, change: changed_state@ }) == now.with_pixel(
                pixel,
            ));
            i += 1;
        }
        assert(pixels@.take(i as int) =~= pixels@);
        changed
    }
}

/// A display in the store: its shared state and the record of what changed
/// on it since the record was last consumed.
#[derive(Debug)]
pub struct DisplayState {
    display: SharedDisplay,
    change: Change,
}

impl View for DisplayState {
    type V = DisplayStateView;

    closed spec fn view(&self) -> DisplayStateView {
        DisplayStateView { display: self.display@, change: self.change@ }
    }
}

impl DisplayState {
    /// A display that is new to every observer.
    pub(crate) fn new(name: DisplayName, width: usize, height: usize) -> (state: Self)
        requires
            width * height <= usize::MAX,
        ensures
            state@ == (DisplayStateView {
                display: SharedDisplayView {
                    meta: (DisplayMeta { name, width, height })@,
                    dropped: false,
                    buffer: Seq::new((width * height) as nat, |i: int| 0u32),
                },
                change: ChangeView::Created,
            }),
            state@.wf(),
    {
        DisplayState { display: SharedDisplay::new(name, width, height), change: Change::Created }
    }

    pub fn change(&self) -> (change: &Change)
        ensures
            change@ == self@.change,
    {
        &self.change
    }

    pub fn display(&self) -> (display: &SharedDisplay)
        ensures
            display@ == self@.display,
    {
        &self.display
    }

    pub fn split(&mut self) -> (parts: (&SharedDisplay, &mut Change))
        ensures
            parts.0@ == old(self)@.display,
            parts.1@ == old(self)@.change,
            final(self)@ == (DisplayStateView {
                display: old(self)@.display,
                change: final(parts.1)@,
            }),
    {
        (&self.display, &mut self.change)
    }

    /// Draws `pixels`; see `SharedDisplay::draw_iter`.
    pub(crate) fn draw_iter(&mut self, pixels: &[Pixel]) -> (changed: bool)
        requires
            old(self)@.wf(),
        ensures
            final(self)@ == old(self)@.drawn(pixels@),
            changed == old(self)@.changed_by(pixels@),
    {
        self.display.draw_iter(&mut self.change, pixels)
    }

    /// Forgets the record of changes.
    pub(crate) fn reset_change(&mut self)
        ensures
            final(self)@ == old(self)@.with_change(
                ChangeView::quiet(),
            ),
    {
        self.change.reset();
    }

    /// Marks the display as dropped.
    pub(crate) fn release(&mut self)
        ensures
            final(self)@ == old(self)@.released(),
    {
        self.display.dropped = true;
        self.change.update(&Change::Updated(Vec::new(), true));
        proof {
            assert(crate::dto::display::rows_of(Seq::<(usize, usize)>::empty()) =~= no_rows());
        }
    }
}

} // verus!
