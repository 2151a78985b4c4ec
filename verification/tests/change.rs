use hal_sim::dto::display::Change as DisplayChange;
use hal_sim::gpio::Change;

#[test]
fn created_dominates_until_reset() {
    let mut change = Change::Created;
    change.update(&Change::Updated);
    assert_eq!(change, Change::Created);
    change.update(&Change::Unchanged);
    assert_eq!(change, Change::Created);
    change.reset();
    assert_eq!(change, Change::Unchanged);
    change.update(&Change::Updated);
    assert_eq!(change, Change::Updated);
}

#[test]
fn update_takes_on_the_other_record() {
    let mut change = Change::Unchanged;
    change.update(&Change::Created);
    assert_eq!(change, Change::Created);

    let mut change = Change::Updated;
    change.update(&Change::Unchanged);
    assert_eq!(change, Change::Unchanged);

    let mut change = Change::Updated;
    change.update(&Change::Created);
    assert_eq!(change, Change::Created);
}

#[test]
fn new_display_change_is_quiet() {
    let change = DisplayChange::new();
    assert_eq!(change, DisplayChange::Updated(vec![], false));
    assert!(!change.is_pending());
    assert!(DisplayChange::Created.is_pending());
    assert!(DisplayChange::Updated(vec![], true).is_pending());
    assert!(DisplayChange::Updated(vec![(0, 0), (1, 2)], false).is_pending());
    assert!(!DisplayChange::Updated(vec![(0, 0), (5, 5), (7, 3)], false).is_pending());
}

#[test]
fn span_inside_the_dirty_span_changes_nothing() {
    let mut change = DisplayChange::new();
    change.update_row(0, 2, 5);
    assert_eq!(change, DisplayChange::Updated(vec![(2, 5)], false));
    change.update_row(0, 3, 4);
    assert_eq!(change, DisplayChange::Updated(vec![(2, 5)], false));
}

#[test]
fn spans_of_one_row_are_joined_across_the_gap() {
    let mut change = DisplayChange::new();
    change.update_row(0, 2, 5);
    change.update_row(0, 6, 8);
    assert_eq!(change, DisplayChange::Updated(vec![(2, 8)], false));
}

#[test]
fn spans_of_two_rows_stay_apart() {
    let mut change = DisplayChange::new();
    change.update_row(0, 2, 5);
    change.update_row(1, 6, 8);
    assert_eq!(change, DisplayChange::Updated(vec![(2, 5), (6, 8)], false));
}

#[test]
fn span_is_widened_to_either_side() {
    let mut change = DisplayChange::new();
    change.update_row(2, 10, 20);
    change.update_row(2, 5, 12);
    assert_eq!(change, DisplayChange::Updated(vec![(0, 0), (0, 0), (5, 20)], false));
    change.update_row(2, 19, 30);
    assert_eq!(change, DisplayChange::Updated(vec![(0, 0), (0, 0), (5, 30)], false));
}

#[test]
fn empty_span_marks_nothing() {
    let mut change = DisplayChange::new();
    change.update_row(3, 4, 4);
    assert_eq!(change, DisplayChange::Updated(vec![], false));
    change.update_row(3, 9, 2);
    assert_eq!(change, DisplayChange::Updated(vec![], false));
    change.update_row(usize::MAX, 4, 4);
    assert_eq!(change, DisplayChange::Updated(vec![], false));
    change.update_row(1, 2, 5);
    change.update_row(1, 7, 7);
    assert_eq!(change, DisplayChange::Updated(vec![(0, 0), (2, 5)], false));
}

#[test]
fn created_display_change_takes_no_rows() {
    let mut change = DisplayChange::Created;
    change.update_row(0, 1, 2);
    assert_eq!(change, DisplayChange::Created);
}

#[test]
fn created_wins_when_display_changes_are_merged() {
    let mut change = DisplayChange::Updated(vec![(1, 3)], true);
    change.update(&DisplayChange::Created);
    assert_eq!(change, DisplayChange::Created);

    let mut change = DisplayChange::Created;
    change.update(&DisplayChange::Updated(vec![(1, 3)], true));
    assert_eq!(change, DisplayChange::Created);
}

#[test]
fn merged_display_changes_unite_their_rows() {
    let mut change = DisplayChange::Updated(vec![(1, 3), (0, 0), (4, 6)], false);
    change.update(&DisplayChange::Updated(vec![(2, 9), (5, 6), (0, 0), (7, 8)], true));
    assert_eq!(
        change,
        DisplayChange::Updated(vec![(1, 9), (5, 6), (4, 6), (7, 8)], true)
    );

    let mut change = DisplayChange::Updated(vec![(1, 3)], true);
    change.update(&DisplayChange::Updated(vec![], false));
    assert_eq!(change, DisplayChange::Updated(vec![(1, 3)], true));
}

#[test]
fn reset_display_change_forgets_everything() {
    let mut change = DisplayChange::Created;
    change.reset();
    assert_eq!(change, DisplayChange::Updated(vec![], false));

    let mut change = DisplayChange::Updated(vec![(1, 3)], true);
    change.reset();
    assert_eq!(change, DisplayChange::Updated(vec![], false));
}

#[test]
fn full_display_change_marks_every_row() {
    assert_eq!(
        DisplayChange::full(4, 3),
        DisplayChange::Updated(vec![(0, 4), (0, 4), (0, 4)], false)
    );
    assert!(!DisplayChange::full(0, 3).is_pending());
    assert!(!DisplayChange::full(3, 0).is_pending());
}

#[test]
fn cloned_display_change_is_equal() {
    let change = DisplayChange::Updated(vec![(1, 3), (0, 0), (4, 6)], true);
    assert_eq!(change.clone(), change);
    assert_eq!(DisplayChange::Created.clone(), DisplayChange::Created);
}
