//! Reverse-lookup behaviour on concrete trees.

use janus_array::CommandElements;
use janus_array::Commands;
use janus_array::Coordinates;
use janus_array::DiskOffsets;
use janus_array::File;
use janus_array::OffsetLayoutsError;
use janus_array::Slices;

fn element(start: u64, end: u64, rel_start: u64, rel_end: u64, ordinal: usize) -> CommandElements {
    let mut e = CommandElements::default();
    e.populate_values(start, end, rel_start, rel_end, ordinal);
    e
}

fn command(start: u64, end: u64, rel_start: u64, rel_end: u64, ordinal: usize) -> Commands {
    let mut c = Commands::default();
    c.populate_values(start, end, rel_start, rel_end, ordinal);
    c
}

fn slice(start: u64, end: u64, rel_start: u64, rel_end: u64, ordinal: usize) -> Slices {
    let mut s = Slices::default();
    s.populate_values(start, end, rel_start, rel_end, ordinal);
    s
}

/// File of 1024 bytes, one slice [0,512), one command [100,200)
/// (relative [100,100)), one element [150,180).
fn demo_file() -> File {
    let mut file = File::with_size(1024);
    let mut sl = slice(0, 512, 0, 512, 0);
    let mut cmd = command(100, 200, 100, 100, 0);
    let el = element(150, 180, 50, 30, 0);
    cmd.add_element(el);
    sl.add_command(cmd);
    file.add_slice(sl);
    file
}

#[test]
fn end_to_end_hit_in_element() {
    let mut file = demo_file();
    let coords = file.find_address(175).unwrap();
    assert_eq!(coords.slice, Some(0));
    assert_eq!(coords.command, Some(0));
    assert_eq!(coords.element, Some(0));
}

#[test]
fn end_to_end_hit_in_command_only() {
    let mut file = demo_file();
    let coords = file.find_address(190).unwrap();
    assert_eq!(coords.slice, Some(0));
    assert_eq!(coords.command, Some(0));
    assert_eq!(coords.element, None);
}

#[test]
fn end_to_end_uncovered_address_is_not_found() {
    // 600 is inside the file's range but no slice covers it: a coverage
    // gap, reported as not found rather than out of scope.
    let mut file = demo_file();
    match file.find_address(600) {
        Err(OffsetLayoutsError::NotFound(a)) => assert_eq!(a, 600),
        other => panic!("expected NotFound, got {:?}", other),
    }
}

#[test]
fn out_of_bounds_at_file_size() {
    let mut file = demo_file();
    match file.find_address(1024) {
        Err(OffsetLayoutsError::AddressOutsideCurrentScope(a, r)) => {
            assert_eq!(a, 1024);
            assert_eq!(r, 0..1024);
        },
        other => panic!("expected AddressOutsideCurrentScope, got {:?}", other),
    }
}

#[test]
fn out_of_bounds_far_past_file_size() {
    let mut file = demo_file();
    match file.find_address(5000) {
        Err(OffsetLayoutsError::AddressOutsideCurrentScope(a, r)) => {
            assert_eq!(a, 5000);
            assert_eq!(r, 0..1024);
        },
        other => panic!("expected AddressOutsideCurrentScope, got {:?}", other),
    }
}

#[test]
fn gap_between_slices_is_inconsistent() {
    let mut file = File::with_size(30);
    file.add_slice(slice(0, 10, 0, 10, 0));
    file.add_slice(slice(20, 30, 20, 10, 1));
    match file.find_address(15) {
        Err(OffsetLayoutsError::InconsistentStructure(a, r)) => {
            assert_eq!(a, 15);
            assert_eq!(r, 0..10);
        },
        other => panic!("expected InconsistentStructure, got {:?}", other),
    }
}

#[test]
fn range_end_matches_next_sibling() {
    // Half-open ranges: the end of [0,10) belongs to [10,20).
    let mut file = File::with_size(20);
    file.add_slice(slice(0, 10, 0, 10, 0));
    file.add_slice(slice(10, 20, 10, 10, 1));
    let coords = file.find_address(10).unwrap();
    assert_eq!(coords.slice, Some(1));
    assert_eq!(coords.command, None);
    assert_eq!(coords.element, None);
}

#[test]
fn range_end_without_next_sibling_fails() {
    let mut file = File::with_size(20);
    file.add_slice(slice(0, 10, 0, 10, 0));
    match file.find_address(10) {
        Err(OffsetLayoutsError::NotFound(a)) => assert_eq!(a, 10),
        other => panic!("expected NotFound, got {:?}", other),
    }
}

#[test]
fn lookup_is_idempotent_on_hits() {
    let mut file = demo_file();
    let first = file.find_address(175).unwrap();
    let second = file.find_address(175).unwrap();
    assert_eq!(first, second);
}

#[test]
fn lookup_is_idempotent_on_misses() {
    let mut file = demo_file();
    assert!(matches!(file.find_address(600), Err(OffsetLayoutsError::NotFound(600))));
    assert!(matches!(file.find_address(600), Err(OffsetLayoutsError::NotFound(600))));
}

#[test]
fn unsorted_slices_are_found_after_lazy_sort() {
    let mut file = File::with_size(40);
    // Attached out of order; ordinals name the sorted position.
    file.add_slice(slice(20, 30, 20, 10, 1));
    file.add_slice(slice(0, 10, 0, 10, 0));
    file.add_slice(slice(30, 40, 30, 10, 2));
    let coords = file.find_address(25).unwrap();
    assert_eq!(coords.slice, Some(1));
    let coords = file.find_address(0).unwrap();
    assert_eq!(coords.slice, Some(0));
    let coords = file.find_address(39).unwrap();
    assert_eq!(coords.slice, Some(2));
    // The lazy sort reordered the stored slices ascending by start.
    assert_eq!(file.slices[0].start_abs_address, 0);
    assert_eq!(file.slices[1].start_abs_address, 20);
    assert_eq!(file.slices[2].start_abs_address, 30);
}

#[test]
fn file_without_slices_is_inconsistent_for_in_range_address() {
    let mut file = File::with_size(100);
    match file.find_address(5) {
        Err(OffsetLayoutsError::InconsistentStructure(a, r)) => {
            assert_eq!(a, 5);
            assert_eq!(r, 0..100);
        },
        other => panic!("expected InconsistentStructure, got {:?}", other),
    }
}

#[test]
fn gap_between_commands_breaks_the_slice() {
    // The gap is detected inside the slice; the root reports the slice
    // as broken.
    let mut file = File::with_size(100);
    let mut sl = slice(0, 100, 0, 100, 0);
    sl.add_command(command(0, 10, 0, 10, 0));
    sl.add_command(command(20, 30, 20, 10, 1));
    file.add_slice(sl);
    assert!(matches!(file.find_address(15), Err(OffsetLayoutsError::SliceIsBroken)));
}

#[test]
fn gap_between_elements_breaks_the_slice() {
    // The gap is detected inside the command, surfaces as a broken
    // command in the slice, and as a broken slice at the root.
    let mut file = File::with_size(100);
    let mut sl = slice(0, 100, 0, 100, 0);
    let mut cmd = command(0, 100, 0, 100, 0);
    cmd.add_element(element(0, 10, 0, 10, 0));
    cmd.add_element(element(20, 30, 20, 10, 1));
    sl.add_command(cmd);
    file.add_slice(sl);
    assert!(matches!(file.find_address(15), Err(OffsetLayoutsError::SliceIsBroken)));
}

#[test]
fn gap_between_elements_is_inconsistent_at_the_command() {
    let mut cmd = command(0, 100, 0, 100, 0);
    cmd.add_element(element(0, 10, 0, 10, 0));
    cmd.add_element(element(20, 30, 20, 10, 1));
    match cmd.find_address(15) {
        Err(OffsetLayoutsError::InconsistentStructure(a, r)) => {
            assert_eq!(a, 15);
            assert_eq!(r, 0..10);
        },
        other => panic!("expected InconsistentStructure, got {:?}", other),
    }
}

#[test]
fn failing_command_breaks_the_slice() {
    let mut sl = slice(0, 100, 0, 100, 0);
    let mut cmd = command(0, 100, 0, 100, 0);
    cmd.add_element(element(0, 10, 0, 10, 0));
    cmd.add_element(element(20, 30, 20, 10, 1));
    sl.add_command(cmd);
    assert!(matches!(sl.find_address(15), Err(OffsetLayoutsError::CommandIsBroken)));
}

#[test]
fn slice_level_lookup_stands_alone() {
    let mut sl = slice(0, 512, 0, 512, 3);
    let mut cmd = command(100, 200, 100, 100, 7);
    cmd.add_element(element(150, 180, 50, 30, 2));
    sl.add_command(cmd);
    let coords = sl.find_address(160).unwrap();
    assert_eq!(coords.slice, Some(3));
    assert_eq!(coords.command, Some(7));
    assert_eq!(coords.element, Some(2));
    match sl.find_address(600) {
        Err(OffsetLayoutsError::AddressOutsideCurrentScope(a, r)) => {
            assert_eq!(a, 600);
            assert_eq!(r, 0..512);
        },
        other => panic!("expected AddressOutsideCurrentScope, got {:?}", other),
    }
}

#[test]
fn command_without_elements_answers_coarsely() {
    let mut cmd = command(100, 200, 100, 100, 4);
    let coords = cmd.find_address(150).unwrap();
    assert_eq!(coords.slice, None);
    assert_eq!(coords.command, Some(4));
    assert_eq!(coords.element, None);
}

#[test]
fn command_with_elements_misses_between_none() {
    let mut cmd = command(100, 200, 100, 100, 0);
    cmd.add_element(element(150, 180, 50, 30, 0));
    // 190 is in the command but past the only element: the coarse
    // command-only answer stands.
    let coords = cmd.find_address(190).unwrap();
    assert_eq!(coords.command, Some(0));
    assert_eq!(coords.element, None);
}

#[test]
fn element_lookup_respects_half_open_range() {
    let mut el = element(150, 180, 50, 30, 5);
    let coords = el.find_address(150).unwrap();
    assert_eq!(coords.element, Some(5));
    assert_eq!(coords.slice, None);
    assert_eq!(coords.command, None);
    match el.find_address(180) {
        Err(OffsetLayoutsError::AddressOutsideCurrentScope(a, r)) => {
            assert_eq!(a, 180);
            assert_eq!(r, 150..180);
        },
        other => panic!("expected AddressOutsideCurrentScope, got {:?}", other),
    }
}

#[test]
fn largest_file_size_is_searchable() {
    let mut file = File::with_size(u64::MAX);
    file.add_slice(slice(0, u64::MAX, 0, u64::MAX, 0));
    let coords = file.find_address(u64::MAX - 1).unwrap();
    assert_eq!(coords.slice, Some(0));
    match file.find_address(u64::MAX) {
        Err(OffsetLayoutsError::AddressOutsideCurrentScope(a, _)) => assert_eq!(a, u64::MAX),
        other => panic!("expected AddressOutsideCurrentScope, got {:?}", other),
    }
}

#[test]
fn many_slices_binary_search_finds_each() {
    let mut file = File::with_size(1000);
    for i in 0..10u64 {
        file.add_slice(slice(i * 100, (i + 1) * 100, i * 100, 100, i as usize));
    }
    for i in 0..10u64 {
        let coords = file.find_address(i * 100 + 50).unwrap();
        assert_eq!(coords.slice, Some(i as usize));
    }
    let expected = Coordinates { slice: Some(9), command: None, element: None };
    assert_eq!(file.find_address(999).unwrap(), expected);
}
