//! Construction, population and the accessor surface of every level.

use janus_array::ChildrenArray;
use janus_array::CommandElements;
use janus_array::Commands;
use janus_array::Coordinates;
use janus_array::DiskOffsets;
use janus_array::File;
use janus_array::Slices;

#[test]
fn defaults_are_empty() {
    let file = File::default();
    assert_eq!(file.start_abs_address, 0);
    assert_eq!(file.end_abs_address, 0);
    assert_eq!(file.absolute_range, 0..0);
    assert_eq!(file.my_ordinal, 0);
    assert!(file.slices.is_empty());

    let sl = Slices::default();
    assert_eq!(sl.absolute_range, 0..0);
    assert!(sl.commands.is_empty());

    let cmd = Commands::default();
    assert_eq!(cmd.relative_range, 0..0);
    assert!(cmd.elements.is_empty());

    let el = CommandElements::default();
    assert_eq!(el.start_rel_address, 0);
    assert_eq!(el.my_ordinal, 0);
}

#[test]
fn new_file_equals_default() {
    let a = File::new();
    let b = File::default();
    assert_eq!(a.absolute_range, b.absolute_range);
    assert_eq!(a.slices.len(), b.slices.len());
}

#[test]
fn with_size_covers_whole_file() {
    let file = File::with_size(1024);
    assert_eq!(file.start_abs_address, 0);
    assert_eq!(file.end_abs_address, 1024);
    assert_eq!(file.start_rel_address, 0);
    assert_eq!(file.end_rel_address, 1024);
    assert_eq!(file.absolute_range, 0..1024);
    assert_eq!(file.relative_range, 0..1024);
    assert!(file.slices.is_empty());
}

#[test]
fn populate_values_sets_both_ranges_and_ordinal() {
    let mut el = CommandElements::default();
    el.populate_values(150, 180, 50, 30, 7);
    assert_eq!(el.start_abs_address, 150);
    assert_eq!(el.end_abs_address, 180);
    assert_eq!(el.start_rel_address, 50);
    assert_eq!(el.end_rel_address, 30);
    assert_eq!(el.absolute_range, 150..180);
    assert_eq!(el.relative_range, 50..30);
    assert_eq!(el.my_ordinal, 7);

    let mut cmd = Commands::default();
    cmd.populate_values(100, 200, 100, 100, 3);
    assert_eq!(cmd.get_absolute_range(), 100..200);
    assert_eq!(cmd.get_relative_range(), 100..100);
    assert_eq!(cmd.my_ordinal, 3);
}

#[test]
fn file_relative_range_follows_absolute_bounds() {
    // The root is its own parent: its relative range is recomputed from
    // the absolute scalar bounds.
    let mut file = File::default();
    file.populate_values(0, 4096, 0, 0, 0);
    assert_eq!(file.get_absolute_range(), 0..4096);
    assert_eq!(file.get_relative_range(), 0..4096);
}

#[test]
fn explicit_range_setters_do_not_touch_scalars() {
    let mut sl = Slices::default();
    sl.populate_values(0, 512, 0, 512, 0);
    sl.set_absolute_range_explicit(5..17);
    assert_eq!(sl.get_absolute_range(), 5..17);
    assert_eq!(sl.start_abs_address, 0);
    assert_eq!(sl.end_abs_address, 512);
    sl.set_absolute_range_implicit();
    assert_eq!(sl.get_absolute_range(), 0..512);
    sl.set_relative_range_explicit(9..11);
    assert_eq!(sl.get_relative_range(), 9..11);
}

#[test]
fn scalar_setters_and_bounds() {
    let mut cmd = Commands::default();
    cmd.set_start_abs_address(100);
    cmd.set_end_abs_address(200);
    cmd.set_absolute_range_implicit();
    assert_eq!(cmd.get_min_abs_address(), 100);
    assert_eq!(cmd.get_max_abs_address(), 200);
    assert_eq!(cmd.get_absolute_range(), 100..200);
    cmd.set_ordinal(9);
    assert_eq!(cmd.my_ordinal, 9);
}

#[test]
fn contains_absolute_address_is_half_open() {
    let mut el = CommandElements::default();
    el.populate_values(10, 20, 0, 10, 0);
    assert!(!el.contains_absolute_address(9));
    assert!(el.contains_absolute_address(10));
    assert!(el.contains_absolute_address(19));
    assert!(!el.contains_absolute_address(20));
}

#[test]
fn has_children_reflects_attachment() {
    let mut file = File::with_size(100);
    assert!(!file.has_children());
    let mut sl = Slices::default();
    sl.populate_values(0, 50, 0, 50, 0);
    file.add_slice(sl);
    assert!(file.has_children());

    let mut cmd = Commands::default();
    assert!(!cmd.has_children());
    let mut el = CommandElements::default();
    el.populate_values(0, 10, 0, 10, 0);
    cmd.add_element(el);
    assert!(cmd.has_children());

    let leaf = CommandElements::default();
    assert!(!leaf.has_children());
}

#[test]
fn leaf_has_no_children_to_hand_out() {
    let mut leaf = CommandElements::default();
    assert!(leaf.get_children().is_none());
    leaf.sort_children();
    assert_eq!(leaf.start_abs_address, 0);
}

#[test]
fn sort_children_orders_by_absolute_start() {
    let mut cmd = Commands::default();
    cmd.populate_values(0, 100, 0, 100, 0);
    let starts = [30u64, 10, 20, 10];
    for (i, s) in starts.iter().enumerate() {
        let mut el = CommandElements::default();
        el.populate_values(*s, s + 5, 0, 5, i);
        cmd.add_element(el);
    }
    cmd.sort_children();
    let sorted: Vec<u64> = cmd.elements.iter().map(|e| e.start_abs_address).collect();
    assert_eq!(sorted, vec![10, 10, 20, 30]);
    // Equal keys keep their arrival order: the sort is stable.
    assert_eq!(cmd.elements[0].my_ordinal, 1);
    assert_eq!(cmd.elements[1].my_ordinal, 3);
}

#[test]
fn get_children_sorts_and_wraps_in_matching_variant() {
    let mut file = File::with_size(100);
    let mut s1 = Slices::default();
    s1.populate_values(50, 100, 50, 50, 1);
    let mut s0 = Slices::default();
    s0.populate_values(0, 50, 0, 50, 0);
    file.add_slice(s1);
    file.add_slice(s0);
    match file.get_children() {
        Some(ChildrenArray::File(v)) => {
            assert_eq!(v.len(), 2);
            assert_eq!(v[0].start_abs_address, 0);
            assert_eq!(v[1].start_abs_address, 50);
        },
        other => panic!("expected the file variant, got {:?}", other),
    }
    assert_eq!(file.slices[0].start_abs_address, 0);
    assert_eq!(file.slices[1].start_abs_address, 50);

    let mut empty = File::with_size(10);
    assert!(empty.get_children().is_none());
}

#[test]
fn get_children_of_slice_and_command() {
    let mut sl = Slices::default();
    sl.populate_values(0, 100, 0, 100, 0);
    let mut c = Commands::default();
    c.populate_values(10, 20, 10, 10, 0);
    sl.add_command(c);
    match sl.get_children() {
        Some(ChildrenArray::Slice(v)) => assert_eq!(v[0].get_absolute_range(), 10..20),
        other => panic!("expected the slice variant, got {:?}", other),
    }

    let mut cmd = Commands::default();
    cmd.populate_values(0, 100, 0, 100, 0);
    let mut el = CommandElements::default();
    el.populate_values(5, 6, 5, 1, 0);
    cmd.add_element(el);
    match cmd.get_children() {
        Some(ChildrenArray::Commands(v)) => assert_eq!(v[0].get_absolute_range(), 5..6),
        other => panic!("expected the commands variant, got {:?}", other),
    }
}

#[test]
fn coordinates_setters_record_each_level() {
    let mut c = Coordinates::new();
    assert_eq!(c, Coordinates { slice: None, command: None, element: None });
    c.set_slice(1);
    c.set_command(2);
    c.set_element(3);
    assert_eq!(c, Coordinates { slice: Some(1), command: Some(2), element: Some(3) });
    let d = Coordinates::default();
    assert_eq!(d.slice, None);
    assert_eq!(d.command, None);
    assert_eq!(d.element, None);
}

#[test]
fn clones_preserve_the_tree() {
    let mut file = File::with_size(100);
    let mut sl = Slices::default();
    sl.populate_values(0, 50, 0, 50, 0);
    let mut cmd = Commands::default();
    cmd.populate_values(10, 20, 10, 10, 0);
    let mut el = CommandElements::default();
    el.populate_values(12, 15, 2, 3, 0);
    cmd.add_element(el);
    sl.add_command(cmd);
    file.add_slice(sl);
    let mut copy = file.clone();
    assert_eq!(copy.absolute_range, 0..100);
    assert_eq!(copy.slices.len(), 1);
    assert_eq!(copy.slices[0].commands[0].elements[0].absolute_range, 12..15);
    let coords = copy.find_address(13).unwrap();
    assert_eq!(coords, Coordinates { slice: Some(0), command: Some(0), element: Some(0) });
}
