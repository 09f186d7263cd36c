use subwoofer::dispatch::DispatchRound;
use subwoofer::frame::{representative_sample, EmptyFrame};
use subwoofer::select::{choose_device, order_by_name, parse_selection, DeviceChoice};

#[test]
fn failing_endpoint_does_not_stop_the_round() {
    // Endpoint 0 fails, endpoint 1 succeeds.
    let replies = [false, true];
    let mut round = DispatchRound::new(2);
    let mut addressed = Vec::new();
    while let Some(i) = round.next_endpoint() {
        addressed.push(i);
        round.record(replies[i]);
    }
    assert_eq!(addressed, vec![0, 1]);
    assert!(round.is_complete());
    assert_eq!(round.outcomes(), vec![false, true]);
    assert_eq!(round.failures(), vec![0]);
}

#[test]
fn round_over_no_endpoints_is_complete() {
    let round = DispatchRound::new(0);
    assert_eq!(round.next_endpoint(), None);
    assert!(round.is_complete());
    assert_eq!(round.failures(), Vec::<usize>::new());
}

#[test]
fn failures_lists_every_failed_index() {
    let mut round = DispatchRound::new(4);
    for ok in [false, true, false, false] {
        round.record(ok);
    }
    assert_eq!(round.failures(), vec![0, 2, 3]);
}

#[test]
fn device_choice_by_count() {
    assert_eq!(choose_device(0), DeviceChoice::NoDevices);
    assert_eq!(choose_device(1), DeviceChoice::Only);
    assert_eq!(choose_device(5), DeviceChoice::Ask);
}

#[test]
fn selection_reads_first_digit() {
    assert_eq!(parse_selection(b"2\n", 3), Some(2));
    assert_eq!(parse_selection(b"0", 2), Some(0));
    assert_eq!(parse_selection(b"17\n", 9), Some(1));
}

#[test]
fn selection_rejects_bad_answers() {
    assert_eq!(parse_selection(b"", 3), None);
    assert_eq!(parse_selection(b"\n", 3), None);
    assert_eq!(parse_selection(b"x", 3), None);
    assert_eq!(parse_selection(b"3", 3), None);
    assert_eq!(parse_selection(b"9", 3), None);
}

#[test]
fn representative_is_last_sample() {
    let frame = [0.1f32, -0.4, -0.25];
    assert_eq!(representative_sample(&frame), Ok(-0.25));
    assert_eq!(representative_sample(&[7u8]), Ok(7));
}

#[test]
fn empty_frame_is_refused() {
    let frame: [f32; 0] = [];
    assert_eq!(representative_sample(&frame), Err(EmptyFrame));
}

fn names(list: &[&str]) -> Vec<Vec<u8>> {
    list.iter().map(|n| n.as_bytes().to_vec()).collect()
}

#[test]
fn devices_are_ordered_by_name() {
    let order = order_by_name(&names(&["Speakers", "HDMI", "Headphones", "Built-in"]));
    assert_eq!(order, vec![3, 1, 2, 0]);
}

#[test]
fn equal_names_keep_their_places() {
    let order = order_by_name(&names(&["b", "a", "b", "a", ""]));
    assert_eq!(order, vec![4, 1, 3, 0, 2]);
}

#[test]
fn prefix_name_comes_first() {
    let order = order_by_name(&names(&["Output 2", "Output", "Output 10"]));
    assert_eq!(order, vec![1, 2, 0]);
}

#[test]
fn no_devices_give_empty_order() {
    assert_eq!(order_by_name(&Vec::new()), Vec::<usize>::new());
}
