use gpu_wddm::bringup::runtime::{fence, fence_slot, hit, publish, RuntimeStats, Stat};
use gpu_wddm::bringup::{count, event, key_opened, record};
use gpu_wddm::text::{append_decimal, encode_utf16};

const KEY: &str =
    "\\Registry\\Machine\\System\\CurrentControlSet\\Services\\VirtioGpu\\Parameters\\Bringup";

fn pairs(stats: &RuntimeStats) -> Vec<(String, u32)> {
    publish(0, stats).into_iter().map(|r| (r.name, r.value)).collect()
}

#[test]
fn a_record_is_a_counted_utf16_write() {
    let w = record(true, 0, "a\u{1F600}b", 9).unwrap();
    assert_eq!(w.key, KEY.encode_utf16().collect::<Vec<u16>>());
    assert_eq!(w.key_bytes as usize, 2 * KEY.len());
    assert_eq!(w.name, [0x61, 0xD83D, 0xDE00, 0x62]);
    assert_eq!(w.name_bytes, 8);
    assert_eq!(w.value, 9);
}

#[test]
fn nothing_is_recorded_above_passive_level_or_when_disabled() {
    assert!(record(true, 1, "x", 1).is_none());
    assert!(record(true, 2, "x", 1).is_none());
    assert!(record(false, 0, "x", 1).is_none());
}

#[test]
fn long_names_wrap_the_length_field() {
    let name: String = std::iter::repeat('x').take(32769).collect();
    let w = record(true, 0, &name, 0).unwrap();
    assert_eq!(w.name.len(), 32769);
    assert_eq!(w.name_bytes, 2);
}

#[test]
fn utf16_matches_the_standard_encoding() {
    for text in ["", "abc", "\u{FFFF}\u{10000}\u{10FFFF}\u{D7FF}\u{E000}", "日本"] {
        assert_eq!(encode_utf16(text), text.encode_utf16().collect::<Vec<u16>>());
    }
}

#[test]
fn decimals_are_zero_padded() {
    let mut text = String::from("n");
    append_decimal(&mut text, 7, 3);
    assert_eq!(text, "n007");
    append_decimal(&mut text, 1234567890, 10);
    assert_eq!(text, "n0071234567890");
    append_decimal(&mut text, 1234, 2);
    assert_eq!(text, "n007123456789034");
}

#[test]
fn a_status_below_zero_means_no_key() {
    assert!(key_opened(0));
    assert!(key_opened(1));
    assert!(!key_opened(-1));
    assert!(!key_opened(0xC0000034u32 as i32));
}

#[test]
fn a_count_publishes_the_running_total() {
    let mut counter = 4;
    let r = count(true, "GuestBackingOkCount", &mut counter).unwrap();
    assert_eq!((r.name.as_str(), r.value, counter), ("GuestBackingOkCount", 5, 5));
    let r = count(true, "GuestBackingOkCount", &mut counter).unwrap();
    assert_eq!((r.value, counter), (6, 6));
    assert!(count(false, "GuestBackingOkCount", &mut counter).is_none());
    assert_eq!(counter, 6);
}

#[test]
fn events_are_numbered_until_the_limit() {
    let mut sequence = 0;
    let r = event(true, 0, &mut sequence, "Start", 3).unwrap();
    assert_eq!((r.name.as_str(), r.value), ("Event000_Start", 3));
    let r = event(true, 0, &mut sequence, "Stop", 4).unwrap();
    assert_eq!((r.name.as_str(), r.value), ("Event001_Stop", 4));
    sequence = 255;
    let r = event(true, 0, &mut sequence, "Last", 0).unwrap();
    assert_eq!(r.name, "Event255_Last");
    assert!(event(true, 0, &mut sequence, "Late", 0).is_none());
    assert_eq!(sequence, 257);
    sequence = u32::MAX;
    assert!(event(true, 0, &mut sequence, "Wrap", 0).is_none());
    assert_eq!(sequence, 0);
}

#[test]
fn skipped_events_take_no_number() {
    let mut sequence = 5;
    assert!(event(true, 2, &mut sequence, "Dpc", 0).is_none());
    assert!(event(false, 0, &mut sequence, "Off", 0).is_none());
    assert_eq!(sequence, 5);
}

#[test]
fn event_names_sort_by_number() {
    let mut sequence = 0;
    let mut names = Vec::new();
    for i in 0..256 {
        let name = if i % 2 == 0 { "Zz" } else { "Aa" };
        names.push(event(true, 0, &mut sequence, name, 0).unwrap().name);
    }
    let mut sorted = names.clone();
    sorted.sort();
    assert_eq!(names, sorted);
}

#[test]
fn counters_are_published_in_order() {
    let mut stats = RuntimeStats::new(true);
    hit(&mut stats, Stat::CreateDeviceEnter);
    hit(&mut stats, Stat::NotifyReturn);
    hit(&mut stats, Stat::NotifyReturn);
    let published = pairs(&stats);
    assert_eq!(published.len(), 20);
    assert_eq!(published[0], ("RuntimeDiagnosticsRevision".to_string(), 61));
    assert_eq!(published[1], ("RtCreateDeviceEnter".to_string(), 1));
    assert_eq!(published[2], ("RtCreateDeviceOk".to_string(), 0));
    assert_eq!(published[14], ("RtControlResponsesDone".to_string(), 0));
    assert_eq!(published[19], ("RtNotifyReturn".to_string(), 2));
}

#[test]
fn hits_in_any_order_count_the_same() {
    let mut a = RuntimeStats::new(true);
    hit(&mut a, Stat::IrqEnter);
    hit(&mut a, Stat::DpcEnter);
    let mut b = RuntimeStats::new(true);
    hit(&mut b, Stat::DpcEnter);
    hit(&mut b, Stat::IrqEnter);
    assert_eq!(a.counters, b.counters);
}

#[test]
fn a_full_counter_wraps() {
    let mut stats = RuntimeStats::new(true);
    stats.counters[8] = u32::MAX;
    hit(&mut stats, Stat::IrqEnter);
    assert_eq!(stats.counters, [0; 19]);
}

#[test]
fn fences_of_seen_nodes_are_published_whole() {
    let mut stats = RuntimeStats::new(true);
    fence(&mut stats, 1, 5, 77);
    fence(&mut stats, 0, 63, 1);
    fence(&mut stats, 3, 0, 9);
    fence(&mut stats, 0, 64, 9);
    fence(&mut stats, 0, u32::MAX, 9);
    let published = pairs(&stats);
    let fences: Vec<(&str, u32)> =
        published[20..].iter().map(|(n, v)| (n.as_str(), *v)).collect();
    assert_eq!(
        fences,
        [
            ("RtFence05_Submit", 0),
            ("RtFence05_Response", 77),
            ("RtFence05_Notify", 0),
            ("RtFence63_Submit", 1),
            ("RtFence63_Response", 0),
            ("RtFence63_Notify", 0),
        ]
    );
}

#[test]
fn fence_slots_stop_at_the_table() {
    assert_eq!(fence_slot(2, 63), Some((2, 63)));
    assert_eq!(fence_slot(3, 0), None);
    assert_eq!(fence_slot(0, 64), None);
}

#[test]
fn published_names_are_distinct() {
    let mut stats = RuntimeStats::new(true);
    for node in 0..64 {
        fence(&mut stats, 2, node, 1);
    }
    let mut names: Vec<String> = pairs(&stats).into_iter().map(|(n, _)| n).collect();
    assert_eq!(names.len(), 20 + 3 * 64);
    names.sort();
    names.dedup();
    assert_eq!(names.len(), 20 + 3 * 64);
}

#[test]
fn disabled_checkpoints_see_nothing() {
    let mut stats = RuntimeStats::new(false);
    hit(&mut stats, Stat::IrqEnter);
    hit(&mut stats, Stat::Count);
    fence(&mut stats, 0, 0, 4);
    assert_eq!(stats.counters, [0; 19]);
    assert_eq!(stats.fences[0][0], 0);
    assert!(publish(0, &stats).is_empty());
    assert!(publish(2, &RuntimeStats::new(true)).is_empty());
}

#[test]
fn slots_follow_declaration_order() {
    assert_eq!(Stat::CreateDeviceEnter.slot(), 0);
    assert_eq!(Stat::ControlWake.slot(), 12);
    assert_eq!(Stat::NotifyReturn.slot(), 18);
    assert_eq!(Stat::Count.slot(), 19);
}
