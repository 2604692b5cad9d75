use sonar::capture::{
    interfaces_to_open, next_action, select_target, CaptureAction, CaptureEvent, CaptureTarget,
    StopReason,
};
use sonar::error::SonarError;
use sonar::export::{csv_of, fingerprint_key, keyed_rows, CSV_HEADER};
use sonar::fingerprint::{fingerprint_of, PacketInfos};
use sonar::interfaces::with_all_entry;
use sonar::table::FrequencyTable;
use sonar::{get_interfaces, SonarState};

fn frame(dst: [u8; 6], src: [u8; 6], ethertype: u16, payload: &[u8]) -> Vec<u8> {
    let mut f = Vec::new();
    f.extend_from_slice(&dst);
    f.extend_from_slice(&src);
    f.push((ethertype >> 8) as u8);
    f.push((ethertype & 0xff) as u8);
    f.extend_from_slice(payload);
    f
}

fn key_a() -> PacketInfos {
    PacketInfos {
        mac_address_source: 0x0011_2233_4455,
        mac_address_destination: 0xffff_ffff_ffff,
        ethertype: 0x0800,
    }
}

fn key_b() -> PacketInfos {
    PacketInfos {
        mac_address_source: 0xaabb_ccdd_eeff,
        mac_address_destination: 0x0102_0304_0506,
        ethertype: 0x86dd,
    }
}

fn frame_a() -> Vec<u8> {
    frame([0xff; 6], [0x00, 0x11, 0x22, 0x33, 0x44, 0x55], 0x0800, &[1, 2, 3])
}

fn frame_b() -> Vec<u8> {
    frame([1, 2, 3, 4, 5, 6], [0xaa, 0xbb, 0xcc, 0xdd, 0xee, 0xff], 0x86dd, &[])
}

#[test]
fn fingerprint_reads_the_ethernet_header() {
    assert_eq!(fingerprint_of(&frame_a()), Some(key_a()));
    assert_eq!(fingerprint_of(&frame_b()), Some(key_b()));
}

#[test]
fn fingerprint_ignores_payload() {
    let f1 = frame([0xff; 6], [0x00, 0x11, 0x22, 0x33, 0x44, 0x55], 0x0800, &[9, 9, 9, 9]);
    assert_eq!(fingerprint_of(&f1), fingerprint_of(&frame_a()));
}

#[test]
fn short_frame_has_no_fingerprint() {
    assert_eq!(fingerprint_of(&[]), None);
    assert_eq!(fingerprint_of(&frame_a()[..13]), None);
}

#[test]
fn count_equals_number_of_matching_frames() {
    let frames = vec![frame_a(), frame_b(), frame_a(), vec![1, 2, 3], frame_a(), frame_b()];
    let mut table = FrequencyTable::new();
    table.record_frames(&frames);
    assert_eq!(table.count_of(key_a()), 3);
    assert_eq!(table.count_of(key_b()), 2);
    assert_eq!(table.snapshot().len(), 2);
}

#[test]
fn count_does_not_depend_on_order() {
    let mut t1 = FrequencyTable::new();
    t1.record_frames(&vec![frame_a(), frame_b(), frame_a()]);
    let mut t2 = FrequencyTable::new();
    t2.record_frames(&vec![frame_b(), frame_a(), frame_a()]);
    assert_eq!(t1.count_of(key_a()), t2.count_of(key_a()));
    assert_eq!(t1.count_of(key_b()), t2.count_of(key_b()));
}

#[test]
fn interleaved_increments_are_not_lost() {
    let state = SonarState::new();
    let keys = [key_a(), key_b(), key_a(), key_a()];
    let mut same = 0u64;
    for i in 0..400 {
        let k = keys[i % 4];
        state.push_to_hash_map(k);
        if k == key_a() {
            same += 1;
        }
    }
    assert_eq!(same, 300);
    assert_eq!(state.count_of(key_a()), 300);
    assert_eq!(state.count_of(key_b()), 100);
}

#[test]
fn increment_inserts_then_adds() {
    let mut table = FrequencyTable::new();
    assert_eq!(table.count_of(key_a()), 0);
    assert!(table.increment(key_a()));
    assert_eq!(table.count_of(key_a()), 1);
    assert!(table.increment(key_a()));
    assert_eq!(table.count_of(key_a()), 2);
    assert_eq!(table.count_of(key_b()), 0);
    table.clear();
    assert_eq!(table.count_of(key_a()), 0);
    assert!(table.snapshot().is_empty());
}

#[test]
fn interface_list_ends_with_all() {
    let names = get_interfaces();
    assert_eq!(names.last().map(|s| s.as_str()), Some("all"));
}

#[test]
fn empty_interface_list_is_just_all() {
    assert_eq!(with_all_entry(Vec::new()), vec!["all".to_string()]);
    assert_eq!(
        with_all_entry(vec!["eth0".to_string(), "lo".to_string()]),
        vec!["eth0".to_string(), "lo".to_string(), "all".to_string()]
    );
}

#[test]
fn export_of_empty_table_is_header_only() {
    let table = FrequencyTable::new();
    assert_eq!(table.to_csv(), CSV_HEADER);
    assert_eq!(
        csv_of(&Vec::new()),
        "mac_address_source,mac_address_destination,ethertype,count\n"
    );
    assert_eq!(SonarState::new().export_csv(), CSV_HEADER);
}

#[test]
fn export_of_two_fingerprints_has_two_rows() {
    let state = SonarState::new();
    for _ in 0..3 {
        state.push_to_hash_map(key_a());
    }
    for _ in 0..5 {
        state.push_to_hash_map(key_b());
    }
    let text = state.export_csv();
    let lines: Vec<&str> = text.lines().collect();
    assert_eq!(lines.len(), 3);
    assert_eq!(lines[0], "mac_address_source,mac_address_destination,ethertype,count");
    let mut counts: Vec<&str> = lines[1..].iter().map(|l| l.rsplit(',').next().unwrap()).collect();
    counts.sort();
    assert_eq!(counts, vec!["3", "5"]);
    assert!(lines.contains(&"00:11:22:33:44:55,ff:ff:ff:ff:ff:ff,0x0800,3"));
    assert!(lines.contains(&"aa:bb:cc:dd:ee:ff,01:02:03:04:05:06,0x86dd,5"));
}

#[test]
fn export_writes_counts_in_decimal() {
    let rows = vec![(key_a(), 1234567u64), (key_b(), 10u64)];
    assert_eq!(
        csv_of(&rows),
        "mac_address_source,mac_address_destination,ethertype,count\n\
         00:11:22:33:44:55,ff:ff:ff:ff:ff:ff,0x0800,1234567\n\
         aa:bb:cc:dd:ee:ff,01:02:03:04:05:06,0x86dd,10\n"
    );
}

#[test]
fn status_key_joins_fields() {
    assert_eq!(fingerprint_key(&key_a()), "00:11:22:33:44:55-ff:ff:ff:ff:ff:ff-0x0800");
    let keyed = keyed_rows(&vec![(key_b(), 7u64)]);
    assert_eq!(keyed, vec![("aa:bb:cc:dd:ee:ff-01:02:03:04:05:06-0x86dd".to_string(), 7u64)]);
}

#[test]
fn unknown_interface_is_a_configuration_error() {
    let state = SonarState::new();
    state.push_to_hash_map(key_a());
    let available = vec!["eth0".to_string(), "all".to_string()];
    let r = select_target(&"wlan9".to_string(), &available);
    assert!(matches!(r, Err(SonarError::ConfigurationError)));
    assert_eq!(state.snapshot(), vec![(key_a(), 1u64)]);
}

#[test]
fn known_interface_and_all_are_selected() {
    let available = vec!["eth0".to_string(), "lo".to_string(), "all".to_string()];
    match select_target(&"lo".to_string(), &available) {
        Ok(CaptureTarget::SingleInterface(n)) => assert_eq!(n, "lo"),
        _ => panic!("lo should be selected"),
    }
    assert!(matches!(
        select_target(&"all".to_string(), &available),
        Ok(CaptureTarget::AllInterfaces)
    ));
    assert!(matches!(select_target(&"all".to_string(), &Vec::new()), Ok(CaptureTarget::AllInterfaces)));
}

#[test]
fn all_opens_every_real_interface() {
    let available = vec!["eth0".to_string(), "lo".to_string(), "all".to_string()];
    assert_eq!(
        interfaces_to_open(&CaptureTarget::AllInterfaces, &available),
        vec!["eth0".to_string(), "lo".to_string()]
    );
    assert_eq!(
        interfaces_to_open(&CaptureTarget::SingleInterface("lo".to_string()), &available),
        vec!["lo".to_string()]
    );
}

#[test]
fn cancel_stops_and_keeps_the_table() {
    let state = SonarState::new();
    assert_eq!(state.apply_event(&CaptureEvent::Frame(frame_a())), CaptureAction::KeepReading);
    assert_eq!(state.apply_event(&CaptureEvent::Frame(frame_a())), CaptureAction::KeepReading);
    assert_eq!(state.apply_event(&CaptureEvent::ReadTimedOut), CaptureAction::KeepReading);
    assert_eq!(
        state.apply_event(&CaptureEvent::CancelRequested),
        CaptureAction::Stop(StopReason::Cancelled)
    );
    assert_eq!(state.snapshot(), vec![(key_a(), 2u64)]);
}

#[test]
fn transient_errors_do_not_stop_the_loop() {
    let mut table = FrequencyTable::new();
    assert_eq!(table.apply_event(&CaptureEvent::ReadFailed), CaptureAction::KeepReading);
    assert_eq!(table.apply_event(&CaptureEvent::Frame(vec![0u8; 5])), CaptureAction::KeepReading);
    assert!(table.snapshot().is_empty());
    assert_eq!(
        next_action(&CaptureEvent::InterfaceLost),
        CaptureAction::Stop(StopReason::InterfaceLost)
    );
}

#[test]
fn snapshot_after_cancel_is_stable() {
    let state = SonarState::new();
    state.apply_event(&CaptureEvent::Frame(frame_a()));
    state.apply_event(&CaptureEvent::Frame(frame_b()));
    state.apply_event(&CaptureEvent::CancelRequested);
    let first = state.snapshot();
    let second = state.snapshot();
    assert_eq!(first, second);
    assert_eq!(state.export_csv(), state.export_csv());
    assert_eq!(state.status_entries(), state.status_entries());
}
