use nrf52_radio_rs::advert::{
    beacon_data, discovery_data, make_adv_payload, Beacon, FLAGS, MAX_NAME_LEN,
};

#[test]
fn vendor_payload_is_big_endian() {
    assert_eq!(make_adv_payload(0, 0), [0, 0, 0, 0, 0, 0, 0, 0]);
    assert_eq!(
        make_adv_payload(0x0a0b0c0d, 0x01020304),
        [0x01, 0x02, 0x03, 0x04, 0x0a, 0x0b, 0x0c, 0x0d]
    );
    assert_eq!(make_adv_payload(1000, 100), [0, 0, 0, 100, 0, 0, 0x03, 0xe8]);
}

#[test]
fn elapsed_time_is_cut_to_32_bits() {
    assert_eq!(
        make_adv_payload(0x1_0000_0005, u32::MAX),
        [0xff, 0xff, 0xff, 0xff, 0, 0, 0, 5]
    );
}

#[test]
fn discovery_data_bytes() {
    let data = discovery_data(b"Trouble Example").unwrap();
    let mut expected = vec![0x02, 0x01, FLAGS, 0x03, 0x03, 0x0f, 0x18, 16, 0x09];
    expected.extend_from_slice(b"Trouble Example");
    assert_eq!(data, expected);
    assert_eq!(FLAGS, 0x06);
}

#[test]
fn discovery_data_with_empty_name() {
    assert_eq!(
        discovery_data(b""),
        Some(vec![0x02, 0x01, 0x06, 0x03, 0x03, 0x0f, 0x18, 1, 0x09])
    );
}

#[test]
fn discovery_name_at_and_over_the_limit() {
    let longest = vec![b'n'; MAX_NAME_LEN];
    let data = discovery_data(&longest).unwrap();
    assert_eq!(data.len(), 31);
    assert_eq!(data[7], 23);
    let too_long = vec![b'n'; MAX_NAME_LEN + 1];
    assert_eq!(discovery_data(&too_long), None);
}

#[test]
fn beacon_data_bytes() {
    let data = beacon_data(1000, 100);
    let mut expected = vec![15, 0x09];
    expected.extend_from_slice(b"Trouble Beacon");
    expected.extend_from_slice(&[0x02, 0x01, 0x06]);
    expected.extend_from_slice(&[11, 0xff, 0xff, 0xff]);
    expected.extend_from_slice(&[0, 0, 0, 100, 0, 0, 0x03, 0xe8]);
    assert_eq!(data, expected);
    assert_eq!(data.len(), 31);
}

#[test]
fn beacon_counts_and_reports_every_hundredth() {
    let mut beacon = Beacon::new();
    assert_eq!(beacon.data(0), beacon_data(0, 0));
    for i in 1..=250u32 {
        let update = beacon.tick(u64::from(i) * 10);
        assert_eq!(beacon.update_count, i);
        assert_eq!(update.log, i % 100 == 0);
        assert_eq!(update.data, beacon_data(u64::from(i) * 10, i));
    }
}

#[test]
fn beacon_count_wraps() {
    let mut beacon = Beacon { update_count: u32::MAX };
    let update = beacon.tick(7);
    assert_eq!(beacon.update_count, 0);
    assert!(update.log);
    assert_eq!(update.data, beacon_data(7, 0));
}
