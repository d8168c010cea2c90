use netstats::addr::IfAddress;
use netstats::addr::Ipv4Address;
use netstats::addr::MacAddress;
use netstats::data::CounterSample;
use netstats::data::NetworkData;
use netstats::parse::parse_interface_messages;
use netstats::table::Networks;
use netstats::table::Snapshot;

fn put_u16(b: &mut Vec<u8>, pos: usize, v: u16) {
    b[pos] = (v & 0xff) as u8;
    b[pos + 1] = (v >> 8) as u8;
}

fn put_u64(b: &mut Vec<u8>, pos: usize, v: u64) {
    let mut i: usize = 0;
    while i < 8 {
        b[pos + i] = ((v >> (8 * i)) & 0xff) as u8;
        i += 1;
    }
}

fn ifinfo_message(
    index: u16,
    in_bytes: u64,
    out_bytes: u64,
    packets_in: u64,
    packets_out: u64,
    errors_in: u64,
    errors_out: u64,
) -> Vec<u8> {
    let mut b = vec![0u8; 112];
    put_u16(&mut b, 0, 112);
    b[3] = 18;
    put_u16(&mut b, 12, index);
    put_u64(&mut b, 56, packets_in);
    put_u64(&mut b, 64, errors_in);
    put_u64(&mut b, 72, packets_out);
    put_u64(&mut b, 80, errors_out);
    put_u64(&mut b, 96, in_bytes);
    put_u64(&mut b, 104, out_bytes);
    b
}

fn sample(
    in_bytes: u64,
    out_bytes: u64,
    packets_in: u64,
    packets_out: u64,
    errors_in: u64,
    errors_out: u64,
) -> CounterSample {
    CounterSample::new(in_bytes, out_bytes, packets_in, packets_out, errors_in, errors_out)
}

fn snapshot_of(samples: Vec<(String, CounterSample)>) -> Option<Snapshot> {
    Some(Snapshot { samples, addresses: Vec::new() })
}

fn data(current: u64, previous: u64) -> NetworkData {
    NetworkData {
        current_in: current,
        old_in: previous,
        current_out: current,
        old_out: previous,
        packets_in: current,
        old_packets_in: previous,
        packets_out: current,
        old_packets_out: previous,
        errors_in: current,
        old_errors_in: previous,
        errors_out: current,
        old_errors_out: previous,
        updated: true,
        mac_addr: MacAddress::unspecified(),
        ipv4_addr: Ipv4Address::unspecified(),
        ipv4_mask: Ipv4Address::unspecified(),
    }
}

#[test]
fn received_is_difference_when_counter_grew() {
    let d = data(1500, 1000);
    assert_eq!(d.received(), 500);
    assert_eq!(d.transmitted(), 500);
    assert_eq!(d.packets_received(), 500);
    assert_eq!(d.packets_transmitted(), 500);
    assert_eq!(d.errors_on_received(), 500);
    assert_eq!(d.errors_on_transmitted(), 500);
    assert_eq!(d.total_received(), 1500);
    assert_eq!(d.total_transmitted(), 1500);
}

#[test]
fn received_is_zero_when_counter_went_backward() {
    let d = data(40, 100);
    assert_eq!(d.received(), 0);
    assert_eq!(d.transmitted(), 0);
    assert_eq!(d.packets_received(), 0);
    assert_eq!(d.packets_transmitted(), 0);
    assert_eq!(d.errors_on_received(), 0);
    assert_eq!(d.errors_on_transmitted(), 0);
    assert_eq!(d.total_received(), 40);
}

#[test]
fn brand_new_interface_has_zero_deltas() {
    let mut nets = Networks::new();
    nets.update(&String::from("eth0"), sample(12345, 6789, 42, 43, 1, 2));
    let d = *nets.get(&String::from("eth0")).unwrap();
    assert_eq!(d.total_received(), 12345);
    assert_eq!(d.total_transmitted(), 6789);
    assert_eq!(d.received(), 0);
    assert_eq!(d.transmitted(), 0);
    assert_eq!(d.packets_received(), 0);
    assert_eq!(d.packets_transmitted(), 0);
    assert_eq!(d.errors_on_received(), 0);
    assert_eq!(d.errors_on_transmitted(), 0);
}

#[test]
fn update_shifts_current_into_previous() {
    let mut nets = Networks::new();
    let name = String::from("en1");
    nets.update(&name, sample(1000, 500, 10, 20, 1, 2));
    nets.update(&name, sample(1500, 600, 15, 26, 3, 4));
    let d = nets.get(&name).unwrap();
    assert_eq!(d.total_received(), 1500);
    assert_eq!(d.received(), 500);
    assert_eq!(d.total_transmitted(), 600);
    assert_eq!(d.transmitted(), 100);
    assert_eq!(d.packets_received(), 5);
    assert_eq!(d.packets_transmitted(), 6);
    assert_eq!(d.errors_on_received(), 2);
    assert_eq!(d.errors_on_transmitted(), 2);
}

#[test]
fn two_refreshes_track_progress() {
    let mut nets = Networks::new();
    nets.refresh(&snapshot_of(vec![(String::from("eth0"), sample(1000, 500, 0, 0, 0, 0))]));
    {
        let d = nets.get(&String::from("eth0")).unwrap();
        assert_eq!(d.total_received(), 1000);
        assert_eq!(d.received(), 0);
    }
    nets.refresh(&snapshot_of(vec![(String::from("eth0"), sample(1500, 600, 0, 0, 0, 0))]));
    let d = nets.get(&String::from("eth0")).unwrap();
    assert_eq!(d.total_received(), 1500);
    assert_eq!(d.received(), 500);
    assert_eq!(d.transmitted(), 100);
}

#[test]
fn reconcile_removes_absent_interface() {
    let mut nets = Networks::new();
    nets.refresh_networks_list(
        &snapshot_of(vec![(String::from("eth0"), sample(1000, 500, 0, 0, 0, 0))]),
    );
    assert!(nets.get(&String::from("eth0")).is_some());
    nets.refresh_networks_list(&snapshot_of(vec![]));
    assert!(nets.get(&String::from("eth0")).is_none());
    assert_eq!(nets.len(), 0);
    assert!(nets.iter().is_empty());
}

#[test]
fn refresh_in_place_never_removes() {
    let mut nets = Networks::new();
    nets.refresh(&snapshot_of(vec![(String::from("eth0"), sample(1000, 500, 7, 8, 0, 0))]));
    nets.refresh(&snapshot_of(vec![]));
    let d = nets.get(&String::from("eth0")).unwrap();
    assert_eq!(d.total_received(), 1000);
    assert_eq!(d.total_transmitted(), 500);
    assert_eq!(nets.len(), 1);
}

#[test]
fn reconcile_twice_with_identical_data_gives_zero_deltas() {
    let mut nets = Networks::new();
    let snap = || {
        snapshot_of(vec![
            (String::from("eth0"), sample(1000, 500, 10, 20, 1, 2)),
            (String::from("lo0"), sample(30, 30, 3, 3, 0, 0)),
        ])
    };
    nets.refresh_networks_list(&snap());
    nets.update(&String::from("eth0"), sample(1100, 550, 11, 21, 1, 2));
    nets.refresh_networks_list(&snap());
    nets.refresh_networks_list(&snap());
    for (name, d) in nets.iter() {
        assert!(name == "eth0" || name == "lo0");
        assert_eq!(d.received(), 0);
        assert_eq!(d.transmitted(), 0);
        assert_eq!(d.packets_received(), 0);
        assert_eq!(d.packets_transmitted(), 0);
        assert_eq!(d.errors_on_received(), 0);
        assert_eq!(d.errors_on_transmitted(), 0);
    }
    let d = nets.get(&String::from("eth0")).unwrap();
    assert_eq!(d.total_received(), 1000);
    assert_eq!(d.total_transmitted(), 500);
}

#[test]
fn failed_query_leaves_table_untouched() {
    let mut nets = Networks::new();
    nets.refresh(&snapshot_of(vec![(String::from("eth0"), sample(1000, 500, 0, 0, 0, 0))]));
    nets.refresh(&None);
    assert_eq!(nets.len(), 1);
    nets.refresh_networks_list(&None);
    assert_eq!(nets.len(), 1);
    let d = nets.get(&String::from("eth0")).unwrap();
    assert_eq!(d.total_received(), 1000);
}

#[test]
fn merge_address_stores_ipv4_for_tracked_interface() {
    let mut nets = Networks::new();
    nets.update(&String::from("eth0"), sample(1000, 500, 0, 0, 0, 0));
    let addr = IfAddress::Ipv4(Ipv4Address::new(10, 0, 0, 5), Ipv4Address::new(255, 255, 255, 0));
    nets.merge_address(&String::from("eth0"), addr);
    let d = nets.get(&String::from("eth0")).unwrap();
    assert_eq!(d.ipv4_address(), Ipv4Address::new(10, 0, 0, 5));
    assert_eq!(d.ipv4_netmask(), Ipv4Address::new(255, 255, 255, 0));
    assert_eq!(d.total_received(), 1000);
}

#[test]
fn merge_address_for_untracked_name_creates_no_entry() {
    let mut nets = Networks::new();
    nets.update(&String::from("eth0"), sample(1000, 500, 0, 0, 0, 0));
    let addr = IfAddress::Ipv4(Ipv4Address::new(10, 0, 0, 5), Ipv4Address::new(255, 255, 255, 0));
    nets.merge_address(&String::from("wlan9"), addr);
    assert_eq!(nets.len(), 1);
    assert!(nets.get(&String::from("wlan9")).is_none());
}

#[test]
fn merge_address_is_idempotent() {
    let mut nets = Networks::new();
    nets.update(&String::from("eth0"), sample(1, 2, 3, 4, 5, 6));
    let mac = IfAddress::Mac(MacAddress::new(0xaa, 0xbb, 0xcc, 0xdd, 0xee, 0xff));
    nets.merge_address(&String::from("eth0"), mac);
    let once = *nets.get(&String::from("eth0")).unwrap();
    nets.merge_address(&String::from("eth0"), mac);
    let twice = *nets.get(&String::from("eth0")).unwrap();
    assert!(once == twice);
    assert_eq!(twice.mac_address(), MacAddress::new(0xaa, 0xbb, 0xcc, 0xdd, 0xee, 0xff));
}

#[test]
fn addresses_default_to_unspecified() {
    let mut nets = Networks::new();
    nets.update(&String::from("eth0"), sample(0, 0, 0, 0, 0, 0));
    let d = nets.get(&String::from("eth0")).unwrap();
    assert_eq!(d.mac_address(), MacAddress::unspecified());
    assert_eq!(d.ipv4_address(), Ipv4Address::new(0, 0, 0, 0));
    assert_eq!(d.ipv4_netmask(), Ipv4Address::new(0, 0, 0, 0));
}

#[test]
fn snapshot_addresses_merge_during_refresh() {
    let mut nets = Networks::new();
    let snap = Snapshot {
        samples: vec![(String::from("en0"), sample(10, 20, 0, 0, 0, 0))],
        addresses: vec![
            (String::from("en0"), IfAddress::Mac(MacAddress::new(1, 2, 3, 4, 5, 6))),
            (
                String::from("en0"),
                IfAddress::Ipv4(Ipv4Address::new(192, 168, 1, 9), Ipv4Address::new(255, 255, 0, 0)),
            ),
            (String::from("ghost0"), IfAddress::Mac(MacAddress::new(9, 9, 9, 9, 9, 9))),
        ],
    };
    nets.refresh(&Some(snap));
    assert_eq!(nets.len(), 1);
    let d = nets.get(&String::from("en0")).unwrap();
    assert_eq!(d.mac_address(), MacAddress::new(1, 2, 3, 4, 5, 6));
    assert_eq!(d.ipv4_address(), Ipv4Address::new(192, 168, 1, 9));
    assert_eq!(d.ipv4_netmask(), Ipv4Address::new(255, 255, 0, 0));
}

#[test]
fn parse_empty_buffer_yields_nothing() {
    let buf: Vec<u8> = Vec::new();
    assert!(parse_interface_messages(&buf).is_empty());
}

#[test]
fn parse_single_interface_message() {
    let buf = ifinfo_message(7, 1000, 500, 10, 20, 1, 2);
    let msgs = parse_interface_messages(&buf);
    assert_eq!(msgs.len(), 1);
    assert_eq!(msgs[0].index, 7);
    assert_eq!(msgs[0].counters.in_bytes, 1000);
    assert_eq!(msgs[0].counters.out_bytes, 500);
    assert_eq!(msgs[0].counters.packets_in, 10);
    assert_eq!(msgs[0].counters.packets_out, 20);
    assert_eq!(msgs[0].counters.errors_in, 1);
    assert_eq!(msgs[0].counters.errors_out, 2);
}

#[test]
fn parse_reads_multibyte_counters_little_endian() {
    let buf = ifinfo_message(0x1234, 0x0102030405060708, 0, 0, 0, 0, 0);
    let msgs = parse_interface_messages(&buf);
    assert_eq!(msgs.len(), 1);
    assert_eq!(msgs[0].index, 0x1234);
    assert_eq!(msgs[0].counters.in_bytes, 0x0102030405060708);
    assert_eq!(buf[96], 0x08);
    assert_eq!(buf[103], 0x01);
}

#[test]
fn parse_skips_unknown_message_types() {
    let mut unknown = vec![0u8; 40];
    put_u16(&mut unknown, 0, 40);
    unknown[3] = 5;
    let mut buf = unknown;
    buf.extend(ifinfo_message(3, 77, 88, 0, 0, 0, 0));
    let msgs = parse_interface_messages(&buf);
    assert_eq!(msgs.len(), 1);
    assert_eq!(msgs[0].index, 3);
    assert_eq!(msgs[0].counters.in_bytes, 77);
}

#[test]
fn parse_skips_short_interface_message_by_its_length() {
    let mut short = vec![0u8; 16];
    put_u16(&mut short, 0, 16);
    short[3] = 18;
    let mut buf = short;
    buf.extend(ifinfo_message(9, 5, 6, 0, 0, 0, 0));
    let msgs = parse_interface_messages(&buf);
    assert_eq!(msgs.len(), 1);
    assert_eq!(msgs[0].index, 9);
}

#[test]
fn parse_stops_at_truncated_trailing_message() {
    let mut buf = ifinfo_message(1, 11, 22, 0, 0, 0, 0);
    let mut tail = vec![0u8; 8];
    put_u16(&mut tail, 0, 200);
    tail[3] = 18;
    buf.extend(tail);
    let msgs = parse_interface_messages(&buf);
    assert_eq!(msgs.len(), 1);
    assert_eq!(msgs[0].index, 1);
}

#[test]
fn parse_stops_at_undersized_declared_length() {
    let mut buf = ifinfo_message(1, 11, 22, 0, 0, 0, 0);
    let mut tail = vec![0u8; 20];
    put_u16(&mut tail, 0, 0);
    tail[3] = 18;
    buf.extend(tail);
    let msgs = parse_interface_messages(&buf);
    assert_eq!(msgs.len(), 1);
}

#[test]
fn parse_feeds_refresh_end_to_end() {
    let mut buf = ifinfo_message(1, 1000, 500, 10, 20, 1, 2);
    buf.extend(ifinfo_message(2, 7, 8, 9, 10, 11, 12));
    let msgs = parse_interface_messages(&buf);
    let mut samples: Vec<(String, CounterSample)> = Vec::new();
    for m in msgs.iter() {
        samples.push((format!("if{}", m.index), m.counters));
    }
    let mut nets = Networks::new();
    nets.refresh_networks_list(&snapshot_of(samples));
    assert_eq!(nets.len(), 2);
    assert_eq!(nets.get(&String::from("if1")).unwrap().total_received(), 1000);
    assert_eq!(nets.get(&String::from("if2")).unwrap().total_transmitted(), 8);
}

#[test]
fn new_table_is_empty() {
    let nets = Networks::new();
    assert_eq!(nets.len(), 0);
    assert!(nets.iter().is_empty());
    assert!(nets.get(&String::from("eth0")).is_none());
}

#[test]
fn iter_yields_every_tracked_interface_once() {
    let mut nets = Networks::new();
    nets.update(&String::from("a0"), sample(1, 0, 0, 0, 0, 0));
    nets.update(&String::from("b0"), sample(2, 0, 0, 0, 0, 0));
    nets.update(&String::from("a0"), sample(3, 0, 0, 0, 0, 0));
    let entries = nets.iter();
    assert_eq!(entries.len(), 2);
    let mut names: Vec<&str> = entries.iter().map(|p| p.0.as_str()).collect();
    names.sort();
    assert_eq!(names, vec!["a0", "b0"]);
}

#[test]
fn saturating_at_extreme_counter_values() {
    let mut nets = Networks::new();
    let name = String::from("big0");
    nets.update(&name, sample(u64::MAX, 0, 0, 0, 0, 0));
    nets.update(&name, sample(u64::MAX, u64::MAX, 0, 0, 0, 0));
    {
        let d = nets.get(&name).unwrap();
        assert_eq!(d.received(), 0);
        assert_eq!(d.transmitted(), u64::MAX);
    }
    nets.update(&name, sample(5, 1, 0, 0, 0, 0));
    let d = nets.get(&name).unwrap();
    assert_eq!(d.received(), 0);
    assert_eq!(d.total_received(), 5);
}

#[test]
fn parse_advances_by_declared_length_beyond_minimum() {
    let mut first = ifinfo_message(4, 1, 2, 0, 0, 0, 0);
    first.extend(vec![0u8; 8]);
    put_u16(&mut first, 0, 120);
    let mut buf = first;
    buf.extend(ifinfo_message(5, 3, 4, 0, 0, 0, 0));
    let msgs = parse_interface_messages(&buf);
    assert_eq!(msgs.len(), 2);
    assert_eq!(msgs[0].index, 4);
    assert_eq!(msgs[1].index, 5);
}
