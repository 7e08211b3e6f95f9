use nic_dataplane::filter::{
    check_and_add_filter, FilterError, FilterParameters, FilterProtocol, L5FilterPriority, QueueID,
};

fn filter(source_port: u16, qid: QueueID) -> FilterParameters {
    FilterParameters {
        source_ip: [10, 0, 0, 1],
        dest_ip: [10, 0, 0, 2],
        source_port,
        dest_port: 443,
        protocol: FilterProtocol::Tcp,
        priority: L5FilterPriority::P2,
        qid,
    }
}

#[test]
fn add_filter_to_empty_table_takes_slot_zero() {
    let mut table: [Option<FilterParameters>; 128] = [None; 128];
    let handle = check_and_add_filter(&mut table, filter(1000, QueueID::Q1)).unwrap();
    assert_eq!(handle.value(), 0);
    assert_eq!(table[0], Some(filter(1000, QueueID::Q1)));
    for slot in table.iter().skip(1) {
        assert!(slot.is_none());
    }
}

#[test]
fn duplicate_identity_rejected_with_original_index() {
    let mut table: [Option<FilterParameters>; 128] = [None; 128];
    let handle = check_and_add_filter(&mut table, filter(1000, QueueID::Q1)).unwrap();
    assert_eq!(handle.value(), 0);

    // the queue id is not part of the identity: still a duplicate
    let before = table;
    let result = check_and_add_filter(&mut table, filter(1000, QueueID::Q7));
    assert_eq!(result.unwrap_err(), FilterError::IdenticalFilter(0));
    assert!(table == before);
}

#[test]
fn duplicate_found_even_after_earlier_free_slot() {
    let mut table: [Option<FilterParameters>; 128] = [None; 128];
    // slot 0 stays free; the duplicate sits at slot 5
    table[5] = Some(filter(1000, QueueID::Q1));
    let before = table;
    let result = check_and_add_filter(&mut table, filter(1000, QueueID::Q2));
    assert_eq!(result.unwrap_err(), FilterError::IdenticalFilter(5));
    assert!(table == before);
}

#[test]
fn distinct_identity_installs_in_first_free_slot() {
    let mut table: [Option<FilterParameters>; 128] = [None; 128];
    table[0] = Some(filter(1000, QueueID::Q1));
    table[2] = Some(filter(1001, QueueID::Q1));
    let handle = check_and_add_filter(&mut table, filter(1002, QueueID::Q3)).unwrap();
    assert_eq!(handle.value(), 1);
    assert_eq!(table[1], Some(filter(1002, QueueID::Q3)));
}

#[test]
fn each_identity_field_distinguishes() {
    let base = filter(1000, QueueID::Q0);
    let mut others = vec![base; 6];
    others[0].source_ip = [10, 0, 0, 9];
    others[1].dest_ip = [10, 9, 0, 2];
    others[2].source_port = 1001;
    others[3].dest_port = 8443;
    others[4].protocol = FilterProtocol::Udp;
    others[5].priority = L5FilterPriority::P5;
    for other in others {
        let mut table: [Option<FilterParameters>; 128] = [None; 128];
        table[0] = Some(base);
        let handle = check_and_add_filter(&mut table, other).unwrap();
        assert_eq!(handle.value(), 1);
    }
}

#[test]
fn filling_all_slots_gives_distinct_indices_then_table_full() {
    let mut table: [Option<FilterParameters>; 128] = [None; 128];
    let mut seen = [false; 128];
    for i in 0..128u16 {
        let handle = check_and_add_filter(&mut table, filter(i, QueueID::Q1)).unwrap();
        assert!(!seen[handle.value()]);
        seen[handle.value()] = true;
    }
    assert!(seen.iter().all(|taken| *taken));

    let before = table;
    let result = check_and_add_filter(&mut table, filter(9999, QueueID::Q1));
    assert_eq!(result.unwrap_err(), FilterError::NoneAvailable);
    assert!(table == before);
}
