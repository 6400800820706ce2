use marv::ports::{find_available_port, is_in_port_range, PortScan, PORT_MAX, PORT_MIN};

fn scan(outcomes: &[bool]) -> PortScan {
    let mut state = PortScan::begin();
    for bound in outcomes {
        state = find_available_port(state, *bound);
    }
    state
}

#[test]
fn range_is_4000_to_4999() {
    assert_eq!(PORT_MIN, 4000);
    assert_eq!(PORT_MAX, 4999);
    assert!(is_in_port_range(4000));
    assert!(is_in_port_range(4999));
    assert!(!is_in_port_range(3999));
    assert!(!is_in_port_range(5000));
}

#[test]
fn scan_begins_at_the_lowest_port() {
    assert_eq!(PortScan::begin(), PortScan::Probe(4000));
}

#[test]
fn first_free_port_wins() {
    assert_eq!(scan(&[true]), PortScan::Found(4000));
    assert_eq!(scan(&[false, false, true]), PortScan::Found(4002));
    assert_eq!(scan(&[false, false, true, false, true]), PortScan::Found(4002));
}

#[test]
fn scan_is_ascending() {
    let mut state = PortScan::begin();
    for expected in 4000..=4999u16 {
        assert_eq!(state, PortScan::Probe(expected));
        state = find_available_port(state, false);
    }
    assert_eq!(state, PortScan::Exhausted);
}

#[test]
fn last_port_can_still_be_found() {
    let mut outcomes = vec![false; 999];
    outcomes.push(true);
    assert_eq!(scan(&outcomes), PortScan::Found(4999));
}

#[test]
fn range_can_be_exhausted() {
    let outcomes = vec![false; 1000];
    assert_eq!(scan(&outcomes), PortScan::Exhausted);
    let mut more = vec![false; 1000];
    more.push(true);
    assert_eq!(scan(&more), PortScan::Exhausted);
}

#[test]
fn finished_scan_stays() {
    assert_eq!(find_available_port(PortScan::Found(4010), false), PortScan::Found(4010));
    assert_eq!(find_available_port(PortScan::Found(4010), true), PortScan::Found(4010));
    assert_eq!(find_available_port(PortScan::Exhausted, true), PortScan::Exhausted);
}
