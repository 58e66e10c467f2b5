use orchestrator::ports::{PortScan, ScanStep, MAX_PORT, MIN_PORT};

#[test]
fn default_range_bounds() {
    assert_eq!(MIN_PORT, 3000);
    assert_eq!(MAX_PORT, 65535);
    let scan = PortScan::new(MIN_PORT, MAX_PORT);
    assert_eq!(scan.candidate(), Some(3000));
}

#[test]
fn scan_allocates_first_free_candidate() {
    let mut scan = PortScan::new(3000, 3010);
    assert_eq!(scan.candidate(), Some(3000));
    assert_eq!(scan.step(true), ScanStep::Retry);
    assert_eq!(scan.candidate(), Some(3001));
    assert_eq!(scan.step(false), ScanStep::Allocated(3001));
}

#[test]
fn scan_stays_inside_configured_range() {
    let mut scan = PortScan::new(3000, 3003);
    let mut offered = Vec::new();
    loop {
        match scan.candidate() {
            None => break,
            Some(p) => {
                assert!((3000..3003).contains(&p));
                offered.push(p);
                scan.step(true);
            }
        }
    }
    assert_eq!(offered, vec![3000, 3001, 3002]);
    assert_eq!(scan.step(true), ScanStep::Exhausted);
    assert_eq!(scan.step(false), ScanStep::Exhausted);
}

#[test]
fn busy_candidate_is_never_allocated() {
    let mut scan = PortScan::new(3000, 3002);
    assert!(!matches!(scan.step(true), ScanStep::Allocated(_)));
    assert!(!matches!(scan.step(true), ScanStep::Allocated(_)));
    assert!(!matches!(scan.step(true), ScanStep::Allocated(_)));
}

#[test]
fn held_port_not_returned_twice() {
    // First call: the bottom of the range is free and gets allocated.
    let mut first = PortScan::new(3000, 3010);
    let p1 = match first.step(false) {
        ScanStep::Allocated(p) => p,
        other => panic!("expected an allocation, got {:?}", other),
    };
    // Second call while the first allocation is held open: its probe
    // reports the port busy, so the scan moves past it.
    let mut second = PortScan::new(3000, 3010);
    let held = |p: u16| p == p1;
    let p2 = loop {
        match second.candidate() {
            None => panic!("range exhausted"),
            Some(p) => match second.step(held(p)) {
                ScanStep::Allocated(q) => break q,
                ScanStep::Retry => continue,
                ScanStep::Exhausted => panic!("range exhausted"),
            },
        }
    };
    assert_ne!(p1, p2);
    assert_eq!(p1, 3000);
    assert_eq!(p2, 3001);
}
