use api_server::ip_allocator::{format_ipv4, parse_ipv4, ClusterIPAllocator};

#[test]
fn test_allocate_and_release() {
    let mut allocator = ClusterIPAllocator::new();

    let ip1 = allocator.allocate().unwrap();
    assert_eq!(ip1, "10.96.0.1");

    let ip2 = allocator.allocate().unwrap();
    assert_eq!(ip2, "10.96.0.2");

    allocator.release(&ip1);

    let ip3 = allocator.allocate().unwrap();
    assert_eq!(ip3, "10.96.0.1");
}

#[test]
fn test_allocate_specific() {
    let mut allocator = ClusterIPAllocator::new();

    assert!(allocator.allocate_specific("10.96.1.100".to_string()));
    assert!(!allocator.allocate_specific("10.96.1.100".to_string()));
    assert!(!allocator.allocate_specific("10.0.0.1".to_string()));
}

#[test]
fn test_is_in_range() {
    let allocator = ClusterIPAllocator::new();

    assert!(allocator.is_in_range("10.96.0.0"));
    assert!(allocator.is_in_range("10.96.0.1"));
    assert!(allocator.is_in_range("10.100.0.0"));
    assert!(allocator.is_in_range("10.111.255.255"));

    assert!(!allocator.is_in_range("10.95.255.255"));
    assert!(!allocator.is_in_range("10.112.0.0"));
    assert!(!allocator.is_in_range("192.168.1.1"));
}

#[test]
fn test_custom_cidr() {
    let mut allocator = ClusterIPAllocator::with_cidr("192.168.0.0".to_string(), 24);

    let ip1 = allocator.allocate().unwrap();
    assert_eq!(ip1, "192.168.0.1");

    let ip2 = allocator.allocate().unwrap();
    assert_eq!(ip2, "192.168.0.2");

    assert!(allocator.is_in_range("192.168.0.255"));
    assert!(!allocator.is_in_range("192.168.1.0"));
}

#[test]
fn test_stats() {
    let mut allocator = ClusterIPAllocator::new();

    let (used, total) = allocator.stats();
    assert_eq!(used, 0);
    assert_eq!(total, 1048576);

    allocator.allocate();
    allocator.allocate();

    let (used, total) = allocator.stats();
    assert_eq!(used, 2);
    assert_eq!(total, 1048576);
}

#[test]
fn small_range_runs_out_and_recovers() {
    let mut allocator = ClusterIPAllocator::with_cidr("10.0.0.0".to_string(), 30);
    let mut given: Vec<String> = Vec::new();
    while let Some(ip) = allocator.allocate() {
        assert!(!given.contains(&ip), "no address is given twice: {}", ip);
        assert!(given.len() < 5);
        given.push(ip);
    }
    assert!(!given.is_empty());
    allocator.release(&given[0]);
    assert_eq!(allocator.allocate(), Some(given[0].clone()));
    assert_eq!(allocator.allocate(), None);
}

#[test]
fn marked_addresses_are_not_given() {
    let mut allocator = ClusterIPAllocator::new();
    allocator.mark_allocated("10.96.0.1".to_string());
    assert_eq!(allocator.allocate(), Some("10.96.0.2".to_string()));
    assert!(!allocator.allocate_specific("10.96.0.1".to_string()));
}

#[test]
fn address_text_is_read_back() {
    assert_eq!(parse_ipv4("10.96.0.1"), Some(0x0a60_0001));
    assert_eq!(format_ipv4(0x0a60_0001), "10.96.0.1");
    for n in [0u32, 1, 255, 256, 0x0a60_0001, 0xffff_ffff] {
        assert_eq!(parse_ipv4(&format_ipv4(n)), Some(n));
    }
    for bad in ["", "10.96.0", "10.96.0.256", "10.96.0.01", "10.96.0.1 ", "a.b.c.d", "1.2.3.4.5"] {
        assert_eq!(parse_ipv4(bad), None, "{:?}", bad);
    }
}

#[test]
fn range_that_runs_past_the_last_address_is_used_to_its_end() {
    let mut allocator = ClusterIPAllocator::with_cidr("255.255.255.253".to_string(), 24);
    assert_eq!(allocator.allocate().as_deref(), Some("255.255.255.254"));
    assert_eq!(allocator.allocate().as_deref(), Some("255.255.255.255"));
}
