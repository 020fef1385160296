use omicron::internal_dns::{
    DnsSubnet, InternalDnsSubnetAllocator, NoAvailableDnsSubnets, ReservedRackSubnet,
    INTERNAL_DNS_REDUNDANCY,
};

/// The first address of a DNS server's subnet in rack `fd00:1122:3344::/48`.
fn dns_address(index: u128) -> u128 {
    0xfd00_1122_3344_0000_0000_0000_0000_0001 + (index << 64)
}

#[test]
fn test_dns_subnet_allocator() {
    // Our test below assumes `INTERNAL_DNS_REDUNDANCY` is greater than 1
    // (so we can test adding more); fail fast if that changes.
    assert!(INTERNAL_DNS_REDUNDANCY > 1);

    // A system with a server on every sled, of which all but the first are
    // pruned to give us space to add more.
    let mut servers: Vec<u128> = (1..=INTERNAL_DNS_REDUNDANCY as u128).map(dns_address).collect();
    let npruned = servers.len() - 1;
    assert!(npruned > 0);
    servers.truncate(1);

    // Create an allocator.
    let mut allocator = InternalDnsSubnetAllocator::new(
        servers.iter().map(|addr| DnsSubnet::from_addr(*addr)).collect(),
    );

    // There should be exactly one subnet allocated.
    assert_eq!(allocator.len(), 1, "should be 1 subnets allocated");
    let first = allocator.first().expect("should be a first subnet");
    let mut last = allocator.last().expect("should be a last subnet");
    assert_eq!(first, last);
    let rack_subnet = first.rack_subnet();

    // Allocate `npruned` new subnets.
    for _ in 0..npruned {
        let new = allocator.allocate(rack_subnet).expect("allocated a subnet");
        assert!(new > last, "newly allocated subnets should be after prior ones");
        assert_eq!(
            new.rack_subnet(),
            last.rack_subnet(),
            "newly allocated subnets should be in the same rack subnet"
        );
        last = new;
    }
    assert_eq!(
        allocator.len(),
        INTERNAL_DNS_REDUNDANCY,
        "should be {INTERNAL_DNS_REDUNDANCY} subnets allocated"
    );
    allocator.allocate(rack_subnet).expect_err("no subnets available");

    // Test packing.
    let first = allocator.pop_first().expect("should be a first subnet");
    let second = allocator.pop_first().expect("should be a second subnet");
    assert!(first < second, "first should be before second");
    assert_eq!(
        allocator.allocate(rack_subnet).expect("allocation failed"),
        first,
        "should get first subnet"
    );
    assert_eq!(
        allocator.allocate(rack_subnet).expect("allocation failed"),
        second,
        "should get second subnet"
    );
    allocator.allocate(rack_subnet).expect_err("no subnets available");
}

#[test]
fn an_empty_allocator_starts_with_the_given_rack() {
    let rack = ReservedRackSubnet::from_subnet(0xfd00_1122_3344_0101_0000_0000_0000_0001);
    assert_eq!(rack.net, 0xfd00_1122_3344_0000_0000_0000_0000_0000);
    let mut allocator = InternalDnsSubnetAllocator::new(Vec::new());
    assert_eq!(allocator.first(), None);
    assert_eq!(allocator.last(), None);
    assert_eq!(allocator.pop_first(), None);
    let subnet = allocator.allocate(rack).unwrap();
    assert_eq!(subnet.subnet(), 0xfd00_1122_3344_0001_0000_0000_0000_0000);
    assert_eq!(allocator.len(), 1);
}

#[test]
fn the_rack_in_use_counts_and_not_the_given_one() {
    let mut allocator = InternalDnsSubnetAllocator::new(vec![DnsSubnet::from_addr(dns_address(2))]);
    let other = ReservedRackSubnet::from_subnet(0xfd00_9999_9999_0000_0000_0000_0000_0000);
    assert_eq!(allocator.allocate(other), Ok(DnsSubnet::from_addr(dns_address(1))));
    assert_eq!(allocator.allocate(other), Ok(DnsSubnet::from_addr(dns_address(3))));
    assert_eq!(allocator.allocate(other), Err(NoAvailableDnsSubnets));
}

#[test]
fn subnets_in_use_are_ordered_and_distinct() {
    let subnet = |i| DnsSubnet::from_addr(dns_address(i));
    let mut allocator = InternalDnsSubnetAllocator::new(vec![
        subnet(3),
        subnet(1),
        subnet(3),
        subnet(2),
        subnet(1),
    ]);
    assert_eq!(allocator.len(), 3);
    assert_eq!(allocator.pop_first(), Some(subnet(1)));
    assert_eq!(allocator.pop_first(), Some(subnet(2)));
    assert_eq!(allocator.pop_first(), Some(subnet(3)));
    assert_eq!(allocator.pop_first(), None);
}

#[test]
fn dns_subnets_of_a_rack() {
    let rack = ReservedRackSubnet::from_subnet(dns_address(0));
    let nets: Vec<u128> = rack.get_dns_subnets().iter().map(|s| s.net).collect();
    assert_eq!(
        nets,
        vec![
            0xfd00_1122_3344_0001_0000_0000_0000_0000,
            0xfd00_1122_3344_0002_0000_0000_0000_0000,
            0xfd00_1122_3344_0003_0000_0000_0000_0000,
        ]
    );
    assert_eq!(rack.get_dns_subnet(255).net, 0xfd00_1122_3344_00ff_0000_0000_0000_0000);
    for subnet in rack.get_dns_subnets() {
        assert_eq!(subnet.rack_subnet(), rack);
    }
}

#[test]
fn no_available_dns_subnets_text() {
    assert_eq!(NoAvailableDnsSubnets.to_text(), "no reserved subnets available for internal DNS");
}
