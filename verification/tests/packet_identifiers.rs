use mqtt::client::PacketIdentifiers;
use mqtt::proto::PacketIdentifier;

#[test]
fn packet_identifiers() {
    if usize::BITS == 32 {
        assert_eq!(PacketIdentifiers::SIZE, 2048);
    } else {
        assert_eq!(PacketIdentifiers::SIZE, 1024);
    }

    let mut packet_identifiers: PacketIdentifiers = Default::default();
    assert_eq!(
        packet_identifiers.in_use()[..],
        Box::new([0; PacketIdentifiers::SIZE])[..]
    );

    assert_eq!(packet_identifiers.reserve().unwrap().get(), 1);
    let mut expected = Box::new([0; PacketIdentifiers::SIZE]);
    expected[0] = 1 << 1;
    assert_eq!(packet_identifiers.in_use()[..], expected[..]);

    assert_eq!(packet_identifiers.reserve().unwrap().get(), 2);
    let mut expected = Box::new([0; PacketIdentifiers::SIZE]);
    expected[0] = (1 << 1) | (1 << 2);
    assert_eq!(packet_identifiers.in_use()[..], expected[..]);

    assert_eq!(packet_identifiers.reserve().unwrap().get(), 3);
    let mut expected = Box::new([0; PacketIdentifiers::SIZE]);
    expected[0] = (1 << 1) | (1 << 2) | (1 << 3);
    assert_eq!(packet_identifiers.in_use()[..], expected[..]);

    packet_identifiers.discard(PacketIdentifier::new(2).unwrap());
    let mut expected = Box::new([0; PacketIdentifiers::SIZE]);
    expected[0] = (1 << 1) | (1 << 3);
    assert_eq!(packet_identifiers.in_use()[..], expected[..]);

    assert_eq!(packet_identifiers.reserve().unwrap().get(), 4);
    let mut expected = Box::new([0; PacketIdentifiers::SIZE]);
    expected[0] = (1 << 1) | (1 << 3) | (1 << 4);
    assert_eq!(packet_identifiers.in_use()[..], expected[..]);

    packet_identifiers.discard(PacketIdentifier::new(1).unwrap());
    let mut expected = Box::new([0; PacketIdentifiers::SIZE]);
    expected[0] = (1 << 3) | (1 << 4);
    assert_eq!(packet_identifiers.in_use()[..], expected[..]);

    packet_identifiers.discard(PacketIdentifier::new(3).unwrap());
    let mut expected = Box::new([0; PacketIdentifiers::SIZE]);
    expected[0] = 1 << 4;
    assert_eq!(packet_identifiers.in_use()[..], expected[..]);

    packet_identifiers.discard(PacketIdentifier::new(4).unwrap());
    assert_eq!(
        packet_identifiers.in_use()[..],
        Box::new([0; PacketIdentifiers::SIZE])[..]
    );

    assert_eq!(packet_identifiers.reserve().unwrap().get(), 5);
    let mut expected = Box::new([0; PacketIdentifiers::SIZE]);
    expected[0] = 1 << 5;
    assert_eq!(packet_identifiers.in_use()[..], expected[..]);

    let goes_in_next_block = std::mem::size_of::<usize>() * 8;
    for i in 6..=goes_in_next_block {
        assert_eq!(packet_identifiers.reserve().unwrap().get(), i as u16);
    }
    let mut expected = Box::new([0; PacketIdentifiers::SIZE]);
    {
        expected[0] = usize::max_value() - (1 << 0) - (1 << 1) - (1 << 2) - (1 << 3) - (1 << 4);
        expected[1] |= 1 << 0;
    }
    assert_eq!(packet_identifiers.in_use()[..], expected[..]);

    for i in 5..=(goes_in_next_block - 1) {
        packet_identifiers.discard(PacketIdentifier::new(i as u16).unwrap());
    }
    let mut expected = Box::new([0; PacketIdentifiers::SIZE]);
    {
        expected[1] |= 1 << 0;
    }
    assert_eq!(packet_identifiers.in_use()[..], expected[..]);
}
