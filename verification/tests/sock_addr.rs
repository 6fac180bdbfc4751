use trale::sock_addr::{csock_from, csock_to_addr, CSockAddrBytes, SockAddrValue};

#[test]
fn ipv4_address_is_encoded_in_network_order() {
    let c = csock_from(SockAddrValue::V4 {
        ip: 0x7f00_0001,
        port: 8080,
    });
    let mut addr = [0u8; 16];
    addr[..4].copy_from_slice(&[127, 0, 0, 1]);
    assert_eq!(
        c,
        CSockAddrBytes {
            family: 2,
            port: [0x1f, 0x90],
            addr,
            flowinfo: 0,
            scope_id: 0,
            len: 16,
        }
    );
}

#[test]
fn ipv6_address_is_encoded_with_zero_flow_and_scope() {
    let ip: [u8; 16] = [0x20, 0x01, 0x0d, 0xb8, 0, 0, 0, 0, 0, 0, 0, 0, 0, 0, 0, 1];
    let c = csock_from(SockAddrValue::V6 {
        ip,
        port: 443,
        flowinfo: 7,
        scope_id: 3,
    });
    assert_eq!(
        c,
        CSockAddrBytes {
            family: 10,
            port: [0x01, 0xbb],
            addr: ip,
            flowinfo: 0,
            scope_id: 0,
            len: 28,
        }
    );
}

#[test]
fn sockaddr_roundtrip() {
    let v4 = SockAddrValue::V4 {
        ip: 0xc0a8_0102,
        port: 53,
    };
    assert_eq!(csock_to_addr(&csock_from(v4)), Some(v4));
    let v6 = SockAddrValue::V6 {
        ip: [0xfe, 0x80, 0, 0, 0, 0, 0, 0, 1, 2, 3, 4, 5, 6, 7, 8],
        port: 65535,
        flowinfo: 0,
        scope_id: 0,
    };
    assert_eq!(csock_to_addr(&csock_from(v6)), Some(v6));
}

#[test]
fn ipv6_flow_information_is_not_carried() {
    let v6 = SockAddrValue::V6 {
        ip: [0; 16],
        port: 1,
        flowinfo: 1,
        scope_id: 0,
    };
    assert_eq!(
        csock_to_addr(&csock_from(v6)),
        Some(SockAddrValue::V6 {
            ip: [0; 16],
            port: 1,
            flowinfo: 0,
            scope_id: 0,
        })
    );
}

#[test]
fn kernel_filled_ipv6_keeps_flow_and_scope() {
    let c = CSockAddrBytes {
        family: 10,
        port: [0x12, 0x34],
        addr: [9; 16],
        flowinfo: 5,
        scope_id: 2,
        len: 28,
    };
    assert_eq!(
        csock_to_addr(&c),
        Some(SockAddrValue::V6 {
            ip: [9; 16],
            port: 0x1234,
            flowinfo: 5,
            scope_id: 2,
        })
    );
}

#[test]
fn unknown_length_decodes_to_nothing() {
    let c = CSockAddrBytes {
        family: 2,
        port: [0, 80],
        addr: [0; 16],
        flowinfo: 0,
        scope_id: 0,
        len: 110,
    };
    assert_eq!(csock_to_addr(&c), None);
    let c = CSockAddrBytes { len: 0, ..c };
    assert_eq!(csock_to_addr(&c), None);
}
