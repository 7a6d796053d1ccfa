use rblock::qcow2::Qcow2;
use rblock::lookup::LookupError;
use rblock::rpc::{
    answer, backing_file_value, cluster_value, discover, init_once, request_text, RpcAnswer,
    RpcError, RpcMethod, RpcValue,
};

fn image() -> Qcow2 {
    let mut b = vec![0u8; 72];
    b[..4].copy_from_slice(&[0x51, 0x46, 0x49, 0xfb]);
    b[7] = 2;
    b[23] = 12;
    b[39] = 5;
    b[45] = 3;
    Qcow2::new(&b).ok().unwrap()
}

fn int_of(a: RpcAnswer) -> u64 {
    match a {
        RpcAnswer::Value(RpcValue::Int(v)) => v,
        _ => panic!("expected an integer"),
    }
}

fn text(v: RpcValue) -> String {
    match v {
        RpcValue::Text(s) => s,
        _ => panic!("expected a string"),
    }
}

#[test]
fn method_table() {
    let m = init_once();
    assert_eq!(m.len(), 8);
    assert_eq!(RpcMethod::from_name("ping"), Some(RpcMethod::Ping));
    assert_eq!(RpcMethod::from_name("read_guest_cluster"), Some(RpcMethod::ReadGuestCluster));
    assert_eq!(RpcMethod::from_name("version"), Some(RpcMethod::Version));
    assert_eq!(RpcMethod::from_name("pong"), None);
    assert_eq!(RpcMethod::from_name(""), None);
    for x in m {
        assert_eq!(RpcMethod::from_name(x.name()), Some(x));
    }
}

#[test]
fn discover_lists_methods() {
    let d = discover();
    assert_eq!(d.len(), 8);
    let r = d.iter().find(|i| i.name == "read_guest_cluster").unwrap();
    assert_eq!(r.params, vec![("cluster", "integer")]);
    assert_eq!(r.return_type, "Base64 encoded string");
    let p = d.iter().find(|i| i.name == "ping").unwrap();
    assert_eq!(p.description, "Ping, check if server is running");
    assert!(p.params.is_empty());
}

#[test]
fn errors() {
    assert_eq!(request_text(Vec::new()), Err(RpcError::ParseError));
    assert_eq!(request_text(vec![0xff, 0xfe]), Err(RpcError::InvalidRequest));
    assert_eq!(request_text(b"{}".to_vec()), Ok("{}".to_string()));
    assert_eq!(RpcError::ParseError.code(), -32700);
    assert_eq!(RpcError::InvalidRequest.code(), -32600);
    assert_eq!(RpcError::MethodNotFound.code(), -32601);
    assert_eq!(RpcError::MethodNotFound.message(), "Method not found");
}

#[test]
fn answers() {
    let q = image();
    assert_eq!(int_of(answer(&q, RpcMethod::ClusterSize, None)), 4096);
    assert_eq!(int_of(answer(&q, RpcMethod::Version, None)), 2);
    assert_eq!(int_of(answer(&q, RpcMethod::L1Size, None)), 5);
    assert_eq!(int_of(answer(&q, RpcMethod::L1TableOffset, None)), 0x30000);
    match answer(&q, RpcMethod::Ping, None) {
        RpcAnswer::Value(v) => assert_eq!(text(v), "pong"),
        _ => panic!("expected pong"),
    }
    assert!(matches!(answer(&q, RpcMethod::ReadGuestCluster, Some(7)), RpcAnswer::ReadCluster(7)));
    assert!(matches!(answer(&q, RpcMethod::ReadGuestCluster, None), RpcAnswer::ReadCluster(0)));
    assert!(matches!(answer(&q, RpcMethod::GetBackingFile, None), RpcAnswer::ReadBackingFile));
    match answer(&q, RpcMethod::Discover, None) {
        RpcAnswer::Value(RpcValue::Methods(l)) => assert_eq!(l.len(), 8),
        _ => panic!("expected the methods"),
    }
}

#[test]
fn encoded_values() {
    assert_eq!(text(cluster_value(&[0xAB, 0xAB, 0xAB])), "q6ur");
    assert_eq!(text(cluster_value(&[0, 0, 0, 0])), "AAAAAA==");
    assert_eq!(text(cluster_value(&[])), "");
    assert_eq!(text(cluster_value(b"Man")), "TWFu");
    assert_eq!(text(backing_file_value(Some("base.qcow2".to_string()))), "base.qcow2");
    assert_eq!(text(backing_file_value(None)), "");
}

#[test]
fn lookup_errors_map_to_rpc_errors() {
    assert_eq!(RpcError::from_lookup(LookupError::ClusterOutOfRange), RpcError::InvalidParams);
    assert_eq!(RpcError::from_lookup(LookupError::Truncated), RpcError::InternalError);
    assert_eq!(RpcError::InvalidParams.code(), -32602);
    assert_eq!(RpcError::InternalError.message(), "Internal error");
}
