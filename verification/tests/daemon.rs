use inm::incus::{
    about_instance, action_body, complaint, console_body, console_operation, encode, events_url,
    instance_address, instance_path,
    list_path, list_vms, member_path, named_operation, open_console, operation_id, operation_outcome,
    read_reply, rename_body, request_body, wait_operation, wait_path, websocket_url, InstanceRaw, VmId,
};

fn id(project: &str, name: &str) -> VmId {
    VmId { project: project.to_string(), name: name.to_string() }
}

fn raw(project: &str, name: &str, kind: &str) -> InstanceRaw {
    InstanceRaw {
        name: name.to_string(),
        status: "Running".to_string(),
        project: project.to_string(),
        kind: kind.to_string(),
        location: String::new(),
    }
}

#[test]
fn machines_are_sorted_and_containers_left_out() {
    let vms = list_vms(vec![
        raw("web", "b", "virtual-machine"),
        raw("db", "z", "virtual-machine"),
        raw("db", "c", "container"),
        raw("web", "a", "virtual-machine"),
        raw("db", "a", "virtual-machine"),
    ]);
    let ids: Vec<VmId> = vms.iter().map(|vm| vm.id.clone()).collect();
    assert_eq!(ids, vec![id("db", "a"), id("db", "z"), id("web", "a"), id("web", "b")]);
    assert!(list_vms(Vec::new()).is_empty());
}

#[test]
fn only_the_status_running_counts_as_running() {
    let mut vms = list_vms(vec![raw("p", "a", "virtual-machine")]);
    assert!(vms[0].running());
    vms[0].status = "Stopped".to_string();
    assert!(!vms[0].running());
    vms[0].status = "running".to_string();
    assert!(!vms[0].running());
}

#[test]
fn names_are_encoded_in_paths() {
    assert_eq!(
        instance_path(&id("default", "vm1"), "state"),
        "/1.0/instances/vm1/state?project=default"
    );
    assert_eq!(
        instance_path(&id("a&b", "x/y #1"), "console"),
        "/1.0/instances/x%2Fy%20%231/console?project=a%26b"
    );
    assert_eq!(instance_address(&id("a b", "x?")), "/1.0/instances/x%3F?project=a%20b");
    assert_eq!(
        instance_path(&id("p", "虚"), "state"),
        "/1.0/instances/%E8%99%9A/state?project=p"
    );
}

#[test]
fn encoded_names_decode_and_plain_ones_stay() {
    assert_eq!(encode("Node42"), "Node42");
    for name in ["", "a b", "100%", "a/b?c#d&e", "虚拟机", "-_.~"] {
        let encoded = encode(name);
        assert_eq!(member_path(name), format!("/1.0/cluster/members/{encoded}"));
        assert!(encoded.chars().all(|c| c.is_ascii_alphanumeric() || c == '%'));
        let mut bytes: Vec<u8> = Vec::new();
        let mut rest = encoded.as_str();
        while let Some(c) = rest.chars().next() {
            if c == '%' {
                bytes.push(u8::from_str_radix(&rest[1..3], 16).unwrap());
                rest = &rest[3..];
            } else {
                bytes.push(c as u8);
                rest = &rest[1..];
            }
        }
        assert_eq!(String::from_utf8(bytes).unwrap(), name);
    }
}

#[test]
fn different_machines_have_different_paths() {
    assert_ne!(
        instance_path(&id("p", "a/b"), "state"),
        instance_path(&id("p", "a%2Fb"), "state")
    );
    assert_ne!(
        instance_path(&id("q", "a"), "state"),
        instance_path(&id("p", "a"), "state")
    );
}

#[test]
fn paths_and_addresses() {
    assert_eq!(wait_path("op-1"), "/1.0/operations/op-1/wait?timeout=30");
    assert_eq!(list_path(), "/1.0/instances?recursion=1&all-projects=true");
    assert_eq!(
        websocket_url(false, "unix", "abc", "s=1"),
        "ws://unix/1.0/operations/abc/websocket?secret=s%3D1"
    );
    assert_eq!(
        websocket_url(true, "host:8443", "a-b", "xyz"),
        "wss://host:8443/1.0/operations/a%2Db/websocket?secret=xyz"
    );
}

#[test]
fn events_and_members() {
    assert_eq!(
        events_url(false, "unix"),
        "ws://unix/1.0/events?type=lifecycle&all-projects=true"
    );
    assert_eq!(
        events_url(true, "h:1"),
        "wss://h:1/1.0/events?type=lifecycle&all-projects=true"
    );
    assert!(about_instance("instance-created"));
    assert!(!about_instance("image-created"));
    assert_eq!(member_path("node 1"), "/1.0/cluster/members/node%201");
}

#[test]
fn request_bodies_are_json() {
    let start = request_body(Some(action_body("start"))).unwrap().unwrap();
    assert_eq!(start, b"{\"action\":\"start\"}".to_vec());
    let rename = request_body(Some(rename_body("a \"b\""))).unwrap().unwrap();
    assert_eq!(rename, b"{\"name\":\"a \\\"b\\\"\"}".to_vec());
    let console = request_body(Some(console_body(true))).unwrap().unwrap();
    let value: serde_json::Value = serde_json::from_slice(&console).unwrap();
    assert_eq!(value["type"].as_str(), Some("vga"));
    assert_eq!(value["force"].as_bool(), Some(true));
    let console = console_body(false);
    assert_eq!(console["force"].as_bool(), Some(false));
    assert_eq!(request_body(None), Ok(None));
}

#[test]
fn a_reply_may_be_a_complaint() {
    let fine = read_reply(b"{\"error\":\"\",\"metadata\":{\"id\":\"op\"}}").unwrap();
    assert_eq!(operation_id(&fine), Ok("op".to_string()));
    assert!(read_reply(b"{\"metadata\":null}").is_ok());
    assert!(read_reply(b"{\"error\":7}").is_ok());
    assert_eq!(
        read_reply(b"{\"error\":\"not found\"}"),
        Err("not found".to_string())
    );
    assert!(read_reply(b"no json").is_err());
    assert_eq!(complaint(None), None);
    assert_eq!(complaint(Some("")), None);
    assert_eq!(complaint(Some("no")), Some("no".to_string()));
}

#[test]
fn a_reply_without_an_operation_is_an_error() {
    let reply = read_reply(b"{\"metadata\":{}}").unwrap();
    assert_eq!(operation_id(&reply), Err("响应中缺少 operation id".to_string()));
    assert_eq!(named_operation(None), Err("响应中缺少 operation id".to_string()));
    assert_eq!(named_operation(Some("x")), Ok("x".to_string()));
}

#[test]
fn an_operation_succeeds_or_says_why_not() {
    let done = read_reply(b"{\"metadata\":{\"status\":\"Success\",\"err\":\"\"}}").unwrap();
    assert_eq!(wait_operation(&done), Ok(()));
    let failed = read_reply(b"{\"metadata\":{\"status\":\"Failure\",\"err\":\"boom\"}}").unwrap();
    assert_eq!(wait_operation(&failed), Err("boom".to_string()));
    let silent = read_reply(b"{\"metadata\":{\"status\":\"Running\"}}").unwrap();
    assert_eq!(wait_operation(&silent), Err("操作失败".to_string()));
    assert_eq!(operation_outcome(None, None), Err("操作失败".to_string()));
    assert_eq!(operation_outcome(Some("Success"), Some("x")), Ok(()));
}

#[test]
fn a_console_needs_its_operation_and_both_channels() {
    let reply = read_reply(
        b"{\"metadata\":{\"id\":\"op\",\"metadata\":{\"fds\":{\"0\":\"d\",\"control\":\"c\"}}}}",
    )
    .unwrap();
    let op = open_console(&reply).unwrap();
    assert_eq!((op.id.as_str(), op.data_secret.as_str(), op.control_secret.as_str()), ("op", "d", "c"));
    assert_eq!(
        console_operation(None, Some("d"), Some("c")).unwrap_err(),
        "响应中缺少 operation id"
    );
    assert_eq!(
        console_operation(Some("i"), None, None).unwrap_err(),
        "响应中缺少 SPICE 数据通道"
    );
    assert_eq!(
        console_operation(Some("i"), Some("d"), None).unwrap_err(),
        "响应中缺少控制通道"
    );
}
