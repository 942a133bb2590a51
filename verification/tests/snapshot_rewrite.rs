use serde_json::{Map as JsonMap, Number, Value};

use vm_snapshot::ch::json::{
    from_serde, into_serde, parse, parse_text, print, print_bytes, set_at, value_at, JsonValue,
};
use vm_snapshot::ch::snapshot_rewrite::{
    deactivate, find_subslice, fs_state, net_ids, put_fs_state, read_snapshot_net_ids,
    replace_bytes, rewrite_snapshot_config_for_new_sandbox, rewrite_snapshot_state_for_new_sandbox,
    RewriteError, SnapshotNetId,
};

fn object(members: Vec<(&str, Value)>) -> Value {
    let mut map = JsonMap::new();
    for (key, value) in members {
        map.insert(key.to_string(), value);
    }
    Value::Object(map)
}

fn state_with(inner: Value) -> Vec<u8> {
    let data = object(vec![("state", inner)]);
    state_with_data(data)
}

fn state_with_data(data: Value) -> Vec<u8> {
    let fs = object(vec![("snapshot_data", data)]);
    let devices = object(vec![("_virtio-pci-_fs2", fs)]);
    let manager = object(vec![("snapshots", devices)]);
    let top = object(vec![("device-manager", manager)]);
    serde_json::to_vec(&object(vec![("snapshots", top)])).unwrap()
}

#[test]
fn read_snapshot_net_ids_parses_id_and_fd_count() {
    let got = read_snapshot_net_ids(
        br#"{"net":[{"id":"_net0","fds":[-1]},{"id":"_net1","fds":[-1,-1]}]}"#,
    )
    .unwrap();
    assert_eq!(
        got,
        vec![
            SnapshotNetId { id: "_net0".into(), num_fds: 1 },
            SnapshotNetId { id: "_net1".into(), num_fds: 2 },
        ]
    );
}

#[test]
fn read_snapshot_net_ids_missing_net_is_empty() {
    let got = read_snapshot_net_ids(b"{}").unwrap();
    assert!(got.is_empty());
}

#[test]
fn rewrite_config_swaps_sandbox_id() {
    let data = br#"{"vsock":{"socket":"/run/vc/vm/old-sandbox/clh.sock"}}"#;
    let patched = rewrite_snapshot_config_for_new_sandbox(data, "new-sandbox")
        .unwrap()
        .expect("patched");
    let after = String::from_utf8(patched).unwrap();
    assert!(after.contains("/run/vc/vm/new-sandbox/clh.sock"), "after={}", after);
    assert!(!after.contains("/run/vc/vm/old-sandbox/"));
}

#[test]
fn rewrite_config_no_per_sandbox_paths_is_noop() {
    let original = br#"{"cpus":{"boot_vcpus":1}}"#;
    let patched = rewrite_snapshot_config_for_new_sandbox(original, "new-sandbox").unwrap();
    assert_eq!(patched, None);
}

#[test]
fn rewrite_state_flips_fs2_device_activated() {
    let inner = r#"{"device_activated":true,"foo":1}"#;
    let outer = state_with(Value::String(inner.to_string()));
    let patched = rewrite_snapshot_state_for_new_sandbox(&outer).unwrap().expect("patched");

    let after: Value = serde_json::from_slice(&patched).unwrap();
    let inner_str = after
        .pointer("/snapshots/device-manager/snapshots/_virtio-pci-_fs2/snapshot_data/state")
        .unwrap()
        .as_str()
        .unwrap();
    let inner_v: Value = serde_json::from_str(inner_str).unwrap();
    assert_eq!(inner_v["device_activated"], Value::Bool(false));
    assert_eq!(inner_v["foo"], Value::Number(Number::from(1)));
}

#[test]
fn rewrite_state_no_fs_device_is_noop() {
    let outer = br#"{"snapshots":{"device-manager":{"snapshots":{}}}}"#;
    assert_eq!(rewrite_snapshot_state_for_new_sandbox(outer), Ok(None));
}

#[test]
fn patched_state_is_settled_and_otherwise_unchanged() {
    let inner = r#"{"a":[1,2.5,null],"device_activated":true}"#;
    let outer = state_with(Value::String(inner.to_string()));
    let patched = rewrite_snapshot_state_for_new_sandbox(&outer).unwrap().unwrap();
    let expected = state_with(Value::String(
        r#"{"a":[1,2.5,null],"device_activated":false}"#.to_string(),
    ));
    assert_eq!(patched, expected);
    assert_eq!(rewrite_snapshot_state_for_new_sandbox(&patched), Ok(None));
}

#[test]
fn patched_state_with_awkward_numbers_is_settled() {
    let numbers = [
        "1.7976931348623157e308",
        "-1.7976931348623155e308",
        "5e-324",
        "2.2250738585072011e-308",
        "0.1",
        "-0.0",
        "123456789.12345679",
        "18446744073709551615",
        "-9223372036854775808",
        "18446744073709551616",
    ];
    for n in numbers {
        let inner = format!(r#"{{"device_activated":true,"n":[{n}]}}"#);
        let data = object(vec![
            ("state", Value::String(inner)),
            ("other", serde_json::from_str(n).unwrap()),
        ]);
        let patched =
            rewrite_snapshot_state_for_new_sandbox(&state_with_data(data)).unwrap().unwrap();
        assert_eq!(rewrite_snapshot_state_for_new_sandbox(&patched), Ok(None), "{n}");
    }
}

#[test]
fn patched_state_that_nests_deep_is_settled() {
    let deep = format!("{}{}", "[".repeat(126), "]".repeat(126));
    let inner = format!(r#"{{"device_activated":true,"deep":{deep}}}"#);
    let patched =
        rewrite_snapshot_state_for_new_sandbox(&state_with(Value::String(inner))).unwrap().unwrap();
    assert_eq!(rewrite_snapshot_state_for_new_sandbox(&patched), Ok(None));
    let over = format!(r#"{{"device_activated":true,"deep":[{deep}]}}"#);
    assert_eq!(
        rewrite_snapshot_state_for_new_sandbox(&state_with(Value::String(over.clone()))),
        Err(RewriteError::InnerNotJson(refused(&over)))
    );
}

#[test]
fn whole_numbers_say_the_same_however_they_are_held() {
    let held = into_serde(JsonValue::Number(Number::from(7)));
    assert_eq!(held, Value::Number(Number::from(7)));
    assert_eq!(from_serde(held), JsonValue::PosInt(7));
    assert_eq!(into_serde(JsonValue::PosInt(7)), Value::Number(Number::from(7)));
}

#[test]
fn state_that_is_not_activated_stays() {
    for inner in ["{}", r#"{"device_activated":false}"#, r#"{"device_activated":"yes"}"#] {
        let outer = state_with(Value::String(inner.to_string()));
        assert_eq!(rewrite_snapshot_state_for_new_sandbox(&outer), Ok(None));
    }
    // What is no object is no device.
    assert_eq!(
        rewrite_snapshot_state_for_new_sandbox(&state_with_data(Value::Array(vec![]))),
        Ok(None)
    );
}

#[test]
fn every_state_error_is_told() {
    assert_eq!(rewrite_snapshot_state_for_new_sandbox(b"{"), Err(RewriteError::NotJson(refused("{"))));
    assert_eq!(
        rewrite_snapshot_state_for_new_sandbox(&state_with_data(object(vec![]))),
        Err(RewriteError::StateNotText)
    );
    assert_eq!(
        rewrite_snapshot_state_for_new_sandbox(&state_with(Value::Bool(true))),
        Err(RewriteError::StateNotText)
    );
    assert_eq!(
        rewrite_snapshot_state_for_new_sandbox(&state_with(Value::String("{".into()))),
        Err(RewriteError::InnerNotJson(refused("{")))
    );
    assert_eq!(
        rewrite_snapshot_state_for_new_sandbox(&state_with(Value::String("[]".into()))),
        Err(RewriteError::InnerNotObject)
    );
}

#[test]
fn every_net_error_is_told() {
    assert_eq!(read_snapshot_net_ids(b"nope"), Err(RewriteError::NotJson(refused("nope"))));
    assert_eq!(
        read_snapshot_net_ids(br#"{"net":1}"#),
        Err(RewriteError::NetNotArray("Number(1)".into()))
    );
    assert_eq!(
        read_snapshot_net_ids(br#"{"net":[{"id":"a"},{"fds":[]}]}"#),
        Err(RewriteError::NetIdMissing(1))
    );
    assert_eq!(
        read_snapshot_net_ids(br#"{"net":[{"id":7}]}"#),
        Err(RewriteError::NetIdMissing(0))
    );
    assert_eq!(
        read_snapshot_net_ids(br#"{"net":[{"id":"a","fds":3}]}"#),
        Err(RewriteError::FdsNotArray(0, "Number(3)".into()))
    );
}

#[test]
fn unexpected_values_are_shown() {
    let says = |config: &[u8]| read_snapshot_net_ids(config).unwrap_err().message("config", "/c");
    assert_eq!(
        says(br#"{"net":{"b":[1,-2.5],"a":"x"}}"#),
        format!(
            "snapshot config /c has `net` of unexpected type {}",
            r#"Object {"a": String("x"), "b": Array [Number(1), Number(-2.5)]}"#
        )
    );
    assert_eq!(
        says(br#"{"net":[{"id":"a"},{"id":"b","fds":true}]}"#),
        "snapshot config net[1] `fds` is not an array: Bool(true)"
    );
}

/// What serde_json says of a text that is not JSON.
fn refused(text: &str) -> String {
    serde_json::from_str::<Value>(text).unwrap_err().to_string()
}

#[test]
fn parser_and_decoder_are_named_as_causes() {
    assert_eq!(refused("nope"), "expected ident at line 1 column 2");
    assert_eq!(
        read_snapshot_net_ids(b"nope").unwrap_err().cause(),
        Some("expected ident at line 1 column 2".to_string())
    );
    let outer = state_with(Value::String("{".into()));
    let e = rewrite_snapshot_state_for_new_sandbox(&outer).unwrap_err();
    assert_eq!(e.cause(), Some(refused("{")));
    let e = rewrite_snapshot_config_for_new_sandbox(b"/run/vc/vm/\xff/", "n").unwrap_err();
    assert_eq!(e.cause(), Some("invalid utf-8 sequence of 1 bytes from index 0".to_string()));
    assert_eq!(RewriteError::InnerNotObject.cause(), None);
}

#[test]
fn config_whose_first_path_ends_at_a_quote_stays_the_same() {
    let config = br#"["/run/vc/vm/old","/run/vc/vm/old/a","/run/vc/vm/old/b"]"#;
    let patched = rewrite_snapshot_config_for_new_sandbox(config, "new").unwrap().unwrap();
    assert_eq!(
        patched,
        br#"["/run/vc/vm/old","/run/vc/vm/new/a","/run/vc/vm/new/b"]"#.to_vec()
    );
    assert_eq!(rewrite_snapshot_config_for_new_sandbox(&patched, "new"), Ok(Some(patched)));
}

#[test]
fn absent_and_null_fds_count_as_none() {
    assert_eq!(
        read_snapshot_net_ids(br#"{"net":[{"id":"a"},{"id":"b","fds":null}]}"#).unwrap(),
        vec![
            SnapshotNetId { id: "a".into(), num_fds: 0 },
            SnapshotNetId { id: "b".into(), num_fds: 0 },
        ]
    );
    assert!(read_snapshot_net_ids(br#"{"net":null}"#).unwrap().is_empty());
    assert!(read_snapshot_net_ids(b"[1]").unwrap().is_empty());
}

#[test]
fn net_ids_come_from_a_value() {
    let entry = JsonValue::Object(vec![
        ("id".into(), JsonValue::String("x".into())),
        ("fds".into(), JsonValue::Array(vec![JsonValue::Null])),
    ]);
    let config = JsonValue::Object(vec![("net".into(), JsonValue::Array(vec![entry]))]);
    assert_eq!(
        net_ids(config).unwrap(),
        vec![SnapshotNetId { id: "x".into(), num_fds: 1 }]
    );
}

#[test]
fn config_with_the_new_id_is_settled() {
    let data = br#"{"a":"/run/vc/vm/old/x","b":"/run/vc/vm/old/y","c":"/run/vc/vm/other/z"}"#;
    let patched = rewrite_snapshot_config_for_new_sandbox(data, "new").unwrap().unwrap();
    assert_eq!(
        patched,
        br#"{"a":"/run/vc/vm/new/x","b":"/run/vc/vm/new/y","c":"/run/vc/vm/other/z"}"#.to_vec()
    );
    assert_eq!(rewrite_snapshot_config_for_new_sandbox(&patched, "new"), Ok(None));
}

#[test]
fn id_may_end_at_a_quote() {
    let data = br#"{"a":"/run/vc/vm/old","b":"/run/vc/vm/old/y"}"#;
    let patched = rewrite_snapshot_config_for_new_sandbox(data, "n").unwrap().unwrap();
    assert_eq!(patched, br#"{"a":"/run/vc/vm/old","b":"/run/vc/vm/n/y"}"#.to_vec());
}

#[test]
fn every_config_error_is_told() {
    assert_eq!(
        rewrite_snapshot_config_for_new_sandbox(b"x/run/vc/vm/old", "n"),
        Err(RewriteError::MalformedSandboxId)
    );
    assert_eq!(
        rewrite_snapshot_config_for_new_sandbox(b"\"/run/vc/vm//x\"", "n"),
        Err(RewriteError::MalformedSandboxId)
    );
    assert_eq!(
        rewrite_snapshot_config_for_new_sandbox(b"/run/vc/vm/\xff\xfe/x", "n"),
        Err(RewriteError::SandboxIdNotUtf8(
            "invalid utf-8 sequence of 1 bytes from index 0".into()
        ))
    );
}

#[test]
fn subslices_are_found_and_replaced() {
    assert_eq!(find_subslice(b"abcabc", b"ca"), Some(2));
    assert_eq!(find_subslice(b"abc", b"abc"), Some(0));
    assert_eq!(find_subslice(b"abc", b"d"), None);
    assert_eq!(find_subslice(b"abc", b""), None);
    assert_eq!(find_subslice(b"ab", b"abc"), None);
    assert_eq!(replace_bytes(b"aaa", b"aa", b"b"), b"ba".to_vec());
    assert_eq!(replace_bytes(b"xyx", b"x", b""), b"y".to_vec());
    assert_eq!(replace_bytes(b"xyx", b"q", b"z"), b"xyx".to_vec());
    assert_eq!(replace_bytes(b"", b"q", b"z"), Vec::<u8>::new());
}

#[test]
fn json_is_read_and_printed() {
    let text = r#"{"b":[true,null,"x",1],"a":{}}"#;
    let v = parse_text(text).unwrap();
    assert_eq!(v.member("a"), Some(&JsonValue::Object(vec![])));
    assert_eq!(v.member("c"), None);
    // Keys come out in order.
    assert_eq!(print(v), r#"{"a":{},"b":[true,null,"x",1]}"#);
    let v = parse(text.as_bytes()).unwrap();
    assert_eq!(print_bytes(v), br#"{"a":{},"b":[true,null,"x",1]}"#.to_vec());
    assert!(parse(b"\xff").is_err());
    assert!(parse_text("").is_err());
}

#[test]
fn json_of_every_shape_converts_both_ways() {
    let text = r#"[null,false,-1.5,"q",[0],{"k":18446744073709551615}]"#;
    let v: Value = serde_json::from_str(text).unwrap();
    let mine = from_serde(v.clone());
    assert!(matches!(&mine, JsonValue::Array(items) if items.len() == 6));
    assert_eq!(into_serde(mine), v);
    assert_eq!(from_serde(Value::Number(Number::from(7))), JsonValue::PosInt(7));
    assert_eq!(from_serde(Value::Number(Number::from(-7))), JsonValue::NegInt(-7));
    assert!(matches!(parse_text("7.5"), Ok(JsonValue::Number(_))));
}

#[test]
fn nesting_is_read_back_as_deep_as_the_parser_goes() {
    let mut deep = JsonValue::NegInt(i64::MIN);
    for _ in 0..127 {
        deep = JsonValue::Array(vec![deep]);
    }
    let text = print(deep);
    assert_eq!(parse_text(&text).map(print), Ok(text.clone()));
    let over = format!("[{text}]");
    assert!(parse_text(&over).is_err());
    let v = JsonValue::Object(vec![
        ("é\"\n".into(), JsonValue::String("\u{1}\\/".into())),
        ("n".into(), JsonValue::PosInt(u64::MAX)),
    ]);
    let bytes = print_bytes(v);
    assert_eq!(parse(&bytes).map(print_bytes), Ok(bytes));
}

#[test]
fn later_members_win() {
    let v = JsonValue::Object(vec![
        ("k".into(), JsonValue::Bool(false)),
        ("k".into(), JsonValue::Bool(true)),
    ]);
    assert_eq!(v.member("k"), Some(&JsonValue::Bool(true)));
    assert_eq!(print(v), r#"{"k":true}"#);
}

#[test]
fn paths_lead_into_values() {
    let v = parse_text(r#"{"a":{"b":{"c":1}}}"#).unwrap();
    assert!(value_at(&v, &["a", "b"]).is_some());
    assert!(value_at(&v, &["a", "x"]).is_none());
    assert!(value_at(&v, &["a", "b", "c", "d"]).is_none());
    let v = set_at(v, &["a", "b"], "d", JsonValue::Null);
    assert_eq!(print(v), r#"{"a":{"b":{"c":1,"d":null}}}"#);
    let v = parse_text(r#"{"a":1}"#).unwrap();
    let v = set_at(v, &["x"], "d", JsonValue::Null);
    assert_eq!(print(v), r#"{"a":1}"#);
    let v = parse_text(r#"{"a":1,"b":2}"#).unwrap();
    assert_eq!(v.into_member("a").map(print), Some("1".to_string()));
}

#[test]
fn state_is_taken_out_flipped_and_put_back() {
    let root = parse(&state_with(Value::String("old".into()))).unwrap();
    assert_eq!(fs_state(&root), Ok(Some("old".to_string())));
    let root = put_fs_state(root, "new".to_string());
    assert_eq!(fs_state(&root), Ok(Some("new".to_string())));
    let inner = parse_text(r#"{"device_activated":true}"#).unwrap();
    let flipped = deactivate(inner).unwrap().unwrap();
    assert_eq!(print(flipped), r#"{"device_activated":false}"#);
}
