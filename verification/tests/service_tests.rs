use kv::{dispatch, CommandRequest, CommandResponse, Kvpair, MemTable, Value};

fn assert_res_ok(mut res: CommandResponse, values: &[Value], pairs: &[Kvpair]) {
    res.pairs.sort_by(|a, b| a.partial_cmp(b).unwrap());
    let mut expected: Vec<Kvpair> = pairs.to_vec();
    expected.sort_by(|a, b| a.partial_cmp(b).unwrap());
    assert_eq!(res.status, 200);
    assert_eq!(res.message, "");
    assert_eq!(res.values, values.to_vec());
    assert_eq!(res.pairs, expected);
}

fn assert_res_error(res: CommandResponse, code: u32, msg: &str) {
    assert_eq!(res.status, code);
    assert!(res.message.contains(msg));
    assert_eq!(res.values, Vec::<Value>::new());
    assert_eq!(res.pairs, Vec::<Kvpair>::new());
}

#[test]
fn hset_should_work() {
    let mut store = MemTable::new();
    let cmd = CommandRequest::new_hset("t1", "hello", "world".into());
    let res = dispatch(cmd.clone(), &mut store);
    assert_res_ok(res, &[Value::default()], &[]);

    let res = dispatch(cmd.clone(), &mut store);
    assert_res_ok(res, &["world".into()], &[]);
}

#[test]
fn hmset_should_work() {
    let mut store = MemTable::new();

    dispatch(CommandRequest::new_hset("t1", "k1", 11.into()), &mut store);

    let cmd = CommandRequest::new_hmset(
        "t1",
        vec![
            Kvpair::new("k1", 1.into()),
            Kvpair::new("k2", 2.into()),
            Kvpair::new("k3", 3.into()),
        ],
    );

    let res = dispatch(cmd, &mut store);
    assert_res_ok(
        res,
        &[],
        &[
            Kvpair::new("k1", 11.into()),
            Kvpair::new("k2", Value::default()),
            Kvpair::new("k3", Value::default()),
        ],
    );
}

#[test]
fn hget_should_work() {
    let mut store = MemTable::new();
    dispatch(CommandRequest::new_hset("t1", "k1", "v1".into()), &mut store);

    let res = dispatch(CommandRequest::new_hget("t1", "k1"), &mut store);
    assert_res_ok(res, &["v1".into()], &[]);
}

#[test]
fn hget_with_non_exist_key_should_return_404() {
    let mut store = MemTable::new();
    let cmd = CommandRequest::new_hget("t1", "k1");
    let res = dispatch(cmd, &mut store);
    assert_res_error(res, 404, "Not found");
}

#[test]
fn hmget_should_work() {
    let mut store = MemTable::new();
    let cmds = vec![
        CommandRequest::new_hset("t1", "k1", "v1".into()),
        CommandRequest::new_hset("t1", "k2", "v2".into()),
        CommandRequest::new_hset("t1", "k3", "v3".into()),
        CommandRequest::new_hset("t1", "k1", "v11".into()),
    ];

    for cmd in cmds {
        dispatch(cmd, &mut store);
    }

    let cmd = CommandRequest::new_hmget("t1", vec!["k1".into(), "k2".into()]);

    let res = dispatch(cmd, &mut store);
    assert_res_ok(
        res,
        &[],
        &[
            Kvpair::new("k1", "v11".into()),
            Kvpair::new("k2", "v2".into()),
        ],
    )
}

#[test]
fn hget_all_should_work() {
    let mut store = MemTable::new();
    let cmds = vec![
        CommandRequest::new_hset("t1", "k1", "v1".into()),
        CommandRequest::new_hset("t1", "k2", "v2".into()),
        CommandRequest::new_hset("t1", "k3", "v3".into()),
        CommandRequest::new_hset("t1", "k1", "v11".into()),
    ];

    for cmd in cmds {
        dispatch(cmd, &mut store);
    }

    let cmd = CommandRequest::new_hgetall("t1");
    let res = dispatch(cmd, &mut store);
    let pairs = &[
        Kvpair::new("k1", "v11".into()),
        Kvpair::new("k2", "v2".into()),
        Kvpair::new("k3", "v3".into()),
    ];

    assert_res_ok(res, &[], pairs);
}

#[test]
fn hdel_should_work() {
    let mut store = MemTable::new();
    let cmd = CommandRequest::new_hdel("t1", "k1");
    let res = dispatch(cmd, &mut store);
    assert_res_ok(res, &[Default::default()], &[]);

    let cmd = CommandRequest::new_hset("t1", "k1", "v1".into());
    dispatch(cmd, &mut store);

    let cmd = CommandRequest::new_hdel("t1", "k1");
    let res = dispatch(cmd, &mut store);
    assert_res_ok(res, &["v1".into()], &[]);
}

#[test]
fn hmdel_should_work() {
    let mut store = MemTable::new();
    let cmds = vec![
        CommandRequest::new_hset("t1", "k1", "v1".into()),
        CommandRequest::new_hset("t1", "k2", "v2".into()),
        CommandRequest::new_hset("t1", "k3", 3.into()),
    ];
    for cmd in cmds {
        dispatch(cmd, &mut store);
    }

    let cmd = CommandRequest::new_hmdel(
        "t1",
        vec!["k1".into(), "k2".into(), "k3".into(), "k4".into()],
    );
    let res = dispatch(cmd, &mut store);
    assert_res_ok(
        res,
        &[],
        &[
            Kvpair::new("k1", "v1".into()),
            Kvpair::new("k2", "v2".into()),
            Kvpair::new("k3", 3.into()),
            Kvpair::new("k4", Value::default()),
        ],
    )
}

#[test]
fn hexist_should_work() {
    let mut store = MemTable::new();
    let res = dispatch(CommandRequest::new_hexist("t1", "k1"), &mut store);
    assert_res_ok(res, &[], &[Kvpair::new("k1", false.into())]);

    dispatch(CommandRequest::new_hset("t1", "k1", 1.into()), &mut store);
    let res = dispatch(CommandRequest::new_hexist("t1", "k1"), &mut store);
    assert_res_ok(res, &[], &[Kvpair::new("k1", true.into())]);
}

#[test]
fn hmexist_should_work() {
    let mut store = MemTable::new();
    let cmds = vec![
        CommandRequest::new_hset("t1", "k1", "v1".into()),
        CommandRequest::new_hset("t1", "k3", 3.into()),
    ];
    for cmd in cmds {
        dispatch(cmd, &mut store);
    }

    let cmd = CommandRequest::new_hmexist("t1", vec!["k1".into(), "k2".into(), "k3".into()]);
    let res = dispatch(cmd, &mut store);

    assert_res_ok(
        res,
        &[],
        &[
            Kvpair::new("k1", true.into()),
            Kvpair::new("k2", false.into()),
            Kvpair::new("k3", true.into()),
        ],
    )
}

#[test]
fn hset_without_pair_writes_nothing() {
    let mut store = MemTable::new();
    let req = CommandRequest {
        request_data: Some(kv::RequestData::Hset(kv::Hset {
            table: "t1".to_string(),
            pair: None,
        })),
    };
    let res = dispatch(req, &mut store);
    assert_res_ok(res, &[Value::Empty], &[]);

    let res = dispatch(CommandRequest::new_hgetall("t1"), &mut store);
    assert_eq!(res.pairs, Vec::<Kvpair>::new());
}

#[test]
fn empty_batches_always_succeed() {
    let mut store = MemTable::new();
    let res = dispatch(CommandRequest::new_hmset("t1", Vec::new()), &mut store);
    assert_res_ok(res, &[], &[]);
    let res = dispatch(CommandRequest::new_hmget("t1", Vec::new()), &mut store);
    assert_res_ok(res, &[], &[]);
    let res = dispatch(CommandRequest::new_hmdel("t1", Vec::new()), &mut store);
    assert_res_ok(res, &[], &[]);
    let res = dispatch(CommandRequest::new_hmexist("t1", Vec::new()), &mut store);
    assert_res_ok(res, &[], &[]);
}

#[test]
fn unpopulated_request_should_return_400() {
    let mut store = MemTable::new();
    let res = dispatch(CommandRequest { request_data: None }, &mut store);
    assert_res_error(res, 400, "Invalid command");
}

#[test]
fn hget_miss_message_names_table_and_key() {
    let mut store = MemTable::new();
    let res = dispatch(CommandRequest::new_hget("t1", "hello"), &mut store);
    assert_eq!(res.status, 404);
    assert!(res.message.contains("t1"));
    assert!(res.message.contains("hello"));
    assert_eq!(res.message, "Not found for table: t1, key: hello");
}

#[test]
fn hset_get_del_get_scenario() {
    let mut store = MemTable::new();

    let res = dispatch(CommandRequest::new_hset("t1", "hello", "world".into()), &mut store);
    assert_eq!(res.status, 200);
    assert_eq!(res.values, vec![Value::Empty]);

    let res = dispatch(CommandRequest::new_hset("t1", "hello", "world1".into()), &mut store);
    assert_eq!(res.status, 200);
    assert_eq!(res.values, vec![Value::from("world")]);

    let res = dispatch(CommandRequest::new_hget("t1", "hello"), &mut store);
    assert_eq!(res.status, 200);
    assert_eq!(res.values, vec![Value::from("world1")]);

    let res = dispatch(CommandRequest::new_hdel("t1", "hello"), &mut store);
    assert_eq!(res.status, 200);
    assert_eq!(res.values, vec![Value::from("world1")]);

    let res = dispatch(CommandRequest::new_hget("t1", "hello"), &mut store);
    assert_eq!(res.status, 404);
    assert!(res.message.contains("t1"));
    assert!(res.message.contains("hello"));
}

#[test]
fn hmget_with_missing_key_keeps_length_and_order() {
    let mut store = MemTable::new();
    dispatch(CommandRequest::new_hset("t1", "k1", "v1".into()), &mut store);
    dispatch(CommandRequest::new_hset("t1", "k2", "v2".into()), &mut store);

    let res = dispatch(
        CommandRequest::new_hmget("t1", vec!["k1".into(), "k2".into(), "missing".into()]),
        &mut store,
    );
    assert_eq!(res.status, 200);
    assert_eq!(res.pairs.len(), 3);
    assert_eq!(res.pairs[0], Kvpair::new("k1", "v1".into()));
    assert_eq!(res.pairs[1], Kvpair::new("k2", "v2".into()));
    assert_eq!(res.pairs[2], Kvpair::new("missing", Value::Empty));
}

#[test]
fn hmget_duplicate_keys_resolved_independently() {
    let mut store = MemTable::new();
    dispatch(CommandRequest::new_hset("t1", "k1", "v1".into()), &mut store);

    let res = dispatch(
        CommandRequest::new_hmget("t1", vec!["k1".into(), "k1".into()]),
        &mut store,
    );
    assert_eq!(res.pairs.len(), 2);
    assert_eq!(res.pairs[0], Kvpair::new("k1", "v1".into()));
    assert_eq!(res.pairs[1], Kvpair::new("k1", "v1".into()));
}

#[test]
fn hgetall_of_untouched_table_is_empty() {
    let mut store = MemTable::new();
    let res = dispatch(CommandRequest::new_hgetall("t9"), &mut store);
    assert_eq!(res.status, 200);
    assert_eq!(res.pairs, Vec::<Kvpair>::new());
    assert_eq!(res.values, Vec::<Value>::new());
}

#[test]
fn many_distinct_keys_all_persist() {
    let mut store = MemTable::new();
    let n: i64 = 16;
    for i in 0..n {
        let key = format!("key{}", i);
        dispatch(CommandRequest::new_hset("t1", &key, i.into()), &mut store);
    }
    let res = dispatch(CommandRequest::new_hgetall("t1"), &mut store);
    assert_eq!(res.status, 200);
    assert_eq!(res.pairs.len(), n as usize);
    for i in 0..n {
        let key = format!("key{}", i);
        assert!(res.pairs.contains(&Kvpair::new(&key, i.into())));
    }
}
