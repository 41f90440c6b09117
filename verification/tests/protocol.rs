use flare::agent::encoder::ResponseData;
use flare::agent::sample::SampleData;
use flare::agent::server::parse_request_options;
use flare::client::client_utils::{get_resp_property, get_resp_property_as_int, get_resp_property_as_str, parse_resp_properties};
use flare::protocol::RespValue;

#[test]
fn resp_encoding() {
    assert_eq!(RespValue::String("OK".to_string()).encode(), b"+OK\r\n".to_vec());
    assert_eq!(RespValue::Error("Err".to_string()).encode(), b"-Err\r\n".to_vec());
    assert_eq!(RespValue::Integer(-123).encode(), b":-123\r\n".to_vec());
    assert_eq!(RespValue::Null.encode(), b"$-1\r\n".to_vec());
    assert_eq!(RespValue::NullArray.encode(), b"*-1\r\n".to_vec());
    assert_eq!(RespValue::Bulk("Hello".to_string()).encode(), b"$5\r\nHello\r\n".to_vec());
    assert_eq!(RespValue::BufBulk(vec![1, 2]).encode(), b"$2\r\n\x01\x02\r\n".to_vec());
    let arr = RespValue::Array(vec![RespValue::Bulk("SET".to_string()), RespValue::Integer(1)]);
    assert_eq!(arr.encode(), b"*2\r\n$3\r\nSET\r\n:1\r\n".to_vec());
    assert_eq!(RespValue::Bulk("正".to_string()).encode(), "$3\r\n正\r\n".as_bytes().to_vec());
}

fn props() -> Vec<RespValue> {
    vec![
        RespValue::String("thread".to_string()),
        RespValue::String("id".to_string()),
        RespValue::Integer(7),
        RespValue::String("name".to_string()),
        RespValue::String("main".to_string()),
        RespValue::String("time".to_string()),
        RespValue::String("not a number".to_string()),
    ]
}

#[test]
fn resp_property_lookup() {
    let data = props();
    assert!(matches!(get_resp_property(&data, "id", 1), Some(RespValue::Integer(7))));
    assert!(get_resp_property(&data, "missing", 1).is_none());
    assert!(get_resp_property(&data, "id", -1).is_none());
    assert_eq!(get_resp_property_as_int(&data, "id", 1, 0), 7);
    assert_eq!(get_resp_property_as_int(&data, "time", 1, -1), -1);
    assert_eq!(get_resp_property_as_str(&data, "name", 1, "?"), "main");
    assert_eq!(get_resp_property_as_str(&data, "id", 1, "?"), "?");
    assert_eq!(get_resp_property_as_int(&data, "id", 2, 5), 5);
}

#[test]
fn request_options_later_name_wins() {
    let request = vec![
        RespValue::String("subscribe-events".to_string()),
        RespValue::String("interval".to_string()),
        RespValue::Integer(10),
        RespValue::Integer(99),
        RespValue::Integer(5),
        RespValue::String("interval".to_string()),
        RespValue::Array(vec![RespValue::Integer(20), RespValue::BufBulk(vec![1, 2])]),
        RespValue::String("dangling".to_string()),
    ];
    let options = parse_request_options(&request);
    assert_eq!(options.len(), 1);
    assert_eq!(options[0].0, "interval");
    match &options[0].1 {
        RespValue::Array(items) => {
            assert_eq!(items.len(), 2);
            assert!(matches!(items[0], RespValue::Integer(20)));
            assert!(matches!(&items[1], RespValue::BufBulk(b) if b == &vec![1u8, 2u8]));
        },
        other => panic!("unexpected option value {:?}", other),
    }
}

#[test]
fn request_options_of_bare_command() {
    let request = vec![RespValue::String("stop-sample".to_string())];
    assert!(parse_request_options(&request).is_empty());
}

#[test]
fn resp_properties_from_start() {
    let data = vec![
        RespValue::String("thread".to_string()),
        RespValue::String("id".to_string()),
        RespValue::Integer(7),
        RespValue::String("name".to_string()),
        RespValue::Bulk("main".to_string()),
        RespValue::String("id".to_string()),
        RespValue::Integer(8),
    ];
    let props = parse_resp_properties(&data, 1);
    assert_eq!(props.len(), 2);
    let id = props.iter().find(|(k, _)| k.as_str() == "id").unwrap();
    assert!(matches!(id.1, RespValue::Integer(8)));
    let name = props.iter().find(|(k, _)| k.as_str() == "name").unwrap();
    assert!(matches!(name.1, RespValue::Bulk(s) if s == "main"));
    assert!(parse_resp_properties(&data, -1).is_empty());
    assert!(parse_resp_properties(&data, 7).is_empty());
}

#[test]
fn response_data_encodes_its_value() {
    let reply = ResponseData::new("sample_info".to_string(), RespValue::Array(vec![RespValue::Integer(5)]));
    assert_eq!(reply.get_type(), "sample_info");
    assert_eq!(reply.encode(), b"*1\r\n:5\r\n".to_vec());
}
