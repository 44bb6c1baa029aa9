use mqtt::tools::pack_tool::pack_string;
use mqtt::tools::un_pack_tool::parse_long_int;

#[test]
fn pack_tool_test() {
    let packed = pack_string(&String::from("MQTT"));
    assert_eq!(packed, vec![0, 4, b'M', b'Q', b'T', b'T']);
}

#[test]
fn un_pack_tool_test() {
    let arr = [0u8, 0, 14, 16];
    let (value, rest) = parse_long_int(&arr).unwrap();
    assert_eq!(value, 3600);
    assert!(rest.is_empty());
    let reversed: Vec<u8> = arr.iter().rev().cloned().collect();
    assert_eq!(reversed, vec![16, 14, 0, 0]);
}
