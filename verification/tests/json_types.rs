use zterm_terminal::shell_integration::JsonDataType;

#[test]
fn test_json_data_type_from_str() {
    assert_eq!(JsonDataType::from_str("block_meta"), Some(JsonDataType::BlockMeta));
    assert_eq!(JsonDataType::from_str("command_meta"), Some(JsonDataType::CommandMeta));
    assert_eq!(JsonDataType::from_str("output_meta"), Some(JsonDataType::OutputMeta));
    assert_eq!(JsonDataType::from_str("custom"), Some(JsonDataType::Custom));
    assert_eq!(JsonDataType::from_str("unknown"), None);
}

#[test]
fn test_json_data_type_as_str() {
    assert_eq!(JsonDataType::BlockMeta.as_str(), "block_meta");
    assert_eq!(JsonDataType::CommandMeta.as_str(), "command_meta");
    assert_eq!(JsonDataType::OutputMeta.as_str(), "output_meta");
    assert_eq!(JsonDataType::Custom.as_str(), "custom");
}

#[test]
fn json_data_type_round_trip() {
    for t in [JsonDataType::BlockMeta, JsonDataType::CommandMeta, JsonDataType::OutputMeta, JsonDataType::Custom] {
        assert_eq!(JsonDataType::from_str(t.as_str()), Some(t));
    }
    assert_eq!(JsonDataType::from_str("Custom"), None);
    assert_eq!(JsonDataType::from_str(""), None);
}
