use forge_domain::tool::{ToolCallId, ToolName};
use forge_domain::tool_result::ToolResult;

#[test]
fn test_snapshot_minimal() {
    let result = ToolResult::new(ToolName::new("test_tool"));
    assert_eq!(
        result.to_xml(),
        "<tool_result><tool_name>test_tool</tool_name><success>null</success></tool_result>"
    );
}

#[test]
fn test_snapshot_full() {
    let result = ToolResult::new(ToolName::new("complex_tool"))
        .call_id(ToolCallId::new("123"))
        .content(String::from("{\"key\":\"value\",\"number\":42}"))
        .is_error(true);
    assert_eq!(
        result.to_xml(),
        "<tool_result><tool_name>complex_tool</tool_name><error>{\"key\":\"value\",\"number\":42}</error></tool_result>"
    );
}

#[test]
fn test_snapshot_with_special_chars() {
    let result = ToolResult::new(ToolName::new("xml_tool")).content(String::from(
        "{\"text\":\"Special chars: < > & ' \\\"\",\"nested\":{\"html\":\"<div>Test</div>\"}}",
    ));
    assert_eq!(
        result.to_xml(),
        "<tool_result><tool_name>xml_tool</tool_name><success>{\"text\":\"Special chars: < > & ' \\\"\",\"nested\":{\"html\":\"<div>Test</div>\"}}</success></tool_result>"
    );
}

#[test]
fn test_display_minimal() {
    let result = ToolResult::new(ToolName::new("test_tool"));
    assert_eq!(
        result.to_xml(),
        "<tool_result><tool_name>test_tool</tool_name><success>null</success></tool_result>"
    );
}

#[test]
fn test_display_full() {
    let result = ToolResult::new(ToolName::new("complex_tool"))
        .call_id(ToolCallId::new("123"))
        .content(String::from(
            "{\"user\":\"John Doe\",\"age\":42,\"address\":[{\"city\":\"New York\"},{\"city\":\"Los Angeles\"}]}",
        ));
    assert_eq!(
        result.to_xml(),
        "<tool_result><tool_name>complex_tool</tool_name><success>{\"user\":\"John Doe\",\"age\":42,\"address\":[{\"city\":\"New York\"},{\"city\":\"Los Angeles\"}]}</success></tool_result>"
    );
}

#[test]
fn test_display_special_chars() {
    let result = ToolResult::new(ToolName::new("xml_tool")).content(String::from(
        "{\"text\":\"Special chars: < > & ' \\\"\",\"nested\":{\"html\":\"<div>Test</div>\"}}",
    ));
    assert_eq!(
        result.to_xml(),
        "<tool_result><tool_name>xml_tool</tool_name><success>{\"text\":\"Special chars: < > & ' \\\"\",\"nested\":{\"html\":\"<div>Test</div>\"}}</success></tool_result>"
    );
}

#[test]
fn xml_round_trip_success() {
    let result = ToolResult::new(ToolName::new("clock.now"))
        .content(String::from("{\"time\":\"12:00\"}"));
    let xml = result.to_xml();
    let back = ToolResult::from_xml(xml.as_str()).expect("the rendering parses back");
    assert_eq!(back.name.text, "clock.now");
    assert_eq!(back.content, "{\"time\":\"12:00\"}");
    assert!(!back.is_error);
}

#[test]
fn xml_round_trip_error() {
    let result = ToolResult::new(ToolName::new("shell"))
        .content(String::from("\"command not found\""))
        .is_error(true);
    let back = ToolResult::from_xml(result.to_xml().as_str()).expect("parses back");
    assert_eq!(back.name.text, "shell");
    assert_eq!(back.content, "\"command not found\"");
    assert!(back.is_error);
}

#[test]
fn xml_rejects_garbage() {
    assert!(ToolResult::from_xml("not xml at all").is_none());
    assert!(ToolResult::from_xml("<tool_result><tool_name>x</tool_name><other>1</other></tool_result>").is_none());
}
