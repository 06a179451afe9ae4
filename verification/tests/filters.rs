use mcp_manager::json::JsonVal;
use mcp_manager::mcp::{
    ToolContent, ToolFilter, ToolFilterConfig, ToolSpec, contains_name, filter_tools, get_filter,
    tool_result_text,
};

fn spec_named(name: &str) -> ToolSpec {
    ToolSpec {
        name: String::from(name),
        description: Some(String::from("a tool")),
        input_schema: JsonVal::Obj(Vec::new()),
    }
}

fn catalog_abc() -> Vec<ToolSpec> {
    vec![spec_named("a"), spec_named("b"), spec_named("c")]
}

fn names_of(tools: &[ToolSpec]) -> Vec<String> {
    tools.iter().map(|t| t.name.clone()).collect()
}

#[test]
fn include_filter_keeps_only_named_tools() {
    let filter = ToolFilter::Include(vec![String::from("a")]);
    let kept = filter_tools(catalog_abc(), &filter);
    assert_eq!(names_of(&kept), vec![String::from("a")]);
}

#[test]
fn exclude_filter_drops_named_tools() {
    let filter = ToolFilter::Exclude(vec![String::from("a")]);
    let kept = filter_tools(catalog_abc(), &filter);
    assert_eq!(names_of(&kept), vec![String::from("b"), String::from("c")]);
}

#[test]
fn no_filter_keeps_everything() {
    let filter = get_filter(None);
    let kept = filter_tools(catalog_abc(), &filter);
    assert_eq!(names_of(&kept), vec![
        String::from("a"),
        String::from("b"),
        String::from("c"),
    ]);
}

#[test]
fn configured_filters_carry_their_names() {
    let filter = get_filter(Some(ToolFilterConfig::Include {
        names: vec![String::from("b"), String::from("c")],
    }));
    let kept = filter_tools(catalog_abc(), &filter);
    assert_eq!(names_of(&kept), vec![String::from("b"), String::from("c")]);

    let filter = get_filter(Some(ToolFilterConfig::Exclude {
        names: vec![String::from("b")],
    }));
    let kept = filter_tools(catalog_abc(), &filter);
    assert_eq!(names_of(&kept), vec![String::from("a"), String::from("c")]);
}

#[test]
fn filtering_keeps_descriptions_and_schemas() {
    let mut tools = catalog_abc();
    tools[0].input_schema = JsonVal::Obj(vec![(
        String::from("type"),
        JsonVal::Str(String::from("object")),
    )]);
    let filter = ToolFilter::Include(vec![String::from("a")]);
    let kept = filter_tools(tools, &filter);
    assert_eq!(kept.len(), 1);
    assert_eq!(kept[0].description, Some(String::from("a tool")));
    assert_eq!(
        kept[0].input_schema,
        JsonVal::Obj(vec![(String::from("type"), JsonVal::Str(String::from("object")))])
    );
}

#[test]
fn contains_name_finds_exact_matches_only() {
    let names = vec![String::from("alpha"), String::from("beta")];
    assert!(contains_name(&names, &String::from("alpha")));
    assert!(contains_name(&names, &String::from("beta")));
    assert!(!contains_name(&names, &String::from("alp")));
    assert!(!contains_name(&names, &String::from("gamma")));
}

#[test]
fn tool_result_accepts_exactly_one_text_payload() {
    let ok = tool_result_text(vec![ToolContent::Text(String::from("42"))]);
    assert_eq!(ok.unwrap(), String::from("42"));
}

#[test]
fn tool_result_rejects_empty_and_multi_part_results() {
    let empty = tool_result_text(Vec::new());
    assert_eq!(empty.unwrap_err().status, 500);

    let two = tool_result_text(vec![
        ToolContent::Text(String::from("a")),
        ToolContent::Text(String::from("b")),
    ]);
    assert_eq!(two.unwrap_err().status, 500);
}

#[test]
fn tool_result_rejects_non_text_payloads() {
    let err = tool_result_text(vec![ToolContent::Unsupported]);
    assert_eq!(err.unwrap_err().status, 500);
}
