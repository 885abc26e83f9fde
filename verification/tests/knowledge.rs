use shell_bridge::company::{
    company_documents, engagement_marker_filename, knowledge_key, knowledge_log_filename,
};
use shell_bridge::knowledge::{LogEntry, parse_knowledge_log};

fn parse(content: &[u8]) -> Vec<LogEntry> {
    parse_knowledge_log(&content.to_vec(), &b"acme".to_vec(), &b"rollout".to_vec())
}

#[test]
fn full_log_yields_flat_records() {
    let log = b"# Title\n\
        \n\
        ## 2024-01-15\n\
        ### [decision] Chose the approach\n\
        - **Detail**: because reasons\n\
        - **Source**: meeting notes\n\
        ### Follow-up without type\n\
        stray prose is ignored\n\
        ## 2024-01-16\n\
        ### [note] Next day\n";
    let entries = parse(log);
    assert_eq!(entries.len(), 3);

    assert_eq!(entries[0].engagement, b"acme".to_vec());
    assert_eq!(entries[0].workstream, b"rollout".to_vec());
    assert_eq!(entries[0].date, b"2024-01-15".to_vec());
    assert_eq!(entries[0].entry_type, b"DECISION".to_vec());
    assert_eq!(entries[0].summary, b"Chose the approach".to_vec());
    assert_eq!(entries[0].detail, b"because reasons".to_vec());
    assert_eq!(entries[0].source, b"meeting notes".to_vec());

    assert_eq!(entries[1].date, b"2024-01-15".to_vec());
    assert_eq!(entries[1].entry_type, b"".to_vec());
    assert_eq!(entries[1].summary, b"Follow-up without type".to_vec());
    assert_eq!(entries[1].detail, b"".to_vec());
    assert_eq!(entries[1].source, b"".to_vec());

    // The last entry is still pending at end of input and is emitted too.
    assert_eq!(entries[2].date, b"2024-01-16".to_vec());
    assert_eq!(entries[2].entry_type, b"NOTE".to_vec());
    assert_eq!(entries[2].summary, b"Next day".to_vec());
}

#[test]
fn empty_log_yields_no_records() {
    assert_eq!(parse(b"").len(), 0);
    assert_eq!(parse(b"just prose\nno headers\n").len(), 0);
}

#[test]
fn unclosed_bracket_is_untyped_full_summary() {
    let entries = parse(b"## 2024-02-01\n### [unclosed summary\n");
    assert_eq!(entries.len(), 1);
    assert_eq!(entries[0].entry_type, b"".to_vec());
    assert_eq!(entries[0].summary, b"[unclosed summary".to_vec());
}

#[test]
fn header_without_bracket_is_untyped() {
    let entries = parse(b"## 2024-02-01\n### Plain heading \n");
    assert_eq!(entries.len(), 1);
    assert_eq!(entries[0].entry_type, b"".to_vec());
    assert_eq!(entries[0].summary, b"Plain heading".to_vec());
}

#[test]
fn entry_before_any_date_has_empty_date() {
    let entries = parse(b"### [risk] Early entry\n");
    assert_eq!(entries.len(), 1);
    assert_eq!(entries[0].date, b"".to_vec());
    assert_eq!(entries[0].entry_type, b"RISK".to_vec());
    assert_eq!(entries[0].summary, b"Early entry".to_vec());
}

#[test]
fn crlf_line_endings_are_tolerated() {
    let entries = parse(b"## 2024-03-01\r\n### [fact] With CRLF\r\n- **Detail**: d\r\n");
    assert_eq!(entries.len(), 1);
    assert_eq!(entries[0].date, b"2024-03-01".to_vec());
    assert_eq!(entries[0].entry_type, b"FACT".to_vec());
    assert_eq!(entries[0].summary, b"With CRLF".to_vec());
    assert_eq!(entries[0].detail, b"d".to_vec());
}

#[test]
fn annotations_without_bullet_still_count() {
    let entries = parse(b"### [x] s\n**Detail**: plain detail\n**Source**:  spaced source \n");
    assert_eq!(entries.len(), 1);
    assert_eq!(entries[0].detail, b"plain detail".to_vec());
    assert_eq!(entries[0].source, b"spaced source".to_vec());
}

#[test]
fn annotations_outside_entries_are_ignored() {
    let entries = parse(b"- **Detail**: floating\n## 2024-04-01\n- **Source**: floating\n");
    assert_eq!(entries.len(), 0);
}

#[test]
fn later_annotation_overwrites_earlier() {
    let entries = parse(b"### [a] s\n- **Detail**: first\n- **Detail**: second\n");
    assert_eq!(entries.len(), 1);
    assert_eq!(entries[0].detail, b"second".to_vec());
}

#[test]
fn date_header_closes_pending_entry() {
    let entries = parse(b"## d1\n### [t] one\n## d2\n");
    assert_eq!(entries.len(), 1);
    assert_eq!(entries[0].date, b"d1".to_vec());
    assert_eq!(entries[0].summary, b"one".to_vec());
}

#[test]
fn type_tag_is_uppercased_and_summary_trimmed() {
    let entries = parse(b"### [MiXeD42-x]   padded summary  \n");
    assert_eq!(entries.len(), 1);
    assert_eq!(entries[0].entry_type, b"MIXED42-X".to_vec());
    assert_eq!(entries[0].summary, b"padded summary".to_vec());
}

#[test]
fn company_document_plan_is_fixed() {
    let docs = company_documents();
    let got: Vec<(String, String)> =
        docs.into_iter().map(|d| (d.key, d.filename)).collect();
    assert_eq!(
        got,
        vec![
            ("org_chart".to_string(), "org_chart.json".to_string()),
            ("company_config".to_string(), "company_config.json".to_string()),
            ("engagement_registry".to_string(), "engagement_registry.json".to_string()),
            ("engagement_map".to_string(), "engagement_map.json".to_string()),
            ("file_index".to_string(), "file_index.json".to_string()),
        ]
    );
    assert_eq!(knowledge_key(), "knowledge");
    assert_eq!(engagement_marker_filename(), "engagement_config.json");
    assert_eq!(knowledge_log_filename(), "KNOWLEDGE_LOG.md");
}
