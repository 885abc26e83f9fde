use vstd::prelude::*;

verus! {

/// One slot of the company data set: the key the loader publishes and the
/// file, under the `_company` directory, that fills it. A missing file
/// leaves the slot null; it is never an error.
pub struct DocSlot {
    pub key: String,
    pub filename: String,
}

/// The fixed set of company documents the loader assembles, in order.
pub fn company_documents() -> (docs: Vec<DocSlot>)
    ensures
        docs@.len() == 5,
        docs@[0].key@ == "org_chart"@ && docs@[0].filename@ == "org_chart.json"@,
        docs@[1].key@ == "company_config"@ && docs@[1].filename@ == "company_config.json"@,
        docs@[2].key@ == "engagement_registry"@ && docs@[2].filename@
            == "engagement_registry.json"@,
        docs@[3].key@ == "engagement_map"@ && docs@[3].filename@ == "engagement_map.json"@,
        docs@[4].key@ == "file_index"@ && docs@[4].filename@ == "file_index.json"@,
{
    let mut docs: Vec<DocSlot> = Vec::new();
    docs.push(DocSlot { key: "org_chart".to_owned(), filename: "org_chart.json".to_owned() });
    docs.push(
        DocSlot { key: "company_config".to_owned(), filename: "company_config.json".to_owned() },
    );
    docs.push(
        DocSlot {
            key: "engagement_registry".to_owned(),
            filename: "engagement_registry.json".to_owned(),
        },
    );
    docs.push(
        DocSlot { key: "engagement_map".to_owned(), filename: "engagement_map.json".to_owned() },
    );
    docs.push(DocSlot { key: "file_index".to_owned(), filename: "file_index.json".to_owned() });
    docs
}

/// Key under which the scanned knowledge records are published.
pub fn knowledge_key() -> (k: String)
    ensures
        k@ == "knowledge"@,
{
    "knowledge".to_owned()
}

/// File whose presence marks a directory as an engagement.
pub fn engagement_marker_filename() -> (f: String)
    ensures
        f@ == "engagement_config.json"@,
{
    "engagement_config.json".to_owned()
}

/// Name of the log file the knowledge scanner looks for in each workstream
/// directory.
pub fn knowledge_log_filename() -> (f: String)
    ensures
        f@ == "KNOWLEDGE_LOG.md"@,
{
    "KNOWLEDGE_LOG.md".to_owned()
}

} // verus!
