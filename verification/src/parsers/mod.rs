pub mod fitness_report;
pub mod markdown_claims;
pub mod receipt_json;
