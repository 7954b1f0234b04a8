pub mod api_extract;
pub mod contract;
pub mod design_schema;
pub mod diff;
pub mod lint;
pub mod report;
pub mod tests_runner;
