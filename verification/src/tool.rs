pub mod approval;
pub mod assign;
pub mod audit_checks;
pub mod cache;
pub mod command_ops;
pub mod dispatch;
pub mod doc_index;
pub mod doc_policy;
pub mod doc_tools;
pub mod documents;
pub mod editor;
pub mod file_ops;
pub mod frontmatter;
pub mod hints;
pub mod logs;
pub mod output;
pub mod patch;
pub mod path;
pub mod python_cmd;
pub mod registry;
pub mod scope;
pub mod search;
pub mod subproject;
pub mod test_env;
pub mod tree;
