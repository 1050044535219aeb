//! Bookmark management: importing, filtering, paging, categorising,
//! counting and exporting bookmarks, and the state of the bookmark browser,
//! with contracts proved by Verus.

pub mod app_state;
pub mod bookmark_list;
pub mod build_command;
pub mod category_tree;
pub mod command;
pub mod decimal;
pub mod edit_pane;
pub mod export;
pub mod field_attrs;
pub mod import;
pub mod number_text;
pub mod parsed_str;
pub mod records;
pub mod startup;
pub mod text_order;
pub mod url_map;
