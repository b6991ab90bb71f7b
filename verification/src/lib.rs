//! Review-pane logic of a desktop code-review client: the snapshot file tree,
//! word-level change spans, diff row indexing and pairing, bounded caches,
//! the review panel's controls, menus, keys and history, the side chat's
//! tabs, the sidebar's selection and menus, the pull-request file tree and
//! activity feed, and the single-flight GitHub write protocol.

pub mod text;
pub mod word_diff;
pub mod diff;
pub mod tree;
pub mod hunk_header;
pub mod diff_rows;
pub mod cache;
pub mod render_cache;
pub mod side_chat;
pub mod mutations;
pub mod review_rows;
pub mod names;
pub mod review_panel;
pub mod review_actions;
pub mod branch_picker;
pub mod selection;
pub mod pr_tree;
pub mod ordered_names;
pub mod review_menus;
pub mod diff_copy;
pub mod review_flow;
pub mod turn_history;
pub mod snapshot_load;
pub mod review_keys;
pub mod sidebar;
pub mod pr_writes;
pub mod pr_file_tree;
pub mod pr_view;
pub mod activity;
