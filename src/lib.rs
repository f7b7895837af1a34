//! A three-pane directory navigator: a wrap-around selectable list, the
//! entries it shows, and the state machine that shifts the panes as the
//! cursor moves through the tree.
pub mod entry;
pub mod list;
pub mod nav;
pub mod path;
