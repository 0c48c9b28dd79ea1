//! Verified core of the fathomable workspace viewer: the key-binding
//! table, its which-key menus and the keymap help; where keys and the
//! mouse go; the context menus, the menu bar and the pickers; viewport
//! placement, the jumplist, change navigation and lazy follow; opening
//! files, the file watcher's batches, the thread store's reloads and the
//! landing queue; the screen's layout, the read-only panes, and the
//! transient notices.

pub mod bindings;
pub mod context_menus;
pub mod follow;
pub mod help;
pub mod hint;
pub mod jumplist;
pub mod landing;
pub mod keys;
pub mod mark_words;
pub mod menu;
pub mod menu_bar;
pub mod navigation;
pub mod notices;
pub mod opening;
pub mod pager;
pub mod paths;
pub mod picker;
pub mod placement;
pub mod pointer;
pub mod routing;
pub mod screen;
pub mod store;
pub mod table;
pub mod table_laws;
pub mod text;
pub mod watch;
