//! Interactive widget behaviours: the state machines behind a set of
//! CSS-styled controls (lists, menus, pickers, composite inputs), each
//! consuming keyboard input and pre-resolved pointer hits and reporting a
//! [`behavior::WidgetOutcome`], plus a plain render tree of each widget.

pub mod behavior;
pub mod calendar;
pub mod keys;
pub mod node;
pub mod text;
pub mod index_set;
pub mod list;
pub mod listbox;
pub mod listview;
pub mod menu;
pub mod month_calendar;
pub mod pagination;
pub mod segmented;
pub mod toggle;
pub mod toggle_group;
pub mod stepper;
pub mod split_button;
pub mod label;
pub mod progress;
pub mod tag_input;
pub mod masked_input;
pub mod tabs;
pub mod table;
pub mod textarea;
pub mod reference;
pub mod rating;
pub mod popover;
pub mod range_slider;
pub mod sparkline;
