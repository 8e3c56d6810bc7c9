pub mod command;
pub mod descriptor;
pub mod import;
pub mod layout;

pub use command::{Axis, BuilderView, Direction, QueryScope, SessionSelectMode, SplitFlow, Target, TargetScope, TmuxCommandBuilder};
pub use layout::{Layout, LayoutView, PaneGeom, Size};
