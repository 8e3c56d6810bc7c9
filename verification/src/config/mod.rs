pub mod includes;
pub mod loader;
pub mod model;
pub mod serialization;

pub use includes::{ConfigIncludes, FilePathIncludes, NoIncludes, Sealed, UnresolvedIncludes};
pub use model::{Config, ConfigL, ConfigView, HSplitPart, Pane, PaneSetting, PaneSettingView, PaneView, Panes, PanesMut, PartialConfig, RootSplit, Session, SessionView, SideView, Split, SplitView, VSplitPart, Window, WindowView};
pub use serialization::{is_default_size, SplitMap, SplitMapView};
