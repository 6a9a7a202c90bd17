//! A status-bar engine: widgets publish displayable values, formatters turn
//! the ordered value list into one output line for a concrete bar protocol,
//! and the bar core dispatches input command lines to registered callbacks.

pub mod bar;
pub mod data;
pub mod dzen2;
pub mod formatter;
pub mod i3bar;
pub mod laws;
pub mod lemonbar;
pub mod music;
pub mod textenc;

pub use bar::BarAction;
pub use bar::BarEvent;
pub use bar::UnixBar;
pub use bar::Widget;
pub use data::Format;
pub use data::Span;
pub use dzen2::Dzen2;
pub use formatter::Formatter;
pub use i3bar::I3Bar;
pub use lemonbar::Lemonbar;
pub use music::MPRISMusic;
pub use music::PlaybackInfo;
pub use music::SongInfo;
