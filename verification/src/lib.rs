pub mod text;
pub mod http;
pub mod paths;
pub mod unicode;
pub mod editor;
pub mod settings;
pub mod encoding;
pub mod clock;
pub mod recorder;
pub mod hotkeys;
pub mod devices;
pub mod appname;
pub mod preview;
pub mod wav;
pub mod library;
pub mod watch;
