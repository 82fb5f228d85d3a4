//! The navigation model, screen state and settings logic of the Yomichan
//! mobile dictionary app, with their contracts.
pub mod text;
pub mod screen;
pub mod router;
pub mod anki_settings;
pub mod search;
pub mod settings;
pub mod dictionaries;
pub mod anki;
