//! Turns the callbacks of a native drag-and-drop session over an embedded web surface
//! into listener events, decides at each stage whether the platform's default handling
//! runs, and plans the work of a drop: storing dropped paths, telling the listener, or
//! correcting the payload of a drag that started inside the application.
pub mod drop_stage;
pub mod event;
pub mod json;
pub mod paths;
pub mod payload;
