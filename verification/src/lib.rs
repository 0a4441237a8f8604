//! A toast-notification lifecycle engine.
//!
//! The crate tracks an ordered stack of transient notifications, derives the
//! stacking geometry from measured heights, recognises swipe gestures, and
//! drives each notification through its mount / remove / purge lifecycle.
//! Rendering, timers and pointer events belong to the host: the host hands
//! plain values (coordinates, timestamps, measured heights) to the functions
//! here and performs the actions they decide on.

pub mod geometry;
pub mod toast;
pub mod toast_container;
pub mod toast_id;
pub mod toaster;
pub mod types;

pub use geometry::{HeightT, Heights};
pub use toast::{Theme, ToastVariant};
pub use toast_container::{ToastLifecycle, ToastPresentation};
pub use toaster::ToasterConfig;
pub use toast_id::{ToastId, ToastIdFromStrError};
pub use types::{decode_message, dismiss_toast_message, Toast, ToastOptions, ToasterPosition, Toasts};
