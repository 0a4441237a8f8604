//! Styling inputs of the built-in toast template.
//!
//! The renderer itself lives with the host; the library only carries the
//! variant and theme a toast is rendered with and their data-attribute
//! labels.

use vstd::prelude::*;
use vstd::string::StringExecFns;

verus! {

/// Visual variant of the built-in toast template.
#[derive(Clone, Copy, PartialEq, Eq, Structural, Debug)]
pub enum ToastVariant {
    Normal,
    Success,
    Info,
    Warning,
    Error,
}

impl ToastVariant {
    /// The variant's data-attribute label.
    pub fn to_string(&self) -> (r: String)
        ensures
            *self == ToastVariant::Normal ==> r@ == "normal"@,
            *self == ToastVariant::Success ==> r@ == "success"@,
            *self == ToastVariant::Info ==> r@ == "info"@,
            *self == ToastVariant::Warning ==> r@ == "warning"@,
            *self == ToastVariant::Error ==> r@ == "error"@,
    {
        match self {
            ToastVariant::Normal => String::from_str("normal"),
            ToastVariant::Success => String::from_str("success"),
            ToastVariant::Info => String::from_str("info"),
            ToastVariant::Warning => String::from_str("warning"),
            ToastVariant::Error => String::from_str("error"),
        }
    }
}

/// Color theme of the built-in toast template.
#[derive(Clone, Copy, PartialEq, Eq, Structural, Debug)]
pub enum Theme {
    Light,
    Dark,
}

impl Theme {
    /// The theme's data-attribute label.
    pub fn to_string(&self) -> (r: String)
        ensures
            *self == Theme::Light ==> r@ == "light"@,
            *self == Theme::Dark ==> r@ == "dark"@,
    {
        match self {
            Theme::Light => String::from_str("light"),
            Theme::Dark => String::from_str("dark"),
        }
    }
}

} // verus!
