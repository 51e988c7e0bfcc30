pub mod hid;
pub mod xhci;
