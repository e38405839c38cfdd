//! Controls, their styles, containers and layout strategies.
use vstd::prelude::*;

pub mod layout;
pub mod loader;
pub mod styles;
pub mod ui_button;
pub mod ui_container;
pub mod ui_ctrl;
pub mod ui_text;

pub use layout::{Layout, LayoutHorizontal, LayoutStrategy, LayoutTable, LayoutVertical, TLayout};
pub use ui_button::Button;
pub use ui_container::Container;
pub use ui_ctrl::{Control, Ctrl, TCtrl};
pub use ui_text::Text;

verus! {

/// The concrete kind of a control.
#[derive(Clone, Copy, Debug, PartialEq, Eq, Structural)]
pub enum ECtrlType {
    Unknow,
    BaseCtrl,
    Container,
    Text,
    Button,
}

/// The interaction state of a control; it selects the style in use.
#[derive(Clone, Copy, Debug, PartialEq, Eq, Structural)]
pub enum ECtrlStatus {
    Default,
    Hover,
    Press,
    Disable,
}

impl Default for ECtrlStatus {
    fn default() -> (r: ECtrlStatus)
        ensures
            r == ECtrlStatus::Default,
    {
        ECtrlStatus::Default
    }
}

} // verus!
