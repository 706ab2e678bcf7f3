//! Verified core of the Wisteria Wayland shell: the workspace model kept in step
//! with the Hyprland compositor, the MPRIS track model, and the text handling
//! both rely on.
pub mod text;
pub mod compositor;
pub mod hyprland;
pub mod mpris;
pub mod widgets;
