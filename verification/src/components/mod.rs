//! Parts of the interface that every page shares. Pages pass content, selection and search
//! state; components own colours, markers, spacing and clipping.

pub mod choice_footer;
pub mod command_palette;
pub mod context_menu;
pub mod skill;
pub mod summary;
