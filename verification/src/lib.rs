//! Model discovery for the Kinetix provider plugins: which models a provider lists, what is
//! known of each, and what a provider's answer comes to when it is not a usable list.

pub mod json;
pub mod text;
pub mod model;
pub mod order;
pub mod response;
pub mod catalog;
pub mod opencode_free;
pub mod b_ai;
pub mod ai_studio;
