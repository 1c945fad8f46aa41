use vstd::prelude::*;

mod document;
mod editor;
mod markup;
mod render;
mod row;
mod text;

pub use document::Document;
pub use editor::Action;
pub use editor::Editor;
pub use editor::is_control;
pub use editor::Key;
pub use editor::Position;
pub use editor::prompt_step;
pub use editor::Size;
pub use editor::StatusMessage;
pub use markup::Markup;
pub use render::highlight_line;
pub use render::split_tokens;
pub use render::TAB_SIZE;
pub use row::Row;
pub use text::file_extension;
pub use text::usize_to_string;

verus! {

} // verus!
