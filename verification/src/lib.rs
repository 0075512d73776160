//! A formatted and aligned table printer.
//!
//! A [`Table`] owns a row of column titles and a growable list of data rows,
//! every row holding exactly one cell per column.  Rendering pads each cell to
//! the width of its column and frames the lines with configurable separator
//! characters.  The rendered text can be sent to any [`Sink`] or collected in
//! a `String`.
//!
//! Widths and padding are measured in characters (Unicode scalar values), not
//! in bytes and not in display columns; a cell whose characters are wider or
//! narrower than one terminal column will still be padded by character count.

pub mod laws;
pub mod render;
pub mod sink;
pub mod table;

pub use render::RenderError;
pub use sink::Sink;
pub use sink::StringWriter;
pub use table::Row;
pub use table::Table;
pub use table::TableError;
