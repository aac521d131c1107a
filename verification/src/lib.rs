//! Unicode text reading and writing with verified line handling, UTF-8
//! cursors over in-memory text and the decision logic of the charset
//! adapters.
use vstd::prelude::*;

pub mod line_ending;
pub mod line_ending_set;
pub mod utf8_text;
pub mod line_scan;
pub mod text_cursor;
pub mod traits;
pub mod str_text_reader;
pub mod string_text_reader;
pub mod string_text_writer;
pub mod string_char_input;
pub mod io_error;
pub mod limited_append;
pub mod string_output;
pub mod coding_error_policy;
pub mod encoded_text;
pub mod into_inner_error;
pub mod decoded_buffer;
pub mod limited_line;
pub mod reserve;
pub mod string_decode;
pub mod string_encode;
pub mod pending_chars;
pub mod encoder_lifecycle;

pub use line_ending::LineEnding;
pub use line_ending_set::LineEndingSet;
pub use str_text_reader::StrTextReader;
pub use string_text_reader::StringTextReader;
pub use string_text_writer::StringTextWriter;
pub use string_char_input::StringCharInput;
pub use string_output::StringOutput;
pub use coding_error_policy::CodingErrorPolicy;
pub use encoded_text::EncodedTextReader;
pub use into_inner_error::IntoInnerError;
pub use traits::{TextLineRead, TextRead, TextWrite};

verus! {

} // verus!
