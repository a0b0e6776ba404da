//! Token trees for source text, with a registry of virtual source files that
//! resolves byte spans to lines and columns.

mod display;
mod ident;
mod literal;
mod node;
mod source_map;
mod span;
mod text;
mod token;

pub use display::{close_text, is_joint, open_text, stream_text, tree_text};
pub use ident::{
    ident_start, is_digit, is_ident_continue, is_ident_start, reserved_raw, valid_ident,
    validate_ident, xid_continue, xid_start,
};
pub use literal::{
    byte_escape, debug_escape, escaped_bytes, escaped_str, float_text, hex_digit,
    lemma_byte_string_round_trip, lemma_character_round_trip, lemma_float_round_trip,
    lemma_integer_round_trip, lemma_sign_round_trip, lemma_string_round_trip, reparses, sign_ok,
    signed_repr, starts_negative, unsigned_part,
};
pub use node::NodeType;
pub use source_map::{
    as_ints, get_cursor, lemma_file_of_span, lemma_join_same_file, line_column_in,
    line_starts, lines_wf, parsed_name, placeholder, record_wf, Cursor, FileInfo, FileRecord,
    SourceFile, SourceMap,
};
pub use span::{LineColumn, Span};
pub use text::{digit_char, digits_of, int_text};
pub use token::{
    concat_streams, normalized, pushed_view, Delimiter, Group, Ident, LexError, Literal, Punct,
    Spacing, TokenStream, TokenTree, TreeView,
};
