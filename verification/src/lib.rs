//! Trimming of weighted sequences to a budget, with a continuation marker
//! wherever something had to be cut.

/// Limiting of arbitrary sequences.
///
/// See [`Limited`][self::iter::Limited] for more information.
pub mod iter;

/// Limiting of strings.
///
/// See [`Limited`][self::str::Limited] for more information.
pub mod str;
