//! The texts that mark a cut in a string.

use vstd::prelude::*;

verus! {

/// An ellipsis.
///
/// This can be implemented by a struct to provide an ellipsis, for use in
/// trimming strings.
pub trait Ellipsis {
    /// The ellipsis: what `ellipsis` returns.
    ///
    /// An ellipsis says here what its text is. Of one that does not, nothing
    /// is known.
    open spec fn spec_ellipsis() -> &'static str {
        arbitrary()
    }

    /// Returns the ellipsis as a static string.
    fn ellipsis() -> (text: &'static str)
        ensures
            text == Self::spec_ellipsis(),
    ;
}

/// An ASCII ellipsis: three full stops.
pub struct Ascii;

/// A more verbose ellipsis.
pub struct Contd;

/// A horizontal ellipsis: one character.
pub struct Horizontal;

/// No ellipsis at all, for a cut that leaves no mark.
pub struct Empty;

impl Ellipsis for Ascii {
    open spec fn spec_ellipsis() -> &'static str {
        "..."
    }

    fn ellipsis() -> (text: &'static str)
        ensures
            text@ == seq!['.', '.', '.'],
    {
        proof {
            reveal_strlit("...");
        }
        "..."
    }
}

impl Ellipsis for Contd {
    open spec fn spec_ellipsis() -> &'static str {
        "... (contd.)"
    }

    fn ellipsis() -> (text: &'static str)
        ensures
            text@ == seq!['.', '.', '.', ' ', '(', 'c', 'o', 'n', 't', 'd', '.', ')'],
    {
        proof {
            reveal_strlit("... (contd.)");
        }
        "... (contd.)"
    }
}

impl Ellipsis for Horizontal {
    open spec fn spec_ellipsis() -> &'static str {
        "\u{2026}"
    }

    fn ellipsis() -> (text: &'static str)
        ensures
            text@ == seq!['\u{2026}'],
    {
        proof {
            reveal_strlit("\u{2026}");
        }
        "\u{2026}"
    }
}

impl Ellipsis for Empty {
    open spec fn spec_ellipsis() -> &'static str {
        ""
    }

    fn ellipsis() -> (text: &'static str)
        ensures
            text@ == Seq::<char>::empty(),
    {
        proof {
            reveal_strlit("");
        }
        ""
    }
}

} // verus!
