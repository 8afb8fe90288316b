//! test cases for the string-specific facilities in `shear::str`.

use shear::str::ellipsis::{Ascii, Empty};
use shear::str::Limited;
use tap::Pipe;

/// an input string for use in tests below.
const HELLO: &str = "Ｈｅｌｌｏ, ｗｏｒｌｄ!";

#[test]
fn twenty_five_columns_wide() {
    HELLO
        .trim_to_width::<Ascii>(25)
        //                      "1234567890123456789012345"
        .pipe(|s| assert_eq!(s, "Ｈｅｌｌｏ, ｗｏｒｌｄ!"))
}

#[test]
fn twenty_four_columns_wide() {
    HELLO
        .trim_to_width::<Ascii>(24)
        //                      "123456789012345678901234"
        .pipe(|s| assert_eq!(s, "Ｈｅｌｌｏ, ｗｏｒｌｄ!"))
}

#[test]
fn twenty_three_columns_wide() {
    HELLO
        .trim_to_width::<Ascii>(23)
        //                      "12345678901234567890123"
        .pipe(|s| assert_eq!(s, "Ｈｅｌｌｏ, ｗｏｒｌｄ!"))
}

#[test]
fn twenty_two_columns_wide() {
    HELLO
        .trim_to_width::<Ascii>(22)
        //                      "1234567890123456789012"
        .pipe(|s| assert_eq!(s, "Ｈｅｌｌｏ, ｗｏｒ..."))
}

#[test]
fn thirtheen_columns_wide() {
    HELLO
        .trim_to_width::<Ascii>(13)
        //                      "1234567890123"
        .pipe(|s| assert_eq!(s, "Ｈｅｌｌｏ..."))
}

#[test]
fn twelve_columns_wide() {
    HELLO
        .trim_to_width::<Ascii>(12)
        //                      "12345678901"
        .pipe(|s| assert_eq!(s, "Ｈｅｌｌ..."))
}

#[test]
fn eleven_columns_wide() {
    HELLO
        .trim_to_width::<Ascii>(11)
        //                      "12345678901"
        .pipe(|s| assert_eq!(s, "Ｈｅｌｌ..."))
}

#[test]
fn five_columns_wide() {
    "Ｈｅｌｌｏ, ｗｏｒｌｄ!"
        .trim_to_width::<Ascii>(5)
        //                      "12345"
        .pipe(|s| assert_eq!(s, "Ｈ..."))
}

#[test]
fn four_columns_wide() {
    "Ｈｅｌｌｏ, ｗｏｒｌｄ!"
        .trim_to_width::<Ascii>(4)
        //                      "123"
        .pipe(|s| assert_eq!(s, "..."))
}

#[test]
fn three_columns_wide() {
    "Ｈｅｌｌｏ, ｗｏｒｌｄ!"
        .trim_to_width::<Ascii>(3)
        //                      "123"
        .pipe(|s| assert_eq!(s, "..."))
}

const INPUT: &str = "\
    first\n\
    second\n\
    third\
";

#[test]
fn zero_lines_is_empty() {
    INPUT
        .trim_to_height::<Ascii>(0)
        .pipe(|s| assert!(s.is_empty(), "{s} is not empty"))
}

#[test]
fn one_line_can_be_passed_through() {
    "value"
        .trim_to_height::<Empty>(1)
        .pipe(|s| assert_eq!(s, "value"))
}

#[test]
fn one_line_with_a_trailing_newlines_can_be_passed_through() {
    "value\n"
        .trim_to_height::<Empty>(1)
        .pipe(|s| assert_eq!(s, "value"))
}

#[test]
fn one_line_with_multiple_consecutibe_newlines_can_be_trimmed_to_a_height() {
    "top\n\
     \n\
     \n\
     bottom\n"
        .trim_to_height::<Empty>(4)
        .pipe(|s| {
            assert_eq!(
                s,
                "\
                top\n\
                \n\
                \n\
                bottom"
            )
        })
}

#[test]
fn two_lines_tall() {
    "\
        first\n\
        second\n\
        third\
    "
    .trim_to_height::<Ascii>(2)
    .pipe(|s| {
        assert_eq!(
            s,
            "\
                first\n\
                ...\
            ",
        )
    });
}
