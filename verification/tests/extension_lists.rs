use registration_opencl::extensions::{
    extension_names, extensions_mentioning, has_extension, is_white_space_char,
};

const LIST: &str = "cl_khr_fp64  cl_ext_float_atomics\tcl_khr_int64_base_atomics\ncl_intel_float_atomics_x cl_khr_subgroups ";

#[test]
fn names_are_split_on_white_space() {
    assert_eq!(
        extension_names(LIST),
        vec![
            "cl_khr_fp64",
            "cl_ext_float_atomics",
            "cl_khr_int64_base_atomics",
            "cl_intel_float_atomics_x",
            "cl_khr_subgroups"
        ]
    );
    assert!(extension_names("").is_empty());
    assert!(extension_names(" \t\n ").is_empty());
}

#[test]
fn names_match_split_whitespace() {
    let samples = [
        LIST,
        "a",
        "  a  b ",
        "x\u{a0}y\u{3000}z\u{2028}w",
        "\u{85}lead trail\u{205f}",
        "übung\u{1680}naïve",
    ];
    for s in samples {
        let expected: Vec<String> = s.split_whitespace().map(|w| w.to_string()).collect();
        assert_eq!(extension_names(s), expected);
    }
}

#[test]
fn white_space_agrees_with_char_is_whitespace() {
    for u in 0u32..=0x10ffff {
        if let Some(c) = char::from_u32(u) {
            assert_eq!(is_white_space_char(c), c.is_whitespace(), "{:#x}", u);
        }
    }
}

#[test]
fn has_extension_matches_whole_names_only() {
    assert!(has_extension(LIST, "cl_ext_float_atomics"));
    assert!(has_extension(LIST, "cl_khr_fp64"));
    assert!(!has_extension(LIST, "cl_ext_float"));
    assert!(!has_extension(LIST, "cl_khr_fp16"));
    assert!(!has_extension(LIST, ""));
    assert!(!has_extension(LIST, "cl_khr_fp64 cl_ext_float_atomics"));
    assert!(!has_extension("", "cl_ext_float_atomics"));
}

#[test]
fn mentioning_keeps_names_with_both_words_in_order() {
    assert_eq!(
        extensions_mentioning(LIST, "float", "atomic"),
        vec!["cl_ext_float_atomics", "cl_intel_float_atomics_x"]
    );
    assert_eq!(extensions_mentioning(LIST, "atomic", "int64"), vec!["cl_khr_int64_base_atomics"]);
    assert!(extensions_mentioning(LIST, "float", "fp64").is_empty());
    assert_eq!(extensions_mentioning("a b", "", ""), vec!["a", "b"]);
}
