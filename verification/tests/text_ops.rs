use jstring::CharIs;
use jstring::JavaString;

fn s(x: &str) -> String {
    x.to_string()
}

#[test]
fn length_counts_character_units() {
    assert_eq!(s("hello").length(), 5);
    assert_eq!(s("").length(), 0);
    assert_eq!(s("héllo").length(), 5);
}

#[test]
fn char_at_in_range() {
    assert_eq!(s("hello").char_at(0), Some('h'));
    assert_eq!(s("hello").char_at(4), Some('o'));
}

#[test]
fn char_at_out_of_range_is_absent() {
    assert_eq!(s("hello").char_at(5), None);
    assert_eq!(s("hello").char_at(100), None);
    assert_eq!(s("").char_at(0), None);
}

#[test]
fn code_point_at_truncates_to_one_byte() {
    assert_eq!(s("A").code_point_at(0), 65);
    assert_eq!(s("é").code_point_at(0), 0xE9);
    // U+0100 truncates to its low byte
    assert_eq!(s("\u{0100}").code_point_at(0), 0);
    assert_eq!(s("x").code_point_at(3), 0);
}

#[test]
fn code_point_count_on_valid_and_invalid_ranges() {
    assert_eq!(s("hello").code_point_count(1, 3), Some(2));
    assert_eq!(s("hello").code_point_count(0, 5), Some(5));
    assert_eq!(s("hello").code_point_count(0, 6), None);
    assert_eq!(s("hello").code_point_count(4, 2), None);
}

#[test]
fn is_blank_on_whitespace_only() {
    assert!(s("").is_blank());
    assert!(s(" \t\r\n").is_blank());
    assert!(s("\u{2003}\u{00A0}").is_blank());
    assert!(!s(" x ").is_blank());
}

#[test]
fn equals_and_compare_to_on_self() {
    let a = s("some text");
    assert!(a.equals(&a));
    assert_eq!(a.compare_to(&a), 0);
}

#[test]
fn compare_to_collapses_to_sign() {
    assert_eq!(s("a").compare_to(&s("b")), -1);
    assert_eq!(s("b").compare_to(&s("a")), 1);
    assert_eq!(s("abc").compare_to(&s("abc")), 0);
    assert_eq!(s("ab").compare_to(&s("abc")), -1);
    assert_eq!(s("abc").compare_to(&s("ab")), 1);
    assert_eq!(s("").compare_to(&s("a")), -1);
}

#[test]
fn hash_code_matches_polynomial_formula() {
    assert_eq!(s("").hash_code(), 0);
    assert_eq!(s("a").hash_code(), 97);
    assert_eq!(s("ab").hash_code(), 97 * 31 + 98);
    assert_eq!(s("ab").hash_code(), 3105);
}

#[test]
fn hash_code_is_stable_across_calls() {
    let v = s("stable value");
    assert_eq!(v.hash_code(), v.hash_code());
}

#[test]
fn equals_ignore_case_folds_both_sides() {
    assert!(s("Hello").equals_ignore_case(&s("hELLo")));
    assert!(!s("Hello").equals_ignore_case(&s("Hells")));
    assert!(!s("Hello").equals_ignore_case(&s("Hell")));
}

#[test]
fn compare_to_ignore_case_folds_both_sides() {
    assert_eq!(s("HELLO").compare_to_ignore_case(&s("hello")), 0);
    assert_eq!(s("A").compare_to_ignore_case(&s("b")), -1);
    assert_eq!(s("B").compare_to_ignore_case(&s("a")), 1);
}

#[test]
fn region_matches_case_folded_and_exact() {
    assert_eq!(
        s("Hello").region_matches(0, &s("hello"), 0, 5, true),
        Ok(true)
    );
    assert_eq!(
        s("Hello").region_matches(0, &s("hello"), 0, 5, false),
        Ok(false)
    );
    assert_eq!(
        s("abcde").region_matches(1, &s("xbcdy"), 1, 3, false),
        Ok(true)
    );
}

#[test]
fn region_matches_out_of_range_is_boundary_failure() {
    let r = s("abc").region_matches(2, &s("abc"), 0, 2, false);
    assert!(r.is_err());
    assert_eq!(r.unwrap_err().index, 2);
    let r2 = s("abc").region_matches(0, &s("abc"), 2, 2, false);
    assert_eq!(r2.unwrap_err().index, 2);
}

#[test]
fn index_of_finds_first_match() {
    assert_eq!(s("hello").index_of(CharIs { target: 'l' }), Some(2));
    assert_eq!(s("hello").index_of(CharIs { target: 'z' }), None);
}

#[test]
fn last_index_of_finds_last_match() {
    assert_eq!(s("hello").last_index_of(CharIs { target: 'l' }), Some(3));
    assert_eq!(s("hello").last_index_of(CharIs { target: 'z' }), None);
}

#[test]
fn index_of_between_returns_absolute_index() {
    assert_eq!(
        s("hello").index_of_between(CharIs { target: 'l' }, 3, 5),
        Ok(Some(3))
    );
    assert_eq!(
        s("hello").index_of_between(CharIs { target: 'h' }, 1, 5),
        Ok(None)
    );
    let e = s("hello")
        .index_of_between(CharIs { target: 'l' }, 0, 9)
        .unwrap_err();
    assert_eq!(e.index, 9);
    let e2 = s("hello")
        .index_of_between(CharIs { target: 'l' }, 4, 2)
        .unwrap_err();
    assert_eq!(e2.index, 4);
}

#[test]
fn last_index_from_searches_at_or_after() {
    assert_eq!(
        s("hello").last_index_from(CharIs { target: 'l' }, 0),
        Ok(Some(3))
    );
    assert_eq!(
        s("hello").last_index_from(CharIs { target: 'l' }, 4),
        Ok(None)
    );
    let e = s("hello")
        .last_index_from(CharIs { target: 'l' }, 6)
        .unwrap_err();
    assert_eq!(e.index, 6);
}

#[test]
fn substring_extracts_half_open_range() {
    assert_eq!(s("hello").substring(1, 3), Ok(s("el")));
    assert_eq!(s("hello").substring(0, 5), Ok(s("hello")));
    assert_eq!(s("hello").substring(2, 2), Ok(s("")));
}

#[test]
fn substring_length_is_range_width() {
    let t = s("hello").substring(1, 4).unwrap();
    assert_eq!(t.length(), 3);
}

#[test]
fn substring_boundary_failures_carry_offending_index() {
    let e = s("hello").substring(0, 9).unwrap_err();
    assert_eq!(e.index, 9);
    let e2 = s("hello").substring(3, 1).unwrap_err();
    assert_eq!(e2.index, 3);
}

#[test]
fn subsequence_returns_characters() {
    assert_eq!(s("hello").subsequence(1, 3), Ok(vec!['e', 'l']));
    assert!(s("hello").subsequence(1, 9).is_err());
}

#[test]
fn concat_appends_without_mutating() {
    let a = s("foo");
    let b = s("bar");
    assert_eq!(a.concat(&b), s("foobar"));
    assert_eq!(a, s("foo"));
    assert_eq!(b, s("bar"));
}

#[test]
fn substring_of_concat_round_trips() {
    let a = s("left part");
    let b = s("right part");
    let joined = a.concat(&b);
    assert_eq!(joined.substring(0, a.length()), Ok(a.clone()));
}

#[test]
fn get_chars_copies_into_destination() {
    let mut dest = vec!['.'; 6];
    let r = s("hello").get_chars(1, 4, &mut dest, 2);
    assert_eq!(r, Ok(()));
    assert_eq!(dest, vec!['.', '.', 'e', 'l', 'l', '.']);
}

#[test]
fn get_chars_rejects_before_writing() {
    let mut dest = vec!['.'; 2];
    let e = s("hello").get_chars(1, 4, &mut dest, 0).unwrap_err();
    assert_eq!(e.index, 0);
    assert_eq!(dest, vec!['.', '.']);
    let e2 = s("hello").get_chars(4, 2, &mut dest, 0).unwrap_err();
    assert_eq!(e2.index, 4);
    let e3 = s("hello").get_chars(2, 9, &mut dest, 0).unwrap_err();
    assert_eq!(e3.index, 9);
}

#[test]
fn split_with_delimiters_keeps_delimiters() {
    let parts = s("a,b,c").split_with_delimiters(CharIs { target: ',' });
    assert_eq!(parts, vec![s("a,"), s("b,"), s("c")]);
}

#[test]
fn split_with_delimiters_edge_shapes() {
    assert_eq!(
        s("a,").split_with_delimiters(CharIs { target: ',' }),
        vec![s("a,")]
    );
    assert_eq!(
        s(",,").split_with_delimiters(CharIs { target: ',' }),
        vec![s(","), s(",")]
    );
    let none: Vec<String> = s("").split_with_delimiters(CharIs { target: ',' });
    assert!(none.is_empty());
    assert_eq!(
        s("abc").split_with_delimiters(CharIs { target: ',' }),
        vec![s("abc")]
    );
}

#[test]
fn replace_all_replaces_every_match() {
    assert_eq!(
        s("banana").replace_all(CharIs { target: 'a' }, &s("o")),
        s("bonono")
    );
    assert_eq!(
        s("banana").replace_all(CharIs { target: 'a' }, &s("xy")),
        s("bxynxynxy")
    );
    assert_eq!(
        s("banana").replace_all(CharIs { target: 'z' }, &s("o")),
        s("banana")
    );
}

#[test]
fn replace_first_replaces_only_first_match() {
    assert_eq!(
        s("banana").replace_first(CharIs { target: 'a' }, &s("o")),
        s("bonana")
    );
    assert_eq!(
        s("banana").replace_first(CharIs { target: 'z' }, &s("o")),
        s("banana")
    );
}

#[test]
fn indent_prefixes_every_line() {
    assert_eq!(s("x\ny").indent(2), s("  x\n  y\n"));
}

#[test]
fn indent_normalizes_line_breaks() {
    assert_eq!(s("x\ny\n").indent(2), s("  x\n  y\n"));
    assert_eq!(s("x\r\ny").indent(1), s(" x\n y\n"));
    assert_eq!(s("").indent(2), s(""));
    assert_eq!(s("x").indent(0), s("x\n"));
}

#[test]
fn transform_applies_caller_function() {
    assert_eq!(s("hello").transform(|t: String| t.len()), 5);
    let copy = s("hello").transform(|t: String| t);
    assert_eq!(copy, s("hello"));
}

#[test]
fn value_of_stringifies() {
    assert_eq!(<String as JavaString>::value_of(42), s("42"));
    assert_eq!(<String as JavaString>::value_of(true), s("true"));
}

#[test]
fn compact_strings_flag_is_set() {
    assert!(<String as JavaString>::COMPACT_STRINGS);
}
