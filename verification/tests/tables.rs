use raytracer::coefficients::{
    coefficient_entries, is_white_space, remove_all_exec, scale_fields, table_file_name, Span,
};

fn chars(s: &str) -> Vec<char> {
    s.chars().collect()
}

fn text(s: &[char], span: Span) -> String {
    s[span.start..span.end].iter().collect()
}

const TABLE: &str = "// rgb to spectrum\nconst int res = 64;\n 0.000000, 0.100000, 1e-3, {x},\n{ 1.0, -2.5e-3,  3, }, {1,2,3,} { 4.5,\t6.0,\n7.0,\n}";

#[test]
fn scale_line_fields() {
    let s = chars(TABLE);
    let fields = scale_fields(&s).expect("third line");
    let fields: Vec<String> = fields.into_iter().map(|f| text(&s, f)).collect();
    assert_eq!(fields, vec!["0.000000", "0.100000", "1e-3"]);
}

#[test]
fn scale_needs_a_third_line() {
    assert!(scale_fields(&chars("one\ntwo")).is_none());
    let empty_third = scale_fields(&chars("one\ntwo\n")).expect("third line");
    assert!(empty_third.is_empty());
}

#[test]
fn entries_are_found_left_to_right() {
    let s = chars(TABLE);
    let entries = coefficient_entries(&s);
    let found: Vec<(String, String, String)> = entries
        .iter()
        .map(|e| (text(&s, e.x), text(&s, e.y), text(&s, e.z)))
        .collect();
    assert_eq!(
        found,
        vec![
            ("1.0".to_string(), "-2.5e-3".to_string(), "3".to_string()),
            ("4.5".to_string(), "6.0".to_string(), "7.0".to_string()),
        ]
    );
}

#[test]
fn entries_need_white_space_and_trailing_comma() {
    assert!(coefficient_entries(&chars("{1,2,3,}")).is_empty());
    assert!(coefficient_entries(&chars("{ 1, 2, 3 }")).is_empty());
    assert_eq!(coefficient_entries(&chars("{\u{a0}1,\u{2003}2, 3,\n}")).len(), 1);
}

#[test]
fn white_space_like_char_is_whitespace() {
    for c in ['\t', '\n', ' ', '\u{85}', '\u{a0}', '\u{2007}', '\u{3000}', 'a', '0', '\u{200b}'] {
        assert_eq!(is_white_space(c), c.is_whitespace(), "{:?}", c);
    }
}

#[test]
fn table_names() {
    let name: String = table_file_name(&chars("rgbspectrum_srgb.c")).unwrap().into_iter().collect();
    assert_eq!(name, "srgb.bin");
    assert!(table_file_name(&chars("rgbspectrum_srgb.h")).is_none());
    let odd: String = table_file_name(&chars("a.cb.c")).unwrap().into_iter().collect();
    assert_eq!(odd, "a.cb.bin".replace(".c", "").replace(".bin", "") + ".bin");
}

#[test]
fn remove_all_matches_str_replace() {
    for (s, p) in [("aaa", "aa"), ("abcabc", "bc"), ("", "x"), ("xyz", "xyz"), ("rgbspectrum_aces", "rgbspectrum_")] {
        let r: String = remove_all_exec(&chars(s), &chars(p)).into_iter().collect();
        assert_eq!(r, s.replace(p, ""));
    }
}

#[test]
fn entries_do_not_overlap() {
    let s = chars("{ 1, 2, 3, }{ 4, 5, 6, }  { 7, 8, 9, }");
    let entries = coefficient_entries(&s);
    assert_eq!(entries.len(), 3);
    for pair in entries.windows(2) {
        assert!(pair[0].z.end < pair[1].x.start);
    }
    for e in &entries {
        assert!(e.x.start < e.x.end && e.x.end < e.y.start && e.y.end < e.z.start);
    }
}
