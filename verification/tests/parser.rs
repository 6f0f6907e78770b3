//! The signature mini-language parser: round-trips, comment stripping, both
//! table spellings, and every parse failure.

use rtxlauncher_core::script::{
    find_table, parse_patches_from_python, strip_comments, ParseError, ScanError,
};
use rtxlauncher_core::text::to_chars;

#[test]
fn parsing_round_trip_reproduces_every_field() {
    let script = "
# patch definitions
patches32 = {
    'bin/engine.dll': [ [('AABB??CC', 4, 'DD'), 'EEFF'] ],
    'bin/client.dll': [ [[('11', -2), ('22', 3, '44')], '33'], [('55', 0)] ],
}
patches64 = {
    'bin/win64/engine.dll': [ [('0102', 1), 'FF'] ],
}
";
    let (t32, t64) = parse_patches_from_python(script).unwrap();
    assert_eq!(t32.len(), 2);
    assert_eq!(t64.len(), 1);

    let engine = t32.get("bin/engine.dll").unwrap();
    assert_eq!(engine.len(), 1);
    assert_eq!(engine[0].patterns.len(), 1);
    assert_eq!(engine[0].patterns[0].hex_mask, "AABB??CC");
    assert_eq!(engine[0].patterns[0].offset, 4);
    assert_eq!(engine[0].patterns[0].override_hex, Some("DD".to_string()));
    assert_eq!(engine[0].default_replacement, Some("EEFF".to_string()));

    let client = t32.get("bin/client.dll").unwrap();
    assert_eq!(client.len(), 2);
    assert_eq!(client[0].patterns.len(), 2);
    assert_eq!(client[0].patterns[0].hex_mask, "11");
    assert_eq!(client[0].patterns[0].offset, -2);
    assert_eq!(client[0].patterns[0].override_hex, None);
    assert_eq!(client[0].patterns[1].hex_mask, "22");
    assert_eq!(client[0].patterns[1].offset, 3);
    assert_eq!(client[0].patterns[1].override_hex, Some("44".to_string()));
    assert_eq!(client[0].default_replacement, Some("33".to_string()));
    assert_eq!(client[1].patterns[0].hex_mask, "55");
    assert_eq!(client[1].default_replacement, None);

    let engine64 = t64.get("bin/win64/engine.dll").unwrap();
    assert_eq!(engine64[0].patterns[0].hex_mask, "0102");
    assert_eq!(engine64[0].patterns[0].offset, 1);

    assert!(t32.get("bin/other.dll").is_none());
}

#[test]
fn strip_comments_cuts_to_end_of_line() {
    let out = strip_comments("a = 1 # comment\nb = 2");
    assert_eq!(out, "a = 1 \nb = 2");
    assert_eq!(strip_comments("# all comment"), "");
    // lines are rejoined with single newlines: a trailing terminator is
    // dropped, and a carriage return goes with its newline
    assert_eq!(strip_comments("a\n"), "a");
    assert_eq!(strip_comments("x#c\r\ny"), "x\ny");
    assert_eq!(strip_comments(""), "");
    assert_eq!(strip_comments("a\n\nb"), "a\n\nb");
}

#[test]
fn alternate_spellings_and_missing_tables() {
    let (t32, t64) = parse_patches_from_python("patches_32={'k': [ [('AA', 0), 'BB'] ]}").unwrap();
    assert_eq!(t32.len(), 1);
    assert_eq!(t64.len(), 0);
    assert_eq!(t32.get("k").unwrap()[0].patterns[0].hex_mask, "AA");

    let (e32, e64) = parse_patches_from_python("nothing here").unwrap();
    assert_eq!(e32.len(), 0);
    assert_eq!(e64.len(), 0);
}

#[test]
fn duplicate_keys_keep_the_last_binding() {
    let script = "patches32 = { 'k': [ [('AA', 0), '11'] ], 'k': [ [('BB', 0), '22'] ] }";
    let (t32, _) = parse_patches_from_python(script).unwrap();
    assert_eq!(t32.len(), 1);
    assert_eq!(t32.get("k").unwrap()[0].patterns[0].hex_mask, "BB");
}

#[test]
fn malformed_offset_parses_as_zero() {
    let script = "patches32 = { 'k': [ [('AA', xyz), '11'] ] }";
    let (t32, _) = parse_patches_from_python(script).unwrap();
    assert_eq!(t32.get("k").unwrap()[0].patterns[0].offset, 0);
}

#[test]
fn find_table_reports_missing_and_unmatched() {
    let text = to_chars("patches32 = { 'a': [] ");
    assert_eq!(find_table(&text, "patches32"), Err(ScanError::UnmatchedBraces));
    assert_eq!(find_table(&text, "patches64"), Err(ScanError::NotFound));
    let ok = to_chars("x patches32 = {'a': 1} y");
    assert_eq!(
        find_table(&ok, "patches32").map(|v| v.into_iter().collect::<String>()),
        Ok("{'a': 1}".to_string()),
    );
}

#[test]
fn each_parse_failure_is_reported() {
    let cases: Vec<(&str, ParseError)> = vec![
        ("patches32 = {", ParseError::UnmatchedBraces),
        ("patches32 = { 'ok': [] } patches64 = {", ParseError::UnmatchedBraces),
        ("patches32 = { x }", ParseError::ExpectedQuotedKey),
        ("patches32 = { 'k' 5 }", ParseError::ExpectedBracket),
        ("patches32 = { 'k': [ [] ] }", ParseError::EmptyEntry),
        ("patches32 = { 'k': [ [5] ] }", ParseError::BadEntryShape),
        ("patches32 = { 'k': [ [[x]] ] }", ParseError::ExpectedTuple),
        ("patches32 = { 'k': [ [('AA')] ] }", ParseError::TupleTooShort),
    ];
    for (script, expected) in cases {
        assert_eq!(parse_patches_from_python(script).err(), Some(expected));
    }
    assert_eq!(ParseError::UnmatchedBraces.describe(), "unmatched braces");
    assert_eq!(ParseError::ExpectedQuotedKey.describe(), "expected quoted key");
    assert_eq!(ParseError::ExpectedBracket.describe(), "expected [");
    assert_eq!(ParseError::EmptyEntry.describe(), "empty entry");
    assert_eq!(ParseError::BadEntryShape.describe(), "entry must start with [ or (");
    assert_eq!(ParseError::ExpectedTuple.describe(), "expected tuple");
    assert_eq!(ParseError::TupleTooShort.describe(), "tuple too short");
}

#[test]
fn nested_brackets_split_correctly() {
    // commas inside tuples and inner lists must not split entries
    let script = "patches32 = { 'k': [ [[('AA', 1), ('BB', 2)], 'CC'], [('DD', 3)] ] }";
    let (t32, _) = parse_patches_from_python(script).unwrap();
    let sets = t32.get("k").unwrap();
    assert_eq!(sets.len(), 2);
    assert_eq!(sets[0].patterns.len(), 2);
    assert_eq!(sets[1].patterns.len(), 1);
}
