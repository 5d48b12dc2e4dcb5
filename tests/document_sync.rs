use huml_lsp::lsp::common::text_document::{Position, Range, TextDocumentItemOwned};
use huml_lsp::lsp::error::EditError;
use huml_lsp::lsp::server::state::LineSeperatedDocument;

const TEST_TEXT: &str = r#"Hello, I'm developer.
I like to code.
i work at Torchwood."#;

fn build_document() -> TextDocumentItemOwned {
    TextDocumentItemOwned::new(
        "uri://file".to_string(),
        "huml".to_string(),
        1,
        TEST_TEXT.to_string(),
    )
}

fn generate_update(substr: &str, replace_with: &str) -> (Range, String) {
    let test_text = TEST_TEXT.to_string();
    let substr_lines: Vec<_> = substr.lines().collect();

    let first_line = substr_lines
        .first()
        .expect("substr should have atleast one line");
    let last_line = substr_lines
        .last()
        .expect("substr should have atleast one line");

    let start = test_text
        .lines()
        .enumerate()
        .find_map(|(line, text)| {
            text.find(first_line)
                .map(|character| Position::new(line, character))
        })
        .expect("Start position should be valid");

    let end = test_text
        .lines()
        .enumerate()
        .find_map(|(line, text)| {
            text.find(last_line)
                .map(|character| Position::new(line, character + last_line.len()))
        })
        .expect("Start position should be valid");

    let updation_range = Range::new(start, end);
    let updated_string = test_text.trim().replace(substr, replace_with);

    (updation_range, updated_string)
}

fn generate_insertion_before(substr: &str, replace_with: &str) -> (Range, String) {
    let mut test_text = TEST_TEXT.to_string();
    let first_substr_line = substr
        .lines()
        .next()
        .expect("Atleast one line should be present");

    let found_at = test_text
        .find(substr)
        .expect("Substr should be part of the TEST_TEXT");

    let ins_position = test_text
        .lines()
        .enumerate()
        .find_map(|(line, text)| {
            text.find(first_substr_line)
                .map(|character| Position::new(line, character))
        })
        .expect("Start position should be valid");

    let ins_range = Range::new(ins_position, ins_position);
    test_text.insert_str(found_at, replace_with);

    (ins_range, test_text)
}

fn generate_insertion_after(substr: &str, replace_with: &str) -> (Range, String) {
    let mut test_text = TEST_TEXT.to_string();
    let last_substr_line = substr
        .lines()
        .rev()
        .next()
        .expect("Atleast one line should be present");

    let found_at = test_text
        .find(substr)
        .expect("Substr should be part of the TEST_TEXT");

    let ins_position = test_text
        .lines()
        .enumerate()
        .find_map(|(line, text)| {
            text.find(last_substr_line)
                .map(|character| Position::new(line, character + last_substr_line.len()))
        })
        .expect("Start position should be valid");

    let ins_range = Range::new(ins_position, ins_position);
    test_text.insert_str(found_at + substr.len(), replace_with);

    (ins_range, test_text)
}

fn generate_sentence_boundary_change(_: &str, replace_with: &str) -> (Range, String) {
    let text_clone = TEST_TEXT;
    let lines: Vec<_> = text_clone.lines().collect();
    let first = lines.first().unwrap();
    let boundary_range = Range::new(Position::new(0, first.len()), Position::new(1, 0));

    let last_few_chars = String::from(&first[first.len() - 4..]);
    let replace_pattern = format!("{last_few_chars}\n");
    let replace_with_pattern = format!("{last_few_chars}{replace_with}");
    (
        boundary_range,
        text_clone.replace(&replace_pattern, &replace_with_pattern),
    )
}

fn handle_test(
    substr: &str,
    replace_with: &str,
    generate_op: fn(&str, &str) -> (Range, String),
) -> (String, String) {
    let document = build_document();
    let line_seperated_document = LineSeperatedDocument::new(document);
    let (range, expected_text) = generate_op(substr, replace_with);
    let diff = [(range, replace_with)];
    let updated_text = line_seperated_document
        .apply_diff_to_document(&diff)
        .expect("the edit fits the document");
    (updated_text, expected_text)
}

fn handle_insert_before_test(substr: &str, replace_with: &str) -> (String, String) {
    handle_test(substr, replace_with, generate_insertion_before)
}

fn handle_insert_after_test(substr: &str, replace_with: &str) -> (String, String) {
    handle_test(substr, replace_with, generate_insertion_after)
}

fn handle_update_test(substr: &str, replace_with: &str) -> (String, String) {
    handle_test(substr, replace_with, generate_update)
}

#[test]
fn should_update_single_word() {
    let (updated_text, expected_text) = handle_update_test("I'm", "Myself");
    assert_eq!(updated_text, expected_text);
}

#[test]
fn should_update_first_word() {
    let (updated_text, expected_text) = handle_update_test("Hello", "Hi");
    assert_eq!(updated_text, expected_text);
}

#[test]
fn should_update_last_word() {
    let (updated_text, expected_text) = handle_update_test("Torchwood.", "Regolith.");
    assert_eq!(updated_text, expected_text);
}

#[test]
fn should_update_first_line() {
    let (updated_text, expected_text) =
        handle_update_test("Hello, I'm developer.", "Hi, I'm Joe.");
    assert_eq!(updated_text, expected_text);
}

#[test]
fn should_update_middle_line() {
    let (updated_text, expected_text) = handle_update_test("I like to code.", "I like coding");
    assert_eq!(updated_text, expected_text);
}

#[test]
fn should_update_last_line() {
    let (updated_text, expected_text) =
        handle_update_test("i work at Torchwood.", "I maintain HUML-LSP.");
    assert_eq!(updated_text, expected_text);
}

#[test]
fn should_update_multiple_lines() {
    let (updated_text, expected_text) =
        handle_update_test("Hello, I'm developer.\nI like to code.", "Hello World");
    assert_eq!(updated_text, expected_text);
}

#[test]
fn should_update_entire_text() {
    let (updated_text, expected_text) = handle_update_test(TEST_TEXT, "Hello World");
    assert_eq!(updated_text, expected_text);
}

#[test]
fn should_insert_before_first_line() {
    let (after_insert, expected_text) = handle_insert_before_test("Hello", "Hello World");
    assert_eq!(after_insert, expected_text);
}

#[test]
fn should_insert_after_last_char() {
    let (after_insert, expected_text) = handle_insert_after_test("code.", " when I'm bored.");
    assert_eq!(after_insert, expected_text);
}

#[test]
fn should_update_sentence_boundary() {
    let (updated_text, expected_text) =
        handle_test(TEST_TEXT, "Hello World", generate_sentence_boundary_change);
    assert_eq!(updated_text, expected_text);
}

#[test]
fn should_delete_sentence_boundary() {
    let (updated_text, expected_text) =
        handle_test(TEST_TEXT, "", generate_sentence_boundary_change);

    assert_eq!(updated_text, expected_text);
}

#[test]
fn should_delete_first_word() {
    let (updated_text, expected_text) =
        handle_test(TEST_TEXT, "", generate_sentence_boundary_change);

    assert_eq!(updated_text, expected_text);
}

fn document(text: &str) -> LineSeperatedDocument {
    LineSeperatedDocument::new(TextDocumentItemOwned::new(
        "file:///doc.huml".to_string(),
        "huml".to_string(),
        1,
        text.to_string(),
    ))
}

fn range(l0: usize, c0: usize, l1: usize, c1: usize) -> Range {
    Range::new(Position::new(l0, c0), Position::new(l1, c1))
}

#[test]
fn replacing_a_word_matches_plain_substitution() {
    let doc = document(TEST_TEXT);
    let updated = doc
        .apply_diff_to_document(&[(range(2, 10, 2, 20), "Regolith.")])
        .unwrap();
    assert_eq!(updated, TEST_TEXT.replace("Torchwood.", "Regolith."));
    assert_eq!(updated, "Hello, I'm developer.\nI like to code.\ni work at Regolith.");
}

#[test]
fn insertion_at_origin_keeps_later_lines() {
    let doc = document(TEST_TEXT);
    let updated = doc
        .apply_diff_to_document(&[(range(0, 0, 0, 0), "Hi ")])
        .unwrap();
    assert_eq!(updated, "Hi Hello, I'm developer.\nI like to code.\ni work at Torchwood.");
    assert_eq!(updated.lines().skip(1).collect::<Vec<_>>(), TEST_TEXT.lines().skip(1).collect::<Vec<_>>());
}

#[test]
fn full_replacement_equals_whole_range_edit() {
    let doc = document(TEST_TEXT);
    let full = doc.apply_changes(&[(None, "Brand new\ntext")]).unwrap();
    let ranged = doc
        .apply_changes(&[(Some(range(0, 0, 2, 20)), "Brand new\ntext")])
        .unwrap();
    assert_eq!(full, "Brand new\ntext");
    assert_eq!(full, ranged);
}

#[test]
fn edits_in_one_call_equal_edits_in_sequence() {
    let doc = document(TEST_TEXT);
    let both = doc
        .apply_diff_to_document(&[(range(0, 0, 0, 5), "Howdy"), (range(0, 5, 0, 5), " there")])
        .unwrap();
    let first = doc.apply_diff_to_document(&[(range(0, 0, 0, 5), "Howdy")]).unwrap();
    let second = document(&first)
        .apply_diff_to_document(&[(range(0, 5, 0, 5), " there")])
        .unwrap();
    assert_eq!(both, second);
    assert_eq!(both, "Howdy there, I'm developer.\nI like to code.\ni work at Torchwood.");
}

#[test]
fn later_edits_see_the_text_left_by_earlier_ones() {
    let doc = document("abc");
    let updated = doc
        .apply_diff_to_document(&[(range(0, 1, 0, 1), "\n"), (range(1, 0, 1, 2), "XY")])
        .unwrap();
    assert_eq!(updated, "a\nXY");
}

#[test]
fn reapplying_an_edit_at_its_new_positions_is_stable() {
    let doc = document(TEST_TEXT);
    let once = doc
        .apply_diff_to_document(&[(range(1, 2, 1, 6), "love")])
        .unwrap();
    let twice = document(&once)
        .apply_diff_to_document(&[(range(1, 2, 1, 6), "love")])
        .unwrap();
    assert_eq!(once, "Hello, I'm developer.\nI love to code.\ni work at Torchwood.");
    assert_eq!(twice, once);
}

#[test]
fn no_edits_leave_the_text_alone() {
    let doc = document(TEST_TEXT);
    assert_eq!(doc.apply_diff_to_document(&[]).unwrap(), TEST_TEXT);
}

#[test]
fn replacement_with_newlines_adds_lines() {
    let doc = document("one\ntwo");
    let updated = doc
        .apply_diff_to_document(&[(range(0, 3, 0, 3), "\nmiddle"), (range(2, 0, 2, 3), "2")])
        .unwrap();
    assert_eq!(updated, "one\nmiddle\n2");
}

#[test]
fn empty_document_takes_an_insertion() {
    let doc = document("");
    let updated = doc.apply_diff_to_document(&[(range(0, 0, 0, 0), "x")]).unwrap();
    assert_eq!(updated, "x");
}

#[test]
fn trailing_newline_opens_a_last_empty_line() {
    let doc = document("a\n");
    let updated = doc.apply_diff_to_document(&[(range(1, 0, 1, 0), "b")]).unwrap();
    assert_eq!(updated, "a\nb");
}

#[test]
fn character_offsets_count_unicode_scalars() {
    let doc = document("h\u{e9}llo w\u{f6}rld");
    let updated = doc.apply_diff_to_document(&[(range(0, 2, 0, 5), "y")]).unwrap();
    assert_eq!(updated, "h\u{e9}y w\u{f6}rld");
}

#[test]
fn line_past_the_end_is_out_of_range() {
    let doc = document(TEST_TEXT);
    let err = doc.apply_diff_to_document(&[(range(3, 0, 3, 0), "x")]).unwrap_err();
    assert_eq!(err, EditError::PositionOutOfRange);
}

#[test]
fn character_past_the_line_end_is_out_of_range() {
    let doc = document(TEST_TEXT);
    let err = doc.apply_diff_to_document(&[(range(1, 16, 1, 16), "x")]).unwrap_err();
    assert_eq!(err, EditError::PositionOutOfRange);
}

#[test]
fn reversed_range_is_refused() {
    let doc = document(TEST_TEXT);
    let err = doc.apply_diff_to_document(&[(range(1, 4, 1, 2), "x")]).unwrap_err();
    assert_eq!(err, EditError::ReversedRange);
}

#[test]
fn a_failing_edit_stops_the_rest() {
    let doc = document("abc");
    let err = doc
        .apply_diff_to_document(&[(range(0, 0, 0, 1), "z"), (range(5, 0, 5, 0), "y")])
        .unwrap_err();
    assert_eq!(err, EditError::PositionOutOfRange);
}

#[test]
fn the_document_keeps_its_metadata() {
    let doc = document("abc");
    let item = doc.into_full_document();
    assert_eq!(item.as_parts(), ("file:///doc.huml", "huml", 1, "abc"));
}
