use lares::model::{Feed, Group};
use lares::table::{decimal, feed_table, group_table, is_plain, is_row_plain, table};

fn s(text: &str) -> String {
    text.to_string()
}

fn feed(id: u32, title: &str, url: &str) -> Feed {
    Feed { id, title: s(title), url: s(url), link: s(url), last_crawl: None }
}

#[test]
fn decimal_writes_numerals_without_leading_zeros() {
    assert_eq!(decimal(0), "0");
    assert_eq!(decimal(7), "7");
    assert_eq!(decimal(10), "10");
    assert_eq!(decimal(409), "409");
    assert_eq!(decimal(1234567890), "1234567890");
    assert_eq!(decimal(u32::MAX), "4294967295");
}

#[test]
fn feed_table_lists_id_name_and_address() {
    let feeds = vec![feed(1, "A", "https://a/feed"), feed(12, "Blog", "https://b/")];
    assert_eq!(
        feed_table(&feeds),
        Some(concat_lines(&[
            " id | name | feed url ",
            "----+------+----------------",
            " 1  | A    | https://a/feed ",
            " 12 | Blog | https://b/ ",
        ]))
    );
}

fn concat_lines(lines: &[&str]) -> String {
    let mut text = String::new();
    for line in lines {
        text.push_str(line);
        text.push('\n');
    }
    text
}

#[test]
fn group_table_lists_id_and_name() {
    assert_eq!(
        group_table(&vec![Group { id: 3, title: s("news") }]),
        Some(concat_lines(&[" id | name ", "----+------", " 3  | news "]))
    );
}

#[test]
fn empty_tables_show_their_titles() {
    assert_eq!(group_table(&vec![]), Some(concat_lines(&[" id | name ", "----+------"])));
    assert_eq!(
        feed_table(&vec![]),
        Some(concat_lines(&[" id | name | feed url ", "----+------+----------"]))
    );
}

#[test]
fn a_text_with_an_escape_character_is_not_plain() {
    assert!(is_plain(&s("")));
    assert!(is_plain(&s("plain text, \u{4f5c}\u{8005} too")));
    assert!(!is_plain(&s("\u{1b}[31mred")));
    assert!(!is_plain(&s("tail\u{1b}")));
    assert!(is_row_plain(&vec![s("a"), s("b")]));
    assert!(!is_row_plain(&vec![s("a"), s("\u{1b}")]));
}

#[test]
fn there_is_no_table_for_a_text_with_an_escape_character() {
    assert_eq!(feed_table(&vec![feed(1, "A", "https://a/"), feed(2, "\u{1b}[B", "https://b/")]), None);
    assert_eq!(feed_table(&vec![feed(1, "A", "https://a/\u{1b}[")]), None);
    assert_eq!(group_table(&vec![Group { id: 1, title: s("x\u{1b}[\u{644}\u{627}") }]), None);
    assert_eq!(table(&vec![s("\u{1b}")], &vec![]), None);
}

#[test]
fn table_lays_out_any_titles_and_rows() {
    assert_eq!(
        table(&vec![s("k"), s("v")], &vec![vec![s("one"), s("1")], vec![s("two")]]),
        Some(concat_lines(&[" k   | v ", "-----+---", " one | 1 ", " two |  "]))
    );
}
