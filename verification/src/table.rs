//! The tables that list feeds and groups, as text.

use crate::model::{texts_of, Feed, FeedView, Group, GroupView};
use prettytable::format::consts::FORMAT_NO_BORDER_LINE_SEPARATOR;
use prettytable::{Cell, Row, Table};
use vstd::prelude::*;
use vstd::string::StringExecFns;
use vstd::utf8::{encode_utf8, is_ascii_chars, is_ascii_chars_encode_utf8};

verus! {

/// The character of a decimal digit.
pub open spec fn digit(d: nat) -> char {
    if d == 0 {
        '0'
    } else if d == 1 {
        '1'
    } else if d == 2 {
        '2'
    } else if d == 3 {
        '3'
    } else if d == 4 {
        '4'
    } else if d == 5 {
        '5'
    } else if d == 6 {
        '6'
    } else if d == 7 {
        '7'
    } else if d == 8 {
        '8'
    } else {
        '9'
    }
}

/// The decimal numeral of a number, without leading zeros.
pub open spec fn digits(n: nat) -> Seq<char>
    decreases n,
{
    if n < 10 {
        seq![digit(n)]
    } else {
        digits(n / 10).push(digit(n % 10))
    }
}

fn digit_text(d: u32) -> (text: &'static str)
    requires
        d < 10,
    ensures
        text@ == seq![digit(d as nat)],
{
    proof {
        reveal_strlit("0");
        reveal_strlit("1");
        reveal_strlit("2");
        reveal_strlit("3");
        reveal_strlit("4");
        reveal_strlit("5");
        reveal_strlit("6");
        reveal_strlit("7");
        reveal_strlit("8");
        reveal_strlit("9");
    }
    let text = if d == 0 {
        "0"
    } else if d == 1 {
        "1"
    } else if d == 2 {
        "2"
    } else if d == 3 {
        "3"
    } else if d == 4 {
        "4"
    } else if d == 5 {
        "5"
    } else if d == 6 {
        "6"
    } else if d == 7 {
        "7"
    } else if d == 8 {
        "8"
    } else {
        "9"
    };
    text
}

/// Writes a number as a decimal numeral.
pub fn decimal(n: u32) -> (text: String)
    ensures
        text@ == digits(n as nat),
    decreases n,
{
    if n < 10 {
        digit_text(n).to_owned()
    } else {
        let mut text = decimal(n / 10);
        text.append(digit_text(n % 10));
        text
    }
}

/// Whether a text can stand in a table: its UTF-8 encoding holds no escape byte, so
/// the text holds no escape character.
pub open spec fn plain(text: Seq<char>) -> bool {
    !encode_utf8(text).contains(27u8)
}

/// Whether every text of a row can stand in a table.
pub open spec fn row_plain(row: Seq<Seq<char>>) -> bool {
    forall|i: int| 0 <= i < row.len() ==> plain(#[trigger] row[i])
}

/// Whether every text of every row can stand in a table.
pub open spec fn rows_plain(rows: Seq<Seq<Seq<char>>>) -> bool {
    forall|i: int| 0 <= i < rows.len() ==> row_plain(#[trigger] rows[i])
}

/// The texts of a list of rows.
pub open spec fn rows_of(rows: Seq<Vec<String>>) -> Seq<Seq<Seq<char>>> {
    Seq::new(rows.len(), |i: int| texts_of(rows[i]@))
}

/// Tells whether a text can stand in a table.
pub fn is_plain(text: &String) -> (yes: bool)
    ensures
        yes == plain(text@),
{
    let bytes = text.as_str().as_bytes();
    let mut i: usize = 0;
    while i < bytes.len()
        invariant
            i <= bytes.len(),
            bytes@ == encode_utf8(text@),
            forall|k: int| 0 <= k < i ==> bytes@[k] != 27u8,
        decreases bytes.len() - i,
    {
        if bytes[i] == 27u8 {
            return false;
        }
        i += 1;
    }
    true
}

/// Tells whether every text of a row can stand in a table.
pub fn is_row_plain(row: &Vec<String>) -> (yes: bool)
    ensures
        yes == row_plain(texts_of(row@)),
{
    let mut i: usize = 0;
    while i < row.len()
        invariant
            i <= row.len(),
            forall|k: int| 0 <= k < i ==> plain(#[trigger] texts_of(row@)[k]),
        decreases row.len() - i,
    {
        if !is_plain(&row[i]) {
            assert(!plain(texts_of(row@)[i as int]));
            return false;
        }
        i += 1;
    }
    true
}

/// The text of the table with the given titles and rows, as the table printer lays it
/// out: no border, a line under the titles, columns parted by `|`.
pub uninterp spec fn rendered(titles: Seq<Seq<char>>, rows: Seq<Seq<Seq<char>>>) -> Seq<char>;

/// Lays a table out with `prettytable`: a `Table` in the format
/// `FORMAT_NO_BORDER_LINE_SEPARATOR`, with one `Cell` for each text, the titles set by
/// `set_titles` and each row added by `add_row`, written out by `to_string`.
///
/// Trusted: the text depends on the titles and the rows alone. No text may hold an
/// escape character: the printer measures what follows one as a colour code and stops
/// with an assertion where that measure exceeds the width of the text.
#[verifier::external_body]
fn table_text(titles: &Vec<String>, rows: &Vec<Vec<String>>) -> (text: String)
    requires
        row_plain(texts_of(titles@)),
        rows_plain(rows_of(rows@)),
    ensures
        text@ == rendered(texts_of(titles@), rows_of(rows@)),
{
    let mut table = Table::new();
    table.set_format(*FORMAT_NO_BORDER_LINE_SEPARATOR);
    table.set_titles(Row::new(titles.iter().map(|title| Cell::new(title)).collect()));
    for row in rows {
        table.add_row(Row::new(row.iter().map(|text| Cell::new(text)).collect()));
    }
    table.to_string()
}

/// Lays a table out, where every text can stand in one; nothing where one cannot.
pub fn table(titles: &Vec<String>, rows: &Vec<Vec<String>>) -> (text: Option<String>)
    ensures
        match text {
            Some(text) => {
                &&& row_plain(texts_of(titles@))
                &&& rows_plain(rows_of(rows@))
                &&& text@ == rendered(texts_of(titles@), rows_of(rows@))
            },
            None => !(row_plain(texts_of(titles@)) && rows_plain(rows_of(rows@))),
        },
{
    if !is_row_plain(titles) {
        return None;
    }
    let mut i: usize = 0;
    while i < rows.len()
        invariant
            i <= rows.len(),
            forall|k: int| 0 <= k < i ==> row_plain(#[trigger] rows_of(rows@)[k]),
        decreases rows.len() - i,
    {
        if !is_row_plain(&rows[i]) {
            assert(!row_plain(rows_of(rows@)[i as int]));
            return None;
        }
        i += 1;
    }
    Some(table_text(titles, rows))
}

/// The titles of the table of feeds.
pub open spec fn feed_titles() -> Seq<Seq<char>> {
    seq!["id"@, "name"@, "feed url"@]
}

/// The rows of the table of feeds: the id, the title and the address of each.
pub open spec fn feed_rows(feeds: Seq<FeedView>) -> Seq<Seq<Seq<char>>> {
    Seq::new(feeds.len(), |i: int| seq![digits(feeds[i].id as nat), feeds[i].title, feeds[i].url])
}

/// The titles of the table of groups.
pub open spec fn group_titles() -> Seq<Seq<char>> {
    seq!["id"@, "name"@]
}

/// The rows of the table of groups: the id and the title of each.
pub open spec fn group_rows(groups: Seq<GroupView>) -> Seq<Seq<Seq<char>>> {
    Seq::new(groups.len(), |i: int| seq![digits(groups[i].id as nat), groups[i].title])
}

/// A text of ASCII characters without the escape character can stand in a table.
proof fn lemma_ascii_plain(text: Seq<char>)
    requires
        is_ascii_chars(text),
        forall|i: int| 0 <= i < text.len() ==> #[trigger] text[i] != '\u{1b}',
    ensures
        plain(text),
{
    is_ascii_chars_encode_utf8(text);
    let bytes = encode_utf8(text);
    assert forall|i: int| 0 <= i < bytes.len() implies #[trigger] bytes[i] != 27u8 by {
        assert(text[i] != '\u{1b}');
    }
}

/// The titles of both tables can stand in a table.
proof fn lemma_titles_plain()
    ensures
        row_plain(feed_titles()),
        row_plain(group_titles()),
{
    reveal_strlit("id");
    reveal_strlit("name");
    reveal_strlit("feed url");
    lemma_ascii_plain("id"@);
    lemma_ascii_plain("name"@);
    lemma_ascii_plain("feed url"@);
}

/// The table of feeds, with a row for each feed in the order given. There is no table
/// where a title or an address holds an escape character.
pub fn feed_table(feeds: &Vec<Feed>) -> (text: Option<String>)
    ensures
        match text {
            Some(text) => {
                &&& rows_plain(feed_rows(feeds.deep_view()))
                &&& text@ == rendered(feed_titles(), feed_rows(feeds.deep_view()))
            },
            None => !rows_plain(feed_rows(feeds.deep_view())),
        },
{
    let mut titles: Vec<String> = Vec::new();
    titles.push("id".to_owned());
    titles.push("name".to_owned());
    titles.push("feed url".to_owned());
    assert(texts_of(titles@) =~= feed_titles());
    let mut rows: Vec<Vec<String>> = Vec::new();
    let mut i: usize = 0;
    while i < feeds.len()
        invariant
            i <= feeds.len(),
            rows.len() == i,
            forall|k: int|
                0 <= k < i ==> texts_of((#[trigger] rows@[k])@) == feed_rows(feeds.deep_view())[k],
        decreases feeds.len() - i,
    {
        let mut row: Vec<String> = Vec::new();
        row.push(decimal(feeds[i].id));
        row.push(feeds[i].title.clone());
        row.push(feeds[i].url.clone());
        rows.push(row);
        i += 1;
    }
    assert(rows_of(rows@) =~= feed_rows(feeds.deep_view()));
    proof {
        lemma_titles_plain();
    }
    table(&titles, &rows)
}

/// The table of groups, with a row for each group in the order given. There is no
/// table where a title holds an escape character.
pub fn group_table(groups: &Vec<Group>) -> (text: Option<String>)
    ensures
        match text {
            Some(text) => {
                &&& rows_plain(group_rows(groups.deep_view()))
                &&& text@ == rendered(group_titles(), group_rows(groups.deep_view()))
            },
            None => !rows_plain(group_rows(groups.deep_view())),
        },
{
    let mut titles: Vec<String> = Vec::new();
    titles.push("id".to_owned());
    titles.push("name".to_owned());
    assert(texts_of(titles@) =~= group_titles());
    let mut rows: Vec<Vec<String>> = Vec::new();
    let mut i: usize = 0;
    while i < groups.len()
        invariant
            i <= groups.len(),
            rows.len() == i,
            forall|k: int|
                0 <= k < i ==> texts_of((#[trigger] rows@[k])@) == group_rows(
                    groups.deep_view(),
                )[k],
        decreases groups.len() - i,
    {
        let mut row: Vec<String> = Vec::new();
        row.push(decimal(groups[i].id));
        row.push(groups[i].title.clone());
        rows.push(row);
        i += 1;
    }
    assert(rows_of(rows@) =~= group_rows(groups.deep_view()));
    proof {
        lemma_titles_plain();
    }
    table(&titles, &rows)
}

} // verus!
