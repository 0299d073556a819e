use pairs::commands::list::stash_table;
use pairs::commands::pop::choice_lines;
use pairs::git_client::{Pin, StashEntry};

fn entry(pin: u16, author: &str, created_at: &str) -> StashEntry {
    StashEntry { pin: Pin::new(pin), author: author.to_string(), created_at: created_at.to_string() }
}

#[test]
fn empty_table_says_so() {
    assert_eq!(stash_table(&Vec::new()), vec!["No remote stashes found."]);
}

#[test]
fn table_columns_grow_with_their_content() {
    let lines = stash_table(&vec![entry(7, "Alexandra Longname", "yesterday"), entry(65535, "Bo", "now")]);
    assert_eq!(
        lines,
        vec![
            "PIN    AUTHOR              CREATED AT",
            &"-".repeat(5 + 18 + 20),
            "7  Alexandra Longname  yesterday",
            "65535  Bo                  now",
        ]
    );
}

#[test]
fn table_rows_write_pins_unpadded() {
    let lines = stash_table(&vec![entry(1, "Ä", "a"), entry(22, "ßß", "b")]);
    assert_eq!(lines[0], "PIN  AUTHOR  CREATED AT");
    assert_eq!(lines[2], "1  Ä       a");
    assert_eq!(lines[3], "22  ßß      b");
}

#[test]
fn table_columns_line_up() {
    let lines = stash_table(&vec![entry(111, "Ä", "a"), entry(222, "ßß", "b"), entry(333, "Zoë Ö", "c")]);
    let header_author = lines[0].chars().position(|c| c == 'A').unwrap();
    for row in &lines[2..] {
        let chars: Vec<char> = row.chars().collect();
        assert_eq!(chars[header_author - 1], ' ');
        assert_ne!(chars[header_author], ' ');
    }
}

#[test]
fn pop_choices_use_fixed_columns() {
    let items = choice_lines(&vec![entry(123, "Alice", "2024-06-01 12:00:00"), entry(45, "A very long author name here", "x")]);
    assert_eq!(items[0], "123       Alice                 2024-06-01 12:00:00");
    assert_eq!(items[1], "45        A very long author name here  x");
}
