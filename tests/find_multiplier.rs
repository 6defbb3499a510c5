use multiplier_finder::find_multiplier;

fn header(lines: &[&str]) -> Vec<String> {
    lines.iter().map(|s| s.to_string()).collect()
}

#[test]
fn test_find_multiplier() {
    let table_header_same = vec![
        "header line 1".to_string(),
        "header line 2".to_string(),
        "header line 3".to_string(),
        "dollars in billion".to_string(),
        "header line 5".to_string(),
        "header line 6".to_string(),
        "header line 7".to_string(),
    ];
    let table_header_above = vec![
        "header line 1".to_string(),
        "header line 2".to_string(),
        "in Thousands".to_string(),
        "$".to_string(),
        "header line 5".to_string(),
        "header line 6".to_string(),
        "header line 7".to_string(),
    ];
    let table_header_below = vec![
        "header line 1".to_string(),
        "header line 2".to_string(),
        "USD".to_string(),
        "in millions".to_string(),
        "header line 5".to_string(),
        "header line 6".to_string(),
        "header line 7".to_string(),
    ];
    assert_eq!(find_multiplier(&table_header_same), 1000000000);
    assert_eq!(find_multiplier(&table_header_above), 1000);
    assert_eq!(find_multiplier(&table_header_below), 1000000);
}

#[test]
fn empty_header_gives_one() {
    assert_eq!(find_multiplier(&Vec::new()), 1);
}

#[test]
fn no_currency_gives_one() {
    assert_eq!(find_multiplier(&header(&["no currency mentioned here"])), 1);
    assert_eq!(find_multiplier(&header(&["in millions", "in thousands", ""])), 1);
}

#[test]
fn no_unit_in_window_gives_one() {
    assert_eq!(find_multiplier(&header(&["a", "b", "Revenue ($)", "c", "d"])), 1);
    // A unit two lines before the anchor lies outside the window.
    assert_eq!(find_multiplier(&header(&["in millions", "a", "$", "b"])), 1);
    // A unit two lines after the anchor lies outside the window.
    assert_eq!(find_multiplier(&header(&["a", "$", "b", "in billions"])), 1);
}

#[test]
fn case_does_not_matter() {
    for dollar in ["dollar", "DOLLAR", "Dollar", "dOlLaRs"] {
        let h = header(&["x", &format!("{} amounts", dollar), "In THOUSANDS"]);
        assert_eq!(find_multiplier(&h), 1000);
    }
    assert_eq!(find_multiplier(&header(&["usd", "in Millions"])), 1000000);
    assert_eq!(find_multiplier(&header(&["Usd", "IN MILLIONS"])), 1000000);
}

#[test]
fn million_tested_before_billion() {
    assert_eq!(find_multiplier(&header(&["$ in billion and million"])), 1000000);
}

#[test]
fn thousand_tested_before_million() {
    assert_eq!(find_multiplier(&header(&["USD million thousand billion"])), 1000);
}

#[test]
fn earlier_window_line_wins() {
    let h = header(&["x", "in thousands", "$", "in billions", "y"]);
    assert_eq!(find_multiplier(&h), 1000);
}

#[test]
fn anchor_line_before_following_line() {
    let h = header(&["x", "dollars in millions", "in billions"]);
    assert_eq!(find_multiplier(&h), 1000000);
}

#[test]
fn first_anchor_decides_window() {
    let h = header(&["$", "a", "b", "c", "USD in billions"]);
    assert_eq!(find_multiplier(&h), 1);
}

#[test]
fn anchor_on_first_line_window_starts_there() {
    assert_eq!(find_multiplier(&header(&["USD", "a", "in millions", "x"])), 1000000);
    assert_eq!(find_multiplier(&header(&["$ in billions"])), 1000000000);
    assert_eq!(find_multiplier(&header(&["USD", "a", "b", "in thousands"])), 1);
}

#[test]
fn anchor_on_last_line() {
    assert_eq!(find_multiplier(&header(&["a", "in thousands", "USD"])), 1000);
    assert_eq!(find_multiplier(&header(&["in thousands", "a", "USD"])), 1);
}

#[test]
fn keywords_match_as_substrings() {
    assert_eq!(find_multiplier(&header(&["$", "millionaire"])), 1000000);
    assert_eq!(find_multiplier(&header(&["$", "THOUSANDS"])), 1000);
    assert_eq!(find_multiplier(&header(&["cad/usd rate", "billionth"])), 1000000000);
}

#[test]
fn empty_lines_are_allowed() {
    assert_eq!(find_multiplier(&header(&["", "", "$", ""])), 1);
    assert_eq!(find_multiplier(&header(&["", "thousand", "", "$"])), 1);
}

#[test]
fn result_is_always_a_scale() {
    let cases: [&[&str]; 5] = [
        &[],
        &["$"],
        &["$ thousand"],
        &["$ million"],
        &["$ billion"],
    ];
    for c in cases {
        let m = find_multiplier(&header(c));
        assert!(m == 1 || m == 1000 || m == 1000000 || m == 1000000000);
    }
}
