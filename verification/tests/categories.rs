use expense_tracker::category::{
    category_line, parse_categories, select_category, CategoryResultType, Selection,
};

fn names(list: &[&str]) -> Vec<String> {
    list.iter().map(|name| name.to_string()).collect()
}

#[test]
fn reads_one_category_per_line() {
    assert_eq!(parse_categories("Job\nHousing\nGroceries\n"), names(&["Job", "Housing", "Groceries"]));
    assert_eq!(parse_categories(""), Vec::<String>::new());
    assert_eq!(parse_categories("Job"), names(&["Job"]));
    assert_eq!(parse_categories("Job\n\nHousing"), names(&["Job", "", "Housing"]));
    assert_eq!(parse_categories("\n"), names(&[""]));
    assert_eq!(parse_categories("Job\r\nHousing\r\n"), names(&["Job", "Housing"]));
    assert_eq!(parse_categories("Job\rHousing\r"), names(&["Job\rHousing\r"]));
    assert_eq!(parse_categories("Job\r\r\n"), names(&["Job\r"]));
}

#[test]
fn reads_lines_as_a_buffered_reader_does() {
    let samples = ["", "a", "a\n", "a\nb", "a\r\nb\r\n", "\n\n", "a\r", "\r\n", "a\n\r\nb\r", "\r"];
    for sample in samples {
        let expected: Vec<String> =
            std::io::BufRead::lines(sample.as_bytes()).map(|line| line.unwrap()).collect();
        assert_eq!(parse_categories(sample), expected, "{:?}", sample);
    }
}

#[test]
fn a_new_category_takes_one_line() {
    assert_eq!(category_line("Travel"), "Travel\n");
    assert_eq!(category_line(""), "\n");
    let mut list = String::from("Job\nHousing\n");
    list.push_str(&category_line("Travel"));
    assert_eq!(parse_categories(&list), names(&["Job", "Housing", "Travel"]));
    list.push_str(&category_line("Travel"));
    assert_eq!(parse_categories(&list), names(&["Job", "Housing", "Travel", "Travel"]));
}

#[test]
fn reads_an_answer_as_a_number_or_a_name() {
    assert_eq!(CategoryResultType::from_str("2"), CategoryResultType::ByIndex(2));
    assert_eq!(CategoryResultType::from_str(" 2 "), CategoryResultType::ByIndex(2));
    assert_eq!(CategoryResultType::from_str("+2"), CategoryResultType::ByIndex(2));
    assert_eq!(CategoryResultType::from_str("007"), CategoryResultType::ByIndex(7));
    assert_eq!(CategoryResultType::from_str("0"), CategoryResultType::ByIndex(0));
    assert_eq!(
        CategoryResultType::from_str("Travel"),
        CategoryResultType::ByName("Travel".to_string())
    );
    assert_eq!(CategoryResultType::from_str("-2"), CategoryResultType::ByName("-2".to_string()));
    assert_eq!(CategoryResultType::from_str("2.0"), CategoryResultType::ByName("2.0".to_string()));
    assert_eq!(CategoryResultType::from_str(""), CategoryResultType::ByName("".to_string()));
    assert_eq!(CategoryResultType::from_str("+"), CategoryResultType::ByName("+".to_string()));
    assert_eq!(CategoryResultType::from_str(" x "), CategoryResultType::ByName(" x ".to_string()));
}

#[test]
fn reads_numbers_as_the_standard_library_does() {
    let samples = [
        "0", "1", "+1", "-1", "", "+", "18446744073709551615", "18446744073709551616",
        "99999999999999999999999", "0000000000000000000000001", "1 2", "１",
    ];
    for sample in samples {
        let expected = match sample.parse::<usize>() {
            Ok(index) => CategoryResultType::ByIndex(index),
            Err(_) => CategoryResultType::ByName(sample.to_string()),
        };
        assert_eq!(CategoryResultType::from_str(sample), expected, "{:?}", sample);
    }
}

#[test]
fn picks_a_category_by_its_number() {
    let list = names(&["Job", "Housing", "Groceries"]);
    assert_eq!(
        select_category(&CategoryResultType::ByIndex(1), &list),
        Selection::Existing("Job".to_string())
    );
    assert_eq!(
        select_category(&CategoryResultType::ByIndex(3), &list),
        Selection::Existing("Groceries".to_string())
    );
    assert_eq!(select_category(&CategoryResultType::ByIndex(0), &list), Selection::Rejected);
    assert_eq!(select_category(&CategoryResultType::ByIndex(4), &list), Selection::Rejected);
    assert_eq!(
        select_category(&CategoryResultType::ByIndex(usize::MAX), &list),
        Selection::Rejected
    );
    assert_eq!(select_category(&CategoryResultType::ByIndex(1), &vec![]), Selection::Rejected);
}

#[test]
fn takes_a_name_as_a_new_category() {
    let list = names(&["Job"]);
    assert_eq!(
        select_category(&CategoryResultType::ByName("Travel".to_string()), &list),
        Selection::New("Travel".to_string())
    );
    assert_eq!(
        select_category(&CategoryResultType::ByName("Job".to_string()), &list),
        Selection::New("Job".to_string())
    );
    assert_eq!(
        select_category(&CategoryResultType::ByName("".to_string()), &list),
        Selection::New("".to_string())
    );
}
