use expense_tracker::amount::Amount;
use expense_tracker::dialogue::{
    add_record, affirmative, begin_record, category_prompt, numbered_categories, AddRecordAction,
    AddRecordEvent, AddRecordState, Prompt,
};
use expense_tracker::ledger::Expense;

fn names(list: &[&str]) -> Vec<String> {
    list.iter().map(|name| name.to_string()).collect()
}

fn line(text: &str) -> AddRecordEvent {
    AddRecordEvent::Line(text.to_string())
}

fn asking_category(categories: &[&str]) -> AddRecordState {
    AddRecordState::AskingCategory {
        name: "Rent".to_string(),
        amount: Amount { hundredths: -80000 },
        categories: names(categories),
    }
}

fn draft(category: &str) -> Expense {
    Expense {
        name: "Rent".to_string(),
        category: category.to_string(),
        amount: Amount { hundredths: -80000 },
    }
}

#[test]
fn a_record_is_made_of_name_amount_category_and_consent() {
    let (state, action) = begin_record();
    assert_eq!(state, AddRecordState::AskingName);
    assert_eq!(action, AddRecordAction::AskName { again: false });

    let (state, action) = add_record(state, line("  Rent \n"));
    assert_eq!(state, AddRecordState::AskingAmount { name: "Rent".to_string() });
    assert_eq!(action, AddRecordAction::AskAmount { again: false });

    let (state, action) = add_record(state, line("-800\n"));
    assert_eq!(
        state,
        AddRecordState::LoadingCategories {
            name: "Rent".to_string(),
            amount: Amount { hundredths: -80000 },
        }
    );
    assert_eq!(action, AddRecordAction::LoadCategories);

    let (state, action) = add_record(state, AddRecordEvent::Categories(names(&["Job", "Housing"])));
    assert_eq!(state, asking_category(&["Job", "Housing"]));
    assert_eq!(action, AddRecordAction::AskCategory { again: false });

    let (state, action) = add_record(state, line("2\n"));
    assert_eq!(state, AddRecordState::Confirming { draft: draft("Housing") });
    assert_eq!(action, AddRecordAction::Confirm { new_category: None });

    let (state, action) = add_record(state, line("yes\n"));
    assert_eq!(state, AddRecordState::Finished { record: Some(draft("Housing")) });
    assert_eq!(action, AddRecordAction::Finish);
}

#[test]
fn an_empty_name_is_asked_for_again() {
    let (state, action) = add_record(AddRecordState::AskingName, line("   \n"));
    assert_eq!(state, AddRecordState::AskingName);
    assert_eq!(action, AddRecordAction::AskName { again: true });
}

#[test]
fn an_amount_that_is_no_number_is_asked_for_again() {
    let asking = AddRecordState::AskingAmount { name: "Rent".to_string() };
    let (state, action) = add_record(asking, line("eight hundred\n"));
    assert_eq!(state, AddRecordState::AskingAmount { name: "Rent".to_string() });
    assert_eq!(action, AddRecordAction::AskAmount { again: true });
    let (state, action) = add_record(state, line(" 12.5 \n"));
    assert_eq!(
        state,
        AddRecordState::LoadingCategories {
            name: "Rent".to_string(),
            amount: Amount { hundredths: 1250 },
        }
    );
    assert_eq!(action, AddRecordAction::LoadCategories);
}

#[test]
fn a_listed_number_picks_that_category() {
    let (state, action) = add_record(asking_category(&["Job", "Housing", "Groceries"]), line("1\n"));
    assert_eq!(state, AddRecordState::Confirming { draft: draft("Job") });
    assert_eq!(action, AddRecordAction::Confirm { new_category: None });
    let (state, _) = add_record(asking_category(&["Job", "Housing", "Groceries"]), line(" 3 \n"));
    assert_eq!(state, AddRecordState::Confirming { draft: draft("Groceries") });
}

#[test]
fn a_name_makes_a_new_category() {
    let (state, action) = add_record(asking_category(&["Job"]), line(" Travel \n"));
    assert_eq!(state, AddRecordState::Confirming { draft: draft("Travel") });
    assert_eq!(action, AddRecordAction::Confirm { new_category: Some("Travel".to_string()) });
    let (state, action) = add_record(asking_category(&[]), line("\n"));
    assert_eq!(state, AddRecordState::Confirming { draft: draft("") });
    assert_eq!(action, AddRecordAction::Confirm { new_category: Some("".to_string()) });
}

#[test]
fn a_number_off_the_list_is_asked_for_again() {
    for answer in ["0\n", "3\n", "99999\n"] {
        let (state, action) = add_record(asking_category(&["Job", "Housing"]), line(answer));
        assert_eq!(state, asking_category(&["Job", "Housing"]));
        assert_eq!(action, AddRecordAction::AskCategory { again: true });
    }
    let (state, action) = add_record(asking_category(&[]), line("1\n"));
    assert_eq!(state, asking_category(&[]));
    assert_eq!(action, AddRecordAction::AskCategory { again: true });
}

#[test]
fn only_yes_confirms() {
    for answer in ["yes", "y", "YES", "Y", "Yes", "yEs", "  yes \n", "y\n"] {
        assert!(affirmative(answer), "{:?}", answer);
        assert_eq!(answer.trim().to_lowercase() == "yes" || answer.trim().to_lowercase() == "y", true);
        let confirming = AddRecordState::Confirming { draft: draft("Housing") };
        let (state, action) = add_record(confirming, line(answer));
        assert_eq!(state, AddRecordState::Finished { record: Some(draft("Housing")) });
        assert_eq!(action, AddRecordAction::Finish);
    }
}

#[test]
fn anything_else_drops_the_draft() {
    for answer in ["no", "n", "", "\n", "yes please", "ye", "yess", "oui", "0", "y e s", "ýes"] {
        assert!(!affirmative(answer), "{:?}", answer);
        assert_eq!(answer.trim().to_lowercase() == "yes" || answer.trim().to_lowercase() == "y", false);
        let confirming = AddRecordState::Confirming { draft: draft("Housing") };
        let (state, action) = add_record(confirming, line(answer));
        assert_eq!(state, AddRecordState::Finished { record: None });
        assert_eq!(action, AddRecordAction::Finish);
    }
}

#[test]
fn an_event_out_of_turn_changes_nothing() {
    let (state, action) = add_record(AddRecordState::AskingName, AddRecordEvent::Categories(vec![]));
    assert_eq!(state, AddRecordState::AskingName);
    assert_eq!(action, AddRecordAction::Nothing);
    let loading = AddRecordState::LoadingCategories {
        name: "Rent".to_string(),
        amount: Amount { hundredths: 1 },
    };
    let (state, action) = add_record(loading, line("x"));
    assert_eq!(
        state,
        AddRecordState::LoadingCategories { name: "Rent".to_string(), amount: Amount { hundredths: 1 } }
    );
    assert_eq!(action, AddRecordAction::Nothing);
    let (state, action) = add_record(AddRecordState::Finished { record: None }, line("yes"));
    assert_eq!(state, AddRecordState::Finished { record: None });
    assert_eq!(action, AddRecordAction::Nothing);
}

#[test]
fn asks_for_a_category_by_number_or_name() {
    assert_eq!(category_prompt(3), "\nEnter a Category [1 - 3] or type a new category ");
    assert_eq!(category_prompt(12), "\nEnter a Category [1 - 12] or type a new category ");
    assert_eq!(category_prompt(0), "Type A New Category ");
}

#[test]
fn numbers_the_categories_from_one() {
    assert_eq!(
        numbered_categories(&names(&["Job", "Housing", "Groceries"])),
        vec!["  1: Job", "  2: Housing", "  3: Groceries"]
    );
    assert_eq!(numbered_categories(&vec![]), Vec::<String>::new());
    let many: Vec<String> = (0..11).map(|i: u32| format!("c{}", i)).collect();
    assert_eq!(numbered_categories(&many)[10], "  11: c10");
}

#[test]
fn puts_a_colon_after_the_question() {
    assert_eq!(Prompt::Str("Month Stats").shown(), "Month Stats: ");
    assert_eq!(Prompt::String(category_prompt(0)).shown(), "Type A New Category : ");
    assert_eq!(Prompt::Str("").shown(), ": ");
}

#[test]
fn no_other_letter_is_a_capital_of_those_in_yes() {
    for code in 0u32..0x110000 {
        if let Some(c) = char::from_u32(code) {
            let lower: String = c.to_lowercase().collect();
            if lower == "y" || lower == "e" || lower == "s" {
                assert!("yesYES".contains(c), "U+{:04X}", code);
            }
            let alone = c.to_string();
            assert_eq!(affirmative(&alone), alone.trim().to_lowercase() == "y", "U+{:04X}", code);
        }
    }
}
