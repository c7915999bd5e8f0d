//! End-to-end checks of the editing, validation and persistence core:
//! the documented scenario, the round trips, rejection of out-of-domain
//! values, no data loss on a failed commit, undo/redo linearity, index
//! clamping, and the atomic save protocol.

use mynotes::buffer::{KeyInput, TextBuffer};
use mynotes::codec_calorie::{format_calorie_editor_content, parse_calorie_editor_content};
use mynotes::codec_card::{
    format_card_editor_content, new_card_editor_template, parse_card_editor_content_structured,
};
use mynotes::codec_finance::{
    format_finance_editor_content, new_finance_editor_template, parse_finance_editor_content,
};
use mynotes::codec_habit::{format_habit_editor_content, parse_habit_editor_content};
use mynotes::codec_kanban::{
    format_kanban_editor_content, new_kanban_editor_template, parse_kanban_editor_content,
};
use mynotes::codec_task::{format_task_editor_content, parse_task_editor_content};
use mynotes::date::{parse_date, Date, Time};
use mynotes::model::{HabitStatus, KanbanStage, Recurrence, TaskPriority};
use mynotes::persist::FileStore;
use mynotes::session::{EditSession, EditTarget};
use mynotes::state::AppState;
use mynotes::text::chars_of;

fn day(y: u32, m: u32, d: u32) -> Date {
    Date { year: y, month: m, day: d }
}

fn today() -> Date {
    day(2025, 1, 1)
}

#[test]
fn scenario_new_task_parses_and_round_trips() {
    let text = "Title: Pay rent\nStatus: Pending\nPriority: High\nDue: 2025-01-05\n\nDescription:\nMonthly";
    let task = parse_task_editor_content(text, None, today()).expect("the scenario text is valid");
    assert_eq!(task.title, "Pay rent");
    assert!(!task.completed);
    assert!(matches!(task.priority, TaskPriority::High));
    assert_eq!(task.due_date, Some(day(2025, 1, 5)));
    assert_eq!(task.description, "Monthly");

    let rendered = format_task_editor_content(&task);
    let again = parse_task_editor_content(&rendered, Some(&task), today()).expect("round trip");
    assert_eq!(again.title, task.title);
    assert_eq!(again.completed, task.completed);
    assert!(matches!(again.priority, TaskPriority::High));
    assert_eq!(again.due_date, task.due_date);
    assert_eq!(again.description, task.description);
    assert_eq!(again.created_at, task.created_at);
    assert_eq!(again.reminder_date, task.reminder_date);
    assert_eq!(again.reminder_text, task.reminder_text);
}

#[test]
fn priority_out_of_domain_is_rejected() {
    let e = mynotes::validate::validate_task_priority("Extreme").unwrap_err();
    assert_eq!(e, "Invalid Priority. Valid options: High|Medium|Low");
    let text = "Title: x\nPriority: Extreme";
    let e2 = parse_task_editor_content(text, None, today()).unwrap_err();
    assert_eq!(e2, "Invalid Priority. Valid options: High|Medium|Low");
}

#[test]
fn negative_amount_is_rejected() {
    let text = "Category: Food\nAmount: -5";
    let e = parse_finance_editor_content(text, None, today(), today()).unwrap_err();
    assert_eq!(e, "Invalid Amount. Use a non-negative number up to 999999999.99");
}

#[test]
fn oversized_calories_are_rejected() {
    let text = "Meal: Lunch\nCalories: 999999";
    let e = parse_calorie_editor_content(text, None, today(), today()).unwrap_err();
    assert_eq!(e, "Invalid Calories. Use a whole number up to 50000");
}

#[test]
fn due_before_epoch_is_rejected() {
    let text = "Title: x\nDue: 1899-01-01";
    let e = parse_task_editor_content(text, None, today()).unwrap_err();
    assert_eq!(e, "Invalid Due date. Use YYYY-MM-DD between 1970-01-01 and ten years from today");
}

#[test]
fn task_status_validator_accepts_both_cases() {
    assert_eq!(mynotes::validate::validate_task_status("completed"), Ok(true));
    assert_eq!(mynotes::validate::validate_task_status(" Pending "), Ok(false));
    assert!(mynotes::validate::validate_task_status("done").is_err());
}

#[test]
fn habit_status_validator() {
    assert!(matches!(
        mynotes::validate::validate_habit_status("Paused"),
        Ok(HabitStatus::Paused)
    ));
    assert!(mynotes::validate::validate_habit_status("dormant").is_err());
    assert!(matches!(
        mynotes::validate::parse_habit_status("paused"),
        HabitStatus::Paused
    ));
    assert!(matches!(
        mynotes::validate::parse_habit_status("whatever"),
        HabitStatus::Active
    ));
}

#[test]
fn recurrence_expressions() {
    let r = mynotes::validate::validate_task_recurrence("range 2025-01-01 to 2025-01-31 at 09:30")
        .expect("a well-formed range");
    match r {
        Recurrence::Range { start, end, time } => {
            assert_eq!(start, day(2025, 1, 1));
            assert_eq!(end, day(2025, 1, 31));
            assert_eq!(time, Some(Time { hour: 9, minute: 30 }));
        }
        _ => panic!("expected a range"),
    }
    let e = mynotes::validate::validate_task_recurrence("range 2025-01-01 until 2025-01-31")
        .unwrap_err();
    assert_eq!(e, "Invalid range format. Use: range YYYY-MM-DD to YYYY-MM-DD at HH:MM");
    // A habit frequency may not be `none`.
    assert!(mynotes::validate::validate_frequency("none").is_err());
    assert!(matches!(
        mynotes::validate::validate_task_recurrence("none"),
        Ok(Recurrence::NoRepeat)
    ));
    // The label of a recurrence reads back as the same recurrence.
    let label = mynotes::model::recurrence_label(&r);
    assert_eq!(label, "Range 2025-01-01 to 2025-01-31 at 09:30");
    let r2 = mynotes::validate::parse_recurrence(&label);
    assert_eq!(r2, r);
}

#[test]
fn kanban_round_trip_and_stage_preserved() {
    let text = "Title: Repair the fence\nNote:\nneeds a new hinge\n\nand paint";
    let mut card = parse_kanban_editor_content(text, None, today()).expect("valid card");
    assert_eq!(card.title, "Repair the fence");
    assert_eq!(card.note, "needs a new hinge\n\nand paint");
    card.stage = KanbanStage::Doing;
    let rendered = format_kanban_editor_content(&card);
    let again = parse_kanban_editor_content(&rendered, Some(&card), today()).expect("round trip");
    assert_eq!(again.title, card.title);
    assert_eq!(again.note, card.note);
    assert!(matches!(again.stage, KanbanStage::Doing));
    assert_eq!(again.created_at, card.created_at);
}

#[test]
fn kanban_requires_a_title() {
    let e = parse_kanban_editor_content("Note:\njust a note", None, today()).unwrap_err();
    assert_eq!(e, "Title is required");
}

#[test]
fn flashcard_round_trip() {
    let text = "Front: What is the capital of France?\nBack: Paris\nCollection: Geography";
    let card = parse_card_editor_content_structured(text, None, today()).expect("valid card");
    assert_eq!(card.front, "What is the capital of France?");
    assert_eq!(card.back, "Paris");
    assert_eq!(card.collection.as_deref(), Some("Geography"));
    assert_eq!(card.ease_milli, 2500);
    let rendered = format_card_editor_content(&card);
    let again =
        parse_card_editor_content_structured(&rendered, Some(&card), today()).expect("round trip");
    assert_eq!(again.front, card.front);
    assert_eq!(again.back, card.back);
    assert_eq!(again.collection, card.collection);
    assert_eq!(again.ease_milli, card.ease_milli);
}

#[test]
fn flashcard_requires_front_and_back() {
    let e = parse_card_editor_content_structured("Front: hi", None, today()).unwrap_err();
    assert_eq!(e, "Back is required");
    let e2 = parse_card_editor_content_structured("Back: there", None, today()).unwrap_err();
    assert_eq!(e2, "Front is required");
}

#[test]
fn finance_round_trip_with_cents() {
    let text = "Category: Rent\nAmount: 1234.50\nDate: 2024-12-01\nNotes:\npaid early";
    let entry = parse_finance_editor_content(text, None, today(), today()).expect("valid entry");
    assert_eq!(entry.amount_cents, 123450);
    assert_eq!(entry.date, day(2024, 12, 1));
    assert_eq!(entry.category, "Rent");
    assert_eq!(entry.note, "paid early");
    let rendered = format_finance_editor_content(&entry);
    assert!(rendered.contains("Amount: 1234.50"));
    let again = parse_finance_editor_content(&rendered, Some(&entry), today(), today())
        .expect("round trip");
    assert_eq!(again.amount_cents, entry.amount_cents);
    assert_eq!(again.category, entry.category);
    assert_eq!(again.note, entry.note);
    assert_eq!(again.date, entry.date);
}

#[test]
fn calorie_round_trip() {
    let text = "Meal: Lunch\nCalories: 640\nDate: 2024-12-24\nNotes:\nsoup";
    let entry = parse_calorie_editor_content(text, None, today(), today()).expect("valid entry");
    assert_eq!(entry.calories, 640);
    let rendered = format_calorie_editor_content(&entry);
    let again = parse_calorie_editor_content(&rendered, Some(&entry), today(), today())
        .expect("round trip");
    assert_eq!(again.meal, entry.meal);
    assert_eq!(again.calories, entry.calories);
    assert_eq!(again.note, entry.note);
    assert_eq!(again.date, entry.date);
}

#[test]
fn habit_round_trip_with_hints_stripped() {
    let text = "Name: Drink water\nFrequency: daily (options: daily|weekly|monthly|range YYYY-MM-DD to YYYY-MM-DD at HH:MM)\nStatus: Active (options: Active|Paused)\nStart Date: 2024-06-01\nNotes:\neight glasses";
    let habit = parse_habit_editor_content(text, None, today(), today()).expect("valid habit");
    assert_eq!(habit.name, "Drink water");
    assert!(matches!(habit.frequency, Recurrence::Daily));
    assert!(matches!(habit.status, HabitStatus::Active));
    assert_eq!(habit.start_date, day(2024, 6, 1));
    assert_eq!(habit.notes, "eight glasses");
    let rendered = format_habit_editor_content(&habit);
    let again =
        parse_habit_editor_content(&rendered, Some(&habit), habit.start_date, today())
            .expect("round trip");
    assert_eq!(again.name, habit.name);
    assert_eq!(again.frequency, habit.frequency);
    assert_eq!(again.status, habit.status);
    assert_eq!(again.start_date, habit.start_date);
    assert_eq!(again.notes, habit.notes);
}

#[test]
fn habit_start_date_must_not_be_in_the_future() {
    let text = "Name: Rise early\nStart Date: 2030-01-01";
    let e = parse_habit_editor_content(text, None, today(), today()).unwrap_err();
    assert_eq!(e, "Invalid Start Date. Use YYYY-MM-DD between 1970-01-01 and today");
}

#[test]
fn no_data_loss_on_invalid_commit() {
    let mut session = EditSession::new();
    let mut state = AppState::new(today());
    let text = "Title: Taxes\nPriority: Extreme";
    session.start(EditTarget::TaskTitle, text);
    let before = session.buffer.to_text();
    let r = session.commit(&mut state, today());
    assert!(r.is_err());
    // The buffer still holds the text character for character, the edit
    // is still open, and nothing reached the collection.
    assert_eq!(session.buffer.to_text(), before);
    assert!(session.is_editing());
    assert!(matches!(session.target, EditTarget::TaskTitle));
    assert_eq!(state.tasks.len(), 0);
}

#[test]
fn successful_commit_adds_the_task_and_closes_the_edit() {
    let mut session = EditSession::new();
    let mut state = AppState::new(today());
    session.start(EditTarget::TaskTitle, "Title: Taxes\nPriority: High");
    session.commit(&mut state, today()).expect("a valid task commits");
    assert_eq!(state.tasks.len(), 1);
    assert_eq!(state.tasks[0].title, "Taxes");
    assert_eq!(state.current_task_idx, 0);
    assert!(!session.is_editing());
}

#[test]
fn import_path_commit_keeps_the_editor_open() {
    let mut session = EditSession::new();
    let mut state = AppState::new(today());
    session.start(EditTarget::CardImport, "  /tmp/cards.json  ");
    session.commit(&mut state, today()).expect("recording a path cannot fail");
    assert!(session.is_editing());
    assert_eq!(session.pending_import_path.as_deref(), Some("/tmp/cards.json"));
}

#[test]
fn undo_redo_linearity() {
    let mut buf = TextBuffer::new();
    for c in ['h', 'e', 'y'] {
        buf.apply_key(&KeyInput::Char(c));
    }
    assert_eq!(buf.to_text(), "hey");
    // A redo right after an undo reproduces the pre-undo text.
    buf.undo();
    assert_eq!(buf.to_text(), "he");
    buf.redo();
    assert_eq!(buf.to_text(), "hey");
    // Undoing once per mutating key returns to the empty buffer.
    buf.undo();
    buf.undo();
    buf.undo();
    assert_eq!(buf.to_text(), "");
    // A mutating key after an undo clears the redo stack.
    let mut buf2 = TextBuffer::new();
    buf2.apply_key(&KeyInput::Char('a'));
    buf2.apply_key(&KeyInput::Char('b'));
    buf2.undo();
    buf2.apply_key(&KeyInput::Char('c'));
    buf2.redo();
    assert_eq!(buf2.to_text(), "ac");
}

#[test]
fn select_all_delete_empties_the_buffer() {
    let mut buf = TextBuffer::new();
    buf.set_content("line one\nline two");
    buf.apply_key(&KeyInput::Char('!'));
    buf.select_all();
    buf.apply_key(&KeyInput::Delete);
    assert_eq!(buf.to_text(), "");
    // The wipe is itself undoable.
    buf.undo();
    assert_eq!(buf.to_text(), "line one\nline two!");
}

#[test]
fn newline_and_backspace_editing() {
    let mut buf = TextBuffer::new();
    buf.apply_key(&KeyInput::Char('a'));
    buf.apply_key(&KeyInput::Enter);
    buf.apply_key(&KeyInput::Char('b'));
    assert_eq!(buf.to_text(), "a\nb");
    buf.apply_key(&KeyInput::Backspace);
    buf.apply_key(&KeyInput::Backspace);
    assert_eq!(buf.to_text(), "a");
}

#[test]
fn index_clamping_on_load() {
    let mut state = AppState::new(today());
    for title in ["one", "two", "three"] {
        let text = format!("Title: {}", title);
        let task = parse_task_editor_content(&text, None, today()).expect("valid");
        state.tasks.push(task);
    }
    state.current_task_idx = 500;
    state.validate_indices();
    assert_eq!(state.current_task_idx, 0);

    let mut empty = AppState::new(today());
    empty.current_task_idx = 500;
    empty.current_card_idx = 7;
    empty.validate_indices();
    assert_eq!(empty.current_task_idx, 0);
    assert_eq!(empty.current_card_idx, 0);
    // No lookup panics on the empty collections afterwards.
    assert!(empty.tasks.get(empty.current_task_idx).is_none());
}

#[test]
fn atomic_save_protocol() {
    let mut store = FileStore::new();
    // A first, completed save.
    store.write_temp(vec![1u8, 2, 3]);
    store.rename_temp();
    assert_eq!(store.read_main().cloned(), Some(vec![1u8, 2, 3]));
    // A second save that crashes between the temporary write and the
    // rename: the main file is byte-identical to its pre-save contents.
    store.write_temp(vec![9u8, 9, 9]);
    assert_eq!(store.read_main().cloned(), Some(vec![1u8, 2, 3]));
    // Completing the rename publishes the new bytes atomically.
    store.rename_temp();
    assert_eq!(store.read_main().cloned(), Some(vec![9u8, 9, 9]));
}

#[test]
fn snapshot_size_guard() {
    assert!(mynotes::snapshot_size_ok(0));
    assert!(mynotes::snapshot_size_ok(52428800));
    assert!(!mynotes::snapshot_size_ok(52428801));
}

#[test]
fn templates_are_stable() {
    assert_eq!(new_kanban_editor_template(), "Title: \nNote:\n");
    assert_eq!(new_card_editor_template(), "Front: \nBack: \nCollection: \n");
    assert_eq!(
        new_finance_editor_template(day(2025, 3, 7)),
        "Category: \nAmount: \nDate: 2025-03-07\nNotes:\n"
    );
}

#[test]
fn calendar_dates() {
    assert_eq!(parse_date(&chars_of("2024-02-29")), Some(day(2024, 2, 29)));
    assert_eq!(parse_date(&chars_of("2023-02-29")), None);
    assert_eq!(parse_date(&chars_of("2023-13-01")), None);
    assert_eq!(parse_date(&chars_of("23-01-01")), None);
    let d = mynotes::date::add_days(&day(2024, 12, 30), 3);
    assert_eq!(d, day(2025, 1, 2));
}

#[test]
fn spaced_repetition_review() {
    let text = "Front: a\nBack: b";
    let mut card = parse_card_editor_content_structured(text, None, today()).expect("valid");
    card.review(5, today());
    assert_eq!(card.repetitions, 1);
    assert_eq!(card.interval, 1);
    assert_eq!(card.next_review, day(2025, 1, 2));
    card.review(5, today());
    assert_eq!(card.repetitions, 2);
    assert_eq!(card.interval, 6);
    assert_eq!(card.next_review, day(2025, 1, 7));
    assert!(card.ease_milli >= 2500);
    card.review(0, today());
    assert_eq!(card.repetitions, 0);
    assert_eq!(card.interval, 1);
    assert!(card.ease_milli >= 1300);
    assert!(card.is_due(day(2025, 1, 2)));
    assert!(!card.is_due(day(2025, 1, 1)));
}

#[test]
fn kanban_stage_moves() {
    assert!(matches!(KanbanStage::Todo.move_left(), KanbanStage::Todo));
    assert!(matches!(KanbanStage::Todo.move_right(), KanbanStage::Doing));
    assert!(matches!(KanbanStage::Done.move_right(), KanbanStage::Done));
    assert!(matches!(KanbanStage::Done.move_left(), KanbanStage::Doing));
    assert_eq!(KanbanStage::Doing.label(), "In Progress");
    assert_eq!(mynotes::model::habit_status_label(HabitStatus::Paused), "Paused");
    assert!(matches!(
        mynotes::model::default_habit_status(),
        HabitStatus::Active
    ));
}

#[test]
fn dictionary_and_paths() {
    let dict = mynotes::dict::SimpleDictionary::from_wordlist("Apple\nbanana\n\n  Cherry \n");
    assert_eq!(dict.words.len(), 3);
    let custom: Vec<String> = vec!["zebra".to_string()];
    assert!(dict.check_word("APPLE", &custom));
    assert!(dict.check_word("cherry", &custom));
    assert!(dict.check_word("zebra", &custom));
    assert!(!dict.check_word("pear", &custom));

    assert!(mynotes::dict::looks_like_path("\"/usr/local/bin\""));
    assert!(mynotes::dict::looks_like_path("~/notes.txt"));
    assert!(!mynotes::dict::looks_like_path("hello"));
    assert_eq!(mynotes::dict::normalize_token("(~/pic.png),"), "~/pic.png");
}

#[test]
fn editing_an_existing_task_inherits_blank_fields() {
    let base = parse_task_editor_content(
        "Title: Original\nStatus: Completed\nPriority: Low\n\nDescription:\nkeep me",
        None,
        today(),
    )
    .expect("valid");
    // A re-edit that only touches the title keeps everything else.
    let edited = parse_task_editor_content("Title: Renamed", Some(&base), today()).expect("valid");
    assert_eq!(edited.title, "Renamed");
    assert!(edited.completed);
    assert!(matches!(edited.priority, TaskPriority::Low));
    assert_eq!(edited.description, "keep me");
}

#[test]
fn new_task_requires_a_title() {
    let e = parse_task_editor_content("Status: Pending", None, today()).unwrap_err();
    assert_eq!(e, "Title is required");
    // Quick entry: a bare line before any label becomes the title.
    let t = parse_task_editor_content("Water the plants", None, today()).expect("quick entry");
    assert_eq!(t.title, "Water the plants");
}

#[test]
fn reminder_forms() {
    let t = parse_task_editor_content(
        "Title: x\nReminder: 2025-12-25 09:30",
        None,
        today(),
    )
    .expect("valid");
    assert_eq!(t.reminder_date, Some(day(2025, 12, 25)));
    assert_eq!(t.reminder_time, Some(Time { hour: 9, minute: 30 }));
    assert_eq!(t.reminder_text, None);
    // Free text is kept as text.
    let t2 = parse_task_editor_content("Title: x\nReminder: after breakfast", None, today())
        .expect("valid");
    assert_eq!(t2.reminder_text.as_deref(), Some("after breakfast"));
    assert_eq!(t2.reminder_date, None);
    // A date in the past cannot be a reminder date; it stays as text.
    let t3 = parse_task_editor_content("Title: x\nReminder: 2020-01-01", None, today())
        .expect("valid");
    assert_eq!(t3.reminder_text.as_deref(), Some("2020-01-01"));
    assert_eq!(t3.reminder_date, None);
}

#[test]
fn today_is_a_calendar_date() {
    let d = mynotes::persist::today();
    assert!(d.month >= 1 && d.month <= 12);
    assert!(d.day >= 1 && d.day <= 31);
    assert!(d.year >= 1970);
}

#[test]
fn delete_pulls_the_index_back() {
    let mut items = vec![10, 20, 30];
    let mut idx: usize = 2;
    mynotes::state::delete_and_adjust_index(&mut items, &mut idx);
    assert_eq!(items, vec![10, 20]);
    assert_eq!(idx, 1);
    mynotes::state::delete_and_adjust_index(&mut items, &mut idx);
    assert_eq!(items, vec![10]);
    assert_eq!(idx, 0);
    // An out-of-range index deletes nothing.
    idx = 9;
    mynotes::state::delete_and_adjust_index(&mut items, &mut idx);
    assert_eq!(items, vec![10]);
    assert_eq!(idx, 9);
}

#[test]
fn cursor_requests_clamp() {
    let mut buf = TextBuffer::new();
    buf.set_content("ab\ncdef");
    buf.move_cursor(99, 99);
    buf.apply_key(&KeyInput::Char('!'));
    assert_eq!(buf.to_text(), "ab\ncdef!");
    buf.move_cursor(0, 99);
    buf.apply_key(&KeyInput::Char('?'));
    assert_eq!(buf.to_text(), "ab?\ncdef!");
}

#[test]
fn editing_an_existing_finance_entry_through_the_session() {
    let mut session = EditSession::new();
    let mut state = AppState::new(today());
    session.start(EditTarget::FinanceNew, "Category: Rent\nAmount: 900");
    session.commit(&mut state, today()).expect("valid entry");
    assert_eq!(state.finances.len(), 1);
    assert_eq!(state.finances[0].amount_cents, 90000);
    session.start(EditTarget::Finance, "Amount: 950.25");
    session.commit(&mut state, today()).expect("valid edit");
    assert_eq!(state.finances.len(), 1);
    assert_eq!(state.finances[0].amount_cents, 95025);
    assert_eq!(state.finances[0].category, "Rent");
}

#[test]
fn notebook_hierarchy_grows() {
    let mut state = AppState::new(today());
    state.add_notebook("Work".to_string(), today());
    assert_eq!(state.notebooks.len(), 1);
    assert_eq!(state.current_notebook_idx, 0);
    assert!(state.add_section("Projects".to_string(), today()));
    assert!(state.add_page("Kickoff".to_string(), today()));
    assert_eq!(state.notebooks[0].sections[0].pages[0].title, "Kickoff");
    // Without a notebook nothing is added.
    let mut bare = AppState::new(today());
    assert!(!bare.add_section("Loose".to_string(), today()));
}

#[test]
fn dictionary_collapses_duplicates() {
    let dict = mynotes::dict::SimpleDictionary::from_wordlist("apple\nApple\n APPLE \nbanana\napple");
    assert_eq!(dict.words.len(), 2);
    assert_eq!(dict.words[0], "apple");
    assert_eq!(dict.words[1], "banana");
    let custom: Vec<String> = Vec::new();
    assert!(dict.check_word("Apple", &custom));
}

#[test]
fn page_content_commit_derives_the_title() {
    let mut session = EditSession::new();
    let mut state = AppState::new(today());
    state.add_notebook("Home".to_string(), today());
    assert!(state.add_section("Plans".to_string(), today()));
    assert!(state.add_page("untitled".to_string(), today()));
    session.start(
        EditTarget::PageContent,
        "one two three four five six seven eight\nsecond line",
    );
    session.commit(&mut state, today()).expect("content within bounds");
    let page = &state.notebooks[0].sections[0].pages[0];
    assert_eq!(page.content, "one two three four five six seven eight\nsecond line");
    // The first six words of the first line become the title.
    assert_eq!(page.title, "one two three four five six");
    // A content with no words keeps the old title.
    session.start(EditTarget::PageContent, "   \n\n");
    session.commit(&mut state, today()).expect("blank content is fine");
    assert_eq!(state.notebooks[0].sections[0].pages[0].title, "one two three four five six");
}

#[test]
fn long_first_lines_shorten_the_title() {
    let word = "abcdefghij";
    let line = format!("{} {} {} {} {} {}", word, word, word, word, word, word);
    let chars = chars_of(&line);
    let t = mynotes::model::derived_title(&chars).expect("words exist");
    let title: String = t.into_iter().collect();
    assert_eq!(title.len(), 50);
    assert!(title.ends_with("..."));
    assert!(title.starts_with("abcdefghij abcdefghij"));
}

#[test]
fn journal_commit_upserts_by_date() {
    let mut session = EditSession::new();
    let mut state = AppState::new(today());
    session.start(EditTarget::JournalEntry, "first thoughts");
    session.commit(&mut state, today()).expect("journal commits");
    assert_eq!(state.journal_entries.len(), 1);
    assert_eq!(state.journal_entries[0].content, "first thoughts");
    // A second commit on the same date replaces the entry's content.
    session.start(EditTarget::JournalEntry, "revised thoughts");
    session.commit(&mut state, today()).expect("journal commits");
    assert_eq!(state.journal_entries.len(), 1);
    assert_eq!(state.journal_entries[0].content, "revised thoughts");
    // A different date makes a new entry.
    state.current_journal_date = day(2025, 1, 2);
    session.start(EditTarget::JournalEntry, "next day");
    session.commit(&mut state, today()).expect("journal commits");
    assert_eq!(state.journal_entries.len(), 2);
    assert_eq!(state.journal_entries[1].content, "next day");
}

#[test]
fn notebook_title_commit_renames() {
    let mut session = EditSession::new();
    let mut state = AppState::new(today());
    state.add_notebook("Old".to_string(), today());
    session.start(EditTarget::NotebookTitle, "Renamed");
    session.commit(&mut state, today()).expect("short title");
    assert_eq!(state.notebooks[0].title, "Renamed");
    // Without a notebook the commit fails and the edit stays open.
    let mut bare = AppState::new(today());
    session.start(EditTarget::NotebookTitle, "Nowhere");
    assert!(session.commit(&mut bare, today()).is_err());
    assert!(session.is_editing());
}

#[test]
fn history_is_bounded_and_drops_the_oldest() {
    let mut buf = TextBuffer::new();
    for _ in 0..101 {
        buf.apply_key(&KeyInput::Char('a'));
    }
    // The oldest snapshot (the empty buffer) was dropped, so a hundred
    // undos stop at the earliest retained state: a single character.
    for _ in 0..100 {
        buf.undo();
    }
    assert_eq!(buf.to_text(), "a");
    buf.undo();
    assert_eq!(buf.to_text(), "a");
}
