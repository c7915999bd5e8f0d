//! The edit session: at most one edit is open at a time, binding the
//! text buffer to an edit target. A commit parses the buffer through the
//! target's codec; on success the typed record replaces or extends its
//! collection and the session returns to idle; on failure the message is
//! returned and the session stays in `Editing` with the buffer untouched,
//! so no user text is ever lost to a validation error.

use vstd::prelude::*;
use crate::buffer::{buf_wf, empty_buf, TextBuffer};
use crate::codec_calorie::{parse_calorie_editor_content, spec_parse_calorie};
use crate::codec_card::{parse_card_editor_content_structured, spec_parse_card};
use crate::codec_finance::{parse_finance_editor_content, spec_parse_finance};
use crate::codec_habit::{parse_habit_editor_content, spec_parse_habit};
use crate::codec_kanban::{parse_kanban_editor_content, spec_parse_kanban};
use crate::codec_task::{parse_task_editor_content, spec_parse_task};
use crate::date::Date;
use crate::state::AppState;
use crate::text::{chars_of, join_lines, lit_string, string_from_chars, trim_chars, trim_spec};

verus! {

/// What is being edited; `Idle` means no edit is in progress.
#[derive(Clone, Copy, Debug, PartialEq, Eq, Structural)]
pub enum EditTarget {
    Idle,
    NotebookTitle,
    SectionTitle,
    PageTitle,
    PageContent,
    JournalEntry,
    TaskTitle,
    TaskDetails,
    HabitNew,
    Habit,
    FinanceNew,
    Finance,
    CaloriesNew,
    Calories,
    KanbanNew,
    KanbanEdit,
    CardNew,
    CardEdit,
    CardImport,
}

pub struct EditSession {
    pub buffer: TextBuffer,
    pub target: EditTarget,
    pub pending_import_path: Option<String>,
}

/// All collections and indices except the tasks and the task index.
pub open spec fn same_but_tasks(a: AppState, b: AppState) -> bool {
    &&& b.notebooks == a.notebooks
    &&& b.journal_entries == a.journal_entries
    &&& b.habits == a.habits
    &&& b.finances == a.finances
    &&& b.calories == a.calories
    &&& b.kanban_cards == a.kanban_cards
    &&& b.cards == a.cards
    &&& b.current_journal_date == a.current_journal_date
    &&& b.view_mode == a.view_mode
}

pub open spec fn same_but_habits(a: AppState, b: AppState) -> bool {
    &&& b.notebooks == a.notebooks
    &&& b.journal_entries == a.journal_entries
    &&& b.tasks == a.tasks
    &&& b.finances == a.finances
    &&& b.calories == a.calories
    &&& b.kanban_cards == a.kanban_cards
    &&& b.cards == a.cards
    &&& b.current_journal_date == a.current_journal_date
    &&& b.view_mode == a.view_mode
}

pub open spec fn same_but_finances(a: AppState, b: AppState) -> bool {
    &&& b.notebooks == a.notebooks
    &&& b.journal_entries == a.journal_entries
    &&& b.tasks == a.tasks
    &&& b.habits == a.habits
    &&& b.calories == a.calories
    &&& b.kanban_cards == a.kanban_cards
    &&& b.cards == a.cards
    &&& b.current_journal_date == a.current_journal_date
    &&& b.view_mode == a.view_mode
}

pub open spec fn same_but_calories(a: AppState, b: AppState) -> bool {
    &&& b.notebooks == a.notebooks
    &&& b.journal_entries == a.journal_entries
    &&& b.tasks == a.tasks
    &&& b.habits == a.habits
    &&& b.finances == a.finances
    &&& b.kanban_cards == a.kanban_cards
    &&& b.cards == a.cards
    &&& b.current_journal_date == a.current_journal_date
    &&& b.view_mode == a.view_mode
}

pub open spec fn same_but_kanban(a: AppState, b: AppState) -> bool {
    &&& b.notebooks == a.notebooks
    &&& b.journal_entries == a.journal_entries
    &&& b.tasks == a.tasks
    &&& b.habits == a.habits
    &&& b.finances == a.finances
    &&& b.calories == a.calories
    &&& b.cards == a.cards
    &&& b.current_journal_date == a.current_journal_date
    &&& b.view_mode == a.view_mode
}

pub open spec fn same_but_cards(a: AppState, b: AppState) -> bool {
    &&& b.notebooks == a.notebooks
    &&& b.journal_entries == a.journal_entries
    &&& b.tasks == a.tasks
    &&& b.habits == a.habits
    &&& b.finances == a.finances
    &&& b.calories == a.calories
    &&& b.kanban_cards == a.kanban_cards
    &&& b.current_journal_date == a.current_journal_date
    &&& b.view_mode == a.view_mode
}

/// The first index holding the journal entry for `d`, or the length
/// when there is none.
pub open spec fn first_journal_idx(entries: Seq<crate::model::JournalEntry>, d: Date) -> int
    decreases entries.len(),
{
    if entries.len() == 0 {
        0
    } else if entries[0].date == d {
        0
    } else {
        1 + first_journal_idx(entries.drop_first(), d)
    }
}

proof fn lemma_first_journal_is(entries: Seq<crate::model::JournalEntry>, d: Date, j: int)
    requires
        0 <= j <= entries.len(),
        j < entries.len() ==> entries[j].date == d,
        forall|k: int| 0 <= k < j ==> #[trigger] entries[k].date != d,
        j == entries.len() ==> (forall|k: int|
            0 <= k < entries.len() ==> #[trigger] entries[k].date != d),
    ensures
        first_journal_idx(entries, d) == j,
    decreases entries.len(),
{
    if entries.len() > 0 {
        if entries[0].date == d {
        } else {
            assert(forall|k: int|
                0 <= k < j - 1 ==> #[trigger] entries.drop_first()[k].date == entries[k
                    + 1].date);
            lemma_first_journal_is(entries.drop_first(), d, j - 1);
        }
    }
}

impl EditSession {
    pub fn new() -> (r: EditSession)
        ensures
            r.target is Idle,
            r.buffer@ == empty_buf(),
            buf_wf(r.buffer@),
            r.pending_import_path is None,
    {
        EditSession {
            buffer: TextBuffer::new(),
            target: EditTarget::Idle,
            pending_import_path: None,
        }
    }

    pub fn is_editing(&self) -> (r: bool)
        ensures
            r == !(self.target is Idle),
    {
        !matches!(self.target, EditTarget::Idle)
    }

    /// Open an edit: load the initial text, clear the history and the
    /// selection, put the cursor at the end of the content.
    pub fn start(&mut self, target: EditTarget, initial_text: &str)
        ensures
            final(self).target == target,
            final(self).buffer@.undo.len() == 0,
            final(self).buffer@.redo.len() == 0,
            !final(self).buffer@.select_all,
            final(self).buffer@.lines == (if crate::text::lines_of(initial_text@).len() == 0 {
                seq![Seq::<char>::empty()]
            } else {
                crate::text::lines_of(initial_text@)
            }),
            (final(self).buffer@.cur_line, final(self).buffer@.cur_col) == crate::buffer::end_cursor(
                final(self).buffer@.lines,
            ),
            join_lines(final(self).buffer@.lines) == join_lines(
                crate::text::lines_of(initial_text@),
            ),
            buf_wf(final(self).buffer@),
            final(self).pending_import_path == old(self).pending_import_path,
    {
        self.buffer.set_content(initial_text);
        self.target = target;
        proof {
            if crate::text::lines_of(initial_text@).len() == 0 {
                assert(join_lines(self.buffer@.lines) =~= join_lines(
                    crate::text::lines_of(initial_text@),
                ));
            }
        }
    }

    /// Abandon the edit: the buffer is discarded and no collection is
    /// touched.
    pub fn cancel(&mut self)
        ensures
            final(self).target is Idle,
            final(self).buffer@ == empty_buf(),
            buf_wf(final(self).buffer@),
            final(self).pending_import_path == old(self).pending_import_path,
    {
        self.buffer = TextBuffer::new();
        self.target = EditTarget::Idle;
    }

    /// Validate the buffer against the active target and, on success,
    /// update the collection and return to idle. On failure the session
    /// stays exactly as it was — same target, same buffer text — and the
    /// field's message is returned.
    #[verifier::rlimit(100)]
    pub fn commit(&mut self, state: &mut AppState, today: Date) -> (r: Result<(), String>)
        requires
            today.wf(),
        ensures
            r is Err ==> final(self).buffer == old(self).buffer && final(self).target == old(self).target && *final(state) == *old(state) && final(self).pending_import_path == old(self).pending_import_path,
            r is Ok && !(old(self).target is CardImport) && !(old(self).target is Idle) ==> final(self).target is Idle,
            r is Ok && !(old(self).target is CardImport) ==> final(self).buffer@ == empty_buf(),
            r is Ok && old(self).target is Idle ==> *final(state) == *old(state) && final(self).target is Idle,
            ({
                let text = join_lines(old(self).buffer@.lines);
                &&& (old(self).target is TaskTitle ==> (match spec_parse_task(text, None, today) {
                    Ok(tv) => r is Ok && final(state).tasks@.len() == old(state).tasks@.len() + 1
                        && final(state).tasks@.last()@ == tv && final(state).tasks@.take(
                        old(state).tasks@.len() as int,
                    ) == old(state).tasks@ && same_but_tasks(*old(state), *final(state)) && final(state).current_task_idx as int == final(state).tasks@.len() - 1,
                    Err(m) => (r matches Err(e) && e@ == m),
                }))
                &&& (old(self).target is TaskDetails ==> (if old(state).current_task_idx < old(state).tasks@.len() {
                    match spec_parse_task(
                        text,
                        Some(old(state).tasks@[old(state).current_task_idx as int]@),
                        today,
                    ) {
                        Ok(tv) => r is Ok && final(state).tasks@.len() == old(state).tasks@.len()
                            && final(state).tasks@[old(state).current_task_idx as int]@ == tv
                            && (forall|k: int|
                            0 <= k < old(state).tasks@.len() && k != old(state).current_task_idx as int ==> final(state).tasks@[k] == old(state).tasks@[k]) && same_but_tasks(*old(state), *final(state)),
                        Err(m) => (r matches Err(e) && e@ == m),
                    }
                } else {
                    r is Err
                }))
                &&& (old(self).target is Habit ==> (if old(state).current_habit_idx < old(state).habits@.len() {
                    match spec_parse_habit(
                        text,
                        Some(old(state).habits@[old(state).current_habit_idx as int]@),
                        old(state).habits@[old(state).current_habit_idx as int].start_date,
                        today,
                    ) {
                        Ok(hv) => r is Ok && final(state).habits@.len() == old(state).habits@.len() && final(state).habits@[old(state).current_habit_idx as int]@ == hv && (forall|k: int|
                            0 <= k < old(state).habits@.len() && k != old(state).current_habit_idx as int ==> final(state).habits@[k] == old(state).habits@[k]) && same_but_habits(*old(state), *final(state)),
                        Err(m) => (r matches Err(e) && e@ == m),
                    }
                } else {
                    r is Err
                }))
                &&& (old(self).target is Finance ==> (if old(state).current_finance_idx < old(state).finances@.len() {
                    match spec_parse_finance(
                        text,
                        Some(old(state).finances@[old(state).current_finance_idx as int]@),
                        old(state).finances@[old(state).current_finance_idx as int].date,
                        today,
                    ) {
                        Ok(fv) => r is Ok && final(state).finances@.len() == old(state).finances@.len() && final(state).finances@[old(state).current_finance_idx as int]@ == fv && (forall|k: int|
                            0 <= k < old(state).finances@.len() && k != old(state).current_finance_idx as int ==> final(state).finances@[k] == old(state).finances@[k]) && same_but_finances(*old(state), *final(state)),
                        Err(m) => (r matches Err(e) && e@ == m),
                    }
                } else {
                    r is Err
                }))
                &&& (old(self).target is Calories ==> (if old(state).current_calorie_idx < old(state).calories@.len() {
                    match spec_parse_calorie(
                        text,
                        Some(old(state).calories@[old(state).current_calorie_idx as int]@),
                        old(state).calories@[old(state).current_calorie_idx as int].date,
                        today,
                    ) {
                        Ok(cv) => r is Ok && final(state).calories@.len() == old(state).calories@.len() && final(state).calories@[old(state).current_calorie_idx as int]@ == cv && (forall|k: int|
                            0 <= k < old(state).calories@.len() && k != old(state).current_calorie_idx as int ==> final(state).calories@[k] == old(state).calories@[k]) && same_but_calories(*old(state), *final(state)),
                        Err(m) => (r matches Err(e) && e@ == m),
                    }
                } else {
                    r is Err
                }))
                &&& (old(self).target is KanbanEdit ==> (if old(state).current_kanban_card_idx < old(state).kanban_cards@.len() {
                    match spec_parse_kanban(
                        text,
                        Some(old(state).kanban_cards@[old(state).current_kanban_card_idx as int]@),
                        today,
                    ) {
                        Ok(kv) => r is Ok && final(state).kanban_cards@.len() == old(state).kanban_cards@.len() && final(state).kanban_cards@[old(state).current_kanban_card_idx as int]@ == kv && (
                        forall|k: int|
                            0 <= k < old(state).kanban_cards@.len() && k != old(state).current_kanban_card_idx as int ==> final(state).kanban_cards@[k]
                                == old(state).kanban_cards@[k]) && same_but_kanban(
                            *old(state),
                            *final(state),
                        ),
                        Err(m) => (r matches Err(e) && e@ == m),
                    }
                } else {
                    r is Err
                }))
                &&& (old(self).target is CardEdit ==> (if old(state).current_card_idx < old(state).cards@.len() {
                    match spec_parse_card(
                        text,
                        Some(old(state).cards@[old(state).current_card_idx as int]@),
                        today,
                    ) {
                        Ok(cv) => r is Ok && final(state).cards@.len() == old(state).cards@.len()
                            && final(state).cards@[old(state).current_card_idx as int]@ == cv && (
                        forall|k: int|
                            0 <= k < old(state).cards@.len() && k != old(state).current_card_idx as int ==> final(state).cards@[k] == old(state).cards@[k]) && same_but_cards(*old(state), *final(state)),
                        Err(m) => (r matches Err(e) && e@ == m),
                    }
                } else {
                    r is Err
                }))
                &&& (old(self).target is HabitNew ==> (match spec_parse_habit(
                    text,
                    None,
                    old(state).current_journal_date,
                    today,
                ) {
                    Ok(hv) => r is Ok && final(state).habits@.len() == old(state).habits@.len() + 1
                        && final(state).habits@.last()@ == hv && same_but_habits(
                        *old(state),
                        *final(state),
                    ),
                    Err(m) => (r matches Err(e) && e@ == m),
                }))
                &&& (old(self).target is FinanceNew ==> (match spec_parse_finance(
                    text,
                    None,
                    old(state).current_journal_date,
                    today,
                ) {
                    Ok(fv) => r is Ok && final(state).finances@.len() == old(state).finances@.len() + 1 && final(state).finances@.last()@ == fv
                        && same_but_finances(*old(state), *final(state)),
                    Err(m) => (r matches Err(e) && e@ == m),
                }))
                &&& (old(self).target is CaloriesNew ==> (match spec_parse_calorie(
                    text,
                    None,
                    old(state).current_journal_date,
                    today,
                ) {
                    Ok(cv) => r is Ok && final(state).calories@.len() == old(state).calories@.len() + 1 && final(state).calories@.last()@ == cv
                        && same_but_calories(*old(state), *final(state)),
                    Err(m) => (r matches Err(e) && e@ == m),
                }))
                &&& (old(self).target is KanbanNew ==> (match spec_parse_kanban(
                    text,
                    None,
                    today,
                ) {
                    Ok(kv) => r is Ok && final(state).kanban_cards@.len() == old(state).kanban_cards@.len() + 1 && final(state).kanban_cards@.last()@ == kv
                        && same_but_kanban(*old(state), *final(state)),
                    Err(m) => (r matches Err(e) && e@ == m),
                }))
                &&& (old(self).target is CardNew ==> (match spec_parse_card(text, None, today) {
                    Ok(cv) => r is Ok && final(state).cards@.len() == old(state).cards@.len() + 1
                        && final(state).cards@.last()@ == cv && same_but_cards(
                        *old(state),
                        *final(state),
                    ),
                    Err(m) => (r matches Err(e) && e@ == m),
                }))
                &&& (old(self).target is CardImport ==> r is Ok && final(self).target == old(self).target && *final(state) == *old(state) && (if trim_spec(text).len() > 0 {
                    final(self).pending_import_path matches Some(p) && p@ == trim_spec(text)
                } else {
                    final(self).pending_import_path == old(self).pending_import_path
                }))
                &&& (old(self).target is NotebookTitle ==> (if old(state).current_notebook_idx
                    < old(state).notebooks@.len() && text.len() <= 200 {
                    let nb = old(state).current_notebook_idx as int;
                    &&& r is Ok
                    &&& final(state).notebooks@.len() == old(state).notebooks@.len()
                    &&& final(state).notebooks@[nb].title@ == text
                    &&& final(state).notebooks@[nb].sections == old(state).notebooks@[nb].sections
                    &&& final(state).notebooks@[nb].created_at == old(state).notebooks@[nb].created_at
                    &&& (forall|k: int|
                        0 <= k < old(state).notebooks@.len() && k != nb ==> final(state).notebooks@[k] == old(state).notebooks@[k])
                    &&& crate::state::same_but_notebooks(*old(state), *final(state))
                } else {
                    r is Err
                }))
                &&& (old(self).target is SectionTitle ==> (if old(state).current_notebook_idx
                    < old(state).notebooks@.len() && old(state).current_section_idx < old(state).notebooks@[old(state).current_notebook_idx as int].sections@.len() && text.len()
                    <= 200 {
                    let nb = old(state).current_notebook_idx as int;
                    let sec = old(state).current_section_idx as int;
                    &&& r is Ok
                    &&& final(state).notebooks@.len() == old(state).notebooks@.len()
                    &&& final(state).notebooks@[nb].sections@.len() == old(state).notebooks@[nb].sections@.len()
                    &&& final(state).notebooks@[nb].sections@[sec].title@ == text
                    &&& final(state).notebooks@[nb].sections@[sec].pages == old(state).notebooks@[nb].sections@[sec].pages
                    &&& final(state).notebooks@[nb].sections@[sec].created_at == old(state).notebooks@[nb].sections@[sec].created_at
                    &&& final(state).notebooks@[nb].title == old(state).notebooks@[nb].title
                    &&& final(state).notebooks@[nb].created_at == old(state).notebooks@[nb].created_at
                    &&& (forall|k: int|
                        0 <= k < old(state).notebooks@[nb].sections@.len() && k != sec ==> final(state).notebooks@[nb].sections@[k] == old(state).notebooks@[nb].sections@[k])
                    &&& (forall|k: int|
                        0 <= k < old(state).notebooks@.len() && k != nb ==> final(state).notebooks@[k] == old(state).notebooks@[k])
                    &&& crate::state::same_but_notebooks(*old(state), *final(state))
                } else {
                    r is Err
                }))
                &&& (old(self).target is PageTitle ==> (if old(state).current_notebook_idx < old(state).notebooks@.len() && old(state).current_section_idx < old(state).notebooks@[old(state).current_notebook_idx as int].sections@.len() && old(state).current_page_idx
                    < old(state).notebooks@[old(state).current_notebook_idx as int].sections@[old(state).current_section_idx as int].pages@.len() && text.len() <= 200 {
                    let nb = old(state).current_notebook_idx as int;
                    let sec = old(state).current_section_idx as int;
                    let pg = old(state).current_page_idx as int;
                    &&& r is Ok
                    &&& final(state).notebooks@.len() == old(state).notebooks@.len()
                    &&& final(state).notebooks@[nb].sections@.len() == old(state).notebooks@[nb].sections@.len()
                    &&& final(state).notebooks@[nb].sections@[sec].pages@.len() == old(state).notebooks@[nb].sections@[sec].pages@.len()
                    &&& final(state).notebooks@[nb].sections@[sec].pages@[pg].title@ == text
                    &&& final(state).notebooks@[nb].sections@[sec].pages@[pg].content == old(state).notebooks@[nb].sections@[sec].pages@[pg].content
                    &&& final(state).notebooks@[nb].sections@[sec].pages@[pg].modified_at == today
                    &&& (forall|k: int|
                        0 <= k < old(state).notebooks@[nb].sections@[sec].pages@.len() && k != pg
                            ==> final(state).notebooks@[nb].sections@[sec].pages@[k] == old(state).notebooks@[nb].sections@[sec].pages@[k])
                    &&& final(state).notebooks@[nb].sections@[sec].title == old(state).notebooks@[nb].sections@[sec].title
                    &&& (forall|k: int|
                        0 <= k < old(state).notebooks@[nb].sections@.len() && k != sec ==> final(state).notebooks@[nb].sections@[k] == old(state).notebooks@[nb].sections@[k])
                    &&& (forall|k: int|
                        0 <= k < old(state).notebooks@.len() && k != nb ==> final(state).notebooks@[k] == old(state).notebooks@[k])
                    &&& crate::state::same_but_notebooks(*old(state), *final(state))
                } else {
                    r is Err
                }))
                &&& (old(self).target is PageContent ==> (if old(state).current_notebook_idx
                    < old(state).notebooks@.len() && old(state).current_section_idx < old(state).notebooks@[old(state).current_notebook_idx as int].sections@.len() && old(state).current_page_idx < old(state).notebooks@[old(state).current_notebook_idx as int].sections@[old(state).current_section_idx as int].pages@.len() && text.len() <= 100000 {
                    let nb = old(state).current_notebook_idx as int;
                    let sec = old(state).current_section_idx as int;
                    let pg = old(state).current_page_idx as int;
                    &&& r is Ok
                    &&& final(state).notebooks@.len() == old(state).notebooks@.len()
                    &&& final(state).notebooks@[nb].sections@.len() == old(state).notebooks@[nb].sections@.len()
                    &&& final(state).notebooks@[nb].sections@[sec].pages@.len() == old(state).notebooks@[nb].sections@[sec].pages@.len()
                    &&& final(state).notebooks@[nb].sections@[sec].pages@[pg].content@ == text
                    &&& final(state).notebooks@[nb].sections@[sec].pages@[pg].title@ == (
                    match crate::model::spec_derived_title(text) {
                        Some(t) => t,
                        None => old(state).notebooks@[nb].sections@[sec].pages@[pg].title@,
                    })
                    &&& final(state).notebooks@[nb].sections@[sec].pages@[pg].modified_at == today
                    &&& (forall|k: int|
                        0 <= k < old(state).notebooks@[nb].sections@[sec].pages@.len() && k != pg
                            ==> final(state).notebooks@[nb].sections@[sec].pages@[k] == old(state).notebooks@[nb].sections@[sec].pages@[k])
                    &&& final(state).notebooks@[nb].sections@[sec].title == old(state).notebooks@[nb].sections@[sec].title
                    &&& (forall|k: int|
                        0 <= k < old(state).notebooks@[nb].sections@.len() && k != sec ==> final(state).notebooks@[nb].sections@[k] == old(state).notebooks@[nb].sections@[k])
                    &&& (forall|k: int|
                        0 <= k < old(state).notebooks@.len() && k != nb ==> final(state).notebooks@[k] == old(state).notebooks@[k])
                    &&& crate::state::same_but_notebooks(*old(state), *final(state))
                } else {
                    r is Err
                }))
                &&& (old(self).target is JournalEntry ==> (if text.len() <= 50000 {
                    let d = old(state).current_journal_date;
                    let j = first_journal_idx(old(state).journal_entries@, d);
                    &&& r is Ok
                    &&& crate::state::same_but_journal(*old(state), *final(state))
                    &&& (if j < old(state).journal_entries@.len() {
                        &&& final(state).journal_entries@.len() == old(state).journal_entries@.len()
                        &&& final(state).journal_entries@[j].content@ == text
                        &&& final(state).journal_entries@[j].date == old(state).journal_entries@[j].date
                        &&& final(state).journal_entries@[j].mood == old(state).journal_entries@[j].mood
                        &&& (forall|k: int|
                            0 <= k < old(state).journal_entries@.len() && k != j ==> final(state).journal_entries@[k] == old(state).journal_entries@[k])
                    } else {
                        &&& final(state).journal_entries@.len() == old(state).journal_entries@.len() + 1
                        &&& final(state).journal_entries@.last().date == d
                        &&& final(state).journal_entries@.last().content@ == text
                        &&& final(state).journal_entries@.last().mood is None
                        &&& final(state).journal_entries@.take(
                            old(state).journal_entries@.len() as int,
                        ) == old(state).journal_entries@
                    })
                } else {
                    r is Err
                }))
            }),
    {
        let text_string = self.buffer.to_text();
        let text = text_string.as_str();
        match self.target {
            EditTarget::Idle => {
                self.finish();
                Ok(())
            },
            EditTarget::TaskTitle => {
                match parse_task_editor_content(text, None, today) {
                    Ok(task) => {
                        state.tasks.push(task);
                        proof {
                            assert(state.tasks@.take(old(state).tasks@.len() as int) =~= old(state).tasks@);
                        }
                        state.current_task_idx = state.tasks.len() - 1;
                        self.finish();
                        Ok(())
                    },
                    Err(e) => Err(e),
                }
            },
            EditTarget::TaskDetails => {
                let idx = state.current_task_idx;
                if idx >= state.tasks.len() {
                    return Err(lit_string("No task selected"));
                }
                match parse_task_editor_content(text, Some(&state.tasks[idx]), today) {
                    Ok(task) => {
                        state.tasks.set(idx, task);
                        self.finish();
                        Ok(())
                    },
                    Err(e) => Err(e),
                }
            },
            EditTarget::HabitNew => {
                match parse_habit_editor_content(text, None, state.current_journal_date, today) {
                    Ok(h) => {
                        state.habits.push(h);
                        state.current_habit_idx = state.habits.len() - 1;
                        self.finish();
                        Ok(())
                    },
                    Err(e) => Err(e),
                }
            },
            EditTarget::Habit => {
                let idx = state.current_habit_idx;
                if idx >= state.habits.len() {
                    return Err(lit_string("No habit selected"));
                }
                let start = state.habits[idx].start_date;
                match parse_habit_editor_content(text, Some(&state.habits[idx]), start, today) {
                    Ok(h) => {
                        state.habits.set(idx, h);
                        self.finish();
                        Ok(())
                    },
                    Err(e) => Err(e),
                }
            },
            EditTarget::FinanceNew => {
                match parse_finance_editor_content(
                    text,
                    None,
                    state.current_journal_date,
                    today,
                ) {
                    Ok(f) => {
                        state.finances.push(f);
                        state.current_finance_idx = state.finances.len() - 1;
                        self.finish();
                        Ok(())
                    },
                    Err(e) => Err(e),
                }
            },
            EditTarget::Finance => {
                let idx = state.current_finance_idx;
                if idx >= state.finances.len() {
                    return Err(lit_string("No finance entry selected"));
                }
                let d = state.finances[idx].date;
                match parse_finance_editor_content(text, Some(&state.finances[idx]), d, today) {
                    Ok(f) => {
                        state.finances.set(idx, f);
                        self.finish();
                        Ok(())
                    },
                    Err(e) => Err(e),
                }
            },
            EditTarget::CaloriesNew => {
                match parse_calorie_editor_content(
                    text,
                    None,
                    state.current_journal_date,
                    today,
                ) {
                    Ok(c) => {
                        state.calories.push(c);
                        state.current_calorie_idx = state.calories.len() - 1;
                        self.finish();
                        Ok(())
                    },
                    Err(e) => Err(e),
                }
            },
            EditTarget::Calories => {
                let idx = state.current_calorie_idx;
                if idx >= state.calories.len() {
                    return Err(lit_string("No calorie entry selected"));
                }
                let d = state.calories[idx].date;
                match parse_calorie_editor_content(text, Some(&state.calories[idx]), d, today) {
                    Ok(c) => {
                        state.calories.set(idx, c);
                        self.finish();
                        Ok(())
                    },
                    Err(e) => Err(e),
                }
            },
            EditTarget::KanbanNew => {
                match parse_kanban_editor_content(text, None, today) {
                    Ok(k) => {
                        state.kanban_cards.push(k);
                        state.current_kanban_card_idx = state.kanban_cards.len() - 1;
                        self.finish();
                        Ok(())
                    },
                    Err(e) => Err(e),
                }
            },
            EditTarget::KanbanEdit => {
                let idx = state.current_kanban_card_idx;
                if idx >= state.kanban_cards.len() {
                    return Err(lit_string("No kanban card selected"));
                }
                match parse_kanban_editor_content(text, Some(&state.kanban_cards[idx]), today) {
                    Ok(k) => {
                        state.kanban_cards.set(idx, k);
                        self.finish();
                        Ok(())
                    },
                    Err(e) => Err(e),
                }
            },
            EditTarget::CardNew => {
                match parse_card_editor_content_structured(text, None, today) {
                    Ok(c) => {
                        state.cards.push(c);
                        state.current_card_idx = state.cards.len() - 1;
                        self.finish();
                        Ok(())
                    },
                    Err(e) => Err(e),
                }
            },
            EditTarget::CardEdit => {
                let idx = state.current_card_idx;
                if idx >= state.cards.len() {
                    return Err(lit_string("No card selected"));
                }
                match parse_card_editor_content_structured(text, Some(&state.cards[idx]), today) {
                    Ok(c) => {
                        state.cards.set(idx, c);
                        self.finish();
                        Ok(())
                    },
                    Err(e) => Err(e),
                }
            },
            EditTarget::CardImport => {
                // Only record the path; the import itself is a separate,
                // explicit action, and the editor stays open.
                let chars = chars_of(text);
                let trimmed = trim_chars(&chars);
                if trimmed.len() > 0 {
                    self.pending_import_path = Some(string_from_chars(&trimmed));
                }
                Ok(())
            },
            EditTarget::NotebookTitle => {
                let idx = state.current_notebook_idx;
                if idx >= state.notebooks.len() {
                    return Err(lit_string("No notebook selected"));
                }
                let chars = chars_of(text);
                if chars.len() > 200 {
                    return Err(lit_string("Invalid Title. Maximum length is 200 characters"));
                }
                let mut nb = state.notebooks.remove(idx);
                nb.title = string_from_chars(&chars);
                state.notebooks.insert(idx, nb);
                self.finish();
                Ok(())
            },
            EditTarget::SectionTitle => {
                let nidx = state.current_notebook_idx;
                if nidx >= state.notebooks.len() {
                    return Err(lit_string("No notebook selected"));
                }
                let sidx = state.current_section_idx;
                if sidx >= state.notebooks[nidx].sections.len() {
                    return Err(lit_string("No section selected"));
                }
                let chars = chars_of(text);
                if chars.len() > 200 {
                    return Err(lit_string("Invalid Title. Maximum length is 200 characters"));
                }
                let mut nb = state.notebooks.remove(nidx);
                let mut sec = nb.sections.remove(sidx);
                sec.title = string_from_chars(&chars);
                nb.sections.insert(sidx, sec);
                state.notebooks.insert(nidx, nb);
                self.finish();
                Ok(())
            },
            EditTarget::PageTitle => {
                let nidx = state.current_notebook_idx;
                if nidx >= state.notebooks.len() {
                    return Err(lit_string("No notebook selected"));
                }
                let sidx = state.current_section_idx;
                if sidx >= state.notebooks[nidx].sections.len() {
                    return Err(lit_string("No section selected"));
                }
                let pidx = state.current_page_idx;
                if pidx >= state.notebooks[nidx].sections[sidx].pages.len() {
                    return Err(lit_string("No page selected"));
                }
                let chars = chars_of(text);
                if chars.len() > 200 {
                    return Err(lit_string("Invalid Title. Maximum length is 200 characters"));
                }
                let mut nb = state.notebooks.remove(nidx);
                let mut sec = nb.sections.remove(sidx);
                let mut pg = sec.pages.remove(pidx);
                pg.title = string_from_chars(&chars);
                pg.modified_at = today;
                sec.pages.insert(pidx, pg);
                nb.sections.insert(sidx, sec);
                state.notebooks.insert(nidx, nb);
                self.finish();
                Ok(())
            },
            EditTarget::PageContent => {
                let nidx = state.current_notebook_idx;
                if nidx >= state.notebooks.len() {
                    return Err(lit_string("No notebook selected"));
                }
                let sidx = state.current_section_idx;
                if sidx >= state.notebooks[nidx].sections.len() {
                    return Err(lit_string("No section selected"));
                }
                let pidx = state.current_page_idx;
                if pidx >= state.notebooks[nidx].sections[sidx].pages.len() {
                    return Err(lit_string("No page selected"));
                }
                let chars = chars_of(text);
                if chars.len() > 100000 {
                    return Err(lit_string("Invalid Content. Maximum length is 100000 characters"));
                }
                let mut nb = state.notebooks.remove(nidx);
                let mut sec = nb.sections.remove(sidx);
                let mut pg = sec.pages.remove(pidx);
                pg.content = string_from_chars(&chars);
                // The page's display title follows its first line.
                match crate::model::derived_title(&chars) {
                    Some(t) => {
                        pg.title = string_from_chars(&t);
                    },
                    None => {},
                }
                pg.modified_at = today;
                sec.pages.insert(pidx, pg);
                nb.sections.insert(sidx, sec);
                state.notebooks.insert(nidx, nb);
                self.finish();
                Ok(())
            },
            EditTarget::JournalEntry => {
                let chars = chars_of(text);
                if chars.len() > 50000 {
                    return Err(lit_string("Invalid Entry. Maximum length is 50000 characters"));
                }
                let date = state.current_journal_date;
                let mut i: usize = 0;
                let mut found: bool = false;
                let n = state.journal_entries.len();
                while i < n && !found
                    invariant
                        i <= n,
                        n == state.journal_entries@.len(),
                        found ==> i < n && state.journal_entries@[i as int].date == date,
                        forall|k: int|
                            0 <= k < i ==> #[trigger] state.journal_entries@[k].date != date,
                    decreases n - i + (if found {
                        0int
                    } else {
                        1int
                    }),
                {
                    if state.journal_entries[i].date == date {
                        found = true;
                    } else {
                        i = i + 1;
                    }
                }
                proof {
                    lemma_first_journal_is(state.journal_entries@, date, i as int);
                    assert(first_journal_idx(state.journal_entries@, date) == i as int);
                }
                if found {
                    let mut e = state.journal_entries.remove(i);
                    e.content = string_from_chars(&chars);
                    state.journal_entries.insert(i, e);
                } else {
                    let mut e = crate::model::JournalEntry::new(date);
                    e.content = string_from_chars(&chars);
                    state.journal_entries.push(e);
                }
                self.finish();
                Ok(())
            },
        }
    }

    /// Close the edit after a successful commit.
    fn finish(&mut self)
        ensures
            final(self).target is Idle,
            final(self).buffer@ == empty_buf(),
            final(self).pending_import_path == old(self).pending_import_path,
    {
        self.buffer = TextBuffer::new();
        self.target = EditTarget::Idle;
    }
}

} // verus!
