//! The whole application state: every collection plus the navigation
//! indices, with defensive re-validation of the indices after a load —
//! a stored index is adversarial input and is reset to zero whenever it
//! does not address its collection.

use vstd::prelude::*;
use crate::date::Date;
use crate::model::{
    CalorieEntry, Card, FinanceEntry, Habit, JournalEntry, KanbanCard, Notebook, Task, ViewMode,
};

verus! {

pub struct AppState {
    pub notebooks: Vec<Notebook>,
    pub tasks: Vec<Task>,
    pub journal_entries: Vec<JournalEntry>,
    pub habits: Vec<Habit>,
    pub finances: Vec<FinanceEntry>,
    pub calories: Vec<CalorieEntry>,
    pub kanban_cards: Vec<KanbanCard>,
    pub cards: Vec<Card>,
    pub current_notebook_idx: usize,
    pub current_section_idx: usize,
    pub current_page_idx: usize,
    pub current_task_idx: usize,
    pub current_habit_idx: usize,
    pub current_finance_idx: usize,
    pub current_calorie_idx: usize,
    pub current_kanban_card_idx: usize,
    pub current_card_idx: usize,
    pub current_journal_date: Date,
    pub view_mode: ViewMode,
}

/// All collections except the notebooks agree (the navigation indices
/// are left free).
pub open spec fn same_but_notebooks(a: AppState, b: AppState) -> bool {
    &&& b.tasks == a.tasks
    &&& b.journal_entries == a.journal_entries
    &&& b.habits == a.habits
    &&& b.finances == a.finances
    &&& b.calories == a.calories
    &&& b.kanban_cards == a.kanban_cards
    &&& b.cards == a.cards
    &&& b.current_journal_date == a.current_journal_date
    &&& b.view_mode == a.view_mode
}

/// All collections except the journal agree.
pub open spec fn same_but_journal(a: AppState, b: AppState) -> bool {
    &&& b.notebooks == a.notebooks
    &&& b.tasks == a.tasks
    &&& b.habits == a.habits
    &&& b.finances == a.finances
    &&& b.calories == a.calories
    &&& b.kanban_cards == a.kanban_cards
    &&& b.cards == a.cards
    &&& b.current_journal_date == a.current_journal_date
    &&& b.view_mode == a.view_mode
}

/// An index addresses its collection, or is zero when it cannot.
pub open spec fn idx_ok(idx: int, len: int) -> bool {
    idx < len || idx == 0
}

impl AppState {
    /// The number of sections under the current notebook (zero when the
    /// notebook index is out of range).
    pub open spec fn spec_section_count(self) -> int {
        if self.current_notebook_idx < self.notebooks.len() {
            self.notebooks[self.current_notebook_idx as int].sections.len() as int
        } else {
            0
        }
    }

    pub open spec fn spec_page_count(self) -> int {
        if self.current_notebook_idx < self.notebooks.len() && self.current_section_idx
            < self.notebooks[self.current_notebook_idx as int].sections.len() {
            self.notebooks[self.current_notebook_idx as int].sections[self.current_section_idx as int].pages.len() as int
        } else {
            0
        }
    }

    /// Every navigation index addresses its collection or is zero.
    pub open spec fn indices_wf(self) -> bool {
        &&& idx_ok(self.current_notebook_idx as int, self.notebooks.len() as int)
        &&& idx_ok(self.current_section_idx as int, self.spec_section_count())
        &&& idx_ok(self.current_page_idx as int, self.spec_page_count())
        &&& idx_ok(self.current_task_idx as int, self.tasks.len() as int)
        &&& idx_ok(self.current_habit_idx as int, self.habits.len() as int)
        &&& idx_ok(self.current_finance_idx as int, self.finances.len() as int)
        &&& idx_ok(self.current_calorie_idx as int, self.calories.len() as int)
        &&& idx_ok(self.current_kanban_card_idx as int, self.kanban_cards.len() as int)
        &&& idx_ok(self.current_card_idx as int, self.cards.len() as int)
    }

    /// A fresh, empty state.
    pub fn new(today: Date) -> (r: AppState)
        ensures
            r.notebooks@.len() == 0,
            r.tasks@.len() == 0,
            r.journal_entries@.len() == 0,
            r.habits@.len() == 0,
            r.finances@.len() == 0,
            r.calories@.len() == 0,
            r.kanban_cards@.len() == 0,
            r.cards@.len() == 0,
            r.current_task_idx == 0,
            r.current_journal_date == today,
            r.view_mode == ViewMode::Notes,
            r.indices_wf(),
    {
        AppState {
            notebooks: Vec::new(),
            tasks: Vec::new(),
            journal_entries: Vec::new(),
            habits: Vec::new(),
            finances: Vec::new(),
            calories: Vec::new(),
            kanban_cards: Vec::new(),
            cards: Vec::new(),
            current_notebook_idx: 0,
            current_section_idx: 0,
            current_page_idx: 0,
            current_task_idx: 0,
            current_habit_idx: 0,
            current_finance_idx: 0,
            current_calorie_idx: 0,
            current_kanban_card_idx: 0,
            current_card_idx: 0,
            current_journal_date: today,
            view_mode: ViewMode::Notes,
        }
    }

    /// Append a notebook and select it.
    pub fn add_notebook(&mut self, title: String, today: Date)
        ensures
            final(self).notebooks@.len() == old(self).notebooks@.len() + 1,
            final(self).notebooks@.last().title == title,
            final(self).notebooks@.last().sections@.len() == 0,
            final(self).notebooks@.take(old(self).notebooks@.len() as int) == old(self).notebooks@,
            final(self).current_notebook_idx as int == final(self).notebooks@.len() - 1,
            final(self).tasks == old(self).tasks,
    {
        self.notebooks.push(crate::model::Notebook::new(title, today));
        self.current_notebook_idx = self.notebooks.len() - 1;
        proof {
            assert(self.notebooks@.take(old(self).notebooks@.len() as int) =~= old(self).notebooks@);
        }
    }

    /// Append a section under the current notebook and select it; a
    /// no-op when no notebook is selected.
    pub fn add_section(&mut self, title: String, today: Date) -> (r: bool)
        ensures
            r == (old(self).current_notebook_idx < old(self).notebooks@.len()),
            !r ==> *final(self) == *old(self),
            r ==> ({
                let nb = old(self).current_notebook_idx as int;
                let olds = old(self).notebooks@[nb].sections@;
                let news = final(self).notebooks@[nb].sections@;
                &&& final(self).notebooks@.len() == old(self).notebooks@.len()
                &&& news.len() == olds.len() + 1
                &&& news.take(olds.len() as int) == olds
                &&& news.last().title == title
                &&& news.last().pages@.len() == 0
                &&& news.last().created_at == today
                &&& final(self).notebooks@[nb].title == old(self).notebooks@[nb].title
                &&& final(self).notebooks@[nb].created_at == old(self).notebooks@[nb].created_at
                &&& (forall|k: int|
                    0 <= k < old(self).notebooks@.len() && k != nb ==> final(self).notebooks@[k]
                        == old(self).notebooks@[k])
                &&& same_but_notebooks(*old(self), *final(self))
                &&& final(self).current_section_idx as int == news.len() - 1
                &&& final(self).current_notebook_idx == old(self).current_notebook_idx
            }),
    {
        let idx = self.current_notebook_idx;
        if idx >= self.notebooks.len() {
            return false;
        }
        let ghost olds = self.notebooks@[idx as int].sections@;
        let mut nb = self.notebooks.remove(idx);
        nb.sections.push(crate::model::Section::new(title, today));
        let count = nb.sections.len();
        self.notebooks.insert(idx, nb);
        self.current_section_idx = count - 1;
        proof {
            assert(self.notebooks@[idx as int].sections@.take(olds.len() as int) =~= olds);
        }
        true
    }

    /// Append a page under the current section and select it; a no-op
    /// when no section is selected.
    pub fn add_page(&mut self, title: String, today: Date) -> (r: bool)
        ensures
            r == (old(self).current_notebook_idx < old(self).notebooks@.len() && old(self).current_section_idx < old(self).notebooks@[old(self).current_notebook_idx as int].sections@.len()),
            !r ==> *final(self) == *old(self),
            r ==> ({
                let nb = old(self).current_notebook_idx as int;
                let sec = old(self).current_section_idx as int;
                let oldp = old(self).notebooks@[nb].sections@[sec].pages@;
                let newp = final(self).notebooks@[nb].sections@[sec].pages@;
                &&& final(self).notebooks@.len() == old(self).notebooks@.len()
                &&& final(self).notebooks@[nb].sections@.len() == old(self).notebooks@[nb].sections@.len()
                &&& newp.len() == oldp.len() + 1
                &&& newp.take(oldp.len() as int) == oldp
                &&& newp.last().title == title
                &&& newp.last().content@ == Seq::<char>::empty()
                &&& newp.last().modified_at == today
                &&& final(self).notebooks@[nb].sections@[sec].title == old(self).notebooks@[nb].sections@[sec].title
                &&& (forall|k: int|
                    0 <= k < old(self).notebooks@[nb].sections@.len() && k != sec ==> final(self).notebooks@[nb].sections@[k] == old(self).notebooks@[nb].sections@[k])
                &&& (forall|k: int|
                    0 <= k < old(self).notebooks@.len() && k != nb ==> final(self).notebooks@[k]
                        == old(self).notebooks@[k])
                &&& same_but_notebooks(*old(self), *final(self))
                &&& final(self).current_page_idx as int == newp.len() - 1
                &&& final(self).current_notebook_idx == old(self).current_notebook_idx
                &&& final(self).current_section_idx == old(self).current_section_idx
            }),
    {
        let nidx = self.current_notebook_idx;
        if nidx >= self.notebooks.len() {
            return false;
        }
        let sidx = self.current_section_idx;
        if sidx >= self.notebooks[nidx].sections.len() {
            return false;
        }
        let ghost oldp = self.notebooks@[nidx as int].sections@[sidx as int].pages@;
        let mut nb = self.notebooks.remove(nidx);
        let mut sec = nb.sections.remove(sidx);
        sec.pages.push(crate::model::Page::new(title, today));
        let count = sec.pages.len();
        nb.sections.insert(sidx, sec);
        self.notebooks.insert(nidx, nb);
        self.current_page_idx = count - 1;
        proof {
            assert(self.notebooks@[nidx as int].sections@[sidx as int].pages@.take(
                oldp.len() as int,
            ) =~= oldp);
        }
        true
    }

    /// Reset every out-of-range navigation index to zero, leaving the
    /// collections untouched. A loaded snapshot must pass through here
    /// before any index is used.
    pub fn validate_indices(&mut self)
        ensures
            final(self).notebooks == old(self).notebooks,
            final(self).tasks == old(self).tasks,
            final(self).journal_entries == old(self).journal_entries,
            final(self).habits == old(self).habits,
            final(self).finances == old(self).finances,
            final(self).calories == old(self).calories,
            final(self).kanban_cards == old(self).kanban_cards,
            final(self).cards == old(self).cards,
            final(self).current_journal_date == old(self).current_journal_date,
            final(self).view_mode == old(self).view_mode,
            final(self).current_notebook_idx == (if old(self).current_notebook_idx < old(self).notebooks@.len() {
                old(self).current_notebook_idx
            } else {
                0
            }),
            ({
                let nb = final(self).current_notebook_idx as int;
                let scount = if nb < old(self).notebooks@.len() {
                    old(self).notebooks@[nb].sections@.len() as int
                } else {
                    0
                };
                final(self).current_section_idx == (if (old(self).current_section_idx as int)
                    < scount {
                    old(self).current_section_idx
                } else {
                    0
                })
            }),
            ({
                let nb = final(self).current_notebook_idx as int;
                let sec = final(self).current_section_idx as int;
                let pcount = if nb < old(self).notebooks@.len() && sec < old(self).notebooks@[nb].sections@.len() {
                    old(self).notebooks@[nb].sections@[sec].pages@.len() as int
                } else {
                    0
                };
                final(self).current_page_idx == (if (old(self).current_page_idx as int) < pcount {
                    old(self).current_page_idx
                } else {
                    0
                })
            }),
            final(self).current_task_idx == (if old(self).current_task_idx < old(self).tasks@.len() {
                old(self).current_task_idx
            } else {
                0
            }),
            final(self).current_habit_idx == (if old(self).current_habit_idx < old(self).habits@.len() {
                old(self).current_habit_idx
            } else {
                0
            }),
            final(self).current_finance_idx == (if old(self).current_finance_idx < old(self).finances@.len() {
                old(self).current_finance_idx
            } else {
                0
            }),
            final(self).current_calorie_idx == (if old(self).current_calorie_idx < old(self).calories@.len() {
                old(self).current_calorie_idx
            } else {
                0
            }),
            final(self).current_kanban_card_idx == (if old(self).current_kanban_card_idx < old(self).kanban_cards@.len() {
                old(self).current_kanban_card_idx
            } else {
                0
            }),
            final(self).current_card_idx == (if old(self).current_card_idx < old(self).cards@.len() {
                old(self).current_card_idx
            } else {
                0
            }),
            final(self).indices_wf(),
    {
        if self.current_notebook_idx >= self.notebooks.len() {
            self.current_notebook_idx = 0;
        }
        let section_count = if self.current_notebook_idx < self.notebooks.len() {
            self.notebooks[self.current_notebook_idx].sections.len()
        } else {
            0
        };
        if self.current_section_idx >= section_count {
            self.current_section_idx = 0;
        }
        let page_count = if self.current_notebook_idx < self.notebooks.len()
            && self.current_section_idx
            < self.notebooks[self.current_notebook_idx].sections.len() {
            self.notebooks[self.current_notebook_idx].sections[self.current_section_idx].pages.len()
        } else {
            0
        };
        if self.current_page_idx >= page_count {
            self.current_page_idx = 0;
        }
        if self.current_task_idx >= self.tasks.len() {
            self.current_task_idx = 0;
        }
        if self.current_habit_idx >= self.habits.len() {
            self.current_habit_idx = 0;
        }
        if self.current_finance_idx >= self.finances.len() {
            self.current_finance_idx = 0;
        }
        if self.current_calorie_idx >= self.calories.len() {
            self.current_calorie_idx = 0;
        }
        if self.current_kanban_card_idx >= self.kanban_cards.len() {
            self.current_kanban_card_idx = 0;
        }
        if self.current_card_idx >= self.cards.len() {
            self.current_card_idx = 0;
        }
    }
}

/// Remove the item at `*current_idx` (when in range) and pull the index
/// back when it would fall off the end, so it stays valid whenever the
/// collection stays non-empty.
pub fn delete_and_adjust_index<T>(items: &mut Vec<T>, current_idx: &mut usize)
    ensures
        *old(current_idx) < old(items)@.len() ==> final(items)@ == old(items)@.remove(
            *old(current_idx) as int,
        ),
        *old(current_idx) >= old(items)@.len() ==> final(items)@ == old(items)@
            && *final(current_idx) == *old(current_idx),
        *old(current_idx) < old(items)@.len() ==> *final(current_idx) == (if *old(current_idx)
            >= final(items)@.len() && *old(current_idx) > 0 {
            (*old(current_idx) - 1) as usize
        } else {
            *old(current_idx)
        }),
        final(items)@.len() > 0 ==> *final(current_idx) < final(items)@.len()
            || *final(current_idx) == *old(current_idx),
{
    if *current_idx < items.len() {
        items.remove(*current_idx);
        if *current_idx >= items.len() && *current_idx > 0 {
            *current_idx = *current_idx - 1;
        }
    }
}

} // verus!
