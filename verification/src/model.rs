//! The record kinds of the organizer, their mathematical views, and the
//! small operations on them that the editors and views share.

use vstd::prelude::*;
use crate::date::{
    add_days, spec_add_days, spec_date_le, spec_format_date, spec_format_time, Date, Time,
};
use crate::text::no_newline;
use crate::text::sub_chars;
use crate::text::trim_spec;

verus! {

#[derive(Clone, Copy, Debug, PartialEq, Eq, Structural)]
pub enum TaskPriority {
    Low,
    Medium,
    High,
}

#[derive(Clone, Copy, Debug, PartialEq, Eq, Structural)]
pub enum Recurrence {
    NoRepeat,
    Daily,
    Weekly,
    Monthly,
    Range { start: Date, end: Date, time: Option<Time> },
}

#[derive(Clone, Copy, Debug, PartialEq, Eq, Structural)]
pub enum KanbanStage {
    Todo,
    Doing,
    Done,
}

#[derive(Clone, Copy, Debug, PartialEq, Eq, Structural)]
pub enum HabitStatus {
    Active,
    Paused,
}

#[derive(Clone, Copy, Debug, PartialEq, Eq, Structural)]
pub enum CardType {
    Basic,
    Cloze,
    MultipleChoice,
}

#[derive(Clone, Copy, Debug, PartialEq, Eq, Structural)]
pub enum ViewMode {
    Notes,
    Planner,
    Journal,
    Habits,
    Finance,
    Calories,
    Kanban,
    Flashcards,
}

impl KanbanStage {
    pub fn label(&self) -> (r: &'static str)
        ensures
            *self == KanbanStage::Todo ==> r@ == "To Do"@,
            *self == KanbanStage::Doing ==> r@ == "In Progress"@,
            *self == KanbanStage::Done ==> r@ == "Done"@,
    {
        match self {
            KanbanStage::Todo => "To Do",
            KanbanStage::Doing => "In Progress",
            KanbanStage::Done => "Done",
        }
    }

    /// One step towards the first column; the first column stays put.
    pub fn move_left(self) -> (r: KanbanStage)
        ensures
            r == (match self {
                KanbanStage::Todo => KanbanStage::Todo,
                KanbanStage::Doing => KanbanStage::Todo,
                KanbanStage::Done => KanbanStage::Doing,
            }),
    {
        match self {
            KanbanStage::Todo => KanbanStage::Todo,
            KanbanStage::Doing => KanbanStage::Todo,
            KanbanStage::Done => KanbanStage::Doing,
        }
    }

    /// One step towards the last column; the last column stays put.
    pub fn move_right(self) -> (r: KanbanStage)
        ensures
            r == (match self {
                KanbanStage::Todo => KanbanStage::Doing,
                KanbanStage::Doing => KanbanStage::Done,
                KanbanStage::Done => KanbanStage::Done,
            }),
    {
        match self {
            KanbanStage::Todo => KanbanStage::Doing,
            KanbanStage::Doing => KanbanStage::Done,
            KanbanStage::Done => KanbanStage::Done,
        }
    }
}

pub fn default_habit_status() -> (r: HabitStatus)
    ensures
        r == HabitStatus::Active,
{
    HabitStatus::Active
}

pub fn habit_status_label(status: HabitStatus) -> (r: &'static str)
    ensures
        status == HabitStatus::Active ==> r@ == "Active"@,
        status == HabitStatus::Paused ==> r@ == "Paused"@,
{
    match status {
        HabitStatus::Active => "Active",
        HabitStatus::Paused => "Paused",
    }
}

pub open spec fn spec_priority_label(p: TaskPriority) -> Seq<char> {
    match p {
        TaskPriority::High => "High"@,
        TaskPriority::Medium => "Medium"@,
        TaskPriority::Low => "Low"@,
    }
}

pub open spec fn spec_status_label(completed: bool) -> Seq<char> {
    if completed {
        "Completed"@
    } else {
        "Pending"@
    }
}

pub open spec fn spec_habit_status_label(s: HabitStatus) -> Seq<char> {
    match s {
        HabitStatus::Active => "Active"@,
        HabitStatus::Paused => "Paused"@,
    }
}

/// The text form of a recurrence, as the editors print it.
pub open spec fn spec_recurrence_label(r: Recurrence) -> Seq<char> {
    match r {
        Recurrence::NoRepeat => "None"@,
        Recurrence::Daily => "Daily"@,
        Recurrence::Weekly => "Weekly"@,
        Recurrence::Monthly => "Monthly"@,
        Recurrence::Range { start, end, time } => {
            let base = "Range "@ + spec_format_date(start) + " to "@ + spec_format_date(end);
            match time {
                Some(t) => base + " at "@ + spec_format_time(t),
                None => base,
            }
        },
    }
}

pub fn recurrence_label_chars(r: &Recurrence) -> (out: Vec<char>)
    requires
        recurrence_wf(*r),
    ensures
        out@ == spec_recurrence_label(*r),
{
    match r {
        Recurrence::NoRepeat => crate::text::chars_of("None"),
        Recurrence::Daily => crate::text::chars_of("Daily"),
        Recurrence::Weekly => crate::text::chars_of("Weekly"),
        Recurrence::Monthly => crate::text::chars_of("Monthly"),
        Recurrence::Range { start, end, time } => {
            let mut out = crate::text::chars_of("Range ");
            let sd = crate::date::format_date(start);
            crate::num::push_all(&mut out, &sd);
            crate::num::push_str(&mut out, " to ");
            let ed = crate::date::format_date(end);
            crate::num::push_all(&mut out, &ed);
            match time {
                Some(t) => {
                    crate::num::push_str(&mut out, " at ");
                    let ts = crate::date::format_time(t);
                    crate::num::push_all(&mut out, &ts);
                },
                None => {},
            }
            proof {
                assert(out@ =~= spec_recurrence_label(*r));
            }
            out
        },
    }
}

pub fn recurrence_label(r: &Recurrence) -> (out: String)
    requires
        recurrence_wf(*r),
    ensures
        out@ == spec_recurrence_label(*r),
{
    let v = recurrence_label_chars(r);
    crate::text::string_from_chars(&v)
}

/// Range bounds and times must be well-formed calendar values.
pub open spec fn recurrence_wf(r: Recurrence) -> bool {
    match r {
        Recurrence::Range { start, end, time } => start.wf() && end.wf() && (match time {
            Some(t) => t.wf(),
            None => true,
        }),
        _ => true,
    }
}

// ---------------------------------------------------------------------------
// Field well-formedness shared by the codecs
// ---------------------------------------------------------------------------

/// A single-line field value as a parse produces it: trimmed at both ends
/// and free of newlines.
pub open spec fn single_line(s: Seq<char>) -> bool {
    trim_spec(s) == s && no_newline(s)
}

/// A multi-line body as a parse produces it: no trailing empty line.
pub open spec fn body_ok(s: Seq<char>, max: int) -> bool {
    (s.len() == 0 || s.last() != '\n') && s.len() <= max
}

// ---------------------------------------------------------------------------
// The record kinds
// ---------------------------------------------------------------------------

#[derive(Clone, Debug)]
pub struct Task {
    pub title: String,
    pub description: String,
    pub completed: bool,
    pub priority: TaskPriority,
    pub due_date: Option<Date>,
    pub reminder_text: Option<String>,
    pub reminder_date: Option<Date>,
    pub reminder_time: Option<Time>,
    pub recurrence: Recurrence,
    pub created_at: Date,
}

#[verifier::ext_equal]
pub struct TaskV {
    pub title: Seq<char>,
    pub description: Seq<char>,
    pub completed: bool,
    pub priority: TaskPriority,
    pub due_date: Option<Date>,
    pub reminder_text: Option<Seq<char>>,
    pub reminder_date: Option<Date>,
    pub reminder_time: Option<Time>,
    pub recurrence: Recurrence,
    pub created_at: Date,
}

impl View for Task {
    type V = TaskV;

    open spec fn view(&self) -> TaskV {
        TaskV {
            title: self.title@,
            description: self.description@,
            completed: self.completed,
            priority: self.priority,
            due_date: self.due_date,
            reminder_text: match self.reminder_text {
                Some(ref t) => Some(t@),
                None => None,
            },
            reminder_date: self.reminder_date,
            reminder_time: self.reminder_time,
            recurrence: self.recurrence,
            created_at: self.created_at,
        }
    }
}

#[derive(Clone, Debug)]
pub struct Habit {
    pub name: String,
    pub frequency: Recurrence,
    pub streak: u32,
    pub marks: Vec<Date>,
    pub status: HabitStatus,
    pub start_date: Date,
    pub notes: String,
}

#[verifier::ext_equal]
pub struct HabitV {
    pub name: Seq<char>,
    pub frequency: Recurrence,
    pub streak: u32,
    pub marks: Seq<Date>,
    pub status: HabitStatus,
    pub start_date: Date,
    pub notes: Seq<char>,
}

impl View for Habit {
    type V = HabitV;

    open spec fn view(&self) -> HabitV {
        HabitV {
            name: self.name@,
            frequency: self.frequency,
            streak: self.streak,
            marks: self.marks@,
            status: self.status,
            start_date: self.start_date,
            notes: self.notes@,
        }
    }
}

#[derive(Clone, Debug)]
pub struct FinanceEntry {
    pub date: Date,
    pub category: String,
    pub note: String,
    /// The amount in hundredths of the currency unit.
    pub amount_cents: u64,
}

#[verifier::ext_equal]
pub struct FinanceV {
    pub date: Date,
    pub category: Seq<char>,
    pub note: Seq<char>,
    pub amount_cents: u64,
}

impl View for FinanceEntry {
    type V = FinanceV;

    open spec fn view(&self) -> FinanceV {
        FinanceV {
            date: self.date,
            category: self.category@,
            note: self.note@,
            amount_cents: self.amount_cents,
        }
    }
}

#[derive(Clone, Debug)]
pub struct CalorieEntry {
    pub date: Date,
    pub meal: String,
    pub note: String,
    pub calories: u32,
}

#[verifier::ext_equal]
pub struct CalorieV {
    pub date: Date,
    pub meal: Seq<char>,
    pub note: Seq<char>,
    pub calories: u32,
}

impl View for CalorieEntry {
    type V = CalorieV;

    open spec fn view(&self) -> CalorieV {
        CalorieV {
            date: self.date,
            meal: self.meal@,
            note: self.note@,
            calories: self.calories,
        }
    }
}

#[derive(Clone, Debug)]
pub struct KanbanCard {
    pub title: String,
    pub note: String,
    pub stage: KanbanStage,
    pub created_at: Date,
}

#[verifier::ext_equal]
pub struct KanbanV {
    pub title: Seq<char>,
    pub note: Seq<char>,
    pub stage: KanbanStage,
    pub created_at: Date,
}

impl View for KanbanCard {
    type V = KanbanV;

    open spec fn view(&self) -> KanbanV {
        KanbanV {
            title: self.title@,
            note: self.note@,
            stage: self.stage,
            created_at: self.created_at,
        }
    }
}

#[derive(Clone, Debug)]
pub struct Card {
    pub front: String,
    pub back: String,
    pub card_type: CardType,
    pub created_at: Date,
    pub last_reviewed: Option<Date>,
    pub next_review: Date,
    /// The spaced-repetition ease factor, in thousandths (2500 = 2.5).
    pub ease_milli: u32,
    /// Days until the next review.
    pub interval: u32,
    pub repetitions: u32,
    pub tags: Vec<String>,
    pub collection: Option<String>,
}

#[verifier::ext_equal]
pub struct CardV {
    pub front: Seq<char>,
    pub back: Seq<char>,
    pub card_type: CardType,
    pub created_at: Date,
    pub last_reviewed: Option<Date>,
    pub next_review: Date,
    pub ease_milli: u32,
    pub interval: u32,
    pub repetitions: u32,
    pub tags: Seq<Seq<char>>,
    pub collection: Option<Seq<char>>,
}

impl View for Card {
    type V = CardV;

    open spec fn view(&self) -> CardV {
        CardV {
            front: self.front@,
            back: self.back@,
            card_type: self.card_type,
            created_at: self.created_at,
            last_reviewed: self.last_reviewed,
            next_review: self.next_review,
            ease_milli: self.ease_milli,
            interval: self.interval,
            repetitions: self.repetitions,
            tags: self.tags.deep_view(),
            collection: match self.collection {
                Some(ref c) => Some(c@),
                None => None,
            },
        }
    }
}

// ---------------------------------------------------------------------------
// Spaced repetition (integer arithmetic, thousandths for the ease factor)
// ---------------------------------------------------------------------------

/// Ceiling for the ease factor (10.0) and for the review interval
/// (one hundred years), so the schedule stays finite.
pub const MAX_EASE_MILLI: u32 = 10000;

pub const MAX_INTERVAL_DAYS: u32 = 36500;

pub open spec fn card_schedule_wf(c: CardV) -> bool {
    1300 <= c.ease_milli <= MAX_EASE_MILLI && c.interval <= MAX_INTERVAL_DAYS
}

/// The next ease factor after a review of quality `q` (0 to 5): the
/// classic update `e + 0.1 - (5-q)*(0.08 + (5-q)*0.02)` in thousandths,
/// clamped to [1.3, 10.0].
pub open spec fn spec_next_ease(e: int, q: int) -> int {
    let adj = e + 100 - (5 - q) * (80 + (5 - q) * 20);
    if adj < 1300 {
        1300
    } else if adj > MAX_EASE_MILLI as int {
        MAX_EASE_MILLI as int
    } else {
        adj
    }
}

/// The next interval in days: 1 on a failed recall and on the first
/// success, 6 on the second, then the previous interval scaled by the
/// ease factor (rounded), capped.
pub open spec fn spec_next_interval(interval: int, reps: int, ease: int, q: int) -> int {
    if q < 3 {
        1
    } else if reps == 0 {
        1
    } else if reps == 1 {
        6
    } else {
        let scaled = (interval * ease + 500) / 1000;
        if scaled > MAX_INTERVAL_DAYS as int {
            MAX_INTERVAL_DAYS as int
        } else {
            scaled
        }
    }
}

impl Card {
    /// Record a review of quality `q` (clamped to 5): failed recall
    /// resets the repetition count, success advances it; the interval and
    /// ease factor follow `spec_next_interval` / `spec_next_ease`, and
    /// the next review is scheduled that many days after `today`.
    pub fn review(&mut self, quality: u8, today: Date)
        requires
            card_schedule_wf(old(self)@),
            today.wf(),
        ensures
            final(self)@.ease_milli == spec_next_ease(
                old(self)@.ease_milli as int,
                if quality > 5 {
                    5
                } else {
                    quality as int
                },
            ),
            final(self)@.interval == spec_next_interval(
                old(self)@.interval as int,
                old(self)@.repetitions as int,
                old(self)@.ease_milli as int,
                if quality > 5 {
                    5
                } else {
                    quality as int
                },
            ),
            final(self)@.repetitions == (if quality >= 3 {
                if old(self)@.repetitions < u32::MAX {
                    (old(self)@.repetitions + 1) as u32
                } else {
                    u32::MAX
                }
            } else {
                0u32
            }),
            final(self)@.last_reviewed == Some(today),
            final(self)@.next_review == spec_add_days(today, final(self)@.interval as nat),
            card_schedule_wf(final(self)@),
            final(self)@.front == old(self)@.front,
            final(self)@.back == old(self)@.back,
            final(self)@.card_type == old(self)@.card_type,
            final(self)@.created_at == old(self)@.created_at,
            final(self)@.tags == old(self)@.tags,
            final(self)@.collection == old(self)@.collection,
    {
        let q: u32 = if quality > 5 {
            5
        } else {
            quality as u32
        };
        let new_interval: u32 = if q < 3 {
            1
        } else if self.repetitions == 0 {
            1
        } else if self.repetitions == 1 {
            6
        } else {
            proof {
                vstd::arithmetic::mul::lemma_mul_upper_bound(
                    self.interval as int,
                    MAX_INTERVAL_DAYS as int,
                    self.ease_milli as int,
                    MAX_EASE_MILLI as int,
                );
            }
            let scaled_wide: u64 = (self.interval as u64 * self.ease_milli as u64 + 500) / 1000;
            if scaled_wide > MAX_INTERVAL_DAYS as u64 {
                MAX_INTERVAL_DAYS
            } else {
                scaled_wide as u32
            }
        };
        if q < 3 {
            self.repetitions = 0;
        } else {
            self.repetitions = if self.repetitions < u32::MAX {
                self.repetitions + 1
            } else {
                self.repetitions
            };
        }
        self.interval = new_interval;
        let d5: u32 = 5 - q;
        proof {
            vstd::arithmetic::mul::lemma_mul_upper_bound(d5 as int, 5, 80 + d5 as int * 20, 180);
        }
        let penalty: u32 = d5 * (80 + d5 * 20);
        let adj: u64 = self.ease_milli as u64 + 100;
        self.ease_milli = if adj < 1300 + penalty as u64 {
            1300
        } else if adj - penalty as u64 > MAX_EASE_MILLI as u64 {
            MAX_EASE_MILLI
        } else {
            (adj - penalty as u64) as u32
        };
        self.last_reviewed = Some(today);
        self.next_review = add_days(&today, self.interval);
    }

    /// Is this card due on (or before) `today`?
    pub fn is_due(&self, today: Date) -> (r: bool)
        ensures
            r == spec_date_le(self.next_review, today),
    {
        crate::date::date_le(&self.next_review, &today)
    }
}

// ---------------------------------------------------------------------------
// Notes hierarchy and journal
// ---------------------------------------------------------------------------

#[derive(Clone, Debug)]
pub struct Page {
    pub title: String,
    pub content: String,
    pub modified_at: Date,
}

#[derive(Clone, Debug)]
pub struct Section {
    pub title: String,
    pub pages: Vec<Page>,
    pub created_at: Date,
}

#[derive(Clone, Debug)]
pub struct Notebook {
    pub title: String,
    pub sections: Vec<Section>,
    pub created_at: Date,
}

#[derive(Clone, Debug)]
pub struct JournalEntry {
    pub date: Date,
    pub content: String,
    pub mood: Option<String>,
}

/// The display title a page derives from its content: the first six
/// words of the first line, joined with spaces, shortened to 47
/// characters plus an ellipsis when longer than 50; none when the first
/// line has no words.
pub open spec fn spec_derived_title(content: Seq<char>) -> Option<Seq<char>> {
    let ls = crate::text::lines_of(content);
    if ls.len() == 0 {
        None
    } else {
        let ws = crate::text::split_ws_from(ls[0], 0);
        if ws.len() == 0 {
            None
        } else {
            let t = crate::text::join_space(
                if ws.len() > 6 {
                    ws.take(6)
                } else {
                    ws
                },
            );
            Some(
                if t.len() > 50 {
                    t.take(47) + "..."@
                } else {
                    t
                },
            )
        }
    }
}

/// Compute the derived title of a page's content.
pub fn derived_title(content: &Vec<char>) -> (r: Option<Vec<char>>)
    ensures
        (match r {
            Some(t) => spec_derived_title(content@) == Some(t@),
            None => spec_derived_title(content@) is None,
        }),
{
    let lines = crate::text::split_lines(content);
    if lines.len() == 0 {
        return None;
    }
    proof {
        assert(lines.deep_view()[0] == lines@[0]@);
    }
    let words = crate::text::split_ws_exec(&lines[0]);
    let m = words.len();
    if m == 0 {
        proof {
            assert(crate::text::split_ws_from(lines@[0]@, 0) =~~= Seq::<Seq<char>>::empty());
        }
        return None;
    }
    let take_n: usize = if m > 6 {
        6
    } else {
        m
    };
    let ghost wsv = if words.deep_view().len() > 6 {
        words.deep_view().take(6)
    } else {
        words.deep_view()
    };
    let mut t: Vec<char> = Vec::new();
    let mut k: usize = 0;
    while k < take_n
        invariant
            k <= take_n,
            take_n <= words@.len(),
            take_n == (if words.deep_view().len() > 6 {
                6int
            } else {
                words.deep_view().len() as int
            }),
            wsv == (if words.deep_view().len() > 6 {
                words.deep_view().take(6)
            } else {
                words.deep_view()
            }),
            t@ =~= crate::text::join_space(wsv.take(k as int)),
        decreases take_n - k,
    {
        if k > 0 {
            t.push(' ');
        }
        let w = &words[k];
        crate::num::push_all(&mut t, w);
        proof {
            assert(wsv[k as int] == words.deep_view()[k as int]);
            assert(words.deep_view()[k as int] == words@[k as int]@);
            if k == 0 {
                assert(wsv.take(1) =~~= seq![wsv[0]]);
                assert(crate::text::join_space(wsv.take(1)) =~= wsv[0]);
            } else {
                assert(wsv.take(k as int).len() > 0);
                crate::text::lemma_join_space_push(wsv.take(k as int), wsv[k as int]);
                assert(wsv.take(k + 1) =~~= wsv.take(k as int).push(wsv[k as int]));
            }
            assert(t@ =~= crate::text::join_space(wsv.take(k + 1)));
        }
        k = k + 1;
    }
    proof {
        assert(wsv.take(take_n as int) =~~= wsv);
    }
    if t.len() > 50 {
        let mut h = crate::text::sub_chars(&t, 0, 47);
        crate::num::push_str(&mut h, "...");
        proof {
            assert(h@ =~= t@.take(47) + "..."@);
        }
        Some(h)
    } else {
        Some(t)
    }
}

impl Page {
    pub fn new(title: String, today: Date) -> (r: Page)
        ensures
            r.title == title,
            r.content@ == Seq::<char>::empty(),
            r.modified_at == today,
    {
        Page { title, content: String::new(), modified_at: today }
    }
}

impl Section {
    pub fn new(title: String, today: Date) -> (r: Section)
        ensures
            r.title == title,
            r.pages@.len() == 0,
            r.created_at == today,
    {
        Section { title, pages: Vec::new(), created_at: today }
    }
}

impl Notebook {
    pub fn new(title: String, today: Date) -> (r: Notebook)
        ensures
            r.title == title,
            r.sections@.len() == 0,
            r.created_at == today,
    {
        Notebook { title, sections: Vec::new(), created_at: today }
    }
}

impl JournalEntry {
    pub fn new(date: Date) -> (r: JournalEntry)
        ensures
            r.date == date,
            r.content@ == Seq::<char>::empty(),
            r.mood is None,
    {
        JournalEntry { date, content: String::new(), mood: None }
    }
}

} // verus!
