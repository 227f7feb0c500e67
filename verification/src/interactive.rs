//! The state of the interactive browser: the findings on show, the
//! selection, and how keys change them.

use crate::filters::{filter_findings, kept, Criterion};
use crate::models::{CodeDebtItem, Finding};
use crate::severity::Severity;
use crate::sorting::{
    is_ordered, is_rearrangement, is_stable_sort, lemma_rearrangement_transitive, sort_findings,
    FindingOrder,
};
use vstd::prelude::*;

verus! {

/// The orders that the browser cycles through.
#[derive(Clone, Copy, Debug, PartialEq, Eq, Structural)]
pub enum SortBy {
    Severity,
    File,
    Age,
}

impl SortBy {
    /// The order in which the browser shows findings: by severity it shows
    /// the least severe first, by file it goes by path and line, by age it
    /// shows the oldest first.
    pub open spec fn spec_order(&self) -> FindingOrder {
        match self {
            SortBy::Severity => FindingOrder::LeastSevereFirst,
            SortBy::File => FindingOrder::File,
            SortBy::Age => FindingOrder::Age,
        }
    }

    #[verifier::when_used_as_spec(spec_order)]
    pub fn order(&self) -> (order: FindingOrder)
        ensures
            order == self.spec_order(),
    {
        match self {
            SortBy::Severity => FindingOrder::LeastSevereFirst,
            SortBy::File => FindingOrder::File,
            SortBy::Age => FindingOrder::Age,
        }
    }

    /// The order that follows this one in the cycle.
    pub open spec fn spec_next(&self) -> SortBy {
        match self {
            SortBy::Severity => SortBy::File,
            SortBy::File => SortBy::Age,
            SortBy::Age => SortBy::Severity,
        }
    }

    #[verifier::when_used_as_spec(spec_next)]
    pub fn next(&self) -> (next: SortBy)
        ensures
            next == self.spec_next(),
    {
        match self {
            SortBy::Severity => SortBy::File,
            SortBy::File => SortBy::Age,
            SortBy::Age => SortBy::Severity,
        }
    }
}

/// The severity filter that follows a given one in the cycle: from none to
/// `Low`, then ever stricter up to `Critical`, then none again.
pub open spec fn next_filter(filter: Option<Severity>) -> Option<Severity> {
    match filter {
        None => Some(Severity::Low),
        Some(Severity::Low) => Some(Severity::Medium),
        Some(Severity::Medium) => Some(Severity::High),
        Some(Severity::High) => Some(Severity::Critical),
        Some(Severity::Critical) => None,
    }
}

/// The findings that pass a severity filter; all of them where there is no
/// filter.
pub open spec fn passing(s: Seq<Finding>, filter: Option<Severity>) -> Seq<Finding> {
    match filter {
        Some(threshold) => kept(s, Criterion::AtLeast(threshold)),
        None => s,
    }
}

/// The position that the selection cannot pass: the last one, or 0 where
/// nothing is on show.
pub open spec fn last_position(len: nat) -> nat {
    if len == 0 {
        0
    } else {
        (len - 1) as nat
    }
}

/// A key as the browser understands it.
#[derive(Clone, Copy, Debug, PartialEq, Eq, Structural)]
pub enum KeyPress {
    Char(char),
    Esc,
    Up,
    Down,
    PageUp,
    PageDown,
    Enter,
    Other,
}

/// What the browser is to do after a key.
#[derive(Clone, Copy, Debug, PartialEq, Eq, Structural)]
pub enum Reaction {
    /// Draw the list again.
    Redraw,
    /// Show the details of the selected finding.
    ShowDetails,
    /// Leave the browser.
    Quit,
}

/// What a key asks for.
#[derive(Clone, Copy, Debug, PartialEq, Eq, Structural)]
pub enum Command {
    Quit,
    MoveUp,
    MoveDown,
    PageUp,
    PageDown,
    CycleSort,
    CycleFilter,
    Details,
    Nothing,
}

/// The command bound to a key: `q` and escape quit, the arrows and `k`/`j`
/// move by one, the page keys by ten, `s` changes the order, `f` the
/// filter, and enter shows details.
pub open spec fn command_of(key: KeyPress) -> Command {
    match key {
        KeyPress::Esc => Command::Quit,
        KeyPress::Up => Command::MoveUp,
        KeyPress::Down => Command::MoveDown,
        KeyPress::PageUp => Command::PageUp,
        KeyPress::PageDown => Command::PageDown,
        KeyPress::Enter => Command::Details,
        KeyPress::Other => Command::Nothing,
        KeyPress::Char(c) => if c == 'q' {
            Command::Quit
        } else if c == 'k' {
            Command::MoveUp
        } else if c == 'j' {
            Command::MoveDown
        } else if c == 's' {
            Command::CycleSort
        } else if c == 'f' {
            Command::CycleFilter
        } else {
            Command::Nothing
        },
    }
}

/// The command bound to a key.
pub fn command_for(key: KeyPress) -> (command: Command)
    ensures
        command == command_of(key),
{
    match key {
        KeyPress::Esc => Command::Quit,
        KeyPress::Up => Command::MoveUp,
        KeyPress::Down => Command::MoveDown,
        KeyPress::PageUp => Command::PageUp,
        KeyPress::PageDown => Command::PageDown,
        KeyPress::Enter => Command::Details,
        KeyPress::Other => Command::Nothing,
        KeyPress::Char(c) => {
            if c == 'q' {
                Command::Quit
            } else if c == 'k' {
                Command::MoveUp
            } else if c == 'j' {
                Command::MoveDown
            } else if c == 's' {
                Command::CycleSort
            } else if c == 'f' {
                Command::CycleFilter
            } else {
                Command::Nothing
            }
        },
    }
}

/// The selected position after a command that moves the selection, in a
/// list of `len` findings on show: one up or down, ten up or down, never
/// above the top nor below the last position. Any other command leaves the
/// position to the method that carries it out.
pub open spec fn moved(command: Command, index: int, len: nat) -> int {
    match command {
        Command::MoveUp => if index > 0 {
            index - 1
        } else {
            0
        },
        Command::MoveDown => if index < last_position(len) {
            index + 1
        } else {
            index
        },
        Command::PageUp => if index >= 10 {
            index - 10
        } else {
            0
        },
        Command::PageDown => if index + 10 <= last_position(len) {
            index + 10
        } else {
            last_position(len) as int
        },
        _ => index,
    }
}

/// The browser's state: all findings, those on show, the selected position,
/// the severity filter and the order.
pub struct InteractiveMode {
    pub items: Vec<CodeDebtItem>,
    pub filtered_items: Vec<CodeDebtItem>,
    pub current_index: usize,
    pub filter_severity: Option<Severity>,
    pub sort_by: SortBy,
}

impl InteractiveMode {
    /// Whether the findings on show are those that pass the filter, each
    /// once, in the chosen order, and the selection lies among them.
    pub open spec fn wf(&self) -> bool {
        &&& is_rearrangement(
            passing(self.items.deep_view(), self.filter_severity),
            self.filtered_items.deep_view(),
        )
        &&& is_ordered(self.sort_by.spec_order(), self.filtered_items.deep_view())
        &&& self.current_index <= last_position(self.filtered_items.len() as nat)
    }

    /// A browser over the given findings, held most severe first and then
    /// by path. It shows all of them by severity and selects the first.
    pub fn new(items: Vec<CodeDebtItem>) -> (browser: InteractiveMode)
        ensures
            browser.wf(),
            is_stable_sort(
                FindingOrder::SeverityThenPath,
                items.deep_view(),
                browser.items.deep_view(),
            ),
            is_stable_sort(
                FindingOrder::LeastSevereFirst,
                browser.items.deep_view(),
                browser.filtered_items.deep_view(),
            ),
            browser.current_index == 0,
            browser.filter_severity is None,
            browser.sort_by == SortBy::Severity,
    {
        let held = sort_findings(FindingOrder::SeverityThenPath, &items);
        let shown = sort_findings(FindingOrder::LeastSevereFirst, &held);
        InteractiveMode {
            items: held,
            filtered_items: shown,
            current_index: 0,
            filter_severity: None,
            sort_by: SortBy::Severity,
        }
    }

    /// Moves the selection up by one, unless it is at the top.
    pub fn move_up(&mut self)
        ensures
            final(self).current_index == moved(
                Command::MoveUp,
                old(self).current_index as int,
                old(self).filtered_items.len() as nat,
            ),
            final(self).items == old(self).items,
            final(self).filtered_items == old(self).filtered_items,
            final(self).filter_severity == old(self).filter_severity,
            final(self).sort_by == old(self).sort_by,
            old(self).wf() ==> final(self).wf(),
    {
        if self.current_index > 0 {
            self.current_index -= 1;
        }
    }

    /// Moves the selection down by one, unless it is at the bottom.
    pub fn move_down(&mut self)
        ensures
            final(self).current_index == moved(
                Command::MoveDown,
                old(self).current_index as int,
                old(self).filtered_items.len() as nat,
            ),
            final(self).items == old(self).items,
            final(self).filtered_items == old(self).filtered_items,
            final(self).filter_severity == old(self).filter_severity,
            final(self).sort_by == old(self).sort_by,
            old(self).wf() ==> final(self).wf(),
    {
        let len: usize = self.filtered_items.len();
        let last: usize = if len == 0 {
            0
        } else {
            len - 1
        };
        if self.current_index < last {
            self.current_index += 1;
        }
    }

    /// Moves the selection up by ten, or to the top.
    pub fn page_up(&mut self)
        ensures
            final(self).current_index == moved(
                Command::PageUp,
                old(self).current_index as int,
                old(self).filtered_items.len() as nat,
            ),
            final(self).items == old(self).items,
            final(self).filtered_items == old(self).filtered_items,
            final(self).filter_severity == old(self).filter_severity,
            final(self).sort_by == old(self).sort_by,
            old(self).wf() ==> final(self).wf(),
    {
        if self.current_index >= 10 {
            self.current_index -= 10;
        } else {
            self.current_index = 0;
        }
    }

    /// Moves the selection down by ten, or to the bottom.
    pub fn page_down(&mut self)
        ensures
            final(self).current_index == moved(
                Command::PageDown,
                old(self).current_index as int,
                old(self).filtered_items.len() as nat,
            ),
            final(self).items == old(self).items,
            final(self).filtered_items == old(self).filtered_items,
            final(self).filter_severity == old(self).filter_severity,
            final(self).sort_by == old(self).sort_by,
            final(self).current_index <= last_position(final(self).filtered_items.len() as nat),
            old(self).wf() ==> final(self).wf(),
    {
        let len: usize = self.filtered_items.len();
        let last: usize = if len == 0 {
            0
        } else {
            len - 1
        };
        if self.current_index < last && last - self.current_index >= 10 {
            self.current_index += 10;
        } else {
            self.current_index = last;
        }
    }

    /// Puts the findings on show into the chosen order and selects the
    /// first.
    pub fn apply_sort(&mut self)
        ensures
            is_stable_sort(
                old(self).sort_by.spec_order(),
                old(self).filtered_items.deep_view(),
                final(self).filtered_items.deep_view(),
            ),
            final(self).current_index == 0,
            final(self).items == old(self).items,
            final(self).filter_severity == old(self).filter_severity,
            final(self).sort_by == old(self).sort_by,
            is_rearrangement(
                passing(old(self).items.deep_view(), old(self).filter_severity),
                old(self).filtered_items.deep_view(),
            ) ==> final(self).wf(),
    {
        let sorted = sort_findings(self.sort_by.order(), &self.filtered_items);
        proof {
            let shown = passing(self.items.deep_view(), self.filter_severity);
            if is_rearrangement(shown, self.filtered_items.deep_view()) {
                lemma_rearrangement_transitive(
                    shown,
                    self.filtered_items.deep_view(),
                    sorted.deep_view(),
                );
            }
        }
        self.filtered_items = sorted;
        self.current_index = 0;
    }

    /// Shows the findings that pass the filter, in the chosen order, and
    /// selects the first.
    pub fn apply_filter(&mut self)
        ensures
            final(self).wf(),
            is_stable_sort(
                old(self).sort_by.spec_order(),
                passing(old(self).items.deep_view(), old(self).filter_severity),
                final(self).filtered_items.deep_view(),
            ),
            final(self).current_index == 0,
            final(self).items == old(self).items,
            final(self).filter_severity == old(self).filter_severity,
            final(self).sort_by == old(self).sort_by,
    {
        let order = self.sort_by.order();
        let shown = match self.filter_severity {
            Some(threshold) => {
                let passing = filter_findings(self.items.as_slice(), Criterion::AtLeast(threshold));
                sort_findings(order, &passing)
            },
            None => sort_findings(order, &self.items),
        };
        self.filtered_items = shown;
        self.current_index = 0;
    }

    /// Takes the next order of the cycle and shows the findings in it.
    pub fn cycle_sort(&mut self)
        ensures
            final(self).sort_by == old(self).sort_by.spec_next(),
            is_stable_sort(
                final(self).sort_by.spec_order(),
                old(self).filtered_items.deep_view(),
                final(self).filtered_items.deep_view(),
            ),
            final(self).current_index == 0,
            final(self).items == old(self).items,
            final(self).filter_severity == old(self).filter_severity,
            old(self).wf() ==> final(self).wf(),
    {
        self.sort_by = self.sort_by.next();
        self.apply_sort();
    }

    /// Takes the next severity filter of the cycle and shows the findings
    /// that pass it.
    pub fn cycle_filter(&mut self)
        ensures
            final(self).filter_severity == next_filter(old(self).filter_severity),
            is_stable_sort(
                old(self).sort_by.spec_order(),
                passing(old(self).items.deep_view(), next_filter(old(self).filter_severity)),
                final(self).filtered_items.deep_view(),
            ),
            final(self).wf(),
            final(self).current_index == 0,
            final(self).items == old(self).items,
            final(self).sort_by == old(self).sort_by,
    {
        self.filter_severity = match self.filter_severity {
            None => Some(Severity::Low),
            Some(Severity::Low) => Some(Severity::Medium),
            Some(Severity::Medium) => Some(Severity::High),
            Some(Severity::High) => Some(Severity::Critical),
            Some(Severity::Critical) => None,
        };
        self.apply_filter();
    }

    /// The part of the list that the browser draws: from ten positions
    /// above the selection, twenty positions long at most.
    pub fn window(&self) -> (range: (usize, usize))
        ensures
            range.0 == (if self.current_index >= 10 {
                self.current_index - 10
            } else {
                0
            }),
            range.1 == (if range.0 + 20 <= self.filtered_items.len() {
                range.0 + 20
            } else {
                self.filtered_items.len() as int
            }),
            self.wf() ==> range.0 <= range.1 <= self.filtered_items.len(),
    {
        let len: usize = self.filtered_items.len();
        let start: usize = if self.current_index >= 10 {
            self.current_index - 10
        } else {
            0
        };
        let end: usize = if start <= len && len - start >= 20 {
            start + 20
        } else {
            len
        };
        (start, end)
    }

    /// Changes the state as a key asks and says what the browser is to do
    /// next. A key that moves the selection leaves the state that the move
    /// leaves; `s` and `f` leave the state of [`InteractiveMode::cycle_sort`]
    /// and [`InteractiveMode::cycle_filter`]; any other key changes nothing.
    pub fn on_key(&mut self, key: KeyPress) -> (reaction: Reaction)
        ensures
            reaction == (match command_of(key) {
                Command::Quit => Reaction::Quit,
                Command::Details => Reaction::ShowDetails,
                _ => Reaction::Redraw,
            }),
            final(self).items == old(self).items,
            match command_of(key) {
                Command::MoveUp | Command::MoveDown | Command::PageUp | Command::PageDown => {
                    &&& final(self).current_index == moved(
                        command_of(key),
                        old(self).current_index as int,
                        old(self).filtered_items.len() as nat,
                    )
                    &&& final(self).filtered_items == old(self).filtered_items
                    &&& final(self).filter_severity == old(self).filter_severity
                    &&& final(self).sort_by == old(self).sort_by
                },
                Command::CycleSort => {
                    &&& final(self).sort_by == old(self).sort_by.spec_next()
                    &&& is_stable_sort(
                        final(self).sort_by.spec_order(),
                        old(self).filtered_items.deep_view(),
                        final(self).filtered_items.deep_view(),
                    )
                    &&& final(self).current_index == 0
                    &&& final(self).filter_severity == old(self).filter_severity
                },
                Command::CycleFilter => {
                    &&& final(self).filter_severity == next_filter(old(self).filter_severity)
                    &&& is_stable_sort(
                        old(self).sort_by.spec_order(),
                        passing(
                            old(self).items.deep_view(),
                            next_filter(old(self).filter_severity),
                        ),
                        final(self).filtered_items.deep_view(),
                    )
                    &&& final(self).wf()
                    &&& final(self).current_index == 0
                    &&& final(self).sort_by == old(self).sort_by
                },
                Command::Quit | Command::Details | Command::Nothing => *final(self) == *old(self),
            },
            old(self).wf() ==> final(self).wf(),
    {
        match command_for(key) {
            Command::Quit => Reaction::Quit,
            Command::Details => Reaction::ShowDetails,
            Command::MoveUp => {
                self.move_up();
                Reaction::Redraw
            },
            Command::MoveDown => {
                self.move_down();
                Reaction::Redraw
            },
            Command::PageUp => {
                self.page_up();
                Reaction::Redraw
            },
            Command::PageDown => {
                self.page_down();
                Reaction::Redraw
            },
            Command::CycleSort => {
                self.cycle_sort();
                Reaction::Redraw
            },
            Command::CycleFilter => {
                self.cycle_filter();
                Reaction::Redraw
            },
            Command::Nothing => Reaction::Redraw,
        }
    }
}

} // verus!
