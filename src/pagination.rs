//! Cursor-following pagination for one address, as a state machine with a
//! page budget. The caller performs each fetch and reports its outcome.
use vstd::prelude::*;

verus! {

/// The page budget of one address's transactions.
pub const MAX_PAGES_PER_ADDRESS: usize = 1000;

#[derive(PartialEq, Eq, Structural, Clone, Copy, Debug)]
pub enum PaginationStatus {
    /// Another page is to be fetched, with the current cursor.
    Fetching,
    /// The last page carried no cursor, or a fetch failed.
    Done,
    /// The page budget ran out while the endpoint still offered a cursor.
    BudgetExceeded,
}

pub ghost struct PagingState {
    pub cursor: Option<Seq<char>>,
    pub pages: nat,
    pub max_pages: nat,
    pub status: PaginationStatus,
}

pub ghost enum PageEvent {
    /// A page arrived, carrying this continuation token.
    Page(Option<Seq<char>>),
    /// The fetch failed.
    Failed,
}

impl PagingState {
    pub open spec fn wf(self) -> bool {
        &&& self.pages <= self.max_pages
        &&& self.status == PaginationStatus::Fetching ==> self.pages < self.max_pages
    }
}

pub open spec fn initial_state(max_pages: nat) -> PagingState {
    PagingState {
        cursor: None,
        pages: 0,
        max_pages,
        status: if max_pages == 0 {
            PaginationStatus::BudgetExceeded
        } else {
            PaginationStatus::Fetching
        },
    }
}

/// A continuation token counts only when it is not empty.
pub open spec fn live_cursor(o: Option<Seq<char>>) -> Option<Seq<char>> {
    match o {
        Some(c) => if c.len() > 0 {
            Some(c)
        } else {
            None
        },
        None => None,
    }
}

pub open spec fn step(s: PagingState, e: PageEvent) -> PagingState {
    if s.status != PaginationStatus::Fetching {
        s
    } else {
        match e {
            PageEvent::Failed => PagingState { status: PaginationStatus::Done, ..s },
            PageEvent::Page(o) => match live_cursor(o) {
                Some(c) => PagingState {
                    cursor: Some(c),
                    pages: s.pages + 1,
                    status: if s.pages + 1 >= s.max_pages {
                        PaginationStatus::BudgetExceeded
                    } else {
                        PaginationStatus::Fetching
                    },
                    ..s
                },
                None => PagingState {
                    cursor: None,
                    pages: s.pages + 1,
                    status: PaginationStatus::Done,
                    ..s
                },
            },
        }
    }
}

pub open spec fn run(s: PagingState, events: Seq<PageEvent>) -> PagingState
    decreases events.len(),
{
    if events.len() == 0 {
        s
    } else {
        run(step(s, events[0]), events.skip(1))
    }
}

/// Whether an event is a page that offers a further, non-empty cursor.
pub open spec fn offers_more(e: PageEvent) -> bool {
    match e {
        PageEvent::Page(o) => live_cursor(o) is Some,
        PageEvent::Failed => false,
    }
}

pub open spec fn text_view(o: Option<String>) -> Option<Seq<char>> {
    match o {
        Some(s) => Some(s@),
        None => None,
    }
}

pub struct Paginator {
    cursor: Option<String>,
    pages: usize,
    max_pages: usize,
    status: PaginationStatus,
}

impl View for Paginator {
    type V = PagingState;

    closed spec fn view(&self) -> PagingState {
        PagingState {
            cursor: text_view(self.cursor),
            pages: self.pages as nat,
            max_pages: self.max_pages as nat,
            status: self.status,
        }
    }
}

impl Paginator {
    /// A paginator at the first page, allowed at most `max_pages` fetches.
    pub fn new(max_pages: usize) -> (r: Self)
        ensures
            r@ == initial_state(max_pages as nat),
            r@.wf(),
    {
        Paginator {
            cursor: None,
            pages: 0,
            max_pages,
            status: if max_pages == 0 {
                PaginationStatus::BudgetExceeded
            } else {
                PaginationStatus::Fetching
            },
        }
    }

    pub fn status(&self) -> (r: PaginationStatus)
        ensures
            r == self@.status,
    {
        self.status
    }

    /// The cursor to send with the next fetch; none for the first page.
    pub fn cursor(&self) -> (r: Option<&str>)
        ensures
            self@.cursor == (match r {
                Some(c) => Some(c@),
                None => None::<Seq<char>>,
            }),
    {
        match &self.cursor {
            Some(c) => Some(c.as_str()),
            None => None,
        }
    }

    /// How many pages have arrived so far.
    pub fn pages_fetched(&self) -> (r: usize)
        ensures
            r == self@.pages,
    {
        self.pages
    }

    /// Takes in a page that arrived with continuation token `next_offset`.
    pub fn record_page(&mut self, next_offset: Option<String>)
        requires
            old(self)@.wf(),
        ensures
            final(self)@ == step(old(self)@, PageEvent::Page(text_view(next_offset))),
            final(self)@.wf(),
    {
        if self.status != PaginationStatus::Fetching {
            return;
        }
        self.pages = self.pages + 1;
        let more = match &next_offset {
            Some(c) => c.unicode_len() > 0,
            None => false,
        };
        if more {
            self.cursor = next_offset;
            self.status = if self.pages >= self.max_pages {
                PaginationStatus::BudgetExceeded
            } else {
                PaginationStatus::Fetching
            };
        } else {
            self.cursor = None;
            self.status = PaginationStatus::Done;
        }
    }

    /// Takes in a failed fetch: the remaining pages are abandoned.
    pub fn record_failure(&mut self)
        requires
            old(self)@.wf(),
        ensures
            final(self)@ == step(old(self)@, PageEvent::Failed),
            final(self)@.wf(),
    {
        if self.status == PaginationStatus::Fetching {
            self.status = PaginationStatus::Done;
        }
    }
}

/// Every state that pagination reaches stays within its page budget.
pub proof fn lemma_run_within_budget(s: PagingState, events: Seq<PageEvent>)
    requires
        s.wf(),
    ensures
        run(s, events).wf(),
        run(s, events).max_pages == s.max_pages,
        run(s, events).pages <= s.max_pages,
    decreases events.len(),
{
    if events.len() > 0 {
        lemma_run_within_budget(step(s, events[0]), events.skip(1));
    }
}

/// An endpoint that offers a further cursor on every page still cannot keep
/// pagination going: once the budget's pages have arrived, it stops with
/// the budget exceeded, after exactly `max_pages` fetches.
pub proof fn lemma_endless_cursors_stop(max_pages: nat, events: Seq<PageEvent>)
    requires
        events.len() >= max_pages,
        forall|i: int| 0 <= i < events.len() ==> offers_more(#[trigger] events[i]),
    ensures
        run(initial_state(max_pages), events).status == PaginationStatus::BudgetExceeded,
        run(initial_state(max_pages), events).pages == max_pages,
{
    lemma_endless_from(initial_state(max_pages), events);
}

/// Pages that offer a cursor, then one that does not: pagination takes in
/// every one of them, in order, and ends done with one fetch per page, as
/// long as they fit in the budget.
pub proof fn lemma_cursors_then_end(max_pages: nat, events: Seq<PageEvent>)
    requires
        1 <= events.len() <= max_pages,
        forall|i: int| 0 <= i < events.len() - 1 ==> offers_more(#[trigger] events[i]),
        events.last() matches PageEvent::Page(o) && live_cursor(o) is None,
    ensures
        run(initial_state(max_pages), events).status == PaginationStatus::Done,
        run(initial_state(max_pages), events).pages == events.len(),
{
    lemma_cursors_then_end_from(initial_state(max_pages), events);
}

proof fn lemma_cursors_then_end_from(s: PagingState, events: Seq<PageEvent>)
    requires
        s.status == PaginationStatus::Fetching,
        1 <= events.len(),
        s.pages + events.len() <= s.max_pages,
        forall|i: int| 0 <= i < events.len() - 1 ==> offers_more(#[trigger] events[i]),
        events.last() matches PageEvent::Page(o) && live_cursor(o) is None,
    ensures
        run(s, events).status == PaginationStatus::Done,
        run(s, events).pages == s.pages + events.len(),
    decreases events.len(),
{
    let rest = events.skip(1);
    if events.len() == 1 {
        assert(rest.len() == 0);
    } else {
        assert(offers_more(events[0]));
        assert(rest.last() == events.last());
        assert forall|i: int| 0 <= i < rest.len() - 1 implies offers_more(#[trigger] rest[i]) by {
            assert(rest[i] == events[i + 1]);
        }
        lemma_cursors_then_end_from(step(s, events[0]), rest);
    }
}

proof fn lemma_endless_from(s: PagingState, events: Seq<PageEvent>)
    requires
        s.wf(),
        s.status != PaginationStatus::Done,
        s.status == PaginationStatus::BudgetExceeded ==> s.pages == s.max_pages,
        events.len() + s.pages >= s.max_pages,
        forall|i: int| 0 <= i < events.len() ==> offers_more(#[trigger] events[i]),
    ensures
        run(s, events).status == PaginationStatus::BudgetExceeded,
        run(s, events).pages == s.max_pages,
    decreases events.len(),
{
    if events.len() > 0 {
        let rest = events.skip(1);
        assert(offers_more(events[0]));
        assert forall|i: int| 0 <= i < rest.len() implies offers_more(#[trigger] rest[i]) by {
            assert(rest[i] == events[i + 1]);
        }
        lemma_endless_from(step(s, events[0]), rest);
    }
}

} // verus!
