//! The state of the task watcher: which task is selected, how far its event
//! list is scrolled, when to refresh, and the texts its panes show.
use vstd::prelude::*;
use crate::text::{
    owned, push_str, push_decimal, push_signed_decimal, decimal, signed_decimal,
    truncate, shortened, align_right, pad_left, fmt_u64,
};
use crate::progress::{Event, TimedEvent, TaskState, TaskSnapshot, Timestamp, whole_seconds, state_label, state_name, opt_view};
use crate::agent::MAX_ITER;

verus! {

/// The characters of a task's texts that the detail pane shows.
pub const DETAIL_TEXT_CHARS: usize = 120;

/// The characters of an event's text that the event list shows.
pub const EVENT_TEXT_CHARS: usize = 80;

/// The characters of a finished command that the event list shows.
pub const FINISHED_COMMAND_CHARS: usize = 70;

/// The task list and the events are reloaded every this many ticks.
pub const REFRESH_EVERY: usize = 4;

/// The colors the watcher paints with.
#[derive(Clone, Copy, Debug, PartialEq, Eq, Structural)]
pub enum StyleColor {
    Cyan,
    Green,
    Red,
    DarkGray,
    Blue,
    Yellow,
}

/// A key press, as far as the watcher tells keys apart.
#[derive(Clone, Copy, Debug, PartialEq, Eq, Structural)]
pub enum Key {
    Char(char),
    Esc,
    Up,
    Down,
    PageUp,
    PageDown,
    Other,
}

/// What a key asks for.
#[derive(Clone, Copy, Debug, PartialEq, Eq, Structural)]
pub enum Command {
    Quit,
    SelectUp,
    SelectDown,
    PageUp,
    PageDown,
    Nothing,
}

/// The key bindings: `q` or Esc quits, `k` or Up and `j` or Down move the
/// selection, PageUp and PageDown scroll the events.
pub open spec fn key_command(k: Key) -> Command {
    match k {
        Key::Char(c) => if c == 'q' {
            Command::Quit
        } else if c == 'k' {
            Command::SelectUp
        } else if c == 'j' {
            Command::SelectDown
        } else {
            Command::Nothing
        },
        Key::Esc => Command::Quit,
        Key::Up => Command::SelectUp,
        Key::Down => Command::SelectDown,
        Key::PageUp => Command::PageUp,
        Key::PageDown => Command::PageDown,
        Key::Other => Command::Nothing,
    }
}

/// What a key press asks for.
pub fn command_for(k: Key) -> (r: Command)
    ensures
        r == key_command(k),
{
    match k {
        Key::Char(c) => if c == 'q' {
            Command::Quit
        } else if c == 'k' {
            Command::SelectUp
        } else if c == 'j' {
            Command::SelectDown
        } else {
            Command::Nothing
        },
        Key::Esc => Command::Quit,
        Key::Up => Command::SelectUp,
        Key::Down => Command::SelectDown,
        Key::PageUp => Command::PageUp,
        Key::PageDown => Command::PageDown,
        Key::Other => Command::Nothing,
    }
}

/// The watcher's state.
pub struct App {
    selected: Option<String>,
    task_ids: Vec<String>,
    list_selected: Option<usize>,
    focused_task_id: Option<String>,
    refresh_counter: usize,
    events: Vec<TimedEvent>,
    event_scroll: usize,
    event_viewport_height: usize,
    last_event_count: usize,
}

/// The watcher's state as a model.
pub struct AppView {
    /// The task whose events are shown.
    pub selected: Option<Seq<char>>,
    /// The known tasks, in list order.
    pub task_ids: Seq<Seq<char>>,
    /// The highlighted row of the task list.
    pub list_selected: Option<usize>,
    /// The task asked for on the command line.
    pub focused_task_id: Option<Seq<char>>,
    pub refresh_counter: usize,
    /// The selected task's events.
    pub events: Seq<TimedEvent>,
    /// The first event row shown.
    pub event_scroll: usize,
    /// The height of the event pane, borders included.
    pub event_viewport_height: usize,
    /// The number of events when they were last loaded.
    pub last_event_count: usize,
}

/// The rows of the event pane that hold events.
pub open spec fn viewport(v: AppView) -> nat {
    if v.event_viewport_height <= 2 {
        1
    } else {
        (v.event_viewport_height - 2) as nat
    }
}

/// The furthest the event list can scroll.
pub open spec fn max_scroll_of(v: AppView) -> nat {
    if v.events.len() <= viewport(v) {
        0
    } else {
        (v.events.len() - viewport(v)) as nat
    }
}

/// The position of `id` in `ids`, if it is there.
pub open spec fn first_index(ids: Seq<Seq<char>>, id: Seq<char>) -> Option<int>
    decreases ids.len(),
{
    if ids.len() == 0 {
        None
    } else {
        match first_index(ids.drop_last(), id) {
            Some(i) => Some(i),
            None => if ids.last() == id {
                Some(ids.len() - 1)
            } else {
                None
            },
        }
    }
}

/// The entry at `i`, if `i` is an index of `s`.
pub open spec fn entry(s: Seq<Seq<char>>, i: int) -> Option<Seq<char>> {
    if 0 <= i < s.len() {
        Some(s[i])
    } else {
        None
    }
}

impl View for App {
    type V = AppView;

    closed spec fn view(&self) -> AppView {
        AppView {
            selected: opt_view(self.selected),
            task_ids: self.task_ids@.map_values(|s: String| s@),
            list_selected: self.list_selected,
            focused_task_id: opt_view(self.focused_task_id),
            refresh_counter: self.refresh_counter,
            events: self.events@,
            event_scroll: self.event_scroll,
            event_viewport_height: self.event_viewport_height,
            last_event_count: self.last_event_count,
        }
    }
}

/// The entry of `v` at `i`, if any (`v.get(i).cloned()`).
fn get_cloned(v: &Vec<String>, i: usize) -> (r: Option<String>)
    ensures
        opt_view(r) == entry(v@.map_values(|s: String| s@), i as int),
{
    if i < v.len() {
        Some(v[i].clone())
    } else {
        None
    }
}

/// The position of `id` in `ids` (`ids.iter().position(|t| t == id)`).
fn position_of(ids: &Vec<String>, id: &String) -> (r: Option<usize>)
    ensures
        match r {
            Some(i) => first_index(ids@.map_values(|s: String| s@), id@) == Some(i as int),
            None => first_index(ids@.map_values(|s: String| s@), id@) is None,
        },
{
    let ghost all = ids@.map_values(|s: String| s@);
    let mut i: usize = 0;
    while i < ids.len()
        invariant
            i <= ids.len(),
            all == ids@.map_values(|s: String| s@),
            first_index(all.take(i as int), id@) is None,
        decreases ids.len() - i,
    {
        assert(all.take(i + 1).drop_last() == all.take(i as int));
        if ids[i] == *id {
            proof {
                lemma_first_index_extends(all, i as int + 1, id@);
            }
            return Some(i);
        }
        i = i + 1;
    }
    assert(all.take(ids.len() as int) == all);
    None
}

proof fn lemma_first_index_extends(s: Seq<Seq<char>>, n: int, id: Seq<char>)
    requires
        0 <= n <= s.len(),
        first_index(s.take(n), id) matches Some(i),
    ensures
        first_index(s, id) == first_index(s.take(n), id),
    decreases s.len() - n,
{
    if n < s.len() {
        assert(s.take(n + 1).drop_last() == s.take(n));
        lemma_first_index_extends(s, n + 1, id);
    } else {
        assert(s.take(n) == s);
    }
}

impl App {
    /// A watcher on the listed tasks (`None` when they could not be listed),
    /// focused on `focused` if given: the first task is selected, or the
    /// focused one, highlighted where it is in the list. No events are
    /// loaded yet.
    pub fn new(focused: Option<String>, listed: Option<Vec<String>>) -> (r: App)
        ensures
            r@.task_ids == match listed {
                Some(ids) => ids@.map_values(|s: String| s@),
                None => Seq::empty(),
            },
            r@.focused_task_id == opt_view(focused),
            r@.selected == match focused {
                Some(f) => Some(f@),
                None => entry(r@.task_ids, 0),
            },
            r@.list_selected == match focused {
                Some(f) => match first_index(r@.task_ids, f@) {
                    Some(i) => Some(i as usize),
                    None => if r@.task_ids.len() > 0 { Some(0usize) } else { None },
                },
                None => if r@.task_ids.len() > 0 { Some(0usize) } else { None },
            },
            r@.refresh_counter == 0,
            r@.events.len() == 0,
            r@.event_scroll == 0,
            r@.event_viewport_height == 0,
            r@.last_event_count == 0,
    {
        let task_ids = match listed {
            Some(ids) => ids,
            None => Vec::new(),
        };
        let mut list_selected: Option<usize> = None;
        let mut selected: Option<String> = None;
        if task_ids.len() > 0 {
            list_selected = Some(0);
            selected = get_cloned(&task_ids, 0);
        }
        match &focused {
            Some(tid) => {
                selected = Some(tid.clone());
                match position_of(&task_ids, tid) {
                    Some(idx) => {
                        list_selected = Some(idx);
                    },
                    None => {},
                }
            },
            None => {},
        }
        App {
            selected,
            task_ids,
            list_selected,
            focused_task_id: focused,
            refresh_counter: 0,
            events: Vec::new(),
            event_scroll: 0,
            event_viewport_height: 0,
            last_event_count: 0,
        }
    }

    /// Takes a new listing of the tasks; a failed listing (`None`) keeps the
    /// old one.
    pub fn refresh(&mut self, listed: Option<Vec<String>>)
        ensures
            final(self)@ == (match listed {
                Some(ids) => AppView { task_ids: ids@.map_values(|s: String| s@), ..old(self)@ },
                None => old(self)@,
            }),
    {
        match listed {
            Some(ids) => {
                self.task_ids = ids;
            },
            None => {},
        }
    }

    /// The selected task.
    pub fn selected(&self) -> (r: &Option<String>)
        ensures
            opt_view(*r) == self@.selected,
    {
        &self.selected
    }

    /// The known tasks.
    pub fn task_ids(&self) -> (r: &Vec<String>)
        ensures
            r@.map_values(|s: String| s@) == self@.task_ids,
    {
        &self.task_ids
    }

    /// The highlighted row of the task list.
    pub fn list_selected(&self) -> (r: Option<usize>)
        ensures
            r == self@.list_selected,
    {
        self.list_selected
    }

    /// Takes the highlighted row back from the list widget, which moves it
    /// onto the last row when it was past the end.
    pub fn set_list_selected(&mut self, row: Option<usize>)
        ensures
            final(self)@ == (AppView { list_selected: row, ..old(self)@ }),
    {
        self.list_selected = row;
    }

    /// The task asked for on the command line.
    pub fn focused_task_id(&self) -> (r: &Option<String>)
        ensures
            opt_view(*r) == self@.focused_task_id,
    {
        &self.focused_task_id
    }

    /// The selected task's events.
    pub fn events(&self) -> (r: &Vec<TimedEvent>)
        ensures
            r@ == self@.events,
    {
        &self.events
    }

    /// The first event row shown.
    pub fn event_scroll(&self) -> (r: usize)
        ensures
            r == self@.event_scroll,
    {
        self.event_scroll
    }

    /// Moves the highlight one row up, if it can, and selects that row's
    /// task; `true` when the selection moved, so its events must be loaded.
    pub fn select_up(&mut self) -> (moved: bool)
        ensures
            final(self)@ == moved_up(old(self)@),
            moved == (old(self)@.task_ids.len() > 0 && current_row(old(self)@) > 0),
    {
        if self.task_ids.len() == 0 {
            return false;
        }
        let current = match self.list_selected {
            Some(c) => c,
            None => 0,
        };
        if current > 0 {
            self.list_selected = Some(current - 1);
            self.selected = get_cloned(&self.task_ids, current - 1);
            true
        } else {
            false
        }
    }

    /// Moves the highlight one row down, if it can, and selects that row's
    /// task; `true` when the selection moved, so its events must be loaded.
    pub fn select_down(&mut self) -> (moved: bool)
        ensures
            final(self)@ == moved_down(old(self)@),
            moved == (old(self)@.task_ids.len() > 0 && current_row(old(self)@) < old(self)@.task_ids.len() - 1),
    {
        if self.task_ids.len() == 0 {
            return false;
        }
        let current = match self.list_selected {
            Some(c) => c,
            None => 0,
        };
        if current < self.task_ids.len() - 1 {
            self.list_selected = Some(current + 1);
            self.selected = get_cloned(&self.task_ids, current + 1);
            true
        } else {
            false
        }
    }

    /// Shows `loaded`, the events just read for the selected task (none are
    /// shown when no task is selected), from the top.
    pub fn reload_events(&mut self, loaded: Vec<TimedEvent>)
        ensures
            final(self)@ == (AppView {
                events: if old(self)@.selected is Some { loaded@ } else { Seq::empty() },
                last_event_count: if old(self)@.selected is Some { loaded.len() } else { 0 },
                event_scroll: 0,
                ..old(self)@
            }),
    {
        if self.selected.is_some() {
            self.events = loaded;
        } else {
            self.events = Vec::new();
        }
        self.last_event_count = self.events.len();
        self.event_scroll = 0;
    }

    /// Takes `loaded`, the events just read again for the selected task:
    /// when their number changed they replace the shown ones, and a list
    /// scrolled to its end stays at its end.
    pub fn maybe_reload_events(&mut self, loaded: Vec<TimedEvent>)
        ensures
            ({
                let v = old(self)@;
                if v.selected is Some && loaded.len() != v.last_event_count {
                    let w = AppView { events: loaded@, last_event_count: loaded.len(), ..v };
                    final(self)@ == if v.event_scroll >= max_scroll_of(v) {
                        AppView { event_scroll: max_scroll_of(w) as usize, ..w }
                    } else {
                        w
                    }
                } else {
                    final(self)@ == v
                }
            }),
    {
        if self.selected.is_some() {
            if loaded.len() != self.last_event_count {
                let was_at_bottom = self.scrolled_to_bottom();
                self.events = loaded;
                self.last_event_count = self.events.len();
                if was_at_bottom {
                    self.event_scroll = self.max_scroll();
                }
            }
        }
    }

    /// Records the height of the event pane.
    pub fn set_event_viewport_height(&mut self, height: u16)
        ensures
            final(self)@ == (AppView { event_viewport_height: height as usize, ..old(self)@ }),
    {
        self.event_viewport_height = height as usize;
    }

    /// The rows of the event pane that hold events (at least one).
    pub fn viewport_h(&self) -> (r: usize)
        ensures
            r == viewport(self@),
    {
        let h = if self.event_viewport_height >= 2 { self.event_viewport_height - 2 } else { 0 };
        if h >= 1 { h } else { 1 }
    }

    /// The furthest the event list can scroll.
    pub fn max_scroll(&self) -> (r: usize)
        ensures
            r == max_scroll_of(self@),
            r < usize::MAX,
    {
        let h = self.viewport_h();
        if self.events.len() >= h { self.events.len() - h } else { 0 }
    }

    /// Whether the event list shows its end.
    pub fn scrolled_to_bottom(&self) -> (r: bool)
        ensures
            r == (self@.event_scroll >= max_scroll_of(self@)),
    {
        self.event_scroll >= self.max_scroll()
    }

    /// Scrolls the event list up by a page, stopping at the top.
    pub fn page_up(&mut self)
        ensures
            final(self)@ == paged_up(old(self)@),
    {
        let page = self.viewport_h();
        self.event_scroll = self.event_scroll.saturating_sub(page);
    }

    /// Scrolls the event list down by a page, stopping at the end.
    pub fn page_down(&mut self)
        ensures
            final(self)@ == paged_down(old(self)@),
    {
        let page = self.viewport_h();
        let max = self.max_scroll();
        let target = self.event_scroll.saturating_add(page);
        self.event_scroll = if target <= max { target } else { max };
    }

    /// Counts a tick of the watcher's clock; `true` every `REFRESH_EVERY`th
    /// tick, when the tasks and events are to be reloaded.
    pub fn tick(&mut self) -> (reload: bool)
        ensures
            final(self)@ == (AppView {
                refresh_counter: if old(self)@.refresh_counter == usize::MAX {
                    0
                } else {
                    (old(self)@.refresh_counter + 1) as usize
                },
                ..old(self)@
            }),
            reload == (final(self)@.refresh_counter % REFRESH_EVERY == 0),
    {
        self.refresh_counter = self.refresh_counter.wrapping_add(1);
        self.refresh_counter % REFRESH_EVERY == 0
    }

    /// The event rows on screen: from the scroll position, clamped to the
    /// end, for at most a viewport of rows.
    pub fn event_window(&self) -> (r: (usize, usize))
        ensures
            r.0 == (if self@.event_scroll <= max_scroll_of(self@) {
                self@.event_scroll as int
            } else {
                max_scroll_of(self@) as int
            }),
            r.1 == (if r.0 + viewport(self@) <= self@.events.len() {
                r.0 + viewport(self@)
            } else {
                self@.events.len() as int
            }),
            r.0 <= r.1 <= self@.events.len(),
    {
        let visible_h = self.viewport_h();
        let max = self.max_scroll();
        let offset = if self.event_scroll <= max { self.event_scroll } else { max };
        let reach = offset.saturating_add(visible_h);
        let end = if reach <= self.events.len() { reach } else { self.events.len() };
        (offset, end)
    }

    /// The title of the event pane.
    pub fn events_title(&self) -> (r: String)
        ensures
            ({
                let total = self@.events.len();
                let (start, end) = window_of(self@);
                r@ == if total > viewport(self@) {
                    " events ("@ + decimal(total) + " events, showing "@ + decimal((start + 1) as nat)
                        + "-"@ + decimal(end as nat) + " of "@ + decimal(total) + ") "@
                } else {
                    " events ("@ + decimal(total) + " events) "@
                }
            }),
    {
        let total = self.events.len();
        let (start, end) = self.event_window();
        let mut t = owned(" events (");
        push_decimal(&mut t, total as u64);
        if total > self.viewport_h() {
            push_str(&mut t, " events, showing ");
            push_decimal(&mut t, start as u64 + 1);
            push_str(&mut t, "-");
            push_decimal(&mut t, end as u64);
            push_str(&mut t, " of ");
            push_decimal(&mut t, total as u64);
            push_str(&mut t, ") ");
        } else {
            push_str(&mut t, " events) ");
        }
        t
    }

    /// The scrollbar of the event pane, when the events do not fit: its
    /// content length and position.
    pub fn scrollbar(&self) -> (r: Option<(usize, usize)>)
        ensures
            max_scroll_of(self@) == 0 ==> r is None,
            max_scroll_of(self@) > 0 ==> r == Some(
                ((max_scroll_of(self@) + 1) as usize, window_of(self@).0 as usize),
            ),
    {
        let max = self.max_scroll();
        if max > 0 {
            let (offset, _) = self.event_window();
            Some((max + 1, offset))
        } else {
            None
        }
    }

    /// The rows of the event pane, for the events on screen, at time `now`.
    pub fn event_rows(&self, now: &Timestamp) -> (r: Vec<EventRow>)
        ensures
            r.len() == window_of(self@).1 - window_of(self@).0,
            forall|k: int|
                0 <= k < r.len() ==> #[trigger] r@[k]@ == event_row_view(
                    (window_of(self@).0 + k) as nat,
                    self@.events[window_of(self@).0 + k],
                    *now,
                ),
    {
        let (start, end) = self.event_window();
        let mut rows: Vec<EventRow> = Vec::new();
        let mut i = start;
        while i < end
            invariant
                start <= i <= end <= self@.events.len(),
                start == window_of(self@).0,
                end == window_of(self@).1,
                rows.len() == i - start,
                forall|k: int|
                    0 <= k < rows.len() ==> #[trigger] rows@[k]@ == event_row_view(
                        (start + k) as nat,
                        self@.events[start + k],
                        *now,
                    ),
            decreases end - i,
        {
            rows.push(event_row(i, &self.events[i], now));
            i = i + 1;
        }
        rows
    }

    /// The message shown when there are no tasks.
    pub fn empty_message(&self) -> (r: String)
        ensures
            r@ == match self@.focused_task_id {
                Some(id) => "no task found with id "@ + id,
                None => "no tasks yet"@,
            },
    {
        match &self.focused_task_id {
            Some(id) => {
                let mut m = owned("no task found with id ");
                push_str(&mut m, id.as_str());
                m
            },
            None => owned("no tasks yet"),
        }
    }
}

/// The lists of a watcher's state are as long as a vector can be.
pub open spec fn view_fits(v: AppView) -> bool {
    v.events.len() <= usize::MAX && v.task_ids.len() <= usize::MAX
}

/// Every watcher's state fits: its lists are vectors, no longer than
/// `usize::MAX`.
pub proof fn lemma_view_fits(app: &App)
    ensures
        view_fits(app@),
{
    broadcast use vstd::std_specs::vec::axiom_spec_len;

    assert(app.events.len() == app.events@.len());
    assert(app.task_ids.len() == app.task_ids@.len());
    assert(app@.task_ids.len() == app.task_ids@.len());
}

/// The highlighted row, or the first when none is.
pub open spec fn current_row(v: AppView) -> int {
    match v.list_selected {
        Some(c) => c as int,
        None => 0,
    }
}

/// The state after moving the highlight up a row: the row above is
/// highlighted and its task selected, unless the highlight is on the first
/// row or there are no tasks.
pub open spec fn moved_up(v: AppView) -> AppView {
    let cur = current_row(v);
    if v.task_ids.len() > 0 && cur > 0 {
        AppView { list_selected: Some((cur - 1) as usize), selected: entry(v.task_ids, cur - 1), ..v }
    } else {
        v
    }
}

/// The state after moving the highlight down a row, unless it is on the last.
pub open spec fn moved_down(v: AppView) -> AppView {
    let cur = current_row(v);
    if v.task_ids.len() > 0 && cur < v.task_ids.len() - 1 {
        AppView { list_selected: Some((cur + 1) as usize), selected: entry(v.task_ids, cur + 1), ..v }
    } else {
        v
    }
}

/// The state after scrolling the events up a page, stopping at the top.
pub open spec fn paged_up(v: AppView) -> AppView {
    AppView {
        event_scroll: if v.event_scroll >= viewport(v) {
            (v.event_scroll - viewport(v)) as usize
        } else {
            0
        },
        ..v
    }
}

/// The state after scrolling the events down a page, stopping at the end.
pub open spec fn paged_down(v: AppView) -> AppView {
    AppView {
        event_scroll: if v.event_scroll + viewport(v) <= max_scroll_of(v) {
            (v.event_scroll + viewport(v)) as usize
        } else {
            max_scroll_of(v) as usize
        },
        ..v
    }
}

/// Paging down never scrolls past the end, and paging back up undoes a page
/// down that was not stopped by the end.
pub proof fn lemma_paging(v: AppView)
    requires
        view_fits(v),
    ensures
        paged_down(v).event_scroll <= max_scroll_of(v),
        paged_up(v).event_scroll <= v.event_scroll,
        v.event_scroll + viewport(v) <= max_scroll_of(v) ==> paged_up(paged_down(v)) == v,
{
    if v.event_scroll + viewport(v) <= max_scroll_of(v) {
        let d = paged_down(v);
        assert(viewport(d) == viewport(v));
        assert(d.event_scroll == v.event_scroll + viewport(v));
        assert(paged_up(d).event_scroll == v.event_scroll);
        assert(paged_up(d) == v);
    }
}

/// Moving the highlight down undoes moving it up, and the other way round,
/// where the move was possible; a highlight within the list stays within it.
pub proof fn lemma_selection_moves(v: AppView)
    requires
        view_fits(v),
    ensures
        (v.list_selected matches Some(c) && 0 < c < v.task_ids.len()) ==> moved_down(moved_up(v))
            == (AppView { selected: entry(v.task_ids, current_row(v)), ..v }),
        (v.list_selected matches Some(c) && c + 1 < v.task_ids.len()) ==> moved_up(moved_down(v))
            == (AppView { selected: entry(v.task_ids, current_row(v)), ..v }),
        (v.list_selected matches Some(c) && c < v.task_ids.len()) ==> (moved_up(v).list_selected matches Some(
            d) && d < v.task_ids.len()),
        (v.list_selected matches Some(c) && c < v.task_ids.len()) ==> (moved_down(v).list_selected matches Some(
            d) && d < v.task_ids.len()),
{
    if v.list_selected is Some && v.list_selected->0 + 1 < v.task_ids.len() {
        let c = v.list_selected->0;
        let d = moved_down(v);
        assert(current_row(d) == c + 1);
        assert(moved_up(d).list_selected == Some(c));
        assert(moved_up(d) == (AppView { selected: entry(v.task_ids, current_row(v)), ..v }));
    }
}

/// The event rows on screen, as `event_window` computes them.
pub open spec fn window_of(v: AppView) -> (int, int) {
    let start = if v.event_scroll <= max_scroll_of(v) {
        v.event_scroll as int
    } else {
        max_scroll_of(v) as int
    };
    let end = if start + viewport(v) <= v.events.len() {
        start + viewport(v)
    } else {
        v.events.len() as int
    };
    (start, end)
}

/// An age in seconds as the watcher writes it: seconds under a minute,
/// minutes under an hour, hours beyond.
pub open spec fn age_text(age: int) -> Seq<char> {
    if age < 60 {
        signed_decimal(age) + "s"@
    } else if age < 3600 {
        signed_decimal(age / 60) + "m"@
    } else {
        signed_decimal(age / 3600) + "h"@
    }
}

/// An age is written as a whole number and its unit: under a minute, the
/// age itself in seconds (`s`); under an hour, the whole minutes it holds
/// (`m`); from an hour on, the whole hours it holds (`h`), however many.
pub proof fn lemma_age_text(age: int)
    ensures
        age < 60 ==> age_text(age) == signed_decimal(age) + "s"@,
        60 <= age < 3600 ==> exists|n: int| #![trigger signed_decimal(n)]
            n * 60 <= age < (n + 1) * 60 && age_text(age) == signed_decimal(n) + "m"@,
        3600 <= age ==> exists|n: int| #![trigger signed_decimal(n)]
            n * 3600 <= age < (n + 1) * 3600 && age_text(age) == signed_decimal(n) + "h"@,
{
    if 60 <= age < 3600 {
        let n = age / 60;
        assert(n * 60 <= age < (n + 1) * 60) by (nonlinear_arith)
            requires
                n == age / 60,
                age >= 0,
        ;
        assert(age_text(age) == signed_decimal(n) + "m"@);
    }
    if 3600 <= age {
        let n = age / 3600;
        assert(n * 3600 <= age < (n + 1) * 3600) by (nonlinear_arith)
            requires
                n == age / 3600,
                age >= 0,
        ;
        assert(age_text(age) == signed_decimal(n) + "h"@);
    }
}

/// Writes an age in seconds, minutes or hours.
pub fn fmt_age(age: i64) -> (r: String)
    ensures
        r@ == age_text(age as int),
{
    let mut s = String::new();
    if age < 60 {
        push_signed_decimal(&mut s, age);
        push_str(&mut s, "s");
    } else if age < 3600 {
        push_signed_decimal(&mut s, age / 60);
        push_str(&mut s, "m");
    } else {
        push_signed_decimal(&mut s, age / 3600);
        push_str(&mut s, "h");
    }
    proof {
        assert(Seq::<char>::empty() + age_text(age as int) == age_text(age as int));
    }
    s
}

/// What the event list says of an event.
pub open spec fn describe(e: Event) -> Seq<char> {
    match e {
        Event::Started { model, .. } => "started (model: "@ + model@ + ")"@,
        Event::IterationStarted { iter } => "iteration "@ + decimal(iter as nat),
        Event::ModelRequestStarted { .. } => "model request"@,
        Event::ModelResponseReceived { .. } => "model response"@,
        Event::ToolStarted { command, .. } => "bash: "@ + shortened(command@, EVENT_TEXT_CHARS as nat),
        Event::ToolFinished { command, exit_code, .. } => (if exit_code == 0 {
            "ok"@
        } else {
            "exit("@ + signed_decimal(exit_code as int) + ")"@
        }) + " "@ + shortened(command@, FINISHED_COMMAND_CHARS as nat),
        Event::Completed { summary } => "done: "@ + shortened(summary@, EVENT_TEXT_CHARS as nat),
        Event::Failed { error } => "failed: "@ + shortened(error@, EVENT_TEXT_CHARS as nat),
    }
}

/// The text of an event in the event list.
pub fn event_description(ev: &Event) -> (r: String)
    ensures
        r@ == describe(*ev),
{
    match ev {
        Event::Started { model, .. } => {
            let mut s = owned("started (model: ");
            push_str(&mut s, model.as_str());
            push_str(&mut s, ")");
            s
        },
        Event::IterationStarted { iter } => {
            let mut s = owned("iteration ");
            push_decimal(&mut s, *iter as u64);
            s
        },
        Event::ModelRequestStarted { .. } => owned("model request"),
        Event::ModelResponseReceived { .. } => owned("model response"),
        Event::ToolStarted { command, .. } => {
            let mut s = owned("bash: ");
            let t = truncate(command.as_str(), EVENT_TEXT_CHARS);
            push_str(&mut s, t.as_str());
            s
        },
        Event::ToolFinished { command, exit_code, .. } => {
            let mut s = if *exit_code == 0 {
                owned("ok")
            } else {
                let mut e = owned("exit(");
                push_signed_decimal(&mut e, *exit_code as i64);
                push_str(&mut e, ")");
                e
            };
            push_str(&mut s, " ");
            let t = truncate(command.as_str(), FINISHED_COMMAND_CHARS);
            push_str(&mut s, t.as_str());
            s
        },
        Event::Completed { summary } => {
            let mut s = owned("done: ");
            let t = truncate(summary.as_str(), EVENT_TEXT_CHARS);
            push_str(&mut s, t.as_str());
            s
        },
        Event::Failed { error } => {
            let mut s = owned("failed: ");
            let t = truncate(error.as_str(), EVENT_TEXT_CHARS);
            push_str(&mut s, t.as_str());
            s
        },
    }
}

/// The marker and color of an event in the event list.
pub open spec fn style_of(e: Event) -> (char, StyleColor) {
    match e {
        Event::Started { .. } => ('\u{25B6}', StyleColor::Cyan),
        Event::IterationStarted { .. } => ('\u{21BB}', StyleColor::DarkGray),
        Event::ModelRequestStarted { .. } => ('\u{2191}', StyleColor::Blue),
        Event::ModelResponseReceived { .. } => ('\u{2193}', StyleColor::Blue),
        Event::ToolStarted { .. } => ('$', StyleColor::Yellow),
        Event::ToolFinished { exit_code, .. } => if exit_code != 0 {
            ('\u{2717}', StyleColor::Red)
        } else {
            ('\u{2713}', StyleColor::Green)
        },
        Event::Completed { .. } => ('\u{2713}', StyleColor::Green),
        Event::Failed { .. } => ('\u{2717}', StyleColor::Red),
    }
}

/// The marker and color of an event.
pub fn event_style(ev: &Event) -> (r: (char, StyleColor))
    ensures
        r == style_of(*ev),
{
    match ev {
        Event::Started { .. } => ('\u{25B6}', StyleColor::Cyan),
        Event::IterationStarted { .. } => ('\u{21BB}', StyleColor::DarkGray),
        Event::ModelRequestStarted { .. } => ('\u{2191}', StyleColor::Blue),
        Event::ModelResponseReceived { .. } => ('\u{2193}', StyleColor::Blue),
        Event::ToolStarted { .. } => ('$', StyleColor::Yellow),
        Event::ToolFinished { exit_code, .. } => if *exit_code != 0 {
            ('\u{2717}', StyleColor::Red)
        } else {
            ('\u{2713}', StyleColor::Green)
        },
        Event::Completed { .. } => ('\u{2713}', StyleColor::Green),
        Event::Failed { .. } => ('\u{2717}', StyleColor::Red),
    }
}

/// One row of the event list.
pub struct EventRow {
    /// The event's number, from 1, right-aligned in three places.
    pub number: String,
    /// The event's age, right-aligned in four places.
    pub age: String,
    pub marker: char,
    pub color: StyleColor,
    pub description: String,
}

pub struct EventRowView {
    pub number: Seq<char>,
    pub age: Seq<char>,
    pub marker: char,
    pub color: StyleColor,
    pub description: Seq<char>,
}

impl View for EventRow {
    type V = EventRowView;

    open spec fn view(&self) -> EventRowView {
        EventRowView {
            number: self.number@,
            age: self.age@,
            marker: self.marker,
            color: self.color,
            description: self.description@,
        }
    }
}

/// The row of the event at `index` (from 0) at time `now`.
pub open spec fn event_row_view(index: nat, te: TimedEvent, now: Timestamp) -> EventRowView {
    let age = whole_seconds(now.total_nanos() - te.ts.total_nanos());
    EventRowView {
        number: pad_left(decimal(index + 1), 3) + " "@,
        age: pad_left(age_text(age), 4) + " "@,
        marker: style_of(te.event).0,
        color: style_of(te.event).1,
        description: describe(te.event),
    }
}

/// The row of the event at `index` (from 0) at time `now`.
pub fn event_row(index: usize, te: &TimedEvent, now: &Timestamp) -> (r: EventRow)
    requires
        index < usize::MAX,
    ensures
        r@ == event_row_view(index as nat, *te, *now),
{
    let n = fmt_u64(index as u64 + 1);
    let mut number = align_right(n.as_str(), 3);
    push_str(&mut number, " ");
    let age = now.seconds_since(&te.ts);
    let a = fmt_age(age);
    let mut age_col = align_right(a.as_str(), 4);
    push_str(&mut age_col, " ");
    let (marker, color) = event_style(&te.event);
    EventRow { number, age: age_col, marker, color, description: event_description(&te.event) }
}

/// The marker and color of a task in the task list: by its state, or `?`
/// when its events could not be read.
pub open spec fn list_marker_of(state: Option<TaskState>) -> (Seq<char>, StyleColor) {
    match state {
        Some(TaskState::Running) => ("\u{25B6} "@, StyleColor::Cyan),
        Some(TaskState::Completed) => ("\u{2713} "@, StyleColor::Green),
        Some(TaskState::Failed) => ("\u{2717} "@, StyleColor::Red),
        None => ("? "@, StyleColor::DarkGray),
    }
}

/// The marker (followed by a space) and color of a task in the task list.
pub fn list_marker(state: Option<TaskState>) -> (r: (String, StyleColor))
    ensures
        (r.0@, r.1) == list_marker_of(state),
{
    match state {
        Some(TaskState::Running) => (owned("\u{25B6} "), StyleColor::Cyan),
        Some(TaskState::Completed) => (owned("\u{2713} "), StyleColor::Green),
        Some(TaskState::Failed) => (owned("\u{2717} "), StyleColor::Red),
        None => (owned("? "), StyleColor::DarkGray),
    }
}

/// The texts of the detail pane of a task.
pub struct DetailText {
    /// The pane's title: the task id between spaces.
    pub title: String,
    /// The state, its color, and whether it is bold.
    pub state: String,
    pub state_color: StyleColor,
    pub state_bold: bool,
    pub iteration: String,
    pub model: String,
    pub prompt: String,
    pub updated: String,
    pub running: Option<String>,
    pub result: Option<String>,
    pub error: Option<String>,
}

/// The shortened text of an optional string, for the detail pane.
pub open spec fn short_opt(o: Option<Seq<char>>) -> Option<Seq<char>> {
    match o {
        Some(s) => Some(shortened(s, DETAIL_TEXT_CHARS as nat)),
        None => None,
    }
}

fn short_opt_exec(o: &Option<String>) -> (r: Option<String>)
    ensures
        opt_view(r) == short_opt(opt_view(*o)),
{
    match o {
        Some(s) => Some(truncate(s.as_str(), DETAIL_TEXT_CHARS)),
        None => None,
    }
}

/// What the detail pane shows of `snap`, the snapshot of task `id`, at time
/// `now`.
pub fn detail_text(id: &str, snap: &TaskSnapshot, now: &Timestamp) -> (r: DetailText)
    ensures
        r.title@ == " "@ + id@ + " "@,
        r.state@ == state_name(snap.state),
        r.state_color == match snap.state {
            TaskState::Running => StyleColor::Cyan,
            TaskState::Completed => StyleColor::Green,
            TaskState::Failed => StyleColor::Red,
        },
        r.state_bold == (snap.state == TaskState::Running),
        r.iteration@ == "  iter "@ + decimal(snap.iter as nat) + "/"@ + decimal(MAX_ITER as nat),
        r.model@ == "  model "@ + snap.model@,
        r.prompt@ == shortened(snap.prompt@, DETAIL_TEXT_CHARS as nat),
        r.updated@ == age_text(whole_seconds(now.total_nanos() - snap.updated_at.total_nanos()))
            + " ago"@,
        opt_view(r.running) == short_opt(opt_view(snap.current_command)),
        opt_view(r.result) == short_opt(opt_view(snap.summary)),
        opt_view(r.error) == short_opt(opt_view(snap.error)),
{
    let mut title = owned(" ");
    push_str(&mut title, id);
    push_str(&mut title, " ");
    let mut iteration = owned("  iter ");
    push_decimal(&mut iteration, snap.iter as u64);
    push_str(&mut iteration, "/");
    push_decimal(&mut iteration, MAX_ITER as u64);
    let mut model = owned("  model ");
    push_str(&mut model, snap.model.as_str());
    let age = now.seconds_since(&snap.updated_at);
    let mut updated = fmt_age(age);
    push_str(&mut updated, " ago");
    DetailText {
        title,
        state: state_label(snap.state),
        state_color: match snap.state {
            TaskState::Running => StyleColor::Cyan,
            TaskState::Completed => StyleColor::Green,
            TaskState::Failed => StyleColor::Red,
        },
        state_bold: snap.state == TaskState::Running,
        iteration,
        model,
        prompt: truncate(snap.prompt.as_str(), DETAIL_TEXT_CHARS),
        updated,
        running: short_opt_exec(&snap.current_command),
        result: short_opt_exec(&snap.summary),
        error: short_opt_exec(&snap.error),
    }
}

} // verus!
