//! The bar core: the ordered widget list, the name-to-callback-slot
//! registry, rendering, and command dispatch. The surrounding process runs
//! the event loop; every decision it needs is a function here.

use vstd::prelude::*;
use vstd::string::*;
use crate::data::{Format, FormatV};
use crate::formatter::{Formatter, format_values, line_view, views_of};
use crate::textenc::{newline_stripped, strip_newlines};

verus! {

/// A widget reports its current displayable value. Change notification
/// (the background activity that watches the data source and signals the
/// bar) is the embedding's concern: the bar core only ever reads values.
pub trait Widget {
    /// The widget's current value, at the specification level.
    spec fn value(&self) -> FormatV;

    /// A snapshot of the current value; never blocks on new work.
    fn current_value(&self) -> (r: Format)
        ensures
            r@ == self.value(),
    ;
}

/// The first index at or after `i` holding `name`, or `names.len()` if
/// `name` does not occur there.
pub open spec fn name_index_from(names: Seq<Seq<char>>, name: Seq<char>, i: int) -> int
    decreases names.len() - i,
{
    if i < 0 || i >= names.len() {
        names.len() as int
    } else if names[i] == name {
        i
    } else {
        name_index_from(names, name, i + 1)
    }
}

/// The first registry slot holding `name`, or `names.len()` if none does.
pub open spec fn name_index(names: Seq<Seq<char>>, name: Seq<char>) -> int {
    name_index_from(names, name, 0)
}

/// Whether `name` is registered.
pub open spec fn registered(names: Seq<Seq<char>>, name: Seq<char>) -> bool {
    name_index(names, name) < names.len()
}

pub proof fn lemma_name_index(names: Seq<Seq<char>>, name: Seq<char>, i: int)
    requires
        0 <= i <= names.len(),
    ensures
        i <= name_index_from(names, name, i) <= names.len(),
        name_index_from(names, name, i) < names.len() ==> names[name_index_from(
            names,
            name,
            i,
        )] == name,
        forall|j: int|
            i <= j < name_index_from(names, name, i) ==> names[j] != name,
    decreases names.len() - i,
{
    if i < names.len() && names[i] != name {
        lemma_name_index(names, name, i + 1);
    }
}

/// An event the bar's loop waits for: a widget-change signal, or one line
/// from the command input (or its end).
pub enum BarEvent {
    Refresh,
    Input(Option<String>),
}

/// What the loop must do for one event: render the whole line again,
/// invoke the callback in one registry slot, or nothing.
pub enum BarAction {
    Render,
    Invoke(usize),
    Ignore,
}

/// The bar: a formatter, the widgets in registration order, and the
/// registered command names, where slot `i` belongs to the `i`-th
/// registered callback.
pub struct UnixBar<F: Formatter, W: Widget> {
    pub formatter: F,
    pub widgets: Vec<W>,
    pub fns: Vec<String>,
}

impl<F: Formatter, W: Widget> UnixBar<F, W> {
    /// The registered command names, in slot order.
    pub open spec fn names_view(&self) -> Seq<Seq<char>> {
        Seq::new(self.fns@.len(), |i: int| self.fns@[i]@)
    }

    /// No name occupies two slots.
    pub open spec fn wf(&self) -> bool {
        forall|i: int, j: int|
            0 <= i < j < self.names_view().len() ==> self.names_view()[i] != self.names_view()[j]
    }

    /// The widgets' current values, in registration order.
    pub open spec fn values_view(&self) -> Seq<FormatV> {
        Seq::new(self.widgets@.len(), |i: int| self.widgets@[i].value())
    }

    /// The callback slot that one input line selects: the line must parse
    /// to a command name and that name must be registered.
    pub open spec fn spec_dispatch(&self, line: Seq<char>) -> Option<int> {
        match self.formatter.spec_parse(line) {
            None => None,
            Some(nm) => if registered(self.names_view(), nm) {
                Some(name_index(self.names_view(), nm))
            } else {
                None
            },
        }
    }

    pub fn new(formatter: F) -> (r: Self)
        ensures
            r.formatter == formatter,
            r.widgets@.len() == 0,
            r.names_view().len() == 0,
            r.wf(),
    {
        let r = UnixBar { formatter, widgets: Vec::new(), fns: Vec::new() };
        proof {
            assert(r.names_view() =~= Seq::<Seq<char>>::empty());
        }
        r
    }

    /// Registers `name` and returns the slot whose callback it selects
    /// from now on. A new name gets the next free slot; re-registering an
    /// existing name returns its old slot, whose callback the caller
    /// replaces (last registration wins).
    pub fn register_fn(&mut self, name: &str) -> (slot: usize)
        requires
            old(self).wf(),
        ensures
            final(self).wf(),
            final(self).formatter == old(self).formatter,
            final(self).widgets == old(self).widgets,
            registered(old(self).names_view(), name@) ==> final(self).fns@ == old(self).fns@
                && slot as int == name_index(old(self).names_view(), name@),
            !registered(old(self).names_view(), name@) ==> final(self).names_view() == old(
                self,
            ).names_view().push(name@) && slot as int == old(self).fns@.len(),
            registered(final(self).names_view(), name@),
            name_index(final(self).names_view(), name@) == slot as int,
    {
        let ghost names = self.names_view();
        proof {
            lemma_name_index(names, name@, 0);
        }
        match self.find_slot_str(name) {
            Some(slot) => slot,
            None => {
                let slot = self.fns.len();
                self.fns.push(name.to_owned());
                proof {
                    let names2 = self.names_view();
                    assert(names2 =~= names.push(name@));
                    lemma_name_index(names2, name@, 0);
                    let nif = name_index(names2, name@);
                    assert(names2[names2.len() - 1] == name@);
                    if nif == names2.len() {
                        assert(names2[names2.len() - 1] != name@);
                    }
                    if nif < names2.len() - 1 {
                        assert(names2[nif] == names[nif]);
                        assert(names[nif] != name@);
                    }
                    assert(nif == names2.len() - 1);
                }
                slot
            },
        }
    }

    /// Appends a widget; its value renders after all earlier widgets'.
    pub fn add(&mut self, widget: W)
        ensures
            final(self).widgets@ == old(self).widgets@.push(widget),
            final(self).fns == old(self).fns,
            final(self).formatter == old(self).formatter,
    {
        self.widgets.push(widget);
    }

    /// Reads every widget's current value, in registration order.
    pub fn read_values(&self) -> (r: Vec<Format>)
        ensures
            views_of(r@) == self.values_view(),
            r@.len() == self.widgets@.len(),
    {
        let mut out: Vec<Format> = Vec::new();
        let mut i: usize = 0;
        while i < self.widgets.len()
            invariant
                i <= self.widgets@.len(),
                out@.len() == i as nat,
                forall|j: int| 0 <= j < i ==> out@[j]@ == self.widgets@[j].value(),
            decreases self.widgets@.len() - i,
        {
            out.push(self.widgets[i].current_value());
            i += 1;
        }
        proof {
            assert(views_of(out@) =~= self.values_view());
        }
        out
    }

    /// The output line: every widget's current value, in registration
    /// order, rendered by the formatter, with embedded newlines stripped
    /// so the host bar always receives a single-line record.
    pub fn show_line(&self) -> (r: String)
        ensures
            r@ == newline_stripped(line_view(self.formatter, self.values_view())),
    {
        let vals = self.read_values();
        let line = format_values(&self.formatter, &vals);
        strip_newlines(line.as_str())
    }

    /// The slot holding exactly `name`, or nothing.
    fn find_slot_str(&self, name: &str) -> (r: Option<usize>)
        ensures
            match r {
                Some(s) => registered(self.names_view(), name@) && s as int == name_index(
                    self.names_view(),
                    name@,
                ),
                None => !registered(self.names_view(), name@),
            },
    {
        let ghost names = self.names_view();
        let mut i: usize = 0;
        loop
            invariant
                i <= self.fns@.len(),
                names == self.names_view(),
                name_index_from(names, name@, 0) == name_index_from(names, name@, i as int),
            ensures
                i <= self.fns@.len(),
                name_index_from(names, name@, 0) == i as int,
                i < self.fns@.len() ==> names[i as int] == name@,
            decreases self.fns@.len() - i,
        {
            if i >= self.fns.len() {
                break ;
            }
            if compare_str(&self.fns[i], name) {
                break ;
            }
            i += 1;
        }
        if i < self.fns.len() {
            Some(i)
        } else {
            None
        }
    }

    /// The slot selected by `name`, or nothing if `name` is unregistered.
    pub fn find_slot(&self, name: &String) -> (r: Option<usize>)
        ensures
            match r {
                Some(s) => registered(self.names_view(), name@) && s as int == name_index(
                    self.names_view(),
                    name@,
                ),
                None => !registered(self.names_view(), name@),
            },
    {
        self.find_slot_str(name.as_str())
    }

    /// Handles one command-input line: parses it with the formatter and
    /// looks the command name up. The returned slot's callback is to be
    /// invoked exactly once; a line that does not parse, names an
    /// unregistered command, or is absent selects nothing and is ignored.
    pub fn handle_stdin(&self, line: Option<&str>) -> (r: Option<usize>)
        ensures
            match line {
                None => r is None,
                Some(l) => match r {
                    Some(s) => self.spec_dispatch(l@) == Some(s as int),
                    None => self.spec_dispatch(l@) is None,
                },
            },
    {
        match line {
            None => None,
            Some(l) => {
                match self.formatter.parse_command(l) {
                    None => None,
                    Some(nm) => self.find_slot(&nm),
                }
            },
        }
    }

    /// One step of the event loop: a widget-change signal asks for one
    /// render; an input line asks for at most one callback invocation.
    pub fn step(&self, ev: &BarEvent) -> (a: BarAction)
        ensures
            match ev {
                BarEvent::Refresh => a == BarAction::Render,
                BarEvent::Input(l) => match l {
                    None => a == BarAction::Ignore,
                    Some(s) => match self.spec_dispatch(s@) {
                        Some(slot) => a matches BarAction::Invoke(k) && k as int == slot,
                        None => a == BarAction::Ignore,
                    },
                },
            },
    {
        match ev {
            BarEvent::Refresh => BarAction::Render,
            BarEvent::Input(l) => {
                let line: Option<&str> = match l {
                    Some(s) => Some(s.as_str()),
                    None => None,
                };
                match self.handle_stdin(line) {
                    Some(slot) => BarAction::Invoke(slot),
                    None => BarAction::Ignore,
                }
            },
        }
    }
}

/// Whether the two strings hold the same characters.
fn compare_str(a: &String, b: &str) -> (r: bool)
    ensures
        r == (a@ == b@),
{
    let bs: String = b.to_owned();
    *a == bs
}

} // verus!
