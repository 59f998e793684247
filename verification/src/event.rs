//! Events of a world's history.

use vstd::prelude::*;
use crate::rows::{is_rfc3339, rfc3339_valid, RowError};
use crate::metadata::{Metadata, MetaVal, MetaValue};
use crate::number::i32_literal;
use crate::setargs::{FloatReading, CreateError, args_view, number_readable, read_status_text, run_steps, lemma_run_steps_prefix, lemma_run_steps_failure_in_range, set_error_matches, status_text, SetArg, SetArgView, SetError, i64_field, read_i64_field, read_text_field, text_field};
use crate::status::EventStatus;
use crate::text::str_eq;
use crate::order::{count_in_order, counted_in_order, counts_view, sum_counts};
use crate::world_config::strings_view;

verus! {

broadcast use vstd::string::group_string_axioms;

/// A date that could not be read as a timeline date.
#[derive(Debug)]
pub enum DateError {
    Unreadable { text: String },
}

/// An event: unique name, display name, date text and chronological sort key, free metadata, creation time and status.
#[derive(Debug)]
pub struct Event {
    /// Row id in the database; 0 until stored.
    pub id: i32,
    pub name: String,
    pub display_name: String,
    pub date_text: String,
    pub sort_key: i64,
    pub metadata: Metadata,
    /// Creation time, in RFC 3339.
    pub created_at: String,
    pub status: EventStatus,
}

/// The mathematical value of a `Event`.
pub struct EventView {
    pub id: i32,
    pub name: Seq<char>,
    pub display_name: Seq<char>,
    pub date_text: Seq<char>,
    pub sort_key: i64,
    pub metadata: Map<Seq<char>, MetaVal>,
    pub created_at: Seq<char>,
    pub status: EventStatus,
}

impl View for Event {
    type V = EventView;

    open spec fn view(&self) -> EventView {
        EventView {
            id: self.id,
            name: self.name@,
            display_name: self.display_name@,
            date_text: self.date_text@,
            sort_key: self.sort_key,
            metadata: self.metadata@,
            created_at: self.created_at@,
            status: self.status,
        }
    }
}

impl Event {
    /// Whether `key` names a typed field (rather than the status or metadata).
    pub open spec fn typed_key(key: Seq<char>) -> bool {
        key == "display_name"@ || key == "date_text"@ || key == "sort_key"@
    }

    /// The effect of one `--set` assignment; `None` when it is refused.
    pub open spec fn step(v: EventView, a: SetArgView) -> Option<EventView> {
        if a.key == "display_name"@ {
            match text_field(a) {
                Some(x) => Some(EventView { display_name: x, ..v }),
                None => None,
            }
        } else         if a.key == "date_text"@ {
            match text_field(a) {
                Some(x) => Some(EventView { date_text: x, ..v }),
                None => None,
            }
        } else         if a.key == "sort_key"@ {
            match i64_field(a) {
                Some(x) => Some(EventView { sort_key: x, ..v }),
                None => None,
            }
        } else if a.key == "status"@ {
            match status_text(a) {
                Some(t) => match EventStatus::from_label(t) {
                    Some(st) => Some(EventView { status: st, ..v }),
                    None => None,
                },
                None => None,
            }
        } else {
            Some(EventView { metadata: v.metadata.insert(a.key, MetaVal::Text(a.value)), ..v })
        }
    }

    /// `step` as a function value.
    pub open spec fn stepper() -> spec_fn(EventView, SetArgView) -> Option<EventView> {
        |w: EventView, a: SetArgView| Event::step(w, a)
    }

    /// The state after applying `args` in order, and the position of the first refused one.
    pub open spec fn run(v: EventView, args: Seq<SetArgView>) -> (EventView, Option<int>) {
        run_steps(v, args, Event::stepper())
    }

    /// Assignments never change the id, the key or the creation time.
    pub proof fn lemma_run_keeps_identity(v: EventView, args: Seq<SetArgView>)
        ensures
            Event::run(v, args).0.id == v.id,
            Event::run(v, args).0.name == v.name,
            Event::run(v, args).0.created_at == v.created_at,
            Event::run(v, args).1 matches Some(i) ==> 0 <= i < args.len(),
        decreases args.len(),
    {
        lemma_run_steps_failure_in_range(v, args, Event::stepper());
        if args.len() > 0 {
            Event::lemma_run_keeps_identity(v, args.drop_last());
        }
    }

    /// A `--set display_name=T` whose value T is not a number sets the display name to T
    /// and leaves the metadata, the status and the other fields as they were.
    pub proof fn lemma_set_display_name(v: EventView, a: SetArgView)
        requires
            a.key == "display_name"@,
            i32_literal(a.value) is None,
            a.float != FloatReading::Finite,
        ensures
            Event::step(v, a) matches Some(w) && w.display_name == a.value && w.metadata == v.metadata && w.status == v.status && w.date_text == v.date_text && w.sort_key == v.sort_key,
    {
        reveal_strlit("display_name");
        reveal_strlit("date_text");
        reveal_strlit("sort_key");
        reveal_strlit("status");
        assert(a.key.len() != "date_text"@.len());
        assert(a.key.len() != "sort_key"@.len());
        assert(a.key.len() != "status"@.len());
    }

    /// A `--set date_text=T` whose value T is not a number sets the date text to T
    /// and leaves the metadata, the status and the other fields as they were.
    pub proof fn lemma_set_date_text(v: EventView, a: SetArgView)
        requires
            a.key == "date_text"@,
            i32_literal(a.value) is None,
            a.float != FloatReading::Finite,
        ensures
            Event::step(v, a) matches Some(w) && w.date_text == a.value && w.metadata == v.metadata && w.status == v.status && w.display_name == v.display_name && w.sort_key == v.sort_key,
    {
        reveal_strlit("display_name");
        reveal_strlit("date_text");
        reveal_strlit("sort_key");
        reveal_strlit("status");
        assert(a.key.len() != "display_name"@.len());
        assert(a.key.len() != "sort_key"@.len());
        assert(a.key.len() != "status"@.len());
    }

    /// A `--set sort_key=N` whose value spells an `i32` N sets the sort key to N
    /// and leaves the metadata, the status and the other fields as they were;
    /// any other value is refused.
    pub proof fn lemma_set_sort_key(v: EventView, a: SetArgView)
        requires
            a.key == "sort_key"@,
        ensures
            match i32_literal(a.value) {
                Some(n) => Event::step(v, a) matches Some(w) && w.sort_key == n as i64 && w.metadata == v.metadata
                    && w.status == v.status && w.display_name == v.display_name && w.date_text == v.date_text,
                None => Event::step(v, a) is None,
            },
    {
        reveal_strlit("display_name");
        reveal_strlit("date_text");
        reveal_strlit("sort_key");
        reveal_strlit("status");
        assert(a.key.len() != "display_name"@.len());
        assert(a.key.len() != "date_text"@.len());
        assert(a.key.len() != "status"@.len());
    }

    /// A `--set KEY=value` whose key is neither a field nor `status` records
    /// the value as text under KEY in the metadata and changes nothing else.
    pub proof fn lemma_set_metadata(v: EventView, a: SetArgView)
        requires
            !Event::typed_key(a.key),
            a.key != "status"@,
        ensures
            Event::step(v, a) matches Some(w) && w.metadata == v.metadata.insert(a.key, MetaVal::Text(a.value))
                && w.status == v.status && w.display_name == v.display_name && w.date_text == v.date_text && w.sort_key == v.sort_key,
    {
    }

    /// Assignments never put a field or the status into the metadata: what
    /// has none of those keys keeps none, whatever the assignments.
    pub proof fn lemma_run_keeps_fields_out_of_metadata(v: EventView, args: Seq<SetArgView>)
        requires
            !v.metadata.contains_key("display_name"@),
            !v.metadata.contains_key("date_text"@),
            !v.metadata.contains_key("sort_key"@),
            !v.metadata.contains_key("status"@),
        ensures
            !Event::run(v, args).0.metadata.contains_key("display_name"@),
            !Event::run(v, args).0.metadata.contains_key("date_text"@),
            !Event::run(v, args).0.metadata.contains_key("sort_key"@),
            !Event::run(v, args).0.metadata.contains_key("status"@),
        decreases args.len(),
    {
        if args.len() > 0 {
            Event::lemma_run_keeps_fields_out_of_metadata(v, args.drop_last());
            reveal_strlit("display_name");
            reveal_strlit("date_text");
            reveal_strlit("sort_key");
            reveal_strlit("status");
        }
    }

    /// Every assignment to a typed field carries a value that can be read as a number or not.
    pub open spec fn args_readable(args: Seq<SetArgView>) -> bool {
        forall|i: int| 0 <= i < args.len() && Event::typed_key(#[trigger] args[i].key) ==> number_readable(args[i])
    }

    /// A new record before any assignment.
    pub open spec fn fresh(name: Seq<char>, created_at: Seq<char>) -> EventView {
        EventView {
            id: 0,
            name,
            display_name: Seq::empty(),
            date_text: Seq::empty(),
            sort_key: 0,
            metadata: Map::empty(),
            created_at,
            status: EventStatus::initial(),
        }
    }

    /// Whether `key` names a typed field.
    pub fn is_typed_key(key: &str) -> (r: bool)
        ensures
            r == Event::typed_key(key@),
    {
        str_eq(key, "display_name") || str_eq(key, "date_text") || str_eq(key, "sort_key")
    }

    /// Whether every assignment to a typed field carries a readable value.
    pub fn assignments_readable(set: &Vec<SetArg>) -> (r: bool)
        ensures
            r == Event::args_readable(args_view(set@)),
    {
        let ghost all = args_view(set@);
        let mut i: usize = 0;
        while i < set.len()
            invariant
                i <= set@.len(),
                all == args_view(set@),
                forall|j: int| 0 <= j < i && Event::typed_key(#[trigger] all[j].key) ==> number_readable(all[j]),
            decreases set@.len() - i,
        {
            assert(all[i as int] == set@[i as int]@);
            if Event::is_typed_key(set[i].key.as_str()) && !crate::setargs::value_readable(&set[i]) {
                assert(Event::typed_key(all[i as int].key) && !number_readable(all[i as int]));
                return false;
            }
            i = i + 1;
        }
        true
    }

    /// Applies one `--set` assignment.
    pub fn apply_set_arg(&mut self, arg: SetArg) -> (r: Result<(), SetError>)
        requires
            Event::typed_key(arg@.key) ==> number_readable(arg@),
        ensures
            match Event::step(old(self)@, arg@) {
                Some(w) => r is Ok && final(self)@ == w,
                None => r matches Err(e) && final(self)@ == old(self)@ && set_error_matches(e, arg@),
            },
    {
        if str_eq(arg.key.as_str(), "display_name") {
            let x = read_text_field(&arg)?;
            self.display_name = x;
            Ok(())
        } else if str_eq(arg.key.as_str(), "date_text") {
            let x = read_text_field(&arg)?;
            self.date_text = x;
            Ok(())
        } else if str_eq(arg.key.as_str(), "sort_key") {
            let x = read_i64_field(&arg)?;
            self.sort_key = x;
            Ok(())
        } else if str_eq(arg.key.as_str(), "status") {
            let t = read_status_text(&arg)?;
            match EventStatus::parse(t.as_str()) {
                Some(st) => {
                    self.status = st;
                    Ok(())
                },
                None => Err(SetError::InvalidStatus { value: arg.value }),
            }
        } else {
            self.metadata.insert(arg.key, MetaValue::Text(arg.value));
            Ok(())
        }
    }

    /// Applies `--set` assignments in order, stopping at the first refused one
    /// (those before it keep their effect).
    pub fn process_set_args(&mut self, set_args: Vec<SetArg>) -> (r: Result<(), SetError>)
        requires
            Event::args_readable(args_view(set_args@)),
        ensures
            final(self)@ == Event::run(old(self)@, args_view(set_args@)).0,
            r is Ok <==> Event::run(old(self)@, args_view(set_args@)).1 is None,
            Event::run(old(self)@, args_view(set_args@)).1 matches Some(i)
                ==> r matches Err(e) && set_error_matches(e, args_view(set_args@)[i]),
    {
        let ghost all = args_view(set_args@);
        let ghost start = self@;
        proof {
            Event::lemma_run_keeps_identity(start, all);
        }
        for arg in it: set_args.into_iter()
            invariant
                all == args_view(it.seq()),
                all == args_view(set_args@),
                start == old(self)@,
                Event::args_readable(all),
                Event::run(start, all.take(it.index())).0 == self@,
                Event::run(start, all.take(it.index())).1 is None,
        {
            let ghost k = it.index();
            assert(all.take(k + 1).drop_last() == all.take(k));
            assert(all[k] == arg@);
            let ghost before = self@;
            match self.apply_set_arg(arg) {
                Ok(()) => {},
                Err(e) => {
                    proof {
                        assert(Event::step(before, all[k]) is None);
                        assert(all.take(k + 1).last() == all[k]);
                        assert(Event::run(start, all.take(k + 1)) == (before, Some(k)));
                        lemma_run_steps_prefix(start, all, k + 1, Event::stepper());
                    }
                    return Err(e);
                },
            }
        }
        assert(all.take(all.len() as int) == all);
        Ok(())
    }

    /// A new record with the given key, created at `created_at`, with the
    /// `--set` assignments applied.
    pub fn create_new_at(name: String, set_args: Vec<SetArg>, created_at: String) -> (r: Result<Event, SetError>)
        requires
            Event::args_readable(args_view(set_args@)),
        ensures
            match r {
                Ok(c) => Event::run(Event::fresh(name@, created_at@), args_view(set_args@)) == (c@, None::<int>)
                    && c.created_at@ == created_at@,
                Err(e) => Event::run(Event::fresh(name@, created_at@), args_view(set_args@)).1 matches Some(i)
                    && set_error_matches(e, args_view(set_args@)[i]),
            },
    {
        proof {
            Event::lemma_run_keeps_identity(Event::fresh(name@, created_at@), args_view(set_args@));
        }
        let mut c = Event {
            id: 0,
            name,
            display_name: String::new(),
            date_text: String::new(),
            sort_key: 0,
            metadata: Metadata::new(),
            created_at,
            status: EventStatus::default_status(),
        };
        c.process_set_args(set_args)?;
        Ok(c)
    }

    /// A new record with the given key, created now, with the `--set` assignments applied.
    pub fn create_new(name: String, set_args: Vec<SetArg>) -> (r: Result<Event, CreateError>)
        requires
            Event::args_readable(args_view(set_args@)),
        ensures
            match r {
                Ok(c) => rfc3339_valid(c.created_at@)
                    && Event::run(Event::fresh(name@, c.created_at@), args_view(set_args@)) == (c@, None::<int>),
                Err(CreateError::Invalid(e)) => exists|t: Seq<char>| #[trigger] Event::run(Event::fresh(name@, t), args_view(set_args@)).1 matches Some(i)
                    && set_error_matches(e, args_view(set_args@)[i]) && rfc3339_valid(t),
                Err(CreateError::Clock) => true,
            },
    {
        match crate::clock::now_rfc3339() {
            Some(now) => match Event::create_new_at(name, set_args, now) {
                Ok(c) => Ok(c),
                Err(e) => Err(CreateError::Invalid(e)),
            },
            None => Err(CreateError::Clock),
        }
    }

    /// The statuses that occur among the events, in order, each with the
    /// number of events in it; `statuses` holds the stored status of every one,
    /// so the counts add up to the number of events.
    pub fn count_by_status(statuses: &Vec<String>) -> (r: Vec<(String, usize)>)
        ensures
            counted_in_order(strings_view(statuses@), counts_view(r@)),
            sum_counts(counts_view(r@)) == statuses@.len(),
    {
        count_in_order(statuses)
    }

    /// The name shown to the user: the display name, or the unique name when it is empty.
    pub fn display_name(&self) -> (r: &str)
        ensures
            r@ == if self.display_name@.len() > 0 { self.display_name@ } else { self.name@ },
    {
        if !self.display_name.as_str().is_empty() {
            self.display_name.as_str()
        } else {
            self.name.as_str()
        }
    }

    /// The key shown in messages: the unique name.
    pub fn display_key(&self) -> (r: String)
        ensures
            r@ == self.name@,
    {
        self.name.clone()
    }

    /// Sets the date of the event: its text and the chronological sort key
    /// that reading the text as a timeline date gave (`None` when the text is
    /// no timeline date, and then nothing changes).
    pub fn update_date(&mut self, date_text: String, date_sort_key: Option<u64>) -> (r: Result<(), DateError>)
        ensures
            match date_sort_key {
                Some(k) => r is Ok && final(self)@ == (EventView { date_text: date_text@, sort_key: k as i64, ..old(self)@ }),
                None => r matches Err(DateError::Unreadable { text }) && text@ == date_text@ && final(self)@ == old(self)@,
            },
    {
        match date_sort_key {
            Some(k) => {
                self.date_text = date_text;
                self.sort_key = k as i64;
                Ok(())
            },
            None => Err(DateError::Unreadable { text: date_text }),
        }
    }
}

impl Event {
    /// An event read back from its stored columns: the creation time must be
    /// an RFC 3339 time, then the status column must name a status.
    pub fn from_columns(id: i32, name: String, display_name: String, date_text: String, sort_key: i64, metadata: Metadata, created_at: String, status: &str) -> (r: Result<Event, RowError>)
        ensures
            match r {
                Ok(c) => rfc3339_valid(created_at@) && c.id == id && c.name@ == name@ && c.display_name@ == display_name@ && c.date_text@ == date_text@ && c.sort_key == sort_key && c.metadata@ == metadata@ && c.created_at@ == created_at@ && Some(c.status) == EventStatus::column_status(status@),
                Err(RowError::CreatedAt { text }) => !rfc3339_valid(created_at@) && text@ == created_at@,
                Err(RowError::Status { text }) => rfc3339_valid(created_at@) && EventStatus::column_status(status@) is None
                    && text@ == status@,
                _ => false,
            },
    {
        if !is_rfc3339(created_at.as_str()) {
            return Err(RowError::CreatedAt { text: created_at });
        }
        match EventStatus::from_column(status) {
            Some(st) => Ok(Event { id, name, display_name, date_text, sort_key, metadata, created_at, status: st }),
            None => Err(RowError::Status { text: crate::text::string_of(status) }),
        }
    }
}

} // verus!
