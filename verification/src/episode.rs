//! Episodes of a story.

use vstd::prelude::*;
use crate::rows::{is_rfc3339, rfc3339_valid, RowError};
use crate::clock::{created_display, shown_time};
use crate::metadata::{Metadata, MetaVal, MetaValue};
use crate::number::i32_literal;
use crate::setargs::{FloatReading, CreateError, args_view, number_readable, read_status_text, run_steps, lemma_run_steps_prefix, lemma_run_steps_failure_in_range, set_error_matches, status_text, SetArg, SetArgView, SetError, i32_field, read_i32_field, read_text_field, text_field};
use crate::status::EpisodeStatus;
use crate::text::str_eq;
use crate::text::{append_chars, append_slice, chars_of, pad3, pad3_chars, signed_decimal, signed_decimal_chars, string_from_chars};
use crate::paths::{join_path, path_join};

verus! {

broadcast use vstd::string::group_string_axioms;

/// An episode: story and number (unique together), title, word count, free metadata, creation time and status.
#[derive(Debug)]
pub struct Episode {
    /// Row id in the database; 0 until stored.
    pub id: i32,
    pub story: String,
    pub number: i32,
    pub title: String,
    pub word_count: i32,
    pub metadata: Metadata,
    /// Creation time, in RFC 3339.
    pub created_at: String,
    pub status: EpisodeStatus,
}

/// The mathematical value of a `Episode`.
pub struct EpisodeView {
    pub id: i32,
    pub story: Seq<char>,
    pub number: i32,
    pub title: Seq<char>,
    pub word_count: i32,
    pub metadata: Map<Seq<char>, MetaVal>,
    pub created_at: Seq<char>,
    pub status: EpisodeStatus,
}

impl View for Episode {
    type V = EpisodeView;

    open spec fn view(&self) -> EpisodeView {
        EpisodeView {
            id: self.id,
            story: self.story@,
            number: self.number,
            title: self.title@,
            word_count: self.word_count,
            metadata: self.metadata@,
            created_at: self.created_at@,
            status: self.status,
        }
    }
}

impl Episode {
    /// Whether `key` names a typed field (rather than the status or metadata).
    pub open spec fn typed_key(key: Seq<char>) -> bool {
        key == "title"@ || key == "word_count"@
    }

    /// The effect of one `--set` assignment; `None` when it is refused.
    pub open spec fn step(v: EpisodeView, a: SetArgView) -> Option<EpisodeView> {
        if a.key == "title"@ {
            match text_field(a) {
                Some(x) => Some(EpisodeView { title: x, ..v }),
                None => None,
            }
        } else         if a.key == "word_count"@ {
            match i32_field(a) {
                Some(x) => Some(EpisodeView { word_count: x, ..v }),
                None => None,
            }
        } else if a.key == "status"@ {
            match status_text(a) {
                Some(t) => match EpisodeStatus::from_label(t) {
                    Some(st) => Some(EpisodeView { status: st, ..v }),
                    None => None,
                },
                None => None,
            }
        } else {
            Some(EpisodeView { metadata: v.metadata.insert(a.key, MetaVal::Text(a.value)), ..v })
        }
    }

    /// `step` as a function value.
    pub open spec fn stepper() -> spec_fn(EpisodeView, SetArgView) -> Option<EpisodeView> {
        |w: EpisodeView, a: SetArgView| Episode::step(w, a)
    }

    /// The state after applying `args` in order, and the position of the first refused one.
    pub open spec fn run(v: EpisodeView, args: Seq<SetArgView>) -> (EpisodeView, Option<int>) {
        run_steps(v, args, Episode::stepper())
    }

    /// Assignments never change the id, the key or the creation time.
    pub proof fn lemma_run_keeps_identity(v: EpisodeView, args: Seq<SetArgView>)
        ensures
            Episode::run(v, args).0.id == v.id,
            Episode::run(v, args).0.story == v.story,
            Episode::run(v, args).0.number == v.number,
            Episode::run(v, args).0.created_at == v.created_at,
            Episode::run(v, args).1 matches Some(i) ==> 0 <= i < args.len(),
        decreases args.len(),
    {
        lemma_run_steps_failure_in_range(v, args, Episode::stepper());
        if args.len() > 0 {
            Episode::lemma_run_keeps_identity(v, args.drop_last());
        }
    }

    /// A `--set title=T` whose value T is not a number sets the title to T
    /// and leaves the metadata, the status and the other fields as they were.
    pub proof fn lemma_set_title(v: EpisodeView, a: SetArgView)
        requires
            a.key == "title"@,
            i32_literal(a.value) is None,
            a.float != FloatReading::Finite,
        ensures
            Episode::step(v, a) matches Some(w) && w.title == a.value && w.metadata == v.metadata && w.status == v.status && w.word_count == v.word_count,
    {
        reveal_strlit("title");
        reveal_strlit("word_count");
        reveal_strlit("status");
        assert(a.key.len() != "word_count"@.len());
        assert(a.key.len() != "status"@.len());
    }

    /// A `--set word_count=N` whose value spells an `i32` N sets the word count to N
    /// and leaves the metadata, the status and the other fields as they were;
    /// any other value is refused.
    pub proof fn lemma_set_word_count(v: EpisodeView, a: SetArgView)
        requires
            a.key == "word_count"@,
        ensures
            match i32_literal(a.value) {
                Some(n) => Episode::step(v, a) matches Some(w) && w.word_count == n && w.metadata == v.metadata
                    && w.status == v.status && w.title == v.title,
                None => Episode::step(v, a) is None,
            },
    {
        reveal_strlit("title");
        reveal_strlit("word_count");
        reveal_strlit("status");
        assert(a.key.len() != "title"@.len());
        assert(a.key.len() != "status"@.len());
    }

    /// A `--set KEY=value` whose key is neither a field nor `status` records
    /// the value as text under KEY in the metadata and changes nothing else.
    pub proof fn lemma_set_metadata(v: EpisodeView, a: SetArgView)
        requires
            !Episode::typed_key(a.key),
            a.key != "status"@,
        ensures
            Episode::step(v, a) matches Some(w) && w.metadata == v.metadata.insert(a.key, MetaVal::Text(a.value))
                && w.status == v.status && w.title == v.title && w.word_count == v.word_count,
    {
    }

    /// Assignments never put a field or the status into the metadata: what
    /// has none of those keys keeps none, whatever the assignments.
    pub proof fn lemma_run_keeps_fields_out_of_metadata(v: EpisodeView, args: Seq<SetArgView>)
        requires
            !v.metadata.contains_key("title"@),
            !v.metadata.contains_key("word_count"@),
            !v.metadata.contains_key("status"@),
        ensures
            !Episode::run(v, args).0.metadata.contains_key("title"@),
            !Episode::run(v, args).0.metadata.contains_key("word_count"@),
            !Episode::run(v, args).0.metadata.contains_key("status"@),
        decreases args.len(),
    {
        if args.len() > 0 {
            Episode::lemma_run_keeps_fields_out_of_metadata(v, args.drop_last());
            reveal_strlit("title");
            reveal_strlit("word_count");
            reveal_strlit("status");
        }
    }

    /// Every assignment to a typed field carries a value that can be read as a number or not.
    pub open spec fn args_readable(args: Seq<SetArgView>) -> bool {
        forall|i: int| 0 <= i < args.len() && Episode::typed_key(#[trigger] args[i].key) ==> number_readable(args[i])
    }

    /// A new record before any assignment.
    pub open spec fn fresh(story: Seq<char>, number: i32, created_at: Seq<char>) -> EpisodeView {
        EpisodeView {
            id: 0,
            story,
            number,
            title: Seq::empty(),
            word_count: 0,
            metadata: Map::empty(),
            created_at,
            status: EpisodeStatus::initial(),
        }
    }

    /// Whether `key` names a typed field.
    pub fn is_typed_key(key: &str) -> (r: bool)
        ensures
            r == Episode::typed_key(key@),
    {
        str_eq(key, "title") || str_eq(key, "word_count")
    }

    /// Whether every assignment to a typed field carries a readable value.
    pub fn assignments_readable(set: &Vec<SetArg>) -> (r: bool)
        ensures
            r == Episode::args_readable(args_view(set@)),
    {
        let ghost all = args_view(set@);
        let mut i: usize = 0;
        while i < set.len()
            invariant
                i <= set@.len(),
                all == args_view(set@),
                forall|j: int| 0 <= j < i && Episode::typed_key(#[trigger] all[j].key) ==> number_readable(all[j]),
            decreases set@.len() - i,
        {
            assert(all[i as int] == set@[i as int]@);
            if Episode::is_typed_key(set[i].key.as_str()) && !crate::setargs::value_readable(&set[i]) {
                assert(Episode::typed_key(all[i as int].key) && !number_readable(all[i as int]));
                return false;
            }
            i = i + 1;
        }
        true
    }

    /// Applies one `--set` assignment.
    pub fn apply_set_arg(&mut self, arg: SetArg) -> (r: Result<(), SetError>)
        requires
            Episode::typed_key(arg@.key) ==> number_readable(arg@),
        ensures
            match Episode::step(old(self)@, arg@) {
                Some(w) => r is Ok && final(self)@ == w,
                None => r matches Err(e) && final(self)@ == old(self)@ && set_error_matches(e, arg@),
            },
    {
        if str_eq(arg.key.as_str(), "title") {
            let x = read_text_field(&arg)?;
            self.title = x;
            Ok(())
        } else if str_eq(arg.key.as_str(), "word_count") {
            let x = read_i32_field(&arg)?;
            self.word_count = x;
            Ok(())
        } else if str_eq(arg.key.as_str(), "status") {
            let t = read_status_text(&arg)?;
            match EpisodeStatus::parse(t.as_str()) {
                Some(st) => {
                    self.status = st;
                    Ok(())
                },
                None => Err(SetError::InvalidStatus { value: arg.value }),
            }
        } else {
            self.metadata.insert(arg.key, MetaValue::Text(arg.value));
            Ok(())
        }
    }

    /// Applies `--set` assignments in order, stopping at the first refused one
    /// (those before it keep their effect).
    pub fn process_set_args(&mut self, set_args: Vec<SetArg>) -> (r: Result<(), SetError>)
        requires
            Episode::args_readable(args_view(set_args@)),
        ensures
            final(self)@ == Episode::run(old(self)@, args_view(set_args@)).0,
            r is Ok <==> Episode::run(old(self)@, args_view(set_args@)).1 is None,
            Episode::run(old(self)@, args_view(set_args@)).1 matches Some(i)
                ==> r matches Err(e) && set_error_matches(e, args_view(set_args@)[i]),
    {
        let ghost all = args_view(set_args@);
        let ghost start = self@;
        proof {
            Episode::lemma_run_keeps_identity(start, all);
        }
        for arg in it: set_args.into_iter()
            invariant
                all == args_view(it.seq()),
                all == args_view(set_args@),
                start == old(self)@,
                Episode::args_readable(all),
                Episode::run(start, all.take(it.index())).0 == self@,
                Episode::run(start, all.take(it.index())).1 is None,
        {
            let ghost k = it.index();
            assert(all.take(k + 1).drop_last() == all.take(k));
            assert(all[k] == arg@);
            let ghost before = self@;
            match self.apply_set_arg(arg) {
                Ok(()) => {},
                Err(e) => {
                    proof {
                        assert(Episode::step(before, all[k]) is None);
                        assert(all.take(k + 1).last() == all[k]);
                        assert(Episode::run(start, all.take(k + 1)) == (before, Some(k)));
                        lemma_run_steps_prefix(start, all, k + 1, Episode::stepper());
                    }
                    return Err(e);
                },
            }
        }
        assert(all.take(all.len() as int) == all);
        Ok(())
    }

    /// A new record with the given key, created at `created_at`, with the
    /// `--set` assignments applied.
    pub fn create_new_at(story: String, number: i32, set_args: Vec<SetArg>, created_at: String) -> (r: Result<Episode, SetError>)
        requires
            Episode::args_readable(args_view(set_args@)),
        ensures
            match r {
                Ok(c) => Episode::run(Episode::fresh(story@, number, created_at@), args_view(set_args@)) == (c@, None::<int>)
                    && c.created_at@ == created_at@,
                Err(e) => Episode::run(Episode::fresh(story@, number, created_at@), args_view(set_args@)).1 matches Some(i)
                    && set_error_matches(e, args_view(set_args@)[i]),
            },
    {
        proof {
            Episode::lemma_run_keeps_identity(Episode::fresh(story@, number, created_at@), args_view(set_args@));
        }
        let mut c = Episode {
            id: 0,
            story,
            number,
            title: String::new(),
            word_count: 0,
            metadata: Metadata::new(),
            created_at,
            status: EpisodeStatus::default_status(),
        };
        c.process_set_args(set_args)?;
        Ok(c)
    }

    /// A new record with the given key, created now, with the `--set` assignments applied.
    pub fn create_new(story: String, number: i32, set_args: Vec<SetArg>) -> (r: Result<Episode, CreateError>)
        requires
            Episode::args_readable(args_view(set_args@)),
        ensures
            match r {
                Ok(c) => rfc3339_valid(c.created_at@)
                    && Episode::run(Episode::fresh(story@, number, c.created_at@), args_view(set_args@)) == (c@, None::<int>),
                Err(CreateError::Invalid(e)) => exists|t: Seq<char>| #[trigger] Episode::run(Episode::fresh(story@, number, t), args_view(set_args@)).1 matches Some(i)
                    && set_error_matches(e, args_view(set_args@)[i]) && rfc3339_valid(t),
                Err(CreateError::Clock) => true,
            },
    {
        match crate::clock::now_rfc3339() {
            Some(now) => match Episode::create_new_at(story, number, set_args, now) {
                Ok(c) => Ok(c),
                Err(e) => Err(CreateError::Invalid(e)),
            },
            None => Err(CreateError::Clock),
        }
    }

    /// The key shown in messages: `story:number`.
    pub open spec fn key_text(v: EpisodeView) -> Seq<char> {
        v.story + seq![':'] + signed_decimal(v.number as int)
    }

    /// The key shown in messages: the story name and the number, joined by `:`.
    pub fn display_key(&self) -> (r: String)
        ensures
            r@ == Episode::key_text(self@),
    {
        let mut v = chars_of(self.story.as_str());
        v.push(':');
        let d = signed_decimal_chars(self.number as i64);
        append_slice(&mut v, d.as_slice());
        string_from_chars(v.as_slice())
    }

    /// The title shown in listings: `NNN. title`, or `NNN. Episode n` when the title is empty.
    pub open spec fn title_text(v: EpisodeView) -> Seq<char> {
        if v.title.len() > 0 {
            pad3(v.number as int) + ". "@ + v.title
        } else {
            pad3(v.number as int) + ". Episode "@ + signed_decimal(v.number as int)
        }
    }

    /// The title shown in listings.
    pub fn display_title(&self) -> (r: String)
        ensures
            r@ == Episode::title_text(self@),
    {
        let mut v = pad3_chars(self.number);
        if !self.title.as_str().is_empty() {
            append_chars(&mut v, ". ");
            append_chars(&mut v, self.title.as_str());
        } else {
            append_chars(&mut v, ". Episode ");
            let d = signed_decimal_chars(self.number as i64);
            append_slice(&mut v, d.as_slice());
        }
        string_from_chars(v.as_slice())
    }

    /// The name of the episode file: the zero-padded number and `.md`.
    pub open spec fn file_name(number: i32) -> Seq<char> {
        pad3(number as int) + ".md"@
    }

    /// The name of the episode file within its story directory.
    pub fn episode_file_name(&self) -> (r: String)
        ensures
            r@ == Episode::file_name(self.number),
    {
        let mut v = pad3_chars(self.number);
        append_chars(&mut v, ".md");
        string_from_chars(v.as_slice())
    }

    /// The path of the episode file within the story directory `story_path`.
    pub fn get_episode_path(&self, story_path: &str) -> (r: String)
        ensures
            r@ == path_join(story_path@, Episode::file_name(self.number)),
    {
        let name = self.episode_file_name();
        join_path(story_path, name.as_str())
    }

    /// The greatest of the numbers, if any.
    pub open spec fn highest(s: Seq<i32>) -> Option<i32>
        decreases s.len(),
    {
        if s.len() == 0 {
            None
        } else {
            match Episode::highest(s.drop_last()) {
                None => Some(s.last()),
                Some(m) => Some(if s.last() > m { s.last() } else { m }),
            }
        }
    }

    /// The number after the highest of `s` (1 when `s` is empty); none when
    /// the highest is the largest `i32`.
    pub open spec fn next_number(s: Seq<i32>) -> Option<i32> {
        match Episode::highest(s) {
            None => Some(1i32),
            Some(m) => if m < i32::MAX { Some((m + 1) as i32) } else { None },
        }
    }

    /// The highest number is one of the numbers, and none is higher.
    pub proof fn lemma_highest(s: Seq<i32>)
        ensures
            match Episode::highest(s) {
                None => s.len() == 0,
                Some(m) => s.contains(m) && forall|i: int| 0 <= i < s.len() ==> #[trigger] s[i] <= m,
            },
        decreases s.len(),
    {
        if s.len() > 0 {
            let t = s.drop_last();
            Episode::lemma_highest(t);
            assert forall|i: int| 0 <= i < t.len() implies #[trigger] s[i] == t[i] by {}
            match Episode::highest(t) {
                None => {
                    assert(s[s.len() - 1] == s.last());
                },
                Some(m) => {
                    let k = choose|k: int| 0 <= k < t.len() && t[k] == m;
                    assert(s[k] == m);
                    assert(s[s.len() - 1] == s.last());
                },
            }
        }
    }

    /// A new episode never takes the number of an existing one: the next
    /// number is higher than every number already used.
    pub proof fn lemma_next_number_is_new(numbers: Seq<i32>)
        ensures
            Episode::next_number(numbers) matches Some(n) ==> forall|i: int| 0 <= i < numbers.len() ==> #[trigger] numbers[i] < n,
    {
        Episode::lemma_highest(numbers);
    }

    /// The number of the next episode of a story whose episodes have the
    /// numbers `numbers`: one more than the highest, 1 for the first one;
    /// `None` when the highest is the largest `i32`.
    pub fn get_next_episode_number(numbers: &Vec<i32>) -> (r: Option<i32>)
        ensures
            r == Episode::next_number(numbers@),
    {
        let mut best: Option<i32> = None;
        let mut i: usize = 0;
        while i < numbers.len()
            invariant
                i <= numbers@.len(),
                best == Episode::highest(numbers@.take(i as int)),
            decreases numbers@.len() - i,
        {
            assert(numbers@.take(i + 1).drop_last() =~= numbers@.take(i as int));
            let x = numbers[i];
            best = match best {
                None => Some(x),
                Some(m) => Some(if x > m { x } else { m }),
            };
            i = i + 1;
        }
        assert(numbers@.take(numbers@.len() as int) =~= numbers@);
        match best {
            None => Some(1),
            Some(m) => if m < i32::MAX { Some(m + 1) } else { None },
        }
    }

    /// A new draft episode of `story_name` numbered `next_number` (the number
    /// after the highest one the story has), created at `created_at`.
    pub fn new_with_next_number_at(story_name: String, next_number: i32, created_at: String) -> (r: Episode)
        ensures
            r@ == Episode::fresh(story_name@, next_number, created_at@),
    {
        Episode {
            id: 0,
            story: story_name,
            number: next_number,
            title: String::new(),
            word_count: 0,
            metadata: Metadata::new(),
            created_at,
            status: EpisodeStatus::Draft,
        }
    }

    /// A new draft episode of `story_name` numbered `next_number`, created
    /// now; `None` when the clock reads before the Unix epoch.
    pub fn new_with_next_number(story_name: String, next_number: i32) -> (r: Option<Episode>)
        ensures
            r matches Some(e) ==> rfc3339_valid(e.created_at@)
                && e@ == Episode::fresh(story_name@, next_number, e.created_at@),
    {
        match crate::clock::now_rfc3339() {
            Some(now) => Some(Episode::new_with_next_number_at(story_name, next_number, now)),
            None => None,
        }
    }

    /// The initial content of an episode file.
    pub open spec fn content_text(v: EpisodeView, story_display: Seq<char>, created_display: Seq<char>) -> Seq<char> {
        "# "@ + (if v.title.len() > 0 { v.title } else { "Untitled Episode"@ })
            + "\n\n**Story:** "@ + story_display
            + "\n**Episode:** "@ + signed_decimal(v.number as int)
            + "\n**Status:** "@ + v.status.label()
            + "\n**Created:** "@ + created_display
            + "\n\n---\n\n[Episode content goes here]\n\n---\n\n**Word Count:** "@ + signed_decimal(v.word_count as int)
            + "\n"@
    }

    /// The content of an episode file opens with a heading: `# ` and the
    /// title of the episode, or `# Untitled Episode` when it has none, on a
    /// line of its own.
    pub proof fn lemma_content_opens_with_title(v: EpisodeView, story_display: Seq<char>, created_display: Seq<char>)
        ensures
            v.title.len() > 0 ==> Episode::content_text(v, story_display, created_display).subrange(0, v.title.len() + 3int)
                == "# "@ + v.title + "\n"@,
            v.title.len() == 0 ==> Episode::content_text(v, story_display, created_display).subrange(0, 19)
                == "# Untitled Episode\n"@,
    {
        reveal_strlit("# ");
        reveal_strlit("\n");
        reveal_strlit("Untitled Episode");
        reveal_strlit("# Untitled Episode\n");
        reveal_strlit("\n\n**Story:** ");
        let c = Episode::content_text(v, story_display, created_display);
        let t = if v.title.len() > 0 { v.title } else { "Untitled Episode"@ };
        let head = "# "@ + t + "\n\n**Story:** "@;
        let rest = story_display
            + "\n**Episode:** "@ + signed_decimal(v.number as int)
            + "\n**Status:** "@ + v.status.label()
            + "\n**Created:** "@ + created_display
            + "\n\n---\n\n[Episode content goes here]\n\n---\n\n**Word Count:** "@ + signed_decimal(v.word_count as int)
            + "\n"@;
        assert(c =~= head + rest);
        let n: int = t.len() + 3int;
        assert(c.subrange(0, n) =~= "# "@ + t + "\n"@);
        if v.title.len() == 0 {
            assert("# "@ + t + "\n"@ =~= "# Untitled Episode\n"@);
        }
    }

    /// The initial content of the episode file, given the display name of
    /// its story; the creation time is shown to the minute.
    pub fn generate_episode_content(&self, story_display: &str) -> (r: String)
        ensures
            r@ == Episode::content_text(self@, story_display@, shown_time(self.created_at@)),
    {
        let shown = created_display(self.created_at.as_str());
        let mut v: Vec<char> = Vec::new();
        append_chars(&mut v, "# ");
        if !self.title.as_str().is_empty() {
            append_chars(&mut v, self.title.as_str());
        } else {
            append_chars(&mut v, "Untitled Episode");
        }
        append_chars(&mut v, "\n\n**Story:** ");
        append_chars(&mut v, story_display);
        append_chars(&mut v, "\n**Episode:** ");
        let n = signed_decimal_chars(self.number as i64);
        append_slice(&mut v, n.as_slice());
        append_chars(&mut v, "\n**Status:** ");
        append_chars(&mut v, self.status.as_str());
        append_chars(&mut v, "\n**Created:** ");
        append_chars(&mut v, shown.as_str());
        append_chars(&mut v, "\n\n---\n\n[Episode content goes here]\n\n---\n\n**Word Count:** ");
        let w = signed_decimal_chars(self.word_count as i64);
        append_slice(&mut v, w.as_slice());
        append_chars(&mut v, "\n");
        string_from_chars(v.as_slice())
    }
}

impl Episode {
    /// An episode read back from its stored columns: the creation time must be
    /// an RFC 3339 time, then the status column must name a status.
    pub fn from_columns(id: i32, story: String, number: i32, title: String, word_count: i32, metadata: Metadata, created_at: String, status: &str) -> (r: Result<Episode, RowError>)
        ensures
            match r {
                Ok(c) => rfc3339_valid(created_at@) && c.id == id && c.story@ == story@ && c.number == number && c.title@ == title@ && c.word_count == word_count && c.metadata@ == metadata@ && c.created_at@ == created_at@ && Some(c.status) == EpisodeStatus::column_status(status@),
                Err(RowError::CreatedAt { text }) => !rfc3339_valid(created_at@) && text@ == created_at@,
                Err(RowError::Status { text }) => rfc3339_valid(created_at@) && EpisodeStatus::column_status(status@) is None
                    && text@ == status@,
                _ => false,
            },
    {
        if !is_rfc3339(created_at.as_str()) {
            return Err(RowError::CreatedAt { text: created_at });
        }
        match EpisodeStatus::from_column(status) {
            Some(st) => Ok(Episode { id, story, number, title, word_count, metadata, created_at, status: st }),
            None => Err(RowError::Status { text: crate::text::string_of(status) }),
        }
    }
}

} // verus!
