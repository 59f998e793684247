//! Characters of a world.

use vstd::prelude::*;
use crate::rows::{is_rfc3339, rfc3339_valid, RowError};
use crate::metadata::{Metadata, MetaVal, MetaValue};
use crate::number::i32_literal;
use crate::setargs::{FloatReading, CreateError, args_view, number_readable, read_status_text, read_text_field, run_steps, lemma_run_steps_prefix, lemma_run_steps_failure_in_range, set_error_matches, status_text, text_field, SetArg, SetArgView, SetError};
use crate::status::CharacterStatus;
use crate::text::str_eq;

verus! {

broadcast use vstd::string::group_string_axioms;

/// A character: unique name, display name, free metadata, creation time and status.
#[derive(Debug)]
pub struct Character {
    /// Row id in the database; 0 until stored.
    pub id: i32,
    pub name: String,
    pub display_name: String,
    pub metadata: Metadata,
    /// Creation time, in RFC 3339.
    pub created_at: String,
    pub status: CharacterStatus,
}

/// The mathematical value of a `Character`.
pub struct CharacterView {
    pub id: i32,
    pub name: Seq<char>,
    pub display_name: Seq<char>,
    pub metadata: Map<Seq<char>, MetaVal>,
    pub created_at: Seq<char>,
    pub status: CharacterStatus,
}

impl View for Character {
    type V = CharacterView;

    open spec fn view(&self) -> CharacterView {
        CharacterView {
            id: self.id,
            name: self.name@,
            display_name: self.display_name@,
            metadata: self.metadata@,
            created_at: self.created_at@,
            status: self.status,
        }
    }
}

impl Character {
    /// Whether `key` names a typed field (rather than the status or metadata).
    pub open spec fn typed_key(key: Seq<char>) -> bool {
        key == "display_name"@
    }

    /// The effect of one `--set` assignment; `None` when it is refused.
    pub open spec fn step(v: CharacterView, a: SetArgView) -> Option<CharacterView> {
        if a.key == "display_name"@ {
            match text_field(a) {
                Some(t) => Some(CharacterView { display_name: t, ..v }),
                None => None,
            }
        } else if a.key == "status"@ {
            match status_text(a) {
                Some(t) => match CharacterStatus::from_label(t) {
                    Some(st) => Some(CharacterView { status: st, ..v }),
                    None => None,
                },
                None => None,
            }
        } else {
            Some(CharacterView { metadata: v.metadata.insert(a.key, MetaVal::Text(a.value)), ..v })
        }
    }

    /// `step` as a function value.
    pub open spec fn stepper() -> spec_fn(CharacterView, SetArgView) -> Option<CharacterView> {
        |w: CharacterView, a: SetArgView| Character::step(w, a)
    }

    /// The state after applying `args` in order, and the position of the first refused one.
    pub open spec fn run(v: CharacterView, args: Seq<SetArgView>) -> (CharacterView, Option<int>) {
        run_steps(v, args, Character::stepper())
    }

    /// Assignments never change the id, the name or the creation time.
    pub proof fn lemma_run_keeps_identity(v: CharacterView, args: Seq<SetArgView>)
        ensures
            Character::run(v, args).0.id == v.id,
            Character::run(v, args).0.name == v.name,
            Character::run(v, args).0.created_at == v.created_at,
            Character::run(v, args).1 matches Some(i) ==> 0 <= i < args.len(),
        decreases args.len(),
    {
        lemma_run_steps_failure_in_range(v, args, Character::stepper());
        if args.len() > 0 {
            Character::lemma_run_keeps_identity(v, args.drop_last());
        }
    }

    /// A `--set display_name=T` whose value T is not a number sets the display name to T
    /// and leaves the metadata, the status and the other fields as they were.
    pub proof fn lemma_set_display_name(v: CharacterView, a: SetArgView)
        requires
            a.key == "display_name"@,
            i32_literal(a.value) is None,
            a.float != FloatReading::Finite,
        ensures
            Character::step(v, a) matches Some(w) && w.display_name == a.value && w.metadata == v.metadata && w.status == v.status,
    {
        reveal_strlit("display_name");
        reveal_strlit("status");
    }

    /// A `--set KEY=value` whose key is neither a field nor `status` records
    /// the value as text under KEY in the metadata and changes nothing else.
    pub proof fn lemma_set_metadata(v: CharacterView, a: SetArgView)
        requires
            !Character::typed_key(a.key),
            a.key != "status"@,
        ensures
            Character::step(v, a) matches Some(w) && w.metadata == v.metadata.insert(a.key, MetaVal::Text(a.value))
                && w.status == v.status && w.display_name == v.display_name,
    {
    }

    /// Assignments never put a field or the status into the metadata: what
    /// has none of those keys keeps none, whatever the assignments.
    pub proof fn lemma_run_keeps_fields_out_of_metadata(v: CharacterView, args: Seq<SetArgView>)
        requires
            !v.metadata.contains_key("display_name"@),
            !v.metadata.contains_key("status"@),
        ensures
            !Character::run(v, args).0.metadata.contains_key("display_name"@),
            !Character::run(v, args).0.metadata.contains_key("status"@),
        decreases args.len(),
    {
        if args.len() > 0 {
            Character::lemma_run_keeps_fields_out_of_metadata(v, args.drop_last());
            reveal_strlit("display_name");
            reveal_strlit("status");
        }
    }

    /// Every assignment to a typed field carries a value that can be read as a number or not.
    pub open spec fn args_readable(args: Seq<SetArgView>) -> bool {
        forall|i: int| 0 <= i < args.len() && Character::typed_key(#[trigger] args[i].key) ==> number_readable(args[i])
    }

    /// A new character before any assignment.
    pub open spec fn fresh(name: Seq<char>, created_at: Seq<char>) -> CharacterView {
        CharacterView {
            id: 0,
            name,
            display_name: Seq::empty(),
            metadata: Map::empty(),
            created_at,
            status: CharacterStatus::initial(),
        }
    }

    /// Whether `key` names a typed field.
    pub fn is_typed_key(key: &str) -> (r: bool)
        ensures
            r == Character::typed_key(key@),
    {
        str_eq(key, "display_name")
    }

    /// Whether every assignment to a typed field carries a readable value.
    pub fn assignments_readable(set: &Vec<SetArg>) -> (r: bool)
        ensures
            r == Character::args_readable(args_view(set@)),
    {
        let ghost all = args_view(set@);
        let mut i: usize = 0;
        while i < set.len()
            invariant
                i <= set@.len(),
                all == args_view(set@),
                forall|j: int| 0 <= j < i && Character::typed_key(#[trigger] all[j].key) ==> number_readable(all[j]),
            decreases set@.len() - i,
        {
            assert(all[i as int] == set@[i as int]@);
            if Character::is_typed_key(set[i].key.as_str()) && !crate::setargs::value_readable(&set[i]) {
                assert(Character::typed_key(all[i as int].key) && !number_readable(all[i as int]));
                return false;
            }
            i = i + 1;
        }
        true
    }

    /// Applies one `--set` assignment.
    pub fn apply_set_arg(&mut self, arg: SetArg) -> (r: Result<(), SetError>)
        requires
            Character::typed_key(arg@.key) ==> number_readable(arg@),
        ensures
            match Character::step(old(self)@, arg@) {
                Some(w) => r is Ok && final(self)@ == w,
                None => r matches Err(e) && final(self)@ == old(self)@ && set_error_matches(e, arg@),
            },
    {
        if str_eq(arg.key.as_str(), "display_name") {
            let t = read_text_field(&arg)?;
            self.display_name = t;
            Ok(())
        } else if str_eq(arg.key.as_str(), "status") {
            let t = read_status_text(&arg)?;
            match CharacterStatus::parse(t.as_str()) {
                Some(st) => {
                    self.status = st;
                    Ok(())
                },
                None => Err(SetError::InvalidStatus { value: arg.value }),
            }
        } else {
            self.metadata.insert(arg.key, MetaValue::Text(arg.value));
            Ok(())
        }
    }

    /// Applies `--set` assignments in order, stopping at the first refused one
    /// (those before it keep their effect).
    pub fn process_set_args(&mut self, set_args: Vec<SetArg>) -> (r: Result<(), SetError>)
        requires
            Character::args_readable(args_view(set_args@)),
        ensures
            final(self)@ == Character::run(old(self)@, args_view(set_args@)).0,
            r is Ok <==> Character::run(old(self)@, args_view(set_args@)).1 is None,
            Character::run(old(self)@, args_view(set_args@)).1 matches Some(i)
                ==> r matches Err(e) && set_error_matches(e, args_view(set_args@)[i]),
    {
        let ghost all = args_view(set_args@);
        let ghost start = self@;
        proof {
            Character::lemma_run_keeps_identity(start, all);
        }
        for arg in it: set_args.into_iter()
            invariant
                all == args_view(it.seq()),
                all == args_view(set_args@),
                start == old(self)@,
                Character::args_readable(all),
                Character::run(start, all.take(it.index())).0 == self@,
                Character::run(start, all.take(it.index())).1 is None,
        {
            let ghost k = it.index();
            assert(all.take(k + 1).drop_last() == all.take(k));
            assert(all[k] == arg@);
            let ghost before = self@;
            match self.apply_set_arg(arg) {
                Ok(()) => {},
                Err(e) => {
                    proof {
                        assert(Character::step(before, all[k]) is None);
                        assert(all.take(k + 1).last() == all[k]);
                        assert(Character::run(start, all.take(k + 1)) == (before, Some(k)));
                        lemma_run_steps_prefix(start, all, k + 1, Character::stepper());
                    }
                    return Err(e);
                },
            }
        }
        assert(all.take(all.len() as int) == all);
        Ok(())
    }

    /// A new character named `name`, created at `created_at`, with the
    /// `--set` assignments applied.
    pub fn create_new_at(name: String, set_args: Vec<SetArg>, created_at: String) -> (r: Result<Character, SetError>)
        requires
            Character::args_readable(args_view(set_args@)),
        ensures
            match r {
                Ok(c) => Character::run(Character::fresh(name@, created_at@), args_view(set_args@)) == (c@, None::<int>)
                    && c.created_at@ == created_at@,
                Err(e) => Character::run(Character::fresh(name@, created_at@), args_view(set_args@)).1 matches Some(i)
                    && set_error_matches(e, args_view(set_args@)[i]),
            },
    {
        proof {
            Character::lemma_run_keeps_identity(Character::fresh(name@, created_at@), args_view(set_args@));
        }
        let mut c = Character {
            id: 0,
            name,
            display_name: String::new(),
            metadata: Metadata::new(),
            created_at,
            status: CharacterStatus::default_status(),
        };
        c.process_set_args(set_args)?;
        Ok(c)
    }

    /// A new character named `name`, created now, with the `--set` assignments applied.
    pub fn create_new(name: String, set_args: Vec<SetArg>) -> (r: Result<Character, CreateError>)
        requires
            Character::args_readable(args_view(set_args@)),
        ensures
            match r {
                Ok(c) => rfc3339_valid(c.created_at@)
                    && Character::run(Character::fresh(name@, c.created_at@), args_view(set_args@)) == (c@, None::<int>),
                Err(CreateError::Invalid(e)) => exists|t: Seq<char>| #[trigger] Character::run(Character::fresh(name@, t), args_view(set_args@)).1 matches Some(i)
                    && set_error_matches(e, args_view(set_args@)[i]) && rfc3339_valid(t),
                Err(CreateError::Clock) => true,
            },
    {
        match crate::clock::now_rfc3339() {
            Some(now) => match Character::create_new_at(name, set_args, now) {
                Ok(c) => Ok(c),
                Err(e) => Err(CreateError::Invalid(e)),
            },
            None => Err(CreateError::Clock),
        }
    }

    /// The name shown to the user: the display name, or the unique name when it is empty.
    pub fn display_name(&self) -> (r: &str)
        ensures
            r@ == if self.display_name@.len() > 0 { self.display_name@ } else { self.name@ },
    {
        if !self.display_name.as_str().is_empty() {
            self.display_name.as_str()
        } else {
            self.name.as_str()
        }
    }

    /// The key shown in messages: the unique name.
    pub fn display_key(&self) -> (r: String)
        ensures
            r@ == self.name@,
    {
        self.name.clone()
    }

    /// The database id of the character named `name`, as text, given the id
    /// that the lookup of that name found.
    pub fn resolve_id(name: &str, found: Option<i32>) -> (r: Result<String, crate::lookup::LookupError>)
        ensures
            match found {
                Some(id) => r matches Ok(s) && s@ == crate::text::signed_decimal(id as int),
                None => r matches Err(crate::lookup::LookupError::NotFound { kind, name: n })
                    && kind@ == "Character"@ && n@ == name@,
            },
    {
        crate::lookup::id_text(name, "Character", found)
    }
}

impl Character {
    /// A character read back from its stored columns: the creation time must be
    /// an RFC 3339 time, then the status column must name a status.
    pub fn from_columns(id: i32, name: String, display_name: String, metadata: Metadata, created_at: String, status: &str) -> (r: Result<Character, RowError>)
        ensures
            match r {
                Ok(c) => rfc3339_valid(created_at@) && c.id == id && c.name@ == name@ && c.display_name@ == display_name@ && c.metadata@ == metadata@ && c.created_at@ == created_at@ && Some(c.status) == CharacterStatus::column_status(status@),
                Err(RowError::CreatedAt { text }) => !rfc3339_valid(created_at@) && text@ == created_at@,
                Err(RowError::Status { text }) => rfc3339_valid(created_at@) && CharacterStatus::column_status(status@) is None
                    && text@ == status@,
                _ => false,
            },
    {
        if !is_rfc3339(created_at.as_str()) {
            return Err(RowError::CreatedAt { text: created_at });
        }
        match CharacterStatus::from_column(status) {
            Some(st) => Ok(Character { id, name, display_name, metadata, created_at, status: st }),
            None => Err(RowError::Status { text: crate::text::string_of(status) }),
        }
    }
}

} // verus!
