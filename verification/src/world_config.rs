//! The configuration of a world (`.multiverse/config.toml`): its identity,
//! its story types with their metadata rules, and its git and export settings.

use vstd::prelude::*;
use crate::metadata::{with_texts, Metadata, MetaVal, MetaValue};
use crate::text::{append_chars, chars_of, str_eq, string_from_chars, string_of};

verus! {

broadcast use vstd::string::group_string_axioms;

/// The views of a list of strings.
pub open spec fn strings_view(s: Seq<String>) -> Seq<Seq<char>> {
    s.map_values(|x: String| x@)
}

/// Whether `x` is one of the strings of `v`.
pub fn contains_string(v: &Vec<String>, x: &str) -> (r: bool)
    ensures
        r == strings_view(v@).contains(x@),
{
    let mut i: usize = 0;
    while i < v.len()
        invariant
            i <= v@.len(),
            forall|j: int| 0 <= j < i ==> v@[j]@ != x@,
        decreases v@.len() - i,
    {
        if str_eq(v[i].as_str(), x) {
            assert(strings_view(v@)[i as int] == x@);
            return true;
        }
        i = i + 1;
    }
    proof {
        if strings_view(v@).contains(x@) {
            let j = choose|j: int| 0 <= j < strings_view(v@).len() && strings_view(v@)[j] == x@;
            assert(v@[j]@ == x@);
        }
    }
    false
}

/// A copy of a list of strings.
pub fn copy_strings(v: &Vec<String>) -> (r: Vec<String>)
    ensures
        strings_view(r@) == strings_view(v@),
{
    let mut r: Vec<String> = Vec::new();
    let mut i: usize = 0;
    while i < v.len()
        invariant
            i <= v@.len(),
            strings_view(r@) == strings_view(v@).take(i as int),
            r@.len() == i,
        decreases v@.len() - i,
    {
        let ghost before = r@;
        let x = v[i].clone();
        r.push(x);
        assert(r@ == before.push(v@[i as int]));
        assert(x == v@[i as int]);
        assert forall|j: int| 0 <= j <= i implies #[trigger] strings_view(r@)[j] == strings_view(v@)[j] by {
            assert(strings_view(r@)[j] == r@[j]@);
            assert(strings_view(v@)[j] == v@[j]@);
            if j < i {
                assert(strings_view(before)[j] == strings_view(v@).take(i as int)[j]);
                assert(strings_view(before)[j] == before[j]@);
                assert(r@[j] == before[j]);
            }
        }
        i = i + 1;
        assert(strings_view(r@) =~= strings_view(v@).take(i as int));
    }
    assert(strings_view(v@).take(v@.len() as int) == strings_view(v@));
    r
}

/// The look of a world.
#[derive(Debug)]
pub struct VisualIdentity {
    /// Aesthetic: "fantasy", "moderna", "storica", "cyberpunk", ...
    pub estetica: String,
    /// Free description of the look.
    pub descrizione: String,
}

impl VisualIdentity {
    /// The default look: modern, clean and minimal.
    pub fn default_identity() -> (r: VisualIdentity)
        ensures
            r.estetica@ == "moderna"@,
            r.descrizione@ == "Interfaccia pulita e minimalista"@,
    {
        VisualIdentity {
            estetica: string_of("moderna"),
            descrizione: string_of("Interfaccia pulita e minimalista"),
        }
    }

    /// A custom aesthetic, as `world init --aesthetic` sets it.
    pub fn custom(aesthetic: String) -> (r: VisualIdentity)
        ensures
            r.estetica@ == aesthetic@,
            r.descrizione@ == "Custom aesthetic"@,
    {
        VisualIdentity { estetica: aesthetic, descrizione: string_of("Custom aesthetic") }
    }
}

/// The rules of one story type: which metadata fields a story of that type
/// must or may have, and the values it starts with.
#[derive(Debug)]
pub struct StoryTypeConfig {
    pub display_name: String,
    pub required_fields: Vec<String>,
    pub optional_fields: Vec<String>,
    pub defaults: Metadata,
    pub numbering_format: String,
}

/// Why story metadata was refused.
#[derive(Debug)]
pub enum StoryTypeError {
    /// The field is neither required nor optional; the valid fields are listed, required first.
    InvalidField { field: String, valid_fields: Vec<String> },
    /// These required fields have no value.
    MissingRequiredFields { fields: Vec<String> },
}

/// The texts of `s` separated by a comma and a space.
pub open spec fn comma_joined(s: Seq<Seq<char>>) -> Seq<char>
    decreases s.len(),
{
    if s.len() == 0 {
        Seq::empty()
    } else if s.len() == 1 {
        s[0]
    } else {
        comma_joined(s.drop_last()) + ", "@ + s.last()
    }
}

/// The texts of `v` separated by a comma and a space.
pub fn join_comma(v: &Vec<String>) -> (r: Vec<char>)
    ensures
        r@ == comma_joined(strings_view(v@)),
{
    let ghost s = strings_view(v@);
    let mut out: Vec<char> = Vec::new();
    let mut i: usize = 0;
    while i < v.len()
        invariant
            i <= v@.len(),
            s == strings_view(v@),
            out@ == comma_joined(s.take(i as int)),
        decreases v@.len() - i,
    {
        assert(s.take(i + 1).drop_last() =~= s.take(i as int));
        assert(s.take(i + 1).last() == v@[i as int]@);
        if i > 0 {
            append_chars(&mut out, ", ");
        }
        append_chars(&mut out, v[i].as_str());
        i = i + 1;
    }
    assert(s.take(v@.len() as int) =~= s);
    out
}

impl StoryTypeError {
    /// The message shown for the error.
    pub open spec fn message_text(self) -> Seq<char> {
        match self {
            StoryTypeError::InvalidField { field, valid_fields } => "Field '"@ + field@
                + "' is not valid for this story type. Valid fields: "@ + comma_joined(strings_view(valid_fields@)),
            StoryTypeError::MissingRequiredFields { fields } => "Missing required fields: "@
                + comma_joined(strings_view(fields@)),
        }
    }

    /// The message shown for the error: the refused field and the valid
    /// ones, or the missing required fields, each list separated by commas.
    pub fn message(&self) -> (r: String)
        ensures
            r@ == self.message_text(),
    {
        match self {
            StoryTypeError::InvalidField { field, valid_fields } => {
                let mut v = chars_of("Field '");
                append_chars(&mut v, field.as_str());
                append_chars(&mut v, "' is not valid for this story type. Valid fields: ");
                let list = join_comma(valid_fields);
                let ghost before = v@;
                v.extend_from_slice(list.as_slice());
                assert(v@ == before + list@);
                string_from_chars(v.as_slice())
            },
            StoryTypeError::MissingRequiredFields { fields } => {
                let mut v = chars_of("Missing required fields: ");
                let list = join_comma(fields);
                let ghost before = v@;
                v.extend_from_slice(list.as_slice());
                assert(v@ == before + list@);
                string_from_chars(v.as_slice())
            },
        }
    }
}

/// The fields of `required` that `m` gives no value, in order.
pub open spec fn missing_from(required: Seq<Seq<char>>, m: Map<Seq<char>, MetaVal>) -> Seq<Seq<char>>
    decreases required.len(),
{
    if required.len() == 0 {
        Seq::empty()
    } else {
        let rest = missing_from(required.drop_last(), m);
        if m.contains_key(required.last()) {
            rest
        } else {
            rest.push(required.last())
        }
    }
}

/// The first argument whose key is not a valid field, if any.
pub open spec fn first_invalid(args: Seq<(Seq<char>, Seq<char>)>, valid: spec_fn(Seq<char>) -> bool) -> Option<int>
    decreases args.len(),
{
    if args.len() == 0 {
        None
    } else {
        match first_invalid(args.drop_last(), valid) {
            Some(i) => Some(i),
            None => if valid(args.last().0) { None } else { Some(args.len() - 1) },
        }
    }
}

impl StoryTypeConfig {
    /// Whether `field` is a required or optional field of this type.
    pub open spec fn allows(self, field: Seq<char>) -> bool {
        strings_view(self.required_fields@).contains(field) || strings_view(self.optional_fields@).contains(field)
    }

    /// The outcome of building metadata from `args`: the metadata, or the
    /// refused field, or the missing required fields.
    pub open spec fn built(self, args: Seq<(Seq<char>, Seq<char>)>) -> Result<Map<Seq<char>, MetaVal>, Result<Seq<char>, Seq<Seq<char>>>> {
        match first_invalid(args, |f: Seq<char>| self.allows(f)) {
            Some(i) => Err(Ok(args[i].0)),
            None => {
                let m = with_texts(self.defaults@, args);
                let missing = missing_from(strings_view(self.required_fields@), m);
                if missing.len() > 0 {
                    Err(Err(missing))
                } else {
                    Ok(m)
                }
            },
        }
    }

    /// Refuses a field that is neither required nor optional for this type.
    pub fn validate_field(&self, field_name: &str) -> (r: Result<(), StoryTypeError>)
        ensures
            match r {
                Ok(()) => self.allows(field_name@),
                Err(StoryTypeError::InvalidField { field, valid_fields }) => !self.allows(field_name@)
                    && field@ == field_name@
                    && strings_view(valid_fields@) == strings_view(self.required_fields@) + strings_view(self.optional_fields@),
                Err(_) => false,
            },
    {
        if contains_string(&self.required_fields, field_name) || contains_string(&self.optional_fields, field_name) {
            Ok(())
        } else {
            let mut valid = copy_strings(&self.required_fields);
            assert(valid@.len() == strings_view(valid@).len());
            let mut i: usize = 0;
            let ghost req = strings_view(self.required_fields@);
            let ghost opt = strings_view(self.optional_fields@);
            while i < self.optional_fields.len()
                invariant
                    i <= self.optional_fields@.len(),
                    opt == strings_view(self.optional_fields@),
                    strings_view(valid@) == req + opt.take(i as int),
                    valid@.len() == req.len() + i,
                    req == strings_view(self.required_fields@),
                decreases self.optional_fields@.len() - i,
            {
                let ghost before = valid@;
                let x = self.optional_fields[i].clone();
                valid.push(x);
                assert(valid@ == before.push(self.optional_fields@[i as int]));
                assert forall|j: int| 0 <= j < valid@.len() implies #[trigger] strings_view(valid@)[j] == (req + opt.take(i + 1))[j] by {
                    if j < before.len() {
                        assert(strings_view(before)[j] == (req + opt.take(i as int))[j]);
                    }
                }
                i = i + 1;
                assert(strings_view(valid@) =~= req + opt.take(i as int));
            }
            assert(opt.take(opt.len() as int) == opt);
            Err(StoryTypeError::InvalidField { field: string_of(field_name), valid_fields: valid })
        }
    }

    /// The required fields to which `metadata` gives no value, in order.
    pub fn missing_required_fields(&self, metadata: &Metadata) -> (r: Vec<String>)
        ensures
            strings_view(r@) == missing_from(strings_view(self.required_fields@), metadata@),
    {
        let ghost req = strings_view(self.required_fields@);
        let mut r: Vec<String> = Vec::new();
        let mut i: usize = 0;
        while i < self.required_fields.len()
            invariant
                i <= self.required_fields@.len(),
                req == strings_view(self.required_fields@),
                strings_view(r@) == missing_from(req.take(i as int), metadata@),
            decreases self.required_fields@.len() - i,
        {
            assert(req.take(i + 1).drop_last() == req.take(i as int));
            if !metadata.contains_key(self.required_fields[i].as_str()) {
                r.push(self.required_fields[i].clone());
            }
            i = i + 1;
            assert(strings_view(r@) == missing_from(req.take(i as int), metadata@));
        }
        assert(req.take(req.len() as int) == req);
        r
    }

    /// Builds the metadata of a new story of this type: the defaults, then the
    /// `--set` values in order (each must be a field of the type); every
    /// required field must end up with a value.
    pub fn build_metadata(&self, set_args: Vec<(String, String)>) -> (r: Result<Metadata, StoryTypeError>)
        ensures
            match r {
                Ok(m) => self.built(crate::keyval::pairs_view(set_args@)) == Ok::<_, Result<Seq<char>, Seq<Seq<char>>>>(m@),
                Err(StoryTypeError::InvalidField { field, .. }) =>
                    self.built(crate::keyval::pairs_view(set_args@)) == Err::<Map<Seq<char>, MetaVal>, _>(Ok::<Seq<char>, Seq<Seq<char>>>(field@)),
                Err(StoryTypeError::MissingRequiredFields { fields }) =>
                    self.built(crate::keyval::pairs_view(set_args@)) == Err::<Map<Seq<char>, MetaVal>, _>(Err::<Seq<char>, _>(strings_view(fields@))),
            },
    {
        let ghost args = crate::keyval::pairs_view(set_args@);
        let ghost valid = |f: Seq<char>| self.allows(f);
        let mut metadata = self.defaults.duplicate();
        for arg in it: set_args.into_iter()
            invariant
                args == crate::keyval::pairs_view(it.seq()),
                args == crate::keyval::pairs_view(set_args@),
                valid == (|f: Seq<char>| self.allows(f)),
                first_invalid(args.take(it.index()), valid) is None,
                metadata@ == with_texts(self.defaults@, args.take(it.index())),
        {
            let ghost k = it.index();
            assert(args.take(k + 1).drop_last() == args.take(k));
            assert(args[k] == (arg.0@, arg.1@));
            let (key, value) = arg;
            match self.validate_field(key.as_str()) {
                Ok(()) => {},
                Err(e) => {
                    proof {
                        assert(first_invalid(args.take(k + 1), valid) == Some(k));
                        lemma_first_invalid_prefix(args, k + 1, valid);
                    }
                    return Err(e);
                },
            }
            metadata.insert(key, MetaValue::Text(value));
        }
        assert(args.take(args.len() as int) == args);
        let missing = self.missing_required_fields(&metadata);
        if missing.len() > 0 {
            Err(StoryTypeError::MissingRequiredFields { fields: missing })
        } else {
            Ok(metadata)
        }
    }
}

/// The settings shared by all stories of a world.
#[derive(Debug)]
pub struct GlobalConfig {
    /// Numbering style of episodes: "001", "1", "I".
    pub formato_numerazione: String,
    /// Story type used when none is given.
    pub template_default: String,
    /// The story types, by name; each name at most once.
    pub story_types: Vec<(String, StoryTypeConfig)>,
}

/// Why a story type was not found.
#[derive(Debug)]
pub enum WorldConfigError {
    /// No story type has this name.
    UnknownStoryType { name: String },
}

/// The story type named `name` in `types`: the first one with that name.
pub open spec fn story_type_index(types: Seq<(String, StoryTypeConfig)>, name: Seq<char>) -> Option<int> {
    if exists|i: int| 0 <= i < types.len() && types[i].0@ == name {
        Some(choose|i: int| 0 <= i < types.len() && types[i].0@ == name && forall|j: int| 0 <= j < i ==> types[j].0@ != name)
    } else {
        None
    }
}

/// The names of a list of story types.
pub open spec fn type_names(types: Seq<(String, StoryTypeConfig)>) -> Seq<Seq<char>> {
    types.map_values(|e: (String, StoryTypeConfig)| e.0@)
}

impl StoryTypeConfig {
    /// The built-in "diary" type: a personal diary with a narrator.
    pub open spec fn is_diary(self) -> bool {
        &&& self.display_name@ == "Personal Diary"@
        &&& strings_view(self.required_fields@) == seq!["narrator"@]
        &&& strings_view(self.optional_fields@) == seq!["signature"@, "perspective"@]
        &&& self.defaults@ == Map::<Seq<char>, MetaVal>::empty().insert("signature"@, MetaVal::Text("F.M."@))
        &&& self.numbering_format@ == "001"@
    }

    /// The built-in "book" type: a novel with an author.
    pub open spec fn is_book(self) -> bool {
        &&& self.display_name@ == "Book/Novel"@
        &&& strings_view(self.required_fields@) == seq!["author"@]
        &&& strings_view(self.optional_fields@) == seq!["genre"@, "series_name"@, "volume"@]
        &&& self.defaults@ == Map::<Seq<char>, MetaVal>::empty()
        &&& self.numbering_format@ == "Chapter %d"@
    }
}

fn strings_of(items: &[&str]) -> (r: Vec<String>)
    ensures
        r@.len() == items@.len(),
        forall|i: int| 0 <= i < items@.len() ==> #[trigger] r@[i]@ == items@[i]@,
{
    let mut r: Vec<String> = Vec::new();
    let mut i: usize = 0;
    while i < items.len()
        invariant
            i <= items@.len(),
            r@.len() == i,
            forall|j: int| 0 <= j < i ==> #[trigger] r@[j]@ == items@[j]@,
        decreases items@.len() - i,
    {
        r.push(string_of(items[i]));
        i = i + 1;
    }
    r
}

impl GlobalConfig {
    /// The default settings: numbering "001", default type "diary", and the
    /// built-in types "diary" and "book".
    pub fn default_config() -> (r: GlobalConfig)
        ensures
            r.formato_numerazione@ == "001"@,
            r.template_default@ == "diary"@,
            r.story_types@.len() == 2,
            r.story_types@[0].0@ == "diary"@,
            r.story_types@[0].1.is_diary(),
            r.story_types@[1].0@ == "book"@,
            r.story_types@[1].1.is_book(),
    {
        let mut diary_defaults = Metadata::new();
        diary_defaults.insert(string_of("signature"), MetaValue::Text(string_of("F.M.")));
        let diary_required = strings_of(&["narrator"]);
        let diary_optional = strings_of(&["signature", "perspective"]);
        let diary = StoryTypeConfig {
            display_name: string_of("Personal Diary"),
            required_fields: diary_required,
            optional_fields: diary_optional,
            defaults: diary_defaults,
            numbering_format: string_of("001"),
        };
        let book_required = strings_of(&["author"]);
        let book_optional = strings_of(&["genre", "series_name", "volume"]);
        let book = StoryTypeConfig {
            display_name: string_of("Book/Novel"),
            required_fields: book_required,
            optional_fields: book_optional,
            defaults: Metadata::new(),
            numbering_format: string_of("Chapter %d"),
        };
        assert(strings_view(diary.required_fields@) =~= seq!["narrator"@]);
        assert(strings_view(diary.optional_fields@) =~= seq!["signature"@, "perspective"@]);
        assert(strings_view(book.required_fields@) =~= seq!["author"@]);
        assert(strings_view(book.optional_fields@) =~= seq!["genre"@, "series_name"@, "volume"@]);
        let mut types: Vec<(String, StoryTypeConfig)> = Vec::new();
        types.push((string_of("diary"), diary));
        types.push((string_of("book"), book));
        GlobalConfig {
            formato_numerazione: string_of("001"),
            template_default: string_of("diary"),
            story_types: types,
        }
    }

    /// The rules of the story type named `story_type`.
    pub fn get_story_type(&self, story_type: &str) -> (r: Result<&StoryTypeConfig, WorldConfigError>)
        ensures
            match story_type_index(self.story_types@, story_type@) {
                Some(i) => r matches Ok(c) && c == &self.story_types@[i].1,
                None => r matches Err(WorldConfigError::UnknownStoryType { name }) && name@ == story_type@,
            },
    {
        let mut i: usize = 0;
        while i < self.story_types.len()
            invariant
                i <= self.story_types@.len(),
                forall|j: int| 0 <= j < i ==> self.story_types@[j].0@ != story_type@,
            decreases self.story_types@.len() - i,
        {
            if str_eq(self.story_types[i].0.as_str(), story_type) {
                proof {
                    let k = story_type_index(self.story_types@, story_type@)->Some_0;
                    assert(k == i) by {
                        if k < i {
                        } else if k > i {
                        }
                    }
                }
                return Ok(&self.story_types[i].1);
            }
            i = i + 1;
        }
        Err(WorldConfigError::UnknownStoryType { name: string_of(story_type) })
    }

    /// The names of the story types, in order.
    pub fn list_story_types(&self) -> (r: Vec<String>)
        ensures
            strings_view(r@) == type_names(self.story_types@),
    {
        let mut r: Vec<String> = Vec::new();
        let mut i: usize = 0;
        while i < self.story_types.len()
            invariant
                i <= self.story_types@.len(),
                r@.len() == i,
                forall|j: int| 0 <= j < i ==> #[trigger] r@[j]@ == self.story_types@[j].0@,
            decreases self.story_types@.len() - i,
        {
            r.push(self.story_types[i].0.clone());
            i = i + 1;
        }
        assert(strings_view(r@) =~= type_names(self.story_types@));
        r
    }
}

/// The identity of a world: its name, description, look and shared settings.
#[derive(Debug)]
pub struct WorldMeta {
    pub name: String,
    pub description: Option<String>,
    pub visual_identity: VisualIdentity,
    pub global_config: GlobalConfig,
}

impl WorldMeta {
    /// A world named `name` with the default look and settings.
    pub fn new(name: String, description: Option<String>) -> (r: WorldMeta)
        ensures
            r.name@ == name@,
            r.description == description,
            r.visual_identity.estetica@ == "moderna"@,
            r.visual_identity.descrizione@ == "Interfaccia pulita e minimalista"@,
            r.global_config.formato_numerazione@ == "001"@,
            r.global_config.template_default@ == "diary"@,
            type_names(r.global_config.story_types@) == seq!["diary"@, "book"@],
    {
        let g = GlobalConfig::default_config();
        assert(type_names(g.story_types@) =~= seq!["diary"@, "book"@]);
        WorldMeta {
            name,
            description,
            visual_identity: VisualIdentity::default_identity(),
            global_config: g,
        }
    }
}

/// Git settings of a world.
#[derive(Debug)]
pub struct GitConfig {
    pub auto_commit: Option<bool>,
    pub commit_template: Option<String>,
}

/// Export settings of a world.
#[derive(Debug)]
pub struct ExportConfig {
    pub default_format: Option<String>,
    pub output_dir: Option<String>,
}

/// The whole configuration of a world.
#[derive(Debug)]
pub struct WorldConfig {
    pub world: WorldMeta,
    pub git: GitConfig,
    pub export: ExportConfig,
}

impl WorldConfig {
    /// The configuration of a new world named `name`: default look and
    /// settings, no git or export preference.
    pub fn new(name: String, description: Option<String>) -> (r: WorldConfig)
        ensures
            r.world.name@ == name@,
            r.world.description == description,
            r.world.visual_identity.estetica@ == "moderna"@,
            type_names(r.world.global_config.story_types@) == seq!["diary"@, "book"@],
            r.git.auto_commit is None,
            r.git.commit_template is None,
            r.export.default_format is None,
            r.export.output_dir is None,
    {
        WorldConfig {
            world: WorldMeta::new(name, description),
            git: GitConfig { auto_commit: None, commit_template: None },
            export: ExportConfig { default_format: None, output_dir: None },
        }
    }

    /// The rules of the story type named `story_type`.
    pub fn get_story_type(&self, story_type: &str) -> (r: Result<&StoryTypeConfig, WorldConfigError>)
        ensures
            match story_type_index(self.world.global_config.story_types@, story_type@) {
                Some(i) => r matches Ok(c) && c == &self.world.global_config.story_types@[i].1,
                None => r matches Err(WorldConfigError::UnknownStoryType { name }) && name@ == story_type@,
            },
    {
        self.world.global_config.get_story_type(story_type)
    }

    /// The names of the story types, in order.
    pub fn list_story_types(&self) -> (r: Vec<String>)
        ensures
            strings_view(r@) == type_names(self.world.global_config.story_types@),
    {
        self.world.global_config.list_story_types()
    }

    /// The database file of the world, inside its `.multiverse` directory.
    pub fn get_database_path(multiverse_dir: &str) -> (r: String)
        ensures
            r@ == crate::paths::path_join(multiverse_dir@, "world.db"@),
    {
        crate::paths::join_path(multiverse_dir, "world.db")
    }

    /// The configuration file of the world, inside its `.multiverse` directory.
    pub fn get_config_path(multiverse_dir: &str) -> (r: String)
        ensures
            r@ == crate::paths::path_join(multiverse_dir@, "config.toml"@),
    {
        crate::paths::join_path(multiverse_dir, "config.toml")
    }
}

/// Once an argument is refused, later arguments do not change which one is reported.
pub proof fn lemma_first_invalid_prefix(args: Seq<(Seq<char>, Seq<char>)>, n: int, valid: spec_fn(Seq<char>) -> bool)
    requires
        0 <= n <= args.len(),
        first_invalid(args.take(n), valid) is Some,
    ensures
        first_invalid(args, valid) == first_invalid(args.take(n), valid),
    decreases args.len() - n,
{
    if n < args.len() {
        assert(args.take(n + 1).drop_last() == args.take(n));
        lemma_first_invalid_prefix(args, n + 1, valid);
    } else {
        assert(args.take(n) == args);
    }
}

/// When metadata is built, every required field has a value.
pub proof fn lemma_built_has_required(t: StoryTypeConfig, args: Seq<(Seq<char>, Seq<char>)>, f: Seq<char>)
    requires
        t.built(args) is Ok,
        strings_view(t.required_fields@).contains(f),
    ensures
        t.built(args)->Ok_0.contains_key(f),
{
    let m = with_texts(t.defaults@, args);
    lemma_missing_from(strings_view(t.required_fields@), m, f);
}

/// A required field is reported missing exactly when the metadata has no value for it.
pub proof fn lemma_missing_from(required: Seq<Seq<char>>, m: Map<Seq<char>, MetaVal>, f: Seq<char>)
    requires
        required.contains(f),
    ensures
        missing_from(required, m).contains(f) <==> !m.contains_key(f),
    decreases required.len(),
{
    let rest = missing_from(required.drop_last(), m);
    if required.last() == f {
        if !m.contains_key(f) {
            assert(missing_from(required, m).last() == f);
        } else {
            if required.drop_last().contains(f) {
                lemma_missing_from(required.drop_last(), m, f);
            } else {
                lemma_missing_excludes(required.drop_last(), m, f);
            }
        }
    } else {
        let j = choose|j: int| 0 <= j < required.len() && required[j] == f;
        assert(required.drop_last()[j] == f);
        lemma_missing_from(required.drop_last(), m, f);
        if missing_from(required, m).contains(f) && !rest.contains(f) {
            let i = choose|i: int| 0 <= i < missing_from(required, m).len() && missing_from(required, m)[i] == f;
            assert(i == rest.len());
        }
        if rest.contains(f) {
            let i = choose|i: int| 0 <= i < rest.len() && rest[i] == f;
            if !m.contains_key(required.last()) {
                assert(missing_from(required, m)[i] == f);
            }
        }
    }
}

/// Fields that are not among `required` are never reported missing.
pub proof fn lemma_missing_excludes(required: Seq<Seq<char>>, m: Map<Seq<char>, MetaVal>, f: Seq<char>)
    requires
        !required.contains(f),
    ensures
        !missing_from(required, m).contains(f),
    decreases required.len(),
{
    if required.len() > 0 {
        assert(!required.drop_last().contains(f)) by {
            if required.drop_last().contains(f) {
                let j = choose|j: int| 0 <= j < required.drop_last().len() && required.drop_last()[j] == f;
                assert(required[j] == f);
            }
        }
        lemma_missing_excludes(required.drop_last(), m, f);
        if missing_from(required, m).contains(f) {
            let rest = missing_from(required.drop_last(), m);
            let i = choose|i: int| 0 <= i < missing_from(required, m).len() && missing_from(required, m)[i] == f;
            if i < rest.len() {
                assert(rest[i] == f);
            } else {
                assert(required[required.len() - 1] == f);
            }
        }
    }
}

} // verus!
