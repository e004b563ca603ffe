//! The registry of active parsers, kept by name.

use vstd::prelude::*;
use crate::custom_parsers::{Parser, RegisteredModel, RegisteredParser};
use crate::errors::DuplicateNameError;
use crate::models::texts_of;
use crate::structs::ParserConfig;
use crate::text::same_text;

verus! {

/// Registered parsers with their names, in the order of registration.
pub type Registrations = Seq<(Seq<char>, RegisteredModel)>;

/// Whether some parser is registered under `name`.
pub open spec fn has_name(entries: Registrations, name: Seq<char>) -> bool {
    exists|i: int| 0 <= i < entries.len() && (#[trigger] entries[i]).0 == name
}

/// Whether no name is taken twice.
pub open spec fn names_unique(entries: Registrations) -> bool {
    forall|i: int, j: int|
        0 <= i < j < entries.len() ==> (#[trigger] entries[i]).0 != (#[trigger] entries[j]).0
}

/// The parser registered under `name`, if there is one: the first in the order
/// of registration, which is the only one where names are unique.
pub open spec fn lookup(entries: Registrations, name: Seq<char>) -> Option<RegisteredModel>
    decreases entries.len(),
{
    if entries.len() == 0 {
        None
    } else if entries[0].0 == name {
        Some(entries[0].1)
    } else {
        lookup(entries.drop_first(), name)
    }
}

/// What registering does: a taken name is refused and nothing changes, a free
/// name is added at the end.
pub open spec fn registered(entries: Registrations, name: Seq<char>, parser: RegisteredModel) -> Option<
    Registrations,
> {
    if has_name(entries, name) {
        None
    } else {
        Some(entries.push((name, parser)))
    }
}

/// Whether a registered parser claims `format`.
pub open spec fn supports(entry: (Seq<char>, RegisteredModel), format: Seq<char>) -> bool {
    entry.1.descriptor.supported_formats.contains(format)
}

/// The names of the parsers that claim `format`, in the order of registration.
pub open spec fn supporting(entries: Registrations, format: Seq<char>) -> Seq<Seq<char>> {
    entries.filter(|entry: (Seq<char>, RegisteredModel)| supports(entry, format)).map_values(
        |entry: (Seq<char>, RegisteredModel)| entry.0,
    )
}

/// The descriptions of the registered parsers, in the order of registration.
pub open spec fn descriptions(entries: Registrations) -> Seq<crate::structs::ParserDescriptor> {
    entries.map_values(|entry: (Seq<char>, RegisteredModel)| entry.1.descriptor)
}

/// `lookup` finds a parser exactly under the names that are taken, and what it
/// finds is registered under that name.
pub proof fn lemma_lookup(entries: Registrations, name: Seq<char>)
    ensures
        lookup(entries, name) is Some <==> has_name(entries, name),
        lookup(entries, name) matches Some(parser) ==> exists|i: int|
            0 <= i < entries.len() && #[trigger] entries[i] == (name, parser),
    decreases entries.len(),
{
    if entries.len() > 0 {
        let rest = entries.drop_first();
        lemma_lookup(rest, name);
        if entries[0].0 == name {
            assert(entries[0] == (name, entries[0].1));
        } else {
            if has_name(entries, name) {
                let i = choose|i: int| 0 <= i < entries.len() && (#[trigger] entries[i]).0 == name;
                assert(rest[i - 1].0 == name);
            }
            if lookup(rest, name) is Some {
                let parser = lookup(rest, name)->Some_0;
                let i = choose|i: int| 0 <= i < rest.len() && #[trigger] rest[i] == (name, parser);
                assert(entries[i + 1] == (name, parser));
            }
        }
    }
}

/// `lookup` finds the first parser registered under the name.
pub proof fn lemma_lookup_first(entries: Registrations, name: Seq<char>, i: int)
    requires
        0 <= i < entries.len(),
        entries[i].0 == name,
        forall|k: int| 0 <= k < i ==> (#[trigger] entries[k]).0 != name,
    ensures
        lookup(entries, name) == Some(entries[i].1),
    decreases entries.len(),
{
    if i > 0 {
        let rest = entries.drop_first();
        assert(entries[0].0 != name);
        assert forall|k: int| 0 <= k < i - 1 implies (#[trigger] rest[k]).0 != name by {
            assert(rest[k] == entries[k + 1]);
        }
        assert(rest[i - 1] == entries[i]);
        lemma_lookup_first(rest, name, i - 1);
    }
}

/// Where names are unique, each registered parser is the one that `lookup`
/// finds under its name.
pub proof fn lemma_lookup_unique(entries: Registrations, i: int)
    requires
        names_unique(entries),
        0 <= i < entries.len(),
    ensures
        lookup(entries, entries[i].0) == Some(entries[i].1),
{
    assert forall|k: int| 0 <= k < i implies (#[trigger] entries[k]).0 != entries[i].0 by {}
    lemma_lookup_first(entries, entries[i].0, i);
}

/// A second registration under a name is refused, and the first one stays:
/// after registering `first` under a free name, registering `second` under the
/// same name fails, and the name still leads to `first`.
pub proof fn lemma_duplicate_name_rejected(
    entries: Registrations,
    name: Seq<char>,
    first: RegisteredModel,
    second: RegisteredModel,
)
    requires
        !has_name(entries, name),
    ensures
        registered(entries, name, first) matches Some(after) && registered(after, name, second)
            is None && lookup(after, name) == Some(first),
{
    let after = entries.push((name, first));
    let at = entries.len() as int;
    assert(after[at].0 == name);
    assert forall|k: int| 0 <= k < at implies (#[trigger] after[k]).0 != name by {
        assert(after[k] == entries[k]);
    }
    lemma_lookup_first(after, name, at);
}

/// Registering keeps names unique.
pub proof fn lemma_registered_unique(entries: Registrations, name: Seq<char>, parser: RegisteredModel)
    requires
        names_unique(entries),
    ensures
        registered(entries, name, parser) matches Some(after) ==> names_unique(after),
{
    if !has_name(entries, name) {
        let after = entries.push((name, parser));
        assert forall|i: int, j: int| 0 <= i < j < after.len() implies (#[trigger] after[i]).0 != (
        #[trigger] after[j]).0 by {
            if j == entries.len() {
                assert(after[i] == entries[i]);
            } else {
                assert(after[i] == entries[i] && after[j] == entries[j]);
            }
        }
    }
}

/// One registration: a parser and the name it was registered under.
#[derive(Debug)]
struct Registration {
    name: String,
    parser: RegisteredParser,
}

/// The active parsers, each under a name of its own.
#[derive(Debug)]
pub struct ParserRegistry {
    entries: Vec<Registration>,
}

impl View for ParserRegistry {
    type V = Registrations;

    closed spec fn view(&self) -> Registrations {
        Seq::new(self.entries@.len(), |i: int| (self.entries@[i].name@, self.entries@[i].parser@))
    }
}

/// Whether `wanted` occurs in `list`.
pub fn contains_text(list: &Vec<&str>, wanted: &str) -> (r: bool)
    ensures
        r == crate::custom_parsers::strs_of(list@).contains(wanted@),
{
    let ghost texts = crate::custom_parsers::strs_of(list@);
    let mut i: usize = 0;
    while i < list.len()
        invariant
            i <= list.len(),
            texts == crate::custom_parsers::strs_of(list@),
            forall|k: int| 0 <= k < i ==> texts[k] != wanted@,
        decreases list.len() - i,
    {
        if same_text(list[i], wanted) {
            assert(texts[i as int] == wanted@);
            return true;
        }
        i = i + 1;
    }
    false
}

impl ParserRegistry {
    /// An empty registry.
    pub fn new() -> (r: Self)
        ensures
            r@ == Seq::<(Seq<char>, RegisteredModel)>::empty(),
            names_unique(r@),
    {
        let r = ParserRegistry { entries: Vec::new() };
        assert(r@ =~= Seq::<(Seq<char>, RegisteredModel)>::empty());
        r
    }

    /// The number of registered parsers.
    pub fn len(&self) -> (r: usize)
        ensures
            r == self@.len(),
    {
        self.entries.len()
    }

    /// The position of the first parser registered under `name`, if there is one.
    fn position(&self, name: &str) -> (r: Option<usize>)
        ensures
            r matches Some(i) ==> i < self@.len() && self@[i as int].0 == name@ && forall|k: int|
                0 <= k < i ==> (#[trigger] self@[k]).0 != name@,
            r is None ==> !has_name(self@, name@),
    {
        let mut i: usize = 0;
        while i < self.entries.len()
            invariant
                i <= self.entries.len(),
                forall|k: int| 0 <= k < i ==> (#[trigger] self@[k]).0 != name@,
            decreases self.entries.len() - i,
        {
            if same_text(self.entries[i].name.as_str(), name) {
                return Some(i);
            }
            i = i + 1;
        }
        None
    }

    /// Registers `parser` under `name` unless the name is taken. A taken name
    /// is refused with the registry left as it was: nothing is overwritten. So
    /// names that were unique stay unique.
    pub fn register(&mut self, name: String, parser: RegisteredParser) -> (r: Result<
        (),
        DuplicateNameError,
    >)
        ensures
            r is Ok <==> !has_name(old(self)@, name@),
            r is Ok ==> Some(final(self)@) == registered(old(self)@, name@, parser@),
            r matches Err(error) ==> error.name == name && final(self)@ == old(self)@,
            names_unique(old(self)@) ==> names_unique(final(self)@),
    {
        if self.position(name.as_str()).is_some() {
            return Err(DuplicateNameError { name });
        }
        let ghost before = self@;
        let ghost key = name@;
        let ghost model = parser@;
        self.entries.push(Registration { name, parser });
        proof {
            assert(self@ =~= before.push((key, model)));
            if names_unique(before) {
                lemma_registered_unique(before, key, model);
            }
        }
        Ok(())
    }

    /// The parser registered under exactly `name`, if there is one.
    pub fn get(&self, name: &str) -> (r: Option<&RegisteredParser>)
        ensures
            r matches Some(parser) ==> lookup(self@, name@) == Some(parser@),
            r is None ==> lookup(self@, name@) is None,
    {
        proof {
            lemma_lookup(self@, name@);
        }
        match self.position(name) {
            Some(i) => {
                proof {
                    lemma_lookup_first(self@, name@, i as int);
                }
                Some(&self.entries[i].parser)
            },
            None => None,
        }
    }

    /// The names of the parsers whose supported formats contain
    /// `required_format`, in the order of registration.
    pub fn list_parsers_for_format(&self, required_format: String) -> (r: Vec<String>)
        ensures
            texts_of(r@) == supporting(self@, required_format@),
    {
        let ghost format = required_format@;
        let ghost claims = |entry: (Seq<char>, RegisteredModel)| supports(entry, format);
        let ghost key = |entry: (Seq<char>, RegisteredModel)| entry.0;
        let mut names: Vec<String> = Vec::new();
        let mut i: usize = 0;
        proof {
            assert(self@.subrange(0, 0) =~= Seq::empty());
            reveal_with_fuel(Seq::filter, 1);
            assert(texts_of(names@) =~= self@.subrange(0, 0).filter(claims).map_values(key));
        }
        while i < self.entries.len()
            invariant
                i <= self.entries.len(),
                format == required_format@,
                claims == |entry: (Seq<char>, RegisteredModel)| supports(entry, format),
                key == |entry: (Seq<char>, RegisteredModel)| entry.0,
                texts_of(names@) == self@.subrange(0, i as int).filter(claims).map_values(key),
            decreases self.entries.len() - i,
        {
            let ghost seen = self@.subrange(0, i as int);
            let formats = self.entries[i].parser.supported_formats();
            let claimed = contains_text(&formats, required_format.as_str());
            proof {
                assert(self@.subrange(0, i + 1) =~= seen.push(self@[i as int]));
                seen.lemma_filter_push(self@[i as int], claims);
                assert(claimed == claims(self@[i as int]));
            }
            if claimed {
                let ghost listed = texts_of(names@);
                names.push(self.entries[i].name.clone());
                proof {
                    assert(texts_of(names@) =~= listed.push(self@[i as int].0));
                    assert(listed.push(key(self@[i as int])) =~= seen.filter(claims).push(
                        self@[i as int],
                    ).map_values(key));
                }
            }
            i = i + 1;
        }
        assert(self@.subrange(0, i as int) =~= self@);
        names
    }

    /// The descriptions of all registered parsers, in the order of registration.
    pub fn list_all(&self) -> (r: Vec<ParserConfig>)
        ensures
            r@.len() == self@.len(),
            forall|i: int| 0 <= i < r@.len() ==> (#[trigger] r@[i])@ == self@[i].1.descriptor,
    {
        let mut all: Vec<ParserConfig> = Vec::new();
        let mut i: usize = 0;
        while i < self.entries.len()
            invariant
                i <= self.entries.len(),
                all@.len() == i,
                forall|k: int| 0 <= k < i ==> (#[trigger] all@[k])@ == self@[k].1.descriptor,
            decreases self.entries.len() - i,
        {
            all.push(self.entries[i].parser.info());
            i = i + 1;
        }
        all
    }

    /// Empties the registry.
    pub fn remove_parsers(&mut self)
        ensures
            final(self)@ == Seq::<(Seq<char>, RegisteredModel)>::empty(),
    {
        self.entries.clear();
        assert(self@ =~= Seq::<(Seq<char>, RegisteredModel)>::empty());
    }
}

} // verus!
