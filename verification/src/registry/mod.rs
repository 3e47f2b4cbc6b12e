//! A table of things that are made when they are first asked for.
//!
//! Under each name a registry holds a creator; the thing that the creator
//! makes is made the first time the name is asked for, and kept: whoever
//! asks for the name again gets the same thing, in the state in which it
//! was left.

use vstd::prelude::*;
use crate::text::texts_of;

pub mod registrars;

verus! {

/// The ways in which a registry fails.
#[derive(Debug, PartialEq)]
pub enum RegistryError<E> {
    /// There is a creator of this name already.
    DuplicateItem(String),
    /// There is no creator of this name.
    UnknownCreator(String),
    /// The creator failed, in this way.
    CreationError(E),
    /// Anything else.
    Unknown(String),
}

/// What an error says of itself, where `creation` is what the failure of
/// the creator says of itself.
pub open spec fn registry_message<E>(error: RegistryError<E>, creation: Seq<char>) -> Seq<char> {
    match error {
        RegistryError::DuplicateItem(name) => "Duplicate item '"@ + name@ + "'"@,
        RegistryError::UnknownCreator(name) => "Unknown creator '"@ + name@ + "'"@,
        RegistryError::CreationError(_) => "Error while creating: "@ + creation,
        RegistryError::Unknown(message) => "An unknown error occurred: "@ + message@,
    }
}

impl<E> RegistryError<E> {
    /// What the error says of itself; `creation` is what the failure of the
    /// creator says of itself, where that is what went wrong.
    pub fn message(&self, creation: &str) -> (text: String)
        ensures
            text@ == registry_message(*self, creation@),
    {
        match self {
            RegistryError::DuplicateItem(name) => {
                let mut text = "Duplicate item '".to_string();
                text.append(name.as_str());
                text.append("'");
                text
            },
            RegistryError::UnknownCreator(name) => {
                let mut text = "Unknown creator '".to_string();
                text.append(name.as_str());
                text.append("'");
                text
            },
            RegistryError::CreationError(_) => {
                let mut text = "Error while creating: ".to_string();
                text.append(creation);
                text
            },
            RegistryError::Unknown(message) => {
                let mut text = "An unknown error occurred: ".to_string();
                text.append(message.as_str());
                text
            },
        }
    }
}

/// Something that makes the things of a registry: from what every thing is
/// made from, it makes one thing or fails.
pub trait Creator<R, D, E> {
    /// What the creator may give for the given data: anything, unless the
    /// creator says otherwise.
    open spec fn creates(&self, data: D, outcome: Result<R, E>) -> bool {
        true
    }

    fn create(&self, data: &D) -> (outcome: Result<R, E>)
        ensures
            self.creates(*data, outcome),
    ;
}

/// A table from names to creators and to what they have made so far.
/// `C` is the type of the creators, `R` that of the things they make, `D`
/// that of the data they make them from, and `E` that of their failures.
pub struct Registry<R, D, E, C: Creator<R, D, E>> {
    creation_data: D,
    names: Vec<String>,
    creators: Vec<C>,
    items: Vec<Option<R>>,
    failures: core::marker::PhantomData<E>,
}

/// The place of a name among names of which no two are the same.
proof fn lemma_index_of_distinct(names: Seq<Seq<char>>, i: int)
    requires
        0 <= i < names.len(),
        forall|a: int, b: int| 0 <= a < b < names.len() ==> names[a] != names[b],
    ensures
        names.contains(names[i]),
        names.index_of(names[i]) == i,
{
    let j = names.index_of(names[i]);
    assert(0 <= j < names.len() && names[j] == names[i]);
    if j < i {
        assert(names[j] != names[i]);
    } else if i < j {
        assert(names[i] != names[j]);
    }
}

/// The table that holds, under each of the names, what stands at the place
/// of the name among the items.
pub open spec fn table<R>(names: Seq<Seq<char>>, items: Seq<Option<R>>) -> Map<
    Seq<char>,
    Option<R>,
> {
    Map::new(|name: Seq<char>| names.contains(name), |name: Seq<char>| items[names.index_of(name)])
}

impl<R, D, E, C: Creator<R, D, E>> View for Registry<R, D, E, C> {
    type V = Map<Seq<char>, Option<R>>;

    /// Under each name that has a creator: what the creator has made, or
    /// nothing where it has not been asked yet.
    closed spec fn view(&self) -> Map<Seq<char>, Option<R>> {
        table(texts_of(self.names@), self.items@)
    }
}

impl<R, D, E, C: Creator<R, D, E>> Registry<R, D, E, C> {
    /// The registry is in order: every name has one creator and one place
    /// for what the creator makes, and no name stands twice. Every registry
    /// that `new` made is in order, and stays so.
    pub closed spec fn wf(&self) -> bool {
        &&& self.names@.len() == self.items@.len()
        &&& self.names@.len() == self.creators@.len()
        &&& forall|a: int, b: int|
            0 <= a < b < self.names@.len() ==> texts_of(self.names@)[a] != texts_of(
                self.names@,
            )[b]
    }

    /// What every thing of this registry is made from.
    pub closed spec fn creation_data(&self) -> D {
        self.creation_data
    }

    /// The creator of the given name.
    pub closed spec fn creator(&self, name: Seq<char>) -> C {
        self.creators@[texts_of(self.names@).index_of(name)]
    }

    /// A registry without creators.
    pub fn new(creation_data: D) -> (registry: Self)
        ensures
            registry.wf(),
            registry@ == Map::<Seq<char>, Option<R>>::empty(),
            registry.creation_data() == creation_data,
    {
        let registry = Self {
            creation_data,
            names: Vec::new(),
            creators: Vec::new(),
            items: Vec::new(),
            failures: core::marker::PhantomData,
        };
        assert(registry@ =~= Map::<Seq<char>, Option<R>>::empty());
        registry
    }

    /// The place of a name among the names, where it is one of them.
    fn find(&self, name: &str) -> (r: Option<usize>)
        requires
            self.wf(),
        ensures
            match r {
                Some(i) => i < self.names@.len() && texts_of(self.names@)[i as int] == name@
                    && texts_of(self.names@).index_of(name@) == i && texts_of(
                    self.names@,
                ).contains(name@),
                None => !texts_of(self.names@).contains(name@),
            },
    {
        let key = String::from_str(name);
        let mut i: usize = 0;
        while i < self.names.len()
            invariant
                i <= self.names@.len(),
                self.wf(),
                key@ == name@,
                forall|j: int| 0 <= j < i ==> texts_of(self.names@)[j] != name@,
            decreases self.names@.len() - i,
        {
            if self.names[i] == key {
                proof {
                    lemma_index_of_distinct(texts_of(self.names@), i as int);
                }
                return Some(i);
            }
            i += 1;
        }
        None
    }

    /// Puts a creator under a name. A name has one creator at most: where
    /// it has one already, the registry stays as it is.
    pub fn register(&mut self, name: &str, creator: C) -> (r: Result<
        (),
        RegistryError<E>,
    >)
        requires
            old(self).wf(),
        ensures
            final(self).wf(),
            old(self)@.dom().contains(name@) ==> (r matches Err(RegistryError::DuplicateItem(n))
                && n@ == name@) && final(self)@ == old(self)@,
            !old(self)@.dom().contains(name@) ==> r is Ok && final(self)@ == old(self)@.insert(
                name@,
                None,
            ) && final(self).creator(name@) == creator,
            forall|other: Seq<char>|
                old(self)@.dom().contains(other) ==> final(self).creator(other) == old(
                    self,
                ).creator(other),
            final(self).creation_data() == old(self).creation_data(),
    {
        if self.find(name).is_some() {
            return Err(RegistryError::DuplicateItem(String::from_str(name)));
        }
        let ghost before = texts_of(self.names@);
        assert(!self@.dom().contains(name@));
        assert forall|other: Seq<char>| self@.dom().contains(other) implies before.contains(
            other,
        ) && 0 <= before.index_of(other) < before.len() by {}
        self.names.push(String::from_str(name));
        self.creators.push(creator);
        self.items.push(None);
        proof {
            let now = texts_of(self.names@);
            assert(now == before.push(name@));
            assert forall|a: int, b: int| 0 <= a < b < now.len() implies now[a] != now[b] by {
                if b == before.len() {
                    assert(before[a] == now[a]);
                    assert(before.contains(now[a]));
                } else {
                    assert(before[a] == now[a] && before[b] == now[b]);
                }
            }
            lemma_index_of_distinct(now, before.len() as int);
            assert forall|other: Seq<char>| before.contains(other) implies now.contains(other)
                && now.index_of(other) == before.index_of(other) by {
                let i = before.index_of(other);
                assert(now[i] == other);
                lemma_index_of_distinct(now, i);
            }
            assert forall|other: Seq<char>| now.contains(other) implies before.contains(other)
                || other == name@ by {
                let i = now.index_of(other);
                if i < before.len() {
                    assert(before[i] == other);
                }
            }
            assert(self@ =~= old(self)@.insert(name@, None));
            assert forall|other: Seq<char>| old(self)@.dom().contains(other) implies self.creator(
                other,
            ) == old(self).creator(other) by {
                assert(before.contains(other));
                assert(now.index_of(other) == before.index_of(other));
            }
        }
        Ok(())
    }

    /// Keeps what the creator of a name has made, or passes its failure
    /// on. `place` is the place of the name among the names.
    fn keep(&mut self, place: usize, created: Result<R, E>) -> (r: Result<(), RegistryError<E>>)
        requires
            old(self).wf(),
            place < old(self).names@.len(),
        ensures
            final(self).wf(),
            match created {
                Ok(item) => r is Ok && final(self)@ == old(self)@.insert(
                    texts_of(old(self).names@)[place as int],
                    Some(item),
                ) && final(self).items@[place as int] == Some(item),
                Err(error) => r == Err::<(), RegistryError<E>>(RegistryError::CreationError(error))
                    && final(self)@ == old(self)@ && final(self).items@ == old(self).items@,
            },
            final(self).names@ == old(self).names@,
            final(self).creators@ == old(self).creators@,
            final(self).creation_data() == old(self).creation_data(),
    {
        match created {
            Err(error) => Err(RegistryError::CreationError(error)),
            Ok(item) => {
                self.items.set(place, Some(item));
                proof {
                    let names = texts_of(self.names@);
                    lemma_index_of_distinct(names, place as int);
                    assert forall|other: Seq<char>|
                        names.contains(other) && other != names[place as int] implies names.index_of(
                        other,
                    ) != place by {
                        let i = names.index_of(other);
                        assert(names[i] == other);
                    }
                    assert(self@ =~= old(self)@.insert(names[place as int], Some(item)));
                }
                Ok(())
            },
        }
    }

    /// The thing of the given name. It is made where it has not been made
    /// yet, by the creator of the name and from the data of the registry,
    /// and it is handed out for use and change: what is done to it stays.
    /// Where the name has no creator or the creator fails, the registry
    /// stays as it is.
    pub fn get(&mut self, name: &str) -> (r: Result<&mut R, RegistryError<E>>)
        requires
            old(self).wf(),
        ensures
            final(self).wf(),
            !old(self)@.dom().contains(name@) ==> (r matches Err(
                RegistryError::UnknownCreator(n),
            ) && n@ == name@) && final(self)@ == old(self)@,
            old(self)@.dom().contains(name@) ==> match r {
                Ok(item) => {
                    &&& final(self)@ == old(self)@.insert(name@, Some(*final(item)))
                    &&& match old(self)@[name@] {
                        Some(made) => *item == made,
                        None => old(self).creator(name@).creates(
                            old(self).creation_data(),
                            Ok(*item),
                        ),
                    }
                },
                Err(error) => {
                    &&& final(self)@ == old(self)@
                    &&& old(self)@[name@] is None
                    &&& error matches RegistryError::CreationError(inner)
                    &&& old(self).creator(name@).creates(old(self).creation_data(), Err(inner))
                },
            },
            forall|other: Seq<char>|
                old(self)@.dom().contains(other) ==> final(self).creator(other) == old(
                    self,
                ).creator(other),
            final(self).creation_data() == old(self).creation_data(),
    {
        let place: usize = match self.find(name) {
            Some(place) => place,
            None => {
                return Err(RegistryError::UnknownCreator(String::from_str(name)));
            },
        };
        if self.items[place].is_none() {
            let created = self.creators[place].create(&self.creation_data);
            match self.keep(place, created) {
                Ok(()) => {},
                Err(e) => {
                    return Err(e);
                },
            }
        }
        let ghost kept = self@;
        let ghost names = texts_of(self.names@);
        let ghost items = self.items@;
        proof {
            lemma_index_of_distinct(names, place as int);
            assert forall|other: Seq<char>|
                names.contains(other) && other != name@ implies names.index_of(other)
                != place by {
                let i = names.index_of(other);
                assert(names[i] == other);
            }
            assert(items[place as int] is Some);
            assert forall|value: R| #[trigger]
                table(names, items.update(place as int, Some(value))) == kept.insert(
                    name@,
                    Some(value),
                ) by {
                assert(table(names, items.update(place as int, Some(value))) =~= kept.insert(
                    name@,
                    Some(value),
                ));
            }
        }
        match &mut self.items[place] {
            Some(item) => Ok(item),
            None => Err(RegistryError::Unknown("Item wasn't found after creating it".to_string())),
        }
    }
}

} // verus!
