//! The providers and generators that there are, each under its name.

use vstd::prelude::*;
use crate::arguments::Args;
use crate::generator::{GeneratorCreationData, GeneratorError, GeneratorImpl};
use crate::generators::tsql::TsqlGenerator;
use crate::generators::AnyGenerator;
use crate::provider::{ProviderCreationData, ProviderError, ProviderErrorView, ProviderImpl};
use crate::providers::first_name::FirstNameProvider;
use crate::providers::gender::GenderProvider;
use crate::providers::number::NumberProvider;
use crate::providers::random::RandomProvider;
use crate::providers::row::RowProvider;
use crate::providers::{name_list, AnyProvider};
use crate::random::Randomness;
use crate::registry::{Creator, Registry, RegistryError};

verus! {

/// The providers that there are; each makes the provider of its kind.
#[derive(Debug, Clone, Copy, PartialEq, Eq, Structural)]
pub enum ProviderKind {
    Row,
    Number,
    Gender,
    Random,
    FirstName,
}

/// The generators that there are; each makes the generator of its kind.
#[derive(Debug, Clone, Copy, PartialEq, Eq, Structural)]
pub enum GeneratorKind {
    Tsql,
}

impl Creator<AnyProvider, ProviderCreationData, ProviderError> for ProviderKind {
    /// Every provider can be made from any data, but the provider of first
    /// names, which needs its list of names: without the list it fails, for
    /// the reason why there is none. What is made is the provider of the
    /// kind, and the provider of first names has the names of the list.
    open spec fn creates(
        &self,
        data: ProviderCreationData,
        outcome: Result<AnyProvider, ProviderError>,
    ) -> bool {
        match (*self, data.first_names) {
            (ProviderKind::FirstName, Err(reason)) => outcome matches Err(e) && e@
                == ProviderErrorView::Unknown(reason@),
            _ => outcome matches Ok(provider) && provider.kind() == *self && (*self
                == ProviderKind::FirstName ==> provider.names() == name_list(data.first_names)),
        }
    }

    fn create(&self, data: &ProviderCreationData) -> (outcome: Result<
        AnyProvider,
        ProviderError,
    >) {
        match self {
            ProviderKind::Row => match RowProvider::new(data) {
                Ok(provider) => Ok(AnyProvider::Row(provider)),
                Err(e) => Err(e),
            },
            ProviderKind::Number => match NumberProvider::new(data) {
                Ok(provider) => Ok(AnyProvider::Number(provider)),
                Err(e) => Err(e),
            },
            ProviderKind::Gender => match GenderProvider::new(data) {
                Ok(provider) => Ok(AnyProvider::Gender(provider)),
                Err(e) => Err(e),
            },
            ProviderKind::Random => match RandomProvider::new(data) {
                Ok(provider) => Ok(AnyProvider::Random(provider)),
                Err(e) => Err(e),
            },
            ProviderKind::FirstName => match FirstNameProvider::new(data) {
                Ok(provider) => Ok(AnyProvider::FirstName(provider)),
                Err(e) => Err(e),
            },
        }
    }
}

impl Creator<AnyGenerator, GeneratorCreationData, GeneratorError> for GeneratorKind {
    /// Every generator can be made: the one of the kind, which has not been
    /// given a table yet and has written nothing.
    open spec fn creates(
        &self,
        data: GeneratorCreationData,
        outcome: Result<AnyGenerator, GeneratorError>,
    ) -> bool {
        outcome matches Ok(generator) && generator is Tsql && generator.is_fresh()
    }

    fn create(&self, data: &GeneratorCreationData) -> (outcome: Result<
        AnyGenerator,
        GeneratorError,
    >) {
        match TsqlGenerator::new() {
            Ok(generator) => Ok(AnyGenerator::Tsql(generator)),
            Err(e) => Err(e),
        }
    }
}

/// A registry of the providers that there are. What it hands out is a
/// provider of one of their kinds, so that what it gives is known.
pub type ProviderRegistry = Registry<
    AnyProvider,
    ProviderCreationData,
    ProviderError,
    ProviderKind,
>;

/// A registry of the generators that there are. What it hands out is a
/// generator of one of their kinds, so that what it writes is known.
pub type GeneratorRegistry = Registry<
    AnyGenerator,
    GeneratorCreationData,
    GeneratorError,
    GeneratorKind,
>;

/// The names of the providers that there are.
pub open spec fn provider_names() -> Set<Seq<char>> {
    set!["row"@, "number"@, "gender"@, "random"@, "first_name"@]
}

/// The kind of provider that a name stands for.
pub open spec fn provider_kind(name: Seq<char>) -> ProviderKind {
    if name == "row"@ {
        ProviderKind::Row
    } else if name == "number"@ {
        ProviderKind::Number
    } else if name == "gender"@ {
        ProviderKind::Gender
    } else if name == "random"@ {
        ProviderKind::Random
    } else {
        ProviderKind::FirstName
    }
}

/// The five names of the providers are five different names.
pub proof fn lemma_provider_names_differ()
    ensures
        "row"@ != "number"@,
        "row"@ != "gender"@,
        "row"@ != "random"@,
        "row"@ != "first_name"@,
        "number"@ != "gender"@,
        "number"@ != "random"@,
        "number"@ != "first_name"@,
        "gender"@ != "random"@,
        "gender"@ != "first_name"@,
        "random"@ != "first_name"@,
{
    reveal_strlit("row");
    reveal_strlit("number");
    reveal_strlit("gender");
    reveal_strlit("random");
    reveal_strlit("first_name");
    assert("row"@.len() == 3);
    assert("number"@.len() == 6);
    assert("gender"@.len() == 6);
    assert("random"@.len() == 6);
    assert("first_name"@.len() == 10);
    assert("number"@[0] == 'n');
    assert("gender"@[0] == 'g');
    assert("random"@[0] == 'r');
}

/// A registry with every provider that there is, each under its name and
/// none of them made yet. All of them will be made for the number of rows
/// that `args` gives, with chance from the given source, and the provider
/// of first names from the given list.
pub fn register_providers(
    args: &Args,
    randomness: Randomness,
    first_names: Result<String, String>,
) -> (r: Result<ProviderRegistry, RegistryError<ProviderError>>)
    ensures
        r matches Ok(registry) && {
            &&& registry.wf()
            &&& registry@.dom() == provider_names()
            &&& forall|name: Seq<char>| #[trigger]
                provider_names().contains(name) ==> registry@[name] is None && registry.creator(
                    name,
                ) == provider_kind(name)
            &&& registry.creation_data().row_count == args.row_count
            &&& registry.creation_data().randomness == randomness
            &&& registry.creation_data().first_names == first_names
        },
{
    let creation_data = ProviderCreationData { row_count: args.row_count, randomness, first_names };
    let mut registry: ProviderRegistry = Registry::new(creation_data);
    proof {
        lemma_provider_names_differ();
    }
    match registry.register("row", ProviderKind::Row) {
        Ok(()) => {},
        Err(e) => {
            return Err(e);
        },
    }
    match registry.register("number", ProviderKind::Number) {
        Ok(()) => {},
        Err(e) => {
            return Err(e);
        },
    }
    match registry.register("gender", ProviderKind::Gender) {
        Ok(()) => {},
        Err(e) => {
            return Err(e);
        },
    }
    match registry.register("random", ProviderKind::Random) {
        Ok(()) => {},
        Err(e) => {
            return Err(e);
        },
    }
    match registry.register("first_name", ProviderKind::FirstName) {
        Ok(()) => {},
        Err(e) => {
            return Err(e);
        },
    }
    assert(registry@.dom() =~= provider_names());
    Ok(registry)
}

/// A registry with every generator that there is, each under its name and
/// none of them made yet.
pub fn register_generators(_args: &Args) -> (r: Result<
    GeneratorRegistry,
    RegistryError<GeneratorError>,
>)
    ensures
        r matches Ok(registry) && {
            &&& registry.wf()
            &&& registry@.dom() == set!["tsql"@]
            &&& registry@["tsql"@] is None
            &&& registry.creator("tsql"@) == GeneratorKind::Tsql
        },
{
    let creation_data = GeneratorCreationData {  };
    let mut registry: GeneratorRegistry = Registry::new(creation_data);
    match registry.register("tsql", GeneratorKind::Tsql) {
        Ok(()) => {},
        Err(e) => {
            return Err(e);
        },
    }
    assert(registry@.dom() =~= set!["tsql"@]);
    Ok(registry)
}

} // verus!
