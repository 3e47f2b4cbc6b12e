use mocker::generator::{CellValue, GeneratorImpl};
use mocker::generators::tsql::TsqlGenerator;
use mocker::parser::config::Argument;
use mocker::provider::{ProviderCreationData, ProviderError, ProviderImpl};
use mocker::providers::first_name::FirstNameProvider;
use mocker::providers::gender::{gender_list, GenderProvider};
use mocker::providers::number::NumberProvider;
use mocker::providers::random::RandomProvider;
use mocker::providers::row::RowProvider;
use mocker::providers::AnyProvider;
use mocker::random::Randomness;

fn creation_data() -> ProviderCreationData {
    ProviderCreationData {
        row_count: 1000,
        randomness: Randomness::Stepped,
        first_names: Err("no list".to_string()),
    }
}

fn items() -> Vec<Argument> {
    vec![
        Argument::String("Item 1".to_string()),
        Argument::String("Item 2".to_string()),
        Argument::String("Item 3".to_string()),
        Argument::String("Item 4".to_string()),
        Argument::String("Item 5".to_string()),
    ]
}

fn quoted(value: &CellValue) -> String {
    let mut writer = TsqlGenerator::new().unwrap();
    writer.format_cell_value(value).unwrap()
}

// row

#[test]
fn test_provide_should_return_1() -> Result<(), ProviderError> {
    let mut sut = RowProvider::new(&creation_data())?;

    sut.reset(&vec![])?;

    let result = sut.provide()?;

    assert_eq!(CellValue::UnsignedInt(1), result);

    Ok(())
}

#[test]
fn test_provide_should_return_5() -> Result<(), ProviderError> {
    let mut sut = RowProvider::new(&creation_data())?;

    sut.reset(&vec![])?;

    // run 4 times, so the next provide should return "5"
    for _ in 0..4 {
        sut.provide()?;
    }

    let result = sut.provide()?;

    assert_eq!(CellValue::UnsignedInt(5), result);

    Ok(())
}

#[test]
fn test_reset_resets_counter() -> Result<(), ProviderError> {
    let mut sut = RowProvider::new(&creation_data())?;

    sut.reset(&vec![])?;

    for _ in 0..4 {
        sut.provide()?;
    }

    sut.reset(&vec![])?;

    let result = sut.provide()?;

    assert_eq!(CellValue::UnsignedInt(1), result);

    Ok(())
}

#[test]
fn row_counts_on_after_five_draws() {
    let mut sut = RowProvider::new(&creation_data()).unwrap();
    sut.reset(&vec![]).unwrap();
    assert_eq!(CellValue::UnsignedInt(1), sut.provide().unwrap());
    for _ in 0..4 {
        sut.provide().unwrap();
    }
    assert_eq!(CellValue::UnsignedInt(6), sut.provide().unwrap());
    sut.reset(&vec![Argument::Int(7)]).unwrap();
    assert_eq!(CellValue::UnsignedInt(1), sut.provide().unwrap());
}

#[test]
fn row_stops_when_the_numbers_are_used_up() {
    let mut sut = RowProvider { curr_count: u64::MAX - 1 };
    assert_eq!(CellValue::UnsignedInt(u64::MAX - 1), sut.provide().unwrap());
    assert!(matches!(sut.provide(), Err(ProviderError::Unknown(_))));
    assert_eq!(u64::MAX, sut.curr_count);
}

// number

#[test]
fn test_provide_should_return_a_number() -> Result<(), ProviderError> {
    let mut sut = NumberProvider::new(&creation_data())?;
    sut.reset(&vec![])?;

    let result = sut.provide()?;

    assert_eq!(CellValue::Int(0), result);

    Ok(())
}

#[test]
fn test_reset_should_set_minimum_to_10() -> Result<(), ProviderError> {
    let expected = 10;
    let mut sut = NumberProvider::new(&creation_data())?;

    sut.reset(&vec![Argument::Int(expected)])?;

    assert_eq!(expected, sut.min);

    Ok(())
}

#[test]
fn test_reset_should_set_maximum_to_10() -> Result<(), ProviderError> {
    let expected = 10;
    let mut sut = NumberProvider::new(&creation_data())?;

    sut.reset(&vec![Argument::Int(5), Argument::Int(expected)])?;

    assert_eq!(expected, sut.max);

    Ok(())
}

#[test]
fn test_reset_should_set_minimum_to_15_when_maximum_is_also_set() -> Result<(), ProviderError> {
    let expected = 15;
    let mut sut = NumberProvider::new(&creation_data())?;

    sut.reset(&vec![Argument::Int(expected), Argument::Int(20)])?;

    assert_eq!(expected, sut.min);

    Ok(())
}

#[test]
fn test_reset_should_return_error_when_no_number_is_given_to_minimum() -> Result<(), ProviderError>
{
    let arg = "abc".to_string();
    let expected = Err(ProviderError::UnexpectedArgument(arg.clone(), "int".to_string()));
    let mut sut = NumberProvider::new(&creation_data())?;

    let result = sut.reset(&vec![Argument::String(arg)]);

    assert_eq!(expected, result);

    Ok(())
}

#[test]
fn test_reset_should_return_error_when_no_number_is_given_to_maximum() -> Result<(), ProviderError>
{
    let arg = "abc".to_string();
    let expected = Err(ProviderError::UnexpectedArgument(arg.clone(), "int".to_string()));
    let mut sut = NumberProvider::new(&creation_data())?;

    let result = sut.reset(&vec![Argument::Int(5), Argument::String(arg)]);

    assert_eq!(expected, result);

    Ok(())
}

#[test]
fn test_reset_should_set_min_to_default_when_no_arguments_are_given() -> Result<(), ProviderError>
{
    let mut sut = NumberProvider::new(&creation_data())?;

    sut.reset(&vec![Argument::Int(5), Argument::Int(10)])?;

    sut.reset(&vec![])?;

    assert_eq!(0, sut.min);

    Ok(())
}

#[test]
fn test_reset_should_set_max_to_default_when_no_arguments_are_given() -> Result<(), ProviderError>
{
    let mut sut = NumberProvider::new(&creation_data())?;

    sut.reset(&vec![Argument::Int(5), Argument::Int(10)])?;

    sut.reset(&vec![])?;

    assert_eq!(i64::MAX, sut.max);

    Ok(())
}

#[test]
fn number_stays_in_its_range() {
    let data = ProviderCreationData {
        row_count: 10,
        randomness: Randomness::Process,
        first_names: Err(String::new()),
    };
    let mut sut = NumberProvider::new(&data).unwrap();
    sut.reset(&vec![Argument::Int(5), Argument::Int(10)]).unwrap();
    let mut above_the_minimum = false;
    for _ in 0..400 {
        match sut.provide().unwrap() {
            CellValue::Int(value) => {
                assert!(5 <= value && value <= 10);
                if value > 5 {
                    above_the_minimum = true;
                }
            }
            other => panic!("not a whole number: {:?}", other),
        }
    }
    assert!(above_the_minimum);
    sut.reset(&vec![]).unwrap();
    assert_eq!((0, i64::MAX), (sut.min, sut.max));
    for _ in 0..50 {
        assert!(matches!(sut.provide().unwrap(), CellValue::Int(value) if value >= 0));
    }
}

#[test]
fn number_with_one_argument_has_the_greatest_maximum() {
    let mut sut = NumberProvider::new(&creation_data()).unwrap();
    sut.reset(&vec![Argument::Int(5), Argument::Int(10)]).unwrap();
    sut.reset(&vec![Argument::Int(7)]).unwrap();
    assert_eq!((7, i64::MAX), (sut.min, sut.max));
}

#[test]
fn number_keeps_the_minimum_that_was_read_before_a_bad_maximum() {
    let mut sut = NumberProvider::new(&creation_data()).unwrap();
    sut.reset(&vec![Argument::Int(1), Argument::Int(2)]).unwrap();
    let result = sut.reset(&vec![Argument::Int(5), Argument::Boolean(true)]);
    assert_eq!(
        Err(ProviderError::UnexpectedArgument("true".to_string(), "int".to_string())),
        result
    );
    assert_eq!((5, 2), (sut.min, sut.max));
    assert!(matches!(sut.provide(), Err(ProviderError::Unknown(_))));
}

// gender

#[test]
fn test_provide_returns_gender() -> Result<(), ProviderError> {
    let expected = format!("'{}'", gender_list()[0].short);
    let mut sut = GenderProvider::new(&creation_data())?;

    sut.reset(&vec![])?;

    assert_eq!(expected, quoted(&sut.provide()?));

    Ok(())
}

#[test]
fn test_provide_returns_long_gender() -> Result<(), ProviderError> {
    let expected = format!("'{}'", gender_list()[0].long);
    let mut sut = GenderProvider::new(&creation_data())?;

    sut.reset(&vec![Argument::try_from("true").unwrap()])?;

    assert_eq!(expected, quoted(&sut.provide()?));

    Ok(())
}

#[test]
fn test_reset_should_set_long_to_default_when_no_arguments_are_given() -> Result<(), ProviderError>
{
    let mut sut = GenderProvider::new(&creation_data())?;

    sut.reset(&vec![Argument::try_from("true").unwrap()])?;

    sut.reset(&vec![])?;

    assert_eq!(false, sut.long);

    Ok(())
}

#[test]
fn test_reset_should_return_error_when_no_boolean_is_given_to_long() -> Result<(), ProviderError> {
    let arg = "123".to_string();
    let expected = Err(ProviderError::UnexpectedArgument(arg.clone(), "Boolean".to_string()));
    let mut sut = GenderProvider::new(&creation_data())?;

    let result = sut.reset(&vec![Argument::try_from(arg.as_str()).unwrap()]);

    assert_eq!(expected, result);

    Ok(())
}

#[test]
fn gender_is_one_of_three() {
    let data = ProviderCreationData {
        row_count: 10,
        randomness: Randomness::Process,
        first_names: Err(String::new()),
    };
    let mut sut = GenderProvider::new(&data).unwrap();
    let mut seen = vec![];
    for _ in 0..300 {
        match sut.provide().unwrap() {
            CellValue::String(letter) => {
                assert!(letter == "F" || letter == "M" || letter == "O");
                if !seen.contains(&letter) {
                    seen.push(letter);
                }
            }
            other => panic!("not a text: {:?}", other),
        }
    }
    assert_eq!(3, seen.len());
    sut.reset(&vec![Argument::Boolean(true)]).unwrap();
    for _ in 0..50 {
        match sut.provide().unwrap() {
            CellValue::String(name) => {
                assert!(name == "FEMALE" || name == "MALE" || name == "OTHER");
            }
            other => panic!("not a text: {:?}", other),
        }
    }
}

// random

#[test]
fn test_provide_should_return_the_first_item() -> Result<(), ProviderError> {
    let mut sut = RandomProvider::new(&creation_data())?;

    sut.reset(&items())?;

    let result = sut.provide()?;

    assert_eq!(CellValue::String("Item 1".to_string()), result);

    Ok(())
}

#[test]
fn test_reset_should_give_an_error_when_too_few_arguments_are_given() -> Result<(), ProviderError>
{
    let mut sut = RandomProvider::new(&creation_data())?;

    let result = sut.reset(&vec![Argument::String("Item 1".to_string())]);

    assert_eq!(result, Err(ProviderError::TooFewArguments(1, 2)));

    Ok(())
}

#[test]
fn test_reset_should_not_give_an_error_when_just_enough_arguments_are_given(
) -> Result<(), ProviderError> {
    let mut sut = RandomProvider::new(&creation_data())?;

    let result = sut.reset(&vec![
        Argument::String("Item 1".to_string()),
        Argument::String("Item 2".to_string()),
    ]);

    assert_eq!(result, Ok(()));

    Ok(())
}

#[test]
fn random_draws_from_its_arguments_only() {
    let data = ProviderCreationData {
        row_count: 10,
        randomness: Randomness::Process,
        first_names: Err(String::new()),
    };
    let mut sut = RandomProvider::new(&data).unwrap();
    assert!(matches!(sut.provide(), Err(ProviderError::Unknown(_))));
    assert_eq!(Err(ProviderError::TooFewArguments(0, 2)), sut.reset(&vec![]));
    sut.reset(&vec![Argument::Int(3), Argument::Boolean(true), Argument::Float("1.5".to_string())])
        .unwrap();
    let pool = vec![
        CellValue::Int(3),
        CellValue::Boolean(true),
        CellValue::Float("1.5".to_string()),
    ];
    assert_eq!(pool, sut.items);
    let mut beyond_the_first = false;
    for _ in 0..300 {
        let value = sut.provide().unwrap();
        assert!(pool.contains(&value));
        if value != pool[0] {
            beyond_the_first = true;
        }
    }
    assert!(beyond_the_first);
}

// first_name

#[test]
fn test_provide_should_return_the_first_item_correctly_formatted() -> Result<(), ProviderError> {
    let names = vec!["Name 1", "Name 2", "Name 3", "Name 4", "Name 5"];
    let arguments: Vec<Argument> =
        names.iter().map(|name| Argument::String(name.to_string())).collect();
    let data = ProviderCreationData {
        row_count: 1000,
        randomness: Randomness::Stepped,
        first_names: Ok(names.join("\n")),
    };

    let mut sut = FirstNameProvider::new(&data)?;

    sut.reset(&arguments)?;

    let result = sut.provide()?;

    assert_eq!(CellValue::String("Name 1".to_string()), result);

    Ok(())
}

#[test]
fn first_name_needs_its_list() {
    let result = FirstNameProvider::new(&creation_data());
    assert!(matches!(result, Err(ProviderError::Unknown(reason)) if reason == "no list"));
    let empty = ProviderCreationData {
        row_count: 1,
        randomness: Randomness::Stepped,
        first_names: Ok(String::new()),
    };
    let mut sut = FirstNameProvider::new(&empty).unwrap();
    assert!(sut.items.is_empty());
    assert!(matches!(sut.provide(), Err(ProviderError::Unknown(_))));
}

// any provider

#[test]
fn any_provider_does_what_the_provider_of_its_kind_does() {
    let data = ProviderCreationData {
        row_count: 2,
        randomness: Randomness::Stepped,
        first_names: Ok("Ann\nBob".to_string()),
    };
    let mut row = AnyProvider::Row(RowProvider::new(&data).unwrap());
    assert_eq!(Ok(CellValue::UnsignedInt(1)), row.provide());
    assert_eq!(Ok(CellValue::UnsignedInt(2)), row.provide());
    assert_eq!(Ok(()), row.reset(&vec![Argument::Boolean(true)]));
    assert_eq!(Ok(CellValue::UnsignedInt(1)), row.provide());

    let mut number = AnyProvider::Number(NumberProvider::new(&data).unwrap());
    assert_eq!(
        Err(ProviderError::UnexpectedArgument("x".to_string(), "int".to_string())),
        number.reset(&vec![Argument::String("x".to_string())])
    );
    assert_eq!(Ok(()), number.reset(&vec![Argument::Int(-3), Argument::Int(-3)]));
    assert_eq!(Ok(CellValue::Int(-3)), number.provide());
    assert_eq!(Ok(()), number.reset(&vec![Argument::Int(2), Argument::Int(1)]));
    assert!(matches!(number.provide(), Err(ProviderError::Unknown(_))));

    let mut gender = AnyProvider::Gender(GenderProvider::new(&data).unwrap());
    assert_eq!(Ok(()), gender.reset(&vec![Argument::Boolean(true)]));
    assert_eq!(Ok(CellValue::String("FEMALE".to_string())), gender.provide());
    assert_eq!(Ok(()), gender.reset(&vec![]));
    assert_eq!(Ok(CellValue::String("F".to_string())), gender.provide());

    let mut random = AnyProvider::Random(RandomProvider::new(&data).unwrap());
    assert!(matches!(random.provide(), Err(ProviderError::Unknown(_))));
    assert_eq!(Err(ProviderError::TooFewArguments(0, 2)), random.reset(&vec![]));
    assert_eq!(Ok(()), random.reset(&vec![Argument::Int(8), Argument::Boolean(false)]));
    assert_eq!(Ok(CellValue::Int(8)), random.provide());

    let mut names = AnyProvider::FirstName(FirstNameProvider::new(&data).unwrap());
    assert_eq!(Ok(()), names.reset(&vec![Argument::Int(8)]));
    assert_eq!(Ok(CellValue::String("Ann".to_string())), names.provide());
}
