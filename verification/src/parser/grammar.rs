//! The configuration language, as functions on sequences of characters.
//!
//! ```text
//! output     := table*
//! table      := "table" WS+ name WS* "{" column ("," column)* "}"
//! column     := name WS+ type WS* (constraint | provider)*
//! constraint := "$" name "(" arg-list? ")"
//! provider   := "#" name "(" arg-list? ")"
//! arg-list   := literal ("," WS* literal)*
//! literal    := int | float | string | boolean
//! ```
//!
//! Each function reads one part of the language from the front of a text
//! and says what it stands for and what is left of the text, or why it is
//! not what the language asks for. White space may stand between any two
//! parts; between columns, commas count as white space too, so a comma
//! before the closing bracket of a table does no harm and several
//! separators in a row are as good as one. A text is written between
//! double quotes and holds every character up to the next double quote.

use vstd::prelude::*;
use crate::parser::config::{
    ArgumentView,
    ColumnType,
    ColumnView,
    ConfigView,
    ConstraintView,
    ProviderView,
    TableView,
};
use crate::parser::errors::ParserErrorView;
use crate::text::{
    is_digit,
    is_float_literal,
    is_sign,
    lemma_run_length_bound,
    parse_i64,
    run_length,
};

verus! {

/// What reading one part of the language gives: the value read and the rest
/// of the text, or the reason why the part is not there.
pub type Parsed<T> = Result<(T, Seq<char>), ParserErrorView>;

/// White space: a blank, a tab or the end of a line.
pub open spec fn is_space(c: char) -> bool {
    c == ' ' || c == '\t' || c == '\n' || c == '\r'
}

/// What may stand between two columns: white space or a comma.
pub open spec fn is_separator(c: char) -> bool {
    is_space(c) || c == ','
}

/// A character of a name: a letter or a digit of ASCII, or an underscore.
pub open spec fn is_name_char(c: char) -> bool {
    ('a' <= c && c <= 'z') || ('A' <= c && c <= 'Z') || is_digit(c) || c == '_'
}

/// A character at which a literal that is not quoted ends: white space, a
/// comma or a closing bracket.
pub open spec fn ends_literal(c: char) -> bool {
    is_space(c) || c == ',' || c == ')'
}

/// The text without the white space at its front.
pub open spec fn skip_spaces(s: Seq<char>) -> Seq<char> {
    s.skip(run_length(s, |c: char| is_space(c)) as int)
}

/// The text without the white space and commas at its front.
pub open spec fn skip_separators(s: Seq<char>) -> Seq<char> {
    s.skip(run_length(s, |c: char| is_separator(c)) as int)
}

/// Skipping white space never makes a text longer.
pub proof fn lemma_skip_spaces_shrinks(s: Seq<char>)
    ensures
        skip_spaces(s).len() <= s.len(),
{
    lemma_run_length_bound(s, |c: char| is_space(c));
}

/// Skipping separators never makes a text longer.
pub proof fn lemma_skip_separators_shrinks(s: Seq<char>)
    ensures
        skip_separators(s).len() <= s.len(),
{
    lemma_run_length_bound(s, |c: char| is_separator(c));
}

/// A name at the front of the text: as many name characters as there are,
/// and at least one. A text that ends before the name does is cut short;
/// `expected` says what kind of name was looked for.
pub open spec fn name(s: Seq<char>, expected: Seq<char>) -> Parsed<Seq<char>> {
    let n = run_length(s, |c: char| is_name_char(c)) as int;
    if n == s.len() {
        Err(ParserErrorView::EOF)
    } else if n == 0 {
        Err(ParserErrorView::Unexpected(seq![s[0]], expected))
    } else {
        Ok((s.take(n), s.skip(n)))
    }
}

/// What a literal that is not quoted stands for. One that begins with a
/// digit or a sign is a number: a fraction where it holds a point, else an
/// integer of 64 bits. Any other is `true` or `false`.
pub open spec fn literal_value(word: Seq<char>) -> Result<ArgumentView, ParserErrorView> {
    if word.len() == 0 {
        Err(ParserErrorView::Unexpected(word, "literal"@))
    } else if is_digit(word[0]) || is_sign(word[0]) {
        if word.contains('.') {
            if is_float_literal(word) {
                Ok(ArgumentView::Float(word))
            } else {
                Err(ParserErrorView::Unexpected(word, "float"@))
            }
        } else {
            match parse_i64(word) {
                Some(value) => Ok(ArgumentView::Int(value)),
                None => Err(ParserErrorView::Unexpected(word, "int"@)),
            }
        }
    } else if word == "true"@ {
        Ok(ArgumentView::Boolean(true))
    } else if word == "false"@ {
        Ok(ArgumentView::Boolean(false))
    } else {
        Err(ParserErrorView::Unexpected(word, "boolean"@))
    }
}

/// A literal at the front of the text: a text between double quotes, or a
/// word that runs up to the next white space, comma or closing bracket.
pub open spec fn literal(s: Seq<char>) -> Parsed<ArgumentView> {
    if s.len() == 0 {
        Err(ParserErrorView::EOF)
    } else if s[0] == '"' {
        let body = s.skip(1);
        let n = run_length(body, |c: char| c != '"') as int;
        if n == body.len() {
            Err(ParserErrorView::EOF)
        } else {
            Ok((ArgumentView::String(body.take(n)), body.skip(n + 1)))
        }
    } else {
        let n = run_length(s, |c: char| !ends_literal(c)) as int;
        if n == s.len() {
            Err(ParserErrorView::EOF)
        } else if n == 0 {
            Err(ParserErrorView::Unexpected(seq![s[0]], "literal"@))
        } else {
            match literal_value(s.take(n)) {
                Ok(value) => Ok((value, s.skip(n))),
                Err(e) => Err(e),
            }
        }
    }
}

/// A literal takes at least one character.
pub proof fn lemma_literal_shrinks(s: Seq<char>)
    ensures
        literal(s) matches Ok((_, rest)) ==> rest.len() < s.len(),
{
    if s.len() > 0 {
        lemma_run_length_bound(s.skip(1), |c: char| c != '"');
        lemma_run_length_bound(s, |c: char| !ends_literal(c));
    }
}

/// The literals of a list that has at least one, up to and with the
/// closing bracket; the text begins at the first literal.
pub open spec fn argument_list(s: Seq<char>) -> Parsed<Seq<ArgumentView>>
    decreases s.len(),
{
    match literal(s) {
        Err(e) => Err(e),
        Ok((value, rest)) => {
            let t = skip_spaces(rest);
            if t.len() == 0 {
                Err(ParserErrorView::EOF)
            } else if t[0] == ')' {
                Ok((seq![value], t.skip(1)))
            } else if t[0] == ',' {
                proof {
                    lemma_literal_shrinks(s);
                    lemma_skip_spaces_shrinks(rest);
                    lemma_skip_spaces_shrinks(t.skip(1));
                }
                match argument_list(skip_spaces(t.skip(1))) {
                    Err(e) => Err(e),
                    Ok((more, end)) => Ok((seq![value] + more, end)),
                }
            } else {
                Err(ParserErrorView::Unexpected(seq![t[0]], "',' or ')'"@))
            }
        },
    }
}

/// A list of literals takes at least one character.
pub proof fn lemma_argument_list_shrinks(s: Seq<char>)
    ensures
        argument_list(s) matches Ok((_, rest)) ==> rest.len() < s.len(),
    decreases s.len(),
{
    lemma_literal_shrinks(s);
    if let Ok((value, rest)) = literal(s) {
        let t = skip_spaces(rest);
        lemma_skip_spaces_shrinks(rest);
        if t.len() > 0 && t[0] == ',' {
            lemma_skip_spaces_shrinks(t.skip(1));
            lemma_argument_list_shrinks(skip_spaces(t.skip(1)));
        }
    }
}

/// The arguments of a call: an opening bracket, no literal or several with
/// commas between them, and a closing bracket.
pub open spec fn arguments(s: Seq<char>) -> Parsed<Seq<ArgumentView>> {
    if s.len() == 0 {
        Err(ParserErrorView::EOF)
    } else if s[0] != '(' {
        Err(ParserErrorView::Unexpected(seq![s[0]], "("@))
    } else {
        let t = skip_spaces(s.skip(1));
        if t.len() == 0 {
            Err(ParserErrorView::EOF)
        } else if t[0] == ')' {
            Ok((Seq::empty(), t.skip(1)))
        } else {
            argument_list(t)
        }
    }
}

/// A call, as it stands behind the `$` of a constraint or the `#` of a
/// provider: a name and, right behind it, its arguments.
pub open spec fn call(s: Seq<char>, expected: Seq<char>) -> Parsed<(Seq<char>, Seq<ArgumentView>)> {
    match name(s, expected) {
        Err(e) => Err(e),
        Ok((called, rest)) => match arguments(rest) {
            Err(e) => Err(e),
            Ok((given, end)) => Ok(((called, given), end)),
        },
    }
}

/// A call takes at least one character.
pub proof fn lemma_call_shrinks(s: Seq<char>, expected: Seq<char>)
    ensures
        call(s, expected) matches Ok((_, rest)) ==> rest.len() < s.len(),
{
    lemma_run_length_bound(s, |c: char| is_name_char(c));
    if let Ok((called, rest)) = name(s, expected) {
        if rest.len() > 0 && rest[0] == '(' {
            let t = skip_spaces(rest.skip(1));
            lemma_skip_spaces_shrinks(rest.skip(1));
            lemma_argument_list_shrinks(t);
        }
    }
}

/// The number of arguments that the constraint of this name takes: none for
/// `primary`, one for `null` and for `link`. There are no other constraints.
pub open spec fn constraint_arity(name: Seq<char>) -> Option<int> {
    if name == "primary"@ {
        Some(0)
    } else if name == "null"@ {
        Some(1)
    } else if name == "link"@ {
        Some(1)
    } else {
        None
    }
}

/// The constraint of the given name and arguments, where there is a
/// constraint of that name and it takes that many arguments.
pub open spec fn checked_constraint(name: Seq<char>, given: Seq<ArgumentView>) -> Result<
    ConstraintView,
    ParserErrorView,
> {
    match constraint_arity(name) {
        None => Err(ParserErrorView::Unexpected(name, "Constraint"@)),
        Some(arity) => if given.len() < arity {
            Err(ParserErrorView::TooFewArguments(given.len() as int, arity))
        } else if given.len() > arity {
            Err(ParserErrorView::TooManyArguments(given.len() as int, arity))
        } else {
            Ok(ConstraintView { name: name, arguments: given })
        },
    }
}

/// A constraint is read with as many arguments as it takes, and with no
/// other number: fewer are too few and more are too many, and it is the two
/// numbers that the failure names. Only the number of the arguments is
/// looked at: whatever their values, they are kept as they were written.
pub proof fn lemma_constraint_arity(name: Seq<char>, given: Seq<ArgumentView>, arity: int)
    requires
        constraint_arity(name) == Some(arity),
    ensures
        given.len() == arity <==> checked_constraint(name, given) is Ok,
        given.len() == arity ==> checked_constraint(name, given) == Ok::<
            ConstraintView,
            ParserErrorView,
        >(ConstraintView { name: name, arguments: given }),
        given.len() < arity <==> checked_constraint(name, given) == Err::<
            ConstraintView,
            ParserErrorView,
        >(ParserErrorView::TooFewArguments(given.len() as int, arity)),
        given.len() > arity <==> checked_constraint(name, given) == Err::<
            ConstraintView,
            ParserErrorView,
        >(ParserErrorView::TooManyArguments(given.len() as int, arity)),
{
}

/// A constraint, as it stands behind its `$`.
pub open spec fn constraint_call(s: Seq<char>) -> Parsed<ConstraintView> {
    match call(s, "constraint name"@) {
        Err(e) => Err(e),
        Ok(((called, given), rest)) => match checked_constraint(called, given) {
            Err(e) => Err(e),
            Ok(constraint) => Ok((constraint, rest)),
        },
    }
}

/// A provider, as it stands behind its `#`.
pub open spec fn provider_call(s: Seq<char>) -> Parsed<ProviderView> {
    match call(s, "provider name"@) {
        Err(e) => Err(e),
        Ok(((called, given), rest)) => Ok((ProviderView { name: called, arguments: given }, rest)),
    }
}

/// The column type that a word names. A `string` may be of any length.
pub open spec fn column_type(word: Seq<char>) -> Result<ColumnType, ParserErrorView> {
    if word == "int"@ {
        Ok(ColumnType::Int)
    } else if word == "uint"@ {
        Ok(ColumnType::UnsignedInt)
    } else if word == "float"@ {
        Ok(ColumnType::Float)
    } else if word == "bool"@ {
        Ok(ColumnType::Boolean)
    } else if word == "string"@ {
        Ok(ColumnType::String(usize::MAX))
    } else {
        Err(ParserErrorView::Unexpected(word, "Type"@))
    }
}

/// What follows the type of a column: constraints and providers in any
/// order, then the comma or closing bracket that ends the column.
/// `constraints` and `provider` are what the column has got so far. A second
/// provider is refused where it begins; a column that ends without one is
/// refused at its end. The result holds the constraints, the provider, the
/// character that ended the column, and the text behind that character.
pub open spec fn column_items(
    s: Seq<char>,
    constraints: Seq<ConstraintView>,
    provider: Option<ProviderView>,
) -> Result<(Seq<ConstraintView>, ProviderView, char, Seq<char>), ParserErrorView>
    decreases s.len(),
{
    let t = skip_spaces(s);
    if t.len() == 0 {
        Err(ParserErrorView::EOF)
    } else if t[0] == '$' {
        match constraint_call(t.skip(1)) {
            Err(e) => Err(e),
            Ok((constraint, rest)) => {
                proof {
                    lemma_skip_spaces_shrinks(s);
                    lemma_call_shrinks(t.skip(1), "constraint name"@);
                }
                column_items(rest, constraints.push(constraint), provider)
            },
        }
    } else if t[0] == '#' {
        if provider is Some {
            Err(ParserErrorView::MultipleProviders)
        } else {
            match provider_call(t.skip(1)) {
                Err(e) => Err(e),
                Ok((chosen, rest)) => {
                    proof {
                        lemma_skip_spaces_shrinks(s);
                        lemma_call_shrinks(t.skip(1), "provider name"@);
                    }
                    column_items(rest, constraints, Some(chosen))
                },
            }
        }
    } else if t[0] == ',' || t[0] == '}' {
        match provider {
            None => Err(ParserErrorView::NoProvider),
            Some(chosen) => Ok((constraints, chosen, t[0], t.skip(1))),
        }
    } else {
        Err(ParserErrorView::Unexpected(seq![t[0]], "constraint, provider, ',' or '}'"@))
    }
}

/// What follows the type of a column takes at least one character.
pub proof fn lemma_column_items_shrinks(
    s: Seq<char>,
    constraints: Seq<ConstraintView>,
    provider: Option<ProviderView>,
)
    ensures
        column_items(s, constraints, provider) matches Ok((_, _, _, rest)) ==> rest.len()
            < s.len(),
    decreases s.len(),
{
    let t = skip_spaces(s);
    lemma_skip_spaces_shrinks(s);
    if t.len() > 0 {
        if t[0] == '$' {
            lemma_call_shrinks(t.skip(1), "constraint name"@);
            if let Ok((constraint, rest)) = constraint_call(t.skip(1)) {
                lemma_column_items_shrinks(rest, constraints.push(constraint), provider);
            }
        } else if t[0] == '#' {
            lemma_call_shrinks(t.skip(1), "provider name"@);
            if let Ok((chosen, rest)) = provider_call(t.skip(1)) {
                lemma_column_items_shrinks(rest, constraints, Some(chosen));
            }
        }
    }
}

/// A column has one provider at most: where one has been read, a further
/// `#` behind it makes the column fail, whatever stands behind that `#`.
pub proof fn lemma_second_provider_is_refused(
    s: Seq<char>,
    constraints: Seq<ConstraintView>,
    provider: ProviderView,
)
    requires
        skip_spaces(s).len() > 0,
        skip_spaces(s)[0] == '#',
    ensures
        column_items(s, constraints, Some(provider)) == Err::<
            (Seq<ConstraintView>, ProviderView, char, Seq<char>),
            ParserErrorView,
        >(ParserErrorView::MultipleProviders),
{
}

/// A column has one provider at least: where none has been read when the
/// comma or closing bracket that ends the column comes, the column fails.
pub proof fn lemma_missing_provider_is_refused(s: Seq<char>, constraints: Seq<ConstraintView>)
    requires
        skip_spaces(s).len() > 0,
        skip_spaces(s)[0] == ',' || skip_spaces(s)[0] == '}',
    ensures
        column_items(s, constraints, None) == Err::<
            (Seq<ConstraintView>, ProviderView, char, Seq<char>),
            ParserErrorView,
        >(ParserErrorView::NoProvider),
{
}

/// The provider of a column that was read is the one that had been read
/// before, where there was one: a provider is never replaced.
pub proof fn lemma_provider_is_kept(
    s: Seq<char>,
    constraints: Seq<ConstraintView>,
    provider: ProviderView,
)
    ensures
        column_items(s, constraints, Some(provider)) matches Ok((_, chosen, _, _)) ==> chosen
            == provider,
    decreases s.len(),
{
    let t = skip_spaces(s);
    lemma_skip_spaces_shrinks(s);
    if t.len() > 0 && t[0] == '$' {
        lemma_call_shrinks(t.skip(1), "constraint name"@);
        if let Ok((constraint, rest)) = constraint_call(t.skip(1)) {
            lemma_provider_is_kept(rest, constraints.push(constraint), provider);
        }
    }
}

/// White space, of which there must be some, at the front of the text.
pub open spec fn spaces(s: Seq<char>) -> Result<Seq<char>, ParserErrorView> {
    if s.len() == 0 {
        Err(ParserErrorView::EOF)
    } else if !is_space(s[0]) {
        Err(ParserErrorView::Unexpected(seq![s[0]], "whitespace"@))
    } else {
        Ok(skip_spaces(s))
    }
}

/// One column, from its name to the comma or closing bracket that ends it.
/// The result holds the column, the character that ended it, and the text
/// behind that character.
pub open spec fn column(s: Seq<char>) -> Result<(ColumnView, char, Seq<char>), ParserErrorView> {
    match name(s, "column name"@) {
        Err(e) => Err(e),
        Ok((column_name, after_name)) => match spaces(after_name) {
            Err(e) => Err(e),
            Ok(at_type) => match name(at_type, "Type"@) {
                Err(e) => Err(e),
                Ok((type_word, after_type)) => match column_type(type_word) {
                    Err(e) => Err(e),
                    Ok(kind) => match column_items(after_type, Seq::empty(), None) {
                        Err(e) => Err(e),
                        Ok((constraints, provider, delimiter, rest)) => Ok(
                            (
                                ColumnView {
                                    name: column_name,
                                    kind: kind,
                                    constraints: constraints,
                                    provider: provider,
                                },
                                delimiter,
                                rest,
                            ),
                        ),
                    },
                },
            },
        },
    }
}

/// A column takes at least one character.
pub proof fn lemma_column_shrinks(s: Seq<char>)
    ensures
        column(s) matches Ok((_, _, rest)) ==> rest.len() < s.len(),
{
    lemma_run_length_bound(s, |c: char| is_name_char(c));
    if let Ok((column_name, after_name)) = name(s, "column name"@) {
        lemma_skip_spaces_shrinks(after_name);
        if let Ok(at_type) = spaces(after_name) {
            lemma_run_length_bound(at_type, |c: char| is_name_char(c));
            if let Ok((type_word, after_type)) = name(at_type, "Type"@) {
                lemma_column_items_shrinks(after_type, Seq::empty(), None);
            }
        }
    }
}

/// The columns of a table, up to and with its closing bracket; the text
/// begins at the name of the first column.
pub open spec fn columns(s: Seq<char>) -> Parsed<Seq<ColumnView>>
    decreases s.len(),
{
    match column(s) {
        Err(e) => Err(e),
        Ok((first, delimiter, rest)) => if delimiter == '}' {
            Ok((seq![first], rest))
        } else {
            let t = skip_separators(rest);
            if t.len() == 0 {
                Err(ParserErrorView::EOF)
            } else if t[0] == '}' {
                Ok((seq![first], t.skip(1)))
            } else {
                proof {
                    lemma_column_shrinks(s);
                    lemma_skip_separators_shrinks(rest);
                }
                match columns(t) {
                    Err(e) => Err(e),
                    Ok((more, end)) => Ok((seq![first] + more, end)),
                }
            }
        },
    }
}

/// The columns of a table take at least one character.
pub proof fn lemma_columns_shrinks(s: Seq<char>)
    ensures
        columns(s) matches Ok((_, rest)) ==> rest.len() < s.len(),
    decreases s.len(),
{
    lemma_column_shrinks(s);
    if let Ok((first, delimiter, rest)) = column(s) {
        if delimiter != '}' {
            let t = skip_separators(rest);
            lemma_skip_separators_shrinks(rest);
            if t.len() > 0 && t[0] != '}' {
                lemma_columns_shrinks(t);
            }
        }
    }
}

/// One table, from the word `table` to its closing bracket.
pub open spec fn table(s: Seq<char>) -> Parsed<TableView> {
    if s.len() < 5 {
        Err(ParserErrorView::EOF)
    } else if s.take(5) != "table"@ {
        Err(ParserErrorView::Unexpected(s.take(5), "table"@))
    } else {
        match spaces(s.skip(5)) {
            Err(e) => Err(e),
            Ok(at_name) => match name(at_name, "table name"@) {
                Err(e) => Err(e),
                Ok((table_name, after_name)) => {
                    let t = skip_spaces(after_name);
                    if t.len() == 0 {
                        Err(ParserErrorView::EOF)
                    } else if t[0] != '{' {
                        Err(ParserErrorView::Unexpected(seq![t[0]], "{"@))
                    } else {
                        match columns(skip_separators(t.skip(1))) {
                            Err(e) => Err(e),
                            Ok((table_columns, rest)) => Ok(
                                (TableView { name: table_name, columns: table_columns }, rest),
                            ),
                        }
                    }
                },
            },
        }
    }
}

/// A table takes at least one character.
pub proof fn lemma_table_shrinks(s: Seq<char>)
    ensures
        table(s) matches Ok((_, rest)) ==> rest.len() < s.len(),
{
    if s.len() >= 5 {
        lemma_skip_spaces_shrinks(s.skip(5));
        if let Ok(at_name) = spaces(s.skip(5)) {
            lemma_run_length_bound(at_name, |c: char| is_name_char(c));
            if let Ok((table_name, after_name)) = name(at_name, "table name"@) {
                let t = skip_spaces(after_name);
                lemma_skip_spaces_shrinks(after_name);
                if t.len() > 0 {
                    lemma_skip_separators_shrinks(t.skip(1));
                    lemma_columns_shrinks(skip_separators(t.skip(1)));
                }
            }
        }
    }
}

/// All the tables of a text. A text that ends where a table could begin is
/// complete.
pub open spec fn tables(s: Seq<char>) -> Result<Seq<TableView>, ParserErrorView>
    decreases s.len(),
{
    let t = skip_spaces(s);
    if t.len() == 0 {
        Ok(Seq::empty())
    } else {
        match table(t) {
            Err(e) => Err(e),
            Ok((first, rest)) => {
                proof {
                    lemma_skip_spaces_shrinks(s);
                    lemma_table_shrinks(t);
                }
                match tables(rest) {
                    Err(e) => Err(e),
                    Ok(more) => Ok(seq![first] + more),
                }
            },
        }
    }
}

/// The configuration that a text denotes, or the first reason why it
/// denotes none.
pub open spec fn config(s: Seq<char>) -> Result<ConfigView, ParserErrorView> {
    match tables(s) {
        Err(e) => Err(e),
        Ok(all) => Ok(ConfigView { tables: all }),
    }
}

} // verus!
