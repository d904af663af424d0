//! Small decisions on the caller's arguments: names given as strings or
//! symbols, block-or-enumerator dispatch, and the keyword arguments of the
//! enumerators that stand in for a missing block.

use vstd::prelude::*;
use vstd::string::*;
use crate::bloom::texts;
use crate::conversion::ExceptionKind;

verus! {

/// A scalar argument that should name something.
pub enum ScalarArg {
    /// `nil`.
    Nil,
    /// A string or a symbol, with its text.
    Text(String),
    /// Any other value.
    Other,
}

/// The argument was neither `nil`, a string nor a symbol.
#[derive(Clone, Copy, Debug, PartialEq, Eq, Structural)]
pub struct NotStringOrSymbol;

impl NotStringOrSymbol {
    /// The exception this refusal is raised as.
    pub fn exception(&self) -> (k: ExceptionKind)
        ensures
            k == ExceptionKind::TypeError,
    {
        ExceptionKind::TypeError
    }

    /// The text raised for this refusal.
    pub fn message(&self) -> (m: String)
        ensures
            m@ == "Value must be a String or Symbol"@,
    {
        String::from_str("Value must be a String or Symbol")
    }
}

/// The text of a string or symbol argument: none for `nil`, refused for any
/// other value.
pub fn parse_string_or_symbol(value: ScalarArg) -> (r: Result<Option<String>, NotStringOrSymbol>)
    ensures
        match value {
            ScalarArg::Nil => r matches Ok(None),
            ScalarArg::Text(s) => r matches Ok(Some(t)) && t@ == s@,
            ScalarArg::Other => r == Err::<Option<String>, NotStringOrSymbol>(NotStringOrSymbol),
        },
{
    match value {
        ScalarArg::Nil => Ok(None),
        ScalarArg::Text(s) => Ok(Some(s)),
        ScalarArg::Other => Err(NotStringOrSymbol),
    }
}

/// With a block nothing is created; without one, the enumerator is created
/// and returned, or its creation error is passed on.
pub fn handle_block_or_enum<F, T, E>(block_given: bool, create_enum: F) -> (r: Result<
    Option<T>,
    E,
>) where F: FnOnce() -> Result<T, E>
    requires
        !block_given ==> call_requires(create_enum, ()),
    ensures
        block_given ==> r matches Ok(None),
        !block_given ==> exists|made: Result<T, E>|
            call_ensures(create_enum, (), made) && match made {
                Ok(v) => r == Ok::<Option<T>, E>(Some(v)),
                Err(e) => r == Err::<Option<T>, E>(e),
            },
{
    if !block_given {
        let made = create_enum();
        return match made {
            Ok(v) => Ok(Some(v)),
            Err(e) => Err(e),
        };
    }
    Ok(None)
}

/// One keyword argument of an enumerator, in the order it is set.
pub enum EnumeratorKwarg {
    /// `result_type:` with the result type's name.
    ResultType(String),
    /// `columns:` with the selected column names.
    Columns(Vec<String>),
    /// `batch_size:` with the batch size.
    BatchSize(usize),
    /// `strict: true`.
    Strict,
    /// `logger:` with the caller's logger.
    Logger,
}

/// Mathematical form of an [`EnumeratorKwarg`].
pub enum KwargSpec {
    ResultType(Seq<char>),
    Columns(Seq<Seq<char>>),
    BatchSize(usize),
    Strict,
    Logger,
}

impl View for EnumeratorKwarg {
    type V = KwargSpec;

    open spec fn view(&self) -> KwargSpec {
        match self {
            EnumeratorKwarg::ResultType(s) => KwargSpec::ResultType(s@),
            EnumeratorKwarg::Columns(c) => KwargSpec::Columns(texts(c@)),
            EnumeratorKwarg::BatchSize(n) => KwargSpec::BatchSize(*n),
            EnumeratorKwarg::Strict => KwargSpec::Strict,
            EnumeratorKwarg::Logger => KwargSpec::Logger,
        }
    }
}

/// The views of a sequence of keyword arguments.
pub open spec fn kwarg_views(s: Seq<EnumeratorKwarg>) -> Seq<KwargSpec> {
    s.map_values(|k: EnumeratorKwarg| k@)
}

/// The keyword arguments of an enumerator, in order: the result type
/// always, then the columns, the batch size, `strict` and the logger, each
/// only when given (`strict` only when true).
pub open spec fn spec_kwargs(
    result_type: Seq<char>,
    columns: Option<Seq<Seq<char>>>,
    batch_size: Option<usize>,
    strict: bool,
    with_logger: bool,
) -> Seq<KwargSpec> {
    seq![KwargSpec::ResultType(result_type)] + (match columns {
        Some(c) => seq![KwargSpec::Columns(c)],
        None => Seq::empty(),
    }) + (match batch_size {
        Some(n) => seq![KwargSpec::BatchSize(n)],
        None => Seq::empty(),
    }) + (if strict {
        seq![KwargSpec::Strict]
    } else {
        Seq::empty()
    }) + (if with_logger {
        seq![KwargSpec::Logger]
    } else {
        Seq::empty()
    })
}

/// Each keyword argument is present exactly when its own option is given,
/// independently of the others, and carries that option's value; the
/// result type always comes first.
pub proof fn law_kwargs_follow_options(
    result_type: Seq<char>,
    columns: Option<Seq<Seq<char>>>,
    batch_size: Option<usize>,
    strict: bool,
    with_logger: bool,
)
    ensures
        ({
            let k = spec_kwargs(result_type, columns, batch_size, strict, with_logger);
            &&& k.len() >= 1
            &&& k[0] == KwargSpec::ResultType(result_type)
            &&& forall|i: int| 1 <= i < k.len() ==> !(#[trigger] k[i] is ResultType)
            &&& (columns matches Some(c) ==> k.contains(KwargSpec::Columns(c)))
            &&& (forall|i: int| 0 <= i < k.len() && #[trigger] k[i] is Columns ==> columns
                == Some(k[i]->Columns_0))
            &&& (batch_size matches Some(n) ==> k.contains(KwargSpec::BatchSize(n)))
            &&& (forall|i: int| 0 <= i < k.len() && #[trigger] k[i] is BatchSize ==> batch_size
                == Some(k[i]->BatchSize_0))
            &&& (strict <==> k.contains(KwargSpec::Strict))
            &&& (with_logger <==> k.contains(KwargSpec::Logger))
        }),
{
    let a: Seq<KwargSpec> = seq![KwargSpec::ResultType(result_type)];
    let b: Seq<KwargSpec> = match columns {
        Some(c) => seq![KwargSpec::Columns(c)],
        None => Seq::empty(),
    };
    let c2: Seq<KwargSpec> = match batch_size {
        Some(n) => seq![KwargSpec::BatchSize(n)],
        None => Seq::empty(),
    };
    let d: Seq<KwargSpec> = if strict {
        seq![KwargSpec::Strict]
    } else {
        Seq::empty()
    };
    let e: Seq<KwargSpec> = if with_logger {
        seq![KwargSpec::Logger]
    } else {
        Seq::empty()
    };
    let k = spec_kwargs(result_type, columns, batch_size, strict, with_logger);
    assert(k == a + b + c2 + d + e);
    let ab = a + b;
    let abc = ab + c2;
    let abcd = abc + d;
    assert forall|i: int| 0 <= i < k.len() implies {
        &&& (i == 0 <==> k[i] is ResultType)
        &&& (k[i] is Columns ==> i == 1 && b.len() == 1 && k[i] == b[0])
        &&& (k[i] is BatchSize ==> i == ab.len() && c2.len() == 1 && k[i] == c2[0])
        &&& (k[i] is Strict ==> i == abc.len() && d.len() == 1)
        &&& (k[i] is Logger ==> i == abcd.len() && e.len() == 1)
    } by {
        if i < abcd.len() {
            if i < abc.len() {
                if i < ab.len() {
                } else {
                }
            }
        }
    }
    if let Some(cs) = columns {
        assert(k[1] == KwargSpec::Columns(cs));
    }
    if let Some(n) = batch_size {
        assert(k[ab.len() as int] == KwargSpec::BatchSize(n));
    }
    if strict {
        assert(k[abc.len() as int] == KwargSpec::Strict);
    }
    if with_logger {
        assert(k[abcd.len() as int] == KwargSpec::Logger);
    }
    if k.contains(KwargSpec::Strict) {
        let i = choose|i: int| 0 <= i < k.len() && k[i] == KwargSpec::Strict;
        assert(k[i] is Strict);
    }
    if k.contains(KwargSpec::Logger) {
        let i = choose|i: int| 0 <= i < k.len() && k[i] == KwargSpec::Logger;
        assert(k[i] is Logger);
    }
}

/// The texts of optional column names.
pub open spec fn optional_texts(columns: Option<Vec<String>>) -> Option<Seq<Seq<char>>> {
    match columns {
        Some(c) => Some(texts(c@)),
        None => None,
    }
}

fn enumerator_kwargs(
    result_type: String,
    columns: Option<Vec<String>>,
    batch_size: Option<usize>,
    strict: bool,
    with_logger: bool,
) -> (r: Vec<EnumeratorKwarg>)
    ensures
        kwarg_views(r@) == spec_kwargs(
            result_type@,
            optional_texts(columns),
            batch_size,
            strict,
            with_logger,
        ),
{
    let ghost expected = spec_kwargs(
        result_type@,
        optional_texts(columns),
        batch_size,
        strict,
        with_logger,
    );
    let mut out: Vec<EnumeratorKwarg> = Vec::new();
    let ghost rt = result_type@;
    out.push(EnumeratorKwarg::ResultType(result_type));
    let ghost s1 = seq![KwargSpec::ResultType(rt)];
    assert(kwarg_views(out@) =~= s1);
    let ghost s2 = s1 + match optional_texts(columns) {
        Some(c) => seq![KwargSpec::Columns(c)],
        None => Seq::empty(),
    };
    match columns {
        Some(c) => {
            out.push(EnumeratorKwarg::Columns(c));
        },
        None => {},
    }
    assert(kwarg_views(out@) =~= s2);
    let ghost s3 = s2 + match batch_size {
        Some(n) => seq![KwargSpec::BatchSize(n)],
        None => Seq::empty(),
    };
    match batch_size {
        Some(n) => {
            out.push(EnumeratorKwarg::BatchSize(n));
        },
        None => {},
    }
    assert(kwarg_views(out@) =~= s3);
    let ghost s4 = s3 + if strict {
        seq![KwargSpec::Strict]
    } else {
        Seq::empty()
    };
    if strict {
        out.push(EnumeratorKwarg::Strict);
    }
    assert(kwarg_views(out@) =~= s4);
    if with_logger {
        out.push(EnumeratorKwarg::Logger);
    }
    assert(kwarg_views(out@) =~= expected);
    out
}

/// The keyword arguments of the row enumerator: the result type, then the
/// columns when given, `strict` when true, and the logger when given.
pub fn row_enumerator_kwargs(
    result_type: String,
    columns: Option<Vec<String>>,
    strict: bool,
    with_logger: bool,
) -> (r: Vec<EnumeratorKwarg>)
    ensures
        kwarg_views(r@) == spec_kwargs(
            result_type@,
            optional_texts(columns),
            None,
            strict,
            with_logger,
        ),
{
    enumerator_kwargs(result_type, columns, None, strict, with_logger)
}

/// The keyword arguments of the column enumerator: the result type, then
/// the columns and the batch size when given, `strict` when true, and the
/// logger when given.
pub fn column_enumerator_kwargs(
    result_type: String,
    columns: Option<Vec<String>>,
    batch_size: Option<usize>,
    strict: bool,
    with_logger: bool,
) -> (r: Vec<EnumeratorKwarg>)
    ensures
        kwarg_views(r@) == spec_kwargs(
            result_type@,
            optional_texts(columns),
            batch_size,
            strict,
            with_logger,
        ),
{
    enumerator_kwargs(result_type, columns, batch_size, strict, with_logger)
}

} // verus!
