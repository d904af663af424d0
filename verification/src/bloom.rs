//! Bloom-filter options: validation of the user's argument into per-column
//! configurations.

use vstd::prelude::*;
use vstd::string::*;
use crate::conversion::ExceptionKind;

verus! {

/// The bloom filter requested for one column.
#[derive(Debug)]
pub struct BloomFilterConfig {
    /// The column, as the names of its parts from the root.
    pub path: Vec<String>,
    /// The false-positive probability, as the bit pattern of an IEEE-754
    /// double, when one was given.
    pub false_positive_probability_bits: Option<u64>,
    /// The expected number of distinct values, when one was given.
    pub n_distinct_values: Option<u64>,
}

/// Mathematical form of a [`BloomFilterConfig`].
pub struct BloomFilterSpec {
    pub path: Seq<Seq<char>>,
    pub false_positive_probability_bits: Option<u64>,
    pub n_distinct_values: Option<u64>,
}

/// The texts of a sequence of strings.
pub open spec fn texts(s: Seq<String>) -> Seq<Seq<char>> {
    s.map_values(|x: String| x@)
}

impl View for BloomFilterConfig {
    type V = BloomFilterSpec;

    open spec fn view(&self) -> BloomFilterSpec {
        BloomFilterSpec {
            path: texts(self.path@),
            false_positive_probability_bits: self.false_positive_probability_bits,
            n_distinct_values: self.n_distinct_values,
        }
    }
}

/// The views of a sequence of configurations.
pub open spec fn config_views(s: Seq<BloomFilterConfig>) -> Seq<BloomFilterSpec> {
    s.map_values(|c: BloomFilterConfig| c@)
}

/// The `path` entry of one bloom-filter hash, as given.
pub enum PathArg {
    /// The hash has no `path` key.
    Missing,
    /// The `path` value is not an array.
    NotArray,
    /// The elements of the `path` array; `None` for one that is not a string.
    Parts(Vec<Option<String>>),
}

/// One element of the bloom-filter array, as given.
pub enum BloomEntryArg {
    /// The element is not a hash.
    NotHash,
    /// The element is a hash; a probability or count that is absent or of
    /// the wrong kind is `None`.
    Hash { path: PathArg, false_positive_probability_bits: Option<u64>, n_distinct_values: Option<u64> },
}

/// The bloom-filter argument, as given.
pub enum BloomFiltersArg {
    /// The argument is not an array.
    NotArray,
    /// The elements of the array.
    Entries(Vec<BloomEntryArg>),
}

/// Why a bloom-filter argument was refused.
#[derive(Clone, Copy, Debug, PartialEq, Eq, Structural)]
pub enum BloomFilterArgError {
    /// The argument is not an array of hashes.
    NotArray,
    /// The element at this index is not a hash.
    EntryNotHash { entry: usize },
    /// The element at this index has no `path` key.
    MissingPath { entry: usize },
    /// The `path` of the element at this index is not an array.
    PathNotArray { entry: usize },
    /// The `path` of an element has a part that is not a string.
    PathPartNotString { entry: usize, part: usize },
}

/// The text raised for a refused bloom-filter argument, when the refusal
/// has one of its own. A missing `path` is reported with the detail of the
/// failed lookup; an element that is not a hash, or a path part that is not
/// a string, is reported by the failed conversion itself and has no text
/// here.
pub open spec fn spec_bloom_message(e: BloomFilterArgError, detail: Seq<char>) -> Option<
    Seq<char>,
> {
    match e {
        BloomFilterArgError::NotArray => Some("bloom_filters must be an Array of Hashes"@),
        BloomFilterArgError::MissingPath { .. } => Some(
            "bloom_filters entry missing 'path' key: "@ + detail,
        ),
        BloomFilterArgError::PathNotArray { .. } => Some(
            "bloom_filters 'path' must be an Array of column name parts (e.g., ['column_name'] or ['parent', 'child'])"@,
        ),
        BloomFilterArgError::EntryNotHash { .. } => None,
        BloomFilterArgError::PathPartNotString { .. } => None,
    }
}

impl BloomFilterArgError {
    /// The exception this refusal is raised as: an argument error for the
    /// refusals with a text of their own, a type error for an element that
    /// is not a hash or a path part that is not a string, whose failed
    /// conversion is raised.
    pub fn exception(&self) -> (k: ExceptionKind)
        ensures
            k == (match self {
                BloomFilterArgError::EntryNotHash { .. } => ExceptionKind::TypeError,
                BloomFilterArgError::PathPartNotString { .. } => ExceptionKind::TypeError,
                _ => ExceptionKind::ArgumentError,
            }),
    {
        match self {
            BloomFilterArgError::EntryNotHash { .. } => ExceptionKind::TypeError,
            BloomFilterArgError::PathPartNotString { .. } => ExceptionKind::TypeError,
            _ => ExceptionKind::ArgumentError,
        }
    }

    /// The text raised for this refusal, as [`spec_bloom_message`] states;
    /// `detail` is the message of the failed `path` lookup.
    pub fn message(&self, detail: &str) -> (m: Option<String>)
        ensures
            match spec_bloom_message(*self, detail@) {
                Some(t) => m matches Some(s) && s@ == t,
                None => m is None,
            },
    {
        match self {
            BloomFilterArgError::NotArray => Some(
                String::from_str("bloom_filters must be an Array of Hashes"),
            ),
            BloomFilterArgError::MissingPath { .. } => {
                let mut m = String::from_str("bloom_filters entry missing 'path' key: ");
                m.append(detail);
                Some(m)
            },
            BloomFilterArgError::PathNotArray { .. } => Some(
                String::from_str(
                    "bloom_filters 'path' must be an Array of column name parts (e.g., ['column_name'] or ['parent', 'child'])",
                ),
            ),
            BloomFilterArgError::EntryNotHash { .. } => None,
            BloomFilterArgError::PathPartNotString { .. } => None,
        }
    }
}

/// Index of the first part that is not a string, searching from `from`.
pub open spec fn first_non_string_from(parts: Seq<Option<String>>, from: int) -> Option<int>
    decreases parts.len() - from,
{
    if from < 0 || from >= parts.len() {
        None
    } else if parts[from] is None {
        Some(from)
    } else {
        first_non_string_from(parts, from + 1)
    }
}

/// The texts of path parts that are all strings.
pub open spec fn part_texts(parts: Seq<Option<String>>) -> Seq<Seq<char>> {
    parts.map_values(|p: Option<String>| p->Some_0@)
}

/// The configuration that one element yields, or why it is refused.
pub open spec fn spec_entry(e: BloomEntryArg, index: int) -> Result<
    BloomFilterSpec,
    BloomFilterArgError,
> {
    match e {
        BloomEntryArg::NotHash => Err(BloomFilterArgError::EntryNotHash { entry: index as usize }),
        BloomEntryArg::Hash { path, false_positive_probability_bits, n_distinct_values } => {
            match path {
                PathArg::Missing => Err(BloomFilterArgError::MissingPath { entry: index as usize }),
                PathArg::NotArray => Err(
                    BloomFilterArgError::PathNotArray { entry: index as usize },
                ),
                PathArg::Parts(parts) => match first_non_string_from(parts@, 0) {
                    Some(k) => Err(
                        BloomFilterArgError::PathPartNotString {
                            entry: index as usize,
                            part: k as usize,
                        },
                    ),
                    None => Ok(
                        BloomFilterSpec {
                            path: part_texts(parts@),
                            false_positive_probability_bits,
                            n_distinct_values,
                        },
                    ),
                },
            }
        },
    }
}

/// The configurations that a sequence of elements yields, in order, or the
/// refusal of the first element that is refused.
pub open spec fn spec_entries(es: Seq<BloomEntryArg>) -> Result<
    Seq<BloomFilterSpec>,
    BloomFilterArgError,
>
    decreases es.len(),
{
    if es.len() == 0 {
        Ok(Seq::empty())
    } else {
        match spec_entries(es.drop_last()) {
            Err(e) => Err(e),
            Ok(prefix) => match spec_entry(es.last(), es.len() - 1) {
                Err(e) => Err(e),
                Ok(c) => Ok(prefix.push(c)),
            },
        }
    }
}

/// What the bloom-filter argument yields: nothing when it is absent, the
/// configurations of its elements when it is an array, or a refusal.
pub open spec fn spec_bloom_filters(arg: Option<BloomFiltersArg>) -> Result<
    Option<Seq<BloomFilterSpec>>,
    BloomFilterArgError,
> {
    match arg {
        None => Ok(None),
        Some(BloomFiltersArg::NotArray) => Err(BloomFilterArgError::NotArray),
        Some(BloomFiltersArg::Entries(es)) => match spec_entries(es@) {
            Err(e) => Err(e),
            Ok(cs) => Ok(Some(cs)),
        },
    }
}

/// An accepted array yields exactly one configuration per element, with
/// the element's path, probability and count.
pub proof fn law_one_config_per_entry(es: Seq<BloomEntryArg>)
    ensures
        spec_entries(es) matches Ok(cs) ==> cs.len() == es.len() && forall|i: int|
            0 <= i < es.len() ==> spec_entry(#[trigger] es[i], i) == Ok::<
                BloomFilterSpec,
                BloomFilterArgError,
            >(cs[i]),
    decreases es.len(),
{
    if es.len() > 0 {
        law_one_config_per_entry(es.drop_last());
        if let Ok(cs) = spec_entries(es) {
            assert forall|i: int| 0 <= i < es.len() implies spec_entry(#[trigger] es[i], i) == Ok::<
                BloomFilterSpec,
                BloomFilterArgError,
            >(cs[i]) by {
                if i < es.len() - 1 {
                    assert(es.drop_last()[i] == es[i]);
                }
            }
        }
    }
}

/// An accepted element's configuration carries the element's path parts,
/// false-positive probability and distinct-value count unchanged, each
/// independently of the others; an element whose path parts are all
/// strings is accepted.
pub proof fn law_entry_keeps_its_settings(
    parts: Vec<Option<String>>,
    fpp: Option<u64>,
    ndv: Option<u64>,
    index: int,
)
    ensures
        (forall|k: int| 0 <= k < parts@.len() ==> #[trigger] parts@[k] is Some) ==> spec_entry(
            BloomEntryArg::Hash {
                path: PathArg::Parts(parts),
                false_positive_probability_bits: fpp,
                n_distinct_values: ndv,
            },
            index,
        ) is Ok,
        spec_entry(
            BloomEntryArg::Hash {
                path: PathArg::Parts(parts),
                false_positive_probability_bits: fpp,
                n_distinct_values: ndv,
            },
            index,
        ) matches Ok(c) ==> c.n_distinct_values == ndv && c.false_positive_probability_bits == fpp
            && c.path.len() == parts@.len() && forall|k: int|
            0 <= k < parts@.len() ==> #[trigger] c.path[k] == parts@[k]->Some_0@,
{
    if forall|k: int| 0 <= k < parts@.len() ==> #[trigger] parts@[k] is Some {
        lemma_first_non_string_skip(parts@, parts@.len() as int);
    }
}

proof fn lemma_first_non_string_skip(parts: Seq<Option<String>>, i: int)
    requires
        0 <= i <= parts.len(),
        forall|j: int| 0 <= j < i ==> parts[j] is Some,
    ensures
        first_non_string_from(parts, 0) == first_non_string_from(parts, i),
    decreases i,
{
    if i > 0 {
        lemma_first_non_string_skip(parts, i - 1);
    }
}

/// The path of one element: its parts when they are all strings, or the
/// index of the first one that is not.
fn path_parts(parts: &Vec<Option<String>>) -> (r: Result<Vec<String>, usize>)
    ensures
        match first_non_string_from(parts@, 0) {
            Some(k) => r == Err::<Vec<String>, usize>(k as usize),
            None => r matches Ok(v) && texts(v@) == part_texts(parts@),
        },
{
    let ghost original = parts@;
    let mut out: Vec<String> = Vec::new();
    let mut i: usize = 0;
    let n = parts.len();
    while i < n
        invariant
            n == original.len(),
            0 <= i <= n,
            parts@ == original,
            forall|j: int| 0 <= j < i ==> original[j] is Some,
            out@.len() == i,
            forall|j: int| 0 <= j < i ==> #[trigger] out@[j]@ == original[j]->Some_0@,
        decreases n - i,
    {
        match &parts[i] {
            None => {
                proof {
                    assert(original[i as int] is None);
                    lemma_first_non_string_skip(original, i as int);
                    assert(first_non_string_from(original, i as int) == Some(i as int));
                }
                return Err(i);
            },
            Some(s) => {
                let t = s.clone();
                out.push(t);
            },
        }
        i = i + 1;
    }
    proof {
        lemma_first_non_string_skip(original, n as int);
        assert(texts(out@) =~= part_texts(original));
    }
    Ok(out)
}

fn parse_entry(e: &BloomEntryArg, index: usize) -> (r: Result<BloomFilterConfig, BloomFilterArgError>)
    ensures
        match spec_entry(*e, index as int) {
            Ok(c) => r matches Ok(x) && x@ == c,
            Err(err) => r == Err::<BloomFilterConfig, BloomFilterArgError>(err),
        },
{
    match e {
        BloomEntryArg::NotHash => Err(BloomFilterArgError::EntryNotHash { entry: index }),
        BloomEntryArg::Hash { path, false_positive_probability_bits, n_distinct_values } => {
            match path {
                PathArg::Missing => Err(BloomFilterArgError::MissingPath { entry: index }),
                PathArg::NotArray => Err(BloomFilterArgError::PathNotArray { entry: index }),
                PathArg::Parts(parts) => match path_parts(parts) {
                    Err(k) => Err(BloomFilterArgError::PathPartNotString { entry: index, part: k }),
                    Ok(names) => Ok(
                        BloomFilterConfig {
                            path: names,
                            false_positive_probability_bits: *false_positive_probability_bits,
                            n_distinct_values: *n_distinct_values,
                        },
                    ),
                },
            }
        },
    }
}

/// Once a prefix of the elements is refused, so is the whole.
proof fn lemma_entries_prefix_error(es: Seq<BloomEntryArg>, j: int)
    requires
        0 <= j <= es.len(),
        spec_entries(es.take(j)) is Err,
    ensures
        spec_entries(es) == spec_entries(es.take(j)),
    decreases es.len() - j,
{
    if j < es.len() {
        assert(es.take(j + 1).drop_last() =~= es.take(j));
        lemma_entries_prefix_error(es, j + 1);
    } else {
        assert(es.take(j) =~= es);
    }
}

/// Validates the bloom-filter argument.
///
/// An absent argument yields no configuration. An array yields one
/// configuration per element, in order, when every element is a hash whose
/// `path` is an array of strings; otherwise the first element that is not
/// refuses the whole argument. Any other argument is refused.
#[verifier::loop_isolation(false)]
pub fn parse_bloom_filters(arg: Option<BloomFiltersArg>) -> (r: Result<
    Option<Vec<BloomFilterConfig>>,
    BloomFilterArgError,
>)
    ensures
        match spec_bloom_filters(arg) {
            Ok(None) => r matches Ok(None),
            Ok(Some(cs)) => r matches Ok(Some(v)) && config_views(v@) == cs,
            Err(e) => r == Err::<Option<Vec<BloomFilterConfig>>, BloomFilterArgError>(e),
        },
{
    match arg {
        None => Ok(None),
        Some(BloomFiltersArg::NotArray) => Err(BloomFilterArgError::NotArray),
        Some(BloomFiltersArg::Entries(es)) => {
            let mut out: Vec<BloomFilterConfig> = Vec::new();
            let mut i: usize = 0;
            let n = es.len();
            proof {
                assert(es@.take(0) =~= Seq::<BloomEntryArg>::empty());
                assert(config_views(out@) =~= Seq::<BloomFilterSpec>::empty());
            }
            while i < n
                invariant
                    n == es@.len(),
                    0 <= i <= n,
                    spec_entries(es@.take(i as int)) == Ok::<
                        Seq<BloomFilterSpec>,
                        BloomFilterArgError,
                    >(config_views(out@)),
                decreases n - i,
            {
                proof {
                    assert(es@.take(i as int + 1).drop_last() =~= es@.take(i as int));
                    assert(es@.take(i as int + 1).last() == es@[i as int]);
                }
                match parse_entry(&es[i], i) {
                    Err(e) => {
                        proof {
                            assert(spec_entry(es@[i as int], i as int) is Err);
                            assert(spec_entries(es@.take(i as int + 1)) == Err::<
                                Seq<BloomFilterSpec>,
                                BloomFilterArgError,
                            >(e));
                            lemma_entries_prefix_error(es@, i as int + 1);
                        }
                        return Err(e);
                    },
                    Ok(c) => {
                        let ghost prev = out@;
                        let ghost cv = c@;
                        out.push(c);
                        proof {
                            assert(config_views(out@) =~= config_views(prev).push(cv));
                        }
                    },
                }
                i = i + 1;
            }
            proof {
                assert(es@.take(n as int) =~= es@);
            }
            Ok(Some(out))
        },
    }
}

} // verus!
