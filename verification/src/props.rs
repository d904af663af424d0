//! Writer properties: the compression codec and the per-column bloom
//! filters that the writer is configured with.

use vstd::prelude::*;
use parquet::basic::Compression;
use parquet::file::properties::{WriterProperties, WriterPropertiesBuilder};
use parquet::schema::types::ColumnPath;
use crate::bloom::{BloomFilterConfig, BloomFilterSpec, config_views, texts};
use crate::compression::{CompressionError, parse_compression, parquet_compression, spec_option_codec};
use crate::text::spec_lowercase;

verus! {

#[verifier::external_type_specification]
#[verifier::external_body]
pub struct ExColumnPath(ColumnPath);

#[verifier::external_type_specification]
#[verifier::external_body]
pub struct ExWriterPropertiesBuilder(WriterPropertiesBuilder);

/// Row-group size of the writer: no bloom filter needs more distinct values.
pub const DEFAULT_MAX_ROW_GROUP_SIZE: u64 = 1048576;

/// Number of distinct values that an enabled bloom filter starts with.
pub const DEFAULT_BLOOM_FILTER_NDV: u64 = 1000000;

/// No column with a bloom filter.
pub open spec fn no_bloom_filters() -> Map<Seq<Seq<char>>, u64> {
    Map::empty()
}

/// The names of the parts of a column path.
pub uninterp spec fn column_path_parts(p: ColumnPath) -> Seq<Seq<char>>;

/// The default compression a builder holds, if one was set.
pub uninterp spec fn builder_compression(b: WriterPropertiesBuilder) -> Option<Compression>;

/// The columns of a builder that have a bloom filter, each with the number
/// of distinct values of its filter.
pub uninterp spec fn builder_bloom_ndv(b: WriterPropertiesBuilder) -> Map<Seq<Seq<char>>, u64>;

/// Builds a column path with `ColumnPath::new`.
///
/// Trusted: the path holds the given parts, in order.
#[verifier::external_body]
fn new_column_path(parts: Vec<String>) -> (p: ColumnPath)
    ensures
        column_path_parts(p) == texts(parts@),
{
    ColumnPath::new(parts)
}

/// Copies a column path with its derived `Clone`.
///
/// Trusted: the copy holds the same parts.
#[verifier::external_body]
fn clone_column_path(p: &ColumnPath) -> (q: ColumnPath)
    ensures
        column_path_parts(q) == column_path_parts(*p),
{
    p.clone()
}

/// A builder with the default settings, from `WriterProperties::builder`.
///
/// Trusted: no default compression is set and no column has a bloom filter.
#[verifier::external_body]
fn new_builder() -> (fresh: WriterPropertiesBuilder)
    ensures
        builder_compression(fresh) == None::<Compression>,
        builder_bloom_ndv(fresh) == no_bloom_filters(),
{
    WriterProperties::builder()
}

/// `WriterPropertiesBuilder::set_compression`.
///
/// Trusted: sets the default compression and leaves the bloom filters.
#[verifier::external_body]
fn builder_set_compression(b: WriterPropertiesBuilder, c: Compression) -> (r:
    WriterPropertiesBuilder)
    ensures
        builder_compression(r) == Some(c),
        builder_bloom_ndv(r) == builder_bloom_ndv(b),
{
    b.set_compression(c)
}

/// `WriterPropertiesBuilder::set_column_bloom_filter_enabled`.
///
/// Trusted: enabling gives the column a filter with the default number of
/// distinct values unless it has one already; disabling removes its filter.
/// The default compression is left as it was.
#[verifier::external_body]
fn builder_set_bloom_enabled(b: WriterPropertiesBuilder, col: ColumnPath, value: bool) -> (r:
    WriterPropertiesBuilder)
    ensures
        builder_compression(r) == builder_compression(b),
        value ==> builder_bloom_ndv(r) == (if builder_bloom_ndv(b).dom().contains(
            column_path_parts(col),
        ) {
            builder_bloom_ndv(b)
        } else {
            builder_bloom_ndv(b).insert(column_path_parts(col), 1000000u64)
        }),
        !value ==> builder_bloom_ndv(r) == builder_bloom_ndv(b).remove(column_path_parts(col)),
{
    b.set_column_bloom_filter_enabled(col, value)
}

/// `WriterPropertiesBuilder::set_column_bloom_filter_ndv`.
///
/// Trusted: the column gets a filter, enabled if it had none, with this
/// number of distinct values; the default compression is left as it was.
#[verifier::external_body]
fn builder_set_bloom_ndv(b: WriterPropertiesBuilder, col: ColumnPath, ndv: u64) -> (r:
    WriterPropertiesBuilder)
    ensures
        builder_compression(r) == builder_compression(b),
        builder_bloom_ndv(r) == builder_bloom_ndv(b).insert(column_path_parts(col), ndv),
{
    b.set_column_bloom_filter_ndv(col, ndv)
}

/// The number of distinct values given for a bloom filter, capped at the
/// row-group size.
pub open spec fn spec_cap_ndv(ndv: u64) -> u64 {
    if ndv < DEFAULT_MAX_ROW_GROUP_SIZE {
        ndv
    } else {
        DEFAULT_MAX_ROW_GROUP_SIZE
    }
}

/// Caps a number of distinct values at the row-group size, since a bloom
/// filter covers one row group.
pub fn cap_ndv(ndv: u64) -> (r: u64)
    ensures
        r == spec_cap_ndv(ndv),
        r <= DEFAULT_MAX_ROW_GROUP_SIZE,
        r <= ndv,
{
    if ndv < DEFAULT_MAX_ROW_GROUP_SIZE {
        ndv
    } else {
        DEFAULT_MAX_ROW_GROUP_SIZE
    }
}

/// The bloom filters after applying one configuration: the column's
/// filter is enabled, and gets the capped number of distinct values when
/// one is given.
pub open spec fn spec_apply_bloom(m: Map<Seq<Seq<char>>, u64>, c: BloomFilterSpec) -> Map<
    Seq<Seq<char>>,
    u64,
> {
    let enabled = if m.dom().contains(c.path) {
        m
    } else {
        m.insert(c.path, DEFAULT_BLOOM_FILTER_NDV)
    };
    match c.n_distinct_values {
        Some(n) => enabled.insert(c.path, spec_cap_ndv(n)),
        None => enabled,
    }
}

/// The bloom filters after applying configurations in order.
pub open spec fn spec_apply_blooms(m: Map<Seq<Seq<char>>, u64>, cs: Seq<BloomFilterSpec>) -> Map<
    Seq<Seq<char>>,
    u64,
>
    decreases cs.len(),
{
    if cs.len() == 0 {
        m
    } else {
        spec_apply_bloom(spec_apply_blooms(m, cs.drop_last()), cs.last())
    }
}

/// The bloom filters that optional configurations give to a fresh builder.
pub open spec fn spec_bloom_settings(bloom_filters: Option<Vec<BloomFilterConfig>>) -> Map<
    Seq<Seq<char>>,
    u64,
> {
    match bloom_filters {
        Some(cs) => spec_apply_blooms(no_bloom_filters(), config_views(cs@)),
        None => no_bloom_filters(),
    }
}

/// Whether some configuration names this column.
pub open spec fn configures(cs: Seq<BloomFilterSpec>, path: Seq<Seq<char>>) -> bool {
    exists|i: int| 0 <= i < cs.len() && #[trigger] cs[i].path == path
}

/// Applying bloom-filter configurations to a fresh builder gives a filter
/// to exactly the configured columns, and no filter counts more distinct
/// values than a row group holds.
pub proof fn law_bloom_settings(cs: Seq<BloomFilterSpec>)
    ensures
        forall|p: Seq<Seq<char>>|
            #[trigger] spec_apply_blooms(no_bloom_filters(), cs).dom().contains(p) <==> configures(
                cs,
                p,
            ),
        forall|p: Seq<Seq<char>>|
            #[trigger] spec_apply_blooms(no_bloom_filters(), cs).dom().contains(p)
                ==> spec_apply_blooms(no_bloom_filters(), cs)[p] <= DEFAULT_MAX_ROW_GROUP_SIZE,
    decreases cs.len(),
{
    if cs.len() > 0 {
        let prefix = cs.drop_last();
        law_bloom_settings(prefix);
        let m = spec_apply_blooms(no_bloom_filters(), prefix);
        assert(spec_apply_blooms(no_bloom_filters(), cs) == spec_apply_bloom(m, cs.last()));
        assert forall|p: Seq<Seq<char>>|
            #[trigger] spec_apply_blooms(no_bloom_filters(), cs).dom().contains(p) <==> configures(
                cs,
                p,
            ) by {
            if configures(prefix, p) {
                let i = choose|i: int| 0 <= i < prefix.len() && #[trigger] prefix[i].path == p;
                assert(cs[i].path == p);
            }
            if configures(cs, p) && p != cs.last().path {
                let i = choose|i: int| 0 <= i < cs.len() && #[trigger] cs[i].path == p;
                assert(prefix[i].path == p);
            }
            if p == cs.last().path {
                assert(cs[cs.len() - 1].path == p);
            }
        }
    }
}

/// Applies one bloom-filter configuration to a builder.
fn apply_bloom_config(b: WriterPropertiesBuilder, cfg: &BloomFilterConfig) -> (r:
    WriterPropertiesBuilder)
    ensures
        builder_compression(r) == builder_compression(b),
        builder_bloom_ndv(r) == spec_apply_bloom(builder_bloom_ndv(b), cfg@),
{
    let col_path = new_column_path(cfg.path.clone());
    let mut builder = builder_set_bloom_enabled(b, clone_column_path(&col_path), true);
    match cfg.n_distinct_values {
        Some(ndv) => {
            let capped = cap_ndv(ndv);
            builder = builder_set_bloom_ndv(builder, clone_column_path(&col_path), capped);
        },
        None => {},
    }
    builder
}

/// A properties builder for the writer: the compression option parsed as
/// [`parse_compression`] does, and a bloom filter for each configured
/// column, applied in order, whose number of distinct values is the capped
/// given one or the default. False-positive probabilities are not applied.
pub fn writer_properties_builder(
    compression: Option<String>,
    bloom_filters: Option<Vec<BloomFilterConfig>>,
) -> (r: Result<WriterPropertiesBuilder, CompressionError>)
    ensures
        match spec_option_codec(compression) {
            Some(c) => r matches Ok(b) && builder_compression(b) == Some(parquet_compression(c))
                && builder_bloom_ndv(b) == spec_bloom_settings(bloom_filters),
            None => r matches Err(e) && compression matches Some(s) && e.option@ == spec_lowercase(
                s@,
            ),
        },
{
    let compression_setting = match parse_compression(compression) {
        Ok(c) => c,
        Err(e) => return Err(e),
    };
    let mut builder = builder_set_compression(new_builder(), compression_setting);
    match bloom_filters {
        None => {},
        Some(configs) => {
            let n = configs.len();
            let mut i: usize = 0;
            proof {
                assert(config_views(configs@).take(0) =~= Seq::<BloomFilterSpec>::empty());
            }
            while i < n
                invariant
                    n == configs@.len(),
                    0 <= i <= n,
                    builder_compression(builder) == Some(compression_setting),
                    builder_bloom_ndv(builder) == spec_apply_blooms(
                        no_bloom_filters(),
                        config_views(configs@).take(i as int),
                    ),
                decreases n - i,
            {
                proof {
                    assert(config_views(configs@).take(i as int + 1).drop_last() =~= config_views(
                        configs@,
                    ).take(i as int));
                }
                builder = apply_bloom_config(builder, &configs[i]);
                i = i + 1;
            }
            proof {
                assert(config_views(configs@).take(n as int) =~= config_views(configs@));
            }
        },
    }
    Ok(builder)
}

} // verus!
