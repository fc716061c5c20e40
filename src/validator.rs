//! Structural and cross-reference validation of a document. Validation is
//! not fail-fast: every violation found is reported, in document order.

use vstd::prelude::*;
use crate::decimal::{nat_text, u64_text};
use crate::schema::{
    has_name, Component, DataSource, DataSourceMap, Filter, FilterOperator, FilterValue, Layout,
    LiquidViewSchema,
};

verus! {

/// A violation found in a document, with the path of the offending field.
#[derive(Debug, Clone, PartialEq)]
pub enum ValidationError {
    UnsupportedVersion(String),
    InvalidLayoutType { path: String },
    InvalidComponentType { path: String },
    DanglingDataSourceRef { data_source: String, path: String },
    MissingResource { path: String },
    InvalidFilterOp { path: String },
    InvalidAggregationType { path: String },
    InvalidGridColumns { value: u32, path: String },
    InvalidChartVariant { path: String },
    EmptyTableColumns { path: String },
    MissingRequiredField { field: String, path: String },
    InvalidType { path: String, message: String },
    InvalidFilterValueType { path: String },
    MissingFilterField { field: String, path: String },
    MissingAggregationField { field: String, path: String },
    InvalidSortDirection { path: String },
    MissingSortField { field: String, path: String },
    InvalidLimit { value: String, path: String },
}

/// A `ValidationError` with its strings seen as character sequences.
pub enum ValidationErrorView {
    UnsupportedVersion(Seq<char>),
    InvalidLayoutType { path: Seq<char> },
    InvalidComponentType { path: Seq<char> },
    DanglingDataSourceRef { data_source: Seq<char>, path: Seq<char> },
    MissingResource { path: Seq<char> },
    InvalidFilterOp { path: Seq<char> },
    InvalidAggregationType { path: Seq<char> },
    InvalidGridColumns { value: u32, path: Seq<char> },
    InvalidChartVariant { path: Seq<char> },
    EmptyTableColumns { path: Seq<char> },
    MissingRequiredField { field: Seq<char>, path: Seq<char> },
    InvalidType { path: Seq<char>, message: Seq<char> },
    InvalidFilterValueType { path: Seq<char> },
    MissingFilterField { field: Seq<char>, path: Seq<char> },
    MissingAggregationField { field: Seq<char>, path: Seq<char> },
    InvalidSortDirection { path: Seq<char> },
    MissingSortField { field: Seq<char>, path: Seq<char> },
    InvalidLimit { value: Seq<char>, path: Seq<char> },
}

impl View for ValidationError {
    type V = ValidationErrorView;

    open spec fn view(&self) -> ValidationErrorView {
        match self {
            ValidationError::UnsupportedVersion(v) => ValidationErrorView::UnsupportedVersion(v@),
            ValidationError::InvalidLayoutType { path } => ValidationErrorView::InvalidLayoutType {
                path: path@,
            },
            ValidationError::InvalidComponentType { path } =>
                ValidationErrorView::InvalidComponentType { path: path@ },
            ValidationError::DanglingDataSourceRef { data_source, path } =>
                ValidationErrorView::DanglingDataSourceRef {
                data_source: data_source@,
                path: path@,
            },
            ValidationError::MissingResource { path } => ValidationErrorView::MissingResource {
                path: path@,
            },
            ValidationError::InvalidFilterOp { path } => ValidationErrorView::InvalidFilterOp {
                path: path@,
            },
            ValidationError::InvalidAggregationType { path } =>
                ValidationErrorView::InvalidAggregationType { path: path@ },
            ValidationError::InvalidGridColumns { value, path } =>
                ValidationErrorView::InvalidGridColumns { value: *value, path: path@ },
            ValidationError::InvalidChartVariant { path } =>
                ValidationErrorView::InvalidChartVariant { path: path@ },
            ValidationError::EmptyTableColumns { path } => ValidationErrorView::EmptyTableColumns {
                path: path@,
            },
            ValidationError::MissingRequiredField { field, path } =>
                ValidationErrorView::MissingRequiredField { field: field@, path: path@ },
            ValidationError::InvalidType { path, message } => ValidationErrorView::InvalidType {
                path: path@,
                message: message@,
            },
            ValidationError::InvalidFilterValueType { path } =>
                ValidationErrorView::InvalidFilterValueType { path: path@ },
            ValidationError::MissingFilterField { field, path } =>
                ValidationErrorView::MissingFilterField { field: field@, path: path@ },
            ValidationError::MissingAggregationField { field, path } =>
                ValidationErrorView::MissingAggregationField { field: field@, path: path@ },
            ValidationError::InvalidSortDirection { path } =>
                ValidationErrorView::InvalidSortDirection { path: path@ },
            ValidationError::MissingSortField { field, path } =>
                ValidationErrorView::MissingSortField { field: field@, path: path@ },
            ValidationError::InvalidLimit { value, path } => ValidationErrorView::InvalidLimit {
                value: value@,
                path: path@,
            },
        }
    }
}

/// The views of a sequence of errors.
pub open spec fn error_views(es: Seq<ValidationError>) -> Seq<ValidationErrorView> {
    es.map_values(|e: ValidationError| e@)
}

proof fn lemma_error_views_push(es: Seq<ValidationError>, e: ValidationError)
    ensures
        error_views(es.push(e)) == error_views(es).push(e@),
{
    assert(error_views(es.push(e)) =~= error_views(es).push(e@));
}

/// The outcome of validating a document.
#[derive(Debug, PartialEq)]
pub struct ValidationResult {
    /// Whether no error was found.
    pub valid: bool,
    /// Every error found, in document order.
    pub errors: Vec<ValidationError>,
}

impl ValidationResult {
    /// A result with no error.
    pub fn ok() -> (r: ValidationResult)
        ensures
            r.valid,
            r.errors@.len() == 0,
    {
        ValidationResult { valid: true, errors: Vec::new() }
    }

    /// A result holding the single error `err`.
    pub fn error(err: ValidationError) -> (r: ValidationResult)
        ensures
            !r.valid,
            r.errors@ == seq![err],
    {
        let mut errors = Vec::new();
        errors.push(err);
        ValidationResult { valid: false, errors }
    }

    /// A result holding `errors`, valid exactly when there is none.
    pub fn errors(errors: Vec<ValidationError>) -> (r: ValidationResult)
        ensures
            r.valid == (errors@.len() == 0),
            r.errors@ == errors@,
    {
        let valid = errors.len() == 0;
        ValidationResult { valid, errors }
    }
}

/// The one protocol version this validator accepts.
pub const SUPPORTED_VERSION: &'static str = "1.0";

/// The errors of the version check.
pub open spec fn version_errors(version: Seq<char>) -> Seq<ValidationErrorView> {
    if version == SUPPORTED_VERSION@ {
        seq![]
    } else {
        seq![ValidationErrorView::UnsupportedVersion(version)]
    }
}

/// The path of the `i`-th child of the layout.
pub open spec fn child_path(i: nat) -> Seq<char> {
    "layout.children["@ + nat_text(i) + "]"@
}

/// The errors of one component found at `path`.
pub open spec fn component_errors(c: Component, path: Seq<char>) -> Seq<ValidationErrorView> {
    match c {
        Component::Table { columns, .. } => if columns@.len() == 0 {
            seq![ValidationErrorView::EmptyTableColumns { path: path + ".columns"@ }]
        } else {
            seq![]
        },
        Component::Chart { .. } => seq![],
    }
}

/// The errors of the first `n` children.
pub open spec fn children_errors(children: Seq<Component>, n: nat) -> Seq<ValidationErrorView>
    decreases n,
{
    if n == 0 {
        seq![]
    } else {
        children_errors(children, (n - 1) as nat) + component_errors(
            children[n - 1],
            child_path((n - 1) as nat),
        )
    }
}

/// The path of the grid's column count.
pub open spec fn columns_path() -> Seq<char> {
    "layout.props.columns"@
}

/// The errors of the layout: a grid needs at least one column, and every
/// child is checked.
pub open spec fn layout_errors(layout: Layout) -> Seq<ValidationErrorView> {
    let grid = match layout {
        Layout::Grid { props, .. } => if props.columns < 1 {
            seq![ValidationErrorView::InvalidGridColumns { value: props.columns, path: columns_path() }]
        } else {
            seq![]
        },
        Layout::Stack { .. } => seq![],
    };
    grid + children_errors(layout.spec_children(), layout.spec_children().len())
}

/// Whether the shape of a filter's value suits its operator: `In` takes an
/// array, every other operator a scalar.
pub open spec fn value_shape_fits(op: FilterOperator, value: FilterValue) -> bool {
    if op == FilterOperator::In {
        value is Array
    } else {
        !(value is Array)
    }
}

/// The path of the `i`-th filter of the data source at `path`.
pub open spec fn filter_path(path: Seq<char>, i: nat) -> Seq<char> {
    path + ".filters["@ + nat_text(i) + "]"@
}

/// The errors of one filter found at `path`.
pub open spec fn filter_errors(f: Filter, path: Seq<char>) -> Seq<ValidationErrorView> {
    if value_shape_fits(f.op, f.value) {
        seq![]
    } else {
        seq![ValidationErrorView::InvalidFilterValueType { path: path + ".value"@ }]
    }
}

/// The errors of the first `n` filters of the data source at `path`.
pub open spec fn filters_errors(filters: Seq<Filter>, n: nat, path: Seq<char>) -> Seq<
    ValidationErrorView,
>
    decreases n,
{
    if n == 0 {
        seq![]
    } else {
        filters_errors(filters, (n - 1) as nat, path) + filter_errors(
            filters[n - 1],
            filter_path(path, (n - 1) as nat),
        )
    }
}

/// The errors of one data source found at `path`.
pub open spec fn data_source_errors(ds: DataSource, path: Seq<char>) -> Seq<ValidationErrorView> {
    match ds.filters {
        Some(fs) => filters_errors(fs@, fs@.len(), path),
        None => seq![],
    }
}

/// The path of the data source named `name`.
pub open spec fn source_path(name: Seq<char>) -> Seq<char> {
    "data_sources."@ + name
}

/// The errors of the first `n` named data sources.
pub open spec fn sources_errors(entries: Seq<(Seq<char>, DataSource)>, n: nat) -> Seq<
    ValidationErrorView,
>
    decreases n,
{
    if n == 0 {
        seq![]
    } else {
        sources_errors(entries, (n - 1) as nat) + data_source_errors(
            entries[n - 1].1,
            source_path(entries[n - 1].0),
        )
    }
}

/// The error, if any, of a child at `i` that names a data source absent
/// from `entries`.
pub open spec fn reference_error(c: Component, i: nat, entries: Seq<(Seq<char>, DataSource)>) -> Seq<
    ValidationErrorView,
> {
    match c.spec_data_source() {
        Some(name) => if has_name(entries, name@) {
            seq![]
        } else {
            seq![
                ValidationErrorView::DanglingDataSourceRef {
                    data_source: name@,
                    path: child_path(i) + ".data_source"@,
                },
            ]
        },
        None => seq![],
    }
}

/// The dangling-reference errors of the first `n` children.
pub open spec fn references_errors(
    children: Seq<Component>,
    n: nat,
    entries: Seq<(Seq<char>, DataSource)>,
) -> Seq<ValidationErrorView>
    decreases n,
{
    if n == 0 {
        seq![]
    } else {
        references_errors(children, (n - 1) as nat, entries) + reference_error(
            children[n - 1],
            (n - 1) as nat,
            entries,
        )
    }
}

/// Every error of a document, in the order they are reported: the version,
/// the layout, the data sources, then the references from the layout's
/// children to the data sources.
pub open spec fn schema_errors(s: LiquidViewSchema) -> Seq<ValidationErrorView> {
    let children = s.layout.spec_children();
    version_errors(s.version@) + layout_errors(s.layout) + sources_errors(
        s.data_sources@,
        s.data_sources@.len(),
    ) + references_errors(children, children.len(), s.data_sources@)
}

/// No error of `es` is an `UnsupportedVersion`.
pub open spec fn no_version_error(es: Seq<ValidationErrorView>) -> bool {
    forall|i: int| 0 <= i < es.len() ==> !(#[trigger] es[i] is UnsupportedVersion)
}

proof fn lemma_no_version_error_concat(a: Seq<ValidationErrorView>, b: Seq<ValidationErrorView>)
    requires
        no_version_error(a),
        no_version_error(b),
    ensures
        no_version_error(a + b),
{
    assert forall|i: int| 0 <= i < (a + b).len() implies !(#[trigger] (a + b)[i] is UnsupportedVersion) by {
        if i >= a.len() {
            assert((a + b)[i] == b[i - a.len()]);
        } else {
            assert((a + b)[i] == a[i]);
        }
    }
}

proof fn lemma_contains_concat(a: Seq<ValidationErrorView>, b: Seq<ValidationErrorView>, e: ValidationErrorView)
    requires
        a.contains(e) || b.contains(e),
    ensures
        (a + b).contains(e),
{
    if a.contains(e) {
        let i = choose|i: int| 0 <= i < a.len() && a[i] == e;
        assert((a + b)[i] == e);
    } else {
        let i = choose|i: int| 0 <= i < b.len() && b[i] == e;
        assert((a + b)[a.len() + i] == e);
    }
}

proof fn lemma_children_no_version_error(children: Seq<Component>, n: nat)
    ensures
        no_version_error(children_errors(children, n)),
    decreases n,
{
    if n > 0 {
        lemma_children_no_version_error(children, (n - 1) as nat);
        lemma_no_version_error_concat(
            children_errors(children, (n - 1) as nat),
            component_errors(children[n - 1], child_path((n - 1) as nat)),
        );
    }
}

proof fn lemma_filters_no_version_error(filters: Seq<Filter>, n: nat, path: Seq<char>)
    ensures
        no_version_error(filters_errors(filters, n, path)),
    decreases n,
{
    if n > 0 {
        lemma_filters_no_version_error(filters, (n - 1) as nat, path);
        lemma_no_version_error_concat(
            filters_errors(filters, (n - 1) as nat, path),
            filter_errors(filters[n - 1], filter_path(path, (n - 1) as nat)),
        );
    }
}

proof fn lemma_sources_no_version_error(entries: Seq<(Seq<char>, DataSource)>, n: nat)
    ensures
        no_version_error(sources_errors(entries, n)),
    decreases n,
{
    if n > 0 {
        lemma_sources_no_version_error(entries, (n - 1) as nat);
        let ds = entries[n - 1].1;
        let path = source_path(entries[n - 1].0);
        match ds.filters {
            Some(fs) => lemma_filters_no_version_error(fs@, fs@.len(), path),
            None => {},
        }
        lemma_no_version_error_concat(
            sources_errors(entries, (n - 1) as nat),
            data_source_errors(ds, path),
        );
    }
}

proof fn lemma_references_no_version_error(
    children: Seq<Component>,
    n: nat,
    entries: Seq<(Seq<char>, DataSource)>,
)
    ensures
        no_version_error(references_errors(children, n, entries)),
    decreases n,
{
    if n > 0 {
        lemma_references_no_version_error(children, (n - 1) as nat, entries);
        lemma_no_version_error_concat(
            references_errors(children, (n - 1) as nat, entries),
            reference_error(children[n - 1], (n - 1) as nat, entries),
        );
    }
}

/// A document whose version is not the supported one gets exactly one
/// `UnsupportedVersion` error: the first error reported, and no other error
/// is of that kind.
pub proof fn lemma_unsupported_version_reported_once(s: LiquidViewSchema)
    requires
        s.version@ != SUPPORTED_VERSION@,
    ensures
        schema_errors(s).len() >= 1,
        schema_errors(s)[0] == ValidationErrorView::UnsupportedVersion(s.version@),
        forall|i: int|
            1 <= i < schema_errors(s).len() ==> !(#[trigger] schema_errors(s)[i] is UnsupportedVersion),
{
    let children = s.layout.spec_children();
    lemma_children_no_version_error(children, children.len());
    assert(no_version_error(layout_errors(s.layout))) by {
        let g = match s.layout {
            Layout::Grid { props, .. } => if props.columns < 1 {
                seq![ValidationErrorView::InvalidGridColumns { value: props.columns, path: columns_path() }]
            } else {
                seq![]
            },
            Layout::Stack { .. } => seq![],
        };
        assert(no_version_error(g));
        lemma_no_version_error_concat(g, children_errors(children, children.len()));
    }
    lemma_sources_no_version_error(s.data_sources@, s.data_sources@.len());
    lemma_references_no_version_error(children, children.len(), s.data_sources@);
    let rest = layout_errors(s.layout) + sources_errors(s.data_sources@, s.data_sources@.len())
        + references_errors(children, children.len(), s.data_sources@);
    lemma_no_version_error_concat(layout_errors(s.layout), sources_errors(s.data_sources@, s.data_sources@.len()));
    lemma_no_version_error_concat(
        layout_errors(s.layout) + sources_errors(s.data_sources@, s.data_sources@.len()),
        references_errors(children, children.len(), s.data_sources@),
    );
    let v = version_errors(s.version@);
    assert(schema_errors(s) == v + rest);
    assert forall|i: int| 1 <= i < schema_errors(s).len() implies !(
    #[trigger] schema_errors(s)[i] is UnsupportedVersion) by {
        assert(schema_errors(s)[i] == rest[i - 1]);
    }
}

/// A grid layout with no column gets an `InvalidGridColumns` error for the
/// value 0 at `layout.props.columns`.
pub proof fn lemma_zero_grid_columns_reported(s: LiquidViewSchema)
    requires
        s.layout matches Layout::Grid { props, .. } && props.columns == 0,
    ensures
        schema_errors(s).contains(
            ValidationErrorView::InvalidGridColumns { value: 0, path: columns_path() },
        ),
{
    let children = s.layout.spec_children();
    let e = ValidationErrorView::InvalidGridColumns { value: 0, path: columns_path() };
    assert(layout_errors(s.layout)[0] == e);
    assert(layout_errors(s.layout).contains(e));
    lemma_contains_concat(version_errors(s.version@), layout_errors(s.layout), e);
    lemma_contains_concat(
        version_errors(s.version@) + layout_errors(s.layout),
        sources_errors(s.data_sources@, s.data_sources@.len()),
        e,
    );
    lemma_contains_concat(
        version_errors(s.version@) + layout_errors(s.layout) + sources_errors(
            s.data_sources@,
            s.data_sources@.len(),
        ),
        references_errors(children, children.len(), s.data_sources@),
        e,
    );
}

proof fn lemma_children_errors_include(children: Seq<Component>, n: nat, i: nat, e: ValidationErrorView)
    requires
        i < n,
        component_errors(children[i as int], child_path(i)).contains(e),
    ensures
        children_errors(children, n).contains(e),
    decreases n,
{
    if i < n - 1 {
        lemma_children_errors_include(children, (n - 1) as nat, i, e);
    }
    lemma_contains_concat(
        children_errors(children, (n - 1) as nat),
        component_errors(children[n - 1], child_path((n - 1) as nat)),
        e,
    );
}

proof fn lemma_references_errors_include(
    children: Seq<Component>,
    n: nat,
    entries: Seq<(Seq<char>, DataSource)>,
    i: nat,
    e: ValidationErrorView,
)
    requires
        i < n,
        reference_error(children[i as int], i, entries).contains(e),
    ensures
        references_errors(children, n, entries).contains(e),
    decreases n,
{
    if i < n - 1 {
        lemma_references_errors_include(children, (n - 1) as nat, entries, i, e);
    }
    lemma_contains_concat(
        references_errors(children, (n - 1) as nat, entries),
        reference_error(children[n - 1], (n - 1) as nat, entries),
        e,
    );
}

/// A table with no column, at position `i` of the layout, gets an
/// `EmptyTableColumns` error at `layout.children[i].columns`.
pub proof fn lemma_empty_table_columns_reported(s: LiquidViewSchema, i: int)
    requires
        0 <= i < s.layout.spec_children().len(),
        s.layout.spec_children()[i] matches Component::Table { columns, .. } && columns@.len() == 0,
    ensures
        schema_errors(s).contains(
            ValidationErrorView::EmptyTableColumns { path: child_path(i as nat) + ".columns"@ },
        ),
{
    let children = s.layout.spec_children();
    let e = ValidationErrorView::EmptyTableColumns { path: child_path(i as nat) + ".columns"@ };
    assert(component_errors(children[i], child_path(i as nat))[0] == e);
    lemma_children_errors_include(children, children.len(), i as nat, e);
    let g = match s.layout {
        Layout::Grid { props, .. } => if props.columns < 1 {
            seq![ValidationErrorView::InvalidGridColumns { value: props.columns, path: columns_path() }]
        } else {
            seq![]
        },
        Layout::Stack { .. } => seq![],
    };
    lemma_contains_concat(g, children_errors(children, children.len()), e);
    lemma_contains_concat(version_errors(s.version@), layout_errors(s.layout), e);
    lemma_contains_concat(
        version_errors(s.version@) + layout_errors(s.layout),
        sources_errors(s.data_sources@, s.data_sources@.len()),
        e,
    );
    lemma_contains_concat(
        version_errors(s.version@) + layout_errors(s.layout) + sources_errors(
            s.data_sources@,
            s.data_sources@.len(),
        ),
        references_errors(children, children.len(), s.data_sources@),
        e,
    );
}

/// A component at position `i` of the layout that names a data source the
/// document does not define gets a `DanglingDataSourceRef` error with that
/// name at `layout.children[i].data_source`.
pub proof fn lemma_dangling_reference_reported(s: LiquidViewSchema, i: int)
    requires
        0 <= i < s.layout.spec_children().len(),
        s.layout.spec_children()[i].spec_data_source() matches Some(name) && !has_name(
            s.data_sources@,
            name@,
        ),
    ensures
        schema_errors(s).contains(
            ValidationErrorView::DanglingDataSourceRef {
                data_source: s.layout.spec_children()[i].spec_data_source()->0@,
                path: child_path(i as nat) + ".data_source"@,
            },
        ),
{
    let children = s.layout.spec_children();
    let e = ValidationErrorView::DanglingDataSourceRef {
        data_source: children[i].spec_data_source()->0@,
        path: child_path(i as nat) + ".data_source"@,
    };
    assert(reference_error(children[i], i as nat, s.data_sources@)[0] == e);
    lemma_references_errors_include(children, children.len(), s.data_sources@, i as nat, e);
    lemma_contains_concat(
        version_errors(s.version@) + layout_errors(s.layout) + sources_errors(
            s.data_sources@,
            s.data_sources@.len(),
        ),
        references_errors(children, children.len(), s.data_sources@),
        e,
    );
}

/// `prefix` followed by the decimal text of `i` and by `suffix`.
fn indexed(prefix: &str, i: usize, suffix: &str) -> (r: String)
    ensures
        r@ == prefix@ + nat_text(i as nat) + suffix@,
{
    let mut s = String::from_str(prefix);
    let t = u64_text(i as u64);
    s.append(t.as_str());
    s.append(suffix);
    s
}

/// `a` followed by `b`.
fn joined(a: &str, b: &str) -> (r: String)
    ensures
        r@ == a@ + b@,
{
    let mut s = String::from_str(a);
    s.append(b);
    s
}

/// The human-readable message of an error.
pub open spec fn message_of(e: ValidationErrorView) -> Seq<char> {
    match e {
        ValidationErrorView::UnsupportedVersion(v) => "Unsupported protocol version: "@ + v
            + ". Supported versions: 1.0"@,
        ValidationErrorView::InvalidLayoutType { path } => "Invalid layout type at "@ + path,
        ValidationErrorView::InvalidComponentType { path } => "Invalid component type at "@ + path,
        ValidationErrorView::DanglingDataSourceRef { data_source, path } =>
            "Component references non-existent data_source: "@ + data_source + " at "@ + path,
        ValidationErrorView::MissingResource { path } => "DataSource must have a resource field at "@
            + path,
        ValidationErrorView::InvalidFilterOp { path } => "Invalid filter operator at "@ + path,
        ValidationErrorView::InvalidAggregationType { path } => "Invalid aggregation type at "@
            + path,
        ValidationErrorView::InvalidGridColumns { value, path } =>
            "Grid columns must be >= 1, got: "@ + nat_text(value as nat) + " at "@ + path,
        ValidationErrorView::InvalidChartVariant { path } => "Invalid chart variant at "@ + path,
        ValidationErrorView::EmptyTableColumns { path } => "Table columns array cannot be empty at "@
            + path,
        ValidationErrorView::MissingRequiredField { field, path } => "Missing required field: "@
            + field + " at "@ + path,
        ValidationErrorView::InvalidType { path, message } => "Invalid type at "@ + path + ": "@
            + message,
        ValidationErrorView::InvalidFilterValueType { path } =>
            "Filter operator 'in' requires an array value at "@ + path,
        ValidationErrorView::MissingFilterField { field, path } => "Filter must have a "@ + field
            + " property at "@ + path,
        ValidationErrorView::MissingAggregationField { field, path } => "Aggregation must have a "@
            + field + " field at "@ + path,
        ValidationErrorView::InvalidSortDirection { path } => "Invalid sort direction at "@ + path
            + ". Valid values: asc, desc"@,
        ValidationErrorView::MissingSortField { field, path } => "Sort must have a "@ + field
            + " property at "@ + path,
        ValidationErrorView::InvalidLimit { value, path } => "Limit must be a positive integer, got: "@
            + value + " at "@ + path,
    }
}

/// `a` followed by `x` and by `b`.
fn text3(a: &str, x: &str, b: &str) -> (r: String)
    ensures
        r@ == a@ + x@ + b@,
{
    let mut s = String::from_str(a);
    s.append(x);
    s.append(b);
    s
}

/// `a`, `x`, `b` and `y`, in that order.
fn text4(a: &str, x: &str, b: &str, y: &str) -> (r: String)
    ensures
        r@ == a@ + x@ + b@ + y@,
{
    let mut s = text3(a, x, b);
    s.append(y);
    s
}

impl ValidationError {
    /// The human-readable message of the error (see `message_of`).
    pub fn describe(&self) -> (r: String)
        ensures
            r@ == message_of(self@),
    {
        match self {
            ValidationError::UnsupportedVersion(v) => text3(
                "Unsupported protocol version: ",
                v.as_str(),
                ". Supported versions: 1.0",
            ),
            ValidationError::InvalidLayoutType { path } => joined("Invalid layout type at ", path.as_str()),
            ValidationError::InvalidComponentType { path } => joined(
                "Invalid component type at ",
                path.as_str(),
            ),
            ValidationError::DanglingDataSourceRef { data_source, path } => text4(
                "Component references non-existent data_source: ",
                data_source.as_str(),
                " at ",
                path.as_str(),
            ),
            ValidationError::MissingResource { path } => joined(
                "DataSource must have a resource field at ",
                path.as_str(),
            ),
            ValidationError::InvalidFilterOp { path } => joined("Invalid filter operator at ", path.as_str()),
            ValidationError::InvalidAggregationType { path } => joined(
                "Invalid aggregation type at ",
                path.as_str(),
            ),
            ValidationError::InvalidGridColumns { value, path } => {
                let v = u64_text(*value as u64);
                text4("Grid columns must be >= 1, got: ", v.as_str(), " at ", path.as_str())
            },
            ValidationError::InvalidChartVariant { path } => joined("Invalid chart variant at ", path.as_str()),
            ValidationError::EmptyTableColumns { path } => joined(
                "Table columns array cannot be empty at ",
                path.as_str(),
            ),
            ValidationError::MissingRequiredField { field, path } => text4(
                "Missing required field: ",
                field.as_str(),
                " at ",
                path.as_str(),
            ),
            ValidationError::InvalidType { path, message } => text4(
                "Invalid type at ",
                path.as_str(),
                ": ",
                message.as_str(),
            ),
            ValidationError::InvalidFilterValueType { path } => joined(
                "Filter operator 'in' requires an array value at ",
                path.as_str(),
            ),
            ValidationError::MissingFilterField { field, path } => text4(
                "Filter must have a ",
                field.as_str(),
                " property at ",
                path.as_str(),
            ),
            ValidationError::MissingAggregationField { field, path } => text4(
                "Aggregation must have a ",
                field.as_str(),
                " field at ",
                path.as_str(),
            ),
            ValidationError::InvalidSortDirection { path } => text3(
                "Invalid sort direction at ",
                path.as_str(),
                ". Valid values: asc, desc",
            ),
            ValidationError::MissingSortField { field, path } => text4(
                "Sort must have a ",
                field.as_str(),
                " property at ",
                path.as_str(),
            ),
            ValidationError::InvalidLimit { value, path } => text4(
                "Limit must be a positive integer, got: ",
                value.as_str(),
                " at ",
                path.as_str(),
            ),
        }
    }
}

/// Checks documents against the protocol's structural and reference rules.
pub struct SchemaValidator;

impl SchemaValidator {
    pub fn new() -> (r: SchemaValidator) {
        SchemaValidator
    }

    /// Validates a document, reporting every error found.
    pub fn validate(&self, schema: &LiquidViewSchema) -> (r: ValidationResult)
        ensures
            error_views(r.errors@) == schema_errors(*schema),
            r.valid == (r.errors@.len() == 0),
    {
        let mut errors: Vec<ValidationError> = Vec::new();
        let supported = String::from_str(SUPPORTED_VERSION);
        if schema.version != supported {
            let e = ValidationError::UnsupportedVersion(schema.version.clone());
            proof {
                lemma_error_views_push(errors@, e);
            }
            errors.push(e);
        }
        assert(error_views(errors@) == version_errors(schema.version@));
        self.validate_layout(&schema.layout, &mut errors);
        self.validate_data_sources(&schema.data_sources, &mut errors);
        self.validate_data_source_references(&schema.layout, &schema.data_sources, &mut errors);
        ValidationResult::errors(errors)
    }

    fn validate_layout(&self, layout: &Layout, errors: &mut Vec<ValidationError>)
        ensures
            error_views(final(errors)@) == error_views(old(errors)@) + layout_errors(*layout),
    {
        match layout {
            Layout::Grid { props, .. } => {
                if props.columns < 1 {
                    let e = ValidationError::InvalidGridColumns {
                        value: props.columns,
                        path: String::from_str("layout.props.columns"),
                    };
                    proof {
                        lemma_error_views_push(errors@, e);
                    }
                    errors.push(e);
                }
            },
            Layout::Stack { .. } => {},
        }
        let ghost after_grid = error_views(errors@);
        let children = layout.children();
        let mut i: usize = 0;
        while i < children.len()
            invariant
                i <= children@.len(),
                children@ == layout.spec_children(),
                error_views(errors@) == after_grid + children_errors(children@, i as nat),
            decreases children@.len() - i,
        {
            let path = indexed("layout.children[", i, "]");
            self.validate_component(&children[i], errors, &path);
            i = i + 1;
        }
    }

    fn validate_component(&self, component: &Component, errors: &mut Vec<ValidationError>, path: &String)
        ensures
            error_views(final(errors)@) == error_views(old(errors)@) + component_errors(
                *component,
                path@,
            ),
    {
        match component {
            Component::Chart { .. } => {},
            Component::Table { columns, .. } => {
                if columns.len() == 0 {
                    let e = ValidationError::EmptyTableColumns { path: joined(path.as_str(), ".columns") };
                    proof {
                        lemma_error_views_push(errors@, e);
                    }
                    errors.push(e);
                }
            },
        }
    }

    fn validate_data_sources(&self, data_sources: &DataSourceMap, errors: &mut Vec<ValidationError>)
        ensures
            error_views(final(errors)@) == error_views(old(errors)@) + sources_errors(
                data_sources@,
                data_sources@.len(),
            ),
    {
        let mut i: usize = 0;
        while i < data_sources.len()
            invariant
                i <= data_sources@.len(),
                error_views(errors@) == error_views(old(errors)@) + sources_errors(
                    data_sources@,
                    i as nat,
                ),
            decreases data_sources@.len() - i,
        {
            let path = joined("data_sources.", data_sources.name_at(i).as_str());
            self.validate_data_source(data_sources.source_at(i), errors, &path);
            i = i + 1;
        }
    }

    fn validate_data_source(&self, ds: &DataSource, errors: &mut Vec<ValidationError>, path: &String)
        ensures
            error_views(final(errors)@) == error_views(old(errors)@) + data_source_errors(
                *ds,
                path@,
            ),
    {
        if let Some(filters) = &ds.filters {
            let mut i: usize = 0;
            while i < filters.len()
                invariant
                    i <= filters@.len(),
                    ds.filters == Some(*filters),
                    error_views(errors@) == error_views(old(errors)@) + filters_errors(
                        filters@,
                        i as nat,
                        path@,
                    ),
                decreases filters@.len() - i,
            {
                let prefix = joined(path.as_str(), ".filters[");
                let fpath = indexed(prefix.as_str(), i, "]");
                let ghost before = error_views(errors@);
                self.validate_filter(&filters[i], errors, &fpath);
                assert(filters_errors(filters@, (i + 1) as nat, path@) == filters_errors(
                    filters@,
                    i as nat,
                    path@,
                ) + filter_errors(filters@[i as int], filter_path(path@, i as nat)));
                assert(error_views(errors@) == before + filter_errors(filters@[i as int], fpath@));
                i = i + 1;
            }
        }
    }

    fn validate_filter(&self, filter: &Filter, errors: &mut Vec<ValidationError>, path: &String)
        ensures
            error_views(final(errors)@) == error_views(old(errors)@) + filter_errors(*filter, path@),
    {
        let is_array = match &filter.value {
            FilterValue::Array(_) => true,
            _ => false,
        };
        let fits = match filter.op {
            FilterOperator::In => is_array,
            _ => !is_array,
        };
        if !fits {
            let e = ValidationError::InvalidFilterValueType { path: joined(path.as_str(), ".value") };
            proof {
                lemma_error_views_push(errors@, e);
            }
            errors.push(e);
        }
    }

    fn validate_data_source_references(
        &self,
        layout: &Layout,
        data_sources: &DataSourceMap,
        errors: &mut Vec<ValidationError>,
    )
        ensures
            error_views(final(errors)@) == error_views(old(errors)@) + references_errors(
                layout.spec_children(),
                layout.spec_children().len(),
                data_sources@,
            ),
    {
        let children = layout.children();
        let mut i: usize = 0;
        while i < children.len()
            invariant
                i <= children@.len(),
                children@ == layout.spec_children(),
                error_views(errors@) == error_views(old(errors)@) + references_errors(
                    children@,
                    i as nat,
                    data_sources@,
                ),
            decreases children@.len() - i,
        {
            let ghost before = error_views(errors@);
            proof {
                assert(references_errors(children@, (i + 1) as nat, data_sources@) == references_errors(
                    children@,
                    i as nat,
                    data_sources@,
                ) + reference_error(children@[i as int], i as nat, data_sources@));
            }
            if let Some(name) = children[i].data_source() {
                if !data_sources.contains_key(name) {
                    let child = indexed("layout.children[", i, "]");
                    let e = ValidationError::DanglingDataSourceRef {
                        data_source: name.clone(),
                        path: joined(child.as_str(), ".data_source"),
                    };
                    proof {
                        lemma_error_views_push(errors@, e);
                    }
                    errors.push(e);
                    assert(error_views(errors@) == before + reference_error(
                        children@[i as int],
                        i as nat,
                        data_sources@,
                    ));
                } else {
                    assert(error_views(errors@) == before + reference_error(
                        children@[i as int],
                        i as nat,
                        data_sources@,
                    ));
                }
            } else {
                assert(error_views(errors@) == before + reference_error(
                    children@[i as int],
                    i as nat,
                    data_sources@,
                ));
            }
            i = i + 1;
        }
    }
}

impl Default for SchemaValidator {
    fn default() -> (r: SchemaValidator) {
        SchemaValidator::new()
    }
}

} // verus!
