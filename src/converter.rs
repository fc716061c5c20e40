//! Translation of a data source into a typed query. Conversion is fail-fast:
//! the first filter whose value does not suit its operator aborts it.

use vstd::prelude::*;
use crate::decimal::Number;
use crate::schema::{DataSource, Filter, FilterOperator, FilterValue, FilterValueScalar};

verus! {

/// One condition of a query, ready for an execution engine.
#[derive(Debug, Clone, PartialEq)]
pub enum QueryCondition {
    Eq { field: String, value: String },
    Neq { field: String, value: String },
    Gt { field: String, value: Number },
    Gte { field: String, value: Number },
    Lt { field: String, value: Number },
    Lte { field: String, value: Number },
    In { field: String, values: Vec<String> },
    Contains { field: String, value: String },
}

/// A `QueryCondition` with its strings seen as character sequences.
pub enum QueryConditionView {
    Eq { field: Seq<char>, value: Seq<char> },
    Neq { field: Seq<char>, value: Seq<char> },
    Gt { field: Seq<char>, value: Number },
    Gte { field: Seq<char>, value: Number },
    Lt { field: Seq<char>, value: Number },
    Lte { field: Seq<char>, value: Number },
    In { field: Seq<char>, values: Seq<Seq<char>> },
    Contains { field: Seq<char>, value: Seq<char> },
}

/// The views of a sequence of strings.
pub open spec fn string_views(v: Seq<String>) -> Seq<Seq<char>> {
    v.map_values(|s: String| s@)
}

impl View for QueryCondition {
    type V = QueryConditionView;

    open spec fn view(&self) -> QueryConditionView {
        match self {
            QueryCondition::Eq { field, value } => QueryConditionView::Eq {
                field: field@,
                value: value@,
            },
            QueryCondition::Neq { field, value } => QueryConditionView::Neq {
                field: field@,
                value: value@,
            },
            QueryCondition::Gt { field, value } => QueryConditionView::Gt {
                field: field@,
                value: *value,
            },
            QueryCondition::Gte { field, value } => QueryConditionView::Gte {
                field: field@,
                value: *value,
            },
            QueryCondition::Lt { field, value } => QueryConditionView::Lt {
                field: field@,
                value: *value,
            },
            QueryCondition::Lte { field, value } => QueryConditionView::Lte {
                field: field@,
                value: *value,
            },
            QueryCondition::In { field, values } => QueryConditionView::In {
                field: field@,
                values: string_views(values@),
            },
            QueryCondition::Contains { field, value } => QueryConditionView::Contains {
                field: field@,
                value: value@,
            },
        }
    }
}

impl QueryConditionView {
    /// The field the condition tests.
    pub open spec fn field(&self) -> Seq<char> {
        match self {
            QueryConditionView::Eq { field, .. } => *field,
            QueryConditionView::Neq { field, .. } => *field,
            QueryConditionView::Gt { field, .. } => *field,
            QueryConditionView::Gte { field, .. } => *field,
            QueryConditionView::Lt { field, .. } => *field,
            QueryConditionView::Lte { field, .. } => *field,
            QueryConditionView::In { field, .. } => *field,
            QueryConditionView::Contains { field, .. } => *field,
        }
    }
}

impl QueryCondition {
    /// The field the condition tests.
    pub fn field(&self) -> (r: &str)
        ensures
            r@ == self@.field(),
    {
        match self {
            QueryCondition::Eq { field, .. } => field.as_str(),
            QueryCondition::Neq { field, .. } => field.as_str(),
            QueryCondition::Gt { field, .. } => field.as_str(),
            QueryCondition::Gte { field, .. } => field.as_str(),
            QueryCondition::Lt { field, .. } => field.as_str(),
            QueryCondition::Lte { field, .. } => field.as_str(),
            QueryCondition::In { field, .. } => field.as_str(),
            QueryCondition::Contains { field, .. } => field.as_str(),
        }
    }
}

/// The views of a sequence of conditions.
pub open spec fn condition_views(cs: Seq<QueryCondition>) -> Seq<QueryConditionView> {
    cs.map_values(|c: QueryCondition| c@)
}

proof fn lemma_condition_views_push(cs: Seq<QueryCondition>, c: QueryCondition)
    ensures
        condition_views(cs.push(c)) == condition_views(cs).push(c@),
{
    assert(condition_views(cs.push(c)) =~= condition_views(cs).push(c@));
}

/// A converted query: a resource and the conditions on it, in the order they
/// were applied, with an optional row limit.
#[derive(Debug, Clone)]
pub struct ConvertedQuery {
    resource: String,
    conditions: Vec<QueryCondition>,
    limit: Option<usize>,
}

/// The abstract content of a `ConvertedQuery`.
pub struct ConvertedQueryView {
    pub resource: Seq<char>,
    pub conditions: Seq<QueryConditionView>,
    pub limit: Option<usize>,
}

impl View for ConvertedQuery {
    type V = ConvertedQueryView;

    closed spec fn view(&self) -> ConvertedQueryView {
        ConvertedQueryView {
            resource: self.resource@,
            conditions: condition_views(self.conditions@),
            limit: self.limit,
        }
    }
}

impl ConvertedQuery {
    /// A query on `resource` with no condition and no limit.
    pub fn new(resource: String) -> (r: ConvertedQuery)
        ensures
            r@.resource == resource@,
            r@.conditions == Seq::<QueryConditionView>::empty(),
            r@.limit is None,
    {
        let r = ConvertedQuery { resource, conditions: Vec::new(), limit: None };
        assert(r@.conditions =~= Seq::<QueryConditionView>::empty());
        r
    }

    pub fn resource(&self) -> (r: &str)
        ensures
            r@ == self@.resource,
    {
        self.resource.as_str()
    }

    pub fn conditions(&self) -> (r: &[QueryCondition])
        ensures
            condition_views(r@) == self@.conditions,
    {
        self.conditions.as_slice()
    }

    pub fn limit(&self) -> (r: Option<usize>)
        ensures
            r == self@.limit,
    {
        self.limit
    }

    /// Appends `condition` after the present conditions.
    pub fn add_condition(&mut self, condition: QueryCondition)
        ensures
            final(self)@.resource == old(self)@.resource,
            final(self)@.conditions == old(self)@.conditions.push(condition@),
            final(self)@.limit == old(self)@.limit,
    {
        proof {
            lemma_condition_views_push(self.conditions@, condition);
        }
        self.conditions.push(condition);
    }

    pub fn set_limit(&mut self, limit: usize)
        ensures
            final(self)@.resource == old(self)@.resource,
            final(self)@.conditions == old(self)@.conditions,
            final(self)@.limit == Some(limit),
    {
        self.limit = Some(limit);
    }
}

/// A failed conversion or enforcement: a stable machine-readable code and a
/// human-readable message.
#[derive(Debug, Clone, PartialEq)]
pub struct ConversionError {
    code: String,
    message: String,
}

/// The abstract content of a `ConversionError`.
pub struct ConversionErrorView {
    pub code: Seq<char>,
    pub message: Seq<char>,
}

impl View for ConversionError {
    type V = ConversionErrorView;

    closed spec fn view(&self) -> ConversionErrorView {
        ConversionErrorView { code: self.code@, message: self.message@ }
    }
}

impl ConversionError {
    pub fn new(code: &str, message: &str) -> (r: ConversionError)
        ensures
            r@.code == code@,
            r@.message == message@,
    {
        ConversionError { code: String::from_str(code), message: String::from_str(message) }
    }

    pub fn code(&self) -> (r: &str)
        ensures
            r@ == self@.code,
    {
        self.code.as_str()
    }

    pub fn message(&self) -> (r: &str)
        ensures
            r@ == self@.message,
    {
        self.message.as_str()
    }

    /// The error as one line: `[code] message`.
    pub fn describe(&self) -> (r: String)
        ensures
            r@ == "["@ + self@.code + "] "@ + self@.message,
    {
        let mut s = String::from_str("[");
        s.append(self.code.as_str());
        s.append("] ");
        s.append(self.message.as_str());
        s
    }
}

/// The code of a filter whose value does not suit its operator.
pub const INVALID_FILTER_VALUE_TYPE: &'static str = "INVALID_FILTER_VALUE_TYPE";

/// Whether `value` suits `op`: `In` takes an array; the comparisons take a
/// number; `Eq`, `Neq` and `Contains` take any scalar.
pub open spec fn value_fits(op: FilterOperator, value: FilterValue) -> bool {
    match op {
        FilterOperator::In => value is Array,
        FilterOperator::Gt | FilterOperator::Gte | FilterOperator::Lt | FilterOperator::Lte =>
            value is Number,
        _ => !(value is Array),
    }
}

/// The text a scalar value becomes.
pub open spec fn scalar_text(value: FilterValue) -> Seq<char> {
    match value {
        FilterValue::String(s) => s@,
        FilterValue::Number(n) => n.text(),
        FilterValue::Boolean(b) => if b {
            "true"@
        } else {
            "false"@
        },
        FilterValue::Array(_) => Seq::empty(),
    }
}

/// The text an element of an array value becomes.
pub open spec fn element_text(e: FilterValueScalar) -> Seq<char> {
    match e {
        FilterValueScalar::String(s) => s@,
        FilterValueScalar::Number(n) => n.text(),
    }
}

/// The number a numeric value holds.
pub open spec fn number_of(value: FilterValue) -> Number {
    match value {
        FilterValue::Number(n) => n,
        _ => Number { negative: false, magnitude: 0, scale: 0 },
    }
}

/// The texts of the elements of an array value.
pub open spec fn array_texts(value: FilterValue) -> Seq<Seq<char>> {
    match value {
        FilterValue::Array(a) => a@.map_values(|e: FilterValueScalar| element_text(e)),
        _ => Seq::empty(),
    }
}

/// The condition a filter whose value fits its operator becomes.
pub open spec fn condition_of(f: Filter) -> QueryConditionView {
    match f.op {
        FilterOperator::Eq => QueryConditionView::Eq { field: f.field@, value: scalar_text(f.value) },
        FilterOperator::Neq => QueryConditionView::Neq {
            field: f.field@,
            value: scalar_text(f.value),
        },
        FilterOperator::Gt => QueryConditionView::Gt { field: f.field@, value: number_of(f.value) },
        FilterOperator::Gte => QueryConditionView::Gte { field: f.field@, value: number_of(f.value) },
        FilterOperator::Lt => QueryConditionView::Lt { field: f.field@, value: number_of(f.value) },
        FilterOperator::Lte => QueryConditionView::Lte { field: f.field@, value: number_of(f.value) },
        FilterOperator::In => QueryConditionView::In { field: f.field@, values: array_texts(f.value) },
        FilterOperator::Contains => QueryConditionView::Contains {
            field: f.field@,
            value: scalar_text(f.value),
        },
    }
}

/// The message of a filter whose value does not suit `op`.
pub open spec fn misfit_message(op: FilterOperator) -> Seq<char> {
    match op {
        FilterOperator::In => "Expected array value for 'in' operator"@,
        FilterOperator::Gt | FilterOperator::Gte | FilterOperator::Lt | FilterOperator::Lte =>
            "Expected number value"@,
        _ => "Expected scalar value, got array"@,
    }
}

/// The filters of a data source; none when it has no filter list.
pub open spec fn filters_of(ds: DataSource) -> Seq<Filter> {
    match ds.filters {
        Some(fs) => fs@,
        None => Seq::empty(),
    }
}

/// Every filter's value suits its operator.
pub open spec fn all_fit(fs: Seq<Filter>) -> bool {
    forall|i: int| 0 <= i < fs.len() ==> value_fits(#[trigger] fs[i].op, fs[i].value)
}

/// The query a data source whose filters all fit becomes.
pub open spec fn converted(ds: DataSource) -> ConvertedQueryView {
    ConvertedQueryView {
        resource: ds.resource@,
        conditions: filters_of(ds).map_values(|f: Filter| condition_of(f)),
        limit: match ds.limit {
            Some(l) => Some(l as usize),
            None => None,
        },
    }
}

/// Translates data sources into queries.
pub struct DataSourceConverter;

impl DataSourceConverter {
    pub fn new() -> (r: DataSourceConverter) {
        DataSourceConverter
    }

    /// Converts a data source: the resource and limit are copied and each
    /// filter becomes one condition, in order; the first filter whose value
    /// does not suit its operator fails the whole conversion. Aggregation and
    /// sort are accepted but have no counterpart in the query.
    pub fn convert(&self, ds: &DataSource) -> (r: Result<ConvertedQuery, ConversionError>)
        ensures
            r is Ok <==> all_fit(filters_of(*ds)),
            r matches Ok(q) ==> q@ == converted(*ds),
            r matches Err(e) ==> e@.code == INVALID_FILTER_VALUE_TYPE@ && exists|i: int|
                0 <= i < filters_of(*ds).len() && all_fit(filters_of(*ds).subrange(0, i))
                    && !value_fits(filters_of(*ds)[i].op, filters_of(*ds)[i].value)
                    && e@.message == misfit_message(filters_of(*ds)[i].op),
    {
        let mut query = ConvertedQuery::new(ds.resource.clone());
        if let Some(filters) = &ds.filters {
            let mut i: usize = 0;
            while i < filters.len()
                invariant
                    i <= filters@.len(),
                    filters@ == filters_of(*ds),
                    all_fit(filters@.subrange(0, i as int)),
                    query@.resource == ds.resource@,
                    query@.limit is None,
                    query@.conditions == filters@.subrange(0, i as int).map_values(
                        |f: Filter| condition_of(f),
                    ),
                decreases filters@.len() - i,
            {
                let condition = match self.convert_filter(&filters[i]) {
                    Ok(c) => c,
                    Err(e) => {
                        proof {
                            assert(!all_fit(filters@)) by {
                                assert(!value_fits(filters@[i as int].op, filters@[i as int].value));
                            }
                        }
                        return Err(e);
                    },
                };
                query.add_condition(condition);
                proof {
                    let next = filters@.subrange(0, i + 1);
                    assert(next == filters@.subrange(0, i as int).push(filters@[i as int]));
                    assert(query@.conditions =~= next.map_values(|f: Filter| condition_of(f)));
                    assert(all_fit(next)) by {
                        assert forall|k: int| 0 <= k < next.len() implies value_fits(
                            #[trigger] next[k].op,
                            next[k].value,
                        ) by {
                            if k < i {
                                assert(next[k] == filters@.subrange(0, i as int)[k]);
                            }
                        }
                    }
                }
                i = i + 1;
            }
            assert(filters@.subrange(0, filters@.len() as int) == filters@);
        } else {
            assert(query@.conditions =~= filters_of(*ds).map_values(|f: Filter| condition_of(f)));
        }
        if let Some(limit) = ds.limit {
            query.set_limit(limit as usize);
        }
        assert(query@ == converted(*ds));
        Ok(query)
    }

    /// Converts one filter.
    fn convert_filter(&self, filter: &Filter) -> (r: Result<QueryCondition, ConversionError>)
        ensures
            r is Ok <==> value_fits(filter.op, filter.value),
            r matches Ok(c) ==> c@ == condition_of(*filter),
            r matches Err(e) ==> e@.code == INVALID_FILTER_VALUE_TYPE@ && e@.message
                == misfit_message(filter.op),
    {
        match filter.op {
            FilterOperator::Eq => {
                let value = self.extract_string_value(&filter.value)?;
                Ok(QueryCondition::Eq { field: filter.field.clone(), value })
            },
            FilterOperator::Neq => {
                let value = self.extract_string_value(&filter.value)?;
                Ok(QueryCondition::Neq { field: filter.field.clone(), value })
            },
            FilterOperator::Gt => {
                let value = self.extract_number_value(&filter.value)?;
                Ok(QueryCondition::Gt { field: filter.field.clone(), value })
            },
            FilterOperator::Gte => {
                let value = self.extract_number_value(&filter.value)?;
                Ok(QueryCondition::Gte { field: filter.field.clone(), value })
            },
            FilterOperator::Lt => {
                let value = self.extract_number_value(&filter.value)?;
                Ok(QueryCondition::Lt { field: filter.field.clone(), value })
            },
            FilterOperator::Lte => {
                let value = self.extract_number_value(&filter.value)?;
                Ok(QueryCondition::Lte { field: filter.field.clone(), value })
            },
            FilterOperator::In => {
                let values = self.extract_array_values(&filter.value)?;
                Ok(QueryCondition::In { field: filter.field.clone(), values })
            },
            FilterOperator::Contains => {
                let value = self.extract_string_value(&filter.value)?;
                Ok(QueryCondition::Contains { field: filter.field.clone(), value })
            },
        }
    }

    /// The text of a scalar value.
    fn extract_string_value(&self, value: &FilterValue) -> (r: Result<String, ConversionError>)
        ensures
            r is Ok <==> !(value is Array),
            r matches Ok(s) ==> s@ == scalar_text(*value),
            r matches Err(e) ==> e@.code == INVALID_FILTER_VALUE_TYPE@ && e@.message
                == "Expected scalar value, got array"@,
    {
        match value {
            FilterValue::String(s) => Ok(s.clone()),
            FilterValue::Number(n) => Ok(n.to_text()),
            FilterValue::Boolean(b) => {
                if *b {
                    Ok(String::from_str("true"))
                } else {
                    Ok(String::from_str("false"))
                }
            },
            FilterValue::Array(_) => Err(
                ConversionError::new(INVALID_FILTER_VALUE_TYPE, "Expected scalar value, got array"),
            ),
        }
    }

    /// The number of a numeric value.
    fn extract_number_value(&self, value: &FilterValue) -> (r: Result<Number, ConversionError>)
        ensures
            r is Ok <==> value is Number,
            r matches Ok(n) ==> n == number_of(*value),
            r matches Err(e) ==> e@.code == INVALID_FILTER_VALUE_TYPE@ && e@.message
                == "Expected number value"@,
    {
        match value {
            FilterValue::Number(n) => Ok(*n),
            _ => Err(ConversionError::new(INVALID_FILTER_VALUE_TYPE, "Expected number value")),
        }
    }

    /// The texts of the elements of an array value, in order.
    fn extract_array_values(&self, value: &FilterValue) -> (r: Result<Vec<String>, ConversionError>)
        ensures
            r is Ok <==> value is Array,
            r matches Ok(v) ==> string_views(v@) == array_texts(*value),
            r matches Err(e) ==> e@.code == INVALID_FILTER_VALUE_TYPE@ && e@.message
                == "Expected array value for 'in' operator"@,
    {
        match value {
            FilterValue::Array(arr) => {
                let mut result: Vec<String> = Vec::new();
                let mut i: usize = 0;
                while i < arr.len()
                    invariant
                        i <= arr@.len(),
                        string_views(result@) == arr@.subrange(0, i as int).map_values(
                            |e: FilterValueScalar| element_text(e),
                        ),
                    decreases arr@.len() - i,
                {
                    let text = match &arr[i] {
                        FilterValueScalar::String(s) => s.clone(),
                        FilterValueScalar::Number(n) => n.to_text(),
                    };
                    let ghost before = result@;
                    result.push(text);
                    proof {
                        assert(string_views(result@) =~= string_views(before).push(text@));
                        assert(arr@.subrange(0, i + 1) == arr@.subrange(0, i as int).push(arr@[i as int]));
                        assert(string_views(result@) =~= arr@.subrange(0, i + 1).map_values(
                            |e: FilterValueScalar| element_text(e),
                        ));
                    }
                    i = i + 1;
                }
                assert(arr@.subrange(0, arr@.len() as int) == arr@);
                Ok(result)
            },
            _ => Err(
                ConversionError::new(
                    INVALID_FILTER_VALUE_TYPE,
                    "Expected array value for 'in' operator",
                ),
            ),
        }
    }
}

impl Default for DataSourceConverter {
    fn default() -> (r: DataSourceConverter) {
        DataSourceConverter::new()
    }
}

} // verus!
