//! The document model: a layout of components and the named data sources
//! that the components read.

use vstd::prelude::*;
use crate::decimal::Number;

verus! {

/// The protocol version a document declares.
pub type ProtocolVersion = String;

/// A submitted UI description.
#[derive(Debug, Clone)]
pub struct LiquidViewSchema {
    pub version: ProtocolVersion,
    pub layout: Layout,
    pub data_sources: DataSourceMap,
}

/// The top-level arrangement of the components.
#[derive(Debug, Clone)]
pub enum Layout {
    Grid { props: GridLayoutProps, children: Vec<Component> },
    Stack { props: StackLayoutProps, children: Vec<Component> },
}

impl Layout {
    /// The components the layout arranges.
    pub open spec fn spec_children(&self) -> Seq<Component> {
        match self {
            Layout::Grid { children, .. } => children@,
            Layout::Stack { children, .. } => children@,
        }
    }

    /// The components the layout arranges.
    pub fn children(&self) -> (r: &Vec<Component>)
        ensures
            r@ == self.spec_children(),
    {
        match self {
            Layout::Grid { children, .. } => children,
            Layout::Stack { children, .. } => children,
        }
    }
}

#[derive(Debug, Clone, Copy, PartialEq, Eq, Structural)]
pub struct GridLayoutProps {
    /// Number of columns; a valid document has at least one.
    pub columns: u32,
    /// Gap between cells, in pixels.
    pub gap: Option<u32>,
}

#[derive(Debug, Clone, Copy, PartialEq, Eq, Structural)]
pub struct StackLayoutProps {
    pub direction: StackDirection,
    /// Space between items, in pixels.
    pub spacing: Option<u32>,
}

#[derive(Debug, Clone, Copy, PartialEq, Eq, Structural)]
pub enum StackDirection {
    Horizontal,
    Vertical,
}

/// A UI component.
#[derive(Debug, Clone)]
pub enum Component {
    Chart {
        title: Option<String>,
        data_source: Option<String>,
        variant: ChartVariant,
        x_axis: Option<String>,
        y_axis: Option<String>,
    },
    Table {
        title: Option<String>,
        data_source: Option<String>,
        columns: Vec<String>,
        sortable: Option<bool>,
    },
}

impl Component {
    /// The name of the data source the component reads, if any.
    pub open spec fn spec_data_source(&self) -> Option<String> {
        match self {
            Component::Chart { data_source, .. } => *data_source,
            Component::Table { data_source, .. } => *data_source,
        }
    }

    /// The name of the data source the component reads, if any.
    pub fn data_source(&self) -> (r: &Option<String>)
        ensures
            *r == self.spec_data_source(),
    {
        match self {
            Component::Chart { data_source, .. } => data_source,
            Component::Table { data_source, .. } => data_source,
        }
    }
}

#[derive(Debug, Clone, Copy, PartialEq, Eq, Structural)]
pub enum ChartVariant {
    Bar,
    Line,
    Pie,
    Area,
}

/// A declarative description of a queryable resource.
#[derive(Debug, Clone)]
pub struct DataSource {
    /// The entity queried.
    pub resource: String,
    pub filters: Option<Vec<Filter>>,
    pub aggregation: Option<Aggregation>,
    pub sort: Option<Sort>,
    /// Maximum number of rows.
    pub limit: Option<u32>,
}

/// One `field op value` predicate of a data source.
#[derive(Debug, Clone)]
pub struct Filter {
    pub field: String,
    pub op: FilterOperator,
    pub value: FilterValue,
}

/// The value a filter compares with.
#[derive(Debug, Clone)]
pub enum FilterValue {
    String(String),
    Number(Number),
    Boolean(bool),
    Array(Vec<FilterValueScalar>),
}

/// An element of an array filter value.
#[derive(Debug, Clone)]
pub enum FilterValueScalar {
    String(String),
    Number(Number),
}

#[derive(Debug, Clone, Copy, PartialEq, Eq, Structural)]
pub enum FilterOperator {
    Eq,
    Neq,
    Gt,
    Gte,
    Lt,
    Lte,
    In,
    Contains,
}

#[derive(Debug, Clone)]
pub struct Aggregation {
    pub agg_type: AggregationType,
    /// The field aggregated.
    pub field: String,
    /// The field grouped by, if any.
    pub by: Option<String>,
}

#[derive(Debug, Clone, Copy, PartialEq, Eq, Structural)]
pub enum AggregationType {
    Sum,
    Avg,
    Count,
    Min,
    Max,
}

#[derive(Debug, Clone)]
pub struct Sort {
    pub field: String,
    pub direction: SortDirection,
}

#[derive(Debug, Clone, Copy, PartialEq, Eq, Structural)]
pub enum SortDirection {
    Asc,
    Desc,
}

/// The named data sources of a document, in the order they were inserted.
/// Names are unique: inserting a present name replaces its data source.
#[derive(Debug, Clone)]
pub struct DataSourceMap {
    entries: Vec<(String, DataSource)>,
}

/// No name occurs twice among the entries.
pub open spec fn unique_names(entries: Seq<(Seq<char>, DataSource)>) -> bool {
    forall|i: int, j: int|
        0 <= i < entries.len() && 0 <= j < entries.len() && i != j ==> #[trigger] entries[i].0
            != #[trigger] entries[j].0
}

/// Some entry is named `name`.
pub open spec fn has_name(entries: Seq<(Seq<char>, DataSource)>, name: Seq<char>) -> bool {
    exists|i: int| 0 <= i < entries.len() && #[trigger] entries[i].0 == name
}

impl View for DataSourceMap {
    type V = Seq<(Seq<char>, DataSource)>;

    closed spec fn view(&self) -> Seq<(Seq<char>, DataSource)> {
        self.entries@.map_values(|e: (String, DataSource)| (e.0@, e.1))
    }
}

impl DataSourceMap {
    pub open spec fn wf(&self) -> bool {
        unique_names(self@)
    }

    /// An empty map.
    pub fn new() -> (r: DataSourceMap)
        ensures
            r@ == Seq::<(Seq<char>, DataSource)>::empty(),
            r.wf(),
    {
        DataSourceMap { entries: Vec::new() }
    }

    /// The number of entries.
    pub fn len(&self) -> (r: usize)
        ensures
            r == self@.len(),
    {
        self.entries.len()
    }

    /// Whether the map has no entry.
    pub fn is_empty(&self) -> (r: bool)
        ensures
            r == (self@.len() == 0),
    {
        self.entries.len() == 0
    }

    /// The name of the entry at `i`.
    pub fn name_at(&self, i: usize) -> (r: &String)
        requires
            i < self@.len(),
        ensures
            r@ == self@[i as int].0,
    {
        &self.entries[i].0
    }

    /// The data source of the entry at `i`.
    pub fn source_at(&self, i: usize) -> (r: &DataSource)
        requires
            i < self@.len(),
        ensures
            *r == self@[i as int].1,
    {
        &self.entries[i].1
    }

    /// The position of the entry named `name`, if any.
    pub fn position(&self, name: &String) -> (r: Option<usize>)
        ensures
            r is None <==> !has_name(self@, name@),
            r matches Some(i) ==> i < self@.len() && self@[i as int].0 == name@,
    {
        let mut i: usize = 0;
        while i < self.entries.len()
            invariant
                i <= self@.len(),
                forall|k: int| 0 <= k < i ==> #[trigger] self@[k].0 != name@,
            decreases self@.len() - i,
        {
            if self.entries[i].0 == *name {
                assert(self@[i as int].0 == name@);
                return Some(i);
            }
            i = i + 1;
        }
        None
    }

    /// Whether some entry is named `name`.
    pub fn contains_key(&self, name: &String) -> (r: bool)
        ensures
            r == has_name(self@, name@),
    {
        self.position(name).is_some()
    }

    /// The data source named `name`, if any.
    pub fn get(&self, name: &String) -> (r: Option<&DataSource>)
        ensures
            r is None <==> !has_name(self@, name@),
            r matches Some(d) ==> exists|i: int|
                0 <= i < self@.len() && self@[i].0 == name@ && self@[i].1 == *d,
    {
        match self.position(name) {
            Some(i) => Some(&self.entries[i].1),
            None => None,
        }
    }

    /// Gives `name` the data source `source`: replaces it in place where the
    /// name is present, else appends a new entry.
    pub fn insert(&mut self, name: String, source: DataSource)
        requires
            old(self).wf(),
        ensures
            final(self).wf(),
            has_name(old(self)@, name@) ==> exists|i: int|
                0 <= i < old(self)@.len() && old(self)@[i].0 == name@ && final(self)@
                    == old(self)@.update(i, (name@, source)),
            !has_name(old(self)@, name@) ==> final(self)@ == old(self)@.push((name@, source)),
    {
        match self.position(&name) {
            Some(i) => {
                let ghost n = name@;
                self.entries.set(i, (name, source));
                assert(self@ == old(self)@.update(i as int, (n, source)));
            },
            None => {
                let ghost n = name@;
                self.entries.push((name, source));
                assert(self@ == old(self)@.push((n, source)));
            },
        }
    }
}

impl Default for DataSourceMap {
    fn default() -> (r: DataSourceMap)
        ensures
            r@ == Seq::<(Seq<char>, DataSource)>::empty(),
    {
        DataSourceMap::new()
    }
}

} // verus!
