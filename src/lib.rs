//! Validation, query conversion and row-level security for declarative UI
//! documents.

pub mod decimal;
pub mod schema;
pub mod validator;
pub mod converter;
pub mod security;

pub use converter::{ConversionError, ConvertedQuery, DataSourceConverter, QueryCondition};
pub use decimal::Number;
pub use schema::{
    Aggregation, AggregationType, ChartVariant, Component, DataSource, DataSourceMap, Filter,
    FilterOperator, FilterValue, FilterValueScalar, GridLayoutProps, Layout, LiquidViewSchema,
    ProtocolVersion, Sort, SortDirection, StackDirection, StackLayoutProps,
};
pub use security::{CurrentUser, PolicyRule, SecurityEnforcer, SecurityPolicy};
pub use validator::{SchemaValidator, ValidationError, ValidationResult};
