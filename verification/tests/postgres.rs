use graph_gateway::postgres::{ColumnType, DatabaseType, EnumId, EnumWalker, Operation, PostgresResolver, ScalarType};

#[test]
fn scalar_types_by_their_object_identifier() {
    assert_eq!(ScalarType::from(16), ScalarType::Bool);
    assert_eq!(ScalarType::from(17), ScalarType::Bytea);
    assert_eq!(ScalarType::from(23), ScalarType::Int4);
    assert_eq!(ScalarType::from(25), ScalarType::Text);
    assert_eq!(ScalarType::from(114), ScalarType::Json);
    assert_eq!(ScalarType::from(1001), ScalarType::ByteaArray);
    assert_eq!(ScalarType::from(2950), ScalarType::Uuid);
    assert_eq!(ScalarType::from(3802), ScalarType::Jsonb);
    assert_eq!(ScalarType::from(4989), ScalarType::Regnamespace);
    assert_eq!(ScalarType::from(4090), ScalarType::RegnamespaceArray);
    assert_eq!(ScalarType::from(6157), ScalarType::Int8multiRangeArray);
    assert_eq!(ScalarType::from(0), ScalarType::Other(0));
    assert_eq!(ScalarType::from(31), ScalarType::Other(31));
    assert_eq!(ScalarType::from(4089), ScalarType::Other(4089));
    assert_eq!(ScalarType::from_oid(u32::MAX), ScalarType::Other(u32::MAX));
    let converted: ScalarType = 1184u32.into();
    assert_eq!(converted, ScalarType::Timestamptz);
}

#[test]
fn scalar_types_have_their_client_types() {
    assert_eq!(ScalarType::Text.client_type(), Some("String"));
    assert_eq!(ScalarType::Varchar.client_type(), Some("String"));
    assert_eq!(ScalarType::TextArray.client_type(), Some("[String]"));
    assert_eq!(ScalarType::Int8.client_type(), Some("BigInt"));
    assert_eq!(ScalarType::Oid.client_type(), Some("UnsignedBigInt"));
    assert_eq!(ScalarType::Int2.client_type(), Some("Int"));
    assert_eq!(ScalarType::Jsonb.client_type(), Some("JSON"));
    assert_eq!(ScalarType::JsonArray.client_type(), Some("[JSON]"));
    assert_eq!(ScalarType::Numeric.client_type(), Some("Decimal"));
    assert_eq!(ScalarType::MoneyArray.client_type(), Some("[Decimal]"));
    assert_eq!(ScalarType::Int4Array.client_type(), Some("[Int]"));
    assert_eq!(ScalarType::Float8Array.client_type(), Some("[Float]"));
    assert_eq!(ScalarType::Timetz.client_type(), Some("Time"));
    assert_eq!(ScalarType::Int8Array.client_type(), Some("[BigInt]"));
    assert_eq!(ScalarType::OidArray.client_type(), Some("[UnsignedBigInt]"));
    assert_eq!(ScalarType::Float4.client_type(), Some("Float"));
    assert_eq!(ScalarType::TimeArray.client_type(), Some("[Time]"));
    assert_eq!(ScalarType::Bool.client_type(), Some("Boolean"));
    assert_eq!(ScalarType::Bytea.client_type(), Some("Bytes"));
    assert_eq!(ScalarType::Inet.client_type(), Some("IPAddress"));
    assert_eq!(ScalarType::BoolArray.client_type(), Some("[Boolean]"));
    assert_eq!(ScalarType::ByteaArray.client_type(), Some("[Bytes]"));
    assert_eq!(ScalarType::InetArray.client_type(), Some("[IPAddress]"));
    assert_eq!(ScalarType::Date.client_type(), Some("Date"));
    assert_eq!(ScalarType::Timestamp.client_type(), Some("NaiveDateTime"));
    assert_eq!(ScalarType::TimestampArray.client_type(), Some("[NaiveDateTime]"));
    assert_eq!(ScalarType::DateArray.client_type(), Some("[Date]"));
    assert_eq!(ScalarType::Timestamptz.client_type(), Some("DateTime"));
    assert_eq!(ScalarType::TimestamptzArray.client_type(), Some("[DateTime]"));
    assert_eq!(ScalarType::Uuid.client_type(), Some("Uuid"));
    assert_eq!(ScalarType::UuidArray.client_type(), Some("[Uuid]"));
    assert_eq!(ScalarType::Point.client_type(), None);
    assert_eq!(ScalarType::Other(7).client_type(), None);
}

#[test]
fn database_types_know_their_kind() {
    let an_enum = DatabaseType::Enum(EnumWalker { id: EnumId { index: 1 } });
    assert!(an_enum.is_enum());
    assert!(!an_enum.is_binary());
    assert!(!DatabaseType::Scalar(ScalarType::Text).is_enum());
    assert!(DatabaseType::Scalar(ScalarType::Bytea).is_binary());
    assert!(DatabaseType::Scalar(ScalarType::ByteaArray).is_binary());
    assert!(!DatabaseType::Scalar(ScalarType::Text).is_binary());
    assert_ne!(ColumnType::Scalar(ScalarType::Text), ColumnType::Enum(EnumId { index: 0 }));
}

#[test]
fn resolvers_of_a_database() {
    let resolver = PostgresResolver::new(Operation::FindMany, "pg");
    assert_eq!(resolver.operation, Operation::FindMany);
    assert_eq!(resolver.directive_name, "pg");
    assert_eq!(Operation::FindOne.as_ref(), "findOne");
    assert_eq!(Operation::FindMany.as_ref(), "findMany");
}
