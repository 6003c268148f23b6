//! The types of a PostgreSQL database, as the engine reads them from the
//! catalog, and the GraphQL types that stand for them.

use vstd::prelude::*;

verus! {

/// The handle of an enum of a database.
#[derive(Clone, Copy, Debug, PartialEq, Eq, Structural)]
pub struct EnumId {
    pub index: u32,
}

/// Reads an enum of a database.
#[derive(Clone, Copy, Debug, PartialEq, Eq, Structural)]
pub struct EnumWalker {
    pub id: EnumId,
}

/// The type of a value of a database.
#[derive(Clone, Copy, Debug, PartialEq, Eq, Structural)]
pub enum DatabaseType {
    Scalar(ScalarType),
    Enum(EnumWalker),
}

impl DatabaseType {
    pub fn is_enum(self) -> (r: bool)
        ensures
            r == (self is Enum),
    {
        match self {
            DatabaseType::Enum(_) => true,
            _ => false,
        }
    }

    /// Whether the values are binary data: `bytea` or an array of it.
    pub fn is_binary(&self) -> (r: bool)
        ensures
            r == (*self == DatabaseType::Scalar(ScalarType::Bytea) || *self == DatabaseType::Scalar(ScalarType::ByteaArray)),
    {
        match self {
            DatabaseType::Scalar(ScalarType::Bytea) => true,
            DatabaseType::Scalar(ScalarType::ByteaArray) => true,
            _ => false,
        }
    }
}

/// The type of a column.
#[derive(Debug, Clone, Copy, PartialEq, Eq, Structural)]
pub enum ColumnType {
    Scalar(ScalarType),
    Enum(EnumId),
}

/// A scalar type of the database, by its place in the catalog.
#[derive(Debug, Clone, Copy, PartialEq, Eq, Structural)]
pub enum ScalarType {
    Bool,
    Bytea,
    Char,
    Name,
    Int8,
    Int2,
    Int2Vector,
    Int4,
    Regproc,
    Text,
    Oid,
    Tid,
    Xid,
    Cid,
    OidVector,
    PgDdlCommand,
    Json,
    Xml,
    XmlArray,
    PgNodeTree,
    JsonArray,
    TableAmHandler,
    Xid8Array,
    IndexAmHandler,
    Point,
    Lseg,
    Path,
    Box,
    Polygon,
    Line,
    LineArray,
    Cidr,
    CidrArray,
    Float4,
    Float8,
    Unknown,
    Circle,
    CircleArray,
    Macaddr8,
    Macaddr8Array,
    Money,
    MoneyArray,
    Macaddr,
    Inet,
    BoolArray,
    ByteaArray,
    CharArray,
    NameArray,
    Int2Array,
    Int2VectorArray,
    Int4Array,
    RegprocArray,
    TextArray,
    TidArray,
    XidArray,
    CidArray,
    OidVectorArray,
    BpcharArray,
    VarcharArray,
    Int8Array,
    PointArray,
    LsegArray,
    PathArray,
    BoxArray,
    Float4Array,
    Float8Array,
    PolygonArray,
    OidArray,
    Aclitem,
    AclitemArray,
    MacaddrArray,
    InetArray,
    Bpchar,
    Varchar,
    Date,
    Time,
    Timestamp,
    TimestampArray,
    DateArray,
    TimeArray,
    Timestamptz,
    TimestamptzArray,
    Interval,
    IntervalArray,
    NumericArray,
    CstringArray,
    Timetz,
    TimetzArray,
    Bit,
    BitArray,
    Varbit,
    VarbitArray,
    Numeric,
    Refcursor,
    RefcursorArray,
    Regprocedure,
    Regoper,
    Regoperator,
    Regclass,
    Regtype,
    RegprocedureArray,
    RegoperArray,
    RegoperatorArray,
    RegclassArray,
    RegtypeArray,
    Record,
    Cstring,
    Any,
    Anyarray,
    Void,
    Trigger,
    LanguageHandler,
    Internal,
    Anyelement,
    RecordArray,
    Anynonarray,
    TxidSnapshotArray,
    Uuid,
    UuidArray,
    TxidSnapshot,
    FdwHandler,
    PgLsn,
    PgLsnArray,
    TsmHandler,
    PgNdistinct,
    PgDependencies,
    Anyenum,
    TsVector,
    Tsquery,
    GtsVector,
    TsVectorArray,
    GtsVectorArray,
    TsqueryArray,
    Regconfig,
    RegconfigArray,
    Regdictionary,
    RegdictionaryArray,
    Jsonb,
    JsonbArray,
    AnyRange,
    EventTrigger,
    Int4Range,
    Int4RangeArray,
    NumRange,
    NumRangeArray,
    TsRange,
    TsRangeArray,
    TstzRange,
    TstzRangeArray,
    DateRange,
    DateRangeArray,
    Int8Range,
    Int8RangeArray,
    Jsonpath,
    JsonpathArray,
    Regnamespace,
    RegnamespaceArray,
    Regrole,
    RegroleArray,
    Regcollation,
    RegcollationArray,
    Int4multiRange,
    NummultiRange,
    TsmultiRange,
    TstzmultiRange,
    DatemultiRange,
    Int8multiRange,
    AnymultiRange,
    AnycompatiblemultiRange,
    PgBrinBloomSummary,
    PgBrinMinmaxMultiSummary,
    PgMcvList,
    PgSnapshot,
    PgSnapshotArray,
    Xid8,
    Anycompatible,
    Anycompatiblearray,
    Anycompatiblenonarray,
    AnycompatibleRange,
    Int4multiRangeArray,
    NummultiRangeArray,
    TsmultiRangeArray,
    TstzmultiRangeArray,
    DatemultiRangeArray,
    Int8multiRangeArray,
    /// A type that the engine has no name for, by its object identifier.
    Other(u32),
}

/// The object identifier under which the catalog lists a scalar type.
pub open spec fn oid_of(ty: ScalarType) -> u32 {
    match ty {
        ScalarType::Bool => 16,
        ScalarType::Bytea => 17,
        ScalarType::Char => 18,
        ScalarType::Name => 19,
        ScalarType::Int8 => 20,
        ScalarType::Int2 => 21,
        ScalarType::Int2Vector => 22,
        ScalarType::Int4 => 23,
        ScalarType::Regproc => 24,
        ScalarType::Text => 25,
        ScalarType::Oid => 26,
        ScalarType::Tid => 27,
        ScalarType::Xid => 28,
        ScalarType::Cid => 29,
        ScalarType::OidVector => 30,
        ScalarType::PgDdlCommand => 32,
        ScalarType::Json => 114,
        ScalarType::Xml => 142,
        ScalarType::XmlArray => 143,
        ScalarType::PgNodeTree => 194,
        ScalarType::JsonArray => 199,
        ScalarType::TableAmHandler => 269,
        ScalarType::Xid8Array => 271,
        ScalarType::IndexAmHandler => 325,
        ScalarType::Point => 600,
        ScalarType::Lseg => 601,
        ScalarType::Path => 602,
        ScalarType::Box => 603,
        ScalarType::Polygon => 604,
        ScalarType::Line => 628,
        ScalarType::LineArray => 629,
        ScalarType::Cidr => 650,
        ScalarType::CidrArray => 651,
        ScalarType::Float4 => 700,
        ScalarType::Float8 => 701,
        ScalarType::Unknown => 705,
        ScalarType::Circle => 718,
        ScalarType::CircleArray => 719,
        ScalarType::Macaddr8 => 774,
        ScalarType::Macaddr8Array => 775,
        ScalarType::Money => 790,
        ScalarType::MoneyArray => 791,
        ScalarType::Macaddr => 829,
        ScalarType::Inet => 869,
        ScalarType::BoolArray => 1000,
        ScalarType::ByteaArray => 1001,
        ScalarType::CharArray => 1002,
        ScalarType::NameArray => 1003,
        ScalarType::Int2Array => 1005,
        ScalarType::Int2VectorArray => 1006,
        ScalarType::Int4Array => 1007,
        ScalarType::RegprocArray => 1008,
        ScalarType::TextArray => 1009,
        ScalarType::TidArray => 1010,
        ScalarType::XidArray => 1011,
        ScalarType::CidArray => 1012,
        ScalarType::OidVectorArray => 1013,
        ScalarType::BpcharArray => 1014,
        ScalarType::VarcharArray => 1015,
        ScalarType::Int8Array => 1016,
        ScalarType::PointArray => 1017,
        ScalarType::LsegArray => 1018,
        ScalarType::PathArray => 1019,
        ScalarType::BoxArray => 1020,
        ScalarType::Float4Array => 1021,
        ScalarType::Float8Array => 1022,
        ScalarType::PolygonArray => 1027,
        ScalarType::OidArray => 1028,
        ScalarType::Aclitem => 1033,
        ScalarType::AclitemArray => 1034,
        ScalarType::MacaddrArray => 1040,
        ScalarType::InetArray => 1041,
        ScalarType::Bpchar => 1042,
        ScalarType::Varchar => 1043,
        ScalarType::Date => 1082,
        ScalarType::Time => 1083,
        ScalarType::Timestamp => 1114,
        ScalarType::TimestampArray => 1115,
        ScalarType::DateArray => 1182,
        ScalarType::TimeArray => 1183,
        ScalarType::Timestamptz => 1184,
        ScalarType::TimestamptzArray => 1185,
        ScalarType::Interval => 1186,
        ScalarType::IntervalArray => 1187,
        ScalarType::NumericArray => 1231,
        ScalarType::CstringArray => 1263,
        ScalarType::Timetz => 1266,
        ScalarType::TimetzArray => 1270,
        ScalarType::Bit => 1560,
        ScalarType::BitArray => 1561,
        ScalarType::Varbit => 1562,
        ScalarType::VarbitArray => 1563,
        ScalarType::Numeric => 1700,
        ScalarType::Refcursor => 1790,
        ScalarType::RefcursorArray => 2201,
        ScalarType::Regprocedure => 2202,
        ScalarType::Regoper => 2203,
        ScalarType::Regoperator => 2204,
        ScalarType::Regclass => 2205,
        ScalarType::Regtype => 2206,
        ScalarType::RegprocedureArray => 2207,
        ScalarType::RegoperArray => 2208,
        ScalarType::RegoperatorArray => 2209,
        ScalarType::RegclassArray => 2210,
        ScalarType::RegtypeArray => 2211,
        ScalarType::Record => 2249,
        ScalarType::Cstring => 2275,
        ScalarType::Any => 2276,
        ScalarType::Anyarray => 2277,
        ScalarType::Void => 2278,
        ScalarType::Trigger => 2279,
        ScalarType::LanguageHandler => 2280,
        ScalarType::Internal => 2281,
        ScalarType::Anyelement => 2283,
        ScalarType::RecordArray => 2287,
        ScalarType::Anynonarray => 2776,
        ScalarType::TxidSnapshotArray => 2949,
        ScalarType::Uuid => 2950,
        ScalarType::UuidArray => 2951,
        ScalarType::TxidSnapshot => 2970,
        ScalarType::FdwHandler => 3115,
        ScalarType::PgLsn => 3220,
        ScalarType::PgLsnArray => 3221,
        ScalarType::TsmHandler => 3310,
        ScalarType::PgNdistinct => 3361,
        ScalarType::PgDependencies => 3402,
        ScalarType::Anyenum => 3500,
        ScalarType::TsVector => 3614,
        ScalarType::Tsquery => 3615,
        ScalarType::GtsVector => 3642,
        ScalarType::TsVectorArray => 3643,
        ScalarType::GtsVectorArray => 3644,
        ScalarType::TsqueryArray => 3645,
        ScalarType::Regconfig => 3734,
        ScalarType::RegconfigArray => 3735,
        ScalarType::Regdictionary => 3769,
        ScalarType::RegdictionaryArray => 3770,
        ScalarType::Jsonb => 3802,
        ScalarType::JsonbArray => 3807,
        ScalarType::AnyRange => 3831,
        ScalarType::EventTrigger => 3838,
        ScalarType::Int4Range => 3904,
        ScalarType::Int4RangeArray => 3905,
        ScalarType::NumRange => 3906,
        ScalarType::NumRangeArray => 3907,
        ScalarType::TsRange => 3908,
        ScalarType::TsRangeArray => 3909,
        ScalarType::TstzRange => 3910,
        ScalarType::TstzRangeArray => 3911,
        ScalarType::DateRange => 3912,
        ScalarType::DateRangeArray => 3913,
        ScalarType::Int8Range => 3926,
        ScalarType::Int8RangeArray => 3927,
        ScalarType::Jsonpath => 4072,
        ScalarType::JsonpathArray => 4073,
        ScalarType::Regnamespace => 4989,
        ScalarType::RegnamespaceArray => 4090,
        ScalarType::Regrole => 4096,
        ScalarType::RegroleArray => 4097,
        ScalarType::Regcollation => 4191,
        ScalarType::RegcollationArray => 4192,
        ScalarType::Int4multiRange => 4451,
        ScalarType::NummultiRange => 4532,
        ScalarType::TsmultiRange => 4533,
        ScalarType::TstzmultiRange => 4534,
        ScalarType::DatemultiRange => 4535,
        ScalarType::Int8multiRange => 4536,
        ScalarType::AnymultiRange => 4537,
        ScalarType::AnycompatiblemultiRange => 4538,
        ScalarType::PgBrinBloomSummary => 4600,
        ScalarType::PgBrinMinmaxMultiSummary => 4601,
        ScalarType::PgMcvList => 5017,
        ScalarType::PgSnapshot => 5038,
        ScalarType::PgSnapshotArray => 5039,
        ScalarType::Xid8 => 5069,
        ScalarType::Anycompatible => 5077,
        ScalarType::Anycompatiblearray => 5078,
        ScalarType::Anycompatiblenonarray => 5079,
        ScalarType::AnycompatibleRange => 5080,
        ScalarType::Int4multiRangeArray => 6150,
        ScalarType::NummultiRangeArray => 6151,
        ScalarType::TsmultiRangeArray => 6152,
        ScalarType::TstzmultiRangeArray => 6153,
        ScalarType::DatemultiRangeArray => 6155,
        ScalarType::Int8multiRangeArray => 6157,
        ScalarType::Other(oid) => oid,
    }
}

/// Whether the engine has a name for the type with an object identifier.
pub open spec fn is_known_oid(oid: u32) -> bool {
    oid == 16
        || oid == 17
        || oid == 18
        || oid == 19
        || oid == 20
        || oid == 21
        || oid == 22
        || oid == 23
        || oid == 24
        || oid == 25
        || oid == 26
        || oid == 27
        || oid == 28
        || oid == 29
        || oid == 30
        || oid == 32
        || oid == 114
        || oid == 142
        || oid == 143
        || oid == 194
        || oid == 199
        || oid == 269
        || oid == 271
        || oid == 325
        || oid == 600
        || oid == 601
        || oid == 602
        || oid == 603
        || oid == 604
        || oid == 628
        || oid == 629
        || oid == 650
        || oid == 651
        || oid == 700
        || oid == 701
        || oid == 705
        || oid == 718
        || oid == 719
        || oid == 774
        || oid == 775
        || oid == 790
        || oid == 791
        || oid == 829
        || oid == 869
        || oid == 1000
        || oid == 1001
        || oid == 1002
        || oid == 1003
        || oid == 1005
        || oid == 1006
        || oid == 1007
        || oid == 1008
        || oid == 1009
        || oid == 1010
        || oid == 1011
        || oid == 1012
        || oid == 1013
        || oid == 1014
        || oid == 1015
        || oid == 1016
        || oid == 1017
        || oid == 1018
        || oid == 1019
        || oid == 1020
        || oid == 1021
        || oid == 1022
        || oid == 1027
        || oid == 1028
        || oid == 1033
        || oid == 1034
        || oid == 1040
        || oid == 1041
        || oid == 1042
        || oid == 1043
        || oid == 1082
        || oid == 1083
        || oid == 1114
        || oid == 1115
        || oid == 1182
        || oid == 1183
        || oid == 1184
        || oid == 1185
        || oid == 1186
        || oid == 1187
        || oid == 1231
        || oid == 1263
        || oid == 1266
        || oid == 1270
        || oid == 1560
        || oid == 1561
        || oid == 1562
        || oid == 1563
        || oid == 1700
        || oid == 1790
        || oid == 2201
        || oid == 2202
        || oid == 2203
        || oid == 2204
        || oid == 2205
        || oid == 2206
        || oid == 2207
        || oid == 2208
        || oid == 2209
        || oid == 2210
        || oid == 2211
        || oid == 2249
        || oid == 2275
        || oid == 2276
        || oid == 2277
        || oid == 2278
        || oid == 2279
        || oid == 2280
        || oid == 2281
        || oid == 2283
        || oid == 2287
        || oid == 2776
        || oid == 2949
        || oid == 2950
        || oid == 2951
        || oid == 2970
        || oid == 3115
        || oid == 3220
        || oid == 3221
        || oid == 3310
        || oid == 3361
        || oid == 3402
        || oid == 3500
        || oid == 3614
        || oid == 3615
        || oid == 3642
        || oid == 3643
        || oid == 3644
        || oid == 3645
        || oid == 3734
        || oid == 3735
        || oid == 3769
        || oid == 3770
        || oid == 3802
        || oid == 3807
        || oid == 3831
        || oid == 3838
        || oid == 3904
        || oid == 3905
        || oid == 3906
        || oid == 3907
        || oid == 3908
        || oid == 3909
        || oid == 3910
        || oid == 3911
        || oid == 3912
        || oid == 3913
        || oid == 3926
        || oid == 3927
        || oid == 4072
        || oid == 4073
        || oid == 4989
        || oid == 4090
        || oid == 4096
        || oid == 4097
        || oid == 4191
        || oid == 4192
        || oid == 4451
        || oid == 4532
        || oid == 4533
        || oid == 4534
        || oid == 4535
        || oid == 4536
        || oid == 4537
        || oid == 4538
        || oid == 4600
        || oid == 4601
        || oid == 5017
        || oid == 5038
        || oid == 5039
        || oid == 5069
        || oid == 5077
        || oid == 5078
        || oid == 5079
        || oid == 5080
        || oid == 6150
        || oid == 6151
        || oid == 6152
        || oid == 6153
        || oid == 6155
        || oid == 6157
}

/// The GraphQL type that stands for a scalar type, for the types that have one.
pub open spec fn client_type_text(ty: ScalarType) -> Option<Seq<char>> {
    match ty {
        ScalarType::Bool => Some("Boolean"@),
        ScalarType::Bytea => Some("Bytes"@),
        ScalarType::Char => Some("String"@),
        ScalarType::Name => Some("String"@),
        ScalarType::Int8 => Some("BigInt"@),
        ScalarType::Int2 => Some("Int"@),
        ScalarType::Int4 => Some("Int"@),
        ScalarType::Text => Some("String"@),
        ScalarType::Oid => Some("UnsignedBigInt"@),
        ScalarType::Json => Some("JSON"@),
        ScalarType::Xml => Some("String"@),
        ScalarType::XmlArray => Some("[String]"@),
        ScalarType::JsonArray => Some("[JSON]"@),
        ScalarType::Cidr => Some("String"@),
        ScalarType::CidrArray => Some("[String]"@),
        ScalarType::Float4 => Some("Float"@),
        ScalarType::Float8 => Some("Float"@),
        ScalarType::Macaddr8 => Some("String"@),
        ScalarType::Macaddr8Array => Some("[String]"@),
        ScalarType::Money => Some("Decimal"@),
        ScalarType::MoneyArray => Some("[Decimal]"@),
        ScalarType::Macaddr => Some("String"@),
        ScalarType::Inet => Some("IPAddress"@),
        ScalarType::BoolArray => Some("[Boolean]"@),
        ScalarType::ByteaArray => Some("[Bytes]"@),
        ScalarType::CharArray => Some("[String]"@),
        ScalarType::NameArray => Some("[String]"@),
        ScalarType::Int2Array => Some("[Int]"@),
        ScalarType::Int4Array => Some("[Int]"@),
        ScalarType::TextArray => Some("[String]"@),
        ScalarType::BpcharArray => Some("[String]"@),
        ScalarType::VarcharArray => Some("[String]"@),
        ScalarType::Int8Array => Some("[BigInt]"@),
        ScalarType::Float4Array => Some("[Float]"@),
        ScalarType::Float8Array => Some("[Float]"@),
        ScalarType::OidArray => Some("[UnsignedBigInt]"@),
        ScalarType::MacaddrArray => Some("[String]"@),
        ScalarType::InetArray => Some("[IPAddress]"@),
        ScalarType::Bpchar => Some("String"@),
        ScalarType::Varchar => Some("String"@),
        ScalarType::Date => Some("Date"@),
        ScalarType::Time => Some("Time"@),
        ScalarType::Timestamp => Some("NaiveDateTime"@),
        ScalarType::TimestampArray => Some("[NaiveDateTime]"@),
        ScalarType::DateArray => Some("[Date]"@),
        ScalarType::TimeArray => Some("[Time]"@),
        ScalarType::Timestamptz => Some("DateTime"@),
        ScalarType::TimestamptzArray => Some("[DateTime]"@),
        ScalarType::NumericArray => Some("[Decimal]"@),
        ScalarType::CstringArray => Some("[String]"@),
        ScalarType::Timetz => Some("Time"@),
        ScalarType::TimetzArray => Some("[Time]"@),
        ScalarType::Bit => Some("String"@),
        ScalarType::BitArray => Some("[String]"@),
        ScalarType::Varbit => Some("String"@),
        ScalarType::VarbitArray => Some("[String]"@),
        ScalarType::Numeric => Some("Decimal"@),
        ScalarType::Cstring => Some("String"@),
        ScalarType::Uuid => Some("Uuid"@),
        ScalarType::UuidArray => Some("[Uuid]"@),
        ScalarType::Jsonb => Some("JSON"@),
        ScalarType::JsonbArray => Some("[JSON]"@),
        _ => None,
    }
}

impl ScalarType {
    /// The scalar type that the catalog lists under an object identifier:
    /// the type of that identifier where the engine has a name for it, else
    /// `Other` with the identifier.
    pub fn from_oid(value: u32) -> (r: ScalarType)
        ensures
            oid_of(r) == value,
            r is Other <==> !is_known_oid(value),
    {
        match value {
            16 => ScalarType::Bool,
            17 => ScalarType::Bytea,
            18 => ScalarType::Char,
            19 => ScalarType::Name,
            20 => ScalarType::Int8,
            21 => ScalarType::Int2,
            22 => ScalarType::Int2Vector,
            23 => ScalarType::Int4,
            24 => ScalarType::Regproc,
            25 => ScalarType::Text,
            26 => ScalarType::Oid,
            27 => ScalarType::Tid,
            28 => ScalarType::Xid,
            29 => ScalarType::Cid,
            30 => ScalarType::OidVector,
            32 => ScalarType::PgDdlCommand,
            114 => ScalarType::Json,
            142 => ScalarType::Xml,
            143 => ScalarType::XmlArray,
            194 => ScalarType::PgNodeTree,
            199 => ScalarType::JsonArray,
            269 => ScalarType::TableAmHandler,
            271 => ScalarType::Xid8Array,
            325 => ScalarType::IndexAmHandler,
            600 => ScalarType::Point,
            601 => ScalarType::Lseg,
            602 => ScalarType::Path,
            603 => ScalarType::Box,
            604 => ScalarType::Polygon,
            628 => ScalarType::Line,
            629 => ScalarType::LineArray,
            650 => ScalarType::Cidr,
            651 => ScalarType::CidrArray,
            700 => ScalarType::Float4,
            701 => ScalarType::Float8,
            705 => ScalarType::Unknown,
            718 => ScalarType::Circle,
            719 => ScalarType::CircleArray,
            774 => ScalarType::Macaddr8,
            775 => ScalarType::Macaddr8Array,
            790 => ScalarType::Money,
            791 => ScalarType::MoneyArray,
            829 => ScalarType::Macaddr,
            869 => ScalarType::Inet,
            1000 => ScalarType::BoolArray,
            1001 => ScalarType::ByteaArray,
            1002 => ScalarType::CharArray,
            1003 => ScalarType::NameArray,
            1005 => ScalarType::Int2Array,
            1006 => ScalarType::Int2VectorArray,
            1007 => ScalarType::Int4Array,
            1008 => ScalarType::RegprocArray,
            1009 => ScalarType::TextArray,
            1010 => ScalarType::TidArray,
            1011 => ScalarType::XidArray,
            1012 => ScalarType::CidArray,
            1013 => ScalarType::OidVectorArray,
            1014 => ScalarType::BpcharArray,
            1015 => ScalarType::VarcharArray,
            1016 => ScalarType::Int8Array,
            1017 => ScalarType::PointArray,
            1018 => ScalarType::LsegArray,
            1019 => ScalarType::PathArray,
            1020 => ScalarType::BoxArray,
            1021 => ScalarType::Float4Array,
            1022 => ScalarType::Float8Array,
            1027 => ScalarType::PolygonArray,
            1028 => ScalarType::OidArray,
            1033 => ScalarType::Aclitem,
            1034 => ScalarType::AclitemArray,
            1040 => ScalarType::MacaddrArray,
            1041 => ScalarType::InetArray,
            1042 => ScalarType::Bpchar,
            1043 => ScalarType::Varchar,
            1082 => ScalarType::Date,
            1083 => ScalarType::Time,
            1114 => ScalarType::Timestamp,
            1115 => ScalarType::TimestampArray,
            1182 => ScalarType::DateArray,
            1183 => ScalarType::TimeArray,
            1184 => ScalarType::Timestamptz,
            1185 => ScalarType::TimestamptzArray,
            1186 => ScalarType::Interval,
            1187 => ScalarType::IntervalArray,
            1231 => ScalarType::NumericArray,
            1263 => ScalarType::CstringArray,
            1266 => ScalarType::Timetz,
            1270 => ScalarType::TimetzArray,
            1560 => ScalarType::Bit,
            1561 => ScalarType::BitArray,
            1562 => ScalarType::Varbit,
            1563 => ScalarType::VarbitArray,
            1700 => ScalarType::Numeric,
            1790 => ScalarType::Refcursor,
            2201 => ScalarType::RefcursorArray,
            2202 => ScalarType::Regprocedure,
            2203 => ScalarType::Regoper,
            2204 => ScalarType::Regoperator,
            2205 => ScalarType::Regclass,
            2206 => ScalarType::Regtype,
            2207 => ScalarType::RegprocedureArray,
            2208 => ScalarType::RegoperArray,
            2209 => ScalarType::RegoperatorArray,
            2210 => ScalarType::RegclassArray,
            2211 => ScalarType::RegtypeArray,
            2249 => ScalarType::Record,
            2275 => ScalarType::Cstring,
            2276 => ScalarType::Any,
            2277 => ScalarType::Anyarray,
            2278 => ScalarType::Void,
            2279 => ScalarType::Trigger,
            2280 => ScalarType::LanguageHandler,
            2281 => ScalarType::Internal,
            2283 => ScalarType::Anyelement,
            2287 => ScalarType::RecordArray,
            2776 => ScalarType::Anynonarray,
            2949 => ScalarType::TxidSnapshotArray,
            2950 => ScalarType::Uuid,
            2951 => ScalarType::UuidArray,
            2970 => ScalarType::TxidSnapshot,
            3115 => ScalarType::FdwHandler,
            3220 => ScalarType::PgLsn,
            3221 => ScalarType::PgLsnArray,
            3310 => ScalarType::TsmHandler,
            3361 => ScalarType::PgNdistinct,
            3402 => ScalarType::PgDependencies,
            3500 => ScalarType::Anyenum,
            3614 => ScalarType::TsVector,
            3615 => ScalarType::Tsquery,
            3642 => ScalarType::GtsVector,
            3643 => ScalarType::TsVectorArray,
            3644 => ScalarType::GtsVectorArray,
            3645 => ScalarType::TsqueryArray,
            3734 => ScalarType::Regconfig,
            3735 => ScalarType::RegconfigArray,
            3769 => ScalarType::Regdictionary,
            3770 => ScalarType::RegdictionaryArray,
            3802 => ScalarType::Jsonb,
            3807 => ScalarType::JsonbArray,
            3831 => ScalarType::AnyRange,
            3838 => ScalarType::EventTrigger,
            3904 => ScalarType::Int4Range,
            3905 => ScalarType::Int4RangeArray,
            3906 => ScalarType::NumRange,
            3907 => ScalarType::NumRangeArray,
            3908 => ScalarType::TsRange,
            3909 => ScalarType::TsRangeArray,
            3910 => ScalarType::TstzRange,
            3911 => ScalarType::TstzRangeArray,
            3912 => ScalarType::DateRange,
            3913 => ScalarType::DateRangeArray,
            3926 => ScalarType::Int8Range,
            3927 => ScalarType::Int8RangeArray,
            4072 => ScalarType::Jsonpath,
            4073 => ScalarType::JsonpathArray,
            4989 => ScalarType::Regnamespace,
            4090 => ScalarType::RegnamespaceArray,
            4096 => ScalarType::Regrole,
            4097 => ScalarType::RegroleArray,
            4191 => ScalarType::Regcollation,
            4192 => ScalarType::RegcollationArray,
            4451 => ScalarType::Int4multiRange,
            4532 => ScalarType::NummultiRange,
            4533 => ScalarType::TsmultiRange,
            4534 => ScalarType::TstzmultiRange,
            4535 => ScalarType::DatemultiRange,
            4536 => ScalarType::Int8multiRange,
            4537 => ScalarType::AnymultiRange,
            4538 => ScalarType::AnycompatiblemultiRange,
            4600 => ScalarType::PgBrinBloomSummary,
            4601 => ScalarType::PgBrinMinmaxMultiSummary,
            5017 => ScalarType::PgMcvList,
            5038 => ScalarType::PgSnapshot,
            5039 => ScalarType::PgSnapshotArray,
            5069 => ScalarType::Xid8,
            5077 => ScalarType::Anycompatible,
            5078 => ScalarType::Anycompatiblearray,
            5079 => ScalarType::Anycompatiblenonarray,
            5080 => ScalarType::AnycompatibleRange,
            6150 => ScalarType::Int4multiRangeArray,
            6151 => ScalarType::NummultiRangeArray,
            6152 => ScalarType::TsmultiRangeArray,
            6153 => ScalarType::TstzmultiRangeArray,
            6155 => ScalarType::DatemultiRangeArray,
            6157 => ScalarType::Int8multiRangeArray,
            _ => ScalarType::Other(value),
        }
    }

    /// The GraphQL type that stands for the scalar type, if it has one.
    pub fn client_type(self) -> (r: Option<&'static str>)
        ensures
            match r {
                Some(name) => client_type_text(self) == Some(name@),
                None => client_type_text(self) is None,
            },
    {
        match self {
            ScalarType::Bool => Some("Boolean"),
            ScalarType::Bytea => Some("Bytes"),
            ScalarType::Char => Some("String"),
            ScalarType::Name => Some("String"),
            ScalarType::Int8 => Some("BigInt"),
            ScalarType::Int2 => Some("Int"),
            ScalarType::Int4 => Some("Int"),
            ScalarType::Text => Some("String"),
            ScalarType::Oid => Some("UnsignedBigInt"),
            ScalarType::Json => Some("JSON"),
            ScalarType::Xml => Some("String"),
            ScalarType::XmlArray => Some("[String]"),
            ScalarType::JsonArray => Some("[JSON]"),
            ScalarType::Cidr => Some("String"),
            ScalarType::CidrArray => Some("[String]"),
            ScalarType::Float4 => Some("Float"),
            ScalarType::Float8 => Some("Float"),
            ScalarType::Macaddr8 => Some("String"),
            ScalarType::Macaddr8Array => Some("[String]"),
            ScalarType::Money => Some("Decimal"),
            ScalarType::MoneyArray => Some("[Decimal]"),
            ScalarType::Macaddr => Some("String"),
            ScalarType::Inet => Some("IPAddress"),
            ScalarType::BoolArray => Some("[Boolean]"),
            ScalarType::ByteaArray => Some("[Bytes]"),
            ScalarType::CharArray => Some("[String]"),
            ScalarType::NameArray => Some("[String]"),
            ScalarType::Int2Array => Some("[Int]"),
            ScalarType::Int4Array => Some("[Int]"),
            ScalarType::TextArray => Some("[String]"),
            ScalarType::BpcharArray => Some("[String]"),
            ScalarType::VarcharArray => Some("[String]"),
            ScalarType::Int8Array => Some("[BigInt]"),
            ScalarType::Float4Array => Some("[Float]"),
            ScalarType::Float8Array => Some("[Float]"),
            ScalarType::OidArray => Some("[UnsignedBigInt]"),
            ScalarType::MacaddrArray => Some("[String]"),
            ScalarType::InetArray => Some("[IPAddress]"),
            ScalarType::Bpchar => Some("String"),
            ScalarType::Varchar => Some("String"),
            ScalarType::Date => Some("Date"),
            ScalarType::Time => Some("Time"),
            ScalarType::Timestamp => Some("NaiveDateTime"),
            ScalarType::TimestampArray => Some("[NaiveDateTime]"),
            ScalarType::DateArray => Some("[Date]"),
            ScalarType::TimeArray => Some("[Time]"),
            ScalarType::Timestamptz => Some("DateTime"),
            ScalarType::TimestamptzArray => Some("[DateTime]"),
            ScalarType::NumericArray => Some("[Decimal]"),
            ScalarType::CstringArray => Some("[String]"),
            ScalarType::Timetz => Some("Time"),
            ScalarType::TimetzArray => Some("[Time]"),
            ScalarType::Bit => Some("String"),
            ScalarType::BitArray => Some("[String]"),
            ScalarType::Varbit => Some("String"),
            ScalarType::VarbitArray => Some("[String]"),
            ScalarType::Numeric => Some("Decimal"),
            ScalarType::Cstring => Some("String"),
            ScalarType::Uuid => Some("Uuid"),
            ScalarType::UuidArray => Some("[Uuid]"),
            ScalarType::Jsonb => Some("JSON"),
            ScalarType::JsonbArray => Some("[JSON]"),
            _ => None,
        }
    }
}

impl From<u32> for ScalarType {
    fn from(value: u32) -> (r: ScalarType) {
        ScalarType::from_oid(value)
    }
}

impl vstd::std_specs::convert::FromSpecImpl<u32> for ScalarType {
    open spec fn obeys_from_spec() -> bool {
        true
    }

    open spec fn from_spec(value: u32) -> ScalarType {
        scalar_of_oid(value)
    }
}

/// The scalar type of an object identifier.
pub open spec fn scalar_of_oid(value: u32) -> ScalarType {
    if value == 16 {
        ScalarType::Bool
    } else if value == 17 {
        ScalarType::Bytea
    } else if value == 18 {
        ScalarType::Char
    } else if value == 19 {
        ScalarType::Name
    } else if value == 20 {
        ScalarType::Int8
    } else if value == 21 {
        ScalarType::Int2
    } else if value == 22 {
        ScalarType::Int2Vector
    } else if value == 23 {
        ScalarType::Int4
    } else if value == 24 {
        ScalarType::Regproc
    } else if value == 25 {
        ScalarType::Text
    } else if value == 26 {
        ScalarType::Oid
    } else if value == 27 {
        ScalarType::Tid
    } else if value == 28 {
        ScalarType::Xid
    } else if value == 29 {
        ScalarType::Cid
    } else if value == 30 {
        ScalarType::OidVector
    } else if value == 32 {
        ScalarType::PgDdlCommand
    } else if value == 114 {
        ScalarType::Json
    } else if value == 142 {
        ScalarType::Xml
    } else if value == 143 {
        ScalarType::XmlArray
    } else if value == 194 {
        ScalarType::PgNodeTree
    } else if value == 199 {
        ScalarType::JsonArray
    } else if value == 269 {
        ScalarType::TableAmHandler
    } else if value == 271 {
        ScalarType::Xid8Array
    } else if value == 325 {
        ScalarType::IndexAmHandler
    } else if value == 600 {
        ScalarType::Point
    } else if value == 601 {
        ScalarType::Lseg
    } else if value == 602 {
        ScalarType::Path
    } else if value == 603 {
        ScalarType::Box
    } else if value == 604 {
        ScalarType::Polygon
    } else if value == 628 {
        ScalarType::Line
    } else if value == 629 {
        ScalarType::LineArray
    } else if value == 650 {
        ScalarType::Cidr
    } else if value == 651 {
        ScalarType::CidrArray
    } else if value == 700 {
        ScalarType::Float4
    } else if value == 701 {
        ScalarType::Float8
    } else if value == 705 {
        ScalarType::Unknown
    } else if value == 718 {
        ScalarType::Circle
    } else if value == 719 {
        ScalarType::CircleArray
    } else if value == 774 {
        ScalarType::Macaddr8
    } else if value == 775 {
        ScalarType::Macaddr8Array
    } else if value == 790 {
        ScalarType::Money
    } else if value == 791 {
        ScalarType::MoneyArray
    } else if value == 829 {
        ScalarType::Macaddr
    } else if value == 869 {
        ScalarType::Inet
    } else if value == 1000 {
        ScalarType::BoolArray
    } else if value == 1001 {
        ScalarType::ByteaArray
    } else if value == 1002 {
        ScalarType::CharArray
    } else if value == 1003 {
        ScalarType::NameArray
    } else if value == 1005 {
        ScalarType::Int2Array
    } else if value == 1006 {
        ScalarType::Int2VectorArray
    } else if value == 1007 {
        ScalarType::Int4Array
    } else if value == 1008 {
        ScalarType::RegprocArray
    } else if value == 1009 {
        ScalarType::TextArray
    } else if value == 1010 {
        ScalarType::TidArray
    } else if value == 1011 {
        ScalarType::XidArray
    } else if value == 1012 {
        ScalarType::CidArray
    } else if value == 1013 {
        ScalarType::OidVectorArray
    } else if value == 1014 {
        ScalarType::BpcharArray
    } else if value == 1015 {
        ScalarType::VarcharArray
    } else if value == 1016 {
        ScalarType::Int8Array
    } else if value == 1017 {
        ScalarType::PointArray
    } else if value == 1018 {
        ScalarType::LsegArray
    } else if value == 1019 {
        ScalarType::PathArray
    } else if value == 1020 {
        ScalarType::BoxArray
    } else if value == 1021 {
        ScalarType::Float4Array
    } else if value == 1022 {
        ScalarType::Float8Array
    } else if value == 1027 {
        ScalarType::PolygonArray
    } else if value == 1028 {
        ScalarType::OidArray
    } else if value == 1033 {
        ScalarType::Aclitem
    } else if value == 1034 {
        ScalarType::AclitemArray
    } else if value == 1040 {
        ScalarType::MacaddrArray
    } else if value == 1041 {
        ScalarType::InetArray
    } else if value == 1042 {
        ScalarType::Bpchar
    } else if value == 1043 {
        ScalarType::Varchar
    } else if value == 1082 {
        ScalarType::Date
    } else if value == 1083 {
        ScalarType::Time
    } else if value == 1114 {
        ScalarType::Timestamp
    } else if value == 1115 {
        ScalarType::TimestampArray
    } else if value == 1182 {
        ScalarType::DateArray
    } else if value == 1183 {
        ScalarType::TimeArray
    } else if value == 1184 {
        ScalarType::Timestamptz
    } else if value == 1185 {
        ScalarType::TimestamptzArray
    } else if value == 1186 {
        ScalarType::Interval
    } else if value == 1187 {
        ScalarType::IntervalArray
    } else if value == 1231 {
        ScalarType::NumericArray
    } else if value == 1263 {
        ScalarType::CstringArray
    } else if value == 1266 {
        ScalarType::Timetz
    } else if value == 1270 {
        ScalarType::TimetzArray
    } else if value == 1560 {
        ScalarType::Bit
    } else if value == 1561 {
        ScalarType::BitArray
    } else if value == 1562 {
        ScalarType::Varbit
    } else if value == 1563 {
        ScalarType::VarbitArray
    } else if value == 1700 {
        ScalarType::Numeric
    } else if value == 1790 {
        ScalarType::Refcursor
    } else if value == 2201 {
        ScalarType::RefcursorArray
    } else if value == 2202 {
        ScalarType::Regprocedure
    } else if value == 2203 {
        ScalarType::Regoper
    } else if value == 2204 {
        ScalarType::Regoperator
    } else if value == 2205 {
        ScalarType::Regclass
    } else if value == 2206 {
        ScalarType::Regtype
    } else if value == 2207 {
        ScalarType::RegprocedureArray
    } else if value == 2208 {
        ScalarType::RegoperArray
    } else if value == 2209 {
        ScalarType::RegoperatorArray
    } else if value == 2210 {
        ScalarType::RegclassArray
    } else if value == 2211 {
        ScalarType::RegtypeArray
    } else if value == 2249 {
        ScalarType::Record
    } else if value == 2275 {
        ScalarType::Cstring
    } else if value == 2276 {
        ScalarType::Any
    } else if value == 2277 {
        ScalarType::Anyarray
    } else if value == 2278 {
        ScalarType::Void
    } else if value == 2279 {
        ScalarType::Trigger
    } else if value == 2280 {
        ScalarType::LanguageHandler
    } else if value == 2281 {
        ScalarType::Internal
    } else if value == 2283 {
        ScalarType::Anyelement
    } else if value == 2287 {
        ScalarType::RecordArray
    } else if value == 2776 {
        ScalarType::Anynonarray
    } else if value == 2949 {
        ScalarType::TxidSnapshotArray
    } else if value == 2950 {
        ScalarType::Uuid
    } else if value == 2951 {
        ScalarType::UuidArray
    } else if value == 2970 {
        ScalarType::TxidSnapshot
    } else if value == 3115 {
        ScalarType::FdwHandler
    } else if value == 3220 {
        ScalarType::PgLsn
    } else if value == 3221 {
        ScalarType::PgLsnArray
    } else if value == 3310 {
        ScalarType::TsmHandler
    } else if value == 3361 {
        ScalarType::PgNdistinct
    } else if value == 3402 {
        ScalarType::PgDependencies
    } else if value == 3500 {
        ScalarType::Anyenum
    } else if value == 3614 {
        ScalarType::TsVector
    } else if value == 3615 {
        ScalarType::Tsquery
    } else if value == 3642 {
        ScalarType::GtsVector
    } else if value == 3643 {
        ScalarType::TsVectorArray
    } else if value == 3644 {
        ScalarType::GtsVectorArray
    } else if value == 3645 {
        ScalarType::TsqueryArray
    } else if value == 3734 {
        ScalarType::Regconfig
    } else if value == 3735 {
        ScalarType::RegconfigArray
    } else if value == 3769 {
        ScalarType::Regdictionary
    } else if value == 3770 {
        ScalarType::RegdictionaryArray
    } else if value == 3802 {
        ScalarType::Jsonb
    } else if value == 3807 {
        ScalarType::JsonbArray
    } else if value == 3831 {
        ScalarType::AnyRange
    } else if value == 3838 {
        ScalarType::EventTrigger
    } else if value == 3904 {
        ScalarType::Int4Range
    } else if value == 3905 {
        ScalarType::Int4RangeArray
    } else if value == 3906 {
        ScalarType::NumRange
    } else if value == 3907 {
        ScalarType::NumRangeArray
    } else if value == 3908 {
        ScalarType::TsRange
    } else if value == 3909 {
        ScalarType::TsRangeArray
    } else if value == 3910 {
        ScalarType::TstzRange
    } else if value == 3911 {
        ScalarType::TstzRangeArray
    } else if value == 3912 {
        ScalarType::DateRange
    } else if value == 3913 {
        ScalarType::DateRangeArray
    } else if value == 3926 {
        ScalarType::Int8Range
    } else if value == 3927 {
        ScalarType::Int8RangeArray
    } else if value == 4072 {
        ScalarType::Jsonpath
    } else if value == 4073 {
        ScalarType::JsonpathArray
    } else if value == 4989 {
        ScalarType::Regnamespace
    } else if value == 4090 {
        ScalarType::RegnamespaceArray
    } else if value == 4096 {
        ScalarType::Regrole
    } else if value == 4097 {
        ScalarType::RegroleArray
    } else if value == 4191 {
        ScalarType::Regcollation
    } else if value == 4192 {
        ScalarType::RegcollationArray
    } else if value == 4451 {
        ScalarType::Int4multiRange
    } else if value == 4532 {
        ScalarType::NummultiRange
    } else if value == 4533 {
        ScalarType::TsmultiRange
    } else if value == 4534 {
        ScalarType::TstzmultiRange
    } else if value == 4535 {
        ScalarType::DatemultiRange
    } else if value == 4536 {
        ScalarType::Int8multiRange
    } else if value == 4537 {
        ScalarType::AnymultiRange
    } else if value == 4538 {
        ScalarType::AnycompatiblemultiRange
    } else if value == 4600 {
        ScalarType::PgBrinBloomSummary
    } else if value == 4601 {
        ScalarType::PgBrinMinmaxMultiSummary
    } else if value == 5017 {
        ScalarType::PgMcvList
    } else if value == 5038 {
        ScalarType::PgSnapshot
    } else if value == 5039 {
        ScalarType::PgSnapshotArray
    } else if value == 5069 {
        ScalarType::Xid8
    } else if value == 5077 {
        ScalarType::Anycompatible
    } else if value == 5078 {
        ScalarType::Anycompatiblearray
    } else if value == 5079 {
        ScalarType::Anycompatiblenonarray
    } else if value == 5080 {
        ScalarType::AnycompatibleRange
    } else if value == 6150 {
        ScalarType::Int4multiRangeArray
    } else if value == 6151 {
        ScalarType::NummultiRangeArray
    } else if value == 6152 {
        ScalarType::TsmultiRangeArray
    } else if value == 6153 {
        ScalarType::TstzmultiRangeArray
    } else if value == 6155 {
        ScalarType::DatemultiRangeArray
    } else if value == 6157 {
        ScalarType::Int8multiRangeArray
    } else {
        ScalarType::Other(value)
    }
}

/// The operation of a resolver on a database.
#[derive(Clone, Copy, Debug, PartialEq, Eq, Hash, Structural)]
pub enum Operation {
    FindOne,
    FindMany,
}

impl Operation {
    pub open spec fn name(self) -> Seq<char> {
        match self {
            Operation::FindOne => "findOne"@,
            Operation::FindMany => "findMany"@,
        }
    }

    /// The name of the operation, as requests write it.
    pub fn as_ref(&self) -> (r: &'static str)
        ensures
            r@ == self.name(),
    {
        match self {
            Operation::FindOne => "findOne",
            Operation::FindMany => "findMany",
        }
    }
}

/// A resolver that reads from a database.
#[derive(Debug)]
pub struct PostgresResolver {
    pub operation: Operation,
    pub directive_name: String,
}

impl PostgresResolver {
    /// The resolver of an operation on the database of a directive.
    pub fn new(operation: Operation, directive_name: &str) -> (r: PostgresResolver)
        ensures
            r.operation == operation,
            r.directive_name@ == directive_name@,
    {
        PostgresResolver { operation, directive_name: directive_name.to_owned() }
    }
}

} // verus!
