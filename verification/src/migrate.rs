//! The relational schema the companion migration tool creates: every table,
//! column, key and foreign key as plain data, the order tables are created
//! in, and the strict reverse-dependency order they are dropped in.

use vstd::prelude::*;
use vstd::string::StringExecFns;

verus! {

/// A column's SQL type.
#[derive(Debug, Clone, Copy, PartialEq, Eq, Structural)]
pub enum ColType {
    Integer,
    BigInteger,
    Str,
    Text,
    DateTime,
    Boolean,
}

/// One column of a table.
#[derive(Debug, Clone, PartialEq)]
pub struct ColumnDef {
    pub name: String,
    pub col_type: ColType,
    pub not_null: bool,
    pub primary_key: bool,
    pub auto_increment: bool,
    /// Whether the column defaults to `false`.
    pub default_false: bool,
}

/// One foreign key, always to a single column, deleting in cascade.
#[derive(Debug, Clone, PartialEq)]
pub struct ForeignKeyDef {
    pub name: String,
    pub from_col: String,
    pub to_table: String,
    pub to_col: String,
}

/// One lookup index.
#[derive(Debug, Clone, PartialEq)]
pub struct IndexDef {
    pub name: String,
    pub table: String,
    pub col: String,
}

/// One table: its columns, an optional composite primary key, and its
/// foreign keys. Creation is idempotent (create-if-missing).
#[derive(Debug, Clone, PartialEq)]
pub struct TableDef {
    pub name: String,
    pub columns: Vec<ColumnDef>,
    /// The columns of a composite primary key; empty when a single column
    /// carries the key.
    pub composite_primary_key: Vec<String>,
    pub foreign_keys: Vec<ForeignKeyDef>,
}

/// The spec-level form of a column.
pub ghost struct ColumnSpec {
    pub name: Seq<char>,
    pub col_type: ColType,
    pub not_null: bool,
    pub primary_key: bool,
    pub auto_increment: bool,
    pub default_false: bool,
}

/// The spec-level form of a foreign key.
pub ghost struct ForeignKeySpec {
    pub name: Seq<char>,
    pub from_col: Seq<char>,
    pub to_table: Seq<char>,
    pub to_col: Seq<char>,
}

/// The spec-level form of an index.
pub ghost struct IndexSpec {
    pub name: Seq<char>,
    pub table: Seq<char>,
    pub col: Seq<char>,
}

/// The spec-level form of a table.
pub ghost struct TableSpec {
    pub name: Seq<char>,
    pub columns: Seq<ColumnSpec>,
    pub composite_primary_key: Seq<Seq<char>>,
    pub foreign_keys: Seq<ForeignKeySpec>,
}

impl View for ColumnDef {
    type V = ColumnSpec;

    open spec fn view(&self) -> ColumnSpec {
        ColumnSpec {
            name: self.name@,
            col_type: self.col_type,
            not_null: self.not_null,
            primary_key: self.primary_key,
            auto_increment: self.auto_increment,
            default_false: self.default_false,
        }
    }
}

impl View for ForeignKeyDef {
    type V = ForeignKeySpec;

    open spec fn view(&self) -> ForeignKeySpec {
        ForeignKeySpec {
            name: self.name@,
            from_col: self.from_col@,
            to_table: self.to_table@,
            to_col: self.to_col@,
        }
    }
}

impl View for IndexDef {
    type V = IndexSpec;

    open spec fn view(&self) -> IndexSpec {
        IndexSpec { name: self.name@, table: self.table@, col: self.col@ }
    }
}

/// The spec-level form of a column list.
pub open spec fn cols_view(s: Seq<ColumnDef>) -> Seq<ColumnSpec> {
    Seq::new(s.len(), |i: int| s[i]@)
}

/// The spec-level form of a name list.
pub open spec fn names_view(s: Seq<String>) -> Seq<Seq<char>> {
    Seq::new(s.len(), |i: int| s[i]@)
}

/// The spec-level form of a foreign-key list.
pub open spec fn fks_view(s: Seq<ForeignKeyDef>) -> Seq<ForeignKeySpec> {
    Seq::new(s.len(), |i: int| s[i]@)
}

impl View for TableDef {
    type V = TableSpec;

    open spec fn view(&self) -> TableSpec {
        TableSpec {
            name: self.name@,
            columns: cols_view(self.columns@),
            composite_primary_key: names_view(self.composite_primary_key@),
            foreign_keys: fks_view(self.foreign_keys@),
        }
    }
}

/// A plain column with no key, no auto-increment and no default.
pub open spec fn plain_col(name: Seq<char>, t: ColType, not_null: bool) -> ColumnSpec {
    ColumnSpec {
        name: name,
        col_type: t,
        not_null: not_null,
        primary_key: false,
        auto_increment: false,
        default_false: false,
    }
}

/// The shared column list of the three content tables.
pub open spec fn content_columns() -> Seq<ColumnSpec> {
    seq![
        ColumnSpec {
            name: "id"@,
            col_type: ColType::Integer,
            not_null: true,
            primary_key: true,
            auto_increment: false,
            default_false: false,
        },
        plain_col("title"@, ColType::Str, true),
        plain_col("url"@, ColType::Str, false),
        plain_col("image_url"@, ColType::Str, false),
        plain_col("news_site"@, ColType::Str, false),
        plain_col("summary"@, ColType::Text, false),
        plain_col("published_at"@, ColType::DateTime, true),
        plain_col("updated_at"@, ColType::DateTime, true),
        ColumnSpec {
            name: "featured"@,
            col_type: ColType::Boolean,
            not_null: true,
            primary_key: false,
            auto_increment: false,
            default_false: true,
        },
    ]
}

/// A content table: identical columns under the given name, no composite
/// key and no foreign keys.
pub open spec fn content_table_spec(name: Seq<char>) -> TableSpec {
    TableSpec {
        name: name,
        columns: content_columns(),
        composite_primary_key: Seq::<Seq<char>>::empty(),
        foreign_keys: Seq::<ForeignKeySpec>::empty(),
    }
}

/// The `authors` lookup table.
pub open spec fn authors_table_spec() -> TableSpec {
    TableSpec {
        name: "authors"@,
        columns: seq![
            ColumnSpec {
                name: "id"@,
                col_type: ColType::Integer,
                not_null: true,
                primary_key: true,
                auto_increment: false,
                default_false: false,
            },
            plain_col("name"@, ColType::Str, true),
        ],
        composite_primary_key: Seq::<Seq<char>>::empty(),
        foreign_keys: Seq::<ForeignKeySpec>::empty(),
    }
}

/// The `author_socials` table, one row per author, cascading with it.
pub open spec fn author_socials_table_spec() -> TableSpec {
    TableSpec {
        name: "author_socials"@,
        columns: seq![
            ColumnSpec {
                name: "author_id"@,
                col_type: ColType::Integer,
                not_null: true,
                primary_key: true,
                auto_increment: false,
                default_false: false,
            },
            plain_col("x"@, ColType::Str, false),
            plain_col("youtube"@, ColType::Str, false),
            plain_col("instagram"@, ColType::Str, false),
            plain_col("linkedin"@, ColType::Str, false),
            plain_col("mastodon"@, ColType::Str, false),
            plain_col("bluesky"@, ColType::Str, false),
        ],
        composite_primary_key: Seq::<Seq<char>>::empty(),
        foreign_keys: seq![
            ForeignKeySpec {
                name: "fk-author_socials-author_id"@,
                from_col: "author_id"@,
                to_table: "authors"@,
                to_col: "id"@,
            },
        ],
    }
}

/// A reference table (`launches`, `events`): an auto-incremented key and
/// the external id, name and provider read from the remote API.
pub open spec fn ref_table_spec(name: Seq<char>) -> TableSpec {
    TableSpec {
        name: name,
        columns: seq![
            ColumnSpec {
                name: "id"@,
                col_type: ColType::Integer,
                not_null: true,
                primary_key: true,
                auto_increment: true,
                default_false: false,
            },
            plain_col("external_id"@, ColType::BigInteger, false),
            plain_col("name"@, ColType::Str, false),
            plain_col("provider"@, ColType::Str, false),
        ],
        composite_primary_key: Seq::<Seq<char>>::empty(),
        foreign_keys: Seq::<ForeignKeySpec>::empty(),
    }
}

/// A many-to-many join table: two integer columns under a composite key,
/// each a cascade-deleting foreign key to its side.
pub open spec fn join_table_spec(
    name: Seq<char>,
    left_col: Seq<char>,
    left_table: Seq<char>,
    left_fk: Seq<char>,
    right_col: Seq<char>,
    right_table: Seq<char>,
    right_fk: Seq<char>,
) -> TableSpec {
    TableSpec {
        name: name,
        columns: seq![
            plain_col(left_col, ColType::Integer, true),
            plain_col(right_col, ColType::Integer, true),
        ],
        composite_primary_key: seq![left_col, right_col],
        foreign_keys: seq![
            ForeignKeySpec {
                name: left_fk,
                from_col: left_col,
                to_table: left_table,
                to_col: "id"@,
            },
            ForeignKeySpec {
                name: right_fk,
                from_col: right_col,
                to_table: right_table,
                to_col: "id"@,
            },
        ],
    }
}

/// Every table of the schema, in creation order: the shared lookup tables,
/// the three content tables, then the nine join tables.
pub open spec fn up_tables_spec() -> Seq<TableSpec> {
    seq![
        authors_table_spec(),
        author_socials_table_spec(),
        ref_table_spec("launches"@),
        ref_table_spec("events"@),
        content_table_spec("articles"@),
        content_table_spec("blogs"@),
        content_table_spec("reports"@),
        join_table_spec(
            "article_authors"@,
            "article_id"@,
            "articles"@,
            "fk-article_authors-article_id"@,
            "author_id"@,
            "authors"@,
            "fk-article_authors-author_id"@,
        ),
        join_table_spec(
            "blog_authors"@,
            "blog_id"@,
            "blogs"@,
            "fk-blog_authors-blog_id"@,
            "author_id"@,
            "authors"@,
            "fk-blog_authors-author_id"@,
        ),
        join_table_spec(
            "report_authors"@,
            "report_id"@,
            "reports"@,
            "fk-report_authors-report_id"@,
            "author_id"@,
            "authors"@,
            "fk-report_authors-author_id"@,
        ),
        join_table_spec(
            "article_launches"@,
            "article_id"@,
            "articles"@,
            "fk-article_launches-article_id"@,
            "launch_id"@,
            "launches"@,
            "fk-article_launches-launch_id"@,
        ),
        join_table_spec(
            "blog_launches"@,
            "blog_id"@,
            "blogs"@,
            "fk-blog_launches-blog_id"@,
            "launch_id"@,
            "launches"@,
            "fk-blog_launches-launch_id"@,
        ),
        join_table_spec(
            "report_launches"@,
            "report_id"@,
            "reports"@,
            "fk-report_launches-report_id"@,
            "launch_id"@,
            "launches"@,
            "fk-report_launches-launch_id"@,
        ),
        join_table_spec(
            "article_events"@,
            "article_id"@,
            "articles"@,
            "fk-article_events-article_id"@,
            "event_id"@,
            "events"@,
            "fk-article_events-event_id"@,
        ),
        join_table_spec(
            "blog_events"@,
            "blog_id"@,
            "blogs"@,
            "fk-blog_events-blog_id"@,
            "event_id"@,
            "events"@,
            "fk-blog_events-event_id"@,
        ),
        join_table_spec(
            "report_events"@,
            "report_id"@,
            "reports"@,
            "fk-report_events-report_id"@,
            "event_id"@,
            "events"@,
            "fk-report_events-event_id"@,
        ),
    ]
}

/// The lookup indexes created after the tables.
pub open spec fn up_indexes_spec() -> Seq<IndexSpec> {
    seq![
        IndexSpec {
            name: "idx-article_authors-author_id"@,
            table: "article_authors"@,
            col: "author_id"@,
        },
        IndexSpec {
            name: "idx-blog_authors-author_id"@,
            table: "blog_authors"@,
            col: "author_id"@,
        },
        IndexSpec {
            name: "idx-report_authors-author_id"@,
            table: "report_authors"@,
            col: "author_id"@,
        },
    ]
}

/// The names of the tables in creation order.
pub open spec fn up_table_names() -> Seq<Seq<char>> {
    Seq::new(up_tables_spec().len(), |i: int| up_tables_spec()[i].name)
}

/// The order tables are dropped in.
pub open spec fn down_order_spec() -> Seq<Seq<char>> {
    Seq::new(up_tables_spec().len(), |i: int| up_tables_spec()[up_tables_spec().len() - 1 - i].name)
}

/// The spec-level form of a table list.
pub open spec fn tables_view(s: Seq<TableDef>) -> Seq<TableSpec> {
    Seq::new(s.len(), |i: int| s[i]@)
}

/// The spec-level form of an index list.
pub open spec fn indexes_view(s: Seq<IndexDef>) -> Seq<IndexSpec> {
    Seq::new(s.len(), |i: int| s[i]@)
}

fn plain_column(name: &str, t: ColType, not_null: bool) -> (r: ColumnDef)
    ensures
        r@ == plain_col(name@, t, not_null),
{
    ColumnDef {
        name: String::from_str(name),
        col_type: t,
        not_null,
        primary_key: false,
        auto_increment: false,
        default_false: false,
    }
}

fn key_column(name: &str, auto_increment: bool) -> (r: ColumnDef)
    ensures
        r@ == (ColumnSpec {
            name: name@,
            col_type: ColType::Integer,
            not_null: true,
            primary_key: true,
            auto_increment: auto_increment,
            default_false: false,
        }),
{
    ColumnDef {
        name: String::from_str(name),
        col_type: ColType::Integer,
        not_null: true,
        primary_key: true,
        auto_increment,
        default_false: false,
    }
}

/// The table shared by the three content kinds, under the given name.
pub fn content_table(name: &str) -> (r: TableDef)
    ensures
        r@ == content_table_spec(name@),
{
    let mut columns: Vec<ColumnDef> = Vec::new();
    columns.push(key_column("id", false));
    columns.push(plain_column("title", ColType::Str, true));
    columns.push(plain_column("url", ColType::Str, false));
    columns.push(plain_column("image_url", ColType::Str, false));
    columns.push(plain_column("news_site", ColType::Str, false));
    columns.push(plain_column("summary", ColType::Text, false));
    columns.push(plain_column("published_at", ColType::DateTime, true));
    columns.push(plain_column("updated_at", ColType::DateTime, true));
    columns.push(
        ColumnDef {
            name: String::from_str("featured"),
            col_type: ColType::Boolean,
            not_null: true,
            primary_key: false,
            auto_increment: false,
            default_false: true,
        },
    );
    let r = TableDef {
        name: String::from_str(name),
        columns,
        composite_primary_key: Vec::new(),
        foreign_keys: Vec::new(),
    };
    proof {
        assert(cols_view(r.columns@) =~= content_columns());
        assert(names_view(r.composite_primary_key@) =~= Seq::<Seq<char>>::empty());
        assert(fks_view(r.foreign_keys@) =~= Seq::<ForeignKeySpec>::empty());
    }
    r
}

fn authors_table() -> (r: TableDef)
    ensures
        r@ == authors_table_spec(),
{
    let mut columns: Vec<ColumnDef> = Vec::new();
    columns.push(key_column("id", false));
    columns.push(plain_column("name", ColType::Str, true));
    let r = TableDef {
        name: String::from_str("authors"),
        columns,
        composite_primary_key: Vec::new(),
        foreign_keys: Vec::new(),
    };
    proof {
        assert(cols_view(r.columns@) =~= authors_table_spec().columns);
        assert(names_view(r.composite_primary_key@) =~= Seq::<Seq<char>>::empty());
        assert(fks_view(r.foreign_keys@) =~= Seq::<ForeignKeySpec>::empty());
    }
    r
}

fn author_socials_table() -> (r: TableDef)
    ensures
        r@ == author_socials_table_spec(),
{
    let mut columns: Vec<ColumnDef> = Vec::new();
    columns.push(key_column("author_id", false));
    columns.push(plain_column("x", ColType::Str, false));
    columns.push(plain_column("youtube", ColType::Str, false));
    columns.push(plain_column("instagram", ColType::Str, false));
    columns.push(plain_column("linkedin", ColType::Str, false));
    columns.push(plain_column("mastodon", ColType::Str, false));
    columns.push(plain_column("bluesky", ColType::Str, false));
    let mut foreign_keys: Vec<ForeignKeyDef> = Vec::new();
    foreign_keys.push(
        ForeignKeyDef {
            name: String::from_str("fk-author_socials-author_id"),
            from_col: String::from_str("author_id"),
            to_table: String::from_str("authors"),
            to_col: String::from_str("id"),
        },
    );
    let r = TableDef {
        name: String::from_str("author_socials"),
        columns,
        composite_primary_key: Vec::new(),
        foreign_keys,
    };
    proof {
        assert(cols_view(r.columns@) =~= author_socials_table_spec().columns);
        assert(names_view(r.composite_primary_key@) =~= Seq::<Seq<char>>::empty());
        assert(fks_view(r.foreign_keys@) =~= author_socials_table_spec().foreign_keys);
    }
    r
}

fn ref_table(name: &str) -> (r: TableDef)
    ensures
        r@ == ref_table_spec(name@),
{
    let mut columns: Vec<ColumnDef> = Vec::new();
    columns.push(key_column("id", true));
    columns.push(plain_column("external_id", ColType::BigInteger, false));
    columns.push(plain_column("name", ColType::Str, false));
    columns.push(plain_column("provider", ColType::Str, false));
    let r = TableDef {
        name: String::from_str(name),
        columns,
        composite_primary_key: Vec::new(),
        foreign_keys: Vec::new(),
    };
    proof {
        assert(cols_view(r.columns@) =~= ref_table_spec(name@).columns);
        assert(names_view(r.composite_primary_key@) =~= Seq::<Seq<char>>::empty());
        assert(fks_view(r.foreign_keys@) =~= Seq::<ForeignKeySpec>::empty());
    }
    r
}

fn join_table(
    name: &str,
    left_col: &str,
    left_table: &str,
    left_fk: &str,
    right_col: &str,
    right_table: &str,
    right_fk: &str,
) -> (r: TableDef)
    ensures
        r@ == join_table_spec(name@, left_col@, left_table@, left_fk@, right_col@, right_table@, right_fk@),
{
    let mut columns: Vec<ColumnDef> = Vec::new();
    columns.push(plain_column(left_col, ColType::Integer, true));
    columns.push(plain_column(right_col, ColType::Integer, true));
    let mut composite_primary_key: Vec<String> = Vec::new();
    composite_primary_key.push(String::from_str(left_col));
    composite_primary_key.push(String::from_str(right_col));
    let mut foreign_keys: Vec<ForeignKeyDef> = Vec::new();
    foreign_keys.push(
        ForeignKeyDef {
            name: String::from_str(left_fk),
            from_col: String::from_str(left_col),
            to_table: String::from_str(left_table),
            to_col: String::from_str("id"),
        },
    );
    foreign_keys.push(
        ForeignKeyDef {
            name: String::from_str(right_fk),
            from_col: String::from_str(right_col),
            to_table: String::from_str(right_table),
            to_col: String::from_str("id"),
        },
    );
    let r = TableDef { name: String::from_str(name), columns, composite_primary_key, foreign_keys };
    let ghost spec_r = join_table_spec(
        name@,
        left_col@,
        left_table@,
        left_fk@,
        right_col@,
        right_table@,
        right_fk@,
    );
    proof {
        assert(cols_view(r.columns@) =~= spec_r.columns);
        assert(names_view(r.composite_primary_key@) =~= spec_r.composite_primary_key);
        assert(fks_view(r.foreign_keys@) =~= spec_r.foreign_keys);
    }
    r
}

/// Every table of the schema, in creation order.
pub fn up_tables() -> (r: Vec<TableDef>)
    ensures
        tables_view(r@) == up_tables_spec(),
{
    let mut out: Vec<TableDef> = Vec::new();
    out.push(authors_table());
    out.push(author_socials_table());
    out.push(ref_table("launches"));
    out.push(ref_table("events"));
    out.push(content_table("articles"));
    out.push(content_table("blogs"));
    out.push(content_table("reports"));
    out.push(
        join_table(
            "article_authors",
            "article_id",
            "articles",
            "fk-article_authors-article_id",
            "author_id",
            "authors",
            "fk-article_authors-author_id",
        ),
    );
    out.push(
        join_table(
            "blog_authors",
            "blog_id",
            "blogs",
            "fk-blog_authors-blog_id",
            "author_id",
            "authors",
            "fk-blog_authors-author_id",
        ),
    );
    out.push(
        join_table(
            "report_authors",
            "report_id",
            "reports",
            "fk-report_authors-report_id",
            "author_id",
            "authors",
            "fk-report_authors-author_id",
        ),
    );
    out.push(
        join_table(
            "article_launches",
            "article_id",
            "articles",
            "fk-article_launches-article_id",
            "launch_id",
            "launches",
            "fk-article_launches-launch_id",
        ),
    );
    out.push(
        join_table(
            "blog_launches",
            "blog_id",
            "blogs",
            "fk-blog_launches-blog_id",
            "launch_id",
            "launches",
            "fk-blog_launches-launch_id",
        ),
    );
    out.push(
        join_table(
            "report_launches",
            "report_id",
            "reports",
            "fk-report_launches-report_id",
            "launch_id",
            "launches",
            "fk-report_launches-launch_id",
        ),
    );
    out.push(
        join_table(
            "article_events",
            "article_id",
            "articles",
            "fk-article_events-article_id",
            "event_id",
            "events",
            "fk-article_events-event_id",
        ),
    );
    out.push(
        join_table(
            "blog_events",
            "blog_id",
            "blogs",
            "fk-blog_events-blog_id",
            "event_id",
            "events",
            "fk-blog_events-event_id",
        ),
    );
    out.push(
        join_table(
            "report_events",
            "report_id",
            "reports",
            "fk-report_events-report_id",
            "event_id",
            "events",
            "fk-report_events-event_id",
        ),
    );
    proof {
        assert(tables_view(out@) =~= up_tables_spec());
    }
    out
}

/// The lookup indexes created after the tables.
pub fn up_indexes() -> (r: Vec<IndexDef>)
    ensures
        indexes_view(r@) == up_indexes_spec(),
{
    let mut out: Vec<IndexDef> = Vec::new();
    out.push(
        IndexDef {
            name: String::from_str("idx-article_authors-author_id"),
            table: String::from_str("article_authors"),
            col: String::from_str("author_id"),
        },
    );
    out.push(
        IndexDef {
            name: String::from_str("idx-blog_authors-author_id"),
            table: String::from_str("blog_authors"),
            col: String::from_str("author_id"),
        },
    );
    out.push(
        IndexDef {
            name: String::from_str("idx-report_authors-author_id"),
            table: String::from_str("report_authors"),
            col: String::from_str("author_id"),
        },
    );
    proof {
        assert(indexes_view(out@) =~= up_indexes_spec());
    }
    out
}

/// The order the tables are dropped in: the join tables first, then the
/// content tables, then the lookup tables — the creation order reversed.
pub fn down_table_order() -> (r: Vec<String>)
    ensures
        names_view(r@) == down_order_spec(),
{
    let mut out: Vec<String> = Vec::new();
    out.push(String::from_str("report_events"));
    out.push(String::from_str("blog_events"));
    out.push(String::from_str("article_events"));
    out.push(String::from_str("report_launches"));
    out.push(String::from_str("blog_launches"));
    out.push(String::from_str("article_launches"));
    out.push(String::from_str("report_authors"));
    out.push(String::from_str("blog_authors"));
    out.push(String::from_str("article_authors"));
    out.push(String::from_str("reports"));
    out.push(String::from_str("blogs"));
    out.push(String::from_str("articles"));
    out.push(String::from_str("events"));
    out.push(String::from_str("launches"));
    out.push(String::from_str("author_socials"));
    out.push(String::from_str("authors"));
    proof {
        assert(names_view(out@) =~= down_order_spec());
    }
    out
}

/// Law: creation order respects dependencies — every foreign key of every
/// table points at a table created strictly earlier in the plan.
pub proof fn lemma_up_creates_before_use()
    ensures
        forall|i: int, k: int|
            0 <= i < up_tables_spec().len() && 0 <= k < up_tables_spec()[i].foreign_keys.len()
                ==> exists|j: int|
                0 <= j < i && (#[trigger] up_tables_spec()[j]).name == (
                #[trigger] up_tables_spec()[i].foreign_keys[k]).to_table,
{
    assert forall|i: int, k: int|
        0 <= i < up_tables_spec().len() && 0 <= k < up_tables_spec()[i].foreign_keys.len()
            implies exists|j: int|
        0 <= j < i && (#[trigger] up_tables_spec()[j]).name == (
        #[trigger] up_tables_spec()[i].foreign_keys[k]).to_table by {
        let target = up_tables_spec()[i].foreign_keys[k].to_table;
        if i == 1 {
            assert(up_tables_spec()[0].name == target);
        } else if i == 7 || i == 8 || i == 9 {
            if k == 0 {
                assert(up_tables_spec()[i - 3].name == target);
            } else {
                assert(up_tables_spec()[0].name == target);
            }
        } else if i == 10 || i == 11 || i == 12 {
            if k == 0 {
                assert(up_tables_spec()[i - 6].name == target);
            } else {
                assert(up_tables_spec()[2].name == target);
            }
        } else if i == 13 || i == 14 || i == 15 {
            if k == 0 {
                assert(up_tables_spec()[i - 9].name == target);
            } else {
                assert(up_tables_spec()[3].name == target);
            }
        }
    }
}

/// Law: the table names of the plan are pairwise distinct, so the reversed
/// drop order removes each referencing table strictly before the table its
/// foreign keys point at.
#[verifier::rlimit(100)]
pub proof fn lemma_table_names_distinct()
    ensures
        forall|a: int, b: int|
            0 <= a < b < up_tables_spec().len() ==> (#[trigger] up_tables_spec()[a]).name != (
            #[trigger] up_tables_spec()[b]).name,
{
    reveal_strlit("authors");
    reveal_strlit("author_socials");
    reveal_strlit("launches");
    reveal_strlit("events");
    reveal_strlit("articles");
    reveal_strlit("blogs");
    reveal_strlit("reports");
    reveal_strlit("article_authors");
    reveal_strlit("blog_authors");
    reveal_strlit("report_authors");
    reveal_strlit("article_launches");
    reveal_strlit("blog_launches");
    reveal_strlit("report_launches");
    reveal_strlit("article_events");
    reveal_strlit("blog_events");
    reveal_strlit("report_events");
    assert forall|a: int, b: int|
        0 <= a < b < up_tables_spec().len() implies (#[trigger] up_tables_spec()[a]).name != (
    #[trigger] up_tables_spec()[b]).name by {
        assert(up_tables_spec()[0].name == "authors"@);
        assert(up_tables_spec()[1].name == "author_socials"@);
        assert(up_tables_spec()[2].name == "launches"@);
        assert(up_tables_spec()[3].name == "events"@);
        assert(up_tables_spec()[4].name == "articles"@);
        assert(up_tables_spec()[5].name == "blogs"@);
        assert(up_tables_spec()[6].name == "reports"@);
        assert(up_tables_spec()[7].name == "article_authors"@);
        assert(up_tables_spec()[8].name == "blog_authors"@);
        assert(up_tables_spec()[9].name == "report_authors"@);
        assert(up_tables_spec()[10].name == "article_launches"@);
        assert(up_tables_spec()[11].name == "blog_launches"@);
        assert(up_tables_spec()[12].name == "report_launches"@);
        assert(up_tables_spec()[13].name == "article_events"@);
        assert(up_tables_spec()[14].name == "blog_events"@);
        assert(up_tables_spec()[15].name == "report_events"@);
        assert(("authors"@)[0] != ("reports"@)[0]);
        assert(("author_socials"@)[1] != ("report_authors"@)[1]);
        assert(("author_socials"@)[1] != ("article_events"@)[1]);
        assert(("report_authors"@)[0] != ("article_events"@)[0]);
        assert(("launches"@)[0] != ("articles"@)[0]);
        assert(("article_authors"@)[0] != ("report_launches"@)[0]);
        assert(("blog_launches"@)[0] != ("report_events"@)[0]);
        assert("authors"@ != "author_socials"@);
        assert("authors"@ != "launches"@);
        assert("authors"@ != "events"@);
        assert("authors"@ != "articles"@);
        assert("authors"@ != "blogs"@);
        assert("authors"@ != "reports"@);
        assert("authors"@ != "article_authors"@);
        assert("authors"@ != "blog_authors"@);
        assert("authors"@ != "report_authors"@);
        assert("authors"@ != "article_launches"@);
        assert("authors"@ != "blog_launches"@);
        assert("authors"@ != "report_launches"@);
        assert("authors"@ != "article_events"@);
        assert("authors"@ != "blog_events"@);
        assert("authors"@ != "report_events"@);
        assert("author_socials"@ != "launches"@);
        assert("author_socials"@ != "events"@);
        assert("author_socials"@ != "articles"@);
        assert("author_socials"@ != "blogs"@);
        assert("author_socials"@ != "reports"@);
        assert("author_socials"@ != "article_authors"@);
        assert("author_socials"@ != "blog_authors"@);
        assert("author_socials"@ != "report_authors"@);
        assert("author_socials"@ != "article_launches"@);
        assert("author_socials"@ != "blog_launches"@);
        assert("author_socials"@ != "report_launches"@);
        assert("author_socials"@ != "article_events"@);
        assert("author_socials"@ != "blog_events"@);
        assert("author_socials"@ != "report_events"@);
        assert("launches"@ != "events"@);
        assert("launches"@ != "articles"@);
        assert("launches"@ != "blogs"@);
        assert("launches"@ != "reports"@);
        assert("launches"@ != "article_authors"@);
        assert("launches"@ != "blog_authors"@);
        assert("launches"@ != "report_authors"@);
        assert("launches"@ != "article_launches"@);
        assert("launches"@ != "blog_launches"@);
        assert("launches"@ != "report_launches"@);
        assert("launches"@ != "article_events"@);
        assert("launches"@ != "blog_events"@);
        assert("launches"@ != "report_events"@);
        assert("events"@ != "articles"@);
        assert("events"@ != "blogs"@);
        assert("events"@ != "reports"@);
        assert("events"@ != "article_authors"@);
        assert("events"@ != "blog_authors"@);
        assert("events"@ != "report_authors"@);
        assert("events"@ != "article_launches"@);
        assert("events"@ != "blog_launches"@);
        assert("events"@ != "report_launches"@);
        assert("events"@ != "article_events"@);
        assert("events"@ != "blog_events"@);
        assert("events"@ != "report_events"@);
        assert("articles"@ != "blogs"@);
        assert("articles"@ != "reports"@);
        assert("articles"@ != "article_authors"@);
        assert("articles"@ != "blog_authors"@);
        assert("articles"@ != "report_authors"@);
        assert("articles"@ != "article_launches"@);
        assert("articles"@ != "blog_launches"@);
        assert("articles"@ != "report_launches"@);
        assert("articles"@ != "article_events"@);
        assert("articles"@ != "blog_events"@);
        assert("articles"@ != "report_events"@);
        assert("blogs"@ != "reports"@);
        assert("blogs"@ != "article_authors"@);
        assert("blogs"@ != "blog_authors"@);
        assert("blogs"@ != "report_authors"@);
        assert("blogs"@ != "article_launches"@);
        assert("blogs"@ != "blog_launches"@);
        assert("blogs"@ != "report_launches"@);
        assert("blogs"@ != "article_events"@);
        assert("blogs"@ != "blog_events"@);
        assert("blogs"@ != "report_events"@);
        assert("reports"@ != "article_authors"@);
        assert("reports"@ != "blog_authors"@);
        assert("reports"@ != "report_authors"@);
        assert("reports"@ != "article_launches"@);
        assert("reports"@ != "blog_launches"@);
        assert("reports"@ != "report_launches"@);
        assert("reports"@ != "article_events"@);
        assert("reports"@ != "blog_events"@);
        assert("reports"@ != "report_events"@);
        assert("article_authors"@ != "blog_authors"@);
        assert("article_authors"@ != "report_authors"@);
        assert("article_authors"@ != "article_launches"@);
        assert("article_authors"@ != "blog_launches"@);
        assert("article_authors"@ != "report_launches"@);
        assert("article_authors"@ != "article_events"@);
        assert("article_authors"@ != "blog_events"@);
        assert("article_authors"@ != "report_events"@);
        assert("blog_authors"@ != "report_authors"@);
        assert("blog_authors"@ != "article_launches"@);
        assert("blog_authors"@ != "blog_launches"@);
        assert("blog_authors"@ != "report_launches"@);
        assert("blog_authors"@ != "article_events"@);
        assert("blog_authors"@ != "blog_events"@);
        assert("blog_authors"@ != "report_events"@);
        assert("report_authors"@ != "article_launches"@);
        assert("report_authors"@ != "blog_launches"@);
        assert("report_authors"@ != "report_launches"@);
        assert("report_authors"@ != "article_events"@);
        assert("report_authors"@ != "blog_events"@);
        assert("report_authors"@ != "report_events"@);
        assert("article_launches"@ != "blog_launches"@);
        assert("article_launches"@ != "report_launches"@);
        assert("article_launches"@ != "article_events"@);
        assert("article_launches"@ != "blog_events"@);
        assert("article_launches"@ != "report_events"@);
        assert("blog_launches"@ != "report_launches"@);
        assert("blog_launches"@ != "article_events"@);
        assert("blog_launches"@ != "blog_events"@);
        assert("blog_launches"@ != "report_events"@);
        assert("report_launches"@ != "article_events"@);
        assert("report_launches"@ != "blog_events"@);
        assert("report_launches"@ != "report_events"@);
        assert("article_events"@ != "blog_events"@);
        assert("article_events"@ != "report_events"@);
        assert("blog_events"@ != "report_events"@);
    }
}

/// Law: the drop order is exactly the creation order reversed, so with
/// the two laws above every table is dropped before every table it
/// references — strict reverse dependency order.
pub proof fn lemma_down_reverses_up()
    ensures
        down_order_spec().len() == up_tables_spec().len(),
        forall|i: int|
            0 <= i < down_order_spec().len() ==> #[trigger] down_order_spec()[i]
                == up_tables_spec()[up_tables_spec().len() - 1 - i].name,
{
}

} // verus!
