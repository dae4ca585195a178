//! The database schema: the tables that the first migration creates, and the
//! order in which it drops them again.

use vstd::prelude::*;

verus! {

/// The tables of the schema.
#[derive(Clone, Copy, Debug, PartialEq, Eq, Structural)]
pub enum Table {
    Users,
    Sessions,
    PasswordAuth,
}

/// The columns of the schema.
#[derive(Clone, Copy, Debug, PartialEq, Eq, Structural)]
pub enum Column {
    Id,
    Username,
    DisplayName,
    Created,
    UserId,
    Start,
    Hash,
    QueueRehash,
}

/// The value types of the columns.
#[derive(Clone, Copy, Debug, PartialEq, Eq, Structural)]
pub enum ColumnType {
    Integer,
    String,
    TimestampWithTimeZone,
    Boolean,
}

/// One column and its constraints.
#[derive(Clone, Copy, Debug, PartialEq, Eq, Structural)]
pub struct ColumnSpec {
    pub column: Column,
    pub column_type: ColumnType,
    pub not_null: bool,
    pub auto_increment: bool,
    pub primary_key: bool,
    pub unique_key: bool,
}

/// What the database does to referring rows when a referred row changes.
#[derive(Clone, Copy, Debug, PartialEq, Eq, Structural)]
pub enum ReferentialAction {
    Cascade,
    Restrict,
    SetNull,
    SetDefault,
    NoAction,
}

/// A named foreign key from a column of the table to a column of another
/// table, with what happens on update and on delete of the referred row.
#[derive(Clone, Copy, Debug)]
pub struct ForeignKeySpec {
    pub name: &'static str,
    pub from_column: Column,
    pub to_table: Table,
    pub to_column: Column,
    pub on_update: ReferentialAction,
    pub on_delete: ReferentialAction,
}

/// One table to create; with `if_not_exists`, creating it again leaves an
/// existing table as it is.
pub struct TableSpec {
    pub table: Table,
    pub if_not_exists: bool,
    pub columns: Vec<ColumnSpec>,
    pub foreign_keys: Vec<ForeignKeySpec>,
}

/// The name of the foreign keys of the schema.
pub const FOREIGN_KEY_NAME: &'static str = "fk_user";

/// The SQL name of a table.
pub open spec fn spec_table_name(t: Table) -> Seq<char> {
    match t {
        Table::Users => "users"@,
        Table::Sessions => "sessions"@,
        Table::PasswordAuth => "password_auth"@,
    }
}

/// The SQL name of a column.
pub open spec fn spec_column_name(c: Column) -> Seq<char> {
    match c {
        Column::Id => "id"@,
        Column::Username => "username"@,
        Column::DisplayName => "display_name"@,
        Column::Created => "created"@,
        Column::UserId => "user_id"@,
        Column::Start => "start"@,
        Column::Hash => "hash"@,
        Column::QueueRehash => "queue_rehash"@,
    }
}

/// The identifier of each column, as the schema spells it.
pub open spec fn column_identifier(c: Column) -> Seq<char> {
    match c {
        Column::Id => "Id"@,
        Column::Username => "Username"@,
        Column::DisplayName => "DisplayName"@,
        Column::Created => "Created"@,
        Column::UserId => "UserId"@,
        Column::Start => "Start"@,
        Column::Hash => "Hash"@,
        Column::QueueRehash => "QueueRehash"@,
    }
}

/// The identifier of each table, as the schema spells it.
pub open spec fn table_identifier(t: Table) -> Seq<char> {
    match t {
        Table::Users => "Users"@,
        Table::Sessions => "Sessions"@,
        Table::PasswordAuth => "PasswordAuth"@,
    }
}

/// An upper-case ASCII letter.
pub open spec fn is_upper(c: char) -> bool {
    'A' <= c && c <= 'Z'
}

/// The lower-case form of an ASCII letter; other characters stay.
pub open spec fn to_lower(c: char) -> char {
    if is_upper(c) {
        ((c as u32) + 32) as char
    } else {
        c
    }
}

/// The snake_case form of a CamelCase identifier: every letter in lower
/// case, and an underscore before every upper-case letter but the first.
pub open spec fn snake_case(s: Seq<char>) -> Seq<char>
    decreases s.len(),
{
    if s.len() == 0 {
        Seq::<char>::empty()
    } else if is_upper(s.last()) && s.len() > 1 {
        snake_case(s.drop_last()) + seq!['_', to_lower(s.last())]
    } else {
        snake_case(s.drop_last()).push(to_lower(s.last()))
    }
}

proof fn lemma_snake_id()
    ensures
        snake_case("Id"@) == "id"@,
{
    reveal_with_fuel(snake_case, 13);
    reveal_strlit("Id");
    reveal_strlit("id");
    assert(snake_case("Id"@) =~= "id"@);
}

proof fn lemma_snake_username()
    ensures
        snake_case("Username"@) == "username"@,
{
    reveal_with_fuel(snake_case, 13);
    reveal_strlit("Username");
    reveal_strlit("username");
    assert(snake_case("Username"@) =~= "username"@);
}

proof fn lemma_snake_display_name()
    ensures
        snake_case("DisplayName"@) == "display_name"@,
{
    reveal_with_fuel(snake_case, 13);
    reveal_strlit("DisplayName");
    reveal_strlit("display_name");
    assert(snake_case("DisplayName"@) =~= "display_name"@);
}

proof fn lemma_snake_created()
    ensures
        snake_case("Created"@) == "created"@,
{
    reveal_with_fuel(snake_case, 13);
    reveal_strlit("Created");
    reveal_strlit("created");
    assert(snake_case("Created"@) =~= "created"@);
}

proof fn lemma_snake_user_id()
    ensures
        snake_case("UserId"@) == "user_id"@,
{
    reveal_with_fuel(snake_case, 13);
    reveal_strlit("UserId");
    reveal_strlit("user_id");
    assert(snake_case("UserId"@) =~= "user_id"@);
}

proof fn lemma_snake_start()
    ensures
        snake_case("Start"@) == "start"@,
{
    reveal_with_fuel(snake_case, 13);
    reveal_strlit("Start");
    reveal_strlit("start");
    assert(snake_case("Start"@) =~= "start"@);
}

proof fn lemma_snake_hash()
    ensures
        snake_case("Hash"@) == "hash"@,
{
    reveal_with_fuel(snake_case, 13);
    reveal_strlit("Hash");
    reveal_strlit("hash");
    assert(snake_case("Hash"@) =~= "hash"@);
}

proof fn lemma_snake_queue_rehash()
    ensures
        snake_case("QueueRehash"@) == "queue_rehash"@,
{
    reveal_with_fuel(snake_case, 13);
    reveal_strlit("QueueRehash");
    reveal_strlit("queue_rehash");
    assert(snake_case("QueueRehash"@) =~= "queue_rehash"@);
}

proof fn lemma_snake_users()
    ensures
        snake_case("Users"@) == "users"@,
{
    reveal_with_fuel(snake_case, 13);
    reveal_strlit("Users");
    reveal_strlit("users");
    assert(snake_case("Users"@) =~= "users"@);
}

proof fn lemma_snake_sessions()
    ensures
        snake_case("Sessions"@) == "sessions"@,
{
    reveal_with_fuel(snake_case, 13);
    reveal_strlit("Sessions");
    reveal_strlit("sessions");
    assert(snake_case("Sessions"@) =~= "sessions"@);
}

proof fn lemma_snake_password_auth()
    ensures
        snake_case("PasswordAuth"@) == "password_auth"@,
{
    reveal_with_fuel(snake_case, 13);
    reveal_strlit("PasswordAuth");
    reveal_strlit("password_auth");
    assert(snake_case("PasswordAuth"@) =~= "password_auth"@);
}

/// Every SQL name of the schema is the snake_case form of the identifier it
/// is declared with.
pub proof fn lemma_names_are_snake_case()
    ensures
        forall|c: Column| #[trigger] spec_column_name(c) == snake_case(column_identifier(c)),
        forall|t: Table| #[trigger] spec_table_name(t) == snake_case(table_identifier(t)),
{
    lemma_snake_id();
    lemma_snake_username();
    lemma_snake_display_name();
    lemma_snake_created();
    lemma_snake_user_id();
    lemma_snake_start();
    lemma_snake_hash();
    lemma_snake_queue_rehash();
    lemma_snake_users();
    lemma_snake_sessions();
    lemma_snake_password_auth();
}

impl Table {
    /// The SQL name of the table.
    pub fn name(&self) -> (n: &'static str)
        ensures
            n@ == spec_table_name(*self),
            *self == Table::Users ==> n@ == "users"@,
            *self == Table::Sessions ==> n@ == "sessions"@,
            *self == Table::PasswordAuth ==> n@ == "password_auth"@,
            n@ == snake_case(table_identifier(*self)),
    {
        proof {
            lemma_names_are_snake_case();
            assert(spec_table_name(*self) == snake_case(table_identifier(*self)));
        }
        match self {
            Table::Users => "users",
            Table::Sessions => "sessions",
            Table::PasswordAuth => "password_auth",
        }
    }
}

impl Column {
    /// The SQL name of the column.
    pub fn name(&self) -> (n: &'static str)
        ensures
            n@ == spec_column_name(*self),
            *self == Column::Id ==> n@ == "id"@,
            *self == Column::Username ==> n@ == "username"@,
            *self == Column::DisplayName ==> n@ == "display_name"@,
            *self == Column::Created ==> n@ == "created"@,
            *self == Column::UserId ==> n@ == "user_id"@,
            *self == Column::Start ==> n@ == "start"@,
            *self == Column::Hash ==> n@ == "hash"@,
            *self == Column::QueueRehash ==> n@ == "queue_rehash"@,
            n@ == snake_case(column_identifier(*self)),
    {
        proof {
            lemma_names_are_snake_case();
            assert(spec_column_name(*self) == snake_case(column_identifier(*self)));
        }
        match self {
            Column::Id => "id",
            Column::Username => "username",
            Column::DisplayName => "display_name",
            Column::Created => "created",
            Column::UserId => "user_id",
            Column::Start => "start",
            Column::Hash => "hash",
            Column::QueueRehash => "queue_rehash",
        }
    }
}

/// A column that must hold a value, with no other constraint.
pub open spec fn plain(column: Column, column_type: ColumnType) -> ColumnSpec {
    ColumnSpec { column, column_type, not_null: true, auto_increment: false, primary_key: false, unique_key: false }
}

/// An integer id that the database counts up.
pub open spec fn serial_key(column: Column) -> ColumnSpec {
    ColumnSpec {
        column,
        column_type: ColumnType::Integer,
        not_null: true,
        auto_increment: true,
        primary_key: true,
        unique_key: false,
    }
}

/// The columns of each table, in order.
pub open spec fn spec_columns(t: Table) -> Seq<ColumnSpec> {
    match t {
        Table::Users => seq![
            serial_key(Column::Id),
            ColumnSpec { unique_key: true, ..plain(Column::Username, ColumnType::String) },
            plain(Column::DisplayName, ColumnType::String),
            plain(Column::Created, ColumnType::TimestampWithTimeZone),
        ],
        Table::Sessions => seq![
            serial_key(Column::Id),
            plain(Column::UserId, ColumnType::Integer),
            plain(Column::Start, ColumnType::TimestampWithTimeZone),
        ],
        Table::PasswordAuth => seq![
            ColumnSpec { primary_key: true, ..plain(Column::UserId, ColumnType::Integer) },
            plain(Column::Hash, ColumnType::String),
            plain(Column::QueueRehash, ColumnType::Boolean),
        ],
    }
}

/// The key from `user_id` to `users.id`, named `fk_user`, cascading on
/// update and on delete: deleting a user deletes the rows that refer to it.
pub open spec fn user_key() -> ForeignKeySpec {
    ForeignKeySpec {
        name: FOREIGN_KEY_NAME,
        from_column: Column::UserId,
        to_table: Table::Users,
        to_column: Column::Id,
        on_update: ReferentialAction::Cascade,
        on_delete: ReferentialAction::Cascade,
    }
}

/// The foreign keys of each table.
pub open spec fn spec_foreign_keys(t: Table) -> Seq<ForeignKeySpec> {
    match t {
        Table::Users => seq![],
        _ => seq![user_key()],
    }
}

/// The tables in the order that the migration creates them.
pub open spec fn creation_order() -> Seq<Table> {
    seq![Table::Users, Table::Sessions, Table::PasswordAuth]
}

impl TableSpec {
    /// The abstract content: table, whether it is created only if absent,
    /// columns and foreign keys.
    pub open spec fn spec_view(&self) -> (Table, bool, Seq<ColumnSpec>, Seq<ForeignKeySpec>) {
        (self.table, self.if_not_exists, self.columns@, self.foreign_keys@)
    }
}

/// The table as `up` creates it: only if it does not exist yet.
pub open spec fn spec_table(t: Table) -> (Table, bool, Seq<ColumnSpec>, Seq<ForeignKeySpec>) {
    (t, true, spec_columns(t), spec_foreign_keys(t))
}

fn plain_column(column: Column, column_type: ColumnType) -> (c: ColumnSpec)
    ensures
        c == plain(column, column_type),
{
    ColumnSpec { column, column_type, not_null: true, auto_increment: false, primary_key: false, unique_key: false }
}

fn user_foreign_key() -> (k: ForeignKeySpec)
    ensures
        k == user_key(),
{
    ForeignKeySpec {
        name: FOREIGN_KEY_NAME,
        from_column: Column::UserId,
        to_table: Table::Users,
        to_column: Column::Id,
        on_update: ReferentialAction::Cascade,
        on_delete: ReferentialAction::Cascade,
    }
}

/// The tables that the migration creates, in order.
pub fn up() -> (tables: Vec<TableSpec>)
    ensures
        tables@.len() == creation_order().len(),
        forall|i: int| 0 <= i < tables@.len() ==> #[trigger] tables@[i].spec_view() == spec_table(creation_order()[i]),
        tables@.len() == 3,
        tables@[0].table == Table::Users,
        tables@[1].table == Table::Sessions,
        tables@[2].table == Table::PasswordAuth,
        forall|i: int| 0 <= i < tables@.len() ==> (#[trigger] tables@[i]).if_not_exists,
        forall|i: int, c: int|
            0 <= i < tables@.len() && 0 <= c < tables@[i].columns@.len() && (#[trigger] tables@[i].columns@[c]).column == Column::Id
                ==> {
                    let col = tables@[i].columns@[c];
                    &&& col.column_type == ColumnType::Integer
                    &&& col.not_null
                    &&& col.auto_increment
                    &&& col.primary_key
                },
{
    let mut users_columns = Vec::new();
    users_columns.push(ColumnSpec {
        column: Column::Id,
        column_type: ColumnType::Integer,
        not_null: true,
        auto_increment: true,
        primary_key: true,
        unique_key: false,
    });
    let mut username = plain_column(Column::Username, ColumnType::String);
    username.unique_key = true;
    users_columns.push(username);
    users_columns.push(plain_column(Column::DisplayName, ColumnType::String));
    users_columns.push(plain_column(Column::Created, ColumnType::TimestampWithTimeZone));

    let mut sessions_columns = Vec::new();
    sessions_columns.push(ColumnSpec {
        column: Column::Id,
        column_type: ColumnType::Integer,
        not_null: true,
        auto_increment: true,
        primary_key: true,
        unique_key: false,
    });
    sessions_columns.push(plain_column(Column::UserId, ColumnType::Integer));
    sessions_columns.push(plain_column(Column::Start, ColumnType::TimestampWithTimeZone));
    let mut sessions_keys = Vec::new();
    sessions_keys.push(user_foreign_key());

    let mut auth_columns = Vec::new();
    let mut user_id = plain_column(Column::UserId, ColumnType::Integer);
    user_id.primary_key = true;
    auth_columns.push(user_id);
    auth_columns.push(plain_column(Column::Hash, ColumnType::String));
    auth_columns.push(plain_column(Column::QueueRehash, ColumnType::Boolean));
    let mut auth_keys = Vec::new();
    auth_keys.push(user_foreign_key());

    let mut tables = Vec::new();
    tables.push(TableSpec { table: Table::Users, if_not_exists: true, columns: users_columns, foreign_keys: Vec::new() });
    tables.push(TableSpec { table: Table::Sessions, if_not_exists: true, columns: sessions_columns, foreign_keys: sessions_keys });
    tables.push(TableSpec { table: Table::PasswordAuth, if_not_exists: true, columns: auth_columns, foreign_keys: auth_keys });
    proof {
        lemma_schema_constraints();
        assert(tables@[0].columns@ =~= spec_columns(Table::Users));
        assert(tables@[0].foreign_keys@ =~= spec_foreign_keys(Table::Users));
        assert(tables@[1].columns@ =~= spec_columns(Table::Sessions));
        assert(tables@[1].foreign_keys@ =~= spec_foreign_keys(Table::Sessions));
        assert(tables@[2].columns@ =~= spec_columns(Table::PasswordAuth));
        assert(tables@[2].foreign_keys@ =~= spec_foreign_keys(Table::PasswordAuth));
    }
    tables
}

/// The tables that reverting the migration drops, in order.
pub fn down() -> (tables: Vec<Table>)
    ensures
        tables@ == creation_order().reverse(),
        tables@ == seq![Table::PasswordAuth, Table::Sessions, Table::Users],
{
    let mut tables = Vec::new();
    tables.push(Table::PasswordAuth);
    tables.push(Table::Sessions);
    tables.push(Table::Users);
    assert(tables@ =~= creation_order().reverse());
    tables
}

/// `c` is a column of table `t`.
pub open spec fn has_column(t: Table, c: Column) -> bool {
    exists|k: int| 0 <= k < spec_columns(t).len() && (#[trigger] spec_columns(t)[k]).column == c
}

/// Table `t` has a primary key column.
pub open spec fn has_primary_key(t: Table) -> bool {
    exists|k: int| 0 <= k < spec_columns(t).len() && (#[trigger] spec_columns(t)[k]).primary_key
}

/// The constraints the schema keeps, table by table:
/// - an `id` column is an integer key that the database counts up, and the
///   users and sessions tables have one;
/// - every column holds a value, each table has exactly one primary key, no
///   column name repeats within a table, and only primary keys count up;
/// - usernames are unique; a password credential is keyed by its user's id,
///   given by the caller, not counted up (one credential per user);
/// - every foreign key goes from an integer column of its table to the
///   integer primary key of the referred table, and deleting or updating the
///   referred row cascades.
pub proof fn lemma_schema_constraints()
    ensures
        forall|t: Table, k: int|
            0 <= k < spec_columns(t).len() && (#[trigger] spec_columns(t)[k]).column == Column::Id ==> {
                &&& spec_columns(t)[k].column_type == ColumnType::Integer
                &&& spec_columns(t)[k].not_null
                &&& spec_columns(t)[k].auto_increment
                &&& spec_columns(t)[k].primary_key
            },
        has_column(Table::Users, Column::Id),
        has_column(Table::Sessions, Column::Id),
        forall|t: Table, k: int| 0 <= k < spec_columns(t).len() ==> (#[trigger] spec_columns(t)[k]).not_null,
        forall|t: Table, k: int|
            0 <= k < spec_columns(t).len() && (#[trigger] spec_columns(t)[k]).auto_increment ==> spec_columns(t)[k].primary_key,
        forall|t: Table, j: int, k: int|
            0 <= j < k < spec_columns(t).len() ==> (#[trigger] spec_columns(t)[j]).column != (#[trigger] spec_columns(t)[k]).column,
        forall|t: Table, j: int, k: int|
            0 <= j < spec_columns(t).len() && 0 <= k < spec_columns(t).len() && (#[trigger] spec_columns(t)[j]).primary_key
                && (#[trigger] spec_columns(t)[k]).primary_key ==> j == k,
        forall|t: Table| #[trigger] has_primary_key(t),
        exists|k: int|
            0 <= k < spec_columns(Table::Users).len() && (#[trigger] spec_columns(Table::Users)[k]).column == Column::Username
                && spec_columns(Table::Users)[k].unique_key && spec_columns(Table::Users)[k].column_type == ColumnType::String,
        exists|k: int|
            0 <= k < spec_columns(Table::PasswordAuth).len() && (#[trigger] spec_columns(Table::PasswordAuth)[k]).column
                == Column::UserId && spec_columns(Table::PasswordAuth)[k].primary_key && !spec_columns(
                Table::PasswordAuth,
            )[k].auto_increment,
        forall|t: Table, f: int|
            0 <= f < spec_foreign_keys(t).len() ==> {
                let key = #[trigger] spec_foreign_keys(t)[f];
                &&& key.name@ == "fk_user"@
                &&& key.on_update == ReferentialAction::Cascade
                &&& key.on_delete == ReferentialAction::Cascade
                &&& exists|a: int|
                    0 <= a < spec_columns(t).len() && (#[trigger] spec_columns(t)[a]).column == key.from_column
                        && spec_columns(t)[a].column_type == ColumnType::Integer
                &&& exists|b: int|
                    0 <= b < spec_columns(key.to_table).len() && (#[trigger] spec_columns(key.to_table)[b]).column
                        == key.to_column && spec_columns(key.to_table)[b].primary_key
                        && spec_columns(key.to_table)[b].column_type == ColumnType::Integer
            },
        spec_foreign_keys(Table::Sessions).len() == 1,
        spec_foreign_keys(Table::PasswordAuth).len() == 1,
        spec_foreign_keys(Table::Sessions)[0].from_column == Column::UserId,
        spec_foreign_keys(Table::PasswordAuth)[0].from_column == Column::UserId,
        spec_foreign_keys(Table::Sessions)[0].to_table == Table::Users,
        spec_foreign_keys(Table::PasswordAuth)[0].to_table == Table::Users,
        spec_foreign_keys(Table::Users).len() == 0,
{
    assert(spec_columns(Table::Users)[0].column == Column::Id);
    assert(spec_columns(Table::Sessions)[0].column == Column::Id);
    assert(spec_columns(Table::Users)[1].column == Column::Username);
    assert(spec_columns(Table::PasswordAuth)[0].column == Column::UserId);
    assert forall|t: Table| #[trigger] has_primary_key(t) by {
        assert(spec_columns(t)[0].primary_key);
    }
    assert forall|t: Table, f: int| 0 <= f < spec_foreign_keys(t).len() implies {
        let key = #[trigger] spec_foreign_keys(t)[f];
        &&& key.name@ == "fk_user"@
        &&& key.on_update == ReferentialAction::Cascade
        &&& key.on_delete == ReferentialAction::Cascade
        &&& exists|a: int|
            0 <= a < spec_columns(t).len() && (#[trigger] spec_columns(t)[a]).column == key.from_column
                && spec_columns(t)[a].column_type == ColumnType::Integer
        &&& exists|b: int|
            0 <= b < spec_columns(key.to_table).len() && (#[trigger] spec_columns(key.to_table)[b]).column
                == key.to_column && spec_columns(key.to_table)[b].primary_key
                && spec_columns(key.to_table)[b].column_type == ColumnType::Integer
    } by {
        assert(spec_columns(Table::Users)[0].column == Column::Id);
        if t == Table::Sessions {
            assert(spec_columns(t)[1].column == Column::UserId);
        } else if t == Table::PasswordAuth {
            assert(spec_columns(t)[0].column == Column::UserId);
        }
    }
}

/// The full layout of the schema: for each table its columns in order, with
/// type and constraints (not null, counted up, primary key, unique).
pub proof fn lemma_schema_layout()
    ensures
        spec_columns(Table::Users) == seq![
            ColumnSpec { column: Column::Id, column_type: ColumnType::Integer, not_null: true, auto_increment: true, primary_key: true, unique_key: false },
            ColumnSpec { column: Column::Username, column_type: ColumnType::String, not_null: true, auto_increment: false, primary_key: false, unique_key: true },
            ColumnSpec { column: Column::DisplayName, column_type: ColumnType::String, not_null: true, auto_increment: false, primary_key: false, unique_key: false },
            ColumnSpec { column: Column::Created, column_type: ColumnType::TimestampWithTimeZone, not_null: true, auto_increment: false, primary_key: false, unique_key: false },
        ],
        spec_columns(Table::Sessions) == seq![
            ColumnSpec { column: Column::Id, column_type: ColumnType::Integer, not_null: true, auto_increment: true, primary_key: true, unique_key: false },
            ColumnSpec { column: Column::UserId, column_type: ColumnType::Integer, not_null: true, auto_increment: false, primary_key: false, unique_key: false },
            ColumnSpec { column: Column::Start, column_type: ColumnType::TimestampWithTimeZone, not_null: true, auto_increment: false, primary_key: false, unique_key: false },
        ],
        spec_columns(Table::PasswordAuth) == seq![
            ColumnSpec { column: Column::UserId, column_type: ColumnType::Integer, not_null: true, auto_increment: false, primary_key: true, unique_key: false },
            ColumnSpec { column: Column::Hash, column_type: ColumnType::String, not_null: true, auto_increment: false, primary_key: false, unique_key: false },
            ColumnSpec { column: Column::QueueRehash, column_type: ColumnType::Boolean, not_null: true, auto_increment: false, primary_key: false, unique_key: false },
        ],
        creation_order() == seq![Table::Users, Table::Sessions, Table::PasswordAuth],
{
}

/// Table `t` has a foreign key to table `target`.
pub open spec fn references(t: Table, target: Table) -> bool {
    exists|k: int| 0 <= k < spec_foreign_keys(t).len() && (#[trigger] spec_foreign_keys(t)[k]).to_table == target
}

/// Every foreign key points at the primary key of a table created earlier;
/// reverting drops exactly the created tables, each once, and each only after
/// every table that points at it.
pub proof fn lemma_migration_order()
    ensures
        creation_order().no_duplicates(),
        creation_order().reverse().to_set() == creation_order().to_set(),
        forall|i: int, k: int|
            0 <= i < creation_order().len() && 0 <= k < spec_foreign_keys(creation_order()[i]).len() ==> {
                let key = #[trigger] spec_foreign_keys(creation_order()[i])[k];
                exists|j: int| 0 <= j < i && #[trigger] creation_order()[j] == key.to_table && (exists|c: int|
                    0 <= c < spec_columns(key.to_table).len()
                        && #[trigger] spec_columns(key.to_table)[c].column == key.to_column
                        && spec_columns(key.to_table)[c].primary_key)
            },
        forall|i: int, j: int|
            0 <= i < j < creation_order().reverse().len() ==> !references(
                #[trigger] creation_order().reverse()[j],
                #[trigger] creation_order().reverse()[i],
            ),
{
    assert(spec_columns(Table::Users)[0].column == Column::Id);
    assert(creation_order()[0] == Table::Users);
    let r = creation_order().reverse();
    assert(r[0] == Table::PasswordAuth && r[1] == Table::Sessions && r[2] == Table::Users);
    assert(r.to_set() =~= creation_order().to_set()) by {
        assert forall|t: Table| r.to_set().contains(t) <==> creation_order().to_set().contains(t) by {
            if creation_order().contains(t) {
                let k = choose|k: int| 0 <= k < 3 && creation_order()[k] == t;
                assert(r[2 - k] == t);
            }
            if r.contains(t) {
                let k = choose|k: int| 0 <= k < 3 && r[k] == t;
                assert(creation_order()[2 - k] == t);
            }
        }
    }
    assert forall|i: int, j: int|
        0 <= i < j < creation_order().reverse().len() implies !references(
            #[trigger] creation_order().reverse()[j],
            #[trigger] creation_order().reverse()[i],
        ) by {
        let r = creation_order().reverse();
        assert(r[0] == Table::PasswordAuth);
        assert(r[1] == Table::Sessions);
        assert(r[2] == Table::Users);
    }
}

} // verus!
