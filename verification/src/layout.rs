//! The tables of a deployment: the cache that keeps their layout at hand,
//! and the lookup of tables and columns by the names that an operator
//! gives.

use vstd::prelude::*;
use vstd::string::StringExecFns;
use crate::block::texts;
use crate::entity::str_eq;
use crate::error::{StoreError, StoreErrorView};

verus! {

/// A column of a table.
#[derive(Debug)]
pub struct Column {
    /// The name of the attribute that the column holds.
    pub field: String,
    /// The name of the column in the database.
    pub name: String,
}

/// The mathematical value of a `Column`.
pub struct ColumnView {
    pub field: Seq<char>,
    pub name: Seq<char>,
}

impl View for Column {
    type V = ColumnView;

    open spec fn view(&self) -> ColumnView {
        ColumnView { field: self.field@, name: self.name@ }
    }
}

impl Clone for Column {
    fn clone(&self) -> (res: Self)
        ensures
            res@ == self@,
    {
        Column { field: self.field.clone(), name: self.name.clone() }
    }
}

/// The mathematical values of a list of columns.
pub open spec fn columns_view(columns: Seq<Column>) -> Seq<ColumnView> {
    columns.map_values(|c: Column| c@)
}

/// A table of a deployment.
#[derive(Debug)]
pub struct Table {
    /// The entity type whose entities the table holds.
    pub object: String,
    /// The name of the table in the database.
    pub name: String,
    pub columns: Vec<Column>,
}

/// The mathematical value of a `Table`.
pub struct TableView {
    pub object: Seq<char>,
    pub name: Seq<char>,
    pub columns: Seq<ColumnView>,
}

impl View for Table {
    type V = TableView;

    open spec fn view(&self) -> TableView {
        TableView { object: self.object@, name: self.name@, columns: columns_view(self.columns@) }
    }
}

impl Clone for Table {
    fn clone(&self) -> (res: Self)
        ensures
            res@ == self@,
    {
        let mut columns: Vec<Column> = Vec::new();
        let mut i: usize = 0;
        while i < self.columns.len()
            invariant
                i <= self.columns.len(),
                columns@.len() == i,
                forall|j: int| 0 <= j < i ==> columns@[j]@ == self.columns@[j]@,
            decreases self.columns.len() - i,
        {
            columns.push(self.columns[i].clone());
            i = i + 1;
        }
        assert(columns_view(columns@) =~= columns_view(self.columns@));
        Table { object: self.object.clone(), name: self.name.clone(), columns }
    }
}

/// The mathematical values of a list of tables.
pub open spec fn tables_view(tables: Seq<Table>) -> Seq<TableView> {
    tables.map_values(|t: Table| t@)
}

/// A copy of a list of tables.
pub fn copy_tables(tables: &Vec<Table>) -> (res: Vec<Table>)
    ensures
        tables_view(res@) == tables_view(tables@),
{
    let mut res: Vec<Table> = Vec::new();
    let mut i: usize = 0;
    while i < tables.len()
        invariant
            i <= tables.len(),
            res@.len() == i,
            forall|j: int| 0 <= j < i ==> res@[j]@ == tables@[j]@,
        decreases tables.len() - i,
    {
        res.push(tables[i].clone());
        i = i + 1;
    }
    assert(tables_view(res@) =~= tables_view(tables@));
    res
}

/// How the data of a deployment is laid out in the database.
#[derive(Debug)]
pub struct Layout {
    /// The deployment whose data it is.
    pub deployment: String,
    /// The name of the database schema that holds the data.
    pub namespace: String,
    pub tables: Vec<Table>,
}

/// The mathematical value of a `Layout`.
pub struct LayoutView {
    pub deployment: Seq<char>,
    pub namespace: Seq<char>,
    pub tables: Seq<TableView>,
}

impl View for Layout {
    type V = LayoutView;

    open spec fn view(&self) -> LayoutView {
        LayoutView {
            deployment: self.deployment@,
            namespace: self.namespace@,
            tables: tables_view(self.tables@),
        }
    }
}

impl Clone for Layout {
    fn clone(&self) -> (res: Self)
        ensures
            res@ == self@,
    {
        Layout {
            deployment: self.deployment.clone(),
            namespace: self.namespace.clone(),
            tables: copy_tables(&self.tables),
        }
    }
}

/// What `inflector`'s `to_snake_case` makes of a text.
pub uninterp spec fn snake_cased(text: Seq<char>) -> Seq<char>;

/// Puts a name into snake case with `inflector`'s `to_snake_case`: the way
/// in which the names of tables and columns are made from the names of
/// entity types and attributes.
#[verifier::external_body]
pub(crate) fn snake_case(name: &str) -> (res: String)
    ensures
        res@ == snake_cased(name@),
{
    inflector::cases::snakecase::to_snake_case(name)
}

/// The position of the first table, at or after `from`, that holds the
/// entity type `object`; the number of tables where there is none.
pub open spec fn table_for_entity(tables: Seq<TableView>, object: Seq<char>, from: int) -> int
    decreases tables.len() - from,
{
    if from < 0 || from >= tables.len() {
        tables.len() as int
    } else if tables[from].object == object {
        from
    } else {
        table_for_entity(tables, object, from + 1)
    }
}

/// The position of the first table, at or after `from`, whose name in the
/// database is `name`; the number of tables where there is none.
pub open spec fn table_named(tables: Seq<TableView>, name: Seq<char>, from: int) -> int
    decreases tables.len() - from,
{
    if from < 0 || from >= tables.len() {
        tables.len() as int
    } else if tables[from].name == name {
        from
    } else {
        table_named(tables, name, from + 1)
    }
}

/// The position of the table that an operator means by `name`: the table
/// of the entity type `name`, else the table whose name in the database is
/// the snake case of `name`. The number of tables where there is neither.
pub open spec fn resolved_table(tables: Seq<TableView>, name: Seq<char>) -> int {
    let by_entity = table_for_entity(tables, name, 0);
    if by_entity < tables.len() {
        by_entity
    } else {
        table_named(tables, snake_cased(name), 0)
    }
}

/// The position of the first column, at or after `from`, that holds the
/// attribute `field`; the number of columns where there is none.
pub open spec fn column_for_field(columns: Seq<ColumnView>, field: Seq<char>, from: int) -> int
    decreases columns.len() - from,
{
    if from < 0 || from >= columns.len() {
        columns.len() as int
    } else if columns[from].field == field {
        from
    } else {
        column_for_field(columns, field, from + 1)
    }
}

/// The position of the first column, at or after `from`, whose name in the
/// database is `name`; the number of columns where there is none.
pub open spec fn column_named(columns: Seq<ColumnView>, name: Seq<char>, from: int) -> int
    decreases columns.len() - from,
{
    if from < 0 || from >= columns.len() {
        columns.len() as int
    } else if columns[from].name == name {
        from
    } else {
        column_named(columns, name, from + 1)
    }
}

/// The position of the column that an operator means by `field`: the
/// column of the attribute `field`, else the column whose name in the
/// database is the snake case of `field`.
pub open spec fn resolved_column(columns: Seq<ColumnView>, field: Seq<char>) -> int {
    let by_field = column_for_field(columns, field, 0);
    if by_field < columns.len() {
        by_field
    } else {
        column_named(columns, snake_cased(field), 0)
    }
}

/// The names in the database of the columns that the first `n` of
/// `fields` mean, or the first of them that means no column.
pub open spec fn resolved_columns(columns: Seq<ColumnView>, fields: Seq<Seq<char>>, n: int)
    -> Result<Seq<Seq<char>>, StoreErrorView>
    decreases n,
{
    if n <= 0 {
        Ok(Seq::empty())
    } else {
        match resolved_columns(columns, fields, n - 1) {
            Ok(names) => {
                let at = resolved_column(columns, fields[n - 1]);
                if at < columns.len() {
                    Ok(names.push(columns[at].name))
                } else {
                    Err(StoreErrorView::UnknownField(fields[n - 1]))
                }
            },
            Err(e) => Err(e),
        }
    }
}

/// The position of the first table that holds the entity type `object`.
fn find_table_for_entity(tables: &Vec<Table>, object: &str) -> (at: usize)
    ensures
        at == table_for_entity(tables_view(tables@), object@, 0),
        at <= tables@.len(),
{
    let mut i: usize = 0;
    while i < tables.len()
        invariant
            i <= tables.len(),
            table_for_entity(tables_view(tables@), object@, 0) == table_for_entity(
                tables_view(tables@),
                object@,
                i as int,
            ),
        decreases tables.len() - i,
    {
        assert(tables_view(tables@)[i as int] == tables@[i as int]@);
        if str_eq(tables[i].object.as_str(), object) {
            return i;
        }
        i = i + 1;
    }
    i
}

/// The position of the first table whose name in the database is `name`.
fn find_table_named(tables: &Vec<Table>, name: &str) -> (at: usize)
    ensures
        at == table_named(tables_view(tables@), name@, 0),
        at <= tables@.len(),
{
    let mut i: usize = 0;
    while i < tables.len()
        invariant
            i <= tables.len(),
            table_named(tables_view(tables@), name@, 0) == table_named(
                tables_view(tables@),
                name@,
                i as int,
            ),
        decreases tables.len() - i,
    {
        assert(tables_view(tables@)[i as int] == tables@[i as int]@);
        if str_eq(tables[i].name.as_str(), name) {
            return i;
        }
        i = i + 1;
    }
    i
}

/// The position of the first column that holds the attribute `field`.
fn find_column_for_field(columns: &Vec<Column>, field: &str) -> (at: usize)
    ensures
        at == column_for_field(columns_view(columns@), field@, 0),
        at <= columns@.len(),
{
    let mut i: usize = 0;
    while i < columns.len()
        invariant
            i <= columns.len(),
            column_for_field(columns_view(columns@), field@, 0) == column_for_field(
                columns_view(columns@),
                field@,
                i as int,
            ),
        decreases columns.len() - i,
    {
        assert(columns_view(columns@)[i as int] == columns@[i as int]@);
        if str_eq(columns[i].field.as_str(), field) {
            return i;
        }
        i = i + 1;
    }
    i
}

/// The position of the first column whose name in the database is `name`.
fn find_column_named(columns: &Vec<Column>, name: &str) -> (at: usize)
    ensures
        at == column_named(columns_view(columns@), name@, 0),
        at <= columns@.len(),
{
    let mut i: usize = 0;
    while i < columns.len()
        invariant
            i <= columns.len(),
            column_named(columns_view(columns@), name@, 0) == column_named(
                columns_view(columns@),
                name@,
                i as int,
            ),
        decreases columns.len() - i,
    {
        assert(columns_view(columns@)[i as int] == columns@[i as int]@);
        if str_eq(columns[i].name.as_str(), name) {
            return i;
        }
        i = i + 1;
    }
    i
}

/// Finds a table by the name of its entity type or by its name in the
/// database: the input may be in camel case or in snake case, so the
/// lookup by entity type is tried first, and the lookup by the snake case
/// of the name after it.
pub fn resolve_table_name<'a>(layout: &'a Layout, name: &str) -> (res: Result<&'a Table, StoreError>)
    ensures
        match res {
            Ok(table) => resolved_table(layout@.tables, name@) < layout@.tables.len()
                && table@ == layout@.tables[resolved_table(layout@.tables, name@)],
            Err(e) => resolved_table(layout@.tables, name@) >= layout@.tables.len() && e@
                == StoreErrorView::UnknownTable(name@),
        },
{
    let by_entity = find_table_for_entity(&layout.tables, name);
    if by_entity < layout.tables.len() {
        assert(layout@.tables[by_entity as int] == layout.tables@[by_entity as int]@);
        return Ok(&layout.tables[by_entity]);
    }
    let sql_name = snake_case(name);
    let by_name = find_table_named(&layout.tables, sql_name.as_str());
    if by_name < layout.tables.len() {
        assert(layout@.tables[by_name as int] == layout.tables@[by_name as int]@);
        return Ok(&layout.tables[by_name]);
    }
    Err(StoreError::UnknownTable(name.to_owned()))
}

/// Finds the columns of a table by the names of their attributes or by
/// their names in the database, and returns their names in the database, in
/// the order of `field_names`. The first name that means no column is
/// reported as unknown.
pub fn resolve_column_names(table: &Table, field_names: &Vec<String>) -> (res: Result<
    Vec<String>,
    StoreError,
>)
    ensures
        match res {
            Ok(names) => resolved_columns(
                table@.columns,
                texts(field_names@),
                field_names@.len() as int,
            ) == Ok::<_, StoreErrorView>(texts(names@)),
            Err(e) => resolved_columns(
                table@.columns,
                texts(field_names@),
                field_names@.len() as int,
            ) == Err::<Seq<Seq<char>>, _>(e@),
        },
{
    let mut names: Vec<String> = Vec::new();
    let mut i: usize = 0;
    assert(texts(names@) =~= Seq::<Seq<char>>::empty());
    while i < field_names.len()
        invariant
            i <= field_names.len(),
            resolved_columns(table@.columns, texts(field_names@), i as int) == Ok::<
                _,
                StoreErrorView,
            >(texts(names@)),
        decreases field_names.len() - i,
    {
        let field = field_names[i].as_str();
        assert(texts(field_names@)[i as int] == field@);
        let mut at = find_column_for_field(&table.columns, field);
        if at >= table.columns.len() {
            let sql_name = snake_case(field);
            at = find_column_named(&table.columns, sql_name.as_str());
        }
        if at >= table.columns.len() {
            proof {
                lemma_column_error_stays(
                    table@.columns,
                    texts(field_names@),
                    i + 1,
                    field_names@.len() as int,
                );
            }
            return Err(StoreError::UnknownField(field_names[i].clone()));
        }
        assert(table@.columns[at as int] == table.columns@[at as int]@);
        let ghost prev = texts(names@);
        names.push(table.columns[at].name.clone());
        assert(texts(names@) =~= prev.push(table@.columns[at as int].name));
        i = i + 1;
    }
    Ok(names)
}

/// Once a name has meant no column, the lookup ends in that error however
/// many names follow.
pub proof fn lemma_column_error_stays(
    columns: Seq<ColumnView>,
    fields: Seq<Seq<char>>,
    k: int,
    n: int,
)
    requires
        k <= n,
        resolved_columns(columns, fields, k) is Err,
    ensures
        resolved_columns(columns, fields, n) == resolved_columns(columns, fields, k),
    decreases n - k,
{
    if k < n {
        lemma_column_error_stays(columns, fields, k, n - 1);
    }
}

/// The entity type that holds the digests for the proof of indexing.
pub open spec fn poi_object() -> Seq<char> {
    "Poi$"@
}

impl Layout {
    /// Whether the deployment has a table for the digests of the proof of
    /// indexing.
    pub fn supports_proof_of_indexing(&self) -> (res: bool)
        ensures
            res == (table_for_entity(self@.tables, poi_object(), 0) < self@.tables.len()),
    {
        find_table_for_entity(&self.tables, "Poi$") < self.tables.len()
    }
}

/// The layout that the first entry, at or after `from`, holds for the
/// deployment `id`.
pub open spec fn layout_from(entries: Seq<LayoutView>, id: Seq<char>, from: int) -> Option<
    LayoutView,
>
    decreases entries.len() - from,
{
    if from < 0 || from >= entries.len() {
        None
    } else if entries[from].deployment == id {
        Some(entries[from])
    } else {
        layout_from(entries, id, from + 1)
    }
}

/// The first `n` layouts without those of the deployment `id`.
pub open spec fn without_layout(entries: Seq<LayoutView>, id: Seq<char>, n: int) -> Seq<LayoutView>
    decreases n,
{
    if n <= 0 {
        Seq::empty()
    } else if entries[n - 1].deployment == id {
        without_layout(entries, id, n - 1)
    } else {
        without_layout(entries, id, n - 1).push(entries[n - 1])
    }
}

/// The layout that the cache holds for the deployment `id`.
pub open spec fn cached_layout(entries: Seq<LayoutView>, id: Seq<char>) -> Option<LayoutView> {
    layout_from(entries, id, 0)
}

/// A cache of the layouts of deployments. The store never puts the layout
/// of a deployment into it while a migration of the deployment is pending.
#[derive(Debug)]
pub struct LayoutCache {
    pub entries: Vec<Layout>,
}

impl View for LayoutCache {
    type V = Seq<LayoutView>;

    open spec fn view(&self) -> Seq<LayoutView> {
        self.entries@.map_values(|l: Layout| l@)
    }
}

impl LayoutCache {
    /// A cache without entries.
    pub fn new() -> (cache: Self)
        ensures
            cache@ == Seq::<LayoutView>::empty(),
    {
        let cache = LayoutCache { entries: Vec::new() };
        assert(cache@ =~= Seq::<LayoutView>::empty());
        cache
    }

    /// The layout that the cache holds for the deployment `id`; the cache
    /// is not changed, and the database is not asked.
    pub fn find(&self, id: &String) -> (res: Option<&Layout>)
        ensures
            match res {
                Some(layout) => cached_layout(self@, id@) == Some(layout@),
                None => cached_layout(self@, id@) is None,
            },
    {
        let mut i: usize = 0;
        while i < self.entries.len()
            invariant
                i <= self.entries.len(),
                cached_layout(self@, id@) == layout_from(self@, id@, i as int),
            decreases self.entries.len() - i,
        {
            assert(self@[i as int] == self.entries@[i as int]@);
            if self.entries[i].deployment == *id {
                return Some(&self.entries[i]);
            }
            i = i + 1;
        }
        None
    }

    /// Takes the layouts of the deployment `id` out of the cache.
    pub fn remove(&mut self, id: &String)
        ensures
            final(self)@ == without_layout(old(self)@, id@, old(self)@.len() as int),
    {
        let ghost before = self@;
        let mut kept: Vec<Layout> = Vec::new();
        let ghost mut kept_view: Seq<LayoutView> = Seq::empty();
        let mut i: usize = 0;
        while i < self.entries.len()
            invariant
                i <= self.entries.len(),
                self@ == before,
                kept@.len() == kept_view.len(),
                forall|j: int| 0 <= j < kept@.len() ==> kept@[j]@ == kept_view[j],
                kept_view == without_layout(before, id@, i as int),
            decreases self.entries.len() - i,
        {
            assert(before[i as int] == self.entries@[i as int]@);
            if self.entries[i].deployment != *id {
                kept.push(self.entries[i].clone());
                proof {
                    kept_view = kept_view.push(before[i as int]);
                }
            }
            i = i + 1;
        }
        self.entries = kept;
        assert(self@ =~= kept_view);
    }

    /// Puts `layout` into the cache.
    pub fn cache(&mut self, layout: Layout)
        ensures
            final(self)@ == old(self)@.push(layout@),
    {
        self.entries.push(layout);
        assert(self@ =~= old(self)@.push(layout@));
    }
}

/// The statements that create an index by hand, and the one that drops it
/// again.
#[derive(Debug)]
pub struct ManualIndex {
    pub index_name: String,
    pub create_sql: String,
    pub drop_sql: String,
}

/// The names of `names`, with `sep` between each two of them.
pub open spec fn joined(names: Seq<Seq<char>>, sep: Seq<char>, n: int) -> Seq<char>
    decreases n,
{
    if n <= 0 {
        Seq::empty()
    } else if n == 1 {
        names[0]
    } else {
        joined(names, sep, n - 1) + sep + names[n - 1]
    }
}

/// The name of the index that is created by hand on the columns `columns`
/// of the table `table`.
pub open spec fn manual_index_name(table: Seq<char>, columns: Seq<Seq<char>>) -> Seq<char> {
    "manual_"@ + table + "_"@ + joined(columns, "_"@, columns.len() as int)
}

/// The statement that creates that index with the method `method`.
pub open spec fn create_index_sql(
    namespace: Seq<char>,
    table: Seq<char>,
    columns: Seq<Seq<char>>,
    method: Seq<char>,
) -> Seq<char> {
    "create index concurrently if not exists "@ + manual_index_name(table, columns) + " on "@
        + namespace + "."@ + table + " using "@ + method + " ("@ + joined(
        columns,
        ", "@,
        columns.len() as int,
    ) + ")"@
}

/// The statement that drops that index.
pub open spec fn drop_index_sql(namespace: Seq<char>, table: Seq<char>, columns: Seq<Seq<char>>)
    -> Seq<char> {
    "drop index concurrently if exists "@ + namespace + "."@ + manual_index_name(table, columns)
}

/// The names of `names`, with `sep` between each two of them.
pub fn join(names: &Vec<String>, sep: &str) -> (res: String)
    ensures
        res@ == joined(texts(names@), sep@, names@.len() as int),
{
    let mut res = String::new();
    let mut i: usize = 0;
    while i < names.len()
        invariant
            i <= names.len(),
            res@ == joined(texts(names@), sep@, i as int),
        decreases names.len() - i,
    {
        assert(texts(names@)[i as int] == names@[i as int]@);
        if i > 0 {
            res.append(sep);
        }
        res.append(names[i].as_str());
        proof {
            if i == 0 {
                assert(Seq::<char>::empty() + names@[0]@ =~= names@[0]@);
            }
        }
        i = i + 1;
    }
    res
}

/// The statements for an index that an operator asks for on the columns
/// that `field_names` mean of the table that `entity_name` means.
pub fn manual_index(
    layout: &Layout,
    entity_name: &str,
    field_names: &Vec<String>,
    index_method: &str,
) -> (res: Result<ManualIndex, StoreError>)
    ensures
        match res {
            Ok(index) => {
                let at = resolved_table(layout@.tables, entity_name@);
                &&& at < layout@.tables.len()
                &&& resolved_columns(
                    layout@.tables[at].columns,
                    texts(field_names@),
                    field_names@.len() as int,
                ) matches Ok(columns) && index.index_name@ == manual_index_name(
                    layout@.tables[at].name,
                    columns,
                ) && index.create_sql@ == create_index_sql(
                    layout@.namespace,
                    layout@.tables[at].name,
                    columns,
                    index_method@,
                ) && index.drop_sql@ == drop_index_sql(
                    layout@.namespace,
                    layout@.tables[at].name,
                    columns,
                )
            },
            Err(e) => {
                let at = resolved_table(layout@.tables, entity_name@);
                if at < layout@.tables.len() {
                    resolved_columns(
                        layout@.tables[at].columns,
                        texts(field_names@),
                        field_names@.len() as int,
                    ) == Err::<Seq<Seq<char>>, _>(e@)
                } else {
                    e@ == StoreErrorView::UnknownTable(entity_name@)
                }
            },
        },
{
    let table = resolve_table_name(layout, entity_name)?;
    let columns = resolve_column_names(table, field_names)?;
    let by_underscores = join(&columns, "_");
    let by_commas = join(&columns, ", ");
    let mut index_name = String::from_str("manual_");
    index_name.append(table.name.as_str());
    index_name.append("_");
    index_name.append(by_underscores.as_str());
    let mut create_sql = String::from_str("create index concurrently if not exists ");
    create_sql.append(index_name.as_str());
    create_sql.append(" on ");
    create_sql.append(layout.namespace.as_str());
    create_sql.append(".");
    create_sql.append(table.name.as_str());
    create_sql.append(" using ");
    create_sql.append(index_method);
    create_sql.append(" (");
    create_sql.append(by_commas.as_str());
    create_sql.append(")");
    let mut drop_sql = String::from_str("drop index concurrently if exists ");
    drop_sql.append(layout.namespace.as_str());
    drop_sql.append(".");
    drop_sql.append(index_name.as_str());
    Ok(ManualIndex { index_name, create_sql, drop_sql })
}

/// How the creation of an index by hand ended, once the database has said
/// whether the index is valid: an index that is not valid has to be
/// dropped, and the creation counts as cancelled.
pub fn manual_index_outcome(index_is_valid: bool) -> (res: Result<(), StoreError>)
    ensures
        index_is_valid ==> res is Ok,
        !index_is_valid ==> (res matches Err(e) && e@ == StoreErrorView::Canceled),
{
    if index_is_valid {
        Ok(())
    } else {
        Err(StoreError::Canceled)
    }
}

} // verus!
