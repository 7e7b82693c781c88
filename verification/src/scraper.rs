//! Turning the quotes page into stock rows and Kafka records.
use vstd::prelude::*;
use crate::html::{
    find_named, find_named_below, find_with_class, html_find, html_find_below, html_text,
    node_text, parse_page, HtmlPage, NodeFilter,
};
use crate::text::{is_white, law_trim_edges, owned, push_char, trim, trim_spec};

verus! {

/// The number of cells of a quote row.
pub const ROW_CELLS: usize = 7;

/// The topic that keyed stock records go to.
pub const STOCKS_TOPIC: &'static str = "stocks";

/// The key of records sent to a per-stock topic.
pub const TOPIC_RECORD_KEY: &'static str = "SomeKey";

/// The class list of the quotes table that the page listing looks for.
pub const QUOTES_TABLE_CLASS: &'static str = "table table--values table--no-auto";

/// One quote of the table: the seven cells of a row.
#[derive(Clone, Debug)]
pub struct Row {
    pub name: String,
    pub rate: String,
    pub variation: String,
    pub high: String,
    pub opening: String,
    pub low: String,
    pub volume: String,
}

/// The contents of a `Row`.
pub struct RowView {
    pub name: Seq<char>,
    pub rate: Seq<char>,
    pub variation: Seq<char>,
    pub high: Seq<char>,
    pub opening: Seq<char>,
    pub low: Seq<char>,
    pub volume: Seq<char>,
}

impl View for Row {
    type V = RowView;

    open spec fn view(&self) -> RowView {
        RowView {
            name: self.name@,
            rate: self.rate@,
            variation: self.variation@,
            high: self.high@,
            opening: self.opening@,
            low: self.low@,
            volume: self.volume@,
        }
    }
}

/// The row read from seven cells: name, rate, variation, opening, high, low,
/// volume, in this order.
pub open spec fn row_from_cells(cells: Seq<Seq<char>>) -> RowView {
    RowView {
        name: cells[0],
        rate: cells[1],
        variation: cells[2],
        opening: cells[3],
        high: cells[4],
        low: cells[5],
        volume: cells[6],
    }
}

/// The rows of a table: one for each row of exactly seven cells, in order;
/// other rows are skipped.
pub open spec fn rows_of_table(table: Seq<Seq<Seq<char>>>) -> Seq<RowView>
    decreases table.len(),
{
    if table.len() == 0 {
        Seq::empty()
    } else {
        let rest = rows_of_table(table.drop_last());
        if table.last().len() == 7 {
            rest.push(row_from_cells(table.last()))
        } else {
            rest
        }
    }
}

/// The views of a list of rows.
pub open spec fn rows_view(rows: Seq<Row>) -> Seq<RowView> {
    rows.map_values(|r: Row| r@)
}

/// The one-line description of a row.
pub open spec fn row_text(r: RowView) -> Seq<char> {
    "name: "@ + r.name + ", rate: "@ + r.rate + ", variation: "@ + r.variation + ", high: "@
        + r.high + ", opening: "@ + r.opening + ", low: "@ + r.low + ", volume: "@ + r.volume
}

/// Whether a character stays in a record key.
pub open spec fn kept_in_key(c: char) -> bool {
    c != ' ' && c != '\''
}

/// `name` without its spaces and apostrophes.
pub open spec fn key_of(name: Seq<char>) -> Seq<char>
    decreases name.len(),
{
    if name.len() == 0 {
        Seq::empty()
    } else {
        let rest = key_of(name.drop_last());
        if kept_in_key(name.last()) {
            rest.push(name.last())
        } else {
            rest
        }
    }
}

/// The trimmed texts of the cells of each row of a table of the page parsed
/// from `html`, given the table's node index.
pub open spec fn table_rows_cells(html: Seq<char>, table: int) -> Seq<Seq<Seq<char>>> {
    html_find_below(html, table, NodeFilter::Named("tr"@)).map_values(
        |row: usize|
            html_find_below(html, row as int, NodeFilter::Named("td"@)).map_values(
                |cell: usize| trim_spec(html_text(html, cell as int)),
            ),
    )
}

/// The cells of the first table of the page parsed from `html` (none when it
/// has no table).
pub open spec fn first_table_cells(html: Seq<char>) -> Seq<Seq<Seq<char>>> {
    let tables = html_find(html, NodeFilter::Named("table"@));
    if tables.len() == 0 {
        Seq::empty()
    } else {
        table_rows_cells(html, tables[0] as int)
    }
}

/// The cells of the first table listing the quotes-table class list.
pub open spec fn class_table_cells(html: Seq<char>) -> Seq<Seq<Seq<char>>> {
    let tables = html_find(html, NodeFilter::WithClass(QUOTES_TABLE_CLASS@));
    if tables.len() == 0 {
        Seq::empty()
    } else {
        table_rows_cells(html, tables[0] as int)
    }
}

/// Whether `rec` is the record that a row goes out as on its own topic.
pub open spec fn is_topic_record(rec: Record, row: RowView) -> bool {
    &&& rec.topic@ == key_of(row.name)
    &&& rec.key@ == TOPIC_RECORD_KEY@
    &&& rec.payload@ == row_text(row)
}

/// A message to publish: its topic, key and payload.
pub struct Record {
    pub topic: String,
    pub key: String,
    pub payload: String,
}

impl Row {
    /// The one-line description of the row.
    pub fn to_display_string(&self) -> (r: String)
        ensures
            r@ == row_text(self@),
    {
        let mut r = String::new();
        r.append("name: ");
        r.append(self.name.as_str());
        r.append(", rate: ");
        r.append(self.rate.as_str());
        r.append(", variation: ");
        r.append(self.variation.as_str());
        r.append(", high: ");
        r.append(self.high.as_str());
        r.append(", opening: ");
        r.append(self.opening.as_str());
        r.append(", low: ");
        r.append(self.low.as_str());
        r.append(", volume: ");
        r.append(self.volume.as_str());
        r
    }
}

/// The row made of seven cells.
pub fn row_of(cells: &Vec<String>) -> (r: Row)
    requires
        cells.len() == 7,
    ensures
        r@ == row_from_cells(cells.deep_view()),
{
    Row {
        name: cells[0].clone(),
        rate: cells[1].clone(),
        variation: cells[2].clone(),
        opening: cells[3].clone(),
        high: cells[4].clone(),
        low: cells[5].clone(),
        volume: cells[6].clone(),
    }
}

/// The rows of a table given by its cells: one per row of exactly seven cells.
pub fn rows_from_cells(table: &Vec<Vec<String>>) -> (rows: Vec<Row>)
    ensures
        rows_view(rows@) == rows_of_table(table.deep_view()),
{
    let mut rows: Vec<Row> = Vec::new();
    let mut i: usize = 0;
    while i < table.len()
        invariant
            i <= table.len(),
            rows_view(rows@) == rows_of_table(table.deep_view().take(i as int)),
        decreases table.len() - i,
    {
        let ghost before = rows@;
        proof {
            let t = table.deep_view().take(i + 1);
            assert(t.drop_last() =~= table.deep_view().take(i as int));
            assert(t.last() == table[i as int].deep_view());
        }
        if table[i].len() == ROW_CELLS {
            let row = row_of(&table[i]);
            rows.push(row);
            assert(rows_view(rows@) =~= rows_view(before).push(row@));
        }
        i = i + 1;
    }
    assert(table.deep_view().take(table.len() as int) =~= table.deep_view());
    rows
}

/// `name` without its spaces and apostrophes: the key a stock is published under.
pub fn sanitize_key(name: &str) -> (r: String)
    ensures
        r@ == key_of(name@),
{
    let n = name.unicode_len();
    let mut r = String::new();
    let mut i: usize = 0;
    while i < n
        invariant
            n == name@.len(),
            i <= n,
            r@ == key_of(name@.take(i as int)),
        decreases n - i,
    {
        let c = name.get_char(i);
        proof {
            let t = name@.take(i + 1);
            assert(t.drop_last() =~= name@.take(i as int));
            assert(t.last() == c);
        }
        if c != ' ' && c != '\'' {
            push_char(&mut r, c);
        }
        i = i + 1;
    }
    assert(name@.take(n as int) =~= name@);
    r
}

/// The trimmed cell texts of each row of table node `table`.
pub fn table_rows(page: &HtmlPage, table: usize) -> (r: Vec<Vec<String>>)
    requires
        table < page.len(),
    ensures
        r.deep_view() == table_rows_cells(page.source(), table as int),
{
    let html = Ghost(page.source());
    let rows = find_named_below(page, table, "tr");
    let mut out: Vec<Vec<String>> = Vec::new();
    let mut i: usize = 0;
    while i < rows.len()
        invariant
            i <= rows.len(),
            html@ == page.source(),
            rows@ == html_find_below(html@, table as int, NodeFilter::Named("tr"@)),
            forall|k: int| 0 <= k < rows.len() ==> #[trigger] rows[k] < page.len(),
            out.len() == i,
            forall|k: int|
                0 <= k < i ==> #[trigger] out.deep_view()[k] == html_find_below(
                    html@,
                    rows[k] as int,
                    NodeFilter::Named("td"@),
                ).map_values(|cell: usize| trim_spec(html_text(html@, cell as int))),
        decreases rows.len() - i,
    {
        let cells = find_named_below(page, rows[i], "td");
        let mut texts: Vec<String> = Vec::new();
        let mut j: usize = 0;
        while j < cells.len()
            invariant
                j <= cells.len(),
                html@ == page.source(),
                forall|k: int| 0 <= k < cells.len() ==> #[trigger] cells[k] < page.len(),
                texts.len() == j,
                forall|k: int|
                    0 <= k < j ==> #[trigger] texts[k]@ == trim_spec(html_text(html@, cells[k] as int)),
            decreases cells.len() - j,
        {
            let raw = node_text(page, cells[j]);
            let t = trim(raw.as_str());
            texts.push(t);
            j = j + 1;
        }
        let ghost expect = cells@.map_values(|cell: usize| trim_spec(html_text(html@, cell as int)));
        assert(texts.deep_view() =~= expect);
        let ghost before = out.deep_view();
        out.push(texts);
        proof {
            assert(out.deep_view() =~= before.push(expect));
        }
        i = i + 1;
    }
    proof {
        let spec_rows = table_rows_cells(html@, table as int);
        assert(out.deep_view() =~= spec_rows);
    }
    out
}

/// The trimmed cell texts of each row of the first table of `page`.
pub fn first_table(page: &HtmlPage) -> (r: Vec<Vec<String>>)
    ensures
        r.deep_view() == first_table_cells(page.source()),
{
    let tables = find_named(page, "table");
    if tables.len() == 0 {
        let r: Vec<Vec<String>> = Vec::new();
        assert(r.deep_view() =~= Seq::<Seq<Seq<char>>>::empty());
        r
    } else {
        table_rows(page, tables[0])
    }
}

/// The rows of the quotes page `html`: the seven-cell rows of its first table.
pub fn scrape_rows(html: &str) -> (rows: Vec<Row>)
    ensures
        rows_view(rows@) == rows_of_table(first_table_cells(html@)),
{
    let page = parse_page(html);
    let cells = first_table(&page);
    rows_from_cells(&cells)
}

/// The record of a row sent to the stocks topic: keyed by the row's name
/// without spaces and apostrophes, carrying `payload` (the row's JSON text).
pub fn keyed_record(row: &Row, payload: String) -> (r: Record)
    ensures
        r.topic@ == STOCKS_TOPIC@,
        r.key@ == key_of(row.name@),
        r.payload@ == payload@,
{
    Record { topic: owned(STOCKS_TOPIC), key: sanitize_key(row.name.as_str()), payload }
}

/// The record of a row sent to a topic of its own: the topic is the row's
/// name without spaces and apostrophes, the key is fixed and the payload is
/// the row's description.
pub fn topic_record(row: &Row) -> (r: Record)
    ensures
        r.topic@ == key_of(row.name@),
        r.key@ == TOPIC_RECORD_KEY@,
        r.payload@ == row_text(row@),
{
    Record {
        topic: sanitize_key(row.name.as_str()),
        key: owned(TOPIC_RECORD_KEY),
        payload: row.to_display_string(),
    }
}

/// The records that one scrape of the quotes page `html` publishes, one per
/// row, each to the row's own topic.
pub fn scrape_topic_records(html: &str) -> (records: Vec<Record>)
    ensures
        records.len() == rows_of_table(first_table_cells(html@)).len(),
        forall|i: int|
            0 <= i < records.len() ==> is_topic_record(
                #[trigger] records[i],
                rows_of_table(first_table_cells(html@))[i],
            ),
{
    let rows = scrape_rows(html);
    let ghost expect = rows_of_table(first_table_cells(html@));
    let mut records: Vec<Record> = Vec::new();
    let mut i: usize = 0;
    while i < rows.len()
        invariant
            i <= rows.len(),
            rows_view(rows@) == expect,
            records.len() == i,
            forall|k: int| 0 <= k < i ==> is_topic_record(#[trigger] records[k], expect[k]),
        decreases rows.len() - i,
    {
        let rec = topic_record(&rows[i]);
        assert(expect[i as int] == rows[i as int]@);
        records.push(rec);
        i = i + 1;
    }
    assert(expect.len() == rows.len());
    records
}

/// The trimmed cell texts of each row of the first table that lists the
/// quotes-table class list, in the page `html`.
pub fn scrape_listing(html: &str) -> (r: Vec<Vec<String>>)
    ensures
        r.deep_view() == class_table_cells(html@),
{
    let page = parse_page(html);
    let tables = find_with_class(&page, QUOTES_TABLE_CLASS);
    if tables.len() == 0 {
        let r: Vec<Vec<String>> = Vec::new();
        assert(r.deep_view() =~= Seq::<Seq<Seq<char>>>::empty());
        r
    } else {
        table_rows(&page, tables[0])
    }
}

/// A record key holds no space and no apostrophe.
pub proof fn law_key_has_no_separators(name: Seq<char>)
    ensures
        forall|i: int| 0 <= i < key_of(name).len() ==> kept_in_key(#[trigger] key_of(name)[i]),
    decreases name.len(),
{
    if name.len() > 0 {
        let rest = key_of(name.drop_last());
        law_key_has_no_separators(name.drop_last());
        assert forall|i: int| 0 <= i < key_of(name).len() implies kept_in_key(
            #[trigger] key_of(name)[i],
        ) by {
            if i < rest.len() {
                assert(key_of(name)[i] == rest[i]);
            }
        }
    }
}

/// A name without spaces and apostrophes is its own key.
pub proof fn law_clean_name_is_its_key(name: Seq<char>)
    requires
        forall|i: int| 0 <= i < name.len() ==> kept_in_key(#[trigger] name[i]),
    ensures
        key_of(name) == name,
    decreases name.len(),
{
    if name.len() > 0 {
        let init = name.drop_last();
        assert forall|i: int| 0 <= i < init.len() implies kept_in_key(#[trigger] init[i]) by {
            assert(init[i] == name[i]);
        }
        law_clean_name_is_its_key(init);
        assert(init.push(name.last()) =~= name);
    }
}

/// Making a key twice gives the key made once.
pub proof fn law_key_is_idempotent(name: Seq<char>)
    ensures
        key_of(key_of(name)) == key_of(name),
{
    law_key_has_no_separators(name);
    law_clean_name_is_its_key(key_of(name));
}

/// The rows of two tables one after the other are the rows of the first,
/// then those of the second: each table row is read on its own.
pub proof fn law_rows_are_read_row_by_row(a: Seq<Seq<Seq<char>>>, b: Seq<Seq<Seq<char>>>)
    ensures
        rows_of_table(a + b) == rows_of_table(a) + rows_of_table(b),
    decreases b.len(),
{
    if b.len() == 0 {
        assert(a + b =~= a);
        assert(rows_of_table(a) + rows_of_table(b) =~= rows_of_table(a));
    } else {
        law_rows_are_read_row_by_row(a, b.drop_last());
        assert((a + b).drop_last() =~= a + b.drop_last());
        assert((a + b).last() == b.last());
        if b.last().len() == 7 {
            assert(rows_of_table(a) + rows_of_table(b) =~= (rows_of_table(a) + rows_of_table(
                b.drop_last(),
            )).push(row_from_cells(b.last())));
        }
    }
}

/// A table yields at most one row per table row, and exactly one when every
/// table row has seven cells.
pub proof fn law_one_row_per_full_table_row(table: Seq<Seq<Seq<char>>>)
    ensures
        rows_of_table(table).len() <= table.len(),
        (forall|i: int| 0 <= i < table.len() ==> (#[trigger] table[i]).len() == 7) ==> rows_of_table(
            table,
        ).len() == table.len(),
    decreases table.len(),
{
    if table.len() > 0 {
        law_one_row_per_full_table_row(table.drop_last());
        if forall|i: int| 0 <= i < table.len() ==> (#[trigger] table[i]).len() == 7 {
            assert forall|i: int| 0 <= i < table.drop_last().len() implies (
            #[trigger] table.drop_last()[i]).len() == 7 by {
                assert(table.drop_last()[i] == table[i]);
            }
            assert(table.last() == table[table.len() - 1]);
        }
    }
}

/// Whether a text neither starts nor ends with whitespace.
pub open spec fn edges_not_white(s: Seq<char>) -> bool {
    s.len() > 0 ==> !is_white(s[0]) && !is_white(s.last())
}

/// Each table row gives one list of cells, one cell per `td` element of that
/// row in order, and each cell is the whole text of its element with leading
/// and trailing whitespace removed, so it neither starts nor ends with
/// whitespace.
pub proof fn law_every_cell_is_trimmed_node_text(html: Seq<char>, table: int)
    ensures
        table_rows_cells(html, table).len() == html_find_below(
            html,
            table,
            NodeFilter::Named("tr"@),
        ).len(),
        forall|k: int|
            0 <= k < table_rows_cells(html, table).len() ==> (#[trigger] table_rows_cells(
                html,
                table,
            )[k]).len() == html_find_below(
                html,
                html_find_below(html, table, NodeFilter::Named("tr"@))[k] as int,
                NodeFilter::Named("td"@),
            ).len(),
        forall|k: int, c: int|
            0 <= k < table_rows_cells(html, table).len() && 0 <= c < table_rows_cells(
                html,
                table,
            )[k].len() ==> {
                let tds = html_find_below(
                    html,
                    html_find_below(html, table, NodeFilter::Named("tr"@))[k] as int,
                    NodeFilter::Named("td"@),
                );
                &&& #[trigger] table_rows_cells(html, table)[k][c] == trim_spec(
                    html_text(html, tds[c] as int),
                )
                &&& edges_not_white(table_rows_cells(html, table)[k][c])
            },
{
    let rows = html_find_below(html, table, NodeFilter::Named("tr"@));
    let cells = table_rows_cells(html, table);
    assert forall|k: int, c: int| 0 <= k < cells.len() && 0 <= c < cells[k].len() implies {
        let tds = html_find_below(html, rows[k] as int, NodeFilter::Named("td"@));
        &&& #[trigger] cells[k][c] == trim_spec(html_text(html, tds[c] as int))
        &&& edges_not_white(cells[k][c])
    } by {
        let tds = html_find_below(html, rows[k] as int, NodeFilter::Named("td"@));
        law_trim_edges(html_text(html, tds[c] as int));
    }
}

/// The index of the table row that row `r` of `rows_of_table(table)` is read from.
spec fn source_row(table: Seq<Seq<Seq<char>>>, r: int) -> int
    decreases table.len(),
{
    if table.len() == 0 {
        0
    } else if r < rows_of_table(table.drop_last()).len() {
        source_row(table.drop_last(), r)
    } else {
        table.len() - 1
    }
}

proof fn lemma_rows_come_from_full_table_rows(table: Seq<Seq<Seq<char>>>, r: int)
    requires
        0 <= r < rows_of_table(table).len(),
    ensures
        0 <= source_row(table, r) < table.len(),
        table[source_row(table, r)].len() == 7,
        rows_of_table(table)[r] == row_from_cells(table[source_row(table, r)]),
    decreases table.len(),
{
    let init = table.drop_last();
    let rest = rows_of_table(init);
    if r < rest.len() {
        lemma_rows_come_from_full_table_rows(init, r);
        let k = source_row(init, r);
        assert(table[k] == init[k]);
        assert(rows_of_table(table)[r] == rest[r]);
    } else {
        if table.last().len() != 7 {
            assert(rows_of_table(table) == rest);
        }
        assert(rows_of_table(table)[r] == row_from_cells(table.last()));
    }
}

/// Every field of every scraped row is the trimmed text of a cell of the
/// page's first table: none starts or ends with whitespace.
pub proof fn law_scraped_fields_are_trimmed(html: Seq<char>)
    ensures
        forall|r: int|
            0 <= r < rows_of_table(first_table_cells(html)).len() ==> {
                let row = #[trigger] rows_of_table(first_table_cells(html))[r];
                &&& edges_not_white(row.name)
                &&& edges_not_white(row.rate)
                &&& edges_not_white(row.variation)
                &&& edges_not_white(row.opening)
                &&& edges_not_white(row.high)
                &&& edges_not_white(row.low)
                &&& edges_not_white(row.volume)
            },
{
    let table = first_table_cells(html);
    let tables = html_find(html, NodeFilter::Named("table"@));
    if tables.len() > 0 {
        law_every_cell_is_trimmed_node_text(html, tables[0] as int);
    }
    assert forall|r: int| 0 <= r < rows_of_table(table).len() implies {
        let row = #[trigger] rows_of_table(table)[r];
        &&& edges_not_white(row.name)
        &&& edges_not_white(row.rate)
        &&& edges_not_white(row.variation)
        &&& edges_not_white(row.opening)
        &&& edges_not_white(row.high)
        &&& edges_not_white(row.low)
        &&& edges_not_white(row.volume)
    } by {
        lemma_rows_come_from_full_table_rows(table, r);
        let k = source_row(table, r);
        assert(tables.len() > 0);
        assert(edges_not_white(table[k][0]));
        assert(edges_not_white(table[k][1]));
        assert(edges_not_white(table[k][2]));
        assert(edges_not_white(table[k][3]));
        assert(edges_not_white(table[k][4]));
        assert(edges_not_white(table[k][5]));
        assert(edges_not_white(table[k][6]));
    }
}

} // verus!
