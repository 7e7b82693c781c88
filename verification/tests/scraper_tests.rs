use stock_stream::html::{find_named, find_named_below, find_with_class, node_text, parse_page};
use stock_stream::scraper::{
    first_table, keyed_record, row_of, rows_from_cells, sanitize_key, scrape_listing, scrape_rows,
    scrape_topic_records, table_rows, topic_record, Row, QUOTES_TABLE_CLASS, STOCKS_TOPIC,
    TOPIC_RECORD_KEY,
};

const PAGE: &str = "<html><body>\
<table class=\"table table--values table--no-auto\">\
<tr><th>Nom</th><th>Cours</th></tr>\
<tr><td> Air Liquide </td><td>170,5</td><td>+0,4%</td><td>169,0</td><td>171,2</td><td>168,8</td><td>1 234</td></tr>\
<tr><td>L'Oreal</td><td>400</td><td>-1%</td><td>401</td><td>405</td><td>399</td><td>987</td></tr>\
<tr><td>short</td><td>row</td></tr>\
</table>\
<table><tr><td>other</td></tr></table>\
</body></html>";

fn cells(v: &[&str]) -> Vec<String> {
    v.iter().map(|s| s.to_string()).collect()
}

#[test]
fn scrape_rows_reads_seven_cell_rows_of_first_table() {
    let rows = scrape_rows(PAGE);
    assert_eq!(rows.len(), 2);
    assert_eq!(rows[0].name, "Air Liquide");
    assert_eq!(rows[0].rate, "170,5");
    assert_eq!(rows[0].variation, "+0,4%");
    assert_eq!(rows[0].opening, "169,0");
    assert_eq!(rows[0].high, "171,2");
    assert_eq!(rows[0].low, "168,8");
    assert_eq!(rows[0].volume, "1 234");
    assert_eq!(rows[1].name, "L'Oreal");
}

#[test]
fn scrape_rows_of_page_without_table() {
    assert!(scrape_rows("<p>no quotes</p>").is_empty());
}

#[test]
fn first_table_gives_trimmed_cells_per_row() {
    let page = parse_page(PAGE);
    let t = first_table(&page);
    assert_eq!(t.len(), 4);
    assert!(t[0].is_empty());
    assert_eq!(t[1][0], "Air Liquide");
    assert_eq!(t[3], cells(&["short", "row"]));
}

#[test]
fn page_queries_follow_document_order() {
    let page = parse_page(PAGE);
    let tables = find_named(&page, "table");
    assert_eq!(tables.len(), 2);
    assert!(tables[0] < tables[1]);
    let rows = find_named_below(&page, tables[0], "tr");
    assert_eq!(rows.len(), 4);
    let tds = find_named_below(&page, rows[1], "td");
    assert_eq!(tds.len(), 7);
    assert_eq!(node_text(&page, tds[0]), " Air Liquide ");
    let t2 = table_rows(&page, tables[1]);
    assert_eq!(t2, vec![cells(&["other"])]);
}

#[test]
fn class_search_matches_single_class_names() {
    let page = parse_page(PAGE);
    assert_eq!(find_with_class(&page, "table--values").len(), 1);
    assert_eq!(find_with_class(&page, QUOTES_TABLE_CLASS).len(), 0);
}

#[test]
fn listing_by_full_class_list_finds_nothing() {
    assert!(scrape_listing(PAGE).is_empty());
}

#[test]
fn rows_from_cells_skips_other_sizes() {
    let table = vec![
        cells(&["a", "1", "2", "3", "4", "5", "6"]),
        cells(&["x"]),
        cells(&["b", "1", "2", "3", "4", "5", "6", "7"]),
        cells(&["c", "r", "v", "o", "h", "l", "vol"]),
    ];
    let rows = rows_from_cells(&table);
    assert_eq!(rows.len(), 2);
    assert_eq!(rows[0].name, "a");
    assert_eq!(rows[1].opening, "o");
    assert_eq!(rows[1].high, "h");
}

#[test]
fn row_of_orders_fields() {
    let r = row_of(&cells(&["n", "r", "v", "o", "h", "l", "vol"]));
    assert_eq!(
        r.to_display_string(),
        "name: n, rate: r, variation: v, high: h, opening: o, low: l, volume: vol"
    );
}

#[test]
fn sanitize_key_removes_spaces_and_apostrophes() {
    assert_eq!(sanitize_key("L'Oreal"), "LOreal");
    assert_eq!(sanitize_key(" Air  Liquide "), "AirLiquide");
    assert_eq!(sanitize_key(""), "");
    assert_eq!(sanitize_key("BNP-Paribas"), "BNP-Paribas");
    let k = sanitize_key("Crédit Agricole's");
    assert_eq!(sanitize_key(&k), k);
}

fn sample_row() -> Row {
    row_of(&cells(&["Saint Gobain", "60", "+1%", "59", "61", "58", "10"]))
}

#[test]
fn keyed_record_for_stocks_topic() {
    let r = keyed_record(&sample_row(), "{\"name\":\"x\"}".to_string());
    assert_eq!(r.topic, STOCKS_TOPIC);
    assert_eq!(r.key, "SaintGobain");
    assert_eq!(r.payload, "{\"name\":\"x\"}");
}

#[test]
fn topic_record_for_own_topic() {
    let r = topic_record(&sample_row());
    assert_eq!(r.topic, "SaintGobain");
    assert_eq!(r.key, TOPIC_RECORD_KEY);
    assert_eq!(
        r.payload,
        "name: Saint Gobain, rate: 60, variation: +1%, high: 61, opening: 59, low: 58, volume: 10"
    );
}

#[test]
fn scrape_topic_records_one_per_row() {
    let recs = scrape_topic_records(PAGE);
    assert_eq!(recs.len(), 2);
    assert_eq!(recs[0].topic, "AirLiquide");
    assert_eq!(recs[1].topic, "LOreal");
    assert_eq!(recs[1].key, "SomeKey");
    assert!(recs[0].payload.starts_with("name: Air Liquide, rate: 170,5"));
}

#[test]
fn rows_of_joined_tables_are_joined_rows() {
    let a = vec![cells(&["a", "1", "2", "3", "4", "5", "6"]), cells(&["x"])];
    let b = vec![cells(&["b", "1", "2", "3", "4", "5", "6"])];
    let mut ab = a.clone();
    ab.extend(b.clone());
    let names = |rows: Vec<Row>| rows.into_iter().map(|r| r.name).collect::<Vec<_>>();
    let mut expected = names(rows_from_cells(&a));
    expected.extend(names(rows_from_cells(&b)));
    assert_eq!(names(rows_from_cells(&ab)), expected);
}
