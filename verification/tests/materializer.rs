use catalog_gate::delta::{
    absorb, accumulate, file_name_of, file_names_of, settle, FileOutcome,
};
use catalog_gate::metastore::Table;
use catalog_gate::permissions::{AzureDataLakeGen2Options, Permissions};
use catalog_gate::reader::{DeltaLakeReader, LoadCommand, LoadEvent, LoadPhase, Materialization};
use catalog_gate::sync::MetastoreClient;
use polars::prelude::{
    Column, DataFrame, ParallelStrategy, ParquetReader, ParquetWriter, PolarsError, SerReader,
};

fn frame(ids: &[i64], names: &[&str]) -> DataFrame {
    DataFrame::new(
        ids.len(),
        vec![Column::new("id".into(), ids), Column::new("name".into(), names)],
    )
    .unwrap()
}

fn other_frame(amounts: &[i64]) -> DataFrame {
    DataFrame::new(amounts.len(), vec![Column::new("amount".into(), amounts)]).unwrap()
}

fn parquet(mut frame: DataFrame) -> Vec<u8> {
    let mut bytes: Vec<u8> = Vec::new();
    ParquetWriter::new(&mut bytes).finish(&mut frame).unwrap();
    bytes
}

fn parse(bytes: &[u8]) -> Option<DataFrame> {
    ParquetReader::new(std::io::Cursor::new(bytes))
        .read_parallel(ParallelStrategy::None)
        .finish()
        .ok()
}

fn ids(frame: &DataFrame) -> Vec<i64> {
    let column = frame.column("id").unwrap().as_materialized_series().i64().unwrap().clone();
    column.into_no_null_iter().collect()
}

fn column_names(frame: &DataFrame) -> Vec<String> {
    frame.get_column_names().iter().map(|name| name.to_string()).collect()
}

fn table(location: Option<&str>) -> Table {
    Table {
        name: String::from("t1"),
        catalog_name: String::from("c1"),
        schema_name: String::from("s1"),
        table_type: String::from("MANAGED"),
        data_source_format: Some(String::from("DELTA")),
        storage_location: location.map(String::from),
        view_definition: None,
        sql_path: None,
        owner: String::from("erin"),
        comment: None,
        storage_credential_name: None,
        enable_predictive_optimization: None,
        metastore_id: None,
        full_name: String::from("c1.s1.t1"),
        data_access_configuration_id: None,
        created_at: 0,
        created_by: String::from("admin"),
        updated_at: None,
        updated_by: None,
        deleted_at: None,
        table_id: String::from("tid"),
        access_point: None,
        pipeline_id: None,
        browse_only: None,
    }
}

fn reader(principal: &str) -> DeltaLakeReader {
    DeltaLakeReader::new(
        AzureDataLakeGen2Options::new(
            String::from("account"),
            String::from("client"),
            String::from("secret"),
            String::from("tenant"),
        ),
        Permissions::new(String::from("ws"), String::from("tok")),
        MetastoreClient::new(String::from("ws"), String::from("tok"), String::from("sqlite://mirror.db")),
        String::from(principal),
    )
}

struct Store {
    files: Vec<(&'static str, Option<DataFrame>)>,
    allowed: bool,
    listings: usize,
    fetches: Vec<String>,
    reversed: bool,
}

impl Store {
    fn new(allowed: bool, files: Vec<(&'static str, Option<DataFrame>)>) -> Store {
        Store { files, allowed, listings: 0, fetches: vec![], reversed: false }
    }

    fn get(&mut self, name: &str) -> Option<DataFrame> {
        self.fetches.push(String::from(name));
        self.files.iter().find(|(known, _)| *known == name).unwrap().1.clone()
    }

    fn drive(&mut self, started: (Materialization, LoadCommand)) -> LoadCommand {
        let (mut request, mut command) = started;
        for _ in 0..100 {
            let event = match command {
                LoadCommand::Locate { full_name } => {
                    assert_eq!(full_name, "c1.s1.t1");
                    LoadEvent::Located(table(Some("abfss://lake/c1/s1/t1")))
                }
                LoadCommand::Authorize { full_name, principal } => {
                    assert_eq!(full_name, "c1.s1.t1");
                    assert!(!principal.is_empty());
                    LoadEvent::Permission(self.allowed)
                }
                LoadCommand::ListFiles { location } => {
                    assert_eq!(location, "abfss://lake/c1/s1/t1");
                    self.listings += 1;
                    LoadEvent::Listed(
                        self.files
                            .iter()
                            .map(|(name, _)| format!("abfss://lake/c1/s1/t1/{name}"))
                            .collect(),
                    )
                }
                LoadCommand::FetchFile { name } => LoadEvent::File(self.get(&name)),
                LoadCommand::FetchFiles { names } => {
                    let mut all: Vec<Option<DataFrame>> =
                        names.iter().map(|name| self.get(name)).collect();
                    if self.reversed {
                        all.reverse();
                    }
                    LoadEvent::Files(all)
                }
                last => {
                    assert!(request.phase() == LoadPhase::Done || request.phase() == LoadPhase::Failed);
                    return last;
                }
            };
            let next = request.step(event);
            request = next.0;
            command = next.1;
        }
        panic!("the request did not end");
    }
}

fn three_files() -> Vec<(&'static str, Option<DataFrame>)> {
    vec![
        ("part-0.parquet", Some(frame(&[1, 2], &["a", "b"]))),
        ("part-1.parquet", Some(frame(&[3], &["c"]))),
        ("part-2.parquet", Some(frame(&[4, 5, 6], &["d", "e", "f"]))),
    ]
}

#[test]
fn serial_read_unites_the_files_in_listing_order() {
    let mut store = Store::new(true, three_files());
    let last = store.drive(reader("bob").read_delta_table_as_polars("c1.s1.t1", false));
    match last {
        LoadCommand::Deliver(result) => {
            assert_eq!(result.outcomes, vec![FileOutcome::Kept; 3]);
            assert_eq!(ids(&result.frame), vec![1, 2, 3, 4, 5, 6]);
            assert_eq!(column_names(&result.frame), vec!["id", "name"]);
            assert!(result.frame.equals(&frame(
                &[1, 2, 3, 4, 5, 6],
                &["a", "b", "c", "d", "e", "f"]
            )));
        }
        _ => panic!("expected a delivery"),
    }
    assert_eq!(store.listings, 1);
    assert_eq!(store.fetches, vec!["part-0.parquet", "part-1.parquet", "part-2.parquet"]);
}

#[test]
fn parallel_read_holds_the_same_rows_as_serial_read() {
    let mut serial = Store::new(true, three_files());
    let mut parallel = Store::new(true, three_files());
    parallel.reversed = true;
    let one = serial.drive(reader("bob").read_delta_table_as_polars("c1.s1.t1", false));
    let other = parallel.drive(reader("bob").read_delta_table_as_polars("c1.s1.t1", true));
    match (one, other) {
        (LoadCommand::Deliver(one), LoadCommand::Deliver(other)) => {
            let mut left = ids(&one.frame);
            let mut right = ids(&other.frame);
            assert_eq!(right, vec![4, 5, 6, 3, 1, 2]);
            left.sort();
            right.sort();
            assert_eq!(left, right);
            assert_eq!(column_names(&one.frame), column_names(&other.frame));
            assert_eq!(one.frame.schema(), other.frame.schema());
        }
        _ => panic!("expected two deliveries"),
    }
    assert_eq!(parallel.fetches.len(), 3);
}

#[test]
fn a_denied_principal_gets_no_rows_and_nothing_is_fetched() {
    for parallel in [false, true] {
        let mut store = Store::new(false, three_files());
        let last = store.drive(reader("dave").read_delta_table_as_polars("c1.s1.t1", parallel));
        match last {
            LoadCommand::Deliver(result) => {
                assert_eq!(result.frame.height(), 0);
                assert_eq!(result.frame.width(), 0);
                assert!(result.outcomes.is_empty());
            }
            _ => panic!("expected a delivery"),
        }
        assert_eq!(store.listings, 0);
        assert!(store.fetches.is_empty());
    }
}

#[test]
fn a_corrupt_file_is_left_out_and_the_rest_is_read() {
    let mut files = three_files();
    files[1].1 = parse(b"this is not a parquet file");
    let mut store = Store::new(true, files);
    let last = store.drive(reader("bob").read_delta_table_as_polars("c1.s1.t1", false));
    match last {
        LoadCommand::Deliver(result) => {
            assert_eq!(
                result.outcomes,
                vec![FileOutcome::Kept, FileOutcome::Corrupt, FileOutcome::Kept]
            );
            assert_eq!(ids(&result.frame), vec![1, 2, 4, 5, 6]);
        }
        _ => panic!("expected a delivery"),
    }
    assert_eq!(store.fetches.len(), 3);
}

#[test]
fn a_corrupt_first_file_does_not_stop_the_later_ones() {
    let buffers = vec![parse(&[]), parse(&parquet(frame(&[7], &["g"]))), parse(&[0u8; 64])];
    let result = accumulate(buffers);
    assert_eq!(
        result.outcomes,
        vec![FileOutcome::Corrupt, FileOutcome::Kept, FileOutcome::Corrupt]
    );
    assert_eq!(ids(&result.frame), vec![7]);
}

#[test]
fn an_incompatible_file_is_left_out() {
    let buffers =
        vec![Some(frame(&[1], &["a"])), Some(other_frame(&[10, 20])), Some(frame(&[2], &["b"]))];
    let result = accumulate(buffers);
    assert_eq!(
        result.outcomes,
        vec![FileOutcome::Kept, FileOutcome::Incompatible, FileOutcome::Kept]
    );
    assert_eq!(ids(&result.frame), vec![1, 2]);
    assert_eq!(column_names(&result.frame), vec!["id", "name"]);
}

#[test]
fn a_file_after_an_empty_start_takes_its_place() {
    let buffers = vec![Some(other_frame(&[])), Some(frame(&[1, 2], &["a", "b"]))];
    let result = accumulate(buffers);
    assert_eq!(result.outcomes, vec![FileOutcome::Kept, FileOutcome::Kept]);
    assert_eq!(column_names(&result.frame), vec!["id", "name"]);
    assert_eq!(result.frame.height(), 2);
}

#[test]
fn accumulating_nothing_gives_the_empty_frame() {
    let result = accumulate(Vec::new());
    assert!(result.outcomes.is_empty());
    assert_eq!(result.frame.shape(), (0, 0));
}

#[test]
fn absorb_follows_what_reading_and_uniting_gave() {
    let (after, outcome) = absorb(DataFrame::default(), Some(frame(&[1], &["a"])));
    assert_eq!(outcome, FileOutcome::Kept);
    assert_eq!(ids(&after), vec![1]);

    let (after, outcome) = absorb(after, Some(frame(&[2, 3], &["b", "c"])));
    assert_eq!(outcome, FileOutcome::Kept);
    assert_eq!(ids(&after), vec![1, 2, 3]);

    let (after, outcome) = absorb(after, None);
    assert_eq!(outcome, FileOutcome::Corrupt);
    assert_eq!(after.height(), 3);

    let (after, outcome) = absorb(after, Some(other_frame(&[9])));
    assert_eq!(outcome, FileOutcome::Incompatible);
    assert_eq!(ids(&after), vec![1, 2, 3]);
    assert_eq!(after.width(), 2);
}

#[test]
fn settle_takes_the_union_or_keeps_the_accumulator() {
    let (after, outcome) = settle(frame(&[1], &["a"]), Ok(frame(&[1, 2], &["a", "b"])));
    assert_eq!(outcome, FileOutcome::Kept);
    assert_eq!(ids(&after), vec![1, 2]);
    let failed = Err(PolarsError::ShapeMismatch("widths differ".into()));
    let (after, outcome) = settle(frame(&[1], &["a"]), failed);
    assert_eq!(outcome, FileOutcome::Incompatible);
    assert_eq!(ids(&after), vec![1]);
}

#[test]
fn an_empty_listing_delivers_at_once() {
    for parallel in [false, true] {
        let mut store = Store::new(true, vec![]);
        let last = store.drive(reader("bob").read_delta_table_as_polars("c1.s1.t1", parallel));
        match last {
            LoadCommand::Deliver(result) => assert_eq!(result.frame.height(), 0),
            _ => panic!("expected a delivery"),
        }
        assert_eq!(store.listings, 1);
        assert!(store.fetches.is_empty());
    }
}

#[test]
fn a_table_without_location_is_listed_at_the_empty_path() {
    let (request, _) = reader("bob").read_delta_table_as_polars("c1.s1.t1", false);
    let (request, _) = request.step(LoadEvent::Located(table(None)));
    assert_eq!(request.phase(), LoadPhase::Authorizing);
    let (request, command) = request.step(LoadEvent::Permission(true));
    assert_eq!(request.phase(), LoadPhase::Listing);
    match command {
        LoadCommand::ListFiles { location } => assert_eq!(location, ""),
        _ => panic!("expected a listing"),
    }
}

#[test]
fn failures_abort_the_request() {
    let (request, _) = reader("bob").read_delta_table_as_polars("c1.s1.t1", true);
    let (request, command) = request.step(LoadEvent::Failed);
    assert!(matches!(command, LoadCommand::Abort));
    assert_eq!(request.phase(), LoadPhase::Failed);
    let (_, command) = request.step(LoadEvent::Permission(true));
    assert!(matches!(command, LoadCommand::Abort));

    let (request, _) = reader("bob").read_delta_table_as_polars("c1.s1.t1", true);
    let (request, _) = request.step(LoadEvent::Located(table(Some("x"))));
    let (request, _) = request.step(LoadEvent::Permission(true));
    let (request, command) = request.step(LoadEvent::Listed(vec![String::from("x/a"), String::from("x/b")]));
    match command {
        LoadCommand::FetchFiles { names } => assert_eq!(names, vec!["a", "b"]),
        _ => panic!("expected one fetch for all files"),
    }
    let (request, command) = request.step(LoadEvent::Failed);
    assert!(matches!(command, LoadCommand::Abort));
    assert_eq!(request.phase(), LoadPhase::Failed);
}

#[test]
fn events_out_of_turn_abort_the_request() {
    let (request, _) = reader("bob").read_delta_table_as_polars("c1.s1.t1", false);
    let (_, command) = request.step(LoadEvent::Permission(true));
    assert!(matches!(command, LoadCommand::Abort));

    let (request, _) = reader("bob").read_delta_table_as_polars("c1.s1.t1", false);
    let (request, _) = request.step(LoadEvent::Located(table(Some("x"))));
    let (request, _) = request.step(LoadEvent::Permission(true));
    let (request, _) = request.step(LoadEvent::Listed(vec![String::from("x/a")]));
    let (_, command) = request.step(LoadEvent::Files(vec![]));
    assert!(matches!(command, LoadCommand::Abort));
}

#[test]
fn a_batch_of_the_wrong_size_aborts_the_request() {
    let (request, _) = reader("bob").read_delta_table_as_polars("c1.s1.t1", true);
    let (request, _) = request.step(LoadEvent::Located(table(Some("x"))));
    let (request, _) = request.step(LoadEvent::Permission(true));
    let (request, _) =
        request.step(LoadEvent::Listed(vec![String::from("x/a"), String::from("x/b")]));
    let (request, command) = request.step(LoadEvent::Files(vec![Some(frame(&[1], &["a"]))]));
    assert!(matches!(command, LoadCommand::Abort));
    assert_eq!(request.phase(), LoadPhase::Failed);
}

#[test]
fn a_served_request_has_nothing_more_to_do() {
    let mut store = Store::new(false, vec![]);
    let (request, command) = reader("dave").read_delta_table_as_polars("c1.s1.t1", false);
    let (request, command) = match command {
        LoadCommand::Locate { .. } => request.step(LoadEvent::Located(table(Some("x")))),
        _ => panic!("expected a lookup"),
    };
    assert!(matches!(command, LoadCommand::Authorize { .. }));
    let (request, _) = request.step(LoadEvent::Permission(store.allowed));
    let (request, command) = request.step(LoadEvent::Permission(true));
    assert!(matches!(command, LoadCommand::Stop));
    assert_eq!(request.phase(), LoadPhase::Done);
    store.listings += 0;
}

#[test]
fn a_query_request_is_opened_or_served_empty() {
    let (request, _) = reader("bob").read_delta_table_as_datafusion("c1.s1.t1");
    let (request, _) = request.step(LoadEvent::Located(table(Some("abfss://lake/t1"))));
    let (request, command) = request.step(LoadEvent::Permission(true));
    match command {
        LoadCommand::Open { location } => assert_eq!(location, "abfss://lake/t1"),
        _ => panic!("expected leave to open"),
    }
    assert_eq!(request.phase(), LoadPhase::Done);

    let (request, _) = reader("dave").read_delta_table_as_datafusion("c1.s1.t1");
    let (request, _) = request.step(LoadEvent::Located(table(Some("abfss://lake/t1"))));
    let (request, command) = request.step(LoadEvent::Permission(false));
    assert!(matches!(command, LoadCommand::Empty));
    assert_eq!(request.phase(), LoadPhase::Done);
}

#[test]
fn written_files_parse_back_and_garbage_does_not() {
    let back = parse(&parquet(frame(&[1, 2], &["a", "b"]))).unwrap();
    assert!(back.equals(&frame(&[1, 2], &["a", "b"])));
    assert!(parse(b"PAR1 but nothing more").is_none());
}

#[test]
fn three_files_of_which_the_second_has_other_columns() {
    let x = |values: &[i64]| DataFrame::new(values.len(), vec![Column::new("x".into(), values)]).unwrap();
    let y = DataFrame::new(1, vec![Column::new("y".into(), &["s"])]).unwrap();
    let result = accumulate(vec![Some(x(&[1, 2])), Some(y), Some(x(&[3, 4, 5]))]);
    assert_eq!(
        result.outcomes,
        vec![FileOutcome::Kept, FileOutcome::Incompatible, FileOutcome::Kept]
    );
    assert!(result.frame.equals(&x(&[1, 2, 3, 4, 5])));
}

#[test]
fn files_of_one_schema_come_out_whole_in_listing_order() {
    let result = accumulate(three_files().into_iter().map(|(_, batch)| batch).collect());
    assert_eq!(result.outcomes, vec![FileOutcome::Kept; 3]);
    assert_eq!(result.frame.height(), 6);
    assert_eq!(ids(&result.frame), vec![1, 2, 3, 4, 5, 6]);
    assert_eq!(result.frame.schema(), frame(&[], &[]).schema());
}

#[test]
fn file_names_are_the_last_piece_of_the_address() {
    assert_eq!(file_name_of("abfss://lake/c1/s1/t1/part-0.parquet"), "part-0.parquet");
    assert_eq!(file_name_of("part-0.parquet"), "part-0.parquet");
    assert_eq!(file_name_of("dir/"), "");
    assert_eq!(file_name_of(""), "");
    assert_eq!(
        file_names_of(&vec![String::from("a/b/c"), String::from("d")]),
        vec!["c", "d"]
    );
}

#[test]
fn reader_keeps_what_it_was_given() {
    let reader = reader("bob");
    assert_eq!(reader.principal, "bob");
    assert_eq!(reader.permissions_client.api_client.workspace_name, "ws");
    assert_eq!(reader.metastore_client.api_client.db_token, "tok");
    assert_eq!(reader.storage_credentials.to_hash_map().len(), 4);
}
