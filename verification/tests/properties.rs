use diesel_streamer::{
    plan_next, resolve_bounds, run_to_completion, split_database_url, stream_batches, Counter,
    CursorRange, StreamConfig, StreamError, Streamer, Table,
};

fn table_of(ids: &[i32]) -> Table {
    let mut table = Table::new();
    for id in ids {
        table.push_row(*id);
    }
    table
}

#[test]
fn streams_tail_in_one_batch() {
    let table = table_of(&[1, 2, 3, 4]);
    let config = StreamConfig::sync_defaults().with_chunk_size(200).with_from(2);
    let batches = stream_batches(&table, &config).unwrap();
    assert_eq!(batches, vec![vec![2, 3, 4]]);
}

#[test]
fn unit_chunks_stream_in_order() {
    let table = table_of(&[1, 2, 3, 4]);
    let config = StreamConfig::sync_defaults().with_chunk_size(1).with_from(1).with_to(3);
    let batches = stream_batches(&table, &config).unwrap();
    assert_eq!(batches, vec![vec![1], vec![2], vec![3]]);
}

#[test]
fn rerun_yields_identical_batches() {
    let table = table_of(&[3, 7, 8, 20, 21]);
    let config = StreamConfig::sync_defaults().with_chunk_size(5);
    let first_run = stream_batches(&table, &config).unwrap();
    let second_run = stream_batches(&table, &config).unwrap();
    assert_eq!(first_run, second_run);
}

#[test]
fn rejects_zero_chunk_size() {
    let table = table_of(&[1, 2]);
    let config = StreamConfig::sync_defaults().with_chunk_size(0);
    assert_eq!(stream_batches(&table, &config), Err(StreamError::InvalidChunkSize));
}

#[test]
fn rejects_negative_chunk_size() {
    let table = table_of(&[1, 2]);
    let config = StreamConfig::sync_defaults().with_chunk_size(-5);
    assert_eq!(run_to_completion(&table, &config), Err(StreamError::InvalidChunkSize));
}

#[test]
fn skips_chunks_that_hold_no_rows() {
    let table = table_of(&[1, 5, 9]);
    let config = StreamConfig::sync_defaults().with_chunk_size(2);
    let batches = stream_batches(&table, &config).unwrap();
    assert_eq!(batches, vec![vec![1], vec![5], vec![9]]);
}

#[test]
fn explicit_from_beyond_the_table_yields_nothing() {
    let table = table_of(&[1, 2, 3, 4]);
    let config = StreamConfig::sync_defaults().with_from(10);
    let batches = stream_batches(&table, &config).unwrap();
    assert_eq!(batches, Vec::<Vec<i32>>::new());
}

#[test]
fn single_row_streams_once_whatever_the_chunk_size() {
    let table = table_of(&[7]);
    for chunk_size in [1, 2, 500, 100000] {
        let config = StreamConfig::sync_defaults().with_chunk_size(chunk_size);
        let batches = stream_batches(&table, &config).unwrap();
        assert_eq!(batches, vec![vec![7]]);
    }
}

#[test]
fn explicit_to_beyond_the_table_claims_each_row_once() {
    let table = table_of(&[1, 2, 3, 4]);
    let config = StreamConfig::sync_defaults().with_chunk_size(2).with_from(1).with_to(200);
    let batches = stream_batches(&table, &config).unwrap();
    assert_eq!(batches, vec![vec![1, 2], vec![3, 4]]);
}

#[test]
fn resumable_stream_matches_blocking_stream() {
    let table = table_of(&[2, 3, 10, 11, 12, 40]);
    for config in [
        StreamConfig::sync_defaults(),
        StreamConfig::async_defaults(),
        StreamConfig::sync_defaults().with_chunk_size(3),
        StreamConfig::sync_defaults().with_chunk_size(1).with_from(3).with_to(12),
    ] {
        assert_eq!(
            run_to_completion(&table, &config).unwrap(),
            stream_batches(&table, &config).unwrap()
        );
    }
}

#[test]
fn resumable_stream_steps_through_its_states() {
    let table = table_of(&[1, 2, 3]);
    let config = StreamConfig::async_defaults().with_chunk_size(2);
    let mut stream = Streamer::new(&config).unwrap();
    assert!(stream.wants_bounds());
    assert!(!stream.has_explicit_from());
    assert!(!stream.has_explicit_to());

    stream.bounds_ready(table.min_id(), table.max_id());
    assert!(!stream.wants_bounds());

    let mut yielded: Vec<Vec<i32>> = Vec::new();
    while let Some(_chunk) = stream.plan_chunk() {
        let (lo, hi) = stream.fetch_window();
        let batch = table.fetch(lo, hi);
        if !batch.is_empty() {
            yielded.push(batch);
        }
        stream.batch_done();
    }
    assert!(stream.is_exhausted());
    assert_eq!(yielded, vec![vec![1, 2], vec![3]]);
}

#[test]
fn streams_rows_at_the_top_of_the_cursor_type() {
    let table = table_of(&[i32::MAX - 1, i32::MAX]);
    let config = StreamConfig::sync_defaults();
    let batches = stream_batches(&table, &config).unwrap();
    assert_eq!(batches, vec![vec![i32::MAX - 1, i32::MAX]]);
    assert_eq!(run_to_completion(&table, &config).unwrap(), batches);
}

#[test]
fn streams_a_row_with_cursor_zero() {
    let table = table_of(&[0]);
    let batches = stream_batches(&table, &StreamConfig::sync_defaults()).unwrap();
    assert_eq!(batches, vec![vec![0]]);
}

#[test]
fn default_chunk_sizes() {
    assert_eq!(StreamConfig::sync_defaults().chunk_size, 100000);
    assert_eq!(StreamConfig::async_defaults().chunk_size, 500);
}

#[test]
fn resolves_missing_bounds_from_the_store() {
    assert_eq!(
        resolve_bounds(None, None, None, None),
        CursorRange { from: 0, to: 0 }
    );
    assert_eq!(
        resolve_bounds(None, None, Some(3), Some(9)),
        CursorRange { from: 3, to: 9 }
    );
    assert_eq!(
        resolve_bounds(Some(5), None, Some(3), Some(9)),
        CursorRange { from: 5, to: 9 }
    );
    assert_eq!(
        resolve_bounds(None, Some(7), Some(3), Some(9)),
        CursorRange { from: 3, to: 7 }
    );
}

#[test]
fn plans_adjacent_half_open_chunks() {
    let (chunk, remaining) = plan_next(&CursorRange { from: 0, to: 10 }, 3).unwrap();
    assert_eq!((chunk.lower, chunk.upper), (0, 3));
    assert_eq!(remaining, CursorRange { from: 3, to: 10 });

    let (chunk, remaining) = plan_next(&remaining, 3).unwrap();
    assert_eq!((chunk.lower, chunk.upper), (3, 6));
    assert_eq!(remaining, CursorRange { from: 6, to: 10 });

    assert!(plan_next(&CursorRange { from: 11, to: 10 }, 3).is_none());
}

#[test]
fn counter_counts() {
    let mut counter = Counter::new(5);
    counter.increment();
    assert_eq!(*counter.value, 6);
    counter.decrement();
    counter.decrement();
    assert_eq!(*counter.value, 4);
}

#[test]
fn splits_database_urls() {
    let (name, bare) = split_database_url("postgres://localhost:5432/my_db");
    assert_eq!(name, "my_db");
    assert_eq!(bare, "postgres://localhost:5432");

    let (name, bare) = split_database_url("just_a_name");
    assert_eq!(name, "just_a_name");
    assert_eq!(bare, "");

    let (name, bare) = split_database_url("server/");
    assert_eq!(name, "");
    assert_eq!(bare, "server");
}
