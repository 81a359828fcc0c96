use diesel_streamer::{stream_batches, Counter, StreamConfig, Table};

fn insert_users(table: &mut Table, number_of_users: u16) {
    let mut id: i32 = 1;
    while id <= number_of_users as i32 {
        table.push_row(id);
        id += 1;
    }
}

fn get_users(table: &Table) -> Vec<i32> {
    table.fetch(0, i32::MAX as i64)
}

#[test]
fn serial_table_allows_processing_table_data() {
    let mut table = Table::new();
    insert_users(&mut table, 2);

    let all_users = get_users(&table);

    let batches = stream_batches(&table, &StreamConfig::sync_defaults()).unwrap();

    for loaded_users in &batches {
        assert_eq!(loaded_users.first(), all_users.first());
        assert_eq!(loaded_users.last(), all_users.last());
    }
}

#[test]
fn allows_processing_tables_with_one_row() {
    let mut table = Table::new();
    insert_users(&mut table, 1);

    let all_users = get_users(&table);

    let mut call_count = Counter::new(0);

    let batches = stream_batches(&table, &StreamConfig::sync_defaults()).unwrap();
    for loaded_users in &batches {
        call_count.increment();
        assert_eq!(loaded_users.len(), 1);
        assert_eq!(loaded_users.first(), all_users.first());
    }

    assert_eq!(*call_count.value, 1);
}

#[test]
fn serial_table_does_nothing_when_table_is_empty() {
    let table = Table::new();

    let mut call_count = Counter::new(0);

    let batches = stream_batches(&table, &StreamConfig::sync_defaults()).unwrap();
    for _loaded_users in &batches {
        call_count.increment();
    }

    assert_eq!(*call_count.value, 0);
}

#[test]
fn serial_table_allows_processing_table_data_in_chunks() {
    let mut table = Table::new();
    insert_users(&mut table, 2);

    let chunk_size = 1;

    let batches = stream_batches(
        &table,
        &StreamConfig::sync_defaults().with_chunk_size(chunk_size),
    )
    .unwrap();
    for loaded_users in &batches {
        assert!(loaded_users.len() <= chunk_size as usize);
    }
}

#[test]
fn serial_table_starts_from_specified_beginning() {
    let mut table = Table::new();

    let inserted_users_count = 4;
    insert_users(&mut table, inserted_users_count);

    let inserted_users = get_users(&table);
    let user_with_least_id = inserted_users.first().unwrap();

    let beginning = user_with_least_id + 1;
    let chunk_size = 200;

    let batches = stream_batches(
        &table,
        &StreamConfig::sync_defaults()
            .with_chunk_size(chunk_size)
            .with_from(beginning),
    )
    .unwrap();
    for loaded_users in &batches {
        assert_eq!(loaded_users.len(), (inserted_users_count - 1) as usize);

        assert!(!loaded_users.contains(user_with_least_id));
    }
}

#[test]
fn serial_table_stops_at_specified_end() {
    let mut table = Table::new();

    let inserted_users_count = 4;
    insert_users(&mut table, inserted_users_count);

    let inserted_users = get_users(&table);
    let user_with_lowest_id = inserted_users.first().unwrap();
    let user_with_highest_id = inserted_users.last().unwrap();

    let beginning = *user_with_lowest_id;
    let end = user_with_highest_id - 1;
    let chunk_size = user_with_highest_id - user_with_lowest_id;

    let batches = stream_batches(
        &table,
        &StreamConfig::sync_defaults()
            .with_chunk_size(chunk_size)
            .with_from(beginning)
            .with_to(end),
    )
    .unwrap();
    for loaded_users in &batches {
        assert_eq!(loaded_users.len(), (inserted_users_count - 1) as usize);

        assert!(!loaded_users.contains(user_with_highest_id));
    }
}
