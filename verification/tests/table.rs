use ultra_low_latency_db::{FieldConfig, Table, TableConfig, TableError};

fn field(name: &str, ring_capacity: usize) -> (String, FieldConfig) {
    (name.to_string(), FieldConfig { field_size_bytes: 4, ring_capacity })
}

fn table(capacity: usize) -> Table {
    let config = TableConfig {
        fields: vec![field("symbol_id", capacity), field("price", 4), field("quantity", 4)],
    };
    Table::new("market_data".to_string(), config).unwrap()
}

#[test]
fn record_is_written_to_every_column_and_read_back() {
    let mut table = table(4);
    assert_eq!(table.num_fields(), 3);
    assert_eq!(table.capacity(), 4);
    assert_eq!(table.record_count(), 0);
    assert!(table.read_one_record().is_none());
    let first = vec![Some(vec![1, 0, 0, 0]), Some(vec![9, 9]), Some(vec![])];
    let second = vec![Some(vec![2, 0, 0, 0]), Some(vec![8]), Some(vec![7, 7, 7])];
    assert!(table.write_record(&first));
    assert!(table.write_record(&second));
    assert_eq!(table.record_count(), 2);
    assert_eq!(table.read_one_record(), Some(vec![vec![1, 0, 0, 0], vec![9, 9], vec![]]));
    assert_eq!(table.read_one_record(), Some(vec![vec![2, 0, 0, 0], vec![8], vec![7, 7, 7]]));
    assert_eq!(table.read_one_record(), None);
    assert_eq!(table.record_count(), 0);
}

#[test]
fn columns_are_found_by_name() {
    let table = table(4);
    assert_eq!(table.field_index(&"symbol_id".to_string()), Some(0));
    assert_eq!(table.field_index(&"price".to_string()), Some(1));
    assert_eq!(table.field_index(&"quantity".to_string()), Some(2));
    assert_eq!(table.field_index(&"venue".to_string()), None);
}

#[test]
fn a_record_goes_in_whole_or_not_at_all() {
    let mut table = table(8);
    for i in 0..4u8 {
        assert!(table.write_record(&[Some(vec![i]), Some(vec![i]), None]));
    }
    assert!(!table.write_record(&[Some(vec![4]), Some(vec![4]), Some(vec![4])]));
    assert_eq!(table.record_count(), 4);
    assert!(table.write_record(&[Some(vec![5]), None, Some(vec![5])]));
    assert_eq!(table.record_count(), 5);
    assert!(!table.write_record(&[Some(vec![6]), Some(vec![6])]));
    assert!(!table.write_record(&[]));
    assert!(table.read_one_record().is_some());
    assert_eq!(table.record_count(), 4);
    assert!(table.read_one_record().is_none());
    assert_eq!(table.record_count(), 4);
}

#[test]
fn a_table_takes_as_many_records_as_its_first_column() {
    let mut table = table(2);
    assert!(table.write_record(&[None, Some(vec![1]), None]));
    assert!(table.write_record(&[None, Some(vec![2]), None]));
    assert!(!table.write_record(&[None, Some(vec![3]), None]));
    assert_eq!(table.record_count(), 2);
}

#[test]
fn a_table_without_columns_takes_nothing() {
    let mut table = Table::new("empty".to_string(), TableConfig { fields: vec![] }).unwrap();
    assert_eq!(table.capacity(), 0);
    assert!(!table.write_record(&[]));
    assert!(table.read_one_record().is_none());
}

#[test]
fn a_field_without_a_power_of_two_is_refused() {
    for capacity in [0usize, 1, 3, 1000] {
        let config = TableConfig { fields: vec![field("a", 4), field("b", capacity)] };
        assert!(!config.is_valid());
        assert!(matches!(
            Table::new("t".to_string(), config),
            Err(TableError::InvalidField)
        ));
    }
    assert!(FieldConfig { field_size_bytes: 1, ring_capacity: 8192 }.is_valid());
}
