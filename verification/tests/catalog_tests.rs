use query_engine::catalog::Catalog;
use query_engine::catalog::CatalogError;
use query_engine::catalog::DummyCatalog;
use query_engine::schema::DataType;
use query_engine::schema::Field;
use query_engine::schema::Schema;

#[test]
fn test_catalog() {
    let mut catalog = DummyCatalog::new();

    assert_eq!(
        catalog.get_schema("table"),
        Err(CatalogError::TableNotFound("table".to_string()))
    );

    catalog.add_table("table", Schema::empty());
    assert_eq!(catalog.get_schema("table"), Ok(Schema::empty()));
}

#[test]
fn catalog_later_entry_shadows_earlier() {
    let mut catalog = DummyCatalog::new();
    let first = Schema::new(vec![Field::new("a".to_string(), DataType::Int32)]);
    let second = Schema::new(vec![
        Field::new("a".to_string(), DataType::Int32),
        Field::new("b".to_string(), DataType::Utf8),
    ]);
    catalog.add_table("t", first);
    catalog.add_table("t", second.clone());
    assert_eq!(catalog.get_schema("t"), Ok(second));
    assert_eq!(
        catalog.get_schema("other"),
        Err(CatalogError::TableNotFound("other".to_string()))
    );
}
