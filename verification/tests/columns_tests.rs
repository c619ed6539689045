use jira::ui::shared::pbi_table::columns::{ColumnConfig, ColumnWidth, CustomColumn, PbiColumn};

fn custom_column(name: &str) -> CustomColumn {
    CustomColumn { name: name.to_string(), id: 1 }
}

#[test]
fn add_custom_appends_header_and_constraint() {
    let mut config = ColumnConfig::new();
    let column = custom_column("Cycle");
    config.add_custom(column);

    assert_eq!(config.headers(), vec![String::from("Cycle")]);
    assert_eq!(config.constraints(), vec![ColumnWidth::Length(10)]);
}

#[test]
fn a_long_custom_name_widens_its_column() {
    let mut config = ColumnConfig::new();
    config.add_custom(custom_column("Time in review"));

    assert_eq!(config.constraints(), vec![ColumnWidth::Length(16)]);
}

#[test]
fn the_default_views_show_seven_built_in_columns() {
    let sprint = ColumnConfig::sprint_view();
    let list = ColumnConfig::list_view();

    assert!(sprint.has_column(PbiColumn::Status));
    assert!(list.has_column(PbiColumn::Indicator));
    assert!(!list.has_column(PbiColumn::Priority));
    assert_eq!(sprint.headers().len(), 7);
    assert_eq!(sprint.constraints()[3], ColumnWidth::Min(40));
}
