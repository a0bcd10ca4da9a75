use csvser::cell::Cell;
use csvser::csv::{CellsBuilder, Csv};
use csvser::models::{CellType, Fixed};

#[test]
fn i18n_section() {
    let toml_data = r#"
        [commons]
        recipient = "destinataire"
    "#;
    let translations: toml::Table = toml::from_str(toml_data).unwrap();
    let csv = Csv::new_iso();
    let result = csv.get_i18n("commons.recipient", &translations);
    assert_eq!("destinataire", result);
}

#[test]
fn i18n_key() {
    let toml_data = r#"
        recipient = "destinataire"
    "#;
    let translations: toml::Table = toml::from_str(toml_data).unwrap();
    let csv = Csv::new_iso();
    let result = csv.get_i18n("recipient", &translations);
    assert_eq!("destinataire", result);
}

#[test]
fn unknown_key_falls_back_to_title() {
    let translations: toml::Table = toml::from_str("").unwrap();
    let csv = Csv::new_iso();
    assert_eq!("unknown.key", csv.get_i18n("unknown.key", &translations));
}

#[test]
fn known_key_translates() {
    let translations: toml::Table = toml::from_str("known = \"X\"").unwrap();
    let csv = Csv::new_iso();
    assert_eq!("X", csv.get_i18n("known", &translations));
}

#[test]
fn two_dots_leave_title_unchanged() {
    let toml_data = r#"
        [a]
        b = "wrong"
    "#;
    let translations: toml::Table = toml::from_str(toml_data).unwrap();
    let csv = Csv::new_iso();
    assert_eq!("a.b.c", csv.get_i18n("a.b.c", &translations));
}

#[test]
fn non_text_leaf_falls_back() {
    let toml_data = r#"
        count = 3
        [section]
        count = 4
    "#;
    let translations: toml::Table = toml::from_str(toml_data).unwrap();
    let csv = Csv::new_iso();
    assert_eq!("count", csv.get_i18n("count", &translations));
    assert_eq!("section.count", csv.get_i18n("section.count", &translations));
}

#[test]
fn serialize_translates_header_titles() {
    struct Letter {
        recipient: String,
    }
    impl CellsBuilder for Letter {
        fn get_cells(&self) -> Vec<Cell> {
            vec![
                Cell::new_title("commons.recipient", CellType::Text(Some(self.recipient.clone()))),
                Cell::new_title("pages", CellType::Int(Some(2))),
            ]
        }
    }
    let toml_data = r#"
        [commons]
        recipient = "destinataire"
    "#;
    let translations: toml::Table = toml::from_str(toml_data).unwrap();
    let values = vec![Letter { recipient: "A".to_string() }];
    let result = Csv::new_fr().serialize_i8n_toml::<Letter>(&values, translations);
    assert_eq!("\"destinataire\";\"pages\"\n\"A\";2", result);
}

#[test]
fn serialize_keeps_untranslated_titles() {
    struct Row {
        size: Fixed,
    }
    impl CellsBuilder for Row {
        fn get_cells(&self) -> Vec<Cell> {
            vec![Cell::new_title("Taille", CellType::Float32(Some(self.size)))]
        }
    }
    let translations: toml::Table = toml::from_str("other = \"X\"").unwrap();
    let values = vec![Row { size: Fixed { neg: false, milli: 500 } }];
    let result = Csv::new_fr().serialize_i8n_toml::<Row>(&values, translations);
    assert_eq!("\"Taille\"\n0,500", result);
}
