use csvser::cell::Cell;
use csvser::config::Config;
use csvser::csv::{CellsBuilder, Csv};
use csvser::models::{CellType, Date, DateTime, Eol, Fixed, QuoteMode};

#[derive(Debug)]
struct Basic {
    name: String,
    size: Fixed,
}

impl CellsBuilder for Basic {
    fn get_cells(&self) -> Vec<Cell> {
        vec![
            Cell::new_title("Name", CellType::Text(Some(self.name.clone()))),
            Cell::new_title("Taille", CellType::Float32(Some(self.size))),
        ]
    }
}

#[derive(Debug)]
struct Person {
    name: String,
    date: Date,
    removed_on: Option<Date>,
    size: Fixed,
    age: i32,
    date_time: DateTime,
}

impl CellsBuilder for Person {
    fn get_cells(&self) -> Vec<Cell> {
        vec![
            Cell::new_title("Name", CellType::Text(Some(self.name.clone()))),
            Cell::new_title("Taille", CellType::Float32(Some(self.size))),
            Cell::new_title("DOB", CellType::Date(Some(self.date))),
            Cell::new_title("DeletedOn", CellType::Date(self.removed_on)),
            Cell::new_title("Age", CellType::Int(Some(self.age))),
            Cell::new_title("DateTime", CellType::DateTime(Some(self.date_time))),
        ]
    }
}

fn zero() -> Fixed {
    Fixed { neg: false, milli: 0 }
}

fn people() -> Vec<Person> {
    vec![
        Person {
            name: "A".to_string(),
            date: Date::new(2020, 1, 28),
            removed_on: Some(Date::new(2024, 11, 7)),
            size: Fixed::new(false, 1, 790),
            age: 30,
            date_time: DateTime::new(Date::new(2020, 1, 28), 10, 10),
        },
        Person {
            name: "B".to_string(),
            date: Date::new(1950, 10, 11),
            removed_on: None,
            size: Fixed::new(false, 1, 750),
            age: 25,
            date_time: DateTime::new(Date::new(1950, 10, 11), 10, 10),
        },
    ]
}

#[test]
fn fr_linux() {
    let values = people();
    let csv = Csv::new_fr();
    let result = csv.serialize::<Person>(&values);
    let expected = r#""Name";"Taille";"DOB";"DeletedOn";"Age";"DateTime"
"A";1,790;28/01/2020;07/11/2024;30;28/01/2020T10:10
"B";1,750;11/10/1950;;25;11/10/1950T10:10"#;
    assert_eq!(expected, result);
}

#[test]
fn en_linux() {
    let mut values = people();
    values[0].age = 20;
    values[1].age = 20;
    let csv = Csv::new_iso();
    let result = csv.serialize::<Person>(&values);
    let expected = r#""Name","Taille","DOB","DeletedOn","Age","DateTime"
"A",1.790,2020-01-28,2024-11-07,20,2020-01-28T10:10
"B",1.750,1950-10-11,,20,1950-10-11T10:10"#;
    assert_eq!(expected, result);
}

#[test]
fn mode_none() {
    let values = vec![Basic { name: "A".to_string(), size: zero() }];
    let config = Config::new_unix_comma().with_mode(QuoteMode::NoQuotes);
    let csv = Csv::new_iso().with_config(config);
    let result = csv.serialize::<Basic>(&values);
    let expected = r#"Name,Taille
A,0.000"#;
    assert_eq!(expected, result);
}

#[test]
fn mode_all() {
    let values = vec![Basic { name: "A".to_string(), size: zero() }];
    let config = Config::new_unix_semi_column().with_mode(QuoteMode::All);
    let csv = Csv::new_fr().with_config(config);
    let result = csv.serialize::<Basic>(&values);
    let expected = r#""Name";"Taille"
"A";"0,000""#;
    assert_eq!(expected, result);
}

#[test]
fn mode_mix() {
    let values = vec![Basic { name: "A".to_string(), size: zero() }];
    let config = Config::new_unix_semi_column();
    let csv = Csv::new_fr().with_config(config);
    let result = csv.serialize::<Basic>(&values);
    let expected = r#""Name";"Taille"
"A";0,000"#;
    assert_eq!(expected, result);
}

#[test]
fn no_header() {
    let values = vec![Basic { name: "A".to_string(), size: zero() }];
    let config = Config::new_unix_semi_column().with_header(false);
    let csv = Csv::new_fr().with_config(config);
    let result = csv.serialize::<Basic>(&values);
    let expected = r#""A";0,000"#;
    assert_eq!(expected, result);
}

#[test]
fn scenario_two_records_french() {
    struct Row {
        name: String,
        size: Fixed,
        dob: Date,
        deleted_on: Option<Date>,
    }
    impl CellsBuilder for Row {
        fn get_cells(&self) -> Vec<Cell> {
            vec![
                Cell::new_title("Name", CellType::Text(Some(self.name.clone()))),
                Cell::new_title("Taille", CellType::Float32(Some(self.size))),
                Cell::new_title("DOB", CellType::Date(Some(self.dob))),
                Cell::new_title("DeletedOn", CellType::Date(self.deleted_on)),
            ]
        }
    }
    let values = vec![
        Row {
            name: "A".to_string(),
            size: Fixed::new(false, 1, 790),
            dob: Date::new(2020, 1, 28),
            deleted_on: Some(Date::new(2024, 11, 7)),
        },
        Row {
            name: "B".to_string(),
            size: Fixed::new(false, 1, 750),
            dob: Date::new(1950, 10, 11),
            deleted_on: None,
        },
    ];
    let fr = Csv::new_fr().serialize::<Row>(&values);
    let expected_fr = "\"Name\";\"Taille\";\"DOB\";\"DeletedOn\"\n\"A\";1,790;28/01/2020;07/11/2024\n\"B\";1,750;11/10/1950;";
    assert_eq!(expected_fr, fr);

    let iso = Csv::new_iso().serialize::<Row>(&values);
    let first_data_row = iso.lines().nth(1).unwrap();
    assert_eq!("\"A\",1.790,2020-01-28,2024-11-07", first_data_row);
}

#[test]
fn header_depends_only_on_titles() {
    let a = vec![Basic { name: "xyz".to_string(), size: Fixed { neg: true, milli: 123456 } }];
    let b = vec![Basic { name: "A".to_string(), size: zero() }];
    let csv = Csv::new_fr();
    let out_a = csv.serialize::<Basic>(&a);
    let out_b = csv.serialize::<Basic>(&b);
    assert_eq!(out_a.lines().next(), out_b.lines().next());
}

#[test]
fn mode_none_output_has_no_quotes() {
    let values = people();
    let config = Config::new_unix_semi_column().with_mode(QuoteMode::NoQuotes);
    let csv = Csv::new_fr().with_config(config);
    let result = csv.serialize::<Person>(&values);
    assert!(!result.contains('"'));
}

#[test]
fn untitled_cells_leave_header_short() {
    struct Mixed {
        name: String,
        size: Fixed,
    }
    impl CellsBuilder for Mixed {
        fn get_cells(&self) -> Vec<Cell> {
            vec![
                Cell::new_title("Name", CellType::Text(Some(self.name.clone()))),
                Cell::new(CellType::Float32(Some(self.size))),
            ]
        }
    }
    let values = vec![Mixed { name: "A".to_string(), size: zero() }];
    let result = Csv::new_fr().serialize::<Mixed>(&values);
    assert_eq!("\"Name\"\n\"A\";0,000", result);
}

#[test]
fn all_untitled_cells_suppress_header() {
    struct Bare {
        size: Fixed,
    }
    impl CellsBuilder for Bare {
        fn get_cells(&self) -> Vec<Cell> {
            vec![Cell::new(CellType::Float32(Some(self.size)))]
        }
    }
    let values = vec![Bare { size: zero() }];
    let result = Csv::new_fr().serialize::<Bare>(&values);
    assert_eq!("0,000", result);
}

#[test]
fn zero_records_give_empty_output() {
    let values: Vec<Basic> = vec![];
    let result = Csv::new_fr().serialize::<Basic>(&values);
    assert_eq!("", result);
}

#[test]
fn windows_line_endings() {
    let values = vec![
        Basic { name: "A".to_string(), size: zero() },
        Basic { name: "B".to_string(), size: zero() },
    ];
    let config = Config::new_unix_semi_column().with_eol(Eol::Windows);
    let result = Csv::new_fr().with_config(config).serialize::<Basic>(&values);
    assert_eq!("\"Name\";\"Taille\"\r\n\"A\";0,000\r\n\"B\";0,000", result);
}

#[test]
fn new_from_lang_picks_preset() {
    let values = vec![Basic { name: "A".to_string(), size: zero() }];
    let fr = Csv::new_from_lang("FR").serialize::<Basic>(&values);
    assert_eq!("\"Name\";\"Taille\"\n\"A\";0,000", fr);
    let en = Csv::new_from_lang("en").serialize::<Basic>(&values);
    assert_eq!("\"Name\",\"Taille\"\n\"A\",0.000", en);
}

#[test]
fn absent_values_render_empty_per_kind() {
    struct Gaps;
    impl CellsBuilder for Gaps {
        fn get_cells(&self) -> Vec<Cell> {
            vec![
                Cell::new(CellType::Text(None)),
                Cell::new(CellType::Date(None)),
                Cell::new(CellType::DateTime(None)),
                Cell::new(CellType::Float32(None)),
                Cell::new(CellType::Float64(None)),
                Cell::new(CellType::Int(None)),
            ]
        }
    }
    let values = vec![Gaps];
    let mixed = Csv::new_fr().serialize::<Gaps>(&values);
    assert_eq!("\"\";;;;;", mixed);
    let config = Config::new_unix_semi_column().with_mode(QuoteMode::NoQuotes);
    let bare = Csv::new_fr().with_config(config).serialize::<Gaps>(&values);
    assert_eq!(";;;;;", bare);
}

#[test]
fn ragged_rows_pass_through() {
    struct Ragged {
        cells: usize,
    }
    impl CellsBuilder for Ragged {
        fn get_cells(&self) -> Vec<Cell> {
            let mut v = Vec::new();
            for _ in 0..self.cells {
                v.push(Cell::new_title("X", CellType::Int(Some(1))));
            }
            v
        }
    }
    let values = vec![Ragged { cells: 2 }, Ragged { cells: 3 }];
    let result = Csv::new_fr().serialize::<Ragged>(&values);
    assert_eq!("\"X\";\"X\"\n1;1\n1;1;1", result);
}

#[test]
fn empty_cell_list_gives_empty_row() {
    struct Hollow;
    impl CellsBuilder for Hollow {
        fn get_cells(&self) -> Vec<Cell> {
            Vec::new()
        }
    }
    let result = Csv::new_fr().serialize::<Hollow>(&vec![Hollow, Hollow]);
    assert_eq!("\n", result);
}

#[test]
fn negative_numbers_render_with_sign() {
    struct Nums;
    impl CellsBuilder for Nums {
        fn get_cells(&self) -> Vec<Cell> {
            vec![
                Cell::new(CellType::Int(Some(-5))),
                Cell::new(CellType::Float64(Some(Fixed { neg: true, milli: 1234 }))),
                Cell::new(CellType::Float64(Some(Fixed { neg: true, milli: 0 }))),
            ]
        }
    }
    let config = Config::new_unix_comma().with_header(false);
    let result = Csv::new_iso().with_config(config).serialize::<Nums>(&vec![Nums]);
    assert_eq!("-5,-1.234,-0.000", result);
}
