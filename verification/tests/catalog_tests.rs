use lzeditor::CatalogError;
use lzeditor::Command;
use lzeditor::Outcome;
use lzeditor::StoreError;
use lzeditor::UsageError;
use lzeditor::ValidationError;
use lzeditor::apply_command;
use lzeditor::build_entry;
use lzeditor::encode;
use lzeditor::entry_record;
use lzeditor::init_catalog;
use lzeditor::menu_parent;
use lzeditor::parse_command;
use lzeditor::split_slash;

fn fresh() -> rusqlite::Connection {
    let mut conn = rusqlite::Connection::open_in_memory().unwrap();
    init_catalog(&mut conn).unwrap();
    conn
}

fn count(conn: &rusqlite::Connection, table: &str) -> i64 {
    let sql = format!("SELECT COUNT(*) FROM {}", table);
    conn.query_row(&sql, (), |row| row.get(0)).unwrap()
}

fn strings(args: &[&str]) -> Vec<String> {
    args.iter().map(|s| s.to_string()).collect()
}

#[test]
fn splits_on_every_slash() {
    let parts = split_slash("https://youtu.be/xxxxxxxx");
    assert_eq!(parts, vec!["https:", "", "youtu.be", "xxxxxxxx"]);
    assert_eq!(split_slash(""), vec![""]);
    assert_eq!(split_slash("a//b/"), vec!["a", "", "b", ""]);
}

#[test]
fn builds_an_entry_from_raw_inputs() {
    let e = build_entry("https://youtu.be/xxxxxxxx", "URL Name", "Videos").unwrap();
    assert_eq!(e.entry_url, "https%3A%2F%2Fyoutu.be%2Fxxxxxxxx");
    assert_eq!(e.entry_name, "URL%20Name");
    assert_eq!(e.entry_shorturl, "youtu.be");
    assert_eq!(e.menu_name, "Videos");
}

#[test]
fn refuses_to_build_from_a_malformed_url() {
    let r = build_entry("not-a-url", "x", "Videos");
    assert!(matches!(r, Err(ValidationError::MalformedUrl)));
}

#[test]
fn parses_each_command_shape() {
    match parse_command(&strings(&["lzeditor", "-m", "Videos"])).unwrap() {
        Command::AddMenu { name, parent } => {
            assert_eq!(name, "Videos");
            assert_eq!(parent, None);
        },
        other => panic!("wrong command: {:?}", other),
    }
    match parse_command(&strings(&["lzeditor", "-m", "Comedy", "Videos"])).unwrap() {
        Command::AddMenu { name, parent } => {
            assert_eq!(name, "Comedy");
            assert_eq!(parent.as_deref(), Some("Videos"));
        },
        other => panic!("wrong command: {:?}", other),
    }
    match parse_command(&strings(&["lzeditor", "-e", "https://a.b/c", "Name", "Videos"])).unwrap() {
        Command::AddEntry { url, name, menu } => {
            assert_eq!(url, "https://a.b/c");
            assert_eq!(name, "Name");
            assert_eq!(menu, "Videos");
        },
        other => panic!("wrong command: {:?}", other),
    }
    match parse_command(&strings(&["lzeditor", "-x", "out.html"])).unwrap() {
        Command::Export { target } => assert_eq!(target, "out.html"),
        other => panic!("wrong command: {:?}", other),
    }
}

#[test]
fn rejects_bad_command_lines() {
    assert_eq!(
        parse_command(&strings(&["lzeditor"])),
        Err(UsageError::TooFewArguments)
    );
    assert_eq!(
        parse_command(&strings(&["lzeditor", "-m"])),
        Err(UsageError::TooFewArguments)
    );
    assert_eq!(
        parse_command(&strings(&["lzeditor", "-m", "a", "b", "c"])),
        Err(UsageError::WrongArgumentCount)
    );
    assert_eq!(
        parse_command(&strings(&["lzeditor", "-e", "url", "name"])),
        Err(UsageError::WrongArgumentCount)
    );
    assert_eq!(
        parse_command(&strings(&["lzeditor", "-x", "a", "b"])),
        Err(UsageError::WrongArgumentCount)
    );
    assert_eq!(
        parse_command(&strings(&["lzeditor", "-z", "a"])),
        Err(UsageError::UnknownOption)
    );
}

#[test]
fn creates_a_root_menu_and_a_child_menu() {
    let mut conn = fresh();
    let videos = Command::AddMenu { name: "Videos".to_string(), parent: None };
    assert_eq!(apply_command(&mut conn, &videos), Ok(Outcome::Done));
    assert_eq!(menu_parent(&conn, &"Videos".to_string()), Ok(Some(None)));

    let comedy = Command::AddMenu {
        name: "Comedy".to_string(),
        parent: Some("Videos".to_string()),
    };
    assert_eq!(apply_command(&mut conn, &comedy), Ok(Outcome::Done));
    assert_eq!(
        menu_parent(&conn, &"Comedy".to_string()),
        Ok(Some(Some("Videos".to_string())))
    );
}

#[test]
fn refuses_a_duplicate_menu_and_keeps_one_row() {
    let mut conn = fresh();
    let videos = Command::AddMenu { name: "Videos".to_string(), parent: None };
    assert_eq!(apply_command(&mut conn, &videos), Ok(Outcome::Done));
    assert_eq!(
        apply_command(&mut conn, &videos),
        Err(CatalogError::Store(StoreError::DuplicateKey))
    );
    let n: i64 = conn
        .query_row("SELECT COUNT(*) FROM menu WHERE menu_name = 'Videos'", (), |row| row.get(0))
        .unwrap();
    assert_eq!(n, 1);
}

#[test]
fn refuses_a_menu_under_an_unknown_parent() {
    let mut conn = fresh();
    let cmd = Command::AddMenu {
        name: "Comedy".to_string(),
        parent: Some("Videos".to_string()),
    };
    assert_eq!(
        apply_command(&mut conn, &cmd),
        Err(CatalogError::Validation(ValidationError::UnknownMenu))
    );
    assert_eq!(count(&conn, "menu"), 0);
}

#[test]
fn refuses_a_menu_that_would_parent_itself() {
    let mut conn = fresh();
    let cmd = Command::AddMenu {
        name: "Videos".to_string(),
        parent: Some("Videos".to_string()),
    };
    assert_eq!(
        apply_command(&mut conn, &cmd),
        Err(CatalogError::Validation(ValidationError::CyclicParent))
    );
    assert_eq!(count(&conn, "menu"), 0);
}

#[test]
fn stores_an_entry_with_its_derived_host_label() {
    let mut conn = fresh();
    let videos = Command::AddMenu { name: "Videos".to_string(), parent: None };
    assert_eq!(apply_command(&mut conn, &videos), Ok(Outcome::Done));
    let add = Command::AddEntry {
        url: "https://youtu.be/xxxxxxxx".to_string(),
        name: "URL Name".to_string(),
        menu: "Videos".to_string(),
    };
    assert_eq!(apply_command(&mut conn, &add), Ok(Outcome::Done));

    let key = encode("https://youtu.be/xxxxxxxx");
    let row = entry_record(&conn, &key).unwrap().unwrap();
    assert_eq!(row.entry_shorturl, "youtu.be");
    assert_eq!(row.entry_name, "URL%20Name");
    assert_eq!(row.menu_name, "Videos");
    assert_eq!(row.entry_url, key);
}

#[test]
fn refuses_a_duplicate_entry() {
    let mut conn = fresh();
    let videos = Command::AddMenu { name: "Videos".to_string(), parent: None };
    assert_eq!(apply_command(&mut conn, &videos), Ok(Outcome::Done));
    let add = Command::AddEntry {
        url: "https://youtu.be/xxxxxxxx".to_string(),
        name: "URL Name".to_string(),
        menu: "Videos".to_string(),
    };
    assert_eq!(apply_command(&mut conn, &add), Ok(Outcome::Done));
    assert_eq!(
        apply_command(&mut conn, &add),
        Err(CatalogError::Store(StoreError::DuplicateKey))
    );
    assert_eq!(count(&conn, "entries"), 1);
}

#[test]
fn refuses_a_malformed_entry_url_and_stores_nothing() {
    let mut conn = fresh();
    let videos = Command::AddMenu { name: "Videos".to_string(), parent: None };
    assert_eq!(apply_command(&mut conn, &videos), Ok(Outcome::Done));
    let add = Command::AddEntry {
        url: "not-a-url".to_string(),
        name: "x".to_string(),
        menu: "Videos".to_string(),
    };
    assert_eq!(
        apply_command(&mut conn, &add),
        Err(CatalogError::Validation(ValidationError::MalformedUrl))
    );
    assert_eq!(count(&conn, "entries"), 0);
}

#[test]
fn refuses_an_entry_under_an_unknown_menu() {
    let mut conn = fresh();
    let add = Command::AddEntry {
        url: "https://youtu.be/xxxxxxxx".to_string(),
        name: "URL Name".to_string(),
        menu: "Videos".to_string(),
    };
    assert_eq!(
        apply_command(&mut conn, &add),
        Err(CatalogError::Validation(ValidationError::UnknownMenu))
    );
    assert_eq!(count(&conn, "entries"), 0);
}

#[test]
fn reports_export_as_unimplemented_and_mutates_nothing() {
    let mut conn = fresh();
    let cmd = Command::Export { target: "site.html".to_string() };
    assert_eq!(apply_command(&mut conn, &cmd), Ok(Outcome::ExportNotImplemented));
    assert_eq!(count(&conn, "menu"), 0);
    assert_eq!(count(&conn, "entries"), 0);
}

#[test]
fn reports_the_store_unavailable_without_its_tables() {
    let mut conn = rusqlite::Connection::open_in_memory().unwrap();
    let videos = Command::AddMenu { name: "Videos".to_string(), parent: None };
    assert_eq!(
        apply_command(&mut conn, &videos),
        Err(CatalogError::Store(StoreError::Unavailable))
    );
}

#[test]
fn a_missing_entry_is_reported_as_absent() {
    let conn = fresh();
    assert_eq!(entry_record(&conn, &"nothing".to_string()).unwrap().is_none(), true);
    assert_eq!(menu_parent(&conn, &"nothing".to_string()).unwrap().is_none(), true);
}
