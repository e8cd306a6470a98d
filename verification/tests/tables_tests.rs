use codewalker_cli::tables::{collect_tables, get_lua_tables};

fn lookup(name: &str, found: Result<bool, &str>) -> (String, Result<bool, String>) {
    (name.to_string(), found.map_err(|reason| reason.to_string()))
}

#[test]
fn tables_are_the_names_found_to_be_tables_in_the_order_asked() {
    let lookups = vec![
        lookup("Config", Ok(true)),
        lookup("version", Ok(false)),
        lookup("Locales", Ok(true)),
        lookup("missing", Ok(false)),
    ];
    assert_eq!(collect_tables(&lookups), Ok(vec!["Config".to_string(), "Locales".to_string()]));
}

#[test]
fn no_names_no_tables() {
    assert_eq!(collect_tables(&[]), Ok(Vec::new()));
}

#[test]
fn a_name_asked_twice_is_listed_twice() {
    let lookups = vec![lookup("Config", Ok(true)), lookup("Config", Ok(true))];
    assert_eq!(collect_tables(&lookups), Ok(vec!["Config".to_string(), "Config".to_string()]));
}

#[test]
fn the_first_failed_lookup_is_the_answer() {
    let lookups = vec![
        lookup("Config", Ok(true)),
        lookup("a", Err("metamethod failed")),
        lookup("b", Err("later failure")),
        lookup("Locales", Ok(true)),
    ];
    assert_eq!(collect_tables(&lookups), Err("metamethod failed".to_string()));
}

#[test]
fn an_empty_path_has_no_tables() {
    let script = Ok(vec![lookup("Config", Ok(true))]);
    assert!(get_lua_tables("", &script).is_empty());
}

#[test]
fn a_script_that_failed_has_no_tables() {
    let script = Err("syntax error near 'end'".to_string());
    assert!(get_lua_tables("fxmanifest.lua", &script).is_empty());
}

#[test]
fn a_failed_lookup_leaves_no_tables() {
    let script = Ok(vec![lookup("Config", Ok(true)), lookup("x", Err("boom"))]);
    assert!(get_lua_tables("config.lua", &script).is_empty());
}

#[test]
fn tables_of_a_script() {
    let script = Ok(vec![lookup("a", Ok(false)), lookup("Config", Ok(true))]);
    assert_eq!(get_lua_tables("config.lua", &script), vec!["Config".to_string()]);
}
