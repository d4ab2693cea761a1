use remap_core::symbols::SymbolTable;
use remap_core::vars::interpolate;

fn test_vars() -> SymbolTable<String> {
    let mut vars = SymbolTable::new();
    vars.insert("FOO".to_string(), "dogs".to_string());
    vars.insert("FOOBAR".to_string(), "cats".to_string());
    vars
}

#[test]
fn interpolation() {
    let vars = test_vars();

    let mut warn = Vec::new();
    assert_eq!("dogs", interpolate("$FOO", &vars, &mut warn));
    assert_eq!("dogs", interpolate("${FOO}", &vars, &mut warn));
    assert_eq!("cats", interpolate("${FOOBAR}", &vars, &mut warn));
    assert_eq!("xcatsy", interpolate("x${FOOBAR}y", &vars, &mut warn));
    assert_eq!("x", interpolate("x$FOOBARy", &vars, &mut warn));
    assert_eq!("$ x", interpolate("$ x", &vars, &mut warn));
    assert_eq!("$FOO", interpolate("$$FOO", &vars, &mut warn));
    assert_eq!("", interpolate("$NOT_FOO", &vars, &mut warn));
    assert_eq!("-FOO", interpolate("$NOT-FOO", &vars, &mut warn));
    assert_eq!("${FOO x", interpolate("${FOO x", &vars, &mut warn));
    assert_eq!("${}", interpolate("${}", &vars, &mut warn));
    assert_eq!("dogs", interpolate("${FOO:-cats}", &vars, &mut warn));
    assert_eq!("dogcats", interpolate("${NOT:-dogcats}", &vars, &mut warn));
    assert_eq!(
        "dogs and cats",
        interpolate("${NOT:-dogs and cats}", &vars, &mut warn)
    );
    assert_eq!("${:-cats}", interpolate("${:-cats}", &vars, &mut warn));
    assert_eq!("", interpolate("${NOT:-}", &vars, &mut warn));
}

#[test]
fn interpolation_records_warnings() {
    let vars = test_vars();

    let mut warn = Vec::new();
    assert_eq!("dogs", interpolate("$FOO", &vars, &mut warn));
    assert!(warn.is_empty());

    assert_eq!("", interpolate("$MISSING", &vars, &mut warn));
    assert_eq!(warn, vec!["Unknown env var in config. name = \"MISSING\"".to_string()]);

    assert_eq!("fallback", interpolate("${ALSO_MISSING:-fallback}", &vars, &mut warn));
    assert_eq!(warn.len(), 1);

    assert_eq!("", interpolate("${GONE:-}", &vars, &mut warn));
    assert_eq!(warn.len(), 2);
    assert_eq!(warn[1], "Unknown env var in config. name = \"GONE\"");
}

#[test]
fn interpolation_keeps_plain_text() {
    let vars = test_vars();
    let mut warn = Vec::new();
    assert_eq!("", interpolate("", &vars, &mut warn));
    assert_eq!("no references here", interpolate("no references here", &vars, &mut warn));
    assert_eq!("$", interpolate("$", &vars, &mut warn));
    assert_eq!("dogsdogs", interpolate("$FOO$FOO", &vars, &mut warn));
    assert!(warn.is_empty());
}
