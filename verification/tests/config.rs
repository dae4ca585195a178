use service::config::{split_commas, var, var_or, var_or_else, CommaVec, ConfigError, ErrorKind};

#[test]
fn var_missing_when_unset() {
    let r: Result<u16, ConfigError> = var::<u16, ()>("PORT", None);
    let e = r.unwrap_err();
    assert_eq!(e.key, "PORT");
    assert_eq!(e.kind, ErrorKind::Missing);
    assert_eq!(e.message(), "PORT missing");
}

#[test]
fn var_invalid_when_unparsable() {
    let r = var::<u16, &str>("PORT", Some(Err("not a number")));
    let e = r.unwrap_err();
    assert_eq!(e.key, "PORT");
    assert_eq!(e.kind, ErrorKind::Invalid);
    assert_eq!(e.message(), "PORT is invalid");
}

#[test]
fn var_gives_parsed_value() {
    let r = var::<u16, ()>("PORT", Some(Ok(8000)));
    assert_eq!(r.unwrap(), 8000);
}

#[test]
fn var_or_takes_default_when_unset() {
    let r = var_or::<String, ()>("LOG", None, "info".to_string());
    assert_eq!(r.unwrap(), "info");
}

#[test]
fn var_or_prefers_set_value() {
    let r = var_or::<String, ()>("LOG", Some(Ok("debug".to_string())), "info".to_string());
    assert_eq!(r.unwrap(), "debug");
}

#[test]
fn var_or_rejects_unparsable_value() {
    let r = var_or::<u16, ()>("PORT", Some(Err(())), 8000);
    let e = r.unwrap_err();
    assert_eq!(e.key, "PORT");
    assert_eq!(e.kind, ErrorKind::Invalid);
}

#[test]
fn var_or_else_calls_closure_only_when_unset() {
    let r = var_or_else::<u64, (), _>("SESSION_LIFETIME", None, || 30);
    assert_eq!(r.unwrap(), 30);
    let r = var_or_else::<u64, (), _>("SESSION_LIFETIME", Some(Ok(60)), || 30);
    assert_eq!(r.unwrap(), 60);
}

#[test]
fn config_error_new_keeps_key_and_kind() {
    let e = ConfigError::new("DATABASE_URL", ErrorKind::Missing);
    assert_eq!(e.key, "DATABASE_URL");
    assert_eq!(e.kind, ErrorKind::Missing);
    assert_eq!(e.message(), "DATABASE_URL missing");
}

#[test]
fn split_commas_splits_at_every_comma() {
    assert_eq!(split_commas("a,b,c"), vec!["a", "b", "c"]);
    assert_eq!(split_commas("http://localhost:3000"), vec!["http://localhost:3000"]);
    assert_eq!(split_commas(""), vec![""]);
    assert_eq!(split_commas("a,"), vec!["a", ""]);
    assert_eq!(split_commas(",,"), vec!["", "", ""]);
    assert_eq!(split_commas("é,ü"), vec!["é", "ü"]);
}

#[test]
fn split_commas_joins_back() {
    let s = "https://a.example, https://b.example,,x";
    assert_eq!(split_commas(s).join(","), s);
}

#[test]
fn comma_vec_collects_parsed_pieces() {
    let parsed: Vec<Result<u16, String>> = split_commas("1,2,3").iter().map(|p| p.parse::<u16>().map_err(|e| e.to_string())).collect();
    let list = CommaVec::from_parsed(parsed).unwrap();
    assert_eq!(list.len(), 3);
    assert_eq!(list[1], 2);
    assert_eq!(list.into_inner(), vec![1, 2, 3]);
}

#[test]
fn comma_vec_reports_first_bad_piece() {
    let parsed: Vec<Result<u16, String>> = vec![Ok(1), Err("second".to_string()), Err("third".to_string())];
    let r = CommaVec::from_parsed(parsed);
    assert_eq!(r.err(), Some("second".to_string()));
}

#[test]
fn comma_vec_is_mutable_through_deref() {
    let mut list = CommaVec::from_parsed::<()>(vec![Ok(1u8)]).unwrap();
    list.push(2);
    assert_eq!(list.into_inner(), vec![1, 2]);
}
