use lizhisim::point::{
    validate_changbang_point, validate_lizhibang_point, validate_ma, validate_point,
    MAX_CHANGBANG_POINT, MAX_LIZHIBANG_POINT, MAX_MA, MAX_POINT, MIN_MA, MIN_POINT, UNIT_POINT,
};

#[test]
fn test_validate_point() {
    validate_point(&MAX_POINT).unwrap();
    validate_point(&MIN_POINT).unwrap();
    validate_point(&UNIT_POINT).unwrap();

    validate_point(&(MAX_POINT + 1)).unwrap_err();
    validate_point(&(MIN_POINT - 1)).unwrap_err();
    validate_point(&(UNIT_POINT + 1)).unwrap_err();
    validate_point(&(UNIT_POINT - 1)).unwrap_err();
}

#[test]
fn test_validate_lizhibang_point() {
    validate_lizhibang_point(&MAX_LIZHIBANG_POINT).unwrap();
    validate_lizhibang_point(&MIN_POINT).unwrap();
    validate_lizhibang_point(&UNIT_POINT).unwrap();

    validate_lizhibang_point(&(MAX_LIZHIBANG_POINT + 1)).unwrap_err();
    validate_lizhibang_point(&(MIN_POINT - 1)).unwrap_err();
    validate_lizhibang_point(&(UNIT_POINT + 1)).unwrap_err();
    validate_lizhibang_point(&(UNIT_POINT - 1)).unwrap_err();
}

#[test]
fn test_validate_changbang_point() {
    validate_changbang_point(&MAX_CHANGBANG_POINT).unwrap();
    validate_changbang_point(&MIN_POINT).unwrap();
    validate_changbang_point(&UNIT_POINT).unwrap();

    validate_changbang_point(&(MAX_CHANGBANG_POINT + 1)).unwrap_err();
    validate_changbang_point(&(MIN_POINT - 1)).unwrap_err();
    validate_changbang_point(&(UNIT_POINT + 1)).unwrap_err();
    validate_changbang_point(&(UNIT_POINT - 1)).unwrap_err();
}

#[test]
fn test_validate_ma() {
    validate_ma(&MAX_MA).unwrap();
    validate_ma(&MIN_MA).unwrap();

    validate_ma(&(MAX_MA + 1)).unwrap_err();
    validate_ma(&(MIN_MA - 1)).unwrap_err();
}
