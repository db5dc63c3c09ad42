use lizhisim::hand_tools::fulu_mianzi::{ClaimedTilePosition, FuluMianzi, FuluMianziError};

#[test]
fn validate_ok_shunzi_1m_23m() {
    assert!(matches!(
        FuluMianzi::Shunzi(0, ClaimedTilePosition::Low).validate(),
        Ok(())
    ));
}

#[test]
fn validate_ok_shunzi_7m_89m() {
    assert!(matches!(
        FuluMianzi::Shunzi(6, ClaimedTilePosition::Low).validate(),
        Ok(())
    ));
}

#[test]
fn validate_ok_shunzi_2m_13m() {
    assert!(matches!(
        FuluMianzi::Shunzi(1, ClaimedTilePosition::Middle).validate(),
        Ok(())
    ));
}

#[test]
fn validate_ok_shunzi_8m_79m() {
    assert!(matches!(
        FuluMianzi::Shunzi(7, ClaimedTilePosition::Middle).validate(),
        Ok(())
    ));
}

#[test]
fn validate_ok_shunzi_3m_12m() {
    assert!(matches!(
        FuluMianzi::Shunzi(2, ClaimedTilePosition::High).validate(),
        Ok(())
    ));
}

#[test]
fn validate_ok_shunzi_9m_78m() {
    assert!(matches!(
        FuluMianzi::Shunzi(8, ClaimedTilePosition::High).validate(),
        Ok(())
    ));
}

#[test]
fn validate_ok_shunzi_1p_23p() {
    assert!(matches!(
        FuluMianzi::Shunzi(9, ClaimedTilePosition::Low).validate(),
        Ok(())
    ));
}

#[test]
fn validate_ok_shunzi_9s_78s() {
    assert!(matches!(
        FuluMianzi::Shunzi(26, ClaimedTilePosition::High).validate(),
        Ok(())
    ));
}

#[test]
fn validate_ok_kezi_7z() {
    assert!(matches!(FuluMianzi::Kezi(33).validate(), Ok(())));
}

#[test]
fn validate_ok_angangzi_7z() {
    assert!(matches!(FuluMianzi::Angangzi(33).validate(), Ok(())));
}

#[test]
fn validate_ok_minggangzi_7z() {
    assert!(matches!(FuluMianzi::Minggangzi(33).validate(), Ok(())));
}

#[test]
fn validate_err_shunzi_8z() {
    assert!(matches!(
        FuluMianzi::Shunzi(34, ClaimedTilePosition::Low).validate(),
        Err(FuluMianziError::IndexOutOfRange(34))
    ));
}

#[test]
fn validate_err_shunzi_1z() {
    assert!(matches!(
        FuluMianzi::Shunzi(27, ClaimedTilePosition::Low).validate(),
        Err(FuluMianziError::ShunziWithZipai(27))
    ));
}

#[test]
fn validate_err_shunzi_8m_910m() {
    assert!(matches!(
        FuluMianzi::Shunzi(7, ClaimedTilePosition::Low).validate(),
        Err(FuluMianziError::InvalidShunziCombination(
            7,
            ClaimedTilePosition::Low
        ))
    ));
}

#[test]
fn validate_err_shunzi_9m_1011m() {
    assert!(matches!(
        FuluMianzi::Shunzi(8, ClaimedTilePosition::Low).validate(),
        Err(FuluMianziError::InvalidShunziCombination(
            8,
            ClaimedTilePosition::Low
        ))
    ));
}

#[test]
fn validate_err_shunzi_1m_02m() {
    assert!(matches!(
        FuluMianzi::Shunzi(0, ClaimedTilePosition::Middle).validate(),
        Err(FuluMianziError::InvalidShunziCombination(
            0,
            ClaimedTilePosition::Middle
        ))
    ));
}

#[test]
fn validate_err_shunzi_9m_810m() {
    assert!(matches!(
        FuluMianzi::Shunzi(8, ClaimedTilePosition::Middle).validate(),
        Err(FuluMianziError::InvalidShunziCombination(
            8,
            ClaimedTilePosition::Middle
        ))
    ));
}

#[test]
fn validate_err_shunzi_1m_minus10m() {
    assert!(matches!(
        FuluMianzi::Shunzi(0, ClaimedTilePosition::High).validate(),
        Err(FuluMianziError::InvalidShunziCombination(
            0,
            ClaimedTilePosition::High
        ))
    ));
}

#[test]
fn validate_err_shunzi_2m_01m() {
    assert!(matches!(
        FuluMianzi::Shunzi(1, ClaimedTilePosition::High).validate(),
        Err(FuluMianziError::InvalidShunziCombination(
            1,
            ClaimedTilePosition::High
        ))
    ));
}

#[test]
fn validate_err_shunzi_1p_02p() {
    assert!(matches!(
        FuluMianzi::Shunzi(9, ClaimedTilePosition::Middle).validate(),
        Err(FuluMianziError::InvalidShunziCombination(
            9,
            ClaimedTilePosition::Middle
        ))
    ));
}

#[test]
fn validate_err_shunzi_9s_1011s() {
    assert!(matches!(
        FuluMianzi::Shunzi(26, ClaimedTilePosition::Low).validate(),
        Err(FuluMianziError::InvalidShunziCombination(
            26,
            ClaimedTilePosition::Low
        ))
    ));
}

#[test]
fn validate_err_kezi_8z() {
    assert!(matches!(
        FuluMianzi::Kezi(34).validate(),
        Err(FuluMianziError::IndexOutOfRange(34))
    ));
}

#[test]
fn validate_err_angangzi_8z() {
    assert!(matches!(
        FuluMianzi::Angangzi(34).validate(),
        Err(FuluMianziError::IndexOutOfRange(34))
    ));
}

#[test]
fn validate_err_minggangzi_8z() {
    assert!(matches!(
        FuluMianzi::Minggangzi(34).validate(),
        Err(FuluMianziError::IndexOutOfRange(34))
    ));
}
