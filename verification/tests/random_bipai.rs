use lizhisim::bipai::random::{BipaiError, RandomBipai};
use lizhisim::rule::{
    AngangAfterLizhi, BaoYiman, Changshu, ExtensionMode, FanLimit, HongbaopaiCount, Leijiyiman,
    LizhibangAtLiuju, MultipleRongWithZhuangjia, MultipulYimanBao, NonzimoLizhi, NumPlayer,
    Renhe, Rule, Shiti, ShunweiMa, ShunweiShenMa, TingpaiNotingLianzhuang, Tuzhongliuju,
    ZimoScoring3P,
};
use lizhisim::tile::Tile;
use mt19937::MT19937;

fn rule(num_player: NumPlayer, dora: bool, gang_dora: bool, babei: bool) -> Rule {
    let ma = ShunweiMa { ma_2: 5, ma_3: -5, ma_4: -15 };
    Rule::new(
        num_player,
        Changshu::Banzhuangzhan,
        25_000,
        30_000,
        30_000,
        None,
        1_000,
        100,
        1_000,
        1_500,
        1_000,
        ShunweiShenMa { shen_0: ma, shen_1: ma, shen_2: ma, shen_3: ma, shen_4: ma },
        false,
        false,
        false,
        LizhibangAtLiuju::TopTakesAll,
        true,
        HongbaopaiCount { wanzi: 1, bingzi: 1, suozi: 1 },
        true,
        FanLimit::Fan1,
        false,
        false,
        ZimoScoring3P::ZimoLoss,
        dora,
        dora,
        gang_dora,
        false,
        gang_dora,
        babei,
        true,
        TingpaiNotingLianzhuang::Tingpailianzhuang,
        true,
        true,
        MultipleRongWithZhuangjia::Lianzhuang,
        Tuzhongliuju::Lianzhuang,
        Tuzhongliuju::Lianzhuang,
        Tuzhongliuju::Lianzhuang,
        Tuzhongliuju::Lianzhuang,
        Tuzhongliuju::Off,
        true,
        true,
        true,
        true,
        Renhe::Off,
        BaoYiman::DasanyuanDasixi,
        MultipulYimanBao::Both,
        false,
        true,
        true,
        ExtensionMode::SuddenDeathWithLianzhuangPriority,
        Shiti::Forbidden,
        NonzimoLizhi::Forbidden,
        true,
        false,
        false,
        AngangAfterLizhi::AllowedIfNotChangingWaits,
        false,
        false,
        false,
        true,
    )
    .unwrap()
}

fn wall(num_player: NumPlayer, dora: bool, gang_dora: bool, babei: bool) -> RandomBipai {
    RandomBipai::new(
        rule(num_player, dora, gang_dora, babei),
        MT19937::new_with_slice_seed(&[42]),
    )
}

#[test]
fn wall_for_four_players() {
    let mut bipai = wall(NumPlayer::Four, true, true, false);
    assert_eq!(bipai.left_tile_count(), Ok(122));
    assert_eq!(bipai.baopai_indicators().unwrap().len(), 1);
    assert_eq!(bipai.li_baopai_indicators(), Err(BipaiError::NotClosed));
    let mut counts = [0u8; 34];
    let mut red = 0;
    for _ in 0..122 {
        let tile = bipai.zimo().unwrap();
        if tile.is_hongbaopai() {
            red += 1;
        }
        counts[tile.normalize_hongbaopai().to_usize()] += 1;
    }
    assert!(counts.iter().all(|&c| c <= 4));
    assert!(red <= 3);
    assert_eq!(bipai.left_tile_count(), Ok(0));
    assert_eq!(bipai.zimo(), Err(BipaiError::NoTilesLeft));
    assert_eq!(bipai.lingshangzimo(), Err(BipaiError::NoTilesLeft));
}

#[test]
fn wall_for_three_players() {
    let mut bipai = wall(NumPlayer::Three, true, true, true);
    assert_eq!(bipai.left_tile_count(), Ok(94));
    for _ in 0..94 {
        let tile = bipai.zimo().unwrap();
        let id = tile.normalize_hongbaopai().as_u8();
        assert!(id == 0 || id >= 8);
        assert!(tile.as_u8() != 34);
    }
    assert_eq!(bipai.zimo(), Err(BipaiError::NoTilesLeft));
}

#[test]
fn wall_without_dora() {
    let mut bipai = wall(NumPlayer::Four, false, false, false);
    assert!(bipai.baopai_indicators().is_none());
    bipai.close();
    assert_eq!(bipai.li_baopai_indicators(), Ok(None));
}

#[test]
fn quads_reveal_dora() {
    let mut bipai = wall(NumPlayer::Four, true, true, false);
    assert_eq!(bipai.kaigang(), Err(BipaiError::NoKaigangPending));
    for n in 1..=4 {
        bipai.lingshangzimo().unwrap();
        assert_eq!(bipai.zimo(), Err(BipaiError::KaigangPending));
        assert_eq!(bipai.lingshangzimo(), Err(BipaiError::KaigangPending));
        assert_eq!(bipai.kaigang(), Ok(()));
        assert_eq!(bipai.baopai_indicators().unwrap().len(), 1 + n);
        assert_eq!(bipai.left_tile_count(), Ok(122 - n as u8));
    }
    assert_eq!(bipai.lingshangzimo(), Err(BipaiError::FifthGang));
    assert!(bipai.zimo().is_ok());
    bipai.close();
    assert_eq!(bipai.li_baopai_indicators().unwrap().unwrap().len(), 5);
    assert_eq!(bipai.zimo(), Err(BipaiError::Closed));
    assert_eq!(bipai.lingshangzimo(), Err(BipaiError::Closed));
    assert_eq!(bipai.kaigang(), Err(BipaiError::Closed));
}

#[test]
fn quads_without_dora_for_quads() {
    let mut bipai = wall(NumPlayer::Four, true, false, false);
    bipai.lingshangzimo().unwrap();
    assert_eq!(bipai.kaigang(), Err(BipaiError::NoKaigangPending));
    assert!(bipai.zimo().is_ok());
    assert_eq!(bipai.baopai_indicators().unwrap().len(), 1);
}

#[test]
fn dora_follows_its_indicator() {
    let next = |id: u8| RandomBipai::to_baopai(&Tile::try_from(id).unwrap()).as_u8();
    assert_eq!(next(0), 1);
    assert_eq!(next(8), 0);
    assert_eq!(next(17), 9);
    assert_eq!(next(26), 18);
    assert_eq!(next(27), 28);
    assert_eq!(next(30), 27);
    assert_eq!(next(31), 32);
    assert_eq!(next(33), 31);
    assert_eq!(next(34), 5);
    assert_eq!(next(36), 23);
    assert_eq!(Tile::try_from(0).unwrap().prev().as_u8(), 8);
    assert_eq!(Tile::try_from(27).unwrap().prev().as_u8(), 30);
    assert_eq!(Tile::try_from(31).unwrap().prev().as_u8(), 33);
    assert_eq!(Tile::try_from(35).unwrap().prev().as_u8(), 12);
}

#[test]
fn wall_is_not_in_order_of_kind() {
    let mut bipai = wall(NumPlayer::Four, true, true, false);
    let mut drawn = Vec::new();
    for _ in 0..122 {
        drawn.push(bipai.zimo().unwrap().normalize_hongbaopai().as_u8());
    }
    let mut sorted = drawn.clone();
    sorted.sort();
    assert_ne!(drawn, sorted);
    sorted.reverse();
    assert_ne!(drawn, sorted);
}

fn draw_until_empty<B: lizhisim::bipai::Bipai>(bipai: &mut B) -> usize {
    let mut drawn = 0;
    while bipai.zimo().is_ok() {
        drawn += 1;
    }
    drawn
}

#[test]
fn wall_through_its_trait() {
    let mut bipai = wall(NumPlayer::Four, true, true, false);
    assert!(lizhisim::bipai::Bipai::lingshangzimo(&mut bipai).is_ok());
    assert_eq!(
        lizhisim::bipai::Bipai::zimo(&mut bipai),
        Err(BipaiError::KaigangPending)
    );
    assert_eq!(lizhisim::bipai::Bipai::kaigang(&mut bipai), Ok(()));
    assert_eq!(draw_until_empty(&mut bipai), 121);
    assert_eq!(lizhisim::bipai::Bipai::left_tile_count(&bipai), Ok(0));
    assert_eq!(
        lizhisim::bipai::Bipai::baopai_indicators(&bipai).unwrap().len(),
        2
    );
    assert_eq!(
        lizhisim::bipai::Bipai::li_baopai_indicators(&bipai),
        Err(BipaiError::NotClosed)
    );
    lizhisim::bipai::Bipai::close(&mut bipai);
    assert_eq!(
        lizhisim::bipai::Bipai::li_baopai_indicators(&bipai)
            .unwrap()
            .unwrap()
            .len(),
        2
    );
    assert_eq!(
        <RandomBipai as lizhisim::bipai::Bipai>::to_baopai(&Tile::try_from(8).unwrap()).as_u8(),
        0
    );
}
