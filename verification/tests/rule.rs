use lizhisim::point::{MaError, PointError};
use lizhisim::rule::{
    AngangAfterLizhi, BaoYiman, Changshu, ExtensionMode, FanLimit, HongbaopaiCount, Leijiyiman,
    LizhibangAtLiuju, MultipleRongWithZhuangjia, MultipulYimanBao, NonzimoLizhi, NumPlayer,
    Renhe, Rule, RuleError, Shiti, ShunweiMa, ShunweiMaError, ShunweiShenMa,
    TingpaiNotingLianzhuang, Tuzhongliuju, ZimoScoring3P, validate_shunwei_ma,
};

struct Settings {
    starting_point: i32,
    min_win_point: i32,
    noting_fafu_1: i32,
    noting_fafu_2: i32,
    fandian: i32,
    tianbian: Option<i32>,
    lizhibang_point: i32,
    changbang_point: i32,
    noting_fafu_3: i32,
    ma: ShunweiMa,
    ma_4_below: ShunweiMa,
    hongbaopai_count: HongbaopaiCount,
    has_fuheyiman: bool,
    yiman_bao: MultipulYimanBao,
    includes_fulupai: bool,
    angang: AngangAfterLizhi,
    qipai_14: bool,
    ignores_zimopai: bool,
}

fn usual() -> Settings {
    let ma = ShunweiMa { ma_2: 5, ma_3: -5, ma_4: -15 };
    Settings {
        starting_point: 25_000,
        min_win_point: 30_000,
        noting_fafu_1: 1_000,
        noting_fafu_2: 1_500,
        fandian: 30_000,
        tianbian: None,
        lizhibang_point: 1_000,
        changbang_point: 100,
        noting_fafu_3: 1_000,
        ma,
        ma_4_below: ma,
        hongbaopai_count: HongbaopaiCount { wanzi: 1, bingzi: 1, suozi: 1 },
        has_fuheyiman: true,
        yiman_bao: MultipulYimanBao::Both,
        includes_fulupai: false,
        angang: AngangAfterLizhi::AllowedIfNotChangingWaits,
        qipai_14: false,
        ignores_zimopai: true,
    }
}

fn make(s: Settings) -> Result<Rule, RuleError> {
    Rule::new(
        NumPlayer::Four,
        Changshu::Banzhuangzhan,
        s.starting_point,
        s.min_win_point,
        s.fandian,
        s.tianbian,
        s.lizhibang_point,
        s.changbang_point,
        s.noting_fafu_1,
        s.noting_fafu_2,
        s.noting_fafu_3,
        ShunweiShenMa {
            shen_0: s.ma,
            shen_1: s.ma,
            shen_2: s.ma,
            shen_3: s.ma,
            shen_4: s.ma_4_below,
        },
        false,
        false,
        false,
        LizhibangAtLiuju::TopTakesAll,
        true,
        s.hongbaopai_count,
        true,
        FanLimit::Fan1,
        false,
        false,
        ZimoScoring3P::ZimoLoss,
        true,
        true,
        true,
        false,
        true,
        true,
        true,
        TingpaiNotingLianzhuang::Tingpailianzhuang,
        true,
        true,
        MultipleRongWithZhuangjia::Lianzhuang,
        Tuzhongliuju::Lianzhuang,
        Tuzhongliuju::Lianzhuang,
        Tuzhongliuju::Lianzhuang,
        Tuzhongliuju::Lianzhuang,
        Tuzhongliuju::Off,
        true,
        true,
        s.has_fuheyiman,
        true,
        Renhe::Off,
        BaoYiman::DasanyuanDasixi,
        s.yiman_bao,
        false,
        true,
        true,
        ExtensionMode::SuddenDeathWithLianzhuangPriority,
        Shiti::Forbidden,
        NonzimoLizhi::Forbidden,
        true,
        false,
        s.includes_fulupai,
        s.angang,
        false,
        false,
        s.qipai_14,
        s.ignores_zimopai,
    )
}

#[test]
fn usual_settings_make_a_rule() {
    let rule = make(usual()).unwrap();
    assert_eq!(*rule.num_player(), NumPlayer::Four);
    assert_eq!(*rule.changshu(), Changshu::Banzhuangzhan);
    assert_eq!(*rule.starting_point(), 25_000);
    assert_eq!(*rule.min_win_point(), 30_000);
    assert_eq!(*rule.fandian(), 30_000);
    assert_eq!(*rule.tianbian(), None);
    assert_eq!(*rule.lizhibang_point(), 1_000);
    assert_eq!(*rule.changbang_point(), 100);
    assert_eq!(*rule.noting_fafu_1(), 1_000);
    assert_eq!(*rule.noting_fafu_2(), 1_500);
    assert_eq!(*rule.noting_fafu_3(), 1_000);
    assert_eq!(rule.shunwei_shen_ma().shen_2.ma_3, -5);
    assert_eq!(rule.hongbaopai_count().bingzi, 1);
    assert_eq!(*rule.fan_limit(), FanLimit::Fan1);
    assert_eq!(*rule.angang_after_lizhi(), AngangAfterLizhi::AllowedIfNotChangingWaits);
    assert!(*rule.has_biao_baopai());
    assert!(!*rule.ming_baopai_immediately_open());
    assert!(*rule.ignores_actual_zimopai_on_tianhu());
    assert!(!*rule.is_zhuangjia_qipai_14());
    assert_eq!(*rule.sanjiahele(), Tuzhongliuju::Off);
    assert_eq!(*rule.renhe(), Renhe::Off);
    assert_eq!(*rule.has_leijiyiman(), true);
    assert_eq!(rule.clone() == rule, true);
}

#[test]
fn points_are_checked_in_order() {
    let mut s = usual();
    s.starting_point = 25_050;
    s.fandian = -100;
    assert_eq!(
        make(s).unwrap_err(),
        RuleError::StartingPoint(PointError::NotMultipleOfUnit(25_050))
    );
    let mut s = usual();
    s.fandian = 1_000_100;
    assert_eq!(
        make(s).unwrap_err(),
        RuleError::Fandian(PointError::TooLarge(1_000_100))
    );
    let mut s = usual();
    s.tianbian = Some(-100);
    assert_eq!(
        make(s).unwrap_err(),
        RuleError::Tianbian(PointError::TooSmall(-100))
    );
    let mut s = usual();
    s.lizhibang_point = 10_100;
    assert_eq!(
        make(s).unwrap_err(),
        RuleError::LizhibangPoint(PointError::TooLarge(10_100))
    );
    let mut s = usual();
    s.changbang_point = 10_100;
    assert_eq!(
        make(s).unwrap_err(),
        RuleError::ChangbangPoint(PointError::TooLarge(10_100))
    );
    let mut s = usual();
    s.noting_fafu_3 = 1;
    assert_eq!(
        make(s).unwrap_err(),
        RuleError::NotingFafu3(PointError::NotMultipleOfUnit(1))
    );
    let mut s = usual();
    s.tianbian = Some(100_000);
    assert!(make(s).is_ok());
    let mut s = usual();
    s.min_win_point = -100;
    s.noting_fafu_1 = 50;
    assert_eq!(
        make(s).unwrap_err(),
        RuleError::MinWinPoint(PointError::TooSmall(-100))
    );
    let mut s = usual();
    s.noting_fafu_1 = 50;
    s.noting_fafu_2 = 50;
    assert_eq!(
        make(s).unwrap_err(),
        RuleError::NotingFafu1(PointError::NotMultipleOfUnit(50))
    );
    let mut s = usual();
    s.noting_fafu_2 = 2_000_000;
    assert_eq!(
        make(s).unwrap_err(),
        RuleError::NotingFafu2(PointError::TooLarge(2_000_000))
    );
}

#[test]
fn goal_must_not_be_below_start() {
    let mut s = usual();
    s.fandian = 20_000;
    assert_eq!(make(s).unwrap_err(), RuleError::FandianBelowStartingPoint);
    let mut s = usual();
    s.fandian = 25_000;
    assert!(make(s).is_ok());
}

#[test]
fn order_bonus_is_checked() {
    let ok = ShunweiMa { ma_2: 10, ma_3: -10, ma_4: -30 };
    assert_eq!(validate_shunwei_ma(&ok), Ok(()));
    assert_eq!(
        validate_shunwei_ma(&ShunweiMa { ma_2: 10_001, ma_3: 0, ma_4: 0 }),
        Err(ShunweiMaError::Ma2(MaError::TooLarge(10_001)))
    );
    assert_eq!(
        validate_shunwei_ma(&ShunweiMa { ma_2: 0, ma_3: -10_001, ma_4: 0 }),
        Err(ShunweiMaError::Ma3(MaError::TooSmall(-10_001)))
    );
    assert_eq!(
        validate_shunwei_ma(&ShunweiMa { ma_2: 0, ma_3: 0, ma_4: 10_001 }),
        Err(ShunweiMaError::Ma4(MaError::TooLarge(10_001)))
    );
    assert_eq!(
        validate_shunwei_ma(&ShunweiMa { ma_2: 0, ma_3: 5, ma_4: 0 }),
        Err(ShunweiMaError::Ma3AboveMa2)
    );
    assert_eq!(
        validate_shunwei_ma(&ShunweiMa { ma_2: 5, ma_3: 0, ma_4: 1 }),
        Err(ShunweiMaError::Ma4AboveMa3)
    );
    assert_eq!(
        validate_shunwei_ma(&ShunweiMa { ma_2: 5, ma_3: 0, ma_4: 0 }),
        Err(ShunweiMaError::Ma2AboveMa1)
    );
    let mut s = usual();
    s.ma_4_below = ShunweiMa { ma_2: 5, ma_3: 0, ma_4: 0 };
    assert_eq!(
        make(s).unwrap_err(),
        RuleError::ShunweiMa(4, ShunweiMaError::Ma2AboveMa1)
    );
}

#[test]
fn red_fives_are_at_most_four() {
    let mut s = usual();
    s.hongbaopai_count = HongbaopaiCount { wanzi: 5, bingzi: 6, suozi: 0 };
    assert_eq!(make(s).unwrap_err(), RuleError::HongbaopaiWanzi(5));
    let mut s = usual();
    s.hongbaopai_count = HongbaopaiCount { wanzi: 4, bingzi: 6, suozi: 9 };
    assert_eq!(make(s).unwrap_err(), RuleError::HongbaopaiBingzi(6));
    let mut s = usual();
    s.hongbaopai_count = HongbaopaiCount { wanzi: 4, bingzi: 4, suozi: 9 };
    assert_eq!(make(s).unwrap_err(), RuleError::HongbaopaiSuozi(9));
    let mut s = usual();
    s.hongbaopai_count = HongbaopaiCount { wanzi: 4, bingzi: 4, suozi: 4 };
    assert!(make(s).is_ok());
}

#[test]
fn settings_that_exclude_one_another() {
    let mut s = usual();
    s.has_fuheyiman = false;
    assert_eq!(
        make(s).unwrap_err(),
        RuleError::MultipleYimanBaoWithoutFuheyiman
    );
    let mut s = usual();
    s.has_fuheyiman = false;
    s.yiman_bao = MultipulYimanBao::OnlyDasanyuan;
    assert!(make(s).is_ok());
    let mut s = usual();
    s.includes_fulupai = true;
    assert_eq!(make(s).unwrap_err(), RuleError::AngangAfterLizhiWithFulupai);
    let mut s = usual();
    s.includes_fulupai = true;
    s.angang = AngangAfterLizhi::Forbidden;
    assert!(make(s).is_ok());
    let mut s = usual();
    s.qipai_14 = true;
    s.ignores_zimopai = false;
    assert_eq!(make(s).unwrap_err(), RuleError::ZhuangjiaQipai14);
    let mut s = usual();
    s.qipai_14 = true;
    assert!(make(s).is_ok());
}
