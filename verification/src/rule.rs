use crate::point::{validate_changbang_point, validate_lizhibang_point, validate_ma, validate_ma_spec,
    validate_point, validate_point_spec, Ma, MaError, Point, PointError, MAX_CHANGBANG_POINT,
    MAX_LIZHIBANG_POINT, MAX_POINT};
use crate::tile::NUM_SAME_TILE;
use vstd::prelude::*;

verus! {

/// The rules of a game. A value of this type has passed [`Rule::new`].
#[derive(Debug, Clone, Copy, PartialEq, Eq)]
pub struct Rule {
    /// Number of players.
    num_player: NumPlayer,
    /// Length of the game in rounds.
    changshu: Changshu,
    /// Points that each player starts with.
    starting_point: Point,
    /// Points that the first place needs for the game to end.
    min_win_point: Point,
    /// Points against which the final scores are settled.
    fandian: Point,
    /// Points at which the game ends at once, if there is such a limit.
    tianbian: Option<Point>,
    /// Points of a riichi bet.
    lizhibang_point: Point,
    /// Points that each repeat counter adds to a win.
    changbang_point: Point,
    /// Penalty for not being ready at a draw, with 1 player ready.
    noting_fafu_1: Point,
    /// Penalty for not being ready at a draw, with 2 players ready.
    noting_fafu_2: Point,
    /// Penalty for not being ready at a draw, with 3 players ready.
    noting_fafu_3: Point,
    /// Order bonus, by the number of players below the goal.
    shunwei_shen_ma: ShunweiShenMa,
    /// Whether the first place takes the difference between goal and start.
    has_qiu: bool,
    /// Whether players with equal points share a rank.
    allows_tied_rank: bool,
    /// Whether riichi may be declared with less than the bet.
    can_lizhi_for_negative_point: bool,
    /// What becomes of riichi bets left when the game ends.
    lizhibang_at_liuju: LizhibangAtLiuju,
    /// Whether all simples counts with an open hand.
    has_shiduan: bool,
    /// Number of red fives of each suit.
    hongbaopai_count: HongbaopaiCount,
    /// Whether the game ends when a player falls below zero.
    can_jifei: bool,
    /// Least value that a winning hand needs.
    fan_limit: FanLimit,
    /// Whether 4 fan 30 fu and 3 fan 60 fu are rounded up to mangan.
    has_qieshangmanguan: bool,
    /// Whether only the first player in turn wins on one discard.
    has_toutiao: bool,
    /// How a self-drawn win is paid with 3 players.
    zimo_scoring_3p: ZimoScoring3P,
    /// Whether there is a dora.
    has_biao_baopai: bool,
    /// Whether there are ura dora.
    has_li_baopai: bool,
    /// Whether a quad reveals a further dora.
    has_gang_biao_baopai: bool,
    /// Whether an open quad reveals its dora at once.
    ming_baopai_immediately_open: bool,
    /// Whether a quad adds a further ura dora.
    has_gang_li_baopai: bool,
    /// Whether a north set aside counts as dora.
    has_babei_baopai: bool,
    /// Whether the dealer stays after winning.
    has_helelianzhuang: bool,
    /// Whether the dealer stays at a draw.
    tingpai_noting_lianzhuang: TingpaiNotingLianzhuang,
    /// Whether a leading dealer who wins the last hand ends the game.
    has_helezhongju: bool,
    /// Whether a leading dealer who is ready at the last draw ends the game.
    has_tingpaizhongju: bool,
    /// Whether the dealer stays when he is one of several winners.
    multiple_rong_with_zhuangjia: MultipleRongWithZhuangjia,
    /// What four quads by different players do.
    sigangsanle: Tuzhongliuju,
    /// What four discards of one wind in the first turn do.
    sifenglianda: Tuzhongliuju,
    /// What four riichi declarations do.
    sijializhi: Tuzhongliuju,
    /// What nine kinds of terminals and honors in the first hand may do.
    jiuzhongjiupai: Tuzhongliuju,
    /// What three winners on one discard do.
    sanjiahele: Tuzhongliuju,
    /// Whether 13 fan and more count as yakuman.
    has_leijiyiman: bool,
    /// Whether some hands count as double yakuman.
    has_shuangbeiyiman: bool,
    /// Whether several yakuman in one hand add up.
    has_fuheyiman: bool,
    /// Whether thirteen orphans may win on a concealed quad.
    has_angang_shisanyao: bool,
    /// What a win on a discard in the first turn is worth.
    renhe: Renhe,
    /// For which yakuman the player who fed the last meld pays.
    bao_yiman: BaoYiman,
    /// For which of them he pays when a hand has both.
    can_coexist_multiple_yiman_bao: MultipulYimanBao,
    /// Whether the discarder pays for a win after his tile was taken for an open quad.
    has_bao_daminggang_lingshangkaihua: bool,
    /// Whether discards of terminals and honors only win at a draw.
    has_liujumanguan: bool,
    /// Whether a win within one turn of riichi counts.
    has_yifa: bool,
    /// How the game goes on when nobody has reached the points to win.
    extension_mode: ExtensionMode,
    /// Whether a claimed tile may be swapped for a discard of the same run.
    shiti: Shiti,
    /// Whether riichi may be declared with no draw left.
    nonzimo_lizhi: NonzimoLizhi,
    /// Whether a pair of the double wind is worth 4 fu.
    is_lianfengpai_4_fu: bool,
    /// Whether a win after a quad forgoes the fu of a self-drawn win.
    is_lingshangkaihua_zimo_0_fu: bool,
    /// Whether the tiles of melds count when readiness is tested.
    includes_fulupai_in_tingpai_check: bool,
    /// Which concealed quads are allowed after riichi.
    angang_after_lizhi: AngangAfterLizhi,
    /// Whether a ready player may declare himself not ready.
    can_noting_declaration: bool,
    /// Whether north is a seat wind of everyone with 3 players.
    is_bei_menfengpai: bool,
    /// Whether the dealer is dealt 14 tiles.
    is_zhuangjia_qipai_14: bool,
    /// Whether a win on the deal takes the best tile as the drawn one.
    ignores_actual_zimopai_on_tianhu: bool,
}

/// The settings of a game as plain values: what [`Rule`] holds.
pub struct RuleView {
    /// Number of players.
    pub num_player: NumPlayer,
    /// Length of the game in rounds.
    pub changshu: Changshu,
    /// Points that each player starts with.
    pub starting_point: Point,
    /// Points that the first place needs for the game to end.
    pub min_win_point: Point,
    /// Points against which the final scores are settled.
    pub fandian: Point,
    /// Points at which the game ends at once, if there is such a limit.
    pub tianbian: Option<Point>,
    /// Points of a riichi bet.
    pub lizhibang_point: Point,
    /// Points that each repeat counter adds to a win.
    pub changbang_point: Point,
    /// Penalty for not being ready at a draw, with 1 player ready.
    pub noting_fafu_1: Point,
    /// Penalty for not being ready at a draw, with 2 players ready.
    pub noting_fafu_2: Point,
    /// Penalty for not being ready at a draw, with 3 players ready.
    pub noting_fafu_3: Point,
    /// Order bonus, by the number of players below the goal.
    pub shunwei_shen_ma: ShunweiShenMa,
    /// Whether the first place takes the difference between goal and start.
    pub has_qiu: bool,
    /// Whether players with equal points share a rank.
    pub allows_tied_rank: bool,
    /// Whether riichi may be declared with less than the bet.
    pub can_lizhi_for_negative_point: bool,
    /// What becomes of riichi bets left when the game ends.
    pub lizhibang_at_liuju: LizhibangAtLiuju,
    /// Whether all simples counts with an open hand.
    pub has_shiduan: bool,
    /// Number of red fives of each suit.
    pub hongbaopai_count: HongbaopaiCount,
    /// Whether the game ends when a player falls below zero.
    pub can_jifei: bool,
    /// Least value that a winning hand needs.
    pub fan_limit: FanLimit,
    /// Whether 4 fan 30 fu and 3 fan 60 fu are rounded up to mangan.
    pub has_qieshangmanguan: bool,
    /// Whether only the first player in turn wins on one discard.
    pub has_toutiao: bool,
    /// How a self-drawn win is paid with 3 players.
    pub zimo_scoring_3p: ZimoScoring3P,
    /// Whether there is a dora.
    pub has_biao_baopai: bool,
    /// Whether there are ura dora.
    pub has_li_baopai: bool,
    /// Whether a quad reveals a further dora.
    pub has_gang_biao_baopai: bool,
    /// Whether an open quad reveals its dora at once.
    pub ming_baopai_immediately_open: bool,
    /// Whether a quad adds a further ura dora.
    pub has_gang_li_baopai: bool,
    /// Whether a north set aside counts as dora.
    pub has_babei_baopai: bool,
    /// Whether the dealer stays after winning.
    pub has_helelianzhuang: bool,
    /// Whether the dealer stays at a draw.
    pub tingpai_noting_lianzhuang: TingpaiNotingLianzhuang,
    /// Whether a leading dealer who wins the last hand ends the game.
    pub has_helezhongju: bool,
    /// Whether a leading dealer who is ready at the last draw ends the game.
    pub has_tingpaizhongju: bool,
    /// Whether the dealer stays when he is one of several winners.
    pub multiple_rong_with_zhuangjia: MultipleRongWithZhuangjia,
    /// What four quads by different players do.
    pub sigangsanle: Tuzhongliuju,
    /// What four discards of one wind in the first turn do.
    pub sifenglianda: Tuzhongliuju,
    /// What four riichi declarations do.
    pub sijializhi: Tuzhongliuju,
    /// What nine kinds of terminals and honors in the first hand may do.
    pub jiuzhongjiupai: Tuzhongliuju,
    /// What three winners on one discard do.
    pub sanjiahele: Tuzhongliuju,
    /// Whether 13 fan and more count as yakuman.
    pub has_leijiyiman: bool,
    /// Whether some hands count as double yakuman.
    pub has_shuangbeiyiman: bool,
    /// Whether several yakuman in one hand add up.
    pub has_fuheyiman: bool,
    /// Whether thirteen orphans may win on a concealed quad.
    pub has_angang_shisanyao: bool,
    /// What a win on a discard in the first turn is worth.
    pub renhe: Renhe,
    /// For which yakuman the player who fed the last meld pays.
    pub bao_yiman: BaoYiman,
    /// For which of them he pays when a hand has both.
    pub can_coexist_multiple_yiman_bao: MultipulYimanBao,
    /// Whether the discarder pays for a win after his tile was taken for an open quad.
    pub has_bao_daminggang_lingshangkaihua: bool,
    /// Whether discards of terminals and honors only win at a draw.
    pub has_liujumanguan: bool,
    /// Whether a win within one turn of riichi counts.
    pub has_yifa: bool,
    /// How the game goes on when nobody has reached the points to win.
    pub extension_mode: ExtensionMode,
    /// Whether a claimed tile may be swapped for a discard of the same run.
    pub shiti: Shiti,
    /// Whether riichi may be declared with no draw left.
    pub nonzimo_lizhi: NonzimoLizhi,
    /// Whether a pair of the double wind is worth 4 fu.
    pub is_lianfengpai_4_fu: bool,
    /// Whether a win after a quad forgoes the fu of a self-drawn win.
    pub is_lingshangkaihua_zimo_0_fu: bool,
    /// Whether the tiles of melds count when readiness is tested.
    pub includes_fulupai_in_tingpai_check: bool,
    /// Which concealed quads are allowed after riichi.
    pub angang_after_lizhi: AngangAfterLizhi,
    /// Whether a ready player may declare himself not ready.
    pub can_noting_declaration: bool,
    /// Whether north is a seat wind of everyone with 3 players.
    pub is_bei_menfengpai: bool,
    /// Whether the dealer is dealt 14 tiles.
    pub is_zhuangjia_qipai_14: bool,
    /// Whether a win on the deal takes the best tile as the drawn one.
    pub ignores_actual_zimopai_on_tianhu: bool,
}

/// Number of players.
#[derive(Debug, Clone, Copy, PartialEq, Eq, Structural)]
pub enum NumPlayer {
    Four,
    Three,
}

/// Length of a game.
#[derive(Debug, Clone, Copy, PartialEq, Eq, Structural)]
pub enum Changshu {
    /// A single hand.
    Yijuzhan,
    /// An east round.
    Dongfengzhan,
    /// An east and a south round.
    Banzhuangzhan,
    /// All four rounds.
    Yizhuangzhan,
}

/// Order bonus of the second, third and fourth place; the first place gets
/// what the others lose.
#[derive(Debug, Clone, Copy, PartialEq, Eq, Structural)]
pub struct ShunweiMa {
    pub ma_2: Ma,
    pub ma_3: Ma,
    pub ma_4: Ma,
}

/// Order bonus by the number of players who end below the goal.
#[derive(Debug, Clone, Copy, PartialEq, Eq, Structural)]
pub struct ShunweiShenMa {
    pub shen_0: ShunweiMa,
    pub shen_1: ShunweiMa,
    pub shen_2: ShunweiMa,
    pub shen_3: ShunweiMa,
    pub shen_4: ShunweiMa,
}

/// What becomes of riichi bets that are left when the game ends.
#[derive(Debug, Clone, Copy, PartialEq, Eq, Structural)]
pub enum LizhibangAtLiuju {
    /// The first place takes them.
    TopTakesAll,
    /// Nobody takes them.
    KeepAsDeposit,
}

/// Number of red fives of each suit.
#[derive(Debug, Clone, Copy, PartialEq, Eq, Structural)]
pub struct HongbaopaiCount {
    pub wanzi: u8,
    pub bingzi: u8,
    pub suozi: u8,
}

/// Least value that a winning hand needs.
#[derive(Debug, Clone, Copy, PartialEq, Eq, Structural)]
pub enum FanLimit {
    Fan1,
    Fan2,
    Fan4,
    Manguan,
    Menqianqing,
}

/// How a self-drawn win is paid with 3 players.
#[derive(Debug, Clone, Copy, PartialEq, Eq, Structural)]
pub enum ZimoScoring3P {
    /// The share of the missing player is lost.
    ZimoLoss,
    /// The share of the missing player is split between the two who pay.
    SplitBeijiaPayment,
    /// The two who pay bear the whole value of the win.
    FullPayment,
    /// The two who pay bear equal halves.
    EqualPayment,
}

/// Whether the dealer stays at a draw.
#[derive(Debug, Clone, Copy, PartialEq, Eq, Structural)]
pub enum TingpaiNotingLianzhuang {
    /// Never.
    Off,
    /// If he is ready.
    Tingpailianzhuang,
    /// Always.
    Notinglianzhuang,
}

/// What happens to the deal when the dealer is one of several winners.
#[derive(Debug, Clone, Copy, PartialEq, Eq, Structural)]
pub enum MultipleRongWithZhuangjia {
    /// The dealer stays.
    Lianzhuang,
    /// The dealer stays if he is first in turn.
    Toutiao,
    /// The deal moves on.
    Lunzhuang,
}

/// What an abortive draw does.
#[derive(Debug, Clone, Copy, PartialEq, Eq, Structural)]
pub enum Tuzhongliuju {
    /// There is no such draw.
    Off,
    /// The hand is void and the dealer stays.
    Lianzhuang,
    /// The hand is void and the deal moves on.
    Lunzhuang,
}

/// How yakuman by count are treated.
#[derive(Debug, Clone, Copy, PartialEq, Eq, Structural)]
pub enum Leijiyiman {
    Off,
    Single,
    Multiple,
}

/// What a win on a discard in the first turn is worth.
#[derive(Debug, Clone, Copy, PartialEq, Eq, Structural)]
pub enum Renhe {
    Off,
    Fan4,
    Fan5,
    Fan6,
    Fan8,
    Fan11,
    Manguan,
    Tiaoman,
    Beiman,
    Sanbeiman,
    Yiman,
}

/// For which yakuman the player who fed the last meld pays.
#[derive(Debug, Clone, Copy, PartialEq, Eq, Structural)]
pub enum BaoYiman {
    Off,
    DasanyuanDasixi,
    DasanyuanDasixiSigangzi,
}

/// For which yakuman the player who fed the last meld pays when a hand has both.
#[derive(Debug, Clone, Copy, PartialEq, Eq, Structural)]
pub enum MultipulYimanBao {
    OnlyDasanyuan,
    OnlySigangzi,
    Both,
}

/// How the game goes on when nobody has reached the points to win.
#[derive(Debug, Clone, Copy, PartialEq, Eq, Structural)]
pub enum ExtensionMode {
    Off,
    SuddenDeath,
    SuddenDeathWithLianzhuangPriority,
    Fixed4Rounds,
}

/// Whether a claimed tile may be swapped for a discard of the same run.
#[derive(Debug, Clone, Copy, PartialEq, Eq, Structural)]
pub enum Shiti {
    /// Neither the claimed tile nor the tile at the other end of the run.
    Forbidden,
    /// The tile at the other end of the run only.
    OnlyJinAllowed,
    /// Both.
    Allowed,
}

/// Whether riichi may be declared with no draw left.
#[derive(Debug, Clone, Copy, PartialEq, Eq, Structural)]
pub enum NonzimoLizhi {
    Forbidden,
    ForbiddenLastTile,
    Allowed,
}

/// Which concealed quads are allowed after riichi.
#[derive(Debug, Clone, Copy, PartialEq, Eq, Structural)]
pub enum AngangAfterLizhi {
    Forbidden,
    AllowedIfNotChangingCompositionAndNotDecreasingYaku,
    AllowedIfNotChangingComposition,
    AllowedIfNotChangingWaits,
}

/// Why an order bonus was rejected.
#[derive(Debug, Clone, Copy, PartialEq, Eq, Structural)]
pub enum ShunweiMaError {
    /// The bonus of the second place is out of range.
    Ma2(MaError),
    /// The bonus of the third place is out of range.
    Ma3(MaError),
    /// The bonus of the fourth place is out of range.
    Ma4(MaError),
    /// The third place would get more than the second.
    Ma3AboveMa2,
    /// The fourth place would get more than the third.
    Ma4AboveMa3,
    /// The second place would get more than the first.
    Ma2AboveMa1,
}

/// Why settings were rejected.
#[derive(Debug, Clone, Copy, PartialEq, Eq, Structural)]
pub enum RuleError {
    /// The starting points are no valid points.
    StartingPoint(PointError),
    /// The points to win are no valid points.
    MinWinPoint(PointError),
    /// The goal is no valid number of points.
    Fandian(PointError),
    /// The upper limit is no valid number of points.
    Tianbian(PointError),
    /// The riichi bet is no valid bet.
    LizhibangPoint(PointError),
    /// The value of a repeat counter is not valid.
    ChangbangPoint(PointError),
    /// The penalty with 1 player ready is no valid number of points.
    NotingFafu1(PointError),
    /// The penalty with 2 players ready is no valid number of points.
    NotingFafu2(PointError),
    /// The penalty with 3 players ready is no valid number of points.
    NotingFafu3(PointError),
    /// The goal lies below the starting points.
    FandianBelowStartingPoint,
    /// The order bonus for the given number of players below the goal is not valid.
    ShunweiMa(u8, ShunweiMaError),
    /// More than 4 red fives of man.
    HongbaopaiWanzi(u8),
    /// More than 4 red fives of pin.
    HongbaopaiBingzi(u8),
    /// More than 4 red fives of sou.
    HongbaopaiSuozi(u8),
    /// Yakuman do not add up, yet the feeder is to pay for both at once.
    MultipleYimanBaoWithoutFuheyiman,
    /// Melds count towards readiness, yet a concealed quad after riichi may
    /// change the hand as long as the waits stay.
    AngangAfterLizhiWithFulupai,
    /// The dealer is dealt 14 tiles, yet the drawn tile is to be told apart.
    ZhuangjiaQipai14,
}

/// What validating an order bonus yields: each bonus in range, none above
/// the one of the place before, the first place taking what the others lose.
pub open spec fn validate_shunwei_ma_spec(ma: ShunweiMa) -> Result<(), ShunweiMaError> {
    if let Err(e) = validate_ma_spec(ma.ma_2) {
        Err(ShunweiMaError::Ma2(e))
    } else if let Err(e) = validate_ma_spec(ma.ma_3) {
        Err(ShunweiMaError::Ma3(e))
    } else if let Err(e) = validate_ma_spec(ma.ma_4) {
        Err(ShunweiMaError::Ma4(e))
    } else if ma.ma_2 < ma.ma_3 {
        Err(ShunweiMaError::Ma3AboveMa2)
    } else if ma.ma_3 < ma.ma_4 {
        Err(ShunweiMaError::Ma4AboveMa3)
    } else if -(ma.ma_2 + ma.ma_3 + ma.ma_4) < ma.ma_2 {
        Err(ShunweiMaError::Ma2AboveMa1)
    } else {
        Ok(())
    }
}

/// Validates an order bonus.
pub fn validate_shunwei_ma(shunwei_ma: &ShunweiMa) -> (r: Result<(), ShunweiMaError>)
    ensures
        r == validate_shunwei_ma_spec(*shunwei_ma),
{
    if let Err(e) = validate_ma(&shunwei_ma.ma_2) {
        return Err(ShunweiMaError::Ma2(e));
    }
    if let Err(e) = validate_ma(&shunwei_ma.ma_3) {
        return Err(ShunweiMaError::Ma3(e));
    }
    if let Err(e) = validate_ma(&shunwei_ma.ma_4) {
        return Err(ShunweiMaError::Ma4(e));
    }
    if !(shunwei_ma.ma_2 >= shunwei_ma.ma_3) {
        return Err(ShunweiMaError::Ma3AboveMa2);
    }
    if !(shunwei_ma.ma_3 >= shunwei_ma.ma_4) {
        return Err(ShunweiMaError::Ma4AboveMa3);
    }
    let ma_1: Ma = -1 * (shunwei_ma.ma_2 + shunwei_ma.ma_3 + shunwei_ma.ma_4);
    if !(ma_1 >= shunwei_ma.ma_2) {
        return Err(ShunweiMaError::Ma2AboveMa1);
    }
    Ok(())
}

/// The first fault among the points, checked in the order of the fields,
/// the goal being checked last: it must be no less than the starting points.
pub open spec fn points_error(
    starting_point: Point,
    min_win_point: Point,
    fandian: Point,
    tianbian: Option<Point>,
    lizhibang_point: Point,
    changbang_point: Point,
    noting_fafu_1: Point,
    noting_fafu_2: Point,
    noting_fafu_3: Point,
) -> Option<RuleError> {
    if let Err(e) = validate_point_spec(starting_point, MAX_POINT) {
        Some(RuleError::StartingPoint(e))
    } else if let Err(e) = validate_point_spec(min_win_point, MAX_POINT) {
        Some(RuleError::MinWinPoint(e))
    } else if let Err(e) = validate_point_spec(fandian, MAX_POINT) {
        Some(RuleError::Fandian(e))
    } else if tianbian is Some && validate_point_spec(tianbian->0, MAX_POINT) is Err {
        Some(RuleError::Tianbian(validate_point_spec(tianbian->0, MAX_POINT)->Err_0))
    } else if let Err(e) = validate_point_spec(lizhibang_point, MAX_LIZHIBANG_POINT) {
        Some(RuleError::LizhibangPoint(e))
    } else if let Err(e) = validate_point_spec(changbang_point, MAX_CHANGBANG_POINT) {
        Some(RuleError::ChangbangPoint(e))
    } else if let Err(e) = validate_point_spec(noting_fafu_1, MAX_POINT) {
        Some(RuleError::NotingFafu1(e))
    } else if let Err(e) = validate_point_spec(noting_fafu_2, MAX_POINT) {
        Some(RuleError::NotingFafu2(e))
    } else if let Err(e) = validate_point_spec(noting_fafu_3, MAX_POINT) {
        Some(RuleError::NotingFafu3(e))
    } else if fandian < starting_point {
        Some(RuleError::FandianBelowStartingPoint)
    } else {
        None
    }
}

/// The first fault among the order bonuses, from 0 to 4 players below the goal.
pub open spec fn shunwei_shen_ma_error(ma: ShunweiShenMa) -> Option<RuleError> {
    if let Err(e) = validate_shunwei_ma_spec(ma.shen_0) {
        Some(RuleError::ShunweiMa(0, e))
    } else if let Err(e) = validate_shunwei_ma_spec(ma.shen_1) {
        Some(RuleError::ShunweiMa(1, e))
    } else if let Err(e) = validate_shunwei_ma_spec(ma.shen_2) {
        Some(RuleError::ShunweiMa(2, e))
    } else if let Err(e) = validate_shunwei_ma_spec(ma.shen_3) {
        Some(RuleError::ShunweiMa(3, e))
    } else if let Err(e) = validate_shunwei_ma_spec(ma.shen_4) {
        Some(RuleError::ShunweiMa(4, e))
    } else {
        None
    }
}

/// The first suit with more than 4 red fives.
pub open spec fn hongbaopai_error(count: HongbaopaiCount) -> Option<RuleError> {
    if count.wanzi > NUM_SAME_TILE {
        Some(RuleError::HongbaopaiWanzi(count.wanzi))
    } else if count.bingzi > NUM_SAME_TILE {
        Some(RuleError::HongbaopaiBingzi(count.bingzi))
    } else if count.suozi > NUM_SAME_TILE {
        Some(RuleError::HongbaopaiSuozi(count.suozi))
    } else {
        None
    }
}

/// The first pair of settings that exclude one another.
pub open spec fn exclusion_error(
    has_fuheyiman: bool,
    can_coexist_multiple_yiman_bao: MultipulYimanBao,
    angang_after_lizhi: AngangAfterLizhi,
    includes_fulupai_in_tingpai_check: bool,
    is_zhuangjia_qipai_14: bool,
    ignores_actual_zimopai_on_tianhu: bool,
) -> Option<RuleError> {
    if !has_fuheyiman && can_coexist_multiple_yiman_bao == MultipulYimanBao::Both {
        Some(RuleError::MultipleYimanBaoWithoutFuheyiman)
    } else if angang_after_lizhi == AngangAfterLizhi::AllowedIfNotChangingWaits
        && includes_fulupai_in_tingpai_check {
        Some(RuleError::AngangAfterLizhiWithFulupai)
    } else if is_zhuangjia_qipai_14 && !ignores_actual_zimopai_on_tianhu {
        Some(RuleError::ZhuangjiaQipai14)
    } else {
        None
    }
}

/// The first fault that the settings have, if any: of the points, then of
/// the order bonuses, then of the numbers of red fives, then of the settings
/// that exclude one another.
pub open spec fn rule_error(v: RuleView) -> Option<RuleError> {
    let points = points_error(
        v.starting_point,
        v.min_win_point,
        v.fandian,
        v.tianbian,
        v.lizhibang_point,
        v.changbang_point,
        v.noting_fafu_1,
        v.noting_fafu_2,
        v.noting_fafu_3,
    );
    let exclusion = exclusion_error(
        v.has_fuheyiman,
        v.can_coexist_multiple_yiman_bao,
        v.angang_after_lizhi,
        v.includes_fulupai_in_tingpai_check,
        v.is_zhuangjia_qipai_14,
        v.ignores_actual_zimopai_on_tianhu,
    );
    if points is Some {
        points
    } else if shunwei_shen_ma_error(v.shunwei_shen_ma) is Some {
        shunwei_shen_ma_error(v.shunwei_shen_ma)
    } else if hongbaopai_error(v.hongbaopai_count) is Some {
        hongbaopai_error(v.hongbaopai_count)
    } else {
        exclusion
    }
}

fn check_points(
    starting_point: Point,
    min_win_point: Point,
    fandian: Point,
    tianbian: Option<Point>,
    lizhibang_point: Point,
    changbang_point: Point,
    noting_fafu_1: Point,
    noting_fafu_2: Point,
    noting_fafu_3: Point,
) -> (r: Option<RuleError>)
    ensures
        r == points_error(
            starting_point,
            min_win_point,
            fandian,
            tianbian,
            lizhibang_point,
            changbang_point,
            noting_fafu_1,
            noting_fafu_2,
            noting_fafu_3,
        ),
{
    if let Err(e) = validate_point(&starting_point) {
        return Some(RuleError::StartingPoint(e));
    }
    if let Err(e) = validate_point(&min_win_point) {
        return Some(RuleError::MinWinPoint(e));
    }
    if let Err(e) = validate_point(&fandian) {
        return Some(RuleError::Fandian(e));
    }
    if let Some(p) = tianbian {
        if let Err(e) = validate_point(&p) {
            return Some(RuleError::Tianbian(e));
        }
    }
    if let Err(e) = validate_lizhibang_point(&lizhibang_point) {
        return Some(RuleError::LizhibangPoint(e));
    }
    if let Err(e) = validate_changbang_point(&changbang_point) {
        return Some(RuleError::ChangbangPoint(e));
    }
    if let Err(e) = validate_point(&noting_fafu_1) {
        return Some(RuleError::NotingFafu1(e));
    }
    if let Err(e) = validate_point(&noting_fafu_2) {
        return Some(RuleError::NotingFafu2(e));
    }
    if let Err(e) = validate_point(&noting_fafu_3) {
        return Some(RuleError::NotingFafu3(e));
    }
    if fandian < starting_point {
        return Some(RuleError::FandianBelowStartingPoint);
    }
    None
}

fn check_shunwei_shen_ma(ma: &ShunweiShenMa) -> (r: Option<RuleError>)
    ensures
        r == shunwei_shen_ma_error(*ma),
{
    if let Err(e) = validate_shunwei_ma(&ma.shen_0) {
        return Some(RuleError::ShunweiMa(0, e));
    }
    if let Err(e) = validate_shunwei_ma(&ma.shen_1) {
        return Some(RuleError::ShunweiMa(1, e));
    }
    if let Err(e) = validate_shunwei_ma(&ma.shen_2) {
        return Some(RuleError::ShunweiMa(2, e));
    }
    if let Err(e) = validate_shunwei_ma(&ma.shen_3) {
        return Some(RuleError::ShunweiMa(3, e));
    }
    if let Err(e) = validate_shunwei_ma(&ma.shen_4) {
        return Some(RuleError::ShunweiMa(4, e));
    }
    None
}

fn check_hongbaopai(count: &HongbaopaiCount) -> (r: Option<RuleError>)
    ensures
        r == hongbaopai_error(*count),
{
    if count.wanzi > NUM_SAME_TILE {
        return Some(RuleError::HongbaopaiWanzi(count.wanzi));
    }
    if count.bingzi > NUM_SAME_TILE {
        return Some(RuleError::HongbaopaiBingzi(count.bingzi));
    }
    if count.suozi > NUM_SAME_TILE {
        return Some(RuleError::HongbaopaiSuozi(count.suozi));
    }
    None
}

fn check_exclusions(
    has_fuheyiman: bool,
    can_coexist_multiple_yiman_bao: MultipulYimanBao,
    angang_after_lizhi: AngangAfterLizhi,
    includes_fulupai_in_tingpai_check: bool,
    is_zhuangjia_qipai_14: bool,
    ignores_actual_zimopai_on_tianhu: bool,
) -> (r: Option<RuleError>)
    ensures
        r == exclusion_error(
            has_fuheyiman,
            can_coexist_multiple_yiman_bao,
            angang_after_lizhi,
            includes_fulupai_in_tingpai_check,
            is_zhuangjia_qipai_14,
            ignores_actual_zimopai_on_tianhu,
        ),
{
    if !has_fuheyiman && can_coexist_multiple_yiman_bao == MultipulYimanBao::Both {
        return Some(RuleError::MultipleYimanBaoWithoutFuheyiman);
    }
    if angang_after_lizhi == AngangAfterLizhi::AllowedIfNotChangingWaits
        && includes_fulupai_in_tingpai_check {
        return Some(RuleError::AngangAfterLizhiWithFulupai);
    }
    if is_zhuangjia_qipai_14 && !ignores_actual_zimopai_on_tianhu {
        return Some(RuleError::ZhuangjiaQipai14);
    }
    None
}

impl View for Rule {
    type V = RuleView;

    closed spec fn view(&self) -> RuleView {
        RuleView {
            num_player: self.num_player,
            changshu: self.changshu,
            starting_point: self.starting_point,
            min_win_point: self.min_win_point,
            fandian: self.fandian,
            tianbian: self.tianbian,
            lizhibang_point: self.lizhibang_point,
            changbang_point: self.changbang_point,
            noting_fafu_1: self.noting_fafu_1,
            noting_fafu_2: self.noting_fafu_2,
            noting_fafu_3: self.noting_fafu_3,
            shunwei_shen_ma: self.shunwei_shen_ma,
            has_qiu: self.has_qiu,
            allows_tied_rank: self.allows_tied_rank,
            can_lizhi_for_negative_point: self.can_lizhi_for_negative_point,
            lizhibang_at_liuju: self.lizhibang_at_liuju,
            has_shiduan: self.has_shiduan,
            hongbaopai_count: self.hongbaopai_count,
            can_jifei: self.can_jifei,
            fan_limit: self.fan_limit,
            has_qieshangmanguan: self.has_qieshangmanguan,
            has_toutiao: self.has_toutiao,
            zimo_scoring_3p: self.zimo_scoring_3p,
            has_biao_baopai: self.has_biao_baopai,
            has_li_baopai: self.has_li_baopai,
            has_gang_biao_baopai: self.has_gang_biao_baopai,
            ming_baopai_immediately_open: self.ming_baopai_immediately_open,
            has_gang_li_baopai: self.has_gang_li_baopai,
            has_babei_baopai: self.has_babei_baopai,
            has_helelianzhuang: self.has_helelianzhuang,
            tingpai_noting_lianzhuang: self.tingpai_noting_lianzhuang,
            has_helezhongju: self.has_helezhongju,
            has_tingpaizhongju: self.has_tingpaizhongju,
            multiple_rong_with_zhuangjia: self.multiple_rong_with_zhuangjia,
            sigangsanle: self.sigangsanle,
            sifenglianda: self.sifenglianda,
            sijializhi: self.sijializhi,
            jiuzhongjiupai: self.jiuzhongjiupai,
            sanjiahele: self.sanjiahele,
            has_leijiyiman: self.has_leijiyiman,
            has_shuangbeiyiman: self.has_shuangbeiyiman,
            has_fuheyiman: self.has_fuheyiman,
            has_angang_shisanyao: self.has_angang_shisanyao,
            renhe: self.renhe,
            bao_yiman: self.bao_yiman,
            can_coexist_multiple_yiman_bao: self.can_coexist_multiple_yiman_bao,
            has_bao_daminggang_lingshangkaihua: self.has_bao_daminggang_lingshangkaihua,
            has_liujumanguan: self.has_liujumanguan,
            has_yifa: self.has_yifa,
            extension_mode: self.extension_mode,
            shiti: self.shiti,
            nonzimo_lizhi: self.nonzimo_lizhi,
            is_lianfengpai_4_fu: self.is_lianfengpai_4_fu,
            is_lingshangkaihua_zimo_0_fu: self.is_lingshangkaihua_zimo_0_fu,
            includes_fulupai_in_tingpai_check: self.includes_fulupai_in_tingpai_check,
            angang_after_lizhi: self.angang_after_lizhi,
            can_noting_declaration: self.can_noting_declaration,
            is_bei_menfengpai: self.is_bei_menfengpai,
            is_zhuangjia_qipai_14: self.is_zhuangjia_qipai_14,
            ignores_actual_zimopai_on_tianhu: self.ignores_actual_zimopai_on_tianhu,
        }
    }
}

impl Rule {
    #[verifier::type_invariant]
    spec fn valid(self) -> bool {
        rule_error(self@) is None
    }

    /// Number of players.
    #[must_use]
    pub fn num_player(&self) -> (r: &NumPlayer)
        ensures
            *r == self@.num_player,
            rule_error(self@) is None,
    {
        proof {
            use_type_invariant(self);
        }
        &self.num_player
    }

    /// Length of the game in rounds.
    #[must_use]
    pub fn changshu(&self) -> (r: &Changshu)
        ensures
            *r == self@.changshu,
            rule_error(self@) is None,
    {
        proof {
            use_type_invariant(self);
        }
        &self.changshu
    }

    /// Points that each player starts with.
    #[must_use]
    pub fn starting_point(&self) -> (r: &Point)
        ensures
            *r == self@.starting_point,
            rule_error(self@) is None,
    {
        proof {
            use_type_invariant(self);
        }
        &self.starting_point
    }

    /// Points that the first place needs for the game to end.
    #[must_use]
    pub fn min_win_point(&self) -> (r: &Point)
        ensures
            *r == self@.min_win_point,
            rule_error(self@) is None,
    {
        proof {
            use_type_invariant(self);
        }
        &self.min_win_point
    }

    /// Points against which the final scores are settled.
    #[must_use]
    pub fn fandian(&self) -> (r: &Point)
        ensures
            *r == self@.fandian,
            rule_error(self@) is None,
    {
        proof {
            use_type_invariant(self);
        }
        &self.fandian
    }

    /// Points at which the game ends at once, if there is such a limit.
    #[must_use]
    pub fn tianbian(&self) -> (r: &Option<Point>)
        ensures
            *r == self@.tianbian,
            rule_error(self@) is None,
    {
        proof {
            use_type_invariant(self);
        }
        &self.tianbian
    }

    /// Points of a riichi bet.
    #[must_use]
    pub fn lizhibang_point(&self) -> (r: &Point)
        ensures
            *r == self@.lizhibang_point,
            rule_error(self@) is None,
    {
        proof {
            use_type_invariant(self);
        }
        &self.lizhibang_point
    }

    /// Points that each repeat counter adds to a win.
    #[must_use]
    pub fn changbang_point(&self) -> (r: &Point)
        ensures
            *r == self@.changbang_point,
            rule_error(self@) is None,
    {
        proof {
            use_type_invariant(self);
        }
        &self.changbang_point
    }

    /// Penalty for not being ready at a draw, with 1 player ready.
    #[must_use]
    pub fn noting_fafu_1(&self) -> (r: &Point)
        ensures
            *r == self@.noting_fafu_1,
            rule_error(self@) is None,
    {
        proof {
            use_type_invariant(self);
        }
        &self.noting_fafu_1
    }

    /// Penalty for not being ready at a draw, with 2 players ready.
    #[must_use]
    pub fn noting_fafu_2(&self) -> (r: &Point)
        ensures
            *r == self@.noting_fafu_2,
            rule_error(self@) is None,
    {
        proof {
            use_type_invariant(self);
        }
        &self.noting_fafu_2
    }

    /// Penalty for not being ready at a draw, with 3 players ready.
    #[must_use]
    pub fn noting_fafu_3(&self) -> (r: &Point)
        ensures
            *r == self@.noting_fafu_3,
            rule_error(self@) is None,
    {
        proof {
            use_type_invariant(self);
        }
        &self.noting_fafu_3
    }

    /// Order bonus, by the number of players below the goal.
    #[must_use]
    pub fn shunwei_shen_ma(&self) -> (r: &ShunweiShenMa)
        ensures
            *r == self@.shunwei_shen_ma,
            rule_error(self@) is None,
    {
        proof {
            use_type_invariant(self);
        }
        &self.shunwei_shen_ma
    }

    /// Whether the first place takes the difference between goal and start.
    #[must_use]
    pub fn has_qiu(&self) -> (r: &bool)
        ensures
            *r == self@.has_qiu,
            rule_error(self@) is None,
    {
        proof {
            use_type_invariant(self);
        }
        &self.has_qiu
    }

    /// Whether players with equal points share a rank.
    #[must_use]
    pub fn allows_tied_rank(&self) -> (r: &bool)
        ensures
            *r == self@.allows_tied_rank,
            rule_error(self@) is None,
    {
        proof {
            use_type_invariant(self);
        }
        &self.allows_tied_rank
    }

    /// Whether riichi may be declared with less than the bet.
    #[must_use]
    pub fn can_lizhi_for_negative_point(&self) -> (r: &bool)
        ensures
            *r == self@.can_lizhi_for_negative_point,
            rule_error(self@) is None,
    {
        proof {
            use_type_invariant(self);
        }
        &self.can_lizhi_for_negative_point
    }

    /// What becomes of riichi bets left when the game ends.
    #[must_use]
    pub fn lizhibang_at_liuju(&self) -> (r: &LizhibangAtLiuju)
        ensures
            *r == self@.lizhibang_at_liuju,
            rule_error(self@) is None,
    {
        proof {
            use_type_invariant(self);
        }
        &self.lizhibang_at_liuju
    }

    /// Whether all simples counts with an open hand.
    #[must_use]
    pub fn has_shiduan(&self) -> (r: &bool)
        ensures
            *r == self@.has_shiduan,
            rule_error(self@) is None,
    {
        proof {
            use_type_invariant(self);
        }
        &self.has_shiduan
    }

    /// Number of red fives of each suit.
    #[must_use]
    pub fn hongbaopai_count(&self) -> (r: &HongbaopaiCount)
        ensures
            *r == self@.hongbaopai_count,
            rule_error(self@) is None,
    {
        proof {
            use_type_invariant(self);
        }
        &self.hongbaopai_count
    }

    /// Whether the game ends when a player falls below zero.
    #[must_use]
    pub fn can_jifei(&self) -> (r: &bool)
        ensures
            *r == self@.can_jifei,
            rule_error(self@) is None,
    {
        proof {
            use_type_invariant(self);
        }
        &self.can_jifei
    }

    /// Least value that a winning hand needs.
    #[must_use]
    pub fn fan_limit(&self) -> (r: &FanLimit)
        ensures
            *r == self@.fan_limit,
            rule_error(self@) is None,
    {
        proof {
            use_type_invariant(self);
        }
        &self.fan_limit
    }

    /// Whether 4 fan 30 fu and 3 fan 60 fu are rounded up to mangan.
    #[must_use]
    pub fn has_qieshangmanguan(&self) -> (r: &bool)
        ensures
            *r == self@.has_qieshangmanguan,
            rule_error(self@) is None,
    {
        proof {
            use_type_invariant(self);
        }
        &self.has_qieshangmanguan
    }

    /// Whether only the first player in turn wins on one discard.
    #[must_use]
    pub fn has_toutiao(&self) -> (r: &bool)
        ensures
            *r == self@.has_toutiao,
            rule_error(self@) is None,
    {
        proof {
            use_type_invariant(self);
        }
        &self.has_toutiao
    }

    /// How a self-drawn win is paid with 3 players.
    #[must_use]
    pub fn zimo_scoring_3p(&self) -> (r: &ZimoScoring3P)
        ensures
            *r == self@.zimo_scoring_3p,
            rule_error(self@) is None,
    {
        proof {
            use_type_invariant(self);
        }
        &self.zimo_scoring_3p
    }

    /// Whether there is a dora.
    #[must_use]
    pub fn has_biao_baopai(&self) -> (r: &bool)
        ensures
            *r == self@.has_biao_baopai,
            rule_error(self@) is None,
    {
        proof {
            use_type_invariant(self);
        }
        &self.has_biao_baopai
    }

    /// Whether there are ura dora.
    #[must_use]
    pub fn has_li_baopai(&self) -> (r: &bool)
        ensures
            *r == self@.has_li_baopai,
            rule_error(self@) is None,
    {
        proof {
            use_type_invariant(self);
        }
        &self.has_li_baopai
    }

    /// Whether a quad reveals a further dora.
    #[must_use]
    pub fn has_gang_biao_baopai(&self) -> (r: &bool)
        ensures
            *r == self@.has_gang_biao_baopai,
            rule_error(self@) is None,
    {
        proof {
            use_type_invariant(self);
        }
        &self.has_gang_biao_baopai
    }

    /// Whether an open quad reveals its dora at once.
    #[must_use]
    pub fn ming_baopai_immediately_open(&self) -> (r: &bool)
        ensures
            *r == self@.ming_baopai_immediately_open,
            rule_error(self@) is None,
    {
        proof {
            use_type_invariant(self);
        }
        &self.ming_baopai_immediately_open
    }

    /// Whether a quad adds a further ura dora.
    #[must_use]
    pub fn has_gang_li_baopai(&self) -> (r: &bool)
        ensures
            *r == self@.has_gang_li_baopai,
            rule_error(self@) is None,
    {
        proof {
            use_type_invariant(self);
        }
        &self.has_gang_li_baopai
    }

    /// Whether a north set aside counts as dora.
    #[must_use]
    pub fn has_babei_baopai(&self) -> (r: &bool)
        ensures
            *r == self@.has_babei_baopai,
            rule_error(self@) is None,
    {
        proof {
            use_type_invariant(self);
        }
        &self.has_babei_baopai
    }

    /// Whether the dealer stays after winning.
    #[must_use]
    pub fn has_helelianzhuang(&self) -> (r: &bool)
        ensures
            *r == self@.has_helelianzhuang,
            rule_error(self@) is None,
    {
        proof {
            use_type_invariant(self);
        }
        &self.has_helelianzhuang
    }

    /// Whether the dealer stays at a draw.
    #[must_use]
    pub fn tingpai_noting_lianzhuang(&self) -> (r: &TingpaiNotingLianzhuang)
        ensures
            *r == self@.tingpai_noting_lianzhuang,
            rule_error(self@) is None,
    {
        proof {
            use_type_invariant(self);
        }
        &self.tingpai_noting_lianzhuang
    }

    /// Whether a leading dealer who wins the last hand ends the game.
    #[must_use]
    pub fn has_helezhongju(&self) -> (r: &bool)
        ensures
            *r == self@.has_helezhongju,
            rule_error(self@) is None,
    {
        proof {
            use_type_invariant(self);
        }
        &self.has_helezhongju
    }

    /// Whether a leading dealer who is ready at the last draw ends the game.
    #[must_use]
    pub fn has_tingpaizhongju(&self) -> (r: &bool)
        ensures
            *r == self@.has_tingpaizhongju,
            rule_error(self@) is None,
    {
        proof {
            use_type_invariant(self);
        }
        &self.has_tingpaizhongju
    }

    /// Whether the dealer stays when he is one of several winners.
    #[must_use]
    pub fn multiple_rong_with_zhuangjia(&self) -> (r: &MultipleRongWithZhuangjia)
        ensures
            *r == self@.multiple_rong_with_zhuangjia,
            rule_error(self@) is None,
    {
        proof {
            use_type_invariant(self);
        }
        &self.multiple_rong_with_zhuangjia
    }

    /// What four quads by different players do.
    #[must_use]
    pub fn sigangsanle(&self) -> (r: &Tuzhongliuju)
        ensures
            *r == self@.sigangsanle,
            rule_error(self@) is None,
    {
        proof {
            use_type_invariant(self);
        }
        &self.sigangsanle
    }

    /// What four discards of one wind in the first turn do.
    #[must_use]
    pub fn sifenglianda(&self) -> (r: &Tuzhongliuju)
        ensures
            *r == self@.sifenglianda,
            rule_error(self@) is None,
    {
        proof {
            use_type_invariant(self);
        }
        &self.sifenglianda
    }

    /// What four riichi declarations do.
    #[must_use]
    pub fn sijializhi(&self) -> (r: &Tuzhongliuju)
        ensures
            *r == self@.sijializhi,
            rule_error(self@) is None,
    {
        proof {
            use_type_invariant(self);
        }
        &self.sijializhi
    }

    /// What nine kinds of terminals and honors in the first hand may do.
    #[must_use]
    pub fn jiuzhongjiupai(&self) -> (r: &Tuzhongliuju)
        ensures
            *r == self@.jiuzhongjiupai,
            rule_error(self@) is None,
    {
        proof {
            use_type_invariant(self);
        }
        &self.jiuzhongjiupai
    }

    /// What three winners on one discard do.
    #[must_use]
    pub fn sanjiahele(&self) -> (r: &Tuzhongliuju)
        ensures
            *r == self@.sanjiahele,
            rule_error(self@) is None,
    {
        proof {
            use_type_invariant(self);
        }
        &self.sanjiahele
    }

    /// Whether 13 fan and more count as yakuman.
    #[must_use]
    pub fn has_leijiyiman(&self) -> (r: &bool)
        ensures
            *r == self@.has_leijiyiman,
            rule_error(self@) is None,
    {
        proof {
            use_type_invariant(self);
        }
        &self.has_leijiyiman
    }

    /// Whether some hands count as double yakuman.
    #[must_use]
    pub fn has_shuangbeiyiman(&self) -> (r: &bool)
        ensures
            *r == self@.has_shuangbeiyiman,
            rule_error(self@) is None,
    {
        proof {
            use_type_invariant(self);
        }
        &self.has_shuangbeiyiman
    }

    /// Whether several yakuman in one hand add up.
    #[must_use]
    pub fn has_fuheyiman(&self) -> (r: &bool)
        ensures
            *r == self@.has_fuheyiman,
            rule_error(self@) is None,
    {
        proof {
            use_type_invariant(self);
        }
        &self.has_fuheyiman
    }

    /// Whether thirteen orphans may win on a concealed quad.
    #[must_use]
    pub fn has_angang_shisanyao(&self) -> (r: &bool)
        ensures
            *r == self@.has_angang_shisanyao,
            rule_error(self@) is None,
    {
        proof {
            use_type_invariant(self);
        }
        &self.has_angang_shisanyao
    }

    /// What a win on a discard in the first turn is worth.
    #[must_use]
    pub fn renhe(&self) -> (r: &Renhe)
        ensures
            *r == self@.renhe,
            rule_error(self@) is None,
    {
        proof {
            use_type_invariant(self);
        }
        &self.renhe
    }

    /// For which yakuman the player who fed the last meld pays.
    #[must_use]
    pub fn bao_yiman(&self) -> (r: &BaoYiman)
        ensures
            *r == self@.bao_yiman,
            rule_error(self@) is None,
    {
        proof {
            use_type_invariant(self);
        }
        &self.bao_yiman
    }

    /// For which of them he pays when a hand has both.
    #[must_use]
    pub fn can_coexist_multiple_yiman_bao(&self) -> (r: &MultipulYimanBao)
        ensures
            *r == self@.can_coexist_multiple_yiman_bao,
            rule_error(self@) is None,
    {
        proof {
            use_type_invariant(self);
        }
        &self.can_coexist_multiple_yiman_bao
    }

    /// Whether the discarder pays for a win after his tile was taken for an open quad.
    #[must_use]
    pub fn has_bao_daminggang_lingshangkaihua(&self) -> (r: &bool)
        ensures
            *r == self@.has_bao_daminggang_lingshangkaihua,
            rule_error(self@) is None,
    {
        proof {
            use_type_invariant(self);
        }
        &self.has_bao_daminggang_lingshangkaihua
    }

    /// Whether discards of terminals and honors only win at a draw.
    #[must_use]
    pub fn has_liujumanguan(&self) -> (r: &bool)
        ensures
            *r == self@.has_liujumanguan,
            rule_error(self@) is None,
    {
        proof {
            use_type_invariant(self);
        }
        &self.has_liujumanguan
    }

    /// Whether a win within one turn of riichi counts.
    #[must_use]
    pub fn has_yifa(&self) -> (r: &bool)
        ensures
            *r == self@.has_yifa,
            rule_error(self@) is None,
    {
        proof {
            use_type_invariant(self);
        }
        &self.has_yifa
    }

    /// How the game goes on when nobody has reached the points to win.
    #[must_use]
    pub fn extension_mode(&self) -> (r: &ExtensionMode)
        ensures
            *r == self@.extension_mode,
            rule_error(self@) is None,
    {
        proof {
            use_type_invariant(self);
        }
        &self.extension_mode
    }

    /// Whether a claimed tile may be swapped for a discard of the same run.
    #[must_use]
    pub fn shiti(&self) -> (r: &Shiti)
        ensures
            *r == self@.shiti,
            rule_error(self@) is None,
    {
        proof {
            use_type_invariant(self);
        }
        &self.shiti
    }

    /// Whether riichi may be declared with no draw left.
    #[must_use]
    pub fn nonzimo_lizhi(&self) -> (r: &NonzimoLizhi)
        ensures
            *r == self@.nonzimo_lizhi,
            rule_error(self@) is None,
    {
        proof {
            use_type_invariant(self);
        }
        &self.nonzimo_lizhi
    }

    /// Whether a pair of the double wind is worth 4 fu.
    #[must_use]
    pub fn is_lianfengpai_4_fu(&self) -> (r: &bool)
        ensures
            *r == self@.is_lianfengpai_4_fu,
            rule_error(self@) is None,
    {
        proof {
            use_type_invariant(self);
        }
        &self.is_lianfengpai_4_fu
    }

    /// Whether a win after a quad forgoes the fu of a self-drawn win.
    #[must_use]
    pub fn is_lingshangkaihua_zimo_0_fu(&self) -> (r: &bool)
        ensures
            *r == self@.is_lingshangkaihua_zimo_0_fu,
            rule_error(self@) is None,
    {
        proof {
            use_type_invariant(self);
        }
        &self.is_lingshangkaihua_zimo_0_fu
    }

    /// Whether the tiles of melds count when readiness is tested.
    #[must_use]
    pub fn includes_fulupai_in_tingpai_check(&self) -> (r: &bool)
        ensures
            *r == self@.includes_fulupai_in_tingpai_check,
            rule_error(self@) is None,
    {
        proof {
            use_type_invariant(self);
        }
        &self.includes_fulupai_in_tingpai_check
    }

    /// Which concealed quads are allowed after riichi.
    #[must_use]
    pub fn angang_after_lizhi(&self) -> (r: &AngangAfterLizhi)
        ensures
            *r == self@.angang_after_lizhi,
            rule_error(self@) is None,
    {
        proof {
            use_type_invariant(self);
        }
        &self.angang_after_lizhi
    }

    /// Whether a ready player may declare himself not ready.
    #[must_use]
    pub fn can_noting_declaration(&self) -> (r: &bool)
        ensures
            *r == self@.can_noting_declaration,
            rule_error(self@) is None,
    {
        proof {
            use_type_invariant(self);
        }
        &self.can_noting_declaration
    }

    /// Whether north is a seat wind of everyone with 3 players.
    #[must_use]
    pub fn is_bei_menfengpai(&self) -> (r: &bool)
        ensures
            *r == self@.is_bei_menfengpai,
            rule_error(self@) is None,
    {
        proof {
            use_type_invariant(self);
        }
        &self.is_bei_menfengpai
    }

    /// Whether the dealer is dealt 14 tiles.
    #[must_use]
    pub fn is_zhuangjia_qipai_14(&self) -> (r: &bool)
        ensures
            *r == self@.is_zhuangjia_qipai_14,
            rule_error(self@) is None,
    {
        proof {
            use_type_invariant(self);
        }
        &self.is_zhuangjia_qipai_14
    }

    /// Whether a win on the deal takes the best tile as the drawn one.
    #[must_use]
    pub fn ignores_actual_zimopai_on_tianhu(&self) -> (r: &bool)
        ensures
            *r == self@.ignores_actual_zimopai_on_tianhu,
            rule_error(self@) is None,
    {
        proof {
            use_type_invariant(self);
        }
        &self.ignores_actual_zimopai_on_tianhu
    }

    /// Makes the rules of a game from its settings, which must be without
    /// fault.
    #[must_use]
    pub fn new(
        num_player: NumPlayer,
        changshu: Changshu,
        starting_point: Point,
        min_win_point: Point,
        fandian: Point,
        tianbian: Option<Point>,
        lizhibang_point: Point,
        changbang_point: Point,
        noting_fafu_1: Point,
        noting_fafu_2: Point,
        noting_fafu_3: Point,
        shunwei_shen_ma: ShunweiShenMa,
        has_qiu: bool,
        allows_tied_rank: bool,
        can_lizhi_for_negative_point: bool,
        lizhibang_at_liuju: LizhibangAtLiuju,
        has_shiduan: bool,
        hongbaopai_count: HongbaopaiCount,
        can_jifei: bool,
        fan_limit: FanLimit,
        has_qieshangmanguan: bool,
        has_toutiao: bool,
        zimo_scoring_3p: ZimoScoring3P,
        has_biao_baopai: bool,
        has_li_baopai: bool,
        has_gang_biao_baopai: bool,
        ming_baopai_immediately_open: bool,
        has_gang_li_baopai: bool,
        has_babei_baopai: bool,
        has_helelianzhuang: bool,
        tingpai_noting_lianzhuang: TingpaiNotingLianzhuang,
        has_helezhongju: bool,
        has_tingpaizhongju: bool,
        multiple_rong_with_zhuangjia: MultipleRongWithZhuangjia,
        sigangsanle: Tuzhongliuju,
        sifenglianda: Tuzhongliuju,
        sijializhi: Tuzhongliuju,
        jiuzhongjiupai: Tuzhongliuju,
        sanjiahele: Tuzhongliuju,
        has_leijiyiman: bool,
        has_shuangbeiyiman: bool,
        has_fuheyiman: bool,
        has_angang_shisanyao: bool,
        renhe: Renhe,
        bao_yiman: BaoYiman,
        can_coexist_multiple_yiman_bao: MultipulYimanBao,
        has_bao_daminggang_lingshangkaihua: bool,
        has_liujumanguan: bool,
        has_yifa: bool,
        extension_mode: ExtensionMode,
        shiti: Shiti,
        nonzimo_lizhi: NonzimoLizhi,
        is_lianfengpai_4_fu: bool,
        is_lingshangkaihua_zimo_0_fu: bool,
        includes_fulupai_in_tingpai_check: bool,
        angang_after_lizhi: AngangAfterLizhi,
        can_noting_declaration: bool,
        is_bei_menfengpai: bool,
        is_zhuangjia_qipai_14: bool,
        ignores_actual_zimopai_on_tianhu: bool,
    ) -> (r: Result<Self, RuleError>)
        ensures
            match rule_error(
                (RuleView {
                num_player,
                changshu,
                starting_point,
                min_win_point,
                fandian,
                tianbian,
                lizhibang_point,
                changbang_point,
                noting_fafu_1,
                noting_fafu_2,
                noting_fafu_3,
                shunwei_shen_ma,
                has_qiu,
                allows_tied_rank,
                can_lizhi_for_negative_point,
                lizhibang_at_liuju,
                has_shiduan,
                hongbaopai_count,
                can_jifei,
                fan_limit,
                has_qieshangmanguan,
                has_toutiao,
                zimo_scoring_3p,
                has_biao_baopai,
                has_li_baopai,
                has_gang_biao_baopai,
                ming_baopai_immediately_open,
                has_gang_li_baopai,
                has_babei_baopai,
                has_helelianzhuang,
                tingpai_noting_lianzhuang,
                has_helezhongju,
                has_tingpaizhongju,
                multiple_rong_with_zhuangjia,
                sigangsanle,
                sifenglianda,
                sijializhi,
                jiuzhongjiupai,
                sanjiahele,
                has_leijiyiman,
                has_shuangbeiyiman,
                has_fuheyiman,
                has_angang_shisanyao,
                renhe,
                bao_yiman,
                can_coexist_multiple_yiman_bao,
                has_bao_daminggang_lingshangkaihua,
                has_liujumanguan,
                has_yifa,
                extension_mode,
                shiti,
                nonzimo_lizhi,
                is_lianfengpai_4_fu,
                is_lingshangkaihua_zimo_0_fu,
                includes_fulupai_in_tingpai_check,
                angang_after_lizhi,
                can_noting_declaration,
                is_bei_menfengpai,
                is_zhuangjia_qipai_14,
                ignores_actual_zimopai_on_tianhu,
            }),
            ) {
                Some(e) => r == Err::<Self, RuleError>(e),
                None => r matches Ok(rule) && rule@ == (RuleView {
                num_player,
                changshu,
                starting_point,
                min_win_point,
                fandian,
                tianbian,
                lizhibang_point,
                changbang_point,
                noting_fafu_1,
                noting_fafu_2,
                noting_fafu_3,
                shunwei_shen_ma,
                has_qiu,
                allows_tied_rank,
                can_lizhi_for_negative_point,
                lizhibang_at_liuju,
                has_shiduan,
                hongbaopai_count,
                can_jifei,
                fan_limit,
                has_qieshangmanguan,
                has_toutiao,
                zimo_scoring_3p,
                has_biao_baopai,
                has_li_baopai,
                has_gang_biao_baopai,
                ming_baopai_immediately_open,
                has_gang_li_baopai,
                has_babei_baopai,
                has_helelianzhuang,
                tingpai_noting_lianzhuang,
                has_helezhongju,
                has_tingpaizhongju,
                multiple_rong_with_zhuangjia,
                sigangsanle,
                sifenglianda,
                sijializhi,
                jiuzhongjiupai,
                sanjiahele,
                has_leijiyiman,
                has_shuangbeiyiman,
                has_fuheyiman,
                has_angang_shisanyao,
                renhe,
                bao_yiman,
                can_coexist_multiple_yiman_bao,
                has_bao_daminggang_lingshangkaihua,
                has_liujumanguan,
                has_yifa,
                extension_mode,
                shiti,
                nonzimo_lizhi,
                is_lianfengpai_4_fu,
                is_lingshangkaihua_zimo_0_fu,
                includes_fulupai_in_tingpai_check,
                angang_after_lizhi,
                can_noting_declaration,
                is_bei_menfengpai,
                is_zhuangjia_qipai_14,
                ignores_actual_zimopai_on_tianhu,
            }),
            },
    {
        if let Some(e) = check_points(
            starting_point,
            min_win_point,
            fandian,
            tianbian,
            lizhibang_point,
            changbang_point,
            noting_fafu_1,
            noting_fafu_2,
            noting_fafu_3,
        ) {
            return Err(e);
        }
        if let Some(e) = check_shunwei_shen_ma(&shunwei_shen_ma) {
            return Err(e);
        }
        if let Some(e) = check_hongbaopai(&hongbaopai_count) {
            return Err(e);
        }
        if let Some(e) = check_exclusions(
            has_fuheyiman,
            can_coexist_multiple_yiman_bao,
            angang_after_lizhi,
            includes_fulupai_in_tingpai_check,
            is_zhuangjia_qipai_14,
            ignores_actual_zimopai_on_tianhu,
        ) {
            return Err(e);
        }

        Ok(
            Self {
                num_player,
                changshu,
                starting_point,
                min_win_point,
                fandian,
                tianbian,
                lizhibang_point,
                changbang_point,
                noting_fafu_1,
                noting_fafu_2,
                noting_fafu_3,
                shunwei_shen_ma,
                has_qiu,
                allows_tied_rank,
                can_lizhi_for_negative_point,
                lizhibang_at_liuju,
                has_shiduan,
                hongbaopai_count,
                can_jifei,
                fan_limit,
                has_qieshangmanguan,
                has_toutiao,
                zimo_scoring_3p,
                has_biao_baopai,
                has_li_baopai,
                has_gang_biao_baopai,
                ming_baopai_immediately_open,
                has_gang_li_baopai,
                has_babei_baopai,
                has_helelianzhuang,
                tingpai_noting_lianzhuang,
                has_helezhongju,
                has_tingpaizhongju,
                multiple_rong_with_zhuangjia,
                sigangsanle,
                sifenglianda,
                sijializhi,
                jiuzhongjiupai,
                sanjiahele,
                has_leijiyiman,
                has_shuangbeiyiman,
                has_fuheyiman,
                has_angang_shisanyao,
                renhe,
                bao_yiman,
                can_coexist_multiple_yiman_bao,
                has_bao_daminggang_lingshangkaihua,
                has_liujumanguan,
                has_yifa,
                extension_mode,
                shiti,
                nonzimo_lizhi,
                is_lianfengpai_4_fu,
                is_lingshangkaihua_zimo_0_fu,
                includes_fulupai_in_tingpai_check,
                angang_after_lizhi,
                can_noting_declaration,
                is_bei_menfengpai,
                is_zhuangjia_qipai_14,
                ignores_actual_zimopai_on_tianhu,
            },
        )
    }
}

} // verus!
