//! The sRGB transfer curve on 8-bit channel values, in whole numbers.
//!
//! Linear light is held in units of 10^-14. The curve itself has irrational
//! values; what the table holds for each channel value is stated exactly, as
//! the least whole number of units that is not below the curve.

use crate::plane::{round_div, Point};
use vstd::prelude::*;

verus! {

/// Linear light 1.0, in units.
pub const LINEAR_ONE: u64 = 100_000_000_000_000;

/// For each channel value, its linear light in units, rounded up.
pub const LEVELS: [u64; 256] = [
    0, 30352698355, 60705396710, 91058095065,
    121410793420, 151763491775, 182116190130, 212468888485,
    242821586840, 273174285194, 303526983549, 334653576390,
    367650732405, 402471701850, 439144203742, 477695348070,
    518151670234, 560539162421, 604883302286, 651209079260,
    699541018727, 749903204323, 802319298539, 856812561807,
    913405870223, 972121732024, 1032982302963, 1096009400649,
    1161224517975, 1228648835692, 1298303234218, 1370208304729,
    1444384359610, 1520851442292, 1599629336551, 1680737575289,
    1764195448839, 1850022012838, 1938236095694, 2028856305666,
    2121901037601, 2217388479339, 2315336617812, 2415763244851,
    2518685962737, 2624122189485, 2732089163908, 2842603950443,
    2955683443781, 3071344373300, 3189603307302, 3310476657089,
    3433980680869, 3560131487503, 3688945040111, 3820437159535,
    3954623527674, 4091519690686, 4231141062081, 4373502925698,
    4518620438568, 4666508633689, 4817182422689, 4970656598413,
    5126945837405, 5286064702319, 5448027644245, 5612849004961,
    5780543019107, 5951123816299, 6124605423162, 6301001765317,
    6480326669291, 6662593864378, 6847816984441, 7036009569660,
    7227185068232, 7421356838015, 7618538148131, 7818742180519,
    8021982031447, 8228270712982, 8437621154415, 8650046203655,
    8865558628578, 9084171118341, 9305896284669, 9530746663097,
    9758734714187, 9989872824712, 10224173308811, 10461648409111,
    10702310297827, 10946171077830, 11193242783691, 11443537382698,
    11697066775852, 11953842798835, 12213877222961, 12477181756096,
    12743768043565, 13013647669037, 13286832155382, 13563332965521,
    13843161503246, 14126329114028, 14412847085806, 14702726649760,
    14995978981061, 15292615199616, 15592646370783, 15896083506089,
    16202937563912, 16513219450167, 16826940018970, 17144110073283,
    17464740365559, 17788841598363, 18116424424987, 18447499450045,
    18782077230068, 19120168274080, 19461783044158, 19806931955995,
    20155625379440, 20507873639032, 20863687014526, 21223075741406,
    21586050011390, 21952619972927, 22322795731681, 22696587351010,
    23074004852435, 23455058216101, 23839757381228, 24228112246556,
    24620132670784, 25015828472996, 25415209433083, 25818285292160,
    26225065752970, 26635560480287, 27049779101307, 27467731206039,
    27889426347682, 28314874043000, 28744083772692, 29177064981754,
    29613827079833, 30054379441578, 30498731406989, 30946892281751,
    31398871337572, 31854677812510, 32314320911296, 32777809805655,
    33245153634618, 33716361504834, 34191442490867, 34670405635503,
    35153259950044, 35640014414595, 36130677978351, 36625259559884,
    37123768047415, 37626212299091, 38132601143253, 38642943378705,
    39157247774973, 39675523072563, 40197777983220, 40724021190174,
    41254261348391, 41788507084814, 42326766998608, 42869049661391,
    43415363617475, 43965717384092, 44520119451623, 45078578283823,
    45641102318041, 46207699965441, 46778379611216, 47353149614801,
    47932018310083, 48514994005608, 49102084984784, 49693299506088,
    50288645803257, 50888132085494, 51491766537653, 52099557320436,
    52711512570582, 53327640401051, 53947948901211, 54572446137019,
    55201140151200, 55834038963427, 56471150570493, 57112482946488,
    57758044042966, 58407841789117, 59061884091934, 59720178836377,
    60382733885534, 61049557080787, 61720656241966, 62396039167508,
    63075713634615, 63759687399404, 64447968197059, 65140563741983,
    65837481727945, 66538729828228, 67244315695769, 67954246963310,
    68668531243532, 69387176129199, 70110189193298, 70837577989169,
    71569350050649, 72305512892197, 73046074009036, 73791040877274,
    74540420954039, 75294221677608, 76052450467530, 76815114724751,
    77582221831743, 78353779152620, 79129794033264, 79910273801441,
    80695225766926, 81484657221611, 82278575439629, 83076987677466,
    83879901174074, 84687323150986, 85499260812424, 86315721345411,
    87136711919880, 87962239688784, 88792311788197, 89626935337427,
    90466117439115, 91309865179342, 92158185627730, 93011085837543,
    93868572845789, 94730653673320, 95597335324929, 96468624789447,
    97344529039842, 98225055033312, 99110209711383, 100000000000000,
];

/// The fifth power.
pub open spec fn pow5(v: int) -> int {
    v * v * v * v * v
}

/// The twelfth power.
pub open spec fn pow12(v: int) -> int {
    let v2 = v * v;
    let v4 = v2 * v2;
    v4 * v4 * v4
}

/// The linear light of the channel value `k` is at most `n` units.
///
/// With `c = k / 255`, the linear light is `c / 12.92` up to `c = 0.04045`, which
/// is `5 k / 16473`, and `((c + 0.055) / 1.055)^2.4` above, which is
/// `((40 k + 561) / 10761)^(12/5)`; the channel values up to 10 are on the first
/// branch. Both comparisons are cleared of fractions and roots.
pub open spec fn linear_light_le(k: int, n: int) -> bool {
    if k <= 10 {
        500_000_000_000_000 * k <= 16473 * n
    } else {
        n >= 0 && pow5(100_000_000_000_000) * pow12(40 * k + 561) <= pow5(n) * pow12(10761)
    }
}

/// `v` is the least whole number of units that the linear light of the channel
/// value `k` does not exceed.
pub open spec fn is_linear_ceiling(k: int, v: int) -> bool {
    linear_light_le(k, v) && !linear_light_le(k, v - 1)
}

/// The table's entry for the channel value `k`.
pub open spec fn linear_level(k: int) -> int {
    LEVELS[k] as int
}

/// The entries for the channel values from 0 to 31, each checked against the
/// curve.
proof fn lemma_levels_from_0()
    ensures
        forall|k: int| 0 <= k < 32 ==> is_linear_ceiling(k, #[trigger] linear_level(k)),
        forall|k: int| 0 <= k < 32 ==> #[trigger] linear_level(k) < linear_level(k + 1),
{
    assert(is_linear_ceiling(0, 0)
        && is_linear_ceiling(1, 30352698355)
        && is_linear_ceiling(2, 60705396710)
        && is_linear_ceiling(3, 91058095065)
        && is_linear_ceiling(4, 121410793420)
        && is_linear_ceiling(5, 151763491775)
        && is_linear_ceiling(6, 182116190130)
        && is_linear_ceiling(7, 212468888485)) by (nonlinear_arith);
    assert(is_linear_ceiling(8, 242821586840)
        && is_linear_ceiling(9, 273174285194)
        && is_linear_ceiling(10, 303526983549)
        && is_linear_ceiling(11, 334653576390)
        && is_linear_ceiling(12, 367650732405)
        && is_linear_ceiling(13, 402471701850)
        && is_linear_ceiling(14, 439144203742)
        && is_linear_ceiling(15, 477695348070)) by (nonlinear_arith);
    assert(is_linear_ceiling(16, 518151670234)
        && is_linear_ceiling(17, 560539162421)
        && is_linear_ceiling(18, 604883302286)
        && is_linear_ceiling(19, 651209079260)
        && is_linear_ceiling(20, 699541018727)
        && is_linear_ceiling(21, 749903204323)
        && is_linear_ceiling(22, 802319298539)
        && is_linear_ceiling(23, 856812561807)) by (nonlinear_arith);
    assert(is_linear_ceiling(24, 913405870223)
        && is_linear_ceiling(25, 972121732024)
        && is_linear_ceiling(26, 1032982302963)
        && is_linear_ceiling(27, 1096009400649)
        && is_linear_ceiling(28, 1161224517975)
        && is_linear_ceiling(29, 1228648835692)
        && is_linear_ceiling(30, 1298303234218)
        && is_linear_ceiling(31, 1370208304729)) by (nonlinear_arith);
    assert(linear_level(0) == 0);
    assert(linear_level(1) == 30352698355);
    assert(linear_level(2) == 60705396710);
    assert(linear_level(3) == 91058095065);
    assert(linear_level(4) == 121410793420);
    assert(linear_level(5) == 151763491775);
    assert(linear_level(6) == 182116190130);
    assert(linear_level(7) == 212468888485);
    assert(linear_level(8) == 242821586840);
    assert(linear_level(9) == 273174285194);
    assert(linear_level(10) == 303526983549);
    assert(linear_level(11) == 334653576390);
    assert(linear_level(12) == 367650732405);
    assert(linear_level(13) == 402471701850);
    assert(linear_level(14) == 439144203742);
    assert(linear_level(15) == 477695348070);
    assert(linear_level(16) == 518151670234);
    assert(linear_level(17) == 560539162421);
    assert(linear_level(18) == 604883302286);
    assert(linear_level(19) == 651209079260);
    assert(linear_level(20) == 699541018727);
    assert(linear_level(21) == 749903204323);
    assert(linear_level(22) == 802319298539);
    assert(linear_level(23) == 856812561807);
    assert(linear_level(24) == 913405870223);
    assert(linear_level(25) == 972121732024);
    assert(linear_level(26) == 1032982302963);
    assert(linear_level(27) == 1096009400649);
    assert(linear_level(28) == 1161224517975);
    assert(linear_level(29) == 1228648835692);
    assert(linear_level(30) == 1298303234218);
    assert(linear_level(31) == 1370208304729);
    assert(linear_level(32) == 1444384359610);
}

/// The entries for the channel values from 32 to 63, each checked against the
/// curve.
proof fn lemma_levels_from_32()
    ensures
        forall|k: int| 32 <= k < 64 ==> is_linear_ceiling(k, #[trigger] linear_level(k)),
        forall|k: int| 32 <= k < 64 ==> #[trigger] linear_level(k) < linear_level(k + 1),
{
    assert(is_linear_ceiling(32, 1444384359610)
        && is_linear_ceiling(33, 1520851442292)
        && is_linear_ceiling(34, 1599629336551)
        && is_linear_ceiling(35, 1680737575289)
        && is_linear_ceiling(36, 1764195448839)
        && is_linear_ceiling(37, 1850022012838)
        && is_linear_ceiling(38, 1938236095694)
        && is_linear_ceiling(39, 2028856305666)) by (nonlinear_arith);
    assert(is_linear_ceiling(40, 2121901037601)
        && is_linear_ceiling(41, 2217388479339)
        && is_linear_ceiling(42, 2315336617812)
        && is_linear_ceiling(43, 2415763244851)
        && is_linear_ceiling(44, 2518685962737)
        && is_linear_ceiling(45, 2624122189485)
        && is_linear_ceiling(46, 2732089163908)
        && is_linear_ceiling(47, 2842603950443)) by (nonlinear_arith);
    assert(is_linear_ceiling(48, 2955683443781)
        && is_linear_ceiling(49, 3071344373300)
        && is_linear_ceiling(50, 3189603307302)
        && is_linear_ceiling(51, 3310476657089)
        && is_linear_ceiling(52, 3433980680869)
        && is_linear_ceiling(53, 3560131487503)
        && is_linear_ceiling(54, 3688945040111)
        && is_linear_ceiling(55, 3820437159535)) by (nonlinear_arith);
    assert(is_linear_ceiling(56, 3954623527674)
        && is_linear_ceiling(57, 4091519690686)
        && is_linear_ceiling(58, 4231141062081)
        && is_linear_ceiling(59, 4373502925698)
        && is_linear_ceiling(60, 4518620438568)
        && is_linear_ceiling(61, 4666508633689)
        && is_linear_ceiling(62, 4817182422689)
        && is_linear_ceiling(63, 4970656598413)) by (nonlinear_arith);
    assert(linear_level(32) == 1444384359610);
    assert(linear_level(33) == 1520851442292);
    assert(linear_level(34) == 1599629336551);
    assert(linear_level(35) == 1680737575289);
    assert(linear_level(36) == 1764195448839);
    assert(linear_level(37) == 1850022012838);
    assert(linear_level(38) == 1938236095694);
    assert(linear_level(39) == 2028856305666);
    assert(linear_level(40) == 2121901037601);
    assert(linear_level(41) == 2217388479339);
    assert(linear_level(42) == 2315336617812);
    assert(linear_level(43) == 2415763244851);
    assert(linear_level(44) == 2518685962737);
    assert(linear_level(45) == 2624122189485);
    assert(linear_level(46) == 2732089163908);
    assert(linear_level(47) == 2842603950443);
    assert(linear_level(48) == 2955683443781);
    assert(linear_level(49) == 3071344373300);
    assert(linear_level(50) == 3189603307302);
    assert(linear_level(51) == 3310476657089);
    assert(linear_level(52) == 3433980680869);
    assert(linear_level(53) == 3560131487503);
    assert(linear_level(54) == 3688945040111);
    assert(linear_level(55) == 3820437159535);
    assert(linear_level(56) == 3954623527674);
    assert(linear_level(57) == 4091519690686);
    assert(linear_level(58) == 4231141062081);
    assert(linear_level(59) == 4373502925698);
    assert(linear_level(60) == 4518620438568);
    assert(linear_level(61) == 4666508633689);
    assert(linear_level(62) == 4817182422689);
    assert(linear_level(63) == 4970656598413);
    assert(linear_level(64) == 5126945837405);
}

/// The entries for the channel values from 64 to 95, each checked against the
/// curve.
proof fn lemma_levels_from_64()
    ensures
        forall|k: int| 64 <= k < 96 ==> is_linear_ceiling(k, #[trigger] linear_level(k)),
        forall|k: int| 64 <= k < 96 ==> #[trigger] linear_level(k) < linear_level(k + 1),
{
    assert(is_linear_ceiling(64, 5126945837405)
        && is_linear_ceiling(65, 5286064702319)
        && is_linear_ceiling(66, 5448027644245)
        && is_linear_ceiling(67, 5612849004961)
        && is_linear_ceiling(68, 5780543019107)
        && is_linear_ceiling(69, 5951123816299)
        && is_linear_ceiling(70, 6124605423162)
        && is_linear_ceiling(71, 6301001765317)) by (nonlinear_arith);
    assert(is_linear_ceiling(72, 6480326669291)
        && is_linear_ceiling(73, 6662593864378)
        && is_linear_ceiling(74, 6847816984441)
        && is_linear_ceiling(75, 7036009569660)
        && is_linear_ceiling(76, 7227185068232)
        && is_linear_ceiling(77, 7421356838015)
        && is_linear_ceiling(78, 7618538148131)
        && is_linear_ceiling(79, 7818742180519)) by (nonlinear_arith);
    assert(is_linear_ceiling(80, 8021982031447)
        && is_linear_ceiling(81, 8228270712982)
        && is_linear_ceiling(82, 8437621154415)
        && is_linear_ceiling(83, 8650046203655)
        && is_linear_ceiling(84, 8865558628578)
        && is_linear_ceiling(85, 9084171118341)
        && is_linear_ceiling(86, 9305896284669)
        && is_linear_ceiling(87, 9530746663097)) by (nonlinear_arith);
    assert(is_linear_ceiling(88, 9758734714187)
        && is_linear_ceiling(89, 9989872824712)
        && is_linear_ceiling(90, 10224173308811)
        && is_linear_ceiling(91, 10461648409111)
        && is_linear_ceiling(92, 10702310297827)
        && is_linear_ceiling(93, 10946171077830)
        && is_linear_ceiling(94, 11193242783691)
        && is_linear_ceiling(95, 11443537382698)) by (nonlinear_arith);
    assert(linear_level(64) == 5126945837405);
    assert(linear_level(65) == 5286064702319);
    assert(linear_level(66) == 5448027644245);
    assert(linear_level(67) == 5612849004961);
    assert(linear_level(68) == 5780543019107);
    assert(linear_level(69) == 5951123816299);
    assert(linear_level(70) == 6124605423162);
    assert(linear_level(71) == 6301001765317);
    assert(linear_level(72) == 6480326669291);
    assert(linear_level(73) == 6662593864378);
    assert(linear_level(74) == 6847816984441);
    assert(linear_level(75) == 7036009569660);
    assert(linear_level(76) == 7227185068232);
    assert(linear_level(77) == 7421356838015);
    assert(linear_level(78) == 7618538148131);
    assert(linear_level(79) == 7818742180519);
    assert(linear_level(80) == 8021982031447);
    assert(linear_level(81) == 8228270712982);
    assert(linear_level(82) == 8437621154415);
    assert(linear_level(83) == 8650046203655);
    assert(linear_level(84) == 8865558628578);
    assert(linear_level(85) == 9084171118341);
    assert(linear_level(86) == 9305896284669);
    assert(linear_level(87) == 9530746663097);
    assert(linear_level(88) == 9758734714187);
    assert(linear_level(89) == 9989872824712);
    assert(linear_level(90) == 10224173308811);
    assert(linear_level(91) == 10461648409111);
    assert(linear_level(92) == 10702310297827);
    assert(linear_level(93) == 10946171077830);
    assert(linear_level(94) == 11193242783691);
    assert(linear_level(95) == 11443537382698);
    assert(linear_level(96) == 11697066775852);
}

/// The entries for the channel values from 96 to 127, each checked against the
/// curve.
proof fn lemma_levels_from_96()
    ensures
        forall|k: int| 96 <= k < 128 ==> is_linear_ceiling(k, #[trigger] linear_level(k)),
        forall|k: int| 96 <= k < 128 ==> #[trigger] linear_level(k) < linear_level(k + 1),
{
    assert(is_linear_ceiling(96, 11697066775852)
        && is_linear_ceiling(97, 11953842798835)
        && is_linear_ceiling(98, 12213877222961)
        && is_linear_ceiling(99, 12477181756096)
        && is_linear_ceiling(100, 12743768043565)
        && is_linear_ceiling(101, 13013647669037)
        && is_linear_ceiling(102, 13286832155382)
        && is_linear_ceiling(103, 13563332965521)) by (nonlinear_arith);
    assert(is_linear_ceiling(104, 13843161503246)
        && is_linear_ceiling(105, 14126329114028)
        && is_linear_ceiling(106, 14412847085806)
        && is_linear_ceiling(107, 14702726649760)
        && is_linear_ceiling(108, 14995978981061)
        && is_linear_ceiling(109, 15292615199616)
        && is_linear_ceiling(110, 15592646370783)
        && is_linear_ceiling(111, 15896083506089)) by (nonlinear_arith);
    assert(is_linear_ceiling(112, 16202937563912)
        && is_linear_ceiling(113, 16513219450167)
        && is_linear_ceiling(114, 16826940018970)
        && is_linear_ceiling(115, 17144110073283)
        && is_linear_ceiling(116, 17464740365559)
        && is_linear_ceiling(117, 17788841598363)
        && is_linear_ceiling(118, 18116424424987)
        && is_linear_ceiling(119, 18447499450045)) by (nonlinear_arith);
    assert(is_linear_ceiling(120, 18782077230068)
        && is_linear_ceiling(121, 19120168274080)
        && is_linear_ceiling(122, 19461783044158)
        && is_linear_ceiling(123, 19806931955995)
        && is_linear_ceiling(124, 20155625379440)
        && is_linear_ceiling(125, 20507873639032)
        && is_linear_ceiling(126, 20863687014526)
        && is_linear_ceiling(127, 21223075741406)) by (nonlinear_arith);
    assert(linear_level(96) == 11697066775852);
    assert(linear_level(97) == 11953842798835);
    assert(linear_level(98) == 12213877222961);
    assert(linear_level(99) == 12477181756096);
    assert(linear_level(100) == 12743768043565);
    assert(linear_level(101) == 13013647669037);
    assert(linear_level(102) == 13286832155382);
    assert(linear_level(103) == 13563332965521);
    assert(linear_level(104) == 13843161503246);
    assert(linear_level(105) == 14126329114028);
    assert(linear_level(106) == 14412847085806);
    assert(linear_level(107) == 14702726649760);
    assert(linear_level(108) == 14995978981061);
    assert(linear_level(109) == 15292615199616);
    assert(linear_level(110) == 15592646370783);
    assert(linear_level(111) == 15896083506089);
    assert(linear_level(112) == 16202937563912);
    assert(linear_level(113) == 16513219450167);
    assert(linear_level(114) == 16826940018970);
    assert(linear_level(115) == 17144110073283);
    assert(linear_level(116) == 17464740365559);
    assert(linear_level(117) == 17788841598363);
    assert(linear_level(118) == 18116424424987);
    assert(linear_level(119) == 18447499450045);
    assert(linear_level(120) == 18782077230068);
    assert(linear_level(121) == 19120168274080);
    assert(linear_level(122) == 19461783044158);
    assert(linear_level(123) == 19806931955995);
    assert(linear_level(124) == 20155625379440);
    assert(linear_level(125) == 20507873639032);
    assert(linear_level(126) == 20863687014526);
    assert(linear_level(127) == 21223075741406);
    assert(linear_level(128) == 21586050011390);
}

/// The entries for the channel values from 128 to 159, each checked against the
/// curve.
proof fn lemma_levels_from_128()
    ensures
        forall|k: int| 128 <= k < 160 ==> is_linear_ceiling(k, #[trigger] linear_level(k)),
        forall|k: int| 128 <= k < 160 ==> #[trigger] linear_level(k) < linear_level(k + 1),
{
    assert(is_linear_ceiling(128, 21586050011390)
        && is_linear_ceiling(129, 21952619972927)
        && is_linear_ceiling(130, 22322795731681)
        && is_linear_ceiling(131, 22696587351010)
        && is_linear_ceiling(132, 23074004852435)
        && is_linear_ceiling(133, 23455058216101)
        && is_linear_ceiling(134, 23839757381228)
        && is_linear_ceiling(135, 24228112246556)) by (nonlinear_arith);
    assert(is_linear_ceiling(136, 24620132670784)
        && is_linear_ceiling(137, 25015828472996)
        && is_linear_ceiling(138, 25415209433083)
        && is_linear_ceiling(139, 25818285292160)
        && is_linear_ceiling(140, 26225065752970)
        && is_linear_ceiling(141, 26635560480287)
        && is_linear_ceiling(142, 27049779101307)
        && is_linear_ceiling(143, 27467731206039)) by (nonlinear_arith);
    assert(is_linear_ceiling(144, 27889426347682)
        && is_linear_ceiling(145, 28314874043000)
        && is_linear_ceiling(146, 28744083772692)
        && is_linear_ceiling(147, 29177064981754)
        && is_linear_ceiling(148, 29613827079833)
        && is_linear_ceiling(149, 30054379441578)
        && is_linear_ceiling(150, 30498731406989)
        && is_linear_ceiling(151, 30946892281751)) by (nonlinear_arith);
    assert(is_linear_ceiling(152, 31398871337572)
        && is_linear_ceiling(153, 31854677812510)
        && is_linear_ceiling(154, 32314320911296)
        && is_linear_ceiling(155, 32777809805655)
        && is_linear_ceiling(156, 33245153634618)
        && is_linear_ceiling(157, 33716361504834)
        && is_linear_ceiling(158, 34191442490867)
        && is_linear_ceiling(159, 34670405635503)) by (nonlinear_arith);
    assert(linear_level(128) == 21586050011390);
    assert(linear_level(129) == 21952619972927);
    assert(linear_level(130) == 22322795731681);
    assert(linear_level(131) == 22696587351010);
    assert(linear_level(132) == 23074004852435);
    assert(linear_level(133) == 23455058216101);
    assert(linear_level(134) == 23839757381228);
    assert(linear_level(135) == 24228112246556);
    assert(linear_level(136) == 24620132670784);
    assert(linear_level(137) == 25015828472996);
    assert(linear_level(138) == 25415209433083);
    assert(linear_level(139) == 25818285292160);
    assert(linear_level(140) == 26225065752970);
    assert(linear_level(141) == 26635560480287);
    assert(linear_level(142) == 27049779101307);
    assert(linear_level(143) == 27467731206039);
    assert(linear_level(144) == 27889426347682);
    assert(linear_level(145) == 28314874043000);
    assert(linear_level(146) == 28744083772692);
    assert(linear_level(147) == 29177064981754);
    assert(linear_level(148) == 29613827079833);
    assert(linear_level(149) == 30054379441578);
    assert(linear_level(150) == 30498731406989);
    assert(linear_level(151) == 30946892281751);
    assert(linear_level(152) == 31398871337572);
    assert(linear_level(153) == 31854677812510);
    assert(linear_level(154) == 32314320911296);
    assert(linear_level(155) == 32777809805655);
    assert(linear_level(156) == 33245153634618);
    assert(linear_level(157) == 33716361504834);
    assert(linear_level(158) == 34191442490867);
    assert(linear_level(159) == 34670405635503);
    assert(linear_level(160) == 35153259950044);
}

/// The entries for the channel values from 160 to 191, each checked against the
/// curve.
proof fn lemma_levels_from_160()
    ensures
        forall|k: int| 160 <= k < 192 ==> is_linear_ceiling(k, #[trigger] linear_level(k)),
        forall|k: int| 160 <= k < 192 ==> #[trigger] linear_level(k) < linear_level(k + 1),
{
    assert(is_linear_ceiling(160, 35153259950044)
        && is_linear_ceiling(161, 35640014414595)
        && is_linear_ceiling(162, 36130677978351)
        && is_linear_ceiling(163, 36625259559884)
        && is_linear_ceiling(164, 37123768047415)
        && is_linear_ceiling(165, 37626212299091)
        && is_linear_ceiling(166, 38132601143253)
        && is_linear_ceiling(167, 38642943378705)) by (nonlinear_arith);
    assert(is_linear_ceiling(168, 39157247774973)
        && is_linear_ceiling(169, 39675523072563)
        && is_linear_ceiling(170, 40197777983220)
        && is_linear_ceiling(171, 40724021190174)
        && is_linear_ceiling(172, 41254261348391)
        && is_linear_ceiling(173, 41788507084814)
        && is_linear_ceiling(174, 42326766998608)
        && is_linear_ceiling(175, 42869049661391)) by (nonlinear_arith);
    assert(is_linear_ceiling(176, 43415363617475)
        && is_linear_ceiling(177, 43965717384092)
        && is_linear_ceiling(178, 44520119451623)
        && is_linear_ceiling(179, 45078578283823)
        && is_linear_ceiling(180, 45641102318041)
        && is_linear_ceiling(181, 46207699965441)
        && is_linear_ceiling(182, 46778379611216)
        && is_linear_ceiling(183, 47353149614801)) by (nonlinear_arith);
    assert(is_linear_ceiling(184, 47932018310083)
        && is_linear_ceiling(185, 48514994005608)
        && is_linear_ceiling(186, 49102084984784)
        && is_linear_ceiling(187, 49693299506088)
        && is_linear_ceiling(188, 50288645803257)
        && is_linear_ceiling(189, 50888132085494)
        && is_linear_ceiling(190, 51491766537653)
        && is_linear_ceiling(191, 52099557320436)) by (nonlinear_arith);
    assert(linear_level(160) == 35153259950044);
    assert(linear_level(161) == 35640014414595);
    assert(linear_level(162) == 36130677978351);
    assert(linear_level(163) == 36625259559884);
    assert(linear_level(164) == 37123768047415);
    assert(linear_level(165) == 37626212299091);
    assert(linear_level(166) == 38132601143253);
    assert(linear_level(167) == 38642943378705);
    assert(linear_level(168) == 39157247774973);
    assert(linear_level(169) == 39675523072563);
    assert(linear_level(170) == 40197777983220);
    assert(linear_level(171) == 40724021190174);
    assert(linear_level(172) == 41254261348391);
    assert(linear_level(173) == 41788507084814);
    assert(linear_level(174) == 42326766998608);
    assert(linear_level(175) == 42869049661391);
    assert(linear_level(176) == 43415363617475);
    assert(linear_level(177) == 43965717384092);
    assert(linear_level(178) == 44520119451623);
    assert(linear_level(179) == 45078578283823);
    assert(linear_level(180) == 45641102318041);
    assert(linear_level(181) == 46207699965441);
    assert(linear_level(182) == 46778379611216);
    assert(linear_level(183) == 47353149614801);
    assert(linear_level(184) == 47932018310083);
    assert(linear_level(185) == 48514994005608);
    assert(linear_level(186) == 49102084984784);
    assert(linear_level(187) == 49693299506088);
    assert(linear_level(188) == 50288645803257);
    assert(linear_level(189) == 50888132085494);
    assert(linear_level(190) == 51491766537653);
    assert(linear_level(191) == 52099557320436);
    assert(linear_level(192) == 52711512570582);
}

/// The entries for the channel values from 192 to 223, each checked against the
/// curve.
proof fn lemma_levels_from_192()
    ensures
        forall|k: int| 192 <= k < 224 ==> is_linear_ceiling(k, #[trigger] linear_level(k)),
        forall|k: int| 192 <= k < 224 ==> #[trigger] linear_level(k) < linear_level(k + 1),
{
    assert(is_linear_ceiling(192, 52711512570582)
        && is_linear_ceiling(193, 53327640401051)
        && is_linear_ceiling(194, 53947948901211)
        && is_linear_ceiling(195, 54572446137019)
        && is_linear_ceiling(196, 55201140151200)
        && is_linear_ceiling(197, 55834038963427)
        && is_linear_ceiling(198, 56471150570493)
        && is_linear_ceiling(199, 57112482946488)) by (nonlinear_arith);
    assert(is_linear_ceiling(200, 57758044042966)
        && is_linear_ceiling(201, 58407841789117)
        && is_linear_ceiling(202, 59061884091934)
        && is_linear_ceiling(203, 59720178836377)
        && is_linear_ceiling(204, 60382733885534)
        && is_linear_ceiling(205, 61049557080787)
        && is_linear_ceiling(206, 61720656241966)
        && is_linear_ceiling(207, 62396039167508)) by (nonlinear_arith);
    assert(is_linear_ceiling(208, 63075713634615)
        && is_linear_ceiling(209, 63759687399404)
        && is_linear_ceiling(210, 64447968197059)
        && is_linear_ceiling(211, 65140563741983)
        && is_linear_ceiling(212, 65837481727945)
        && is_linear_ceiling(213, 66538729828228)
        && is_linear_ceiling(214, 67244315695769)
        && is_linear_ceiling(215, 67954246963310)) by (nonlinear_arith);
    assert(is_linear_ceiling(216, 68668531243532)
        && is_linear_ceiling(217, 69387176129199)
        && is_linear_ceiling(218, 70110189193298)
        && is_linear_ceiling(219, 70837577989169)
        && is_linear_ceiling(220, 71569350050649)
        && is_linear_ceiling(221, 72305512892197)
        && is_linear_ceiling(222, 73046074009036)
        && is_linear_ceiling(223, 73791040877274)) by (nonlinear_arith);
    assert(linear_level(192) == 52711512570582);
    assert(linear_level(193) == 53327640401051);
    assert(linear_level(194) == 53947948901211);
    assert(linear_level(195) == 54572446137019);
    assert(linear_level(196) == 55201140151200);
    assert(linear_level(197) == 55834038963427);
    assert(linear_level(198) == 56471150570493);
    assert(linear_level(199) == 57112482946488);
    assert(linear_level(200) == 57758044042966);
    assert(linear_level(201) == 58407841789117);
    assert(linear_level(202) == 59061884091934);
    assert(linear_level(203) == 59720178836377);
    assert(linear_level(204) == 60382733885534);
    assert(linear_level(205) == 61049557080787);
    assert(linear_level(206) == 61720656241966);
    assert(linear_level(207) == 62396039167508);
    assert(linear_level(208) == 63075713634615);
    assert(linear_level(209) == 63759687399404);
    assert(linear_level(210) == 64447968197059);
    assert(linear_level(211) == 65140563741983);
    assert(linear_level(212) == 65837481727945);
    assert(linear_level(213) == 66538729828228);
    assert(linear_level(214) == 67244315695769);
    assert(linear_level(215) == 67954246963310);
    assert(linear_level(216) == 68668531243532);
    assert(linear_level(217) == 69387176129199);
    assert(linear_level(218) == 70110189193298);
    assert(linear_level(219) == 70837577989169);
    assert(linear_level(220) == 71569350050649);
    assert(linear_level(221) == 72305512892197);
    assert(linear_level(222) == 73046074009036);
    assert(linear_level(223) == 73791040877274);
    assert(linear_level(224) == 74540420954039);
}

/// The entries for the channel values from 224 to 255, each checked against the
/// curve.
proof fn lemma_levels_from_224()
    ensures
        forall|k: int| 224 <= k < 256 ==> is_linear_ceiling(k, #[trigger] linear_level(k)),
        forall|k: int| 224 <= k < 255 ==> #[trigger] linear_level(k) < linear_level(k + 1),
{
    assert(is_linear_ceiling(224, 74540420954039)
        && is_linear_ceiling(225, 75294221677608)
        && is_linear_ceiling(226, 76052450467530)
        && is_linear_ceiling(227, 76815114724751)
        && is_linear_ceiling(228, 77582221831743)
        && is_linear_ceiling(229, 78353779152620)
        && is_linear_ceiling(230, 79129794033264)
        && is_linear_ceiling(231, 79910273801441)) by (nonlinear_arith);
    assert(is_linear_ceiling(232, 80695225766926)
        && is_linear_ceiling(233, 81484657221611)
        && is_linear_ceiling(234, 82278575439629)
        && is_linear_ceiling(235, 83076987677466)
        && is_linear_ceiling(236, 83879901174074)
        && is_linear_ceiling(237, 84687323150986)
        && is_linear_ceiling(238, 85499260812424)
        && is_linear_ceiling(239, 86315721345411)) by (nonlinear_arith);
    assert(is_linear_ceiling(240, 87136711919880)
        && is_linear_ceiling(241, 87962239688784)
        && is_linear_ceiling(242, 88792311788197)
        && is_linear_ceiling(243, 89626935337427)
        && is_linear_ceiling(244, 90466117439115)
        && is_linear_ceiling(245, 91309865179342)
        && is_linear_ceiling(246, 92158185627730)
        && is_linear_ceiling(247, 93011085837543)) by (nonlinear_arith);
    assert(is_linear_ceiling(248, 93868572845789)
        && is_linear_ceiling(249, 94730653673320)
        && is_linear_ceiling(250, 95597335324929)
        && is_linear_ceiling(251, 96468624789447)
        && is_linear_ceiling(252, 97344529039842)
        && is_linear_ceiling(253, 98225055033312)
        && is_linear_ceiling(254, 99110209711383)
        && is_linear_ceiling(255, 100000000000000)) by (nonlinear_arith);
    assert(linear_level(224) == 74540420954039);
    assert(linear_level(225) == 75294221677608);
    assert(linear_level(226) == 76052450467530);
    assert(linear_level(227) == 76815114724751);
    assert(linear_level(228) == 77582221831743);
    assert(linear_level(229) == 78353779152620);
    assert(linear_level(230) == 79129794033264);
    assert(linear_level(231) == 79910273801441);
    assert(linear_level(232) == 80695225766926);
    assert(linear_level(233) == 81484657221611);
    assert(linear_level(234) == 82278575439629);
    assert(linear_level(235) == 83076987677466);
    assert(linear_level(236) == 83879901174074);
    assert(linear_level(237) == 84687323150986);
    assert(linear_level(238) == 85499260812424);
    assert(linear_level(239) == 86315721345411);
    assert(linear_level(240) == 87136711919880);
    assert(linear_level(241) == 87962239688784);
    assert(linear_level(242) == 88792311788197);
    assert(linear_level(243) == 89626935337427);
    assert(linear_level(244) == 90466117439115);
    assert(linear_level(245) == 91309865179342);
    assert(linear_level(246) == 92158185627730);
    assert(linear_level(247) == 93011085837543);
    assert(linear_level(248) == 93868572845789);
    assert(linear_level(249) == 94730653673320);
    assert(linear_level(250) == 95597335324929);
    assert(linear_level(251) == 96468624789447);
    assert(linear_level(252) == 97344529039842);
    assert(linear_level(253) == 98225055033312);
    assert(linear_level(254) == 99110209711383);
    assert(linear_level(255) == 100000000000000);
}

/// What the table holds: each entry is the linear light of its channel value
/// rounded up to a whole unit, the entries rise strictly, black is 0 and full
/// scale is `LINEAR_ONE`.
pub proof fn lemma_levels(k: int)
    requires
        0 <= k <= 255,
    ensures
        is_linear_ceiling(k, linear_level(k)),
        k < 255 ==> linear_level(k) < linear_level(k + 1),
        linear_level(0) == 0,
        linear_level(255) == LINEAR_ONE,
{
    lemma_levels_from_0();
    lemma_levels_from_32();
    lemma_levels_from_64();
    lemma_levels_from_96();
    lemma_levels_from_128();
    lemma_levels_from_160();
    lemma_levels_from_192();
    lemma_levels_from_224();
}

/// The table rises: a larger channel value has more linear light.
pub proof fn lemma_levels_rise(j: int, k: int)
    requires
        0 <= j <= k <= 255,
    ensures
        linear_level(j) <= linear_level(k),
        j < k ==> linear_level(j) < linear_level(k),
    decreases k - j,
{
    if j < k {
        lemma_levels_rise(j, k - 1);
        lemma_levels(k - 1);
    }
}

/// A fifth power rises with its base, from 0 on.
proof fn lemma_pow5_rises(a: int, b: int)
    requires
        0 <= a <= b,
    ensures
        0 <= pow5(a) <= pow5(b),
{
    let a2 = a * a;
    let b2 = b * b;
    assert(0 <= a2 <= b2) by (nonlinear_arith)
        requires
            0 <= a <= b,
            a2 == a * a,
            b2 == b * b,
    ;
    let a4 = a2 * a2;
    let b4 = b2 * b2;
    assert(0 <= a4 <= b4) by (nonlinear_arith)
        requires
            0 <= a2 <= b2,
            a4 == a2 * a2,
            b4 == b2 * b2,
    ;
    assert(0 <= a4 * a <= b4 * b) by (nonlinear_arith)
        requires
            0 <= a4 <= b4,
            0 <= a <= b,
    ;
    assert(pow5(a) == a4 * a) by (nonlinear_arith)
        requires
            a2 == a * a,
            a4 == a2 * a2,
    ;
    assert(pow5(b) == b4 * b) by (nonlinear_arith)
        requires
            b2 == b * b,
            b4 == b2 * b2,
    ;
}

/// If the linear light of a channel value is at most `n` units, it is at most
/// any larger number of units.
pub proof fn lemma_linear_light_le_rises(k: int, n: int, m: int)
    requires
        linear_light_le(k, n),
        n <= m,
    ensures
        linear_light_le(k, m),
{
    if k > 10 {
        lemma_pow5_rises(n, m);
        let c = pow12(10761);
        assert(c > 0) by (nonlinear_arith)
            requires
                c == pow12(10761),
        ;
        assert(pow5(n) * c <= pow5(m) * c) by (nonlinear_arith)
            requires
                pow5(n) <= pow5(m),
                c > 0,
        ;
    }
}

/// The table decides the comparison with the curve: the entry for `k` is at
/// most `n` exactly when the linear light of the channel value `k` is at most
/// `n` units.
pub proof fn lemma_level_le(k: int, n: int)
    requires
        0 <= k <= 255,
    ensures
        linear_level(k) <= n <==> linear_light_le(k, n),
{
    lemma_levels(k);
    if linear_level(k) <= n {
        lemma_linear_light_le_rises(k, linear_level(k), n);
    } else if linear_light_le(k, n) {
        lemma_linear_light_le_rises(k, n, linear_level(k) - 1);
    }
}

/// The greatest channel value up to `k` whose linear light is at most `n`
/// units, and 0 where there is none.
pub open spec fn channel_up_to(n: int, k: int) -> int
    decreases k,
{
    if k <= 0 {
        0
    } else if linear_level(k) <= n {
        k
    } else {
        channel_up_to(n, k - 1)
    }
}

/// The channel value that encodes `n` units of linear light: the greatest one
/// whose own linear light is at most `n`. This is 255 times the encoded value,
/// cut off to a whole number and kept within 0 and 255.
///
/// The encoding of the linear light `v` is `12.92 v` up to `v = 0.0031308` and
/// `1.055 v^(1/2.4) - 0.055` above, the inverse of the curve of
/// `linear_light_le`. At the place where the branches meet both give 10.31 of
/// 255, between two channel values, so that the greatest channel value below
/// the encoding is the same by either.
pub open spec fn channel_of_linear(n: int) -> int {
    channel_up_to(n, 255)
}

/// `channel_up_to` passes over the channel values whose entries are above `n`.
pub proof fn lemma_channel_up_to(n: int, k: int, c: int)
    requires
        0 <= c <= k <= 255,
        c == 0 || linear_level(c) <= n,
        c < 255 ==> n < linear_level(c + 1),
    ensures
        channel_up_to(n, k) == c,
    decreases k,
{
    if k > c {
        lemma_levels_rise(c + 1, k);
        lemma_channel_up_to(n, k - 1, c);
    }
}

/// What `channel_of_linear` gives, said of the curve: it is a channel value,
/// the linear light of it is at most `n` units unless the value is 0, and the
/// linear light of the next channel value is more than `n` units.
pub proof fn lemma_channel_of_linear(n: int)
    ensures
        0 <= channel_of_linear(n) <= 255,
        channel_of_linear(n) > 0 ==> linear_light_le(channel_of_linear(n), n),
        channel_of_linear(n) < 255 ==> !linear_light_le(channel_of_linear(n) + 1, n),
{
    lemma_channel_up_to_bracket(n, 255);
    let c = channel_of_linear(n);
    if c > 0 {
        lemma_level_le(c, n);
    }
    if c < 255 {
        lemma_level_le(c + 1, n);
    }
}

/// `channel_up_to` stops at a channel value whose entry is at most `n`, below
/// one whose entry is above `n`.
proof fn lemma_channel_up_to_bracket(n: int, k: int)
    requires
        0 <= k <= 255,
        k < 255 ==> n < linear_level(k + 1),
    ensures
        0 <= channel_up_to(n, k) <= k,
        channel_up_to(n, k) > 0 ==> linear_level(channel_up_to(n, k)) <= n,
        channel_up_to(n, k) < 255 ==> n < linear_level(channel_up_to(n, k) + 1),
    decreases k,
{
    if k > 0 && linear_level(k) > n {
        lemma_channel_up_to_bracket(n, k - 1);
    }
}

/// The CIE XYZ tristimulus values of the linear light `lr`, `lg`, `lb` of the
/// three sRGB channels, by the matrix of the sRGB primaries with white point
/// D65, its coefficients in units of 10^-7.
pub open spec fn tristimulus(lr: int, lg: int, lb: int) -> (int, int, int) {
    (
        4124564 * lr + 3575761 * lg + 1804375 * lb,
        2126729 * lr + 7151522 * lg + 721750 * lb,
        193339 * lr + 1191920 * lg + 9503041 * lb,
    )
}

/// The chromaticity of the sRGB colour with the channel values `r`, `g`, `b`,
/// in steps of `1 / steps`: `X / (X + Y + Z)` and `Y / (X + Y + Z)`, each rounded
/// to the nearest step.
///
/// Black has no chromaticity: all three tristimulus values vanish. It is
/// given that of the greys, which all share one, the white point of the
/// matrix.
pub open spec fn chromaticity(r: int, g: int, b: int, steps: int) -> Point {
    let (x, y, z) = if r == 0 && g == 0 && b == 0 {
        tristimulus(1, 1, 1)
    } else {
        tristimulus(linear_level(r), linear_level(g), linear_level(b))
    };
    Point { x: round_div(x * steps, x + y + z), y: round_div(y * steps, x + y + z) }
}

/// The sRGB channel values of the chromaticity `p`, given in steps of
/// `1 / steps`, at full luminance: `z = 1 - x - y`, the linear light of each
/// channel by the inverse of the matrix of `tristimulus`, its coefficients in
/// units of 10^-7, and each encoded by `channel_of_linear`.
pub open spec fn channels_of(p: Point, steps: int) -> (int, int, int) {
    let z = steps - p.x - p.y;
    (
        channel_of_linear(32404542 * p.x - 15371385 * p.y - 4985314 * z),
        channel_of_linear(-9692660 * p.x + 18760108 * p.y + 415560 * z),
        channel_of_linear(556434 * p.x - 2040259 * p.y + 10572252 * z),
    )
}

/// The matrix of `channels_of` undoes the matrix of `tristimulus` up to the
/// seventh digit: applied to the tristimulus values of `lr`, `lg`, `lb` it gives
/// each of them 10^14 times, less or more a few parts in ten million of the
/// three.
pub proof fn lemma_matrices_inverse(lr: int, lg: int, lb: int)
    ensures
        ({
            let (x, y, z) = tristimulus(lr, lg, lb);
            &&& 32404542 * x - 15371385 * y - 4985314 * z == 100_000_000_000_000 * lr - 18503423
                * lr + 4045612 * lg + 5007626 * lb
            &&& -9692660 * x + 18760108 * y + 415560 * z == 100_000_000_000_000 * lg + 13181332
                * lr + 3745316 * lg - 1720540 * lb
            &&& 556434 * x - 2040259 * y + 10572252 * z == 100_000_000_000_000 * lb - 1708607
                * lr - 3524084 * lg + 2883832 * lb
        }),
{
}

/// Taking a channel value to linear light and back gives the channel value.
pub proof fn lemma_gamma_round_trip(c: int)
    requires
        0 <= c <= 255,
    ensures
        channel_of_linear(linear_level(c)) == c,
{
    if c < 255 {
        lemma_levels(c);
    }
    lemma_channel_up_to(linear_level(c), 255, c);
}

} // verus!
