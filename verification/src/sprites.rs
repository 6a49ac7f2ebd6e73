//! Pixel sprites of the battle arena: the player's poses, the enemies and
//! the backdrops of the biomes, drawn as rows of colour codes.

use crate::stage::Biome;
use crate::state::CombatPhase;
use crate::text::{chars_of, str_eq};
use vstd::prelude::*;

verus! {

/// The colour a code stands for, as red, green and blue; `None` is
/// transparent (the code `.` and any code without a colour).
pub open spec fn palette(code: char) -> Option<(u8, u8, u8)> {
    if code == 'K' {
        Some((30u8, 30u8, 40u8))
    } else if code == 'G' {
        Some((80u8, 80u8, 100u8))
    } else if code == 'g' {
        Some((120u8, 120u8, 140u8))
    } else if code == 'W' {
        Some((220u8, 220u8, 230u8))
    } else if code == 'R' {
        Some((200u8, 50u8, 50u8))
    } else if code == 'r' {
        Some((255u8, 100u8, 100u8))
    } else if code == 'B' {
        Some((60u8, 80u8, 180u8))
    } else if code == 'b' {
        Some((120u8, 160u8, 255u8))
    } else if code == 'P' {
        Some((140u8, 60u8, 180u8))
    } else if code == 'p' {
        Some((200u8, 130u8, 255u8))
    } else if code == 'Y' {
        Some((200u8, 170u8, 40u8))
    } else if code == 'y' {
        Some((255u8, 230u8, 100u8))
    } else if code == 'O' {
        Some((200u8, 120u8, 40u8))
    } else if code == 'o' {
        Some((255u8, 180u8, 80u8))
    } else if code == 'N' {
        Some((60u8, 140u8, 60u8))
    } else if code == 'n' {
        Some((100u8, 220u8, 100u8))
    } else if code == 'C' {
        Some((40u8, 120u8, 140u8))
    } else if code == 'c' {
        Some((80u8, 200u8, 220u8))
    } else if code == 'S' {
        Some((160u8, 120u8, 80u8))
    } else if code == 's' {
        Some((200u8, 160u8, 110u8))
    } else if code == 'M' {
        Some((100u8, 60u8, 40u8))
    } else if code == 'm' {
        Some((160u8, 110u8, 70u8))
    } else if code == 'E' {
        Some((200u8, 200u8, 50u8))
    } else if code == 'e' {
        Some((255u8, 50u8, 50u8))
    } else {
        None
    }
}

/// The colour of a pixel code.
pub fn pixel_color(code: char) -> (r: Option<(u8, u8, u8)>)
    ensures
        r == palette(code),
{
    match code {
        'K' => Some((30, 30, 40)),
        'G' => Some((80, 80, 100)),
        'g' => Some((120, 120, 140)),
        'W' => Some((220, 220, 230)),
        'R' => Some((200, 50, 50)),
        'r' => Some((255, 100, 100)),
        'B' => Some((60, 80, 180)),
        'b' => Some((120, 160, 255)),
        'P' => Some((140, 60, 180)),
        'p' => Some((200, 130, 255)),
        'Y' => Some((200, 170, 40)),
        'y' => Some((255, 230, 100)),
        'O' => Some((200, 120, 40)),
        'o' => Some((255, 180, 80)),
        'N' => Some((60, 140, 60)),
        'n' => Some((100, 220, 100)),
        'C' => Some((40, 120, 140)),
        'c' => Some((80, 200, 220)),
        'S' => Some((160, 120, 80)),
        's' => Some((200, 160, 110)),
        'M' => Some((100, 60, 40)),
        'm' => Some((160, 110, 70)),
        'E' => Some((200, 200, 50)),
        'e' => Some((255, 50, 50)),
        _ => None,
    }
}

/// A pixel sprite: rows of colour codes, two pixel rows to a line of the
/// terminal.
pub struct PixelSprite {
    pub rows: Vec<Vec<char>>,
    pub width: usize,
    pub height: usize,
}

/// The length of the longest line.
pub open spec fn max_width(lines: Seq<Seq<char>>) -> nat
    decreases lines.len(),
{
    if lines.len() == 0 {
        0
    } else {
        let m = max_width(lines.drop_last());
        if lines.last().len() > m {
            lines.last().len()
        } else {
            m
        }
    }
}

/// `s` is the sprite these lines draw: a row per line, as wide as the
/// widest line.
pub open spec fn drawn_by(s: PixelSprite, lines: Seq<Seq<char>>) -> bool {
    &&& s.rows@.map_values(|r: Vec<char>| r@) == lines
    &&& s.width == max_width(lines)
    &&& s.height == lines.len()
}

/// The lines of a slice of strings, as character sequences.
pub open spec fn lines_of(lines: Seq<&str>) -> Seq<Seq<char>> {
    lines.map_values(|l: &str| l@)
}

impl PixelSprite {
    pub fn from_lines(lines: &[&str]) -> (s: PixelSprite)
        ensures
            drawn_by(s, lines_of(lines@)),
    {
        let ghost all = lines_of(lines@);
        let mut rows: Vec<Vec<char>> = Vec::new();
        let mut width: usize = 0;
        let mut i: usize = 0;
        proof {
            assert(all.subrange(0, 0) =~= Seq::<Seq<char>>::empty());
        }
        while i < lines.len()
            invariant
                all == lines_of(lines@),
                i <= lines@.len(),
                rows@.len() == i,
                forall|k: int| 0 <= k < i ==> #[trigger] rows@[k]@ == all[k],
                width == max_width(all.subrange(0, i as int)),
            decreases lines@.len() - i,
        {
            let r = chars_of(lines[i]);
            proof {
                assert(all.subrange(0, i + 1).drop_last() =~= all.subrange(0, i as int));
                assert(all.subrange(0, i + 1).last() == all[i as int]);
            }
            if r.len() > width {
                width = r.len();
            }
            rows.push(r);
            i = i + 1;
        }
        proof {
            assert(all.subrange(0, i as int) =~= all);
            assert(rows@.map_values(|r: Vec<char>| r@) =~= all);
        }
        PixelSprite { rows, width, height: lines.len() }
    }
}

/// How the player stands in the arena.
#[derive(Debug, Clone, Copy, PartialEq, Eq, Structural)]
pub enum PlayerPose {
    Attack,
    Hurt,
    Dodge,
    StepOne,
    StepTwo,
    Idle,
}

/// The pose for a phase of the fight: swinging early in the attack's
/// animation, recoiling from a hit, leaning away from a dodged blow,
/// stepping in turn while walking, standing otherwise.
pub open spec fn player_pose(phase: CombatPhase) -> PlayerPose {
    match phase {
        CombatPhase::PlayerAttackAnim { ticks_remaining, .. } => if ticks_remaining > 5 {
            PlayerPose::Attack
        } else {
            PlayerPose::Idle
        },
        CombatPhase::EnemyHitAnim { dodged, .. } => if dodged {
            PlayerPose::Dodge
        } else {
            PlayerPose::Hurt
        },
        CombatPhase::Walking { ticks_remaining } => if ticks_remaining % 4 < 2 {
            PlayerPose::StepOne
        } else {
            PlayerPose::StepTwo
        },
        _ => PlayerPose::Idle,
    }
}

/// The player's sprite in each pose.
pub open spec fn player_art(pose: PlayerPose) -> Seq<Seq<char>> {
    match pose {
        PlayerPose::Attack => seq![
            "....PPPP...."@,
            "...PPPPPP..."@,
            "..PP.EE.PP.."@,
            "..PPPPPPPP.."@,
            "...BBBBBB..."@,
            "..BBBBBBBB.."@,
            ".BBB.BB.BBBM"@,
            ".BB..BB..BBM"@,
            "..BB.BB.BB.M"@,
            "...BBBBBB.MM"@,
            "....B..B...."@,
            "...BB..BB..."@,
        ],
        PlayerPose::Hurt => seq![
            "..PPPP......"@,
            ".PPPPPP....."@,
            "PP.ee.PP...."@,
            "PPPPPPPP...."@,
            ".BBBBBB....."@,
            "BBBBBBBB...."@,
            "BBB.BB.BBB.."@,
            "BB..BB..BB.."@,
            ".BB.BB.BB..."@,
            "..BBBBBB...."@,
            "...B..B....."@,
            "..BB..BB...."@,
        ],
        PlayerPose::Dodge => seq![
            "......PPPP.."@,
            ".....PPPPPP."@,
            "....PP.EE.PP"@,
            "....PPPPPPPP"@,
            ".....BBBBBB."@,
            "....BBBBBBBB"@,
            "...BBB.BB.BB"@,
            "...BB..BB..B"@,
            "....BB.BB.B."@,
            ".....BBBBBB."@,
            "......B..B.."@,
            ".....BB..BB."@,
        ],
        PlayerPose::StepOne => seq![
            "....PPPP...."@,
            "...PPPPPP..."@,
            "..PP.EE.PP.."@,
            "..PPPPPPPP.."@,
            "...BBBBBB..."@,
            "..BBBBBBBBMM"@,
            "..BBB.BB.BMM"@,
            "..BB..BB..M."@,
            "...BB.BB.B.."@,
            "....BBBBBB.."@,
            "....B...B..."@,
            "...BB....B.."@,
        ],
        PlayerPose::StepTwo => seq![
            "....PPPP...."@,
            "...PPPPPP..."@,
            "..PP.EE.PP.."@,
            "..PPPPPPPP.."@,
            "...BBBBBB..."@,
            "..BBBBBBBBMM"@,
            "..BBB.BB.BMM"@,
            "..BB..BB..M."@,
            "...BB.BB.B.."@,
            "....BBBBBB.."@,
            ".....B..B..."@,
            "....B..BB..."@,
        ],
        PlayerPose::Idle => seq![
            "....PPPP...."@,
            "...PPPPPP..."@,
            "..PP.EE.PP.."@,
            "..PPPPPPPP.."@,
            "...BBBBBB..."@,
            "..BBBBBBBB.."@,
            "..BBB.BB.BBM"@,
            "..BB..BB..BM"@,
            "...BB.BB.BMM"@,
            "....BBBBBBM."@,
            "....B..B...."@,
            "...BB..BB..."@,
        ],
    }
}

pub fn pose_of(phase: &CombatPhase) -> (p: PlayerPose)
    ensures
        p == player_pose(*phase),
{
    match phase {
        CombatPhase::PlayerAttackAnim { ticks_remaining, .. } => if *ticks_remaining > 5 {
            PlayerPose::Attack
        } else {
            PlayerPose::Idle
        },
        CombatPhase::EnemyHitAnim { dodged, .. } => if *dodged {
            PlayerPose::Dodge
        } else {
            PlayerPose::Hurt
        },
        CombatPhase::Walking { ticks_remaining } => if *ticks_remaining % 4 < 2 {
            PlayerPose::StepOne
        } else {
            PlayerPose::StepTwo
        },
        _ => PlayerPose::Idle,
    }
}

/// The player's sprite for the phase of the fight.
pub fn get_player_sprite(phase: &CombatPhase) -> (s: PixelSprite)
    ensures
        drawn_by(s, player_art(player_pose(*phase))),
{
    match pose_of(phase) {
        PlayerPose::Attack => {
            let lines: &[&str] = &[
                "....PPPP....",
                "...PPPPPP...",
                "..PP.EE.PP..",
                "..PPPPPPPP..",
                "...BBBBBB...",
                "..BBBBBBBB..",
                ".BBB.BB.BBBM",
                ".BB..BB..BBM",
                "..BB.BB.BB.M",
                "...BBBBBB.MM",
                "....B..B....",
                "...BB..BB...",
            ];
            proof {
                assert(lines_of(lines@) =~= player_art(PlayerPose::Attack));
            }
            PixelSprite::from_lines(lines)
        },
        PlayerPose::Hurt => {
            let lines: &[&str] = &[
                "..PPPP......",
                ".PPPPPP.....",
                "PP.ee.PP....",
                "PPPPPPPP....",
                ".BBBBBB.....",
                "BBBBBBBB....",
                "BBB.BB.BBB..",
                "BB..BB..BB..",
                ".BB.BB.BB...",
                "..BBBBBB....",
                "...B..B.....",
                "..BB..BB....",
            ];
            proof {
                assert(lines_of(lines@) =~= player_art(PlayerPose::Hurt));
            }
            PixelSprite::from_lines(lines)
        },
        PlayerPose::Dodge => {
            let lines: &[&str] = &[
                "......PPPP..",
                ".....PPPPPP.",
                "....PP.EE.PP",
                "....PPPPPPPP",
                ".....BBBBBB.",
                "....BBBBBBBB",
                "...BBB.BB.BB",
                "...BB..BB..B",
                "....BB.BB.B.",
                ".....BBBBBB.",
                "......B..B..",
                ".....BB..BB.",
            ];
            proof {
                assert(lines_of(lines@) =~= player_art(PlayerPose::Dodge));
            }
            PixelSprite::from_lines(lines)
        },
        PlayerPose::StepOne => {
            let lines: &[&str] = &[
                "....PPPP....",
                "...PPPPPP...",
                "..PP.EE.PP..",
                "..PPPPPPPP..",
                "...BBBBBB...",
                "..BBBBBBBBMM",
                "..BBB.BB.BMM",
                "..BB..BB..M.",
                "...BB.BB.B..",
                "....BBBBBB..",
                "....B...B...",
                "...BB....B..",
            ];
            proof {
                assert(lines_of(lines@) =~= player_art(PlayerPose::StepOne));
            }
            PixelSprite::from_lines(lines)
        },
        PlayerPose::StepTwo => {
            let lines: &[&str] = &[
                "....PPPP....",
                "...PPPPPP...",
                "..PP.EE.PP..",
                "..PPPPPPPP..",
                "...BBBBBB...",
                "..BBBBBBBBMM",
                "..BBB.BB.BMM",
                "..BB..BB..M.",
                "...BB.BB.B..",
                "....BBBBBB..",
                ".....B..B...",
                "....B..BB...",
            ];
            proof {
                assert(lines_of(lines@) =~= player_art(PlayerPose::StepTwo));
            }
            PixelSprite::from_lines(lines)
        },
        PlayerPose::Idle => {
            let lines: &[&str] = &[
                "....PPPP....",
                "...PPPPPP...",
                "..PP.EE.PP..",
                "..PPPPPPPP..",
                "...BBBBBB...",
                "..BBBBBBBB..",
                "..BBB.BB.BBM",
                "..BB..BB..BM",
                "...BB.BB.BMM",
                "....BBBBBBM.",
                "....B..B....",
                "...BB..BB...",
            ];
            proof {
                assert(lines_of(lines@) =~= player_art(PlayerPose::Idle));
            }
            PixelSprite::from_lines(lines)
        },
    }
}

/// An enemy's sprite by its sprite key; an unknown key gets a grey blob.
pub open spec fn enemy_art(key: Seq<char>) -> Seq<Seq<char>> {
    if key == "goblin"@ {
        seq![
            "..NN....NN.."@,
            "..NNNNNNNN.."@,
            ".NNN.ee.NNN."@,
            ".NNNNNNNNNN."@,
            "..NNNNNNNN.."@,
            ".SSSSSSSSSS."@,
            ".SS.SSSS.SS."@,
            ".SS..SS..SS."@,
            "..SS.SS.SS.."@,
            "...SSSSSS..."@,
            "...SS..SS..."@,
            "..SSS..SSS.."@,
        ]
    } else if key == "skeleton"@ {
        seq![
            "...WWWWWW..."@,
            "..WWWWWWWW.."@,
            "..WW.ee.WW.."@,
            "..WWWWWWWW.."@,
            "...WW..WW..."@,
            "..WWWWWWWW.."@,
            "..WW.WW.WW.."@,
            "..WWWWWWWW.."@,
            "...WW..WW..."@,
            "...WW..WW..."@,
            "...WW..WW..."@,
            "..WWW..WWW.."@,
        ]
    } else if key == "wolf"@ {
        seq![
            ".MM......MM."@,
            "MMMM..MMMM."@,
            "MM.MMMM.MM."@,
            "MM.e..e.MM.."@,
            ".MMMMMMMM.."@,
            "..MMMMMM..."@,
            ".MMMMMMMM.."@,
            ".MM.MM.MM..."@,
            ".MM.MM.MM..."@,
            ".MM.MM.MM..."@,
            ".MM....MM..."@,
            "MMM....MMM.."@,
        ]
    } else if key == "slime"@ {
        seq![
            "...nnnnnn..."@,
            "..nnnnnnnn.."@,
            ".nn.ee.nn.n."@,
            ".nnnnnnnnnn."@,
            ".nnnnnnnnnn."@,
            ".nn.Yn.Cn.n."@,
            ".nnnnnnnnnn."@,
            "..nnnnnnnn.."@,
            "...nnnnnn..."@,
            "..n..nn..n.."@,
            ".n...nn...n."@,
            "............"@,
        ]
    } else if key == "boss_goblin"@ {
        seq![
            "..YY........YY.."@,
            "...NNNN..NNNN..."@,
            "...NNNNNNNNNN..."@,
            "..NNN.ee.ee.NNN."@,
            "..NNNNNNNNNNNN.."@,
            "..SSSSSSSSSSSS.."@,
            ".SSS.SSSSSS.SSS."@,
            ".SS...SSSS...SS."@,
            "..SSS.SSSS.SSS.."@,
            "...SSSSSSSSSS..."@,
            "....SS....SS...."@,
            "...SSS....SSS..."@,
        ]
    } else if key == "boss_skeleton"@ {
        seq![
            "..YY........YY.."@,
            "...WWWWWWWWWW..."@,
            "..WWWWWWWWWWWW.."@,
            "..WW..ee.ee.WW.."@,
            "..WWWWWWWWWWWW.."@,
            "...WWWW..WWWW..."@,
            "..WWWWWWWWWWWW.."@,
            "..WW..WWWW..WW.."@,
            "..WWWWWWWWWWWW.."@,
            "...WWWW..WWWW..."@,
            "...WWW....WWW..."@,
            "..WWWW....WWWW.."@,
        ]
    } else if key == "boss_wolf"@ {
        seq![
            ".YMM......MMY..."@,
            "MMMMM..MMMMM...."@,
            "MM.MMMMM.MMMMM.."@,
            "MM.ee..ee.MMMM.."@,
            ".MMMMMMMMMMMM..."@,
            "..MMMMMMMMMM...."@,
            ".MMMMMMMMMMMM..."@,
            ".MMM.MMMM.MMM..."@,
            ".MM..MMMM..MM..."@,
            ".MM..MMMM..MM..."@,
            ".MM........MM..."@,
            "MMMM......MMMM.."@,
        ]
    } else if key == "boss_slime"@ {
        seq![
            "..YY..nnnnnn..YY"@,
            "...nnnnnnnnnnn.."@,
            "..nnnnnnnnnnnn.."@,
            ".nn..ee..ee..nn."@,
            ".nnnnnnnnnnnnnn."@,
            ".nn.Yn.Cn.Yn.nn."@,
            ".nnnnnnnnnnnnnn."@,
            ".nnnnnnnnnnnnnn."@,
            "..nnnnnnnnnnnn.."@,
            "...nnnnnnnnnn..."@,
            "..n..nn..nn..n.."@,
            ".n...nn..nn...n."@,
        ]
    } else {
        seq![
            "..GGGGGG.."@,
            ".GGGGGGGG."@,
            ".GG.GG.GG."@,
            ".GGGGGGGG."@,
            "..GGGGGG.."@,
            ".GGGGGGGG."@,
            ".GG.GG.GG."@,
            ".GGGGGGGG."@,
            "..GGGGGG.."@,
            "...GG.GG.."@,
            "..GGG.GGG."@,
            "............"@,
        ]
    }
}

/// The enemy's sprite for its sprite key.
pub fn get_enemy_sprite(sprite_key: &str) -> (s: PixelSprite)
    ensures
        drawn_by(s, enemy_art(sprite_key@)),
{
    if str_eq(sprite_key, "goblin") {
        let lines: &[&str] = &[
                "..NN....NN..",
                "..NNNNNNNN..",
                ".NNN.ee.NNN.",
                ".NNNNNNNNNN.",
                "..NNNNNNNN..",
                ".SSSSSSSSSS.",
                ".SS.SSSS.SS.",
                ".SS..SS..SS.",
                "..SS.SS.SS..",
                "...SSSSSS...",
                "...SS..SS...",
                "..SSS..SSS..",
            ];
        proof {
            assert(lines_of(lines@) =~= enemy_art(sprite_key@));
        }
        PixelSprite::from_lines(lines)
    } else if str_eq(sprite_key, "skeleton") {
        let lines: &[&str] = &[
                "...WWWWWW...",
                "..WWWWWWWW..",
                "..WW.ee.WW..",
                "..WWWWWWWW..",
                "...WW..WW...",
                "..WWWWWWWW..",
                "..WW.WW.WW..",
                "..WWWWWWWW..",
                "...WW..WW...",
                "...WW..WW...",
                "...WW..WW...",
                "..WWW..WWW..",
            ];
        proof {
            assert(lines_of(lines@) =~= enemy_art(sprite_key@));
        }
        PixelSprite::from_lines(lines)
    } else if str_eq(sprite_key, "wolf") {
        let lines: &[&str] = &[
                ".MM......MM.",
                "MMMM..MMMM.",
                "MM.MMMM.MM.",
                "MM.e..e.MM..",
                ".MMMMMMMM..",
                "..MMMMMM...",
                ".MMMMMMMM..",
                ".MM.MM.MM...",
                ".MM.MM.MM...",
                ".MM.MM.MM...",
                ".MM....MM...",
                "MMM....MMM..",
            ];
        proof {
            assert(lines_of(lines@) =~= enemy_art(sprite_key@));
        }
        PixelSprite::from_lines(lines)
    } else if str_eq(sprite_key, "slime") {
        let lines: &[&str] = &[
                "...nnnnnn...",
                "..nnnnnnnn..",
                ".nn.ee.nn.n.",
                ".nnnnnnnnnn.",
                ".nnnnnnnnnn.",
                ".nn.Yn.Cn.n.",
                ".nnnnnnnnnn.",
                "..nnnnnnnn..",
                "...nnnnnn...",
                "..n..nn..n..",
                ".n...nn...n.",
                "............",
            ];
        proof {
            assert(lines_of(lines@) =~= enemy_art(sprite_key@));
        }
        PixelSprite::from_lines(lines)
    } else if str_eq(sprite_key, "boss_goblin") {
        let lines: &[&str] = &[
                "..YY........YY..",
                "...NNNN..NNNN...",
                "...NNNNNNNNNN...",
                "..NNN.ee.ee.NNN.",
                "..NNNNNNNNNNNN..",
                "..SSSSSSSSSSSS..",
                ".SSS.SSSSSS.SSS.",
                ".SS...SSSS...SS.",
                "..SSS.SSSS.SSS..",
                "...SSSSSSSSSS...",
                "....SS....SS....",
                "...SSS....SSS...",
            ];
        proof {
            assert(lines_of(lines@) =~= enemy_art(sprite_key@));
        }
        PixelSprite::from_lines(lines)
    } else if str_eq(sprite_key, "boss_skeleton") {
        let lines: &[&str] = &[
                "..YY........YY..",
                "...WWWWWWWWWW...",
                "..WWWWWWWWWWWW..",
                "..WW..ee.ee.WW..",
                "..WWWWWWWWWWWW..",
                "...WWWW..WWWW...",
                "..WWWWWWWWWWWW..",
                "..WW..WWWW..WW..",
                "..WWWWWWWWWWWW..",
                "...WWWW..WWWW...",
                "...WWW....WWW...",
                "..WWWW....WWWW..",
            ];
        proof {
            assert(lines_of(lines@) =~= enemy_art(sprite_key@));
        }
        PixelSprite::from_lines(lines)
    } else if str_eq(sprite_key, "boss_wolf") {
        let lines: &[&str] = &[
                ".YMM......MMY...",
                "MMMMM..MMMMM....",
                "MM.MMMMM.MMMMM..",
                "MM.ee..ee.MMMM..",
                ".MMMMMMMMMMMM...",
                "..MMMMMMMMMM....",
                ".MMMMMMMMMMMM...",
                ".MMM.MMMM.MMM...",
                ".MM..MMMM..MM...",
                ".MM..MMMM..MM...",
                ".MM........MM...",
                "MMMM......MMMM..",
            ];
        proof {
            assert(lines_of(lines@) =~= enemy_art(sprite_key@));
        }
        PixelSprite::from_lines(lines)
    } else if str_eq(sprite_key, "boss_slime") {
        let lines: &[&str] = &[
                "..YY..nnnnnn..YY",
                "...nnnnnnnnnnn..",
                "..nnnnnnnnnnnn..",
                ".nn..ee..ee..nn.",
                ".nnnnnnnnnnnnnn.",
                ".nn.Yn.Cn.Yn.nn.",
                ".nnnnnnnnnnnnnn.",
                ".nnnnnnnnnnnnnn.",
                "..nnnnnnnnnnnn..",
                "...nnnnnnnnnn...",
                "..n..nn..nn..n..",
                ".n...nn..nn...n.",
            ];
        proof {
            assert(lines_of(lines@) =~= enemy_art(sprite_key@));
        }
        PixelSprite::from_lines(lines)
    } else {
        let lines: &[&str] = &[
                "..GGGGGG..",
                ".GGGGGGGG.",
                ".GG.GG.GG.",
                ".GGGGGGGG.",
                "..GGGGGG..",
                ".GGGGGGGG.",
                ".GG.GG.GG.",
                ".GGGGGGGG.",
                "..GGGGGG..",
                "...GG.GG..",
                "..GGG.GGG.",
                "............",
            ];
        proof {
            assert(lines_of(lines@) =~= enemy_art(sprite_key@));
        }
        PixelSprite::from_lines(lines)
    }
}

/// The pieces a row of a biome's backdrop repeats, for a row in `0 .. 8`
/// of the backdrop's eight-row cycle.
pub open spec fn backdrop_pieces(biome: Biome, row: int) -> Seq<Seq<char>> {
    match biome {
        Biome::Forest => if row == 0 {
            seq![" .  "@, "   ."@, " .  "@, "    "@, "  . "@, "    "@]
        } else if row == 1 {
            seq![" /\\ "@, "    "@, "    "@, " /\\ "@, "    "@, "    "@]
        } else if row == 2 {
            seq!["/||\\ "@, "    "@, "   "@, "/||\\ "@, "    "@, "   "@]
        } else if row == 3 {
            seq![" ||  "@, "  * "@, "   "@, " ||  "@, "    "@, " ,  "@]
        } else if row == 4 {
            seq![" ||  "@, "    "@, "   "@, " ||  "@, "    "@, "    "@]
        } else if row == 5 {
            seq![" ||  "@, "    "@, "   "@, " ||  "@, "    "@, "    "@]
        } else if row == 6 {
            seq![" ||  "@, " .  "@, " . "@, " ||  "@, " .  "@, "    "@]
        } else {
            seq![" .   "@, "     "@, " .   "@, "     "@, " .   "@, "    "@]
        },
        Biome::Crypt => if row == 0 {
            seq!["#### "@, "     "@, "     "@, "#### "@, "     "@, "    "@]
        } else if row == 1 {
            seq!["|  | "@, "  +  "@, "     "@, "|  | "@, "  +  "@, "    "@]
        } else if row == 2 {
            seq!["|  | "@, "     "@, "     "@, "|  | "@, "     "@, "    "@]
        } else if row == 3 {
            seq!["|  | "@, "     "@, "  *  "@, "|  | "@, "     "@, "    "@]
        } else if row == 4 {
            seq!["|  | "@, "     "@, "     "@, "|  | "@, "     "@, "    "@]
        } else if row == 5 {
            seq!["|  | "@, "  .  "@, "     "@, "|  | "@, "  .  "@, "    "@]
        } else if row == 6 {
            seq!["|  | "@, "     "@, "     "@, "|  | "@, "     "@, "    "@]
        } else {
            seq!["#### "@, "  .  "@, "     "@, "#### "@, "  .  "@, "    "@]
        },
        Biome::Volcano => if row == 0 {
            seq!["  * "@, "  . "@, "    "@, " *  "@, "  . "@, "    "@]
        } else if row == 1 {
            seq!["    "@, " *  "@, "    "@, "    "@, " *  "@, "    "@]
        } else if row == 2 {
            seq!["    "@, "    "@, " ^^ "@, "    "@, "    "@, " ^^ "@]
        } else if row == 3 {
            seq![" /\\  "@, "    "@, "    "@, " /\\ "@, "    "@, "    "@]
        } else if row == 4 {
            seq!["/\\/\\ "@, "    "@, "    "@, "/\\/\\"@, "    "@, "    "@]
        } else if row == 5 {
            seq!["/\\/\\ "@, " ~~ "@, "    "@, "/\\/\\"@, " ~~ "@, "    "@]
        } else if row == 6 {
            seq!["~~~~ "@, "~~~~"@, "    "@, "~~~~"@, "~~~~"@, "    "@]
        } else {
            seq![" ~   "@, "  ~  "@, "     "@, " ~   "@, "  ~  "@, "    "@]
        },
        Biome::Abyss => if row == 0 {
            seq!["  * "@, "  . "@, "    "@, " *  "@, "  . "@, "    "@]
        } else if row == 1 {
            seq![" .  "@, "    "@, " *  "@, "    "@, " .  "@, "    "@]
        } else if row == 2 {
            seq!["    "@, " :  "@, "    "@, "    "@, "  : "@, "    "@]
        } else if row == 3 {
            seq!["  | "@, "    "@, "  * "@, "  | "@, "    "@, "    "@]
        } else if row == 4 {
            seq!["  | "@, "    "@, "    "@, "  | "@, "    "@, "    "@]
        } else if row == 5 {
            seq!["  | "@, " .  "@, "    "@, "  | "@, "  . "@, "    "@]
        } else if row == 6 {
            seq!["  : "@, "    "@, "  . "@, "  : "@, "    "@, "    "@]
        } else {
            seq!["  .  "@, " .   "@, "     "@, "  .  "@, " .   "@, "    "@]
        },
        Biome::Void => if row == 0 {
            seq!["  + "@, "    "@, "  . "@, "    "@, " +  "@, "    "@]
        } else if row == 1 {
            seq!["    "@, " .  "@, "    "@, " +  "@, "    "@, "    "@]
        } else if row == 2 {
            seq![" :: "@, "    "@, "    "@, " :: "@, "    "@, "    "@]
        } else if row == 3 {
            seq!["    "@, " @  "@, "    "@, "    "@, "  @ "@, "    "@]
        } else if row == 4 {
            seq![" .  "@, "    "@, " :: "@, "    "@, " .  "@, "    "@]
        } else if row == 5 {
            seq!["    "@, "  . "@, "    "@, " .  "@, "    "@, "    "@]
        } else if row == 6 {
            seq![" :: "@, "    "@, " .  "@, " :: "@, "    "@, "    "@]
        } else {
            seq![" .   "@, "     "@, "     "@, " .   "@, "     "@, "    "@]
        },
    }
}

fn backdrop_pieces_of(biome: Biome, row: usize) -> (r: Vec<&'static str>)
    requires
        row < 8,
    ensures
        lines_of(r@) == backdrop_pieces(biome, row as int),
{
    let r = match biome {
        Biome::Forest => if row == 0 {
            vec![" .  ", "   .", " .  ", "    ", "  . ", "    "]
        } else if row == 1 {
            vec![" /\\ ", "    ", "    ", " /\\ ", "    ", "    "]
        } else if row == 2 {
            vec!["/||\\ ", "    ", "   ", "/||\\ ", "    ", "   "]
        } else if row == 3 {
            vec![" ||  ", "  * ", "   ", " ||  ", "    ", " ,  "]
        } else if row == 4 {
            vec![" ||  ", "    ", "   ", " ||  ", "    ", "    "]
        } else if row == 5 {
            vec![" ||  ", "    ", "   ", " ||  ", "    ", "    "]
        } else if row == 6 {
            vec![" ||  ", " .  ", " . ", " ||  ", " .  ", "    "]
        } else {
            vec![" .   ", "     ", " .   ", "     ", " .   ", "    "]
        },
        Biome::Crypt => if row == 0 {
            vec!["#### ", "     ", "     ", "#### ", "     ", "    "]
        } else if row == 1 {
            vec!["|  | ", "  +  ", "     ", "|  | ", "  +  ", "    "]
        } else if row == 2 {
            vec!["|  | ", "     ", "     ", "|  | ", "     ", "    "]
        } else if row == 3 {
            vec!["|  | ", "     ", "  *  ", "|  | ", "     ", "    "]
        } else if row == 4 {
            vec!["|  | ", "     ", "     ", "|  | ", "     ", "    "]
        } else if row == 5 {
            vec!["|  | ", "  .  ", "     ", "|  | ", "  .  ", "    "]
        } else if row == 6 {
            vec!["|  | ", "     ", "     ", "|  | ", "     ", "    "]
        } else {
            vec!["#### ", "  .  ", "     ", "#### ", "  .  ", "    "]
        },
        Biome::Volcano => if row == 0 {
            vec!["  * ", "  . ", "    ", " *  ", "  . ", "    "]
        } else if row == 1 {
            vec!["    ", " *  ", "    ", "    ", " *  ", "    "]
        } else if row == 2 {
            vec!["    ", "    ", " ^^ ", "    ", "    ", " ^^ "]
        } else if row == 3 {
            vec![" /\\  ", "    ", "    ", " /\\ ", "    ", "    "]
        } else if row == 4 {
            vec!["/\\/\\ ", "    ", "    ", "/\\/\\", "    ", "    "]
        } else if row == 5 {
            vec!["/\\/\\ ", " ~~ ", "    ", "/\\/\\", " ~~ ", "    "]
        } else if row == 6 {
            vec!["~~~~ ", "~~~~", "    ", "~~~~", "~~~~", "    "]
        } else {
            vec![" ~   ", "  ~  ", "     ", " ~   ", "  ~  ", "    "]
        },
        Biome::Abyss => if row == 0 {
            vec!["  * ", "  . ", "    ", " *  ", "  . ", "    "]
        } else if row == 1 {
            vec![" .  ", "    ", " *  ", "    ", " .  ", "    "]
        } else if row == 2 {
            vec!["    ", " :  ", "    ", "    ", "  : ", "    "]
        } else if row == 3 {
            vec!["  | ", "    ", "  * ", "  | ", "    ", "    "]
        } else if row == 4 {
            vec!["  | ", "    ", "    ", "  | ", "    ", "    "]
        } else if row == 5 {
            vec!["  | ", " .  ", "    ", "  | ", "  . ", "    "]
        } else if row == 6 {
            vec!["  : ", "    ", "  . ", "  : ", "    ", "    "]
        } else {
            vec!["  .  ", " .   ", "     ", "  .  ", " .   ", "    "]
        },
        Biome::Void => if row == 0 {
            vec!["  + ", "    ", "  . ", "    ", " +  ", "    "]
        } else if row == 1 {
            vec!["    ", " .  ", "    ", " +  ", "    ", "    "]
        } else if row == 2 {
            vec![" :: ", "    ", "    ", " :: ", "    ", "    "]
        } else if row == 3 {
            vec!["    ", " @  ", "    ", "    ", "  @ ", "    "]
        } else if row == 4 {
            vec![" .  ", "    ", " :: ", "    ", " .  ", "    "]
        } else if row == 5 {
            vec!["    ", "  . ", "    ", " .  ", "    ", "    "]
        } else if row == 6 {
            vec![" :: ", "    ", " .  ", " :: ", "    ", "    "]
        } else {
            vec![" .   ", "     ", "     ", " .   ", "     ", "    "]
        },
    };
    proof {
        assert(lines_of(r@) =~= backdrop_pieces(biome, row as int));
    }
    r
}

/// The pieces of a row of backdrop laid end to end.
pub open spec fn flatten(pieces: Seq<Seq<char>>) -> Seq<char>
    decreases pieces.len(),
{
    if pieces.len() == 0 {
        Seq::empty()
    } else {
        flatten(pieces.drop_last()) + pieces.last()
    }
}

/// One row of a biome's backdrop, `w` characters wide: its pieces repeated
/// from the start, cut at `w`.
pub open spec fn backdrop_row(biome: Biome, row: int, w: int) -> Seq<char> {
    let cycle = flatten(backdrop_pieces(biome, row % 8));
    if cycle.len() == 0 {
        Seq::empty()
    } else {
        Seq::new(w as nat, |i: int| cycle[i % cycle.len() as int])
    }
}

/// One row of the biome's backdrop, `w` characters wide.
pub fn get_bg_pattern(biome: Biome, row: usize, w: usize) -> (line: String)
    ensures
        line@ == backdrop_row(biome, row as int, w as int),
{
    let pieces = backdrop_pieces_of(biome, row % 8);
    let mut cycle: Vec<char> = Vec::new();
    let mut k: usize = 0;
    let ghost ps = lines_of(pieces@);
    proof {
        assert(ps.subrange(0, 0) =~= Seq::<Seq<char>>::empty());
    }
    while k < pieces.len()
        invariant
            ps == lines_of(pieces@),
            k <= pieces@.len(),
            cycle@ == flatten(ps.subrange(0, k as int)),
        decreases pieces@.len() - k,
    {
        let piece = chars_of(pieces[k]);
        let mut j: usize = 0;
        let ghost start = cycle@;
        while j < piece.len()
            invariant
                j <= piece@.len(),
                cycle@ == start + piece@.subrange(0, j as int),
            decreases piece@.len() - j,
        {
            cycle.push(piece[j]);
            proof {
                assert(piece@.subrange(0, j + 1) =~= piece@.subrange(0, j as int).push(piece@[j as int]));
            }
            j = j + 1;
        }
        proof {
            assert(piece@.subrange(0, j as int) =~= piece@);
            assert(ps.subrange(0, k + 1).drop_last() =~= ps.subrange(0, k as int));
        }
        k = k + 1;
    }
    proof {
        assert(ps.subrange(0, k as int) =~= ps);
    }
    let mut line = String::new();
    if cycle.len() == 0 {
        proof {
            assert(line@ =~= backdrop_row(biome, row as int, w as int));
        }
        return line;
    }
    let n = cycle.len();
    let mut i: usize = 0;
    while i < w
        invariant
            n == cycle@.len(),
            n > 0,
            i <= w,
            line@ == Seq::new(i as nat, |x: int| cycle@[x % n as int]),
        decreases w - i,
    {
        crate::text::push_char(&mut line, cycle[i % n]);
        proof {
            assert(line@ =~= Seq::new((i + 1) as nat, |x: int| cycle@[x % n as int]));
        }
        i = i + 1;
    }
    proof {
        assert(line@ =~= backdrop_row(biome, row as int, w as int));
    }
    line
}

/// A short name of a biome, for the map.
pub open spec fn biome_short_name(biome: Biome) -> Seq<char> {
    match biome {
        Biome::Forest => "Forest"@,
        Biome::Crypt => "Crypt"@,
        Biome::Volcano => "Volcan"@,
        Biome::Abyss => "Abyss"@,
        Biome::Void => "Void"@,
    }
}

pub fn biome_short(biome: Biome) -> (r: &'static str)
    ensures
        r@ == biome_short_name(biome),
{
    match biome {
        Biome::Forest => "Forest",
        Biome::Crypt => "Crypt",
        Biome::Volcano => "Volcan",
        Biome::Abyss => "Abyss",
        Biome::Void => "Void",
    }
}

/// An enemy's portrait in text by its sprite key; an unknown key gets
/// question marks.
pub open spec fn enemy_ascii_art(key: Seq<char>) -> Seq<char> {
    if key == "goblin"@ {
        r#"     /\_/\
    ( o.o )
    (> ^ <)
     /| |\
    (_| |_)"#@
    } else if key == "skeleton"@ {
        r#"     _☠_
    /o.o\
    |=+=|
    /| |\
   (_/ \_)"#@
    } else if key == "wolf"@ {
        r#"   /\    /\
  /  \../  \
 ( ◉    ◉  )
  \  <▽>  /
   '------'"#@
    } else if key == "slime"@ {
        r#"    .-"""-.
   /  o  o \
  |    __   |
   \  \__/ /
    '-..-'"#@
    } else if key == "boss_goblin"@ {
        r#"  ♛ ___/\___
   / ◉    ◉ \
  (  >>==<<  )
   \_|_/\_|_/
     |    |
    /|    |\"#@
    } else if key == "boss_skeleton"@ {
        r#"  ♛  _☠☠_
    /◉  ◉\
   |==++=+|
    \_||_/
    /|  |\
   (_/  \_)"#@
    } else if key == "boss_wolf"@ {
        r#"  ♛/\      /\
   /  \=*=/  \
  ( ◉◉    ◉◉ )
   \  <▽▽>  /
    '-======-'"#@
    } else if key == "boss_slime"@ {
        r#"  ♛.-"""""-.
   / ◉    ◉ \
  |  /‾‾‾\   |
  |  \___/   |
   \_________/"#@
    } else {
        r#"    ??????
    ?    ?
    ?    ?
    ??????
    ? ?? ?"#@
    }
}

/// The enemy's portrait in text for its sprite key.
pub fn get_enemy_art(sprite_key: &str) -> (art: String)
    ensures
        art@ == enemy_ascii_art(sprite_key@),
{
    if str_eq(sprite_key, "goblin") {
        String::from_str(r#"     /\_/\
    ( o.o )
    (> ^ <)
     /| |\
    (_| |_)"#)
    } else if str_eq(sprite_key, "skeleton") {
        String::from_str(r#"     _☠_
    /o.o\
    |=+=|
    /| |\
   (_/ \_)"#)
    } else if str_eq(sprite_key, "wolf") {
        String::from_str(r#"   /\    /\
  /  \../  \
 ( ◉    ◉  )
  \  <▽>  /
   '------'"#)
    } else if str_eq(sprite_key, "slime") {
        String::from_str(r#"    .-"""-.
   /  o  o \
  |    __   |
   \  \__/ /
    '-..-'"#)
    } else if str_eq(sprite_key, "boss_goblin") {
        String::from_str(r#"  ♛ ___/\___
   / ◉    ◉ \
  (  >>==<<  )
   \_|_/\_|_/
     |    |
    /|    |\"#)
    } else if str_eq(sprite_key, "boss_skeleton") {
        String::from_str(r#"  ♛  _☠☠_
    /◉  ◉\
   |==++=+|
    \_||_/
    /|  |\
   (_/  \_)"#)
    } else if str_eq(sprite_key, "boss_wolf") {
        String::from_str(r#"  ♛/\      /\
   /  \=*=/  \
  ( ◉◉    ◉◉ )
   \  <▽▽>  /
    '-======-'"#)
    } else if str_eq(sprite_key, "boss_slime") {
        String::from_str(r#"  ♛.-"""""-.
   / ◉    ◉ \
  |  /‾‾‾\   |
  |  \___/   |
   \_________/"#)
    } else {
        String::from_str(r#"    ??????
    ?    ?
    ?    ?
    ??????
    ? ?? ?"#)
    }
}

} // verus!
