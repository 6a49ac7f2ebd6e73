use lexicon_reaper::sprites::{
    biome_short, get_enemy_art, get_bg_pattern, get_enemy_sprite, get_player_sprite, pixel_color, pose_of, PixelSprite,
    PlayerPose,
};
use lexicon_reaper::stage::Biome;
use lexicon_reaper::state::CombatPhase;

#[test]
fn a_sprite_is_as_wide_as_its_widest_line() {
    let s = PixelSprite::from_lines(&["..", "....", "."]);
    assert_eq!(s.width, 4);
    assert_eq!(s.height, 3);
    assert_eq!(s.rows[1], vec!['.', '.', '.', '.']);
    let empty = PixelSprite::from_lines(&[]);
    assert_eq!((empty.width, empty.height), (0, 0));
}

#[test]
fn the_player_strikes_a_pose_for_each_phase() {
    let attack = CombatPhase::PlayerAttackAnim { damage: 3, is_crit: false, word: "CAT".to_string(), ticks_remaining: 8 };
    assert_eq!(pose_of(&attack), PlayerPose::Attack);
    let late = CombatPhase::PlayerAttackAnim { damage: 3, is_crit: false, word: "CAT".to_string(), ticks_remaining: 5 };
    assert_eq!(pose_of(&late), PlayerPose::Idle);
    assert_eq!(pose_of(&CombatPhase::EnemyHitAnim { damage: 4, dodged: false, ticks_remaining: 2 }), PlayerPose::Hurt);
    assert_eq!(pose_of(&CombatPhase::EnemyHitAnim { damage: 0, dodged: true, ticks_remaining: 2 }), PlayerPose::Dodge);
    assert_eq!(pose_of(&CombatPhase::Walking { ticks_remaining: 5 }), PlayerPose::StepOne);
    assert_eq!(pose_of(&CombatPhase::Walking { ticks_remaining: 6 }), PlayerPose::StepTwo);
    assert_eq!(pose_of(&CombatPhase::PlayerInput), PlayerPose::Idle);
    let idle = get_player_sprite(&CombatPhase::PlayerInput);
    assert_eq!((idle.width, idle.height), (12, 12));
    let row: String = idle.rows[0].iter().collect();
    assert_eq!(row, "....PPPP....");
    let hurt = get_player_sprite(&CombatPhase::EnemyHitAnim { damage: 4, dodged: false, ticks_remaining: 2 });
    let row: String = hurt.rows[2].iter().collect();
    assert_eq!(row, "PP.ee.PP....");
}

#[test]
fn enemies_have_sprites_and_unknown_keys_a_blob() {
    let goblin = get_enemy_sprite("goblin");
    let row: String = goblin.rows[0].iter().collect();
    assert_eq!(row, "..NN....NN..");
    let boss = get_enemy_sprite("boss_slime");
    assert_eq!(boss.width, 16);
    let blob = get_enemy_sprite("dragon");
    let row: String = blob.rows[0].iter().collect();
    assert_eq!(row, "..GGGGGG..");
    assert_eq!(blob.width, 12);
    assert_eq!(blob.height, 12);
}

#[test]
fn pixel_codes_map_to_colours() {
    assert_eq!(pixel_color('.'), None);
    assert_eq!(pixel_color('K'), Some((30, 30, 40)));
    assert_eq!(pixel_color('e'), Some((255, 50, 50)));
    assert_eq!(pixel_color('?'), None);
}

#[test]
fn backdrop_rows_repeat_their_pieces() {
    assert_eq!(get_bg_pattern(Biome::Forest, 0, 10), " .     . .");
    assert_eq!(get_bg_pattern(Biome::Crypt, 8, 7), "####   ");
    assert_eq!(get_bg_pattern(Biome::Void, 3, 0), "");
    let wide = get_bg_pattern(Biome::Abyss, 4, 100);
    assert_eq!(wide.chars().count(), 100);
    assert_eq!(biome_short(Biome::Volcano), "Volcan");
    assert_eq!(biome_short(Biome::Void), "Void");
}

#[test]
fn enemies_have_text_portraits() {
    let goblin = get_enemy_art("goblin");
    assert_eq!(goblin.lines().count(), 5);
    assert_eq!(goblin.lines().next(), Some("     /\\_/\\"));
    assert!(get_enemy_art("boss_wolf").contains('♛'));
    assert_eq!(get_enemy_art("nobody").lines().next(), Some("    ??????"));
}
