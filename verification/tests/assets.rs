use game_client::client::GameClientInit;
use game_client::data::assets::{zero_atlas, Assets, Texture};
use game_client::error::ErrorKind;
use game_client::shared::{split_csv, SizeF32, AABB};

fn parse(text: &str) -> u32 {
    text.parse::<f32>().unwrap_or(0.0).to_bits()
}

fn sides(left: f32, top: f32, right: f32, bottom: f32) -> AABB {
    AABB {
        left: left.to_bits(),
        top: top.to_bits(),
        right: right.to_bits(),
        bottom: bottom.to_bits(),
    }
}

#[test]
fn a_table_is_split_into_rows_of_fields() {
    let rows = split_csv::<5>("TEXTURE;atlas;\nSHADER;sprites;a;b;c;d;e\n\nlonely\nCSV;x\ntrailing;text");
    assert_eq!(
        rows,
        vec![
            vec!["TEXTURE", "atlas", "\n"],
            vec!["SHADER", "sprites", "a", "b", "c"],
            vec!["CSV", "x\n"],
        ]
    );
    assert!(split_csv::<5>("").is_empty());
    assert!(split_csv::<5>("a;b;c").is_empty());
    assert_eq!(split_csv::<2>(";\n"), vec![vec!["", "\n"]]);
    assert!(split_csv::<1>("a;b\n").is_empty());
}

#[test]
fn what_the_host_hands_over_is_kept() {
    let mut init = GameClientInit::new();
    assert_eq!(init.max_texture_size, 2048);
    init.max_texture_size(8192);
    assert_eq!(init.max_texture_size, 4096);
    init.max_texture_size(512);
    assert_eq!(init.max_texture_size, 512);
    init.view_size(800.0f32.to_bits(), 600.0f32.to_bits());
    assert_eq!(init.view_size, SizeF32 { width: 800.0f32.to_bits(), height: 600.0f32.to_bits() });
    init.set_assets_bundle("SHADER;x;\n".to_string());
    init.upload_text_asset("a".to_string(), "1".to_string());
    init.upload_text_asset("a".to_string(), "2".to_string());
    init.upload_bin_asset("b".to_string(), vec![1, 2]);
    assert_eq!(init.assets_bundle, "SHADER;x;\n");
    assert_eq!(init.text_assets.get("a"), Some(&"2".to_string()));
    assert_eq!(init.text_assets.len(), 1);
    assert_eq!(init.bin_assets.get("b"), Some(&vec![1, 2]));
}

#[test]
fn assets_are_taken_in_by_the_index() {
    let mut init = GameClientInit::new();
    init.set_assets_bundle(
        "TEXTURE;atlas;atlas.png;\nTEXTURE;font;font.png;\nCSV;atlas_sprites;atlas.csv;\nFONT;firacode;fira.ttf;\nSHADER;sprites;sprites.glsl;\n"
            .to_string(),
    );
    init.upload_text_asset(
        "atlas_sprites".to_string(),
        "pawn_idle;6;0;0;384;64;\npawn_walk;4;0;64;256;128;\nknight_castle;1;0;128;320;384;\nknight_house;1;320;128;448;320;\nunknown;1;1;1;1;1;\nshort;1;\n"
            .to_string(),
    );
    init.upload_bin_asset("firacode".to_string(), vec![7, 7, 7]);
    let mut assets = Assets::new();
    assets.init(&init, parse).unwrap();
    assert_eq!(assets.textures.get("atlas"), Some(&Texture { id: 0 }));
    assert_eq!(assets.textures.get("font"), Some(&Texture { id: 1 }));
    assert_eq!(assets.textures.get("TEST"), Some(&Texture { id: 999 }));
    assert_eq!(assets.atlas.texture, Texture { id: 0 });
    assert_eq!(assets.fonts.get("firacode"), Some(&vec![7, 7, 7]));
    assert_eq!(assets.atlas.pawn_idle.frame_count, 6);
    assert_eq!(assets.atlas.pawn_idle.sprite_base, sides(0.0, 0.0, 384.0, 64.0));
    assert_eq!(assets.atlas.pawn_walk.frame_count, 4);
    assert_eq!(assets.atlas.castle.texcoord, sides(0.0, 128.0, 320.0, 384.0));
    assert_eq!(assets.atlas.house.texcoord, sides(320.0, 128.0, 448.0, 320.0));
}

#[test]
fn the_failures_of_the_index_are_told_as_one() {
    let mut init = GameClientInit::new();
    init.set_assets_bundle(
        "TEXTURE;atlas;\nCSV;nothing;\nMUSIC;song;\nFONT;none;\nSHADER;s;\n".to_string(),
    );
    let mut assets = Assets::new();
    let error = assets.init(&init, parse).unwrap_err();
    assert_eq!(error.kind(), ErrorKind::Assets);
    assert_eq!(error.count(), 3);
    assert_eq!(error.message(0), "Failed to match csv name to csv data");
    assert_eq!(error.message(1), "Unknown asset type MUSIC");
    assert_eq!(error.message(2), "Failed to match font name to font data");
    assert_eq!(assets.textures.get("atlas"), Some(&Texture { id: 0 }));
}

#[test]
fn an_index_without_the_atlas_fails() {
    let mut init = GameClientInit::new();
    init.set_assets_bundle("TEXTURE;other;\n".to_string());
    let mut assets = Assets::new();
    let error = assets.init(&init, parse).unwrap_err();
    assert_eq!(error.kind(), ErrorKind::Assets);
    assert_eq!(error.message(0), "Missing texture \"atlas\" ");
    init.set_assets_bundle("TEXTURE;atl\u{e4}s;\n".to_string());
    let error = Assets::new().init(&init, parse).unwrap_err();
    assert_eq!(error.message(0), "Asset index is not ASCII");
}

#[test]
fn rows_name_what_they_miss() {
    let init = GameClientInit::new();
    let mut assets = Assets::new();
    let row = vec!["TEXTURE"];
    assert_eq!(assets.load_texture(&row).unwrap_err().message(0), "Missing texture name");
    assert_eq!(assets.load_font(&init, &row).unwrap_err().message(0), "Missing font name");
    assert_eq!(assets.load_csv(&init, &row, &parse).unwrap_err().message(0), "Missing csv name");
    let row = vec!["TEXTURE", "first"];
    assets.load_texture(&row).unwrap();
    let row = vec!["TEXTURE", "second"];
    assets.load_texture(&row).unwrap();
    assert_eq!(assets.textures.get("second"), Some(&Texture { id: 1 }));
}

#[test]
fn a_row_sets_the_sprite_that_it_names() {
    let mut atlas = zero_atlas();
    atlas.set_row("pawn_idle", Some(6), sides(0.0, 1.0, 60.0, 21.0));
    assert_eq!(atlas.pawn_idle.frame_count, 6);
    assert_eq!(atlas.pawn_idle.sprite_base, sides(0.0, 1.0, 60.0, 21.0));
    atlas.set_row("pawn_walk", None, sides(0.0, 30.0, 60.0, 50.0));
    assert_eq!(atlas.pawn_walk.frame_count, 0);
    assert_eq!(atlas.pawn_walk.sprite_base, sides(0.0, 30.0, 60.0, 50.0));
    atlas.set_row("knight_castle", Some(9), sides(1.0, 2.0, 3.0, 4.0));
    assert_eq!(atlas.castle.texcoord, sides(1.0, 2.0, 3.0, 4.0));
    atlas.set_row("knight_house", Some(9), sides(5.0, 6.0, 7.0, 8.0));
    assert_eq!(atlas.house.texcoord, sides(5.0, 6.0, 7.0, 8.0));
    let before = atlas;
    atlas.set_row("dragon", Some(3), sides(9.0, 9.0, 9.0, 9.0));
    assert_eq!(atlas, before);
}

#[test]
fn a_number_of_frames_that_is_no_number_counts_as_zero() {
    let mut atlas = zero_atlas();
    atlas.load_csv("pawn_idle;six;0;0;60;20;\npawn_walk;007;0;0;60;20;\n", &parse);
    assert_eq!(atlas.pawn_idle.frame_count, 0);
    assert_eq!(atlas.pawn_walk.frame_count, 7);
    atlas.load_csv("pawn_idle;4294967296;0;0;60;20;\npawn_walk;-1;0;0;60;20;\n", &parse);
    assert_eq!(atlas.pawn_idle.frame_count, 0);
    assert_eq!(atlas.pawn_walk.frame_count, 0);
    atlas.load_csv("pawn_idle;4294967295;0;0;60;20;\n", &parse);
    assert_eq!(atlas.pawn_idle.frame_count, 4294967295);
}
