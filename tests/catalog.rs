use allium_entry::file_search::{DirEntryInfo, FileSearch, FindStep};
use allium_entry::game::{sort_games, Game, GameRecord};
use allium_entry::lazy_image::{
    first_existing, image_extension, is_image_extension, scrape_config_path, search_depth, search_plan,
    LazyImage,
};
use allium_entry::path::{last_dot_index, name_extension, name_stem, name_with_extension, GamePath};
use allium_entry::scrape::{image_url_from_page, rewrite_src, search_url, ScraperConfig};
use std::cmp::Ordering;

fn rel(parts: &[&str]) -> GamePath {
    GamePath::new(false, parts.iter().map(|s| s.to_string()).collect())
}

fn abs(parts: &[&str]) -> GamePath {
    GamePath::new(true, parts.iter().map(|s| s.to_string()).collect())
}

fn game(name: &str, ext: &str) -> Game {
    let file = format!("{}.{}", name, ext);
    Game::new(rel(&["roms", &file]), name.to_string())
}

fn config() -> ScraperConfig {
    ScraperConfig {
        url_template: "https://art.example/search?q={}".to_string(),
        img_selector: "img.cover".to_string(),
        regex_pattern: "/thumb/".to_string(),
        replacement_string: "/full/".to_string(),
    }
}

#[test]
fn names_split_at_last_dot() {
    assert_eq!(last_dot_index("a.b.c"), Some(3));
    assert_eq!(last_dot_index("abc"), None);
    assert_eq!(name_stem("Game (USA).bin"), "Game (USA)");
    assert_eq!(name_extension("Game (USA).bin"), Some("bin".to_string()));
    assert_eq!(name_stem("archive.tar.gz"), "archive.tar");
    assert_eq!(name_extension("archive.tar.gz"), Some("gz".to_string()));
    assert_eq!(name_stem(".hidden"), ".hidden");
    assert_eq!(name_extension(".hidden"), None);
    assert_eq!(name_extension("noext"), None);
    assert_eq!(name_extension("trailing."), Some(String::new()));
    assert_eq!(name_stem(".."), "..");
    assert_eq!(name_with_extension("Game.bin", "png"), "Game.png");
    assert_eq!(name_with_extension("Game", "png"), "Game.png");
}

#[test]
fn path_edits() {
    let mut p = rel(&["roms", "ps", "Game.cue"]);
    assert_eq!(p.file_name(), Some("Game.cue".to_string()));
    assert_eq!(p.file_stem(), Some("Game".to_string()));
    assert_eq!(p.extension(), Some("cue".to_string()));
    assert_eq!(p.prefix(1), rel(&["roms"]));
    p.set_extension("png");
    assert_eq!(p, rel(&["roms", "ps", "Game.png"]));
    let mut q = rel(&["Imgs"]);
    q.extend_from(&p, 1);
    assert_eq!(q, rel(&["Imgs", "ps", "Game.png"]));
    assert!(p.same_as(&rel(&["roms", "ps", "Game.png"])));
    assert!(!p.same_as(&abs(&["roms", "ps", "Game.png"])));
    assert_eq!(rel(&[]).file_name(), None);
}

#[test]
fn image_extensions_in_order() {
    assert_eq!(image_extension(0), "png");
    assert_eq!(image_extension(1), "jpg");
    assert_eq!(image_extension(2), "jpeg");
    assert_eq!(image_extension(3), "gif");
    assert!(is_image_extension("jpeg"));
    assert!(!is_image_extension("bin"));
    assert!(!is_image_extension("PNG"));
}

#[test]
fn plan_walks_up_to_root() {
    let game = abs(&["mnt", "SDCARD", "Roms", "PS", "sub", "Game.bin"]);
    let root = abs(&["mnt", "SDCARD", "Roms"]);
    let plan = search_plan(&game, &root);
    assert_eq!(plan.len(), 3);
    assert_eq!(search_depth(&game, &root), 3);
    assert_eq!(plan[0].imgs_dir, abs(&["mnt", "SDCARD", "Roms", "PS", "sub", "Imgs"]));
    assert_eq!(plan[2].imgs_dir, abs(&["mnt", "SDCARD", "Roms", "Imgs"]));
    assert_eq!(plan[2].candidates.len(), 8);
    assert_eq!(plan[2].candidates[0], abs(&["mnt", "SDCARD", "Roms", "Imgs", "Game.png"]));
    assert_eq!(plan[2].candidates[3], abs(&["mnt", "SDCARD", "Roms", "Imgs", "Game.gif"]));
    assert_eq!(
        plan[2].candidates[6],
        abs(&["mnt", "SDCARD", "Roms", "Imgs", "PS", "sub", "Game.jpeg"])
    );
    assert_eq!(
        scrape_config_path(&game, &root),
        abs(&["mnt", "SDCARD", "Roms", "scraper_config.json"])
    );
}

#[test]
fn plan_outside_root_walks_to_top() {
    let game = rel(&["roms", "Game.bin"]);
    let root = abs(&["mnt", "SDCARD", "Roms"]);
    let plan = search_plan(&game, &root);
    assert_eq!(plan.len(), 2);
    assert_eq!(plan[1].imgs_dir, rel(&["Imgs"]));
    assert_eq!(scrape_config_path(&game, &root), rel(&["scraper_config.json"]));
    assert_eq!(search_plan(&rel(&[]), &root).len(), 0);
}

#[test]
fn first_existing_takes_first_hit() {
    let game = rel(&["roms", "a", "Game.bin"]);
    let root = rel(&["roms"]);
    let plan = search_plan(&game, &root);
    let dirs = vec![false, true];
    let files = vec![vec![true; 8], vec![false, false, true, true, false, false, false, false]];
    assert_eq!(first_existing(&plan, &dirs, &files), Some(rel(&["roms", "Imgs", "Game.jpeg"])));
    let none = vec![vec![false; 8], vec![false; 8]];
    assert_eq!(first_existing(&plan, &dirs, &none), None);
    assert_eq!(first_existing(&plan, &vec![], &files), None);
}

#[test]
fn scenario_sibling_imgs_png() {
    let game = rel(&["roms", "Game (USA).bin"]);
    let root = rel(&["roms"]);
    let mut image = LazyImage::from_path(&game, None);
    let plan = search_plan(&game, &root);
    let mut files = vec![vec![false; 8]; plan.len()];
    files[0][0] = true;
    let local = first_existing(&plan, &vec![true; plan.len()], &files);
    assert!(!image.needs_scrape(&local));
    let png = rel(&["roms", "Imgs", "Game (USA).png"]);
    assert_eq!(image.image(local, None), Some(png.clone()));
    assert_eq!(image, LazyImage::Found(png));
}

#[test]
fn scenario_game_is_its_own_image() {
    let game = rel(&["roms", "shooter.jpg"]);
    let mut image = LazyImage::from_path(&game, None);
    let plan = search_plan(&game, &rel(&["roms"]));
    let local = first_existing(&plan, &vec![false; plan.len()], &vec![vec![false; 8]; plan.len()]);
    assert_eq!(local, None);
    assert!(!image.needs_scrape(&local));
    assert_eq!(image.image(local, None), Some(game.clone()));
    assert_eq!(image.try_image(), Some(&game));
}

#[test]
fn scenario_scraped_image() {
    let game = rel(&["roms", "Tetris (World).bin"]);
    let mut image = LazyImage::from_path(&game, None);
    assert!(image.needs_scrape(&None));
    let config = config();
    assert_eq!(search_url(&config.url_template, "Tetris"), "https://art.example/search?q=Tetris");
    let page = "<html><body><img src=\"/x.png\"><img class=\"cover\" src=\"https://cdn.example/thumb/t.png\"></body></html>";
    let url = image_url_from_page(&config, page);
    assert_eq!(url, Some("https://cdn.example/full/t.png".to_string()));
    let downloaded = rel(&["Tetris (World)"]);
    assert_eq!(image.image(None, Some(downloaded.clone())), Some(downloaded.clone()));
    assert_eq!(image, LazyImage::Found(downloaded));
}

#[test]
fn scenario_no_config_not_found() {
    let game = rel(&["roms", "Game.bin"]);
    let mut image = LazyImage::from_path(&game, None);
    assert!(image.needs_scrape(&None));
    assert_eq!(image.image(None, None), None);
    assert_eq!(image, LazyImage::NotFound);
    assert_eq!(image.try_image(), None);
}

#[test]
fn scenario_tetris_cue_first() {
    let bin = game("Tetris", "bin");
    let cue = game("Tetris", "cue");
    let mut games = vec![bin.clone(), cue.clone()];
    sort_games(&mut games);
    assert_eq!(games[0].extension, "cue");
    assert_eq!(games[1].extension, "bin");
    assert_eq!(cue.cmp(&bin), Ordering::Less);
    assert_eq!(bin.cmp(&cue), Ordering::Greater);
}

#[test]
fn cue_first_whatever_other_extension() {
    let cue = game("Disc", "cue");
    for ext in ["aaa", "bin", "cu", "cuex", "iso", "zzz"] {
        let other = game("Disc", ext);
        assert_eq!(cue.cmp(&other), Ordering::Less);
        assert_eq!(other.cmp(&cue), Ordering::Greater);
    }
}

#[test]
fn order_is_total() {
    let a = game("Alpha", "zip");
    let b = game("Beta", "bin");
    let c = game("Beta", "iso");
    let cue = game("Beta", "cue");
    assert_eq!(a.cmp(&a), Ordering::Equal);
    assert_eq!(cue.cmp(&cue), Ordering::Equal);
    assert_eq!(a.cmp(&b), Ordering::Less);
    assert_eq!(b.cmp(&a), Ordering::Greater);
    assert_eq!(b.cmp(&c), Ordering::Less);
    assert_eq!(a.cmp(&c), Ordering::Less);
    assert_eq!(a.partial_cmp(&c), Some(Ordering::Less));
    assert_eq!(game("Zeta", "a").cmp(&game("alpha", "a")), Ordering::Less);
    assert_eq!(game("Ab", "a").cmp(&game("Abc", "a")), Ordering::Less);
    let mut once = vec![c.clone(), a.clone(), cue.clone(), b.clone()];
    sort_games(&mut once);
    let mut twice = once.clone();
    sort_games(&mut twice);
    assert_eq!(once, twice);
    assert_eq!(once, vec![a, cue, b, c]);
}

#[test]
fn resolve_is_cached() {
    let game = rel(&["roms", "Game.bin"]);
    let mut image = LazyImage::from_path(&game, None);
    let first = image.image(Some(rel(&["roms", "Imgs", "Game.png"])), None);
    let second = image.image(None, None);
    assert_eq!(first, second);
    let mut missing = LazyImage::from_path(&game, None);
    assert_eq!(missing.image(None, None), None);
    assert_eq!(missing.image(Some(rel(&["x.png"])), Some(rel(&["y.png"]))), None);
    assert_eq!(missing, LazyImage::NotFound);
}

#[test]
fn try_image_only_after_found() {
    let game = rel(&["roms", "Game.png"]);
    let mut image = LazyImage::from_path(&game, None);
    assert_eq!(image.try_image(), None);
    assert_eq!(image.pending(), Some(&game));
    assert_eq!(image, LazyImage::Unknown(game.clone()));
    image.image(None, None);
    assert_eq!(image.try_image(), Some(&game));
    assert_eq!(image.pending(), None);
    let known = LazyImage::from_path(&game, Some(rel(&["art.png"])));
    assert_eq!(known.try_image(), Some(&rel(&["art.png"])));
}

#[test]
fn resync_keeps_existing_path() {
    let mut path = abs(&["mnt", "old", "Game.bin"]);
    let r = Game::resync(&mut path, true, Some(abs(&["mnt", "new", "Game.bin"])));
    assert_eq!(r, None);
    assert_eq!(path, abs(&["mnt", "old", "Game.bin"]));
}

#[test]
fn resync_moves_to_found_file() {
    let mut path = abs(&["mnt", "old", "Game.bin"]);
    let r = Game::resync(&mut path, false, Some(abs(&["mnt", "new", "Game.bin"])));
    assert_eq!(r, Some(abs(&["mnt", "old", "Game.bin"])));
    assert_eq!(path, abs(&["mnt", "new", "Game.bin"]));
}

#[test]
fn resync_without_match_keeps_path() {
    let mut path = abs(&["mnt", "old", "Game.bin"]);
    assert_eq!(Game::resync(&mut path, false, None), None);
    assert_eq!(path, abs(&["mnt", "old", "Game.bin"]));
    let r = Game::resync(&mut path, false, Some(abs(&["mnt", "new", "Other.bin"])));
    assert_eq!(r, None);
    assert_eq!(path, abs(&["mnt", "old", "Game.bin"]));
}

#[test]
fn new_and_from_db() {
    let g = Game::new(rel(&["roms", "Game (USA).bin"]), "Game".to_string());
    assert_eq!(g.full_name, "Game (USA)");
    assert_eq!(g.extension, "bin");
    assert_eq!(g.name, "Game");
    assert_eq!(g.core, None);
    assert_eq!(g.image, LazyImage::Unknown(rel(&["roms", "Game (USA).bin"])));
    let plain = Game::new(rel(&["roms", "README"]), "README".to_string());
    assert_eq!(plain.extension, "");
    let record = GameRecord {
        name: "Game".to_string(),
        path: rel(&["roms", "Game.gba"]),
        image: Some(rel(&["art", "Game.png"])),
    };
    let d = Game::from_db(record);
    assert_eq!(d.image, LazyImage::Found(rel(&["art", "Game.png"])));
    assert_eq!(d.extension, "gba");
    let mut d2 = d.clone();
    assert_eq!(d2.image(None, None), Some(rel(&["art", "Game.png"])));
}

#[test]
fn search_url_replaces_every_placeholder() {
    assert_eq!(search_url("a{}b{}", "X"), "aXbX");
    assert_eq!(search_url("{{}}", "k"), "{k}");
    assert_eq!(search_url("none", "k"), "none");
    assert_eq!(search_url("", "k"), "");
}

#[test]
fn page_without_match_or_bad_config_gives_nothing() {
    let config = config();
    assert_eq!(image_url_from_page(&config, "<html><body><p>no</p></body></html>"), None);
    assert_eq!(image_url_from_page(&config, "<img class=\"cover\">"), None);
    let mut bad_selector = config.clone();
    bad_selector.img_selector = "img[".to_string();
    assert_eq!(image_url_from_page(&bad_selector, "<img class=\"cover\" src=\"a\">"), None);
    let mut bad_regex = config.clone();
    bad_regex.regex_pattern = "(".to_string();
    assert_eq!(rewrite_src(&bad_regex, Some("a".to_string())), None);
    assert_eq!(rewrite_src(&config, None), None);
    assert_eq!(rewrite_src(&config, Some("x/thumb/y".to_string())), Some("x/full/y".to_string()));
}

#[test]
fn sort_rearranges_only() {
    let mut empty: Vec<Game> = vec![];
    sort_games(&mut empty);
    assert!(empty.is_empty());
    let mut games = vec![
        game("Zelda", "gba"),
        game("Tetris", "bin"),
        game("Mario", "nes"),
        game("Tetris", "cue"),
        game("Mario", "nes"),
    ];
    sort_games(&mut games);
    let keys: Vec<(String, String)> = games.iter().map(|g| (g.name.clone(), g.extension.clone())).collect();
    let expected = vec![
        ("Mario", "nes"),
        ("Mario", "nes"),
        ("Tetris", "cue"),
        ("Tetris", "bin"),
        ("Zelda", "gba"),
    ];
    let expected: Vec<(String, String)> = expected.iter().map(|(a, b)| (a.to_string(), b.to_string())).collect();
    assert_eq!(keys, expected);
}

fn entry(parts: &[&str], is_dir: bool) -> DirEntryInfo {
    DirEntryInfo { path: abs(parts), is_dir }
}

#[test]
fn file_search_depth_first() {
    let mut search = FileSearch::new("Game.bin".to_string());
    search.enter(vec![
        entry(&["g", "a"], true),
        entry(&["g", "Game.bin"], false),
    ]);
    assert_eq!(search.next(), FindStep::Enter(abs(&["g", "a"])));
    search.enter(vec![entry(&["g", "a", "Other.bin"], false), entry(&["g", "a", "b"], true)]);
    assert_eq!(search.next(), FindStep::Enter(abs(&["g", "a", "b"])));
    search.enter(vec![entry(&["g", "a", "b", "Game.bin"], false)]);
    assert_eq!(search.next(), FindStep::Found(abs(&["g", "a", "b", "Game.bin"])));
    assert_eq!(search.next(), FindStep::Found(abs(&["g", "Game.bin"])));
    assert_eq!(search.next(), FindStep::Exhausted);
}

#[test]
fn file_search_without_match() {
    let mut search = FileSearch::new("Game.bin".to_string());
    assert_eq!(search.next(), FindStep::Exhausted);
    search.enter(vec![entry(&["g", "Game.cue"], false), entry(&["g", "e"], true)]);
    assert_eq!(search.next(), FindStep::Enter(abs(&["g", "e"])));
    search.enter(vec![]);
    assert_eq!(search.next(), FindStep::Exhausted);
}
