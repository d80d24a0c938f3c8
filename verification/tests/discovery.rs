use cb_patcher::apply::{Action, Category, ProgressEvent};
use cb_patcher::config::{load_config, registry_key, registry_value, save_config};
use cb_patcher::discovery::{
    after_event, choose_mod_folder, common_steam_roots, game_dir_under, game_marker, game_places,
    mac_mods_dir_under, mods_dir_under, mods_places, steam_marker, AppState, Check, FolderChoice,
};
use cb_patcher::error::SyncError;

fn names(list: &[&str]) -> Vec<String> {
    list.iter().map(|s| s.to_string()).collect()
}

#[test]
fn folder_for_the_identifier_is_preferred() {
    let choice = choose_mod_folder(
        "3100000000",
        &names(&["other", "conch_blessing", "conch_blessing_3100000000"]),
    );
    assert!(matches!(&choice, FolderChoice::Exact(n) if n == "conch_blessing_3100000000"));
    assert_eq!(choice.folder_name(), Some("conch_blessing_3100000000".to_string()));
    assert_eq!(choice.status_message(), "Found mod: conch_blessing_3100000000");
}

#[test]
fn plain_folder_is_the_second_choice() {
    let choice = choose_mod_folder("1", &names(&["conch_blessing_2", "conch_blessing"]));
    assert!(matches!(choice, FolderChoice::Plain));
    assert_eq!(choice.folder_name(), Some("conch_blessing".to_string()));
    assert_eq!(choice.status_message(), "Found mod: conch_blessing");
}

#[test]
fn first_folder_with_the_plain_prefix_is_the_third_choice() {
    let choice = choose_mod_folder("1", &names(&["zzz", "conch_blessing_9", "conch_blessing_2"]));
    assert!(matches!(&choice, FolderChoice::Generic(n) if n == "conch_blessing_9"));
    assert_eq!(choice.folder_name(), Some("conch_blessing_9".to_string()));
    assert_eq!(choice.status_message(), "Found mod (generic match)");
}

#[test]
fn no_folder_of_the_mod_is_not_found() {
    let choice = choose_mod_folder("1", &names(&["conch", "other_mod"]));
    assert!(matches!(choice, FolderChoice::NotFound));
    assert_eq!(choice.folder_name(), None);
    assert_eq!(choice.status_message(), "Mod not found! Please install it first.");
    assert!(matches!(choose_mod_folder("1", &names(&[])), FolderChoice::NotFound));
}

#[test]
fn game_and_mods_folders_stand_below_steam() {
    assert_eq!(
        game_dir_under("C:\\Steam"),
        "C:\\Steam/steamapps/common/The Binding of Isaac Rebirth"
    );
    assert_eq!(
        mods_dir_under("/home/u/.steam"),
        "/home/u/.steam/steamapps/common/The Binding of Isaac Rebirth/mods"
    );
    assert_eq!(
        common_steam_roots(),
        names(&[
            "C:\\Program Files (x86)\\Steam",
            "C:\\Steam",
            "D:\\Steam",
            "E:\\Steam",
            "C:\\SteamLibrary",
            "D:\\SteamLibrary",
            "E:\\SteamLibrary",
        ])
    );
}

#[test]
fn front_end_state_follows_the_run() {
    let changed = ProgressEvent::Changed(Action { category: Category::New, path: "a".to_string() });
    assert_eq!(after_event(AppState::Syncing, &changed), AppState::Syncing);
    assert_eq!(after_event(AppState::Syncing, &ProgressEvent::Complete), AppState::Done);
    assert_eq!(
        after_event(AppState::Syncing, &ProgressEvent::Failed(SyncError::LocalIoError)),
        AppState::Error
    );
    assert_eq!(after_event(AppState::Idle, &ProgressEvent::Complete), AppState::Idle);
    assert_eq!(after_event(AppState::Done, &ProgressEvent::Failed(SyncError::RateLimited)), AppState::Done);
    assert_eq!(after_event(AppState::Checking, &ProgressEvent::Complete), AppState::Checking);
    assert_eq!(after_event(AppState::Error, &ProgressEvent::Complete), AppState::Error);
}

#[test]
fn load_config_finds_nothing_whatever_was_saved() {
    assert_eq!(load_config(), None);
    assert_eq!(save_config("/games/isaac"), Ok(()));
    assert_eq!(load_config(), None);
    assert_eq!(save_config("C:\\Games\\Isaac"), Ok(()));
    assert_eq!(save_config(""), Ok(()));
    assert_eq!(load_config(), None);
}

#[test]
fn registry_names_are_those_of_the_patcher() {
    assert_eq!(registry_key(), "Software\\Ba-koD\\cb_patcher");
    assert_eq!(registry_value(), "IsaacPath");
}

#[test]
fn search_for_the_folder_tells_how_it_ended() {
    let none = Check::NoModsFolder;
    assert_eq!(none.status_message(), "Mods folder not found inside game directory.");
    assert_eq!(none.next_state(AppState::Idle), AppState::Idle);
    assert_eq!(none.next_state(AppState::Done), AppState::Done);
    let failed = Check::MetadataFailed(SyncError::RemoteUnavailable);
    assert_eq!(failed.status_message(), "Failed to fetch metadata: Could not reach GitHub.");
    assert_eq!(failed.next_state(AppState::Idle), AppState::Error);
    let found = Check::Chosen(choose_mod_folder("7", &names(&["conch_blessing_7"])));
    assert_eq!(found.status_message(), "Found mod: conch_blessing_7");
    assert_eq!(found.next_state(AppState::Error), AppState::Idle);
    let missing = Check::Chosen(choose_mod_folder("7", &names(&["elsewhere"])));
    assert_eq!(missing.status_message(), "Mod not found! Please install it first.");
    assert_eq!(missing.next_state(AppState::Idle), AppState::Checking);
}

#[test]
fn places_to_look_come_in_order() {
    let roots = names(&["C:\\Steam", "D:\\SteamLibrary"]);
    let game = game_places(Some("R:\\Steam"), Some("P:\\Steam"), &roots);
    let dirs: Vec<&str> = game.iter().map(|p| p.dir.as_str()).collect();
    assert_eq!(
        dirs,
        vec![
            "R:\\Steam/steamapps/common/The Binding of Isaac Rebirth",
            "P:\\Steam/steamapps/common/The Binding of Isaac Rebirth",
            "C:\\Steam/steamapps/common/The Binding of Isaac Rebirth",
            "D:\\SteamLibrary/steamapps/common/The Binding of Isaac Rebirth",
        ]
    );
    assert_eq!(
        game[0].probe,
        "R:\\Steam/steamapps/common/The Binding of Isaac Rebirth/isaac-ng.exe"
    );
    assert_eq!(game[1].probe, game[1].dir);
    assert_eq!(game[3].probe, game[3].dir);
    assert!(game_places(None, None, &names(&[])).is_empty());

    let mods = mods_places(None, Some("P:\\Steam"), &roots, Some("/Users/u"));
    let dirs: Vec<&str> = mods.iter().map(|p| p.dir.as_str()).collect();
    assert_eq!(
        dirs,
        vec![
            "P:\\Steam/steamapps/common/The Binding of Isaac Rebirth/mods",
            "C:\\Steam/steamapps/common/The Binding of Isaac Rebirth/mods",
            "D:\\SteamLibrary/steamapps/common/The Binding of Isaac Rebirth/mods",
            "/Users/u/Library/Application Support/Binding of Isaac Rebirth/mods",
        ]
    );
    assert!(mods.iter().all(|p| p.probe == p.dir));
    assert_eq!(steam_marker(), "steam.exe");
    assert_eq!(game_marker(), "isaac-ng.exe");
    assert_eq!(
        mac_mods_dir_under("/Users/u"),
        "/Users/u/Library/Application Support/Binding of Isaac Rebirth/mods"
    );
}
