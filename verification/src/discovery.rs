//! Finding the folder to keep in step.
//!
//! Whether a directory exists only the caller can tell. The library says
//! where to look, and which of the folders that were found is the mod's.

use vstd::prelude::*;
use crate::apply::{EventView, ProgressEvent};
use crate::error::SyncError;
use crate::text::{chars_of, joined, same_text, starts_with};

verus! {

/// The name of the mod's folder without an identifier.
pub open spec fn plain_name() -> Seq<char> {
    "conch_blessing"@
}

/// The name of the mod's folder for an installation identifier.
pub open spec fn expected_name(id: Seq<char>) -> Seq<char> {
    "conch_blessing_"@ + id
}

/// Where the game stands below a Steam folder.
pub open spec fn game_dir_of(steam: Seq<char>) -> Seq<char> {
    steam + "/steamapps/common/The Binding of Isaac Rebirth"@
}

/// Where the game's mods stand below a Steam folder.
pub open spec fn mods_dir_of(steam: Seq<char>) -> Seq<char> {
    game_dir_of(steam) + "/mods"@
}

/// The game's folder below a Steam folder.
pub fn game_dir_under(steam: &str) -> (dir: String)
    ensures
        dir@ == game_dir_of(steam@),
{
    joined(steam, "/steamapps/common/The Binding of Isaac Rebirth")
}

/// The folder of the game's mods below a Steam folder.
pub fn mods_dir_under(steam: &str) -> (dir: String)
    ensures
        dir@ == mods_dir_of(steam@),
{
    let game = game_dir_under(steam);
    joined(game.as_str(), "/mods")
}

/// The file beside which Steam is found on the search path.
pub fn steam_marker() -> (name: String)
    ensures
        name@ == "steam.exe"@,
{
    "steam.exe".to_owned()
}

/// The file that shows a folder to be the game's.
pub fn game_marker() -> (name: String)
    ensures
        name@ == "isaac-ng.exe"@,
{
    "isaac-ng.exe".to_owned()
}

/// Where the game's mods stand below a home folder on a Mac.
pub open spec fn mac_mods_dir_of(home: Seq<char>) -> Seq<char> {
    home + "/Library/Application Support/Binding of Isaac Rebirth/mods"@
}

/// The folder of the game's mods below a home folder on a Mac.
pub fn mac_mods_dir_under(home: &str) -> (dir: String)
    ensures
        dir@ == mac_mods_dir_of(home@),
{
    joined(home, "/Library/Application Support/Binding of Isaac Rebirth/mods")
}

/// A place to look at: the folder that is the answer, and the path whose
/// presence on disk decides.
#[derive(Debug)]
pub struct Place {
    pub dir: String,
    pub probe: String,
}

/// A place as a mathematical value.
pub struct PlaceView {
    pub dir: Seq<char>,
    pub probe: Seq<char>,
}

impl View for Place {
    type V = PlaceView;

    open spec fn view(&self) -> PlaceView {
        PlaceView { dir: self.dir@, probe: self.probe@ }
    }
}

impl DeepView for Place {
    type V = PlaceView;

    open spec fn deep_view(&self) -> PlaceView {
        self@
    }
}

/// The one place that an optional folder gives.
pub open spec fn place_if(folder: Option<Seq<char>>, place: spec_fn(Seq<char>) -> PlaceView) -> Seq<
    PlaceView,
> {
    match folder {
        Some(f) => seq![place(f)],
        None => Seq::empty(),
    }
}

/// The game's folder below a Steam folder, decided by the game's file.
pub open spec fn game_by_marker(steam: Seq<char>) -> PlaceView {
    PlaceView { dir: game_dir_of(steam), probe: game_dir_of(steam) + "/isaac-ng.exe"@ }
}

/// The game's folder below a Steam folder, decided by its own presence.
pub open spec fn game_by_presence(steam: Seq<char>) -> PlaceView {
    PlaceView { dir: game_dir_of(steam), probe: game_dir_of(steam) }
}

/// The mods folder below a Steam folder, decided by its own presence.
pub open spec fn mods_by_presence(steam: Seq<char>) -> PlaceView {
    PlaceView { dir: mods_dir_of(steam), probe: mods_dir_of(steam) }
}

/// The mods folder below a home folder on a Mac, decided by its presence.
pub open spec fn mac_mods_by_presence(home: Seq<char>) -> PlaceView {
    PlaceView { dir: mac_mods_dir_of(home), probe: mac_mods_dir_of(home) }
}

/// Where to look for the game, in order: below the Steam folder of the
/// registry, where the game's file must be; below the Steam folder of the
/// search path; below each common Steam folder.
pub open spec fn game_places_of(
    registry: Option<Seq<char>>,
    on_path: Option<Seq<char>>,
    roots: Seq<Seq<char>>,
) -> Seq<PlaceView> {
    place_if(registry, |s: Seq<char>| game_by_marker(s)) + place_if(
        on_path,
        |s: Seq<char>| game_by_presence(s),
    ) + Seq::new(roots.len(), |i: int| game_by_presence(roots[i]))
}

/// Where to look for the mods folder, in order: below the Steam folder of
/// the registry; below that of the search path; below each common Steam
/// folder; below the home folder as on a Mac.
pub open spec fn mods_places_of(
    registry: Option<Seq<char>>,
    on_path: Option<Seq<char>>,
    roots: Seq<Seq<char>>,
    home: Option<Seq<char>>,
) -> Seq<PlaceView> {
    place_if(registry, |s: Seq<char>| mods_by_presence(s)) + place_if(
        on_path,
        |s: Seq<char>| mods_by_presence(s),
    ) + Seq::new(roots.len(), |i: int| mods_by_presence(roots[i])) + place_if(
        home,
        |h: Seq<char>| mac_mods_by_presence(h),
    )
}

/// The view of an optional folder.
pub open spec fn folder_view(folder: Option<&str>) -> Option<Seq<char>> {
    match folder {
        Some(f) => Some(f@),
        None => None,
    }
}

/// The places to look for the game, in the order in which they are tried.
/// The first whose probe is on disk gives the game's folder.
pub fn game_places(registry: Option<&str>, on_path: Option<&str>, roots: &Vec<String>) -> (places:
    Vec<Place>)
    ensures
        places.deep_view() == game_places_of(
            folder_view(registry),
            folder_view(on_path),
            roots.deep_view(),
        ),
{
    let mut places: Vec<Place> = Vec::new();
    match registry {
        Some(steam) => {
            let dir = game_dir_under(steam);
            let probe = joined(dir.as_str(), "/isaac-ng.exe");
            places.push(Place { dir, probe });
        },
        None => {},
    }
    match on_path {
        Some(steam) => {
            let dir = game_dir_under(steam);
            let probe = dir.clone();
            places.push(Place { dir, probe });
        },
        None => {},
    }
    let ghost head = places.deep_view();
    assert(head =~= place_if(folder_view(registry), |s: Seq<char>| game_by_marker(s)) + place_if(
        folder_view(on_path),
        |s: Seq<char>| game_by_presence(s),
    ));
    let mut i: usize = 0;
    while i < roots.len()
        invariant
            i <= roots.len(),
            places.deep_view() == head + Seq::new(
                i as nat,
                |k: int| game_by_presence(roots.deep_view()[k]),
            ),
        decreases roots.len() - i,
    {
        let ghost before = places.deep_view();
        let dir = game_dir_under(roots[i].as_str());
        let probe = dir.clone();
        places.push(Place { dir, probe });
        assert(places.deep_view() =~= before.push(game_by_presence(roots.deep_view()[i as int])));
        i += 1;
        assert(places.deep_view() =~= head + Seq::new(
            i as nat,
            |k: int| game_by_presence(roots.deep_view()[k]),
        ));
    }
    places
}

/// The places to look for the mods folder, in the order in which they are
/// tried. The first whose probe is on disk gives the folder.
pub fn mods_places(
    registry: Option<&str>,
    on_path: Option<&str>,
    roots: &Vec<String>,
    home: Option<&str>,
) -> (places: Vec<Place>)
    ensures
        places.deep_view() == mods_places_of(
            folder_view(registry),
            folder_view(on_path),
            roots.deep_view(),
            folder_view(home),
        ),
{
    let mut places: Vec<Place> = Vec::new();
    match registry {
        Some(steam) => {
            let dir = mods_dir_under(steam);
            let probe = dir.clone();
            places.push(Place { dir, probe });
        },
        None => {},
    }
    match on_path {
        Some(steam) => {
            let dir = mods_dir_under(steam);
            let probe = dir.clone();
            places.push(Place { dir, probe });
        },
        None => {},
    }
    let ghost head = places.deep_view();
    assert(head =~= place_if(folder_view(registry), |s: Seq<char>| mods_by_presence(s)) + place_if(
        folder_view(on_path),
        |s: Seq<char>| mods_by_presence(s),
    ));
    let mut i: usize = 0;
    while i < roots.len()
        invariant
            i <= roots.len(),
            places.deep_view() == head + Seq::new(
                i as nat,
                |k: int| mods_by_presence(roots.deep_view()[k]),
            ),
        decreases roots.len() - i,
    {
        let ghost before = places.deep_view();
        let dir = mods_dir_under(roots[i].as_str());
        let probe = dir.clone();
        places.push(Place { dir, probe });
        assert(places.deep_view() =~= before.push(mods_by_presence(roots.deep_view()[i as int])));
        i += 1;
        assert(places.deep_view() =~= head + Seq::new(
            i as nat,
            |k: int| mods_by_presence(roots.deep_view()[k]),
        ));
    }
    let ghost body = places.deep_view();
    match home {
        Some(h) => {
            let dir = mac_mods_dir_under(h);
            let probe = dir.clone();
            places.push(Place { dir, probe });
        },
        None => {},
    }
    assert(places.deep_view() =~= body + place_if(
        folder_view(home),
        |h: Seq<char>| mac_mods_by_presence(h),
    ));
    places
}

/// The places where Steam and its libraries are commonly installed, in the
/// order in which they are tried.
pub fn common_steam_roots() -> (roots: Vec<String>)
    ensures
        roots.deep_view() == seq![
            "C:\\Program Files (x86)\\Steam"@,
            "C:\\Steam"@,
            "D:\\Steam"@,
            "E:\\Steam"@,
            "C:\\SteamLibrary"@,
            "D:\\SteamLibrary"@,
            "E:\\SteamLibrary"@,
        ],
{
    let mut roots: Vec<String> = Vec::new();
    roots.push("C:\\Program Files (x86)\\Steam".to_owned());
    roots.push("C:\\Steam".to_owned());
    roots.push("D:\\Steam".to_owned());
    roots.push("E:\\Steam".to_owned());
    roots.push("C:\\SteamLibrary".to_owned());
    roots.push("D:\\SteamLibrary".to_owned());
    roots.push("E:\\SteamLibrary".to_owned());
    assert(roots.deep_view() =~= seq![
        "C:\\Program Files (x86)\\Steam"@,
        "C:\\Steam"@,
        "D:\\Steam"@,
        "E:\\Steam"@,
        "C:\\SteamLibrary"@,
        "D:\\SteamLibrary"@,
        "E:\\SteamLibrary"@,
    ]);
    roots
}

/// Which of the folders in the mods directory is the mod's.
#[derive(Debug)]
pub enum FolderChoice {
    /// The folder named for the installation identifier.
    Exact(String),
    /// The folder of the plain name.
    Plain,
    /// The first folder whose name begins with the plain name.
    Generic(String),
    /// No folder of the mod was found.
    NotFound,
}

/// A choice as a mathematical value.
pub enum ChoiceView {
    Exact(Seq<char>),
    Plain,
    Generic(Seq<char>),
    NotFound,
}

impl View for FolderChoice {
    type V = ChoiceView;

    open spec fn view(&self) -> ChoiceView {
        match self {
            FolderChoice::Exact(name) => ChoiceView::Exact(name@),
            FolderChoice::Plain => ChoiceView::Plain,
            FolderChoice::Generic(name) => ChoiceView::Generic(name@),
            FolderChoice::NotFound => ChoiceView::NotFound,
        }
    }
}

/// The name at position `at` is the first that begins with the plain name.
pub open spec fn is_first_generic(names: Seq<Seq<char>>, at: int) -> bool {
    &&& 0 <= at < names.len()
    &&& plain_name().is_prefix_of(names[at])
    &&& forall|j: int| 0 <= j < at ==> !plain_name().is_prefix_of(#[trigger] names[j])
}

/// The choice among the names is the right one: the name for the
/// identifier where it is there; else the plain name where it is there;
/// else the first name that begins with the plain name; else none.
pub open spec fn is_choice(choice: ChoiceView, id: Seq<char>, names: Seq<Seq<char>>) -> bool {
    match choice {
        ChoiceView::Exact(name) => name == expected_name(id) && names.contains(name),
        ChoiceView::Plain => !names.contains(expected_name(id)) && names.contains(plain_name()),
        ChoiceView::Generic(name) => !names.contains(expected_name(id)) && !names.contains(
            plain_name(),
        ) && exists|at: int| is_first_generic(names, at) && names[at] == name,
        ChoiceView::NotFound => forall|j: int|
            0 <= j < names.len() ==> !plain_name().is_prefix_of(#[trigger] names[j]),
    }
}

/// Whether `wanted` is among the names.
fn is_among(names: &Vec<String>, wanted: &str) -> (yes: bool)
    ensures
        yes == names.deep_view().contains(wanted@),
{
    let mut i: usize = 0;
    while i < names.len()
        invariant
            i <= names.len(),
            forall|j: int| 0 <= j < i ==> names.deep_view()[j] != wanted@,
        decreases names.len() - i,
    {
        if same_text(names[i].as_str(), wanted) {
            assert(names.deep_view()[i as int] == wanted@);
            return true;
        }
        i += 1;
    }
    false
}

/// Chooses the mod's folder among the names found in the mods directory.
pub fn choose_mod_folder(id: &str, names: &Vec<String>) -> (choice: FolderChoice)
    ensures
        is_choice(choice@, id@, names.deep_view()),
{
    let expected = joined("conch_blessing_", id);
    if is_among(names, expected.as_str()) {
        return FolderChoice::Exact(expected);
    }
    if is_among(names, "conch_blessing") {
        return FolderChoice::Plain;
    }
    let plain = chars_of("conch_blessing");
    let mut i: usize = 0;
    while i < names.len()
        invariant
            i <= names.len(),
            plain@ == plain_name(),
            !names.deep_view().contains(expected_name(id@)),
            !names.deep_view().contains(plain_name()),
            forall|j: int|
                0 <= j < i ==> !plain_name().is_prefix_of(#[trigger] names.deep_view()[j]),
        decreases names.len() - i,
    {
        let name = chars_of(names[i].as_str());
        if starts_with(name.as_slice(), plain.as_slice()) {
            assert(is_first_generic(names.deep_view(), i as int));
            return FolderChoice::Generic(names[i].clone());
        }
        i += 1;
    }
    FolderChoice::NotFound
}

impl FolderChoice {
    /// The name of the chosen folder, if one was chosen.
    pub fn folder_name(&self) -> (name: Option<String>)
        ensures
            match self@ {
                ChoiceView::Exact(n) => name matches Some(s) && s@ == n,
                ChoiceView::Plain => name matches Some(s) && s@ == plain_name(),
                ChoiceView::Generic(n) => name matches Some(s) && s@ == n,
                ChoiceView::NotFound => name is None,
            },
    {
        match self {
            FolderChoice::Exact(n) => Some(n.clone()),
            FolderChoice::Plain => Some("conch_blessing".to_owned()),
            FolderChoice::Generic(n) => Some(n.clone()),
            FolderChoice::NotFound => None,
        }
    }

    /// The line that tells the user of the choice.
    pub fn status_message(&self) -> (line: String)
        ensures
            line@ == match self@ {
                ChoiceView::Exact(n) => "Found mod: "@ + n,
                ChoiceView::Plain => "Found mod: conch_blessing"@,
                ChoiceView::Generic(_) => "Found mod (generic match)"@,
                ChoiceView::NotFound => "Mod not found! Please install it first."@,
            },
    {
        match self {
            FolderChoice::Exact(n) => joined("Found mod: ", n.as_str()),
            FolderChoice::Plain => "Found mod: conch_blessing".to_owned(),
            FolderChoice::Generic(_) => "Found mod (generic match)".to_owned(),
            FolderChoice::NotFound => "Mod not found! Please install it first.".to_owned(),
        }
    }
}

/// What the front end is doing.
#[derive(Clone, Copy, Debug, PartialEq, Eq, Structural)]
pub enum AppState {
    Idle,
    Checking,
    Syncing,
    Done,
    Error,
}

/// The state after an event of the run: a run in progress ends as done on
/// the closing event and as failed on a failure; nothing else changes it.
pub open spec fn state_on(state: AppState, event: EventView) -> AppState {
    if state == AppState::Syncing {
        match event {
            EventView::Changed(_) => state,
            EventView::Complete => AppState::Done,
            EventView::Failed(_) => AppState::Error,
        }
    } else {
        state
    }
}

/// The front end's state after it has seen an event of the run.
pub fn after_event(state: AppState, event: &ProgressEvent) -> (next: AppState)
    ensures
        next == state_on(state, event@),
{
    match state {
        AppState::Syncing => match event {
            ProgressEvent::Changed(_) => state,
            ProgressEvent::Complete => AppState::Done,
            ProgressEvent::Failed(_) => AppState::Error,
        },
        _ => state,
    }
}

/// How the search for the mod's folder ended.
#[derive(Debug)]
pub enum Check {
    /// The game directory holds no mods folder.
    NoModsFolder,
    /// The installation identifier could not be fetched.
    MetadataFailed(SyncError),
    /// The mods folder was listed and a choice was made.
    Chosen(FolderChoice),
}

/// A search's end as a mathematical value.
pub enum CheckView {
    NoModsFolder,
    MetadataFailed(SyncError),
    Chosen(ChoiceView),
}

impl View for Check {
    type V = CheckView;

    open spec fn view(&self) -> CheckView {
        match self {
            Check::NoModsFolder => CheckView::NoModsFolder,
            Check::MetadataFailed(e) => CheckView::MetadataFailed(*e),
            Check::Chosen(choice) => CheckView::Chosen(choice@),
        }
    }
}

/// The line that tells the user how the search ended.
pub open spec fn check_line(check: CheckView) -> Seq<char> {
    match check {
        CheckView::NoModsFolder => "Mods folder not found inside game directory."@,
        CheckView::MetadataFailed(e) => "Failed to fetch metadata: "@ + e.spec_message(),
        CheckView::Chosen(ChoiceView::Exact(n)) => "Found mod: "@ + n,
        CheckView::Chosen(ChoiceView::Plain) => "Found mod: conch_blessing"@,
        CheckView::Chosen(ChoiceView::Generic(_)) => "Found mod (generic match)"@,
        CheckView::Chosen(ChoiceView::NotFound) => "Mod not found! Please install it first."@,
    }
}

/// The state after a search: without a mods folder nothing was begun and
/// the state stays; a failed fetch is an error; a found folder leaves the
/// front end ready; a search that found none is still a search.
pub open spec fn state_after_check(state: AppState, check: CheckView) -> AppState {
    match check {
        CheckView::NoModsFolder => state,
        CheckView::MetadataFailed(_) => AppState::Error,
        CheckView::Chosen(ChoiceView::NotFound) => AppState::Checking,
        CheckView::Chosen(_) => AppState::Idle,
    }
}

impl Check {
    /// The line to show after the search.
    pub fn status_message(&self) -> (line: String)
        ensures
            line@ == check_line(self@),
    {
        match self {
            Check::NoModsFolder => "Mods folder not found inside game directory.".to_owned(),
            Check::MetadataFailed(e) => {
                let text = e.message();
                joined("Failed to fetch metadata: ", text.as_str())
            },
            Check::Chosen(choice) => choice.status_message(),
        }
    }

    /// The front end's state after the search.
    pub fn next_state(&self, state: AppState) -> (next: AppState)
        ensures
            next == state_after_check(state, self@),
    {
        match self {
            Check::NoModsFolder => state,
            Check::MetadataFailed(_) => AppState::Error,
            Check::Chosen(FolderChoice::NotFound) => AppState::Checking,
            Check::Chosen(_) => AppState::Idle,
        }
    }
}

} // verus!
