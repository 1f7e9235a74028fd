use vstd::prelude::*;

verus! {

/// Keywords of player identities that are ignored by default: browsers,
/// video players and screen casting tools rarely play songs worth lyrics.
pub fn default_player_except() -> (r: Vec<String>)
    ensures
        r@.map_values(|s: String| s@) =~= seq![
            "browser"@,
            "video"@,
            "screen-cast"@,
            "chromium"@,
            "firefox"@,
        ],
{
    let mut v: Vec<String> = Vec::new();
    v.push("browser".to_owned());
    v.push("video".to_owned());
    v.push("screen-cast".to_owned());
    v.push("chromium".to_owned());
    v.push("firefox".to_owned());
    v
}

/// The default of every boolean configuration switch.
pub fn default_true() -> (r: bool)
    ensures
        r == true,
{
    true
}

/// Which players are considered: an allow-list, and a deny-list of
/// identity keywords.
#[derive(Debug)]
pub struct PlayerFilter {
    pub only: Vec<String>,
    pub except: Vec<String>,
}

impl Default for PlayerFilter {
    /// No allow-list; the standard deny-list.
    fn default() -> (r: PlayerFilter)
        ensures
            r.only@.len() == 0,
            r.except@.map_values(|s: String| s@) =~= seq![
                "browser"@,
                "video"@,
                "screen-cast"@,
                "chromium"@,
                "firefox"@,
            ],
    {
        PlayerFilter { only: Vec::new(), except: default_player_except() }
    }
}

/// Which parts of the lyric screen are drawn.
#[derive(Debug, Clone, Copy, PartialEq, Eq, Structural)]
pub struct Ui {
    pub title: bool,
    pub time: bool,
    pub progress_bar: bool,
}

impl Default for Ui {
    /// Title and progress bar on, per-line times off.
    fn default() -> (r: Ui)
        ensures
            r == (Ui { title: true, time: false, progress_bar: true }),
    {
        Ui { title: true, time: false, progress_bar: true }
    }
}

/// Which lyric providers are enabled.
#[derive(Debug, Clone, Copy, PartialEq, Eq, Structural)]
pub struct Sources {
    pub netease: bool,
    pub qq: bool,
    pub kugou: bool,
}

impl Default for Sources {
    /// Every provider enabled.
    fn default() -> (r: Sources)
        ensures
            r == (Sources { netease: true, qq: true, kugou: true }),
    {
        Sources { netease: true, qq: true, kugou: true }
    }
}

/// The whole configuration consumed by the engine.
#[derive(Debug)]
pub struct Config {
    pub player_filter: PlayerFilter,
    pub ui: Ui,
    pub sources: Sources,
}

impl Default for Config {
    /// Every part at its default.
    fn default() -> (r: Config)
        ensures
            r.ui == (Ui { title: true, time: false, progress_bar: true }),
            r.sources == (Sources { netease: true, qq: true, kugou: true }),
            r.player_filter.only@.len() == 0,
    {
        Config {
            player_filter: PlayerFilter::default(),
            ui: Ui::default(),
            sources: Sources::default(),
        }
    }
}

} // verus!
