//! Application settings and the manager that holds the current ones.
//!
//! The manager is pure state: reading and writing the settings file is
//! left to the caller, who stores what `get_settings` returns after every
//! change.

use vstd::prelude::*;
use vstd::string::*;
use crate::system_health::ConfigHealth;
use crate::text::owned;

verus! {

/// Appearance of the user interface.
#[derive(Debug)]
pub struct UiSettings {
    pub language: String,
    pub theme: String,
    pub window_maximized: bool,
    pub window_width: Option<u32>,
    pub window_height: Option<u32>,
}

/// Defaults for new competitions. `default_plate_colors` maps a plate
/// weight in grams to a hex colour.
#[derive(Debug)]
pub struct CompetitionSettings {
    pub default_federation: String,
    pub default_discipline: String,
    pub auto_save_interval_minutes: u32,
    pub backup_enabled: bool,
    pub max_backup_files: u32,
    pub default_plate_colors: Vec<(u32, String)>,
}

/// How the database is opened.
#[derive(Clone, Copy, Debug, PartialEq, Eq, Structural)]
pub struct DatabaseSettings {
    pub connection_timeout_seconds: u32,
    pub max_connections: u32,
    pub enable_wal_mode: bool,
}

/// All settings of the application.
#[derive(Debug)]
pub struct AppSettings {
    pub ui: UiSettings,
    pub competition: CompetitionSettings,
    pub database: DatabaseSettings,
}

/// The colour table that new installations start with, lightest plate
/// last: weight in grams and hex colour.
pub open spec fn default_color_table() -> Seq<(u32, Seq<char>)> {
    seq![
        (25_000u32, "#DC2626"@),
        (20_000u32, "#2563EB"@),
        (15_000u32, "#EAB308"@),
        (10_000u32, "#16A34A"@),
        (5_000u32, "#F8FAFC"@),
        (2_500u32, "#DC2626"@),
        (2_000u32, "#2563EB"@),
        (1_500u32, "#EAB308"@),
        (1_250u32, "#16A34A"@),
        (1_000u32, "#F8FAFC"@),
        (500u32, "#6B7280"@),
    ]
}

/// A colour table by its contents.
pub open spec fn color_table_of(colors: Seq<(u32, String)>) -> Seq<(u32, Seq<char>)> {
    colors.map_values(|e: (u32, String)| (e.0, e.1@))
}

pub open spec fn is_default_ui(ui: UiSettings) -> bool {
    &&& ui.language@ == "pl"@
    &&& ui.theme@ == "dark"@
    &&& !ui.window_maximized
    &&& ui.window_width == Some(1200u32)
    &&& ui.window_height == Some(800u32)
}

pub open spec fn is_default_competition(c: CompetitionSettings) -> bool {
    &&& c.default_federation@ == "PZKFiTS"@
    &&& c.default_discipline@ == "Powerlifting"@
    &&& c.auto_save_interval_minutes == 5
    &&& c.backup_enabled
    &&& c.max_backup_files == 10
    &&& color_table_of(c.default_plate_colors@) == default_color_table()
}

pub open spec fn is_default_database(d: DatabaseSettings) -> bool {
    d == (DatabaseSettings {
        connection_timeout_seconds: 30,
        max_connections: 20,
        enable_wal_mode: true,
    })
}

pub open spec fn is_default_settings(s: AppSettings) -> bool {
    is_default_ui(s.ui) && is_default_competition(s.competition) && is_default_database(s.database)
}

/// The colour table that new installations start with.
pub fn default_plate_colors() -> (r: Vec<(u32, String)>)
    ensures
        color_table_of(r@) == default_color_table(),
{
    let mut colors: Vec<(u32, String)> = Vec::new();
    colors.push((25_000, owned("#DC2626")));
    colors.push((20_000, owned("#2563EB")));
    colors.push((15_000, owned("#EAB308")));
    colors.push((10_000, owned("#16A34A")));
    colors.push((5_000, owned("#F8FAFC")));
    colors.push((2_500, owned("#DC2626")));
    colors.push((2_000, owned("#2563EB")));
    colors.push((1_500, owned("#EAB308")));
    colors.push((1_250, owned("#16A34A")));
    colors.push((1_000, owned("#F8FAFC")));
    colors.push((500, owned("#6B7280")));
    proof {
        assert(color_table_of(colors@) =~= default_color_table());
    }
    colors
}

/// How far a plate weight is from the weight asked for.
pub open spec fn weight_distance(a: u32, b: u32) -> int {
    if a >= b {
        a - b
    } else {
        b - a
    }
}

/// The position of the table entry whose weight is closest to `weight`;
/// among entries that are equally close, the first. None for an empty
/// table.
pub open spec fn closest_entry(colors: Seq<(u32, String)>, weight: u32) -> Option<int>
    decreases colors.len(),
{
    if colors.len() == 0 {
        None
    } else {
        match closest_entry(colors.drop_last(), weight) {
            Some(k) => if weight_distance(colors.last().0, weight) < weight_distance(
                colors[k].0,
                weight,
            ) {
                Some(colors.len() - 1)
            } else {
                Some(k)
            },
            None => Some(colors.len() - 1),
        }
    }
}

/// `closest_entry` names an entry of the table that no entry is closer
/// than, and before which every entry is farther.
pub proof fn lemma_closest_entry(colors: Seq<(u32, String)>, weight: u32)
    ensures
        closest_entry(colors, weight) is None <==> colors.len() == 0,
        closest_entry(colors, weight) matches Some(k) ==> {
            &&& 0 <= k < colors.len()
            &&& forall|i: int|
                0 <= i < colors.len() ==> weight_distance(colors[k].0, weight) <= weight_distance(
                    (#[trigger] colors[i]).0,
                    weight,
                )
            &&& forall|i: int|
                0 <= i < k ==> weight_distance(colors[k].0, weight) < weight_distance(
                    (#[trigger] colors[i]).0,
                    weight,
                )
        },
    decreases colors.len(),
{
    if colors.len() > 0 {
        let front = colors.drop_last();
        lemma_closest_entry(front, weight);
        assert forall|i: int| 0 <= i < front.len() implies front[i] == colors[i] by {}
        let k = closest_entry(colors, weight)->Some_0;
        assert forall|i: int| 0 <= i < colors.len() implies weight_distance(colors[k].0, weight)
            <= weight_distance((#[trigger] colors[i]).0, weight) by {
            if i < front.len() {
                assert(front[i] == colors[i]);
            }
        }
        assert forall|i: int| 0 <= i < k implies weight_distance(colors[k].0, weight)
            < weight_distance((#[trigger] colors[i]).0, weight) by {
            assert(front[i] == colors[i]);
        }
    }
}

/// The colour suggested for a plate of `weight` grams: that of the table
/// entry closest in weight (so an entry of exactly that weight wins), or
/// grey for an empty table.
pub open spec fn suggested_color(colors: Seq<(u32, String)>, weight: u32) -> Seq<char> {
    match closest_entry(colors, weight) {
        Some(k) => colors[k].1@,
        None => "#374151"@,
    }
}

impl Default for UiSettings {
    fn default() -> (r: UiSettings)
        ensures
            is_default_ui(r),
    {
        UiSettings {
            language: owned("pl"),
            theme: owned("dark"),
            window_maximized: false,
            window_width: Some(1200),
            window_height: Some(800),
        }
    }
}

impl Default for CompetitionSettings {
    fn default() -> (r: CompetitionSettings)
        ensures
            is_default_competition(r),
    {
        CompetitionSettings {
            default_federation: owned("PZKFiTS"),
            default_discipline: owned("Powerlifting"),
            auto_save_interval_minutes: 5,
            backup_enabled: true,
            max_backup_files: 10,
            default_plate_colors: default_plate_colors(),
        }
    }
}

impl Default for DatabaseSettings {
    fn default() -> (r: DatabaseSettings)
        ensures
            is_default_database(r),
    {
        DatabaseSettings { connection_timeout_seconds: 30, max_connections: 20, enable_wal_mode: true }
    }
}

impl Default for AppSettings {
    fn default() -> (r: AppSettings)
        ensures
            is_default_settings(r),
    {
        AppSettings {
            ui: UiSettings::default(),
            competition: CompetitionSettings::default(),
            database: DatabaseSettings::default(),
        }
    }
}

/// Holds the current settings, where they are stored, and what was found
/// when they were loaded.
pub struct SettingsManager {
    config_path: String,
    settings: AppSettings,
    config_health: ConfigHealth,
}

fn distance(a: u32, b: u32) -> (r: u32)
    ensures
        r == weight_distance(a, b),
{
    if a >= b {
        a - b
    } else {
        b - a
    }
}

impl SettingsManager {
    pub closed spec fn settings(self) -> AppSettings {
        self.settings
    }

    pub closed spec fn config_path(self) -> String {
        self.config_path
    }

    pub closed spec fn config_health(self) -> ConfigHealth {
        self.config_health
    }

    /// A manager for settings that were loaded from `config_path` with the
    /// outcome `config_health`.
    pub fn with_state(config_path: String, settings: AppSettings, config_health: ConfigHealth) -> (r:
        SettingsManager)
        ensures
            r.settings() == settings,
            r.config_path() == config_path,
            r.config_health() == config_health,
    {
        SettingsManager { config_path, settings, config_health }
    }

    /// The current settings.
    pub fn get_settings(&self) -> (r: &AppSettings)
        ensures
            *r == self.settings(),
    {
        &self.settings
    }

    /// Replaces all settings.
    pub fn update_settings(&mut self, new_settings: AppSettings)
        ensures
            final(self).settings() == new_settings,
            final(self).config_path() == old(self).config_path(),
            final(self).config_health() == old(self).config_health(),
    {
        self.settings = new_settings;
    }

    /// Replaces the interface settings and keeps the others.
    pub fn update_ui_settings(&mut self, ui_settings: UiSettings)
        ensures
            final(self).settings().ui == ui_settings,
            final(self).settings().competition == old(self).settings().competition,
            final(self).settings().database == old(self).settings().database,
            final(self).config_path() == old(self).config_path(),
            final(self).config_health() == old(self).config_health(),
    {
        self.settings.ui = ui_settings;
    }

    /// Sets the interface language and keeps everything else.
    pub fn set_language(&mut self, language: String)
        ensures
            final(self).settings().ui == (UiSettings { language, ..old(self).settings().ui }),
            final(self).settings().competition == old(self).settings().competition,
            final(self).settings().database == old(self).settings().database,
            final(self).config_path() == old(self).config_path(),
            final(self).config_health() == old(self).config_health(),
    {
        self.settings.ui.language = language;
    }

    /// The interface language.
    pub fn get_language(&self) -> (r: &str)
        ensures
            r@ == self.settings().ui.language@,
    {
        self.settings.ui.language.as_str()
    }

    /// Replaces the competition settings and keeps the others.
    pub fn update_competition_settings(&mut self, competition_settings: CompetitionSettings)
        ensures
            final(self).settings().competition == competition_settings,
            final(self).settings().ui == old(self).settings().ui,
            final(self).settings().database == old(self).settings().database,
            final(self).config_path() == old(self).config_path(),
            final(self).config_health() == old(self).config_health(),
    {
        self.settings.competition = competition_settings;
    }

    /// Replaces the database settings and keeps the others.
    pub fn update_database_settings(&mut self, database_settings: DatabaseSettings)
        ensures
            final(self).settings().database == database_settings,
            final(self).settings().ui == old(self).settings().ui,
            final(self).settings().competition == old(self).settings().competition,
            final(self).config_path() == old(self).config_path(),
            final(self).config_health() == old(self).config_health(),
    {
        self.settings.database = database_settings;
    }

    /// Puts every setting back to its default.
    pub fn reset_to_defaults(&mut self)
        ensures
            is_default_settings(final(self).settings()),
            final(self).config_path() == old(self).config_path(),
            final(self).config_health() == old(self).config_health(),
    {
        self.settings = AppSettings::default();
    }

    /// The colour to suggest for a plate of `weight` grams.
    pub fn suggest_plate_color(&self, weight: u32) -> (r: String)
        ensures
            r@ == suggested_color(self.settings().competition.default_plate_colors@, weight),
    {
        let colors = &self.settings.competition.default_plate_colors;
        let mut best: Option<usize> = None;
        let mut i: usize = 0;
        proof {
            assert(colors@.take(0) =~= Seq::<(u32, String)>::empty());
        }
        while i < colors.len()
            invariant
                i <= colors@.len(),
                match best {
                    Some(k) => k < i && closest_entry(colors@.take(i as int), weight) == Some(
                        k as int,
                    ),
                    None => closest_entry(colors@.take(i as int), weight) is None,
                },
            decreases colors@.len() - i,
        {
            proof {
                assert(colors@.take(i as int + 1).drop_last() =~= colors@.take(i as int));
                assert(colors@.take(i as int + 1).last() == colors@[i as int]);
                if best is Some {
                    assert(colors@.take(i as int + 1)[best->Some_0 as int] == colors@[best->Some_0 as int]);
                }
            }
            let here = distance(colors[i].0, weight);
            best =
            match best {
                Some(k) => if here < distance(colors[k].0, weight) {
                    Some(i)
                } else {
                    Some(k)
                },
                None => Some(i),
            };
            i += 1;
        }
        proof {
            assert(colors@.take(i as int) =~= colors@);
        }
        match best {
            Some(k) => colors[k].1.clone(),
            None => owned("#374151"),
        }
    }

    /// Where the settings are stored.
    pub fn get_config_file_path(&self) -> (r: &String)
        ensures
            *r == self.config_path(),
    {
        &self.config_path
    }

    /// What was found when the settings were loaded.
    pub fn get_config_health(&self) -> (r: &ConfigHealth)
        ensures
            *r == self.config_health(),
    {
        &self.config_health
    }
}

} // verus!
