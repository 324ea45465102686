//! The menu model of the interactive interface: screens, menu items and
//! their labels. Pure data; rendering and event handling live outside the
//! library.

use vstd::prelude::*;

verus! {

/// The different screens of the interactive interface.
#[derive(Debug, Clone, Copy, PartialEq, Eq, Structural)]
pub enum Screen {
    Main,
    CategoryList,
    CategoryDetail,
    WornOutfitsMenu,
    WornOutfitsList,
    Settings,
    SettingsMenu,
    EditPath,
    EditLanguage,
    EditExclusions,
    FirstTimeSetup,
    Help,
}

/// The main menu options.
#[derive(Debug, Clone, Copy, PartialEq, Eq, Structural)]
pub enum MainMenuItem {
    PickRandom,
    BrowseCategories,
    ViewWorn,
    ResetProgress,
    Settings,
    Quit,
}

impl MainMenuItem {
    /// Every main menu option, in display order.
    pub fn all() -> (r: Vec<MainMenuItem>)
        ensures
            r@ == seq![
                MainMenuItem::PickRandom,
                MainMenuItem::BrowseCategories,
                MainMenuItem::ViewWorn,
                MainMenuItem::ResetProgress,
                MainMenuItem::Settings,
                MainMenuItem::Quit,
            ],
    {
        let v: Vec<MainMenuItem> = vec![
            MainMenuItem::PickRandom,
            MainMenuItem::BrowseCategories,
            MainMenuItem::ViewWorn,
            MainMenuItem::ResetProgress,
            MainMenuItem::Settings,
            MainMenuItem::Quit,
        ];
        proof {
            assert(v@ =~= seq![
                MainMenuItem::PickRandom,
                MainMenuItem::BrowseCategories,
                MainMenuItem::ViewWorn,
                MainMenuItem::ResetProgress,
                MainMenuItem::Settings,
                MainMenuItem::Quit,
            ]);
        }
        v
    }

    /// The label shown for the option.
    pub fn label(&self) -> (r: &'static str) {
        match self {
            MainMenuItem::PickRandom => "🎲 Pick Random Outfit",
            MainMenuItem::BrowseCategories => "📁 Browse Categories",
            MainMenuItem::ViewWorn => "👔 View Worn Outfits",
            MainMenuItem::ResetProgress => "🔄 Reset Progress",
            MainMenuItem::Settings => "⚙️  Settings",
            MainMenuItem::Quit => "🚪 Quit",
        }
    }
}

/// Worn-outfits menu options.
#[derive(Debug, Clone, Copy, PartialEq, Eq, Structural)]
pub enum WornMenuItem {
    ViewWorn,
    ViewUnworn,
    Back,
}

impl WornMenuItem {
    /// Every worn-menu option, in display order.
    pub fn all() -> (r: Vec<WornMenuItem>)
        ensures
            r@ == seq![WornMenuItem::ViewWorn, WornMenuItem::ViewUnworn, WornMenuItem::Back],
    {
        let v: Vec<WornMenuItem> = vec![
            WornMenuItem::ViewWorn,
            WornMenuItem::ViewUnworn,
            WornMenuItem::Back,
        ];
        proof {
            assert(v@ =~= seq![
                WornMenuItem::ViewWorn,
                WornMenuItem::ViewUnworn,
                WornMenuItem::Back,
            ]);
        }
        v
    }

    /// The label shown for the option.
    pub fn label(&self) -> (r: &'static str) {
        match self {
            WornMenuItem::ViewWorn => "👔 View Worn Outfits",
            WornMenuItem::ViewUnworn => "✨ View Unworn Outfits",
            WornMenuItem::Back => "← Back to Main Menu",
        }
    }
}

/// What kind of outfits a listing screen shows.
#[derive(Debug, Clone, Copy, PartialEq, Eq, Structural)]
pub enum WornViewMode {
    Worn,
    Unworn,
}

/// Settings menu options.
#[derive(Debug, Clone, Copy, PartialEq, Eq, Structural)]
pub enum SettingsMenuItem {
    ChangePath,
    ChangeLanguage,
    ManageExclusions,
    ResetCategory,
    ResetAll,
    FactoryReset,
    Back,
}

impl SettingsMenuItem {
    /// Every settings option, in display order.
    pub fn all() -> (r: Vec<SettingsMenuItem>)
        ensures
            r@ == seq![
                SettingsMenuItem::ChangePath,
                SettingsMenuItem::ChangeLanguage,
                SettingsMenuItem::ManageExclusions,
                SettingsMenuItem::ResetCategory,
                SettingsMenuItem::ResetAll,
                SettingsMenuItem::FactoryReset,
                SettingsMenuItem::Back,
            ],
    {
        let v: Vec<SettingsMenuItem> = vec![
            SettingsMenuItem::ChangePath,
            SettingsMenuItem::ChangeLanguage,
            SettingsMenuItem::ManageExclusions,
            SettingsMenuItem::ResetCategory,
            SettingsMenuItem::ResetAll,
            SettingsMenuItem::FactoryReset,
            SettingsMenuItem::Back,
        ];
        proof {
            assert(v@ =~= seq![
                SettingsMenuItem::ChangePath,
                SettingsMenuItem::ChangeLanguage,
                SettingsMenuItem::ManageExclusions,
                SettingsMenuItem::ResetCategory,
                SettingsMenuItem::ResetAll,
                SettingsMenuItem::FactoryReset,
                SettingsMenuItem::Back,
            ]);
        }
        v
    }

    /// The label shown for the option.
    pub fn label(&self) -> (r: &'static str) {
        match self {
            SettingsMenuItem::ChangePath => "Change Outfit Path",
            SettingsMenuItem::ChangeLanguage => "Change Language",
            SettingsMenuItem::ManageExclusions => "Manage Excluded Categories",
            SettingsMenuItem::ResetCategory => "Reset Category Progress",
            SettingsMenuItem::ResetAll => "Reset All Progress",
            SettingsMenuItem::FactoryReset => "Factory Reset",
            SettingsMenuItem::Back => "Back",
        }
    }
}

/// Steps of the first-time setup flow.
#[derive(Debug, Clone, Copy, PartialEq, Eq, Structural)]
pub enum SetupStep {
    Path,
    Language,
    Exclusions,
    Complete,
}

} // verus!
