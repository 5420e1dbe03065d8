//! User settings: one named configuration record holding the locale and
//! the reporting (default) currency, with an ensure-exists-or-create
//! lifecycle.

use vstd::prelude::*;

use crate::fiat::Fiat;
use crate::fiat::FiatModel;
use crate::fiat::FiatRegistry;
use crate::fiat::has_symbol;

verus! {

/// The identifier the single settings record carries.
pub const ONLY_ONE_USER_SETTINGS: i64 = 1;

/// The settings record: locale, reporting currency id, and that currency's
/// registered data.
#[derive(Debug)]
pub struct UserSettings {
    pub id: i64,
    pub locale: String,
    pub default_fiat_id: i64,
    pub fiat: Fiat,
}

/// The mathematical content of a settings record.
pub ghost struct UserSettingsModel {
    pub id: i64,
    pub locale: Seq<char>,
    pub default_fiat_id: i64,
    pub fiat: FiatModel,
}

impl View for UserSettings {
    type V = UserSettingsModel;

    open spec fn view(&self) -> UserSettingsModel {
        UserSettingsModel {
            id: self.id,
            locale: self.locale@,
            default_fiat_id: self.default_fiat_id,
            fiat: self.fiat@,
        }
    }
}

impl Clone for UserSettings {
    fn clone(&self) -> (r: Self)
        ensures
            r@ == self@,
    {
        UserSettings {
            id: self.id,
            locale: self.locale.clone(),
            default_fiat_id: self.default_fiat_id,
            fiat: self.fiat.clone(),
        }
    }
}

/// The fields needed to create the settings record.
#[derive(Debug)]
pub struct CreateUserSettings {
    pub locale: String,
    pub default_fiat_id: i64,
}

/// A partial update of the settings; absent fields keep their value.
#[derive(Debug)]
pub struct UpdateUserSettings {
    pub locale: Option<String>,
    pub default_fiat_id: Option<i64>,
}

/// Why a settings operation failed.
#[derive(Debug, PartialEq, Eq)]
pub enum SettingsError {
    /// The reporting currency id is not registered.
    UnknownCurrency(i64),
    /// No currency with this symbol is registered.
    UnknownSymbol(String),
}

/// The holder of the single settings record.
#[derive(Debug)]
pub struct SettingsStore {
    current: Option<UserSettings>,
}

impl SettingsStore {
    /// The record held, if any.
    pub closed spec fn view(&self) -> Option<UserSettingsModel> {
        match self.current {
            Some(ref s) => Some(s@),
            None => None,
        }
    }

    /// An empty settings holder.
    pub fn new() -> (r: SettingsStore)
        ensures
            r.view() is None,
    {
        SettingsStore { current: None }
    }

    /// Whether the settings record exists.
    pub fn has_settings(&self) -> (r: bool)
        ensures
            r == (self.view() is Some),
    {
        self.current.is_some()
    }

    /// The settings record, when it exists.
    pub fn get(&self) -> (r: Option<&UserSettings>)
        ensures
            match r {
                Some(s) => self.view() == Some(s@),
                None => self.view() is None,
            },
    {
        match &self.current {
            Some(s) => Some(s),
            None => None,
        }
    }

    /// Creates the settings record under the fixed identifier, looking the
    /// reporting currency up in the registry.
    pub fn create(&mut self, data: CreateUserSettings, registry: &FiatRegistry) -> (r: Result<
        UserSettings,
        SettingsError,
    >)
        requires
            old(self).view() is None,
            registry.wf(),
        ensures
            match r {
                Ok(s) => {
                    &&& registry@.contains_key(data.default_fiat_id)
                    &&& s.id == ONLY_ONE_USER_SETTINGS
                    &&& s.locale@ == data.locale@
                    &&& s.default_fiat_id == data.default_fiat_id
                    &&& s.fiat@ == registry@[data.default_fiat_id]
                    &&& final(self).view() == Some(s@)
                },
                Err(SettingsError::UnknownCurrency(id)) => {
                    &&& id == data.default_fiat_id
                    &&& !registry@.contains_key(data.default_fiat_id)
                    &&& final(self).view() is None
                },
                _ => false,
            },
    {
        let fiat = match registry.get_fiat_by_id(data.default_fiat_id) {
            Some(f) => f.clone(),
            None => {
                return Err(SettingsError::UnknownCurrency(data.default_fiat_id));
            },
        };
        let settings = UserSettings {
            id: ONLY_ONE_USER_SETTINGS,
            locale: data.locale,
            default_fiat_id: data.default_fiat_id,
            fiat,
        };
        self.current = Some(settings.clone());
        Ok(settings)
    }

    /// Returns the settings record, creating it first when none exists:
    /// then with the default locale and the registry's US dollar as the
    /// reporting currency.
    pub fn ensure_exists(&mut self, registry: &FiatRegistry) -> (r: Result<
        UserSettings,
        SettingsError,
    >)
        requires
            registry.wf(),
        ensures
            match r {
                Ok(s) => final(self).view() == Some(s@) && (old(self).view() is Some
                    ==> old(self).view() == Some(s@)) && (old(self).view() is None ==> s.locale@
                    == "en"@ && registry@.contains_key(s.default_fiat_id)
                    && registry@[s.default_fiat_id].symbol == "USD"@),
                Err(SettingsError::UnknownSymbol(sym)) => {
                    &&& sym@ == "USD"@
                    &&& old(self).view() is None
                    &&& !has_symbol(registry@, "USD"@)
                    &&& final(self).view() is None
                },
                _ => false,
            },
    {
        let existing = match self.get() {
            Some(s) => Some(s.clone()),
            None => None,
        };
        if let Some(s) = existing {
            return Ok(s);
        }
        let default_fiat_id = match registry.get_fiat_by_symbol("USD") {
            Some(f) => f.id,
            None => {
                return Err(SettingsError::UnknownSymbol("USD".to_owned()));
            },
        };
        let create_user_settings = CreateUserSettings {
            locale: "en".to_owned(),
            default_fiat_id,
        };
        match self.create(create_user_settings, registry) {
            Ok(s) => Ok(s),
            Err(e) => {
                proof {
                    assert(false);
                }
                Err(e)
            },
        }
    }

    /// Updates the settings record: a given locale or reporting currency
    /// replaces the held one, an absent field keeps it; the currency data
    /// is refreshed from the registry.
    pub fn update(&mut self, data: UpdateUserSettings, registry: &FiatRegistry) -> (r: Result<
        UserSettings,
        SettingsError,
    >)
        requires
            old(self).view() is Some,
            registry.wf(),
        ensures
            match r {
                Ok(s) => {
                    &&& s.id == old(self).view()->0.id
                    &&& s.locale@ == (match data.locale {
                        Some(ref l) => l@,
                        None => old(self).view()->0.locale,
                    })
                    &&& s.default_fiat_id == (match data.default_fiat_id {
                        Some(id) => id,
                        None => old(self).view()->0.default_fiat_id,
                    })
                    &&& registry@.contains_key(s.default_fiat_id)
                    &&& s.fiat@ == registry@[s.default_fiat_id]
                    &&& final(self).view() == Some(s@)
                },
                Err(SettingsError::UnknownCurrency(id)) => {
                    &&& !registry@.contains_key(id)
                    &&& id == (match data.default_fiat_id {
                        Some(i) => i,
                        None => old(self).view()->0.default_fiat_id,
                    })
                    &&& final(self).view() == old(self).view()
                },
                _ => false,
            },
    {
        let (old_id, old_locale, old_fiat_id) = match &self.current {
            Some(s) => (s.id, s.locale.clone(), s.default_fiat_id),
            None => {
                proof {
                    assert(false);
                }
                (0, "".to_owned(), 0)
            },
        };
        let new_locale = match data.locale {
            Some(l) => l,
            None => old_locale,
        };
        let new_fiat_id = match data.default_fiat_id {
            Some(id) => id,
            None => old_fiat_id,
        };
        let fiat = match registry.get_fiat_by_id(new_fiat_id) {
            Some(f) => f.clone(),
            None => {
                return Err(SettingsError::UnknownCurrency(new_fiat_id));
            },
        };
        let settings = UserSettings {
            id: old_id,
            locale: new_locale,
            default_fiat_id: new_fiat_id,
            fiat,
        };
        self.current = Some(settings.clone());
        Ok(settings)
    }
}

} // verus!
