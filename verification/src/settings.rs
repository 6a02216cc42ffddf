//! What the app remembers between runs.
use vstd::prelude::*;

use crate::text::trim_end_slashes;

verus! {

/// The backend of a fresh installation.
pub const DEFAULT_BACKEND_URL: &'static str = "http://localhost:8787";

/// The stored values. `None` stands for the default of the app.
#[derive(Debug)]
pub struct SettingsData {
    pub backend_url: Option<String>,
    pub token: Option<String>,
    pub refresh_token: Option<String>,
    /// Name of the noise-suppression model.
    pub suppressor_model: Option<String>,
    /// Whether echo is cancelled.
    pub aec_enabled: Option<bool>,
}

impl Clone for SettingsData {
    fn clone(&self) -> (r: Self)
        ensures
            r == *self,
    {
        SettingsData {
            backend_url: self.backend_url.clone(),
            token: self.token.clone(),
            refresh_token: self.refresh_token.clone(),
            suppressor_model: self.suppressor_model.clone(),
            aec_enabled: self.aec_enabled,
        }
    }
}

impl Default for SettingsData {
    fn default() -> (r: Self)
        ensures
            r == (SettingsData {
                backend_url: None,
                token: None,
                refresh_token: None,
                suppressor_model: None,
                aec_enabled: None,
            }),
    {
        SettingsData {
            backend_url: None,
            token: None,
            refresh_token: None,
            suppressor_model: None,
            aec_enabled: None,
        }
    }
}

/// The stored values, and whether they changed since they were written out.
pub struct Settings {
    pub data: SettingsData,
    pub unsaved: bool,
}

impl Settings {
    /// Starts from what was stored; what is missing or unreadable counts as
    /// defaults.
    pub fn load(stored: Option<SettingsData>) -> (r: Self)
        ensures
            !r.unsaved,
            stored matches Some(d) ==> r.data == d,
            stored is None ==> r.data == (SettingsData {
                backend_url: None,
                token: None,
                refresh_token: None,
                suppressor_model: None,
                aec_enabled: None,
            }),
    {
        let data: SettingsData = match stored {
            Some(d) => d,
            None => SettingsData::default(),
        };
        Settings { data, unsaved: false }
    }

    /// What to write out now, if anything changed.
    pub fn to_save(&mut self) -> (r: Option<SettingsData>)
        ensures
            *final(self) == (Settings { unsaved: false, ..*old(self) }),
            r == (if old(self).unsaved {
                Some(old(self).data)
            } else {
                None
            }),
    {
        if self.unsaved {
            self.unsaved = false;
            Some(self.data.clone())
        } else {
            None
        }
    }

    /// The URL of the backend.
    pub fn backend_url(&self) -> (r: String)
        ensures
            r@ == self.backend(),
    {
        match &self.data.backend_url {
            Some(url) => url.clone(),
            None => DEFAULT_BACKEND_URL.to_owned(),
        }
    }

    /// The URL of the backend: the stored one, else the default.
    pub open spec fn backend(&self) -> Seq<char> {
        match self.data.backend_url {
            Some(url) => url@,
            None => DEFAULT_BACKEND_URL@,
        }
    }

    /// Stores the URL of the backend, without slashes at its end.
    pub fn set_backend_url(&mut self, url: &str)
        ensures
            final(self).unsaved,
            final(self).data.backend_url matches Some(u) && u@ == crate::text::trimmed_slashes(
                url@,
            ),
            final(self).data == (SettingsData {
                backend_url: final(self).data.backend_url,
                ..old(self).data
            }),
    {
        self.data.backend_url = Some(trim_end_slashes(url));
        self.unsaved = true;
    }

    pub fn token(&self) -> (r: Option<String>)
        ensures
            r == self.data.token,
    {
        self.data.token.clone()
    }

    pub fn set_token(&mut self, token: Option<String>)
        ensures
            final(self).unsaved,
            final(self).data == (SettingsData { token, ..old(self).data }),
    {
        self.data.token = token;
        self.unsaved = true;
    }

    pub fn refresh_token(&self) -> (r: Option<String>)
        ensures
            r == self.data.refresh_token,
    {
        self.data.refresh_token.clone()
    }

    pub fn set_refresh_token(&mut self, refresh_token: Option<String>)
        ensures
            final(self).unsaved,
            final(self).data == (SettingsData { refresh_token, ..old(self).data }),
    {
        self.data.refresh_token = refresh_token;
        self.unsaved = true;
    }

    pub fn suppressor_model(&self) -> (r: Option<String>)
        ensures
            r == self.data.suppressor_model,
    {
        self.data.suppressor_model.clone()
    }

    pub fn set_suppressor_model(&mut self, model: String)
        ensures
            final(self).unsaved,
            final(self).data == (SettingsData { suppressor_model: Some(model), ..old(self).data }),
    {
        self.data.suppressor_model = Some(model);
        self.unsaved = true;
    }

    pub fn aec_enabled(&self) -> (r: Option<bool>)
        ensures
            r == self.data.aec_enabled,
    {
        self.data.aec_enabled
    }

    pub fn set_aec_enabled(&mut self, enabled: bool)
        ensures
            final(self).unsaved,
            final(self).data == (SettingsData { aec_enabled: Some(enabled), ..old(self).data }),
    {
        self.data.aec_enabled = Some(enabled);
        self.unsaved = true;
    }
}

/// What is stored is what is read, each value under its own name, and storing one
/// leaves the others alone.
pub proof fn law_settings_keep_apart(
    a: &mut Settings,
    token: Option<String>,
    b: &mut Settings,
    refresh_token: Option<String>,
    c: &mut Settings,
    model: String,
    d: &mut Settings,
    enabled: bool,
    x: Option<String>,
    y: Option<String>,
    z: Option<String>,
    w: Option<bool>,
)
    requires
        call_ensures(Settings::set_token, (a, token), ()),
        *old(b) == *final(a),
        call_ensures(Settings::set_refresh_token, (b, refresh_token), ()),
        *old(c) == *final(b),
        call_ensures(Settings::set_suppressor_model, (c, model), ()),
        *old(d) == *final(c),
        call_ensures(Settings::set_aec_enabled, (d, enabled), ()),
        call_ensures(Settings::token, (&*final(d),), x),
        call_ensures(Settings::refresh_token, (&*final(d),), y),
        call_ensures(Settings::suppressor_model, (&*final(d),), z),
        call_ensures(Settings::aec_enabled, (&*final(d),), w),
    ensures
        x == token,
        y == refresh_token,
        z == Some(model),
        w == Some(enabled),
        final(d).data.backend_url == old(a).data.backend_url,
        final(a).unsaved && final(b).unsaved && final(c).unsaved && final(d).unsaved,
{
}

/// A change is written out once, as it stands, and a start from what was written
/// brings it back with nothing left to write.
pub proof fn law_settings_restored(
    s: &mut Settings,
    written: Option<SettingsData>,
    t: &mut Settings,
    again: Option<SettingsData>,
    next: Settings,
)
    requires
        old(s).unsaved,
        call_ensures(Settings::to_save, (s,), written),
        *old(t) == *final(s),
        call_ensures(Settings::to_save, (t,), again),
        call_ensures(Settings::load, (written,), next),
    ensures
        written is Some,
        again is None,
        next.data == old(s).data,
        !next.unsaved,
        final(t).data == old(s).data,
{
}

/// The backend is the one that was stored last, without slashes at its end, or the
/// default of a fresh installation.
pub proof fn law_backend_stored(s: &mut Settings, url: &str, r: String, fresh: Settings, q: String)
    requires
        call_ensures(Settings::set_backend_url, (s, url), ()),
        call_ensures(Settings::backend_url, (&*final(s),), r),
        call_ensures(Settings::load, (None,), fresh),
        call_ensures(Settings::backend_url, (&fresh,), q),
    ensures
        url@.len() >= r@.len(),
        url@.take(r@.len() as int) == r@,
        r@.len() > 0 ==> r@.last() != '/',
        forall|i: int| r@.len() <= i < url@.len() ==> #[trigger] url@[i] == '/',
        q@ == "http://localhost:8787"@,
        final(s).data.token == old(s).data.token,
        final(s).data.refresh_token == old(s).data.refresh_token,
{
    crate::text::lemma_slashes_trimmed(url@);
}

} // verus!
