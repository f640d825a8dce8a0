//! Platform font-directory resolution: a pure function of the operating
//! system, the scope and the relevant environment variables.

use vstd::prelude::*;
use vstd::string::*;

use crate::{FontError, OsKind, Scope};

verus! {

/// The environment variables the resolver may consult, captured once per
/// invocation so that resolution is a pure function of its arguments.
pub struct EnvConfig {
    pub home: Option<String>,
    pub xdg_data_home: Option<String>,
    pub windir: Option<String>,
    pub local_app_data: Option<String>,
}

/// The mathematical image of an [`EnvConfig`].
pub struct EnvView {
    pub home: Option<Seq<char>>,
    pub xdg_data_home: Option<Seq<char>>,
    pub windir: Option<Seq<char>>,
    pub local_app_data: Option<Seq<char>>,
}

impl View for EnvConfig {
    type V = EnvView;

    open spec fn view(&self) -> EnvView {
        EnvView {
            home: self.home.deep_view(),
            xdg_data_home: self.xdg_data_home.deep_view(),
            windir: self.windir.deep_view(),
            local_app_data: self.local_app_data.deep_view(),
        }
    }
}

/// Where fonts of the given scope live on the given platform, or the error
/// the resolver owes when the platform is unknown or a needed variable is
/// absent.
pub open spec fn spec_font_dir(os: OsKind, scope: Scope, env: EnvView) -> Result<
    Seq<char>,
    FontError,
> {
    match (os, scope) {
        (OsKind::Linux, Scope::Global) => Ok("/usr/local/share/fonts/"@),
        (OsKind::Linux, Scope::User) => match env.xdg_data_home {
            Some(x) => Ok(x + "/fonts"@),
            None => match env.home {
                Some(h) => Ok(h + "/.local/share/fonts"@),
                None => Err(FontError::Configuration),
            },
        },
        (OsKind::MacOs, Scope::Global) => Ok("/Library/Fonts"@),
        (OsKind::MacOs, Scope::User) => match env.home {
            Some(h) => Ok(h + "/Library/Fonts"@),
            None => Err(FontError::Configuration),
        },
        (OsKind::Windows, Scope::Global) => match env.windir {
            Some(w) => Ok(w + "/Fonts"@),
            None => Ok("C:\\Windows/Fonts"@),
        },
        (OsKind::Windows, Scope::User) => match env.local_app_data {
            Some(l) => Ok(l + "/Microsoft/Windows/Fonts"@),
            None => Err(FontError::Configuration),
        },
        (OsKind::Other, _) => Err(FontError::UnsupportedPlatform),
    }
}

/// Resolve the font directory for `os` and `scope` under the captured
/// environment. Pure: the result is fixed by the arguments alone.
pub fn font_dir(os: OsKind, scope: Scope, env: &EnvConfig) -> (r: Result<String, FontError>)
    ensures
        (match spec_font_dir(os, scope, env@) {
            Ok(p) => r matches Ok(s) && s@ == p,
            Err(e) => r matches Err(f) && f == e,
        }),
{
    match (os, scope) {
        (OsKind::Linux, Scope::Global) => Ok("/usr/local/share/fonts/".to_owned()),
        (OsKind::Linux, Scope::User) => match &env.xdg_data_home {
            Some(x) => Ok(x.clone().concat("/fonts")),
            None => match &env.home {
                Some(h) => Ok(h.clone().concat("/.local/share/fonts")),
                None => Err(FontError::Configuration),
            },
        },
        (OsKind::MacOs, Scope::Global) => Ok("/Library/Fonts".to_owned()),
        (OsKind::MacOs, Scope::User) => match &env.home {
            Some(h) => Ok(h.clone().concat("/Library/Fonts")),
            None => Err(FontError::Configuration),
        },
        (OsKind::Windows, Scope::Global) => match &env.windir {
            Some(w) => Ok(w.clone().concat("/Fonts")),
            None => Ok("C:\\Windows/Fonts".to_owned()),
        },
        (OsKind::Windows, Scope::User) => match &env.local_app_data {
            Some(l) => Ok(l.clone().concat("/Microsoft/Windows/Fonts")),
            None => Err(FontError::Configuration),
        },
        (OsKind::Other, _) => Err(FontError::UnsupportedPlatform),
    }
}

/// Resolution reads only the variables relevant to the platform and scope:
/// two environments that agree on those agree on the resolved directory,
/// whatever the unrelated variables hold.
pub proof fn lemma_font_dir_ignores_unrelated(os: OsKind, scope: Scope, e1: EnvView, e2: EnvView)
    requires
        os == OsKind::Linux && scope == Scope::User ==> e1.xdg_data_home == e2.xdg_data_home
            && e1.home == e2.home,
        os == OsKind::MacOs && scope == Scope::User ==> e1.home == e2.home,
        os == OsKind::Windows && scope == Scope::Global ==> e1.windir == e2.windir,
        os == OsKind::Windows && scope == Scope::User ==> e1.local_app_data == e2.local_app_data,
    ensures
        spec_font_dir(os, scope, e1) == spec_font_dir(os, scope, e2),
{
}

} // verus!
