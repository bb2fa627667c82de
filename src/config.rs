use vstd::prelude::*;

use crate::library::{Library, LibraryFlavor, LibraryType, opt_string_clone, opt_view};
use crate::text::str_equal;

verus! {

// ---------------------------------------------------------------------------
// Credentials as the configuration file writes them
// ---------------------------------------------------------------------------

/// How a library's password is kept in the configuration.
#[derive(Clone, Debug, PartialEq)]
pub enum Credentials {
    /// No password; written `None`.
    NoPassword,
    /// The password itself, in clear.
    Clear(String),
}

pub enum CredentialsView {
    NoPassword,
    Clear(Seq<char>),
}

impl View for Credentials {
    type V = CredentialsView;

    open spec fn view(&self) -> CredentialsView {
        match self {
            Credentials::NoPassword => CredentialsView::NoPassword,
            Credentials::Clear(s) => CredentialsView::Clear(s@),
        }
    }
}

/// Why a credentials text was refused.
#[derive(Clone, Copy, Debug, PartialEq, Eq, Structural)]
pub enum CredentialsError {
    /// `Keyring`: needs the system keyring, which this build does not use.
    KeyringUnsupported,
    /// `ToKeyring(..)`: needs the system keyring too.
    ToKeyringUnsupported,
    /// `Clear(` without a password part that can be cut out.
    Malformed,
    /// Not a known form.
    Unknown,
}

/// The lowercase form of a text, as `str::to_lowercase` gives it.
pub uninterp spec fn lower_of(s: Seq<char>) -> Seq<char>;

/// Relies on `str::to_lowercase`: the result depends on the characters alone.
#[verifier::external_body]
fn lowercase(s: &str) -> (r: String)
    ensures
        r@ == lower_of(s@),
{
    s.to_lowercase()
}

pub open spec fn has_prefix(s: Seq<char>, p: Seq<char>) -> bool {
    p.len() <= s.len() && s.subrange(0, p.len() as int) == p
}

/// Whether `s` starts with `p`.
pub fn starts_with(s: &str, p: &str) -> (r: bool)
    ensures
        r == has_prefix(s@, p@),
{
    let n = s.unicode_len();
    let m = p.unicode_len();
    if m > n {
        return false;
    }
    let mut i: usize = 0;
    while i < m
        invariant
            n == s@.len(),
            m == p@.len(),
            m <= n,
            i <= m,
            forall|j: int| 0 <= j < i ==> s@[j] == p@[j],
        decreases m - i,
    {
        if s.get_char(i) != p.get_char(i) {
            assert(s@.subrange(0, m as int)[i as int] != p@[i as int]);
            return false;
        }
        i = i + 1;
    }
    assert(s@.subrange(0, m as int) =~= p@);
    true
}

/// What a credentials text of the configuration means. The keyword is
/// matched without regard to case; the password keeps its own.
pub open spec fn parse_spec(v: Seq<char>) -> Result<CredentialsView, CredentialsError> {
    parse_with(v, lower_of(v))
}

/// What a credentials text `v` means, given its lowercase form `cmp`: the
/// keyword is read from `cmp`, the password from `v`.
pub open spec fn parse_with(v: Seq<char>, cmp: Seq<char>) -> Result<
    CredentialsView,
    CredentialsError,
> {
    if cmp == "none"@ {
        Ok(CredentialsView::NoPassword)
    } else if cmp == "keyring"@ {
        Err(CredentialsError::KeyringUnsupported)
    } else if v.len() > 0 && v.last() == ')' {
        if has_prefix(cmp, "tokeyring("@) {
            Err(CredentialsError::ToKeyringUnsupported)
        } else if has_prefix(cmp, "clear("@) {
            if v.len() >= 7 {
                Ok(CredentialsView::Clear(v.subrange(6, v.len() - 1)))
            } else {
                Err(CredentialsError::Malformed)
            }
        } else {
            Err(CredentialsError::Unknown)
        }
    } else {
        Err(CredentialsError::Unknown)
    }
}

pub open spec fn parse_view(r: Result<Credentials, CredentialsError>) -> Result<
    CredentialsView,
    CredentialsError,
> {
    match r {
        Ok(c) => Ok(c@),
        Err(e) => Err(e),
    }
}

/// The text the configuration file holds for some credentials.
pub open spec fn credentials_text(c: CredentialsView) -> Seq<char> {
    match c {
        CredentialsView::NoPassword => "None"@,
        CredentialsView::Clear(s) => "Clear("@ + s + ")"@,
    }
}

impl Credentials {
    /// Reads credentials from their configuration text: `None`, or
    /// `Clear(password)`.
    pub fn parse(value: &str) -> (r: Result<Credentials, CredentialsError>)
        ensures
            parse_view(r) == parse_spec(value@),
    {
        let cmp = lowercase(value);
        Credentials::parse_lowered(value, cmp.as_str())
    }

    /// Reads credentials from their configuration text `value`, whose
    /// lowercase form is `lowered`.
    pub fn parse_lowered(value: &str, lowered: &str) -> (r: Result<Credentials, CredentialsError>)
        ensures
            parse_view(r) == parse_with(value@, lowered@),
    {
        let cmp = lowered;
        if str_equal(cmp, "none") {
            return Ok(Credentials::NoPassword);
        }
        if str_equal(cmp, "keyring") {
            return Err(CredentialsError::KeyringUnsupported);
        }
        let n = value.unicode_len();
        if n > 0 && value.get_char(n - 1) == ')' {
            if starts_with(cmp, "tokeyring(") {
                Err(CredentialsError::ToKeyringUnsupported)
            } else if starts_with(cmp, "clear(") {
                if n >= 7 {
                    let inner = value.substring_char(6, n - 1);
                    Ok(Credentials::Clear(String::from_str(inner)))
                } else {
                    Err(CredentialsError::Malformed)
                }
            } else {
                Err(CredentialsError::Unknown)
            }
        } else {
            Err(CredentialsError::Unknown)
        }
    }

    /// The configuration text of these credentials.
    pub fn to_text(&self) -> (r: String)
        ensures
            r@ == credentials_text(self@),
    {
        match self {
            Credentials::NoPassword => String::from_str("None"),
            Credentials::Clear(s) => {
                let mut r = String::from_str("Clear(");
                r.append(s.as_str());
                r.append(")");
                r
            },
        }
    }

    /// Credentials holding `password` in clear, or none.
    pub fn from_password(password: Option<String>) -> (r: Credentials)
        ensures
            r@ == match opt_view(password) {
                Some(p) => CredentialsView::Clear(p),
                None => CredentialsView::NoPassword,
            },
    {
        match password {
            Some(p) => Credentials::Clear(p),
            None => Credentials::NoPassword,
        }
    }

    /// The password these credentials hold, if any.
    pub fn password(&self) -> (r: Option<String>)
        ensures
            opt_view(r) == match self@ {
                CredentialsView::Clear(p) => Some(p),
                CredentialsView::NoPassword => None,
            },
    {
        match self {
            Credentials::Clear(p) => Some(p.clone()),
            Credentials::NoPassword => None,
        }
    }
}

// ---------------------------------------------------------------------------
// The configuration
// ---------------------------------------------------------------------------

/// The catalog language and region preferred for metadata.
#[derive(Clone, Debug, PartialEq)]
pub struct TmdbPreferences {
    pub prefered_lang: String,
    pub prefered_country: String,
}

impl TmdbPreferences {
    /// English, United States.
    pub fn standard() -> (r: TmdbPreferences)
        ensures
            r.prefered_lang@ == "en"@,
            r.prefered_country@ == "US"@,
    {
        TmdbPreferences {
            prefered_lang: String::from_str("en"),
            prefered_country: String::from_str("US"),
        }
    }
}

/// A library as the configuration file records it.
#[derive(Clone, Debug, PartialEq)]
pub struct ConfigLibrary {
    pub fs_type: LibraryType,
    pub flavor: LibraryFlavor,
    pub name: String,
    pub host: Option<String>,
    pub username: Option<String>,
    pub password: Credentials,
    pub path: String,
}

/// The whole configuration: the libraries, in slot order, and the catalog
/// preferences.
#[derive(Clone, Debug, PartialEq)]
pub struct Configuration {
    pub libraries: Vec<ConfigLibrary>,
    pub tmdb_preferences: TmdbPreferences,
}

impl Configuration {
    /// No library, standard preferences.
    pub fn empty() -> (r: Configuration)
        ensures
            r.libraries@.len() == 0,
            r.tmdb_preferences.prefered_lang@ == "en"@,
            r.tmdb_preferences.prefered_country@ == "US"@,
    {
        Configuration { libraries: Vec::new(), tmdb_preferences: TmdbPreferences::standard() }
    }
}

impl ConfigLibrary {
    /// The configuration record of a library; its password is kept in clear.
    pub fn from_library(lib: Library) -> (r: ConfigLibrary)
        ensures
            r.fs_type == lib.fs_type,
            r.flavor == lib.flavor,
            r.name@ == lib.name@,
            opt_view(r.host) == opt_view(lib.host),
            opt_view(r.username) == opt_view(lib.username),
            r.password@ == match opt_view(lib.password) {
                Some(p) => CredentialsView::Clear(p),
                None => CredentialsView::NoPassword,
            },
            r.path@ == lib.path@,
    {
        ConfigLibrary {
            fs_type: lib.fs_type,
            flavor: lib.flavor,
            name: lib.name,
            host: lib.host,
            username: lib.username,
            password: Credentials::from_password(lib.password),
            path: lib.path,
        }
    }

    /// The library this record describes.
    pub fn to_library(&self) -> (r: Library)
        ensures
            r.fs_type == self.fs_type,
            r.flavor == self.flavor,
            r.name@ == self.name@,
            opt_view(r.host) == opt_view(self.host),
            opt_view(r.username) == opt_view(self.username),
            opt_view(r.password) == match self.password@ {
                CredentialsView::Clear(p) => Some(p),
                CredentialsView::NoPassword => None,
            },
            r.path@ == self.path@,
    {
        Library {
            fs_type: self.fs_type,
            flavor: self.flavor,
            name: self.name.clone(),
            host: opt_string_clone(&self.host),
            username: opt_string_clone(&self.username),
            password: self.password.password(),
            path: self.path.clone(),
        }
    }
}

} // verus!
