use vstd::prelude::*;

use crate::text::str_equal;

verus! {

/// The storage backend a library lives on.
#[derive(Clone, Copy, Debug, PartialEq, Eq, Structural)]
pub enum LibraryType {
    Local,
    Ftp,
    Smb,
}

/// What kind of media a library holds.
#[derive(Clone, Copy, Debug, PartialEq, Eq, Structural)]
pub enum LibraryFlavor {
    Movie,
    TvShow,
}

/// The URL scheme that names each backend.
pub open spec fn scheme_of(t: LibraryType) -> Seq<char> {
    match t {
        LibraryType::Local => "file"@,
        LibraryType::Ftp => "ftp"@,
        LibraryType::Smb => "smb"@,
    }
}

impl LibraryType {
    pub fn to_scheme(&self) -> (r: &'static str)
        ensures
            r@ == scheme_of(*self),
    {
        match self {
            LibraryType::Local => "file",
            LibraryType::Ftp => "ftp",
            LibraryType::Smb => "smb",
        }
    }
}

/// A configured library: where it lives and how to reach it.
#[derive(Clone, Debug)]
pub struct Library {
    pub fs_type: LibraryType,
    pub flavor: LibraryFlavor,
    pub name: String,
    pub host: Option<String>,
    pub username: Option<String>,
    pub password: Option<String>,
    pub path: String,
}

pub struct LibraryView {
    pub fs_type: LibraryType,
    pub flavor: LibraryFlavor,
    pub name: Seq<char>,
    pub host: Option<Seq<char>>,
    pub username: Option<Seq<char>>,
    pub password: Option<Seq<char>>,
    pub path: Seq<char>,
}

pub open spec fn opt_view(o: Option<String>) -> Option<Seq<char>> {
    match o {
        Some(s) => Some(s@),
        None => None,
    }
}

impl View for Library {
    type V = LibraryView;

    open spec fn view(&self) -> LibraryView {
        LibraryView {
            fs_type: self.fs_type,
            flavor: self.flavor,
            name: self.name@,
            host: opt_view(self.host),
            username: opt_view(self.username),
            password: opt_view(self.password),
            path: self.path@,
        }
    }
}

pub fn opt_string_equal(a: &Option<String>, b: &Option<String>) -> (r: bool)
    ensures
        r == (opt_view(*a) == opt_view(*b)),
{
    match a {
        Some(x) => match b {
            Some(y) => str_equal(x.as_str(), y.as_str()),
            None => false,
        },
        None => b.is_none(),
    }
}

pub fn opt_string_clone(a: &Option<String>) -> (r: Option<String>)
    ensures
        opt_view(r) == opt_view(*a),
{
    match a {
        Some(x) => Some(x.clone()),
        None => None,
    }
}

impl Library {
    /// A field-by-field copy.
    pub fn duplicate(&self) -> (r: Library)
        ensures
            r@ == self@,
    {
        Library {
            fs_type: self.fs_type,
            flavor: self.flavor,
            name: self.name.clone(),
            host: opt_string_clone(&self.host),
            username: opt_string_clone(&self.username),
            password: opt_string_clone(&self.password),
            path: self.path.clone(),
        }
    }
}

impl PartialEq for Library {
    fn eq(&self, other: &Library) -> (r: bool)
        ensures
            r == (self@ == other@),
    {
        self.fs_type == other.fs_type && self.flavor == other.flavor && self.name == other.name
            && opt_string_equal(&self.host, &other.host) && opt_string_equal(
            &self.username,
            &other.username,
        ) && opt_string_equal(&self.password, &other.password) && self.path == other.path
    }
}

impl vstd::std_specs::cmp::PartialEqSpecImpl for Library {
    open spec fn obeys_eq_spec() -> bool {
        true
    }

    open spec fn eq_spec(&self, other: &Library) -> bool {
        self@ == other@
    }
}

/// How to reach a library's storage, as far as the library's settings decide it.
#[derive(Clone, Debug)]
pub enum BackendPlan {
    /// The local filesystem, rooted at the library's path.
    Local { root: String },
    /// An FTP server on its standard port.
    Ftp { host: String, port: u16, username: Option<String>, password: Option<String> },
    /// An SMB server, addressed by an `smb://` URL.
    Smb { server: String, username: Option<String>, password: Option<String> },
}

pub enum BackendPlanView {
    Local { root: Seq<char> },
    Ftp { host: Seq<char>, port: u16, username: Option<Seq<char>>, password: Option<Seq<char>> },
    Smb { server: Seq<char>, username: Option<Seq<char>>, password: Option<Seq<char>> },
}

impl View for BackendPlan {
    type V = BackendPlanView;

    open spec fn view(&self) -> BackendPlanView {
        match self {
            BackendPlan::Local { root } => BackendPlanView::Local { root: root@ },
            BackendPlan::Ftp { host, port, username, password } => BackendPlanView::Ftp {
                host: host@,
                port: *port,
                username: opt_view(*username),
                password: opt_view(*password),
            },
            BackendPlan::Smb { server, username, password } => BackendPlanView::Smb {
                server: server@,
                username: opt_view(*username),
                password: opt_view(*password),
            },
        }
    }
}

pub open spec fn ftp_port() -> u16 {
    21
}

/// The backend a library's settings call for; remote backends need a host.
pub open spec fn plan_of(l: LibraryView) -> Option<BackendPlanView> {
    match l.fs_type {
        LibraryType::Local => Some(BackendPlanView::Local { root: l.path }),
        LibraryType::Ftp => match l.host {
            Some(h) => Some(
                BackendPlanView::Ftp {
                    host: h,
                    port: ftp_port(),
                    username: l.username,
                    password: l.password,
                },
            ),
            None => None,
        },
        LibraryType::Smb => match l.host {
            Some(h) => Some(
                BackendPlanView::Smb {
                    server: "smb://"@ + h,
                    username: l.username,
                    password: l.password,
                },
            ),
            None => None,
        },
    }
}

pub open spec fn plan_view_of(r: Option<BackendPlan>) -> Option<BackendPlanView> {
    match r {
        Some(p) => Some(p@),
        None => None,
    }
}

impl Library {
    /// The backend to open for this library, or `None` when a remote
    /// library has no host.
    pub fn backend_plan(&self) -> (r: Option<BackendPlan>)
        ensures
            plan_view_of(r) == plan_of(self@),
    {
        match self.fs_type {
            LibraryType::Local => Some(BackendPlan::Local { root: self.path.clone() }),
            LibraryType::Ftp => match &self.host {
                Some(h) => Some(
                    BackendPlan::Ftp {
                        host: h.clone(),
                        port: 21,
                        username: opt_string_clone(&self.username),
                        password: opt_string_clone(&self.password),
                    },
                ),
                None => None,
            },
            LibraryType::Smb => match &self.host {
                Some(h) => {
                    let mut server = String::from_str("smb://");
                    server.append(h.as_str());
                    Some(
                        BackendPlan::Smb {
                            server,
                            username: opt_string_clone(&self.username),
                            password: opt_string_clone(&self.password),
                        },
                    )
                },
                None => None,
            },
        }
    }
}

} // verus!
