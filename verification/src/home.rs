//! The directory that keeps identities, and the profile of each identity in it.
use vstd::prelude::*;
use vstd::utf8::encode_utf8;

use crate::parse::types::{partial_name, DhttpName};
use crate::path::{joined, UnixPath};

verus! {

/// The home directory of DHttp identities.
#[derive(Debug)]
pub struct DhttpHome {
    pub path: UnixPath,
}

/// A path inside a directory.
pub open spec fn inside(dir: Seq<u8>, name: Seq<char>) -> Seq<u8> {
    joined(dir, encode_utf8(name))
}

impl DhttpHome {
    pub fn new(path: UnixPath) -> (home: Self)
        ensures
            home.path == path,
    {
        DhttpHome { path }
    }

    /// The home in the home directory of a user.
    pub fn for_user_home_dir(home_dir: &UnixPath) -> (home: Self)
        ensures
            home.path@ == inside(home_dir@, ".dhttp"@),
    {
        DhttpHome { path: home_dir.join(&UnixPath::new(".dhttp")) }
    }

    /// The profile of an identity: a directory named like the identity without its ending.
    pub fn identity_profile(&self, name: &DhttpName) -> (profile: IdentityProfile)
        ensures
            profile.name@ == name@,
            profile.path@ == inside(self.path@, partial_name(name@)),
    {
        let partial = name.as_partial();
        IdentityProfile {
            path: self.path.join(&UnixPath::new(partial.as_str())),
            name: name.clone(),
        }
    }
}

/// The profile of an identity.
#[derive(Debug)]
pub struct IdentityProfile {
    pub path: UnixPath,
    pub name: DhttpName,
}

impl IdentityProfile {
    /// Where the accesses to the identity's server are logged.
    pub open spec fn access_log(self) -> Seq<u8> {
        inside(inside(self.path@, "logs"@), "access.log"@)
    }

    pub fn name(&self) -> (name: &DhttpName)
        ensures
            *name == self.name,
    {
        &self.name
    }

    pub fn path(&self) -> (path: &UnixPath)
        ensures
            *path == self.path,
    {
        &self.path
    }

    pub fn access_log_path(&self) -> (path: UnixPath)
        ensures
            path@ == self.access_log(),
    {
        self.path.join(&UnixPath::new("logs")).join(&UnixPath::new("access.log"))
    }

    /// Where the certificates and the key of the identity are.
    pub fn ssl_dir(&self) -> (path: UnixPath)
        ensures
            path@ == inside(self.path@, "ssl"@),
    {
        self.path.join(&UnixPath::new("ssl"))
    }

    /// The certificates that the identity has by default.
    pub fn certificate_path(&self) -> (path: UnixPath)
        ensures
            path@ == inside(inside(self.path@, "ssl"@), "fullchain.crt"@),
    {
        self.ssl_dir().join(&UnixPath::new("fullchain.crt"))
    }

    /// The key that the identity has by default.
    pub fn private_key_path(&self) -> (path: UnixPath)
        ensures
            path@ == inside(inside(self.path@, "ssl"@), "privkey.pem"@),
    {
        self.ssl_dir().join(&UnixPath::new("privkey.pem"))
    }

    /// Where the identity's server is configured.
    pub fn server_conf_path(&self) -> (path: UnixPath)
        ensures
            path@ == inside(self.path@, "server.conf"@),
    {
        self.path.join(&UnixPath::new("server.conf"))
    }
}

impl Clone for IdentityProfile {
    fn clone(&self) -> (copy: Self)
        ensures
            copy.path@ == self.path@,
            copy.name@ == self.name@,
    {
        IdentityProfile { path: self.path.clone(), name: self.name.clone() }
    }
}

} // verus!
