//! Where things are.
use crate::error::ConfigError;
use crate::text::{chars_of, has_part, lemma_replace_absent, replace_all, str_replace};
use vstd::prelude::*;

verus! {

/// Calls `dirs::home_dir`, and makes the path a text. The result depends on the
/// environment of the process, so nothing is claimed of it.
#[verifier::external_body]
pub(crate) fn home_directory() -> (r: Option<String>) {
    dirs::home_dir().map(|path| path.to_string_lossy().into_owned())
}

/// The message where the home directory is unknown.
pub open spec fn no_home_message() -> Seq<char> {
    "Could not determine home directory"@
}

pub(crate) fn no_home() -> (r: ConfigError)
    ensures
        r@ == no_home_message(),
{
    ConfigError::new("Could not determine home directory".to_string())
}

/// The path of an entry of a directory.
pub open spec fn joined(directory: Seq<char>, name: Seq<char>) -> Seq<char> {
    if directory.len() == 0 || directory.last() == '/' {
        directory + name
    } else {
        directory + "/"@ + name
    }
}

/// The path of an entry of a directory.
pub fn join_path(directory: &str, name: &str) -> (r: String)
    ensures
        r@ == joined(directory@, name@),
{
    let chars = chars_of(directory);
    let mut path = directory.to_string();
    if chars.len() != 0 && chars[chars.len() - 1] != '/' {
        path.append("/");
    }
    path.append(name);
    path
}

/// The files that the tool keeps.
#[derive(Clone, Debug)]
pub struct DarpPaths {
    pub _darp_root: String,
    pub config_path: String,
    pub portmap_path: String,
    pub dnsmasq_dir: String,
    pub vhost_container_conf: String,
    pub hosts_container_path: String,
    pub nginx_conf_path: String,
    pub container_host_ip_path: String,
}

impl DarpPaths {
    /// All files lie under the given root.
    pub open spec fn is_under(self, root: Seq<char>) -> bool {
        &&& self._darp_root@ == root
        &&& self.config_path@ == joined(root, "config.json"@)
        &&& self.portmap_path@ == joined(root, "portmap.json"@)
        &&& self.dnsmasq_dir@ == joined(root, "dnsmasq.d"@)
        &&& self.vhost_container_conf@ == joined(root, "vhost_container.conf"@)
        &&& self.hosts_container_path@ == joined(root, "hosts_container"@)
        &&& self.nginx_conf_path@ == joined(root, "nginx.conf"@)
        &&& self.container_host_ip_path@ == joined(root, "container_host_ip"@)
    }

    /// The files under a root.
    pub fn under(root: &str) -> (r: DarpPaths)
        ensures
            r.is_under(root@),
    {
        DarpPaths {
            _darp_root: root.to_string(),
            config_path: join_path(root, "config.json"),
            portmap_path: join_path(root, "portmap.json"),
            dnsmasq_dir: join_path(root, "dnsmasq.d"),
            vhost_container_conf: join_path(root, "vhost_container.conf"),
            hosts_container_path: join_path(root, "hosts_container"),
            nginx_conf_path: join_path(root, "nginx.conf"),
            container_host_ip_path: join_path(root, "container_host_ip"),
        }
    }

    /// The files for a user with the given home directory. `darp_root` is the value
    /// of `DARP_ROOT`, where it is set.
    pub fn for_home(home: Option<&str>, darp_root: Option<&str>) -> (r: Result<
        DarpPaths,
        ConfigError,
    >)
        ensures
            match home {
                None => r is Err && r->Err_0@ == no_home_message(),
                Some(home) => r is Ok && r->Ok_0.is_under(
                    match darp_root {
                        Some(root) => root@,
                        None => joined(home@, ".darp"@),
                    },
                ),
            },
    {
        match home {
            None => Err(no_home()),
            Some(home) => match darp_root {
                Some(root) => Ok(DarpPaths::under(root)),
                None => Ok(DarpPaths::under(join_path(home, ".darp").as_str())),
            },
        }
    }

    /// The files for the current user. `darp_root` is the value of `DARP_ROOT`, where
    /// it is set.
    pub fn from_env(darp_root: Option<&str>) -> (r: Result<DarpPaths, ConfigError>)
        ensures
            r matches Err(e) ==> e@ == no_home_message(),
            r matches Ok(paths) ==> match darp_root {
                Some(root) => paths.is_under(root@),
                None => exists|home: Seq<char>| #[trigger]
                    paths.is_under(joined(home, ".darp"@)),
            },
    {
        match home_directory() {
            None => DarpPaths::for_home(None, darp_root),
            Some(home) => DarpPaths::for_home(Some(home.as_str()), darp_root),
        }
    }
}

/// A location with `{home}` replaced.
pub open spec fn located(location: Seq<char>, home: Seq<char>) -> Seq<char> {
    replace_all(location, "{home}"@, home)
}

/// Replaces `{home}` in a location.
pub fn expand_home(location: &str, home: &str) -> (r: String)
    ensures
        r@ == located(location@, home@),
{
    proof {
        reveal_strlit("{home}");
    }
    str_replace(location, "{home}", home)
}

/// Replaces `{home}` in a location by the home directory of the current user.
pub fn resolve_location(location: &str) -> (r: Result<String, ConfigError>)
    ensures
        r matches Err(e) ==> e@ == no_home_message(),
        r matches Ok(path) ==> exists|home: Seq<char>| path@ == #[trigger] located(location@, home),
{
    match home_directory() {
        None => Err(no_home()),
        Some(home) => Ok(expand_home(location, home.as_str())),
    }
}

/// A location without `{home}` is a path already.
pub proof fn location_without_home_is_a_path(location: Seq<char>, home: Seq<char>)
    requires
        !has_part(location, "{home}"@),
    ensures
        located(location, home) == location,
{
    lemma_replace_absent(location, "{home}"@, home);
}

/// A host path with its tokens replaced: first `{pwd}`, then `{home}`, then
/// `{domain}`, which is the location of the domain here.
pub open spec fn host_path(
    template: Seq<char>,
    current_dir: Seq<char>,
    home: Seq<char>,
    domain_location: Seq<char>,
) -> Seq<char> {
    let s = replace_all(template, "{pwd}"@, current_dir);
    let s = replace_all(s, "{home}"@, home);
    replace_all(s, "{domain}"@, domain_location)
}

/// Replaces the tokens of a host path.
pub fn expand_host_path(template: &str, current_dir: &str, home: &str, domain_location: &str) -> (r:
    String)
    ensures
        r@ == host_path(template@, current_dir@, home@, domain_location@),
{
    proof {
        reveal_strlit("{pwd}");
        reveal_strlit("{home}");
        reveal_strlit("{domain}");
    }
    let s = str_replace(template, "{pwd}", current_dir);
    let s = str_replace(s.as_str(), "{home}", home);
    str_replace(s.as_str(), "{domain}", domain_location)
}

} // verus!
