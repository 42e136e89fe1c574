//! Resolution of the effective configuration file path from an optional
//! explicit override, the process's privilege level, and the platform's
//! per-user configuration directory.

use vstd::prelude::*;

verus! {

/// Why no configuration path could be resolved: the platform supplied no
/// per-user configuration directory while one was required. No valid path
/// exists in that case, so callers are expected to terminate with a
/// diagnostic.
#[derive(Debug, Clone, Copy, PartialEq, Eq, Structural)]
pub enum ResolveError {
    NoUserConfigDir,
}

/// Process-scoped resolved settings: the configuration file to use and
/// whether the process runs with superuser privileges. Constructed once by
/// resolution and read-only thereafter.
#[derive(Debug)]
pub struct GlobalConf {
    pub config_path: String,
    pub is_root: bool,
}

/// Mathematical model of a `GlobalConf`.
#[verifier::ext_equal]
pub struct GlobalConfModel {
    pub config_path: Seq<char>,
    pub is_root: bool,
}

impl View for GlobalConf {
    type V = GlobalConfModel;

    open spec fn view(&self) -> GlobalConfModel {
        GlobalConfModel { config_path: self.config_path@, is_root: self.is_root }
    }
}

/// The fixed system-wide configuration path, used when running as root
/// without an override.
pub open spec fn system_config_path() -> Seq<char> {
    "/etc/clash/clashup.toml"@
}

/// The fixed subpath appended to the user configuration directory.
pub open spec fn user_rel_path() -> Seq<char> {
    "clash/clashup.toml"@
}

/// The same subpath with a leading path separator.
pub open spec fn sep_user_rel_path() -> Seq<char> {
    "/clash/clashup.toml"@
}

/// The user-directory default: the fixed subpath appended to the user
/// configuration directory, with a separator inserted unless the directory
/// is empty or already ends with one.
pub open spec fn join_user_dir(dir: Seq<char>) -> Seq<char> {
    if dir.len() == 0 || dir.last() == '/' {
        dir + user_rel_path()
    } else {
        dir + sep_user_rel_path()
    }
}

/// What resolution returns for every combination of explicit override,
/// privilege level and user configuration directory: the override is used
/// verbatim when present; otherwise root gets the system-wide path, and an
/// unprivileged process gets the user-directory default or, when the
/// platform supplies no user configuration directory, the fatal error.
pub open spec fn resolve_model(
    explicit_override: Option<Seq<char>>,
    is_root: bool,
    user_dir: Option<Seq<char>>,
) -> Result<GlobalConfModel, ResolveError> {
    match explicit_override {
        Some(p) => Ok(GlobalConfModel { config_path: p, is_root }),
        None => if is_root {
            Ok(GlobalConfModel { config_path: system_config_path(), is_root: true })
        } else {
            match user_dir {
                Some(d) => Ok(GlobalConfModel { config_path: join_user_dir(d), is_root: false }),
                None => Err(ResolveError::NoUserConfigDir),
            }
        },
    }
}

pub open spec fn opt_string_model(o: Option<String>) -> Option<Seq<char>> {
    match o {
        Some(s) => Some(s@),
        None => None,
    }
}

pub open spec fn result_model(r: Result<GlobalConf, ResolveError>) -> Result<
    GlobalConfModel,
    ResolveError,
> {
    match r {
        Ok(g) => Ok(g@),
        Err(e) => Err(e),
    }
}

/// Override precedence: an explicitly supplied path is used verbatim,
/// whatever the privilege level and whatever the platform's user
/// configuration directory.
pub proof fn lemma_override_precedence(p: Seq<char>, is_root: bool, user_dir: Option<Seq<char>>)
    ensures
        resolve_model(Some(p), is_root, user_dir) matches Ok(g) && g.config_path == p
            && g.is_root == is_root,
{
}

/// Privilege branching: without an override, root resolves to the fixed
/// system-wide path; an unprivileged process resolves to the user-directory
/// default, and fails exactly when no user configuration directory exists.
pub proof fn lemma_privilege_branching(user_dir: Option<Seq<char>>)
    ensures
        resolve_model(None, true, user_dir) matches Ok(g) && g.config_path
            == system_config_path() && g.is_root,
        user_dir matches Some(d) ==> (resolve_model(None, false, user_dir) matches Ok(g)
            && g.config_path == join_user_dir(d) && !g.is_root),
        user_dir is None ==> resolve_model(None, false, user_dir) == Err::<
            GlobalConfModel,
            ResolveError,
        >(ResolveError::NoUserConfigDir),
{
}

/// Relies on nix::unistd::geteuid and nix::unistd::Uid::is_root: whether
/// the process's effective user id is the superuser's (uid 0). The result
/// depends on the ambient process identity, so nothing is promised of it.
#[verifier::external_body]
fn process_is_root() -> bool {
    nix::unistd::geteuid().is_root()
}

/// Relies on dirs::config_dir: the platform's per-user configuration
/// directory, or `None` when the platform cannot supply one. The result
/// depends on the environment, so nothing is promised of it.
#[verifier::external_body]
fn user_config_dir() -> Option<String> {
    match dirs::config_dir() {
        Some(p) => Some(p.to_string_lossy().into_owned()),
        None => None,
    }
}

fn join_user_dir_exec(dir: String) -> (r: String)
    ensures
        r@ == join_user_dir(dir@),
{
    let n: usize = dir.as_str().unicode_len();
    let mut out = dir;
    if n == 0 {
        out.append("clash/clashup.toml");
    } else {
        let c = out.as_str().get_char(n - 1);
        if c == '/' {
            out.append("clash/clashup.toml");
        } else {
            out.append("/clash/clashup.toml");
        }
    }
    out
}

impl GlobalConf {
    /// Resolution from explicitly supplied inputs: the override, the
    /// privilege level and the user configuration directory are arguments
    /// here, so every branch of the policy is verified for every value of
    /// them, and callers can resolve under any identity.
    pub fn resolve_with(
        explicit_override: Option<String>,
        is_root: bool,
        user_dir: Option<String>,
    ) -> (r: Result<GlobalConf, ResolveError>)
        ensures
            result_model(r) == resolve_model(
                opt_string_model(explicit_override),
                is_root,
                opt_string_model(user_dir),
            ),
    {
        match explicit_override {
            Some(p) => Ok(GlobalConf { config_path: p, is_root }),
            None => if is_root {
                Ok(GlobalConf { config_path: "/etc/clash/clashup.toml".to_owned(), is_root: true })
            } else {
                match user_dir {
                    Some(d) => Ok(GlobalConf { config_path: join_user_dir_exec(d), is_root: false }),
                    None => Err(ResolveError::NoUserConfigDir),
                }
            },
        }
    }

    /// Resolution against the ambient process: queries the effective user
    /// identity and, only when no override is given and the process is
    /// unprivileged, the platform's user configuration directory. Touches
    /// nothing on the filesystem; the override is accepted without an
    /// existence check.
    pub fn resolve(explicit_override: Option<String>) -> (r: Result<GlobalConf, ResolveError>)
        ensures
            explicit_override matches Some(p) ==> (r matches Ok(g) && g.config_path@ == p@),
            explicit_override is None ==> (r matches Ok(g) ==> (g.is_root ==> g.config_path@
                == system_config_path()) && (!g.is_root ==> exists|d: Seq<char>|
                g.config_path@ == #[trigger] join_user_dir(d))),
            r matches Err(e) ==> explicit_override is None && e == ResolveError::NoUserConfigDir,
    {
        let is_root = process_is_root();
        if explicit_override.is_some() {
            GlobalConf::resolve_with(explicit_override, is_root, None)
        } else if is_root {
            GlobalConf::resolve_with(None, is_root, None)
        } else {
            let dir = user_config_dir();
            let ghost dir_model = opt_string_model(dir);
            let r = GlobalConf::resolve_with(None, is_root, dir);
            proof {
                match dir_model {
                    Some(d) => {
                        assert(r matches Ok(g) && g.config_path@ == join_user_dir(d));
                    },
                    None => {},
                }
            }
            r
        }
    }
}

} // verus!
