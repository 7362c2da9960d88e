//! Configuration of the vendoring tool: defaults, values from a config
//! file, and overrides from the environment.
use vstd::prelude::*;
use crate::path::{path_join, join_path};
use crate::text::{owned, parse_usize, parse_usize_spec, push_str, replace, replace_all, str_eq, trim, trimmed};

verus! {

broadcast use vstd::string::group_string_axioms;

/// A directory to be warmed in the cache.
pub struct WarmDir {
    pub path: String,
    pub prefix: String,
    pub exts: Vec<String>,
    pub max_size: u64,
    pub last_warmed: Option<String>,
}

/// Main configuration structure.
pub struct Config {
    /// Git executable path
    pub git_path: String,
    /// Default vendor directory
    pub vendor_dir: String,
    /// Default submodules directory
    pub submodules_dir: String,
    /// Default bare mirrors directory
    pub mirrors_dir: String,
    /// Default manifest path
    pub manifest_path: Option<String>,
    /// Default target branch
    pub target_branch: String,
    /// Version branch format (`{}` is replaced by the version)
    pub version_branch_format: String,
    /// Whether to create version branches automatically
    pub create_version_branches: bool,
    /// Default number of threads for parallel operations
    pub default_threads: usize,
    /// Config file path (if one was read)
    pub config_file: Option<String>,
    /// Directories to warm the cache with
    pub warm_dirs: Vec<WarmDir>,
}

/// Values read from a config file; each absent value keeps the current one.
pub struct ConfigFile {
    pub git_path: Option<String>,
    pub vendor_dir: Option<String>,
    pub submodules_dir: Option<String>,
    pub mirrors_dir: Option<String>,
    pub manifest_path: Option<String>,
    pub target_branch: Option<String>,
    pub version_branch_format: Option<String>,
    pub create_version_branches: Option<bool>,
    pub default_threads: Option<usize>,
    pub warm_dirs: Option<Vec<WarmDir>>,
}

/// Values of the `VENDORMOD_*` environment variables that are set.
pub struct EnvOverrides {
    pub git_path: Option<String>,
    pub vendor_dir: Option<String>,
    pub submodules_dir: Option<String>,
    pub mirrors_dir: Option<String>,
    pub target_branch: Option<String>,
    pub create_version_branches: Option<String>,
    pub threads: Option<String>,
}

/// The home directory (`dirs::home_dir`), as a string.
///
/// The result depends on the environment and the user database; when it is
/// `Some`, the crate documents it as not empty, which is all that is stated.
#[verifier::external_body]
fn home_dir() -> (r: Option<String>)
    ensures
        r matches Some(h) ==> h@.len() > 0,
{
    dirs::home_dir().map(|p| p.to_string_lossy().to_string())
}

/// The number of usable CPUs (`num_cpus::get`); the crate documents that
/// it is at least one. Which number comes back depends on the machine.
#[verifier::external_body]
fn cpu_count() -> (r: usize)
    ensures
        r >= 1,
{
    num_cpus::get()
}

/// Mirrors directory under a home directory (or the current directory).
pub open spec fn default_mirrors_dir(home: Option<Seq<char>>) -> Seq<char> {
    match home {
        Some(h) => join_path(h, "git"@),
        None => join_path("."@, "git"@),
    }
}

/// Git path found by a lookup of `git` in `PATH`, or `git` itself.
pub open spec fn default_git_path(which_output: Option<Seq<char>>) -> Seq<char> {
    match which_output {
        Some(o) => trim(o),
        None => "git"@,
    }
}

impl Config {
    /// The default configuration for a home directory, the output of a
    /// lookup of `git` in `PATH` (`None` when the lookup failed) and a
    /// thread count.
    pub fn with_defaults(home: Option<String>, which_output: Option<String>, threads: usize) -> (r: Config)
        ensures
            r.git_path@ == default_git_path(which_output.deep_view()),
            r.vendor_dir@ == "vendor"@,
            r.submodules_dir@ == "submodules"@,
            r.mirrors_dir@ == default_mirrors_dir(home.deep_view()),
            r.manifest_path is None,
            r.target_branch@ == "main"@,
            r.version_branch_format@ == "v{}"@,
            !r.create_version_branches,
            r.default_threads == threads,
            r.config_file is None,
            r.warm_dirs@.len() == 0,
    {
        let home_path = match home {
            Some(h) => h,
            None => owned("."),
        };
        let git_path = match which_output {
            Some(o) => trimmed(o.as_str()),
            None => owned("git"),
        };
        Config {
            git_path,
            vendor_dir: owned("vendor"),
            submodules_dir: owned("submodules"),
            mirrors_dir: path_join(home_path.as_str(), "git"),
            manifest_path: None,
            target_branch: owned("main"),
            version_branch_format: owned("v{}"),
            create_version_branches: false,
            default_threads: threads,
            config_file: None,
            warm_dirs: Vec::new(),
        }
    }

    /// Applies the values present in a config file.
    pub fn merge_file(&mut self, parsed: ConfigFile)
        ensures
            final(self).git_path@ == (match parsed.git_path {
                Some(p) => p@,
                None => old(self).git_path@,
            }),
            final(self).vendor_dir@ == (match parsed.vendor_dir {
                Some(p) => p@,
                None => old(self).vendor_dir@,
            }),
            final(self).submodules_dir@ == (match parsed.submodules_dir {
                Some(p) => p@,
                None => old(self).submodules_dir@,
            }),
            final(self).mirrors_dir@ == (match parsed.mirrors_dir {
                Some(p) => p@,
                None => old(self).mirrors_dir@,
            }),
            final(self).manifest_path.deep_view() == (match parsed.manifest_path {
                Some(p) => Some(p@),
                None => old(self).manifest_path.deep_view(),
            }),
            final(self).target_branch@ == (match parsed.target_branch {
                Some(p) => p@,
                None => old(self).target_branch@,
            }),
            final(self).version_branch_format@ == (match parsed.version_branch_format {
                Some(p) => p@,
                None => old(self).version_branch_format@,
            }),
            final(self).create_version_branches == (match parsed.create_version_branches {
                Some(b) => b,
                None => old(self).create_version_branches,
            }),
            final(self).default_threads == (match parsed.default_threads {
                Some(t) => t,
                None => old(self).default_threads,
            }),
            final(self).warm_dirs@ == (match parsed.warm_dirs {
                Some(d) => d@,
                None => old(self).warm_dirs@,
            }),
            final(self).config_file == old(self).config_file,
    {
        if let Some(p) = parsed.git_path {
            self.git_path = p;
        }
        if let Some(p) = parsed.vendor_dir {
            self.vendor_dir = p;
        }
        if let Some(p) = parsed.submodules_dir {
            self.submodules_dir = p;
        }
        if let Some(p) = parsed.mirrors_dir {
            self.mirrors_dir = p;
        }
        if let Some(p) = parsed.manifest_path {
            self.manifest_path = Some(p);
        }
        if let Some(b) = parsed.target_branch {
            self.target_branch = b;
        }
        if let Some(f) = parsed.version_branch_format {
            self.version_branch_format = f;
        }
        if let Some(b) = parsed.create_version_branches {
            self.create_version_branches = b;
        }
        if let Some(t) = parsed.default_threads {
            self.default_threads = t;
        }
        if let Some(d) = parsed.warm_dirs {
            self.warm_dirs = d;
        }
    }

    /// Applies `VENDORMOD_*` overrides. `VENDORMOD_CREATE_VERSION_BRANCHES`
    /// is true only when it reads `true`; `VENDORMOD_THREADS` is used only
    /// when it parses as a number.
    pub fn merge_env(&mut self, env: EnvOverrides)
        ensures
            final(self).git_path@ == (match env.git_path {
                Some(p) => p@,
                None => old(self).git_path@,
            }),
            final(self).vendor_dir@ == (match env.vendor_dir {
                Some(p) => p@,
                None => old(self).vendor_dir@,
            }),
            final(self).submodules_dir@ == (match env.submodules_dir {
                Some(p) => p@,
                None => old(self).submodules_dir@,
            }),
            final(self).mirrors_dir@ == (match env.mirrors_dir {
                Some(p) => p@,
                None => old(self).mirrors_dir@,
            }),
            final(self).target_branch@ == (match env.target_branch {
                Some(p) => p@,
                None => old(self).target_branch@,
            }),
            final(self).create_version_branches == (match env.create_version_branches {
                Some(b) => b@ == "true"@,
                None => old(self).create_version_branches,
            }),
            final(self).default_threads == (match env.threads {
                Some(t) => match parse_usize_spec(t@) {
                    Some(n) => n,
                    None => old(self).default_threads as nat,
                },
                None => old(self).default_threads as nat,
            }),
            final(self).manifest_path == old(self).manifest_path,
            final(self).version_branch_format == old(self).version_branch_format,
            final(self).config_file == old(self).config_file,
            final(self).warm_dirs == old(self).warm_dirs,
    {
        if let Some(p) = env.git_path {
            self.git_path = p;
        }
        if let Some(p) = env.vendor_dir {
            self.vendor_dir = p;
        }
        if let Some(p) = env.submodules_dir {
            self.submodules_dir = p;
        }
        if let Some(p) = env.mirrors_dir {
            self.mirrors_dir = p;
        }
        if let Some(b) = env.target_branch {
            self.target_branch = b;
        }
        if let Some(b) = env.create_version_branches {
            self.create_version_branches = str_eq(b.as_str(), "true");
        }
        if let Some(t) = env.threads {
            if let Some(n) = parse_usize(t.as_str()) {
                self.default_threads = n;
            }
        }
    }

    /// Mirror path for `owner/repo`: `<mirrors_dir>/<owner>/<repo>.git`.
    pub fn get_mirror_path(&self, owner: &str, repo: &str) -> (r: String)
        ensures
            r@ == join_path(join_path(self.mirrors_dir@, owner@), repo@ + ".git"@),
    {
        let dir = path_join(self.mirrors_dir.as_str(), owner);
        let mut name = owned(repo);
        push_str(&mut name, ".git");
        path_join(dir.as_str(), name.as_str())
    }

    /// Submodule path for a repository: `<submodules_dir>/<repo_name>`.
    pub fn get_submodule_path(&self, repo_name: &str) -> (r: String)
        ensures
            r@ == join_path(self.submodules_dir@, repo_name@),
    {
        path_join(self.submodules_dir.as_str(), repo_name)
    }

    /// Version branch name: the format with every `{}` replaced by
    /// `version`.
    pub fn version_branch(&self, version: &str) -> (r: String)
        ensures
            r@ == replace(self.version_branch_format@, "{}"@, version@),
    {
        proof {
            reveal_strlit("{}");
        }
        replace_all(self.version_branch_format.as_str(), "{}", version)
    }
}

/// A setting as layered: the environment's value when it is set, else the
/// file's, else the default.
pub open spec fn layered_text(env: Option<String>, file: Option<String>, default: Seq<char>) -> Seq<char> {
    match env {
        Some(e) => e@,
        None => match file {
            Some(f) => f@,
            None => default,
        },
    }
}

impl Config {
    /// The configuration in force: the defaults, overridden by the file's
    /// settings (when a file was read), overridden by the environment's
    /// (`VENDORMOD_CREATE_VERSION_BRANCHES` counts as true only when it
    /// reads `true`; `VENDORMOD_THREADS` counts only when it is a number).
    pub fn layered(defaults: Config, file: Option<ConfigFile>, env: EnvOverrides) -> (r: Config)
        ensures
            r.git_path@ == layered_text(env.git_path, match file { Some(f) => f.git_path, None => None }, defaults.git_path@),
            r.vendor_dir@ == layered_text(env.vendor_dir, match file { Some(f) => f.vendor_dir, None => None }, defaults.vendor_dir@),
            r.submodules_dir@ == layered_text(
                env.submodules_dir,
                match file { Some(f) => f.submodules_dir, None => None },
                defaults.submodules_dir@,
            ),
            r.mirrors_dir@ == layered_text(env.mirrors_dir, match file { Some(f) => f.mirrors_dir, None => None }, defaults.mirrors_dir@),
            r.target_branch@ == layered_text(
                env.target_branch,
                match file { Some(f) => f.target_branch, None => None },
                defaults.target_branch@,
            ),
            r.version_branch_format@ == (match file {
                Some(f) => match f.version_branch_format {
                    Some(v) => v@,
                    None => defaults.version_branch_format@,
                },
                None => defaults.version_branch_format@,
            }),
            r.create_version_branches == (match env.create_version_branches {
                Some(b) => b@ == "true"@,
                None => match file {
                    Some(f) => match f.create_version_branches {
                        Some(b) => b,
                        None => defaults.create_version_branches,
                    },
                    None => defaults.create_version_branches,
                },
            }),
            r.default_threads == (match env.threads {
                Some(t) if parse_usize_spec(t@) is Some => parse_usize_spec(t@)->0,
                _ => match file {
                    Some(f) => match f.default_threads {
                        Some(n) => n as nat,
                        None => defaults.default_threads as nat,
                    },
                    None => defaults.default_threads as nat,
                },
            }),
            r.manifest_path.deep_view() == (match file {
                Some(f) => match f.manifest_path {
                    Some(p) => Some(p@),
                    None => defaults.manifest_path.deep_view(),
                },
                None => defaults.manifest_path.deep_view(),
            }),
            r.warm_dirs@ == (match file {
                Some(f) => match f.warm_dirs {
                    Some(d) => d@,
                    None => defaults.warm_dirs@,
                },
                None => defaults.warm_dirs@,
            }),
            r.config_file == defaults.config_file,
    {
        let mut c = defaults;
        match file {
            Some(f) => c.merge_file(f),
            None => {},
        }
        c.merge_env(env);
        c
    }
}

impl Default for Config {
    /// The defaults for this machine: the mirrors under its home directory
    /// (whatever `dirs::home_dir` gives), its number of CPUs as thread count,
    /// and `git` as the git executable. No process is started here, so `git`
    /// is not looked up in `PATH`; a caller that has run that lookup passes
    /// its output to `Config::with_defaults` instead.
    fn default() -> (r: Config)
        ensures
            exists|h: Option<Seq<char>>| (h matches Some(x) ==> x.len() > 0) && r.mirrors_dir@ == default_mirrors_dir(h),
            r.git_path@ == "git"@,
            r.vendor_dir@ == "vendor"@,
            r.submodules_dir@ == "submodules"@,
            r.manifest_path is None,
            r.target_branch@ == "main"@,
            r.version_branch_format@ == "v{}"@,
            !r.create_version_branches,
            r.default_threads >= 1,
            r.config_file is None,
            r.warm_dirs@.len() == 0,
    {
        let home = home_dir();
        let ghost h = home.deep_view();
        let r = Config::with_defaults(home, None, cpu_count());
        assert((h matches Some(x) ==> x.len() > 0) && r.mirrors_dir@ == default_mirrors_dir(h));
        r
    }
}

/// Text of a sample config file.
pub const SAMPLE_CONFIG: &'static str = "# cargo-vendormod configuration
# Copy to ./vendormod.toml or ~/.config/cargo-vendormod/config.toml

# Git executable path
# git_path = \"git\"

# Default directories (relative to workspace)
# vendor_dir = \"vendor\"
# submodules_dir = \"submodules\"

# Bare git mirrors directory (absolute path recommended)
# Example: ~/git or /home/user/git
# mirrors_dir = \"~/git\"

# Default target branch for submodules
# target_branch = \"main\"

# Version branch format (use {} as placeholder for version)
# version_branch_format = \"v{}\"

# Whether to automatically create version branches
# create_version_branches = false

# Default number of threads for parallel operations
# default_threads = 8

# Directories to warm the cache with
# [[warm_dirs]]
# path = \"/path/to/dir\"
# prefix = \"my-prefix\"
# exts = [\"rs\", \"toml\", \"md\"]
# max_size = 1048576
";

/// A sample config file.
pub fn generate_sample_config() -> (r: String)
    ensures
        r@ == SAMPLE_CONFIG@,
{
    owned(SAMPLE_CONFIG)
}

} // verus!
