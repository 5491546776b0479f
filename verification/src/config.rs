//! The sweep configuration: cleanup roots, policy knobs and security
//! settings, with verified validation and the default values.

use vstd::prelude::*;

use crate::errors::ClearModelError;
use crate::path_model::{
    FsPath, PathView, extension_of, split_comps, starts_absolute, views_of,
};
use crate::text::str_eq;

verus! {

/// Security-related configuration.
#[derive(Debug, Clone)]
pub struct SecurityConfig {
    /// Whether the cache-likeness and user-data gates run on each root.
    pub validate_cache_paths: bool,
    /// Whether traversal attempts are checked for.
    pub check_path_traversal: bool,
    /// How deep the walker may descend below a root.
    pub max_path_depth: usize,
    /// Ask for confirmation above this many gigabytes, when set.
    pub require_confirmation_threshold_gb: Option<u64>,
}

impl Default for SecurityConfig {
    fn default() -> (r: Self)
        ensures
            r.validate_cache_paths == true,
            r.check_path_traversal == true,
            r.max_path_depth == 20,
            r.require_confirmation_threshold_gb == Some(10u64),
    {
        SecurityConfig {
            validate_cache_paths: true,
            check_path_traversal: true,
            max_path_depth: 20,
            require_confirmation_threshold_gb: Some(10),
        }
    }
}

/// Configuration of one sweep; immutable while the sweep runs.
#[derive(Debug, Clone)]
pub struct ClearModelConfig {
    /// Cache directories to clean.
    pub cache_paths: Vec<FsPath>,
    /// Maximum age of cache files in days.
    pub max_cache_age_days: u32,
    /// Maximum number of parallel operations.
    pub max_parallel_operations: usize,
    /// Whether to follow symbolic links.
    pub follow_symlinks: bool,
    /// File extensions to target for bytecode-cache cleanup.
    pub python_cache_extensions: Vec<String>,
    /// Directory names to skip during cleanup.
    pub skip_directories: Vec<String>,
    /// Minimum free space threshold in gigabytes before cleanup.
    pub min_free_space_gb: u64,
    /// Whether to perform a dry run by default.
    pub default_dry_run: bool,
    /// Logging configuration.
    pub log_level: String,
    /// Security settings.
    pub security: SecurityConfig,
}

/// The default extension targets.
pub open spec fn default_extensions() -> Seq<Seq<char>> {
    seq![".pyc"@, ".pyo"@, ".pyd"@]
}

/// The default skip-list of directory names.
pub open spec fn default_skip_dirs() -> Seq<Seq<char>> {
    seq![".git"@, ".svn"@, "node_modules"@, ".venv"@, "venv"@, "__pycache__"@]
}

/// The default cache locations, relative to the home directory.
pub open spec fn default_cache_rel() -> Seq<Seq<char>> {
    seq![
        ".cache/huggingface"@,
        ".cache/torch"@,
        ".cache/tensorflow"@,
        ".cache/keras"@,
        ".cache/transformers"@,
        ".cache/anthropic"@,
        ".cache/openai"@,
        ".cache/pytorch"@,
        ".cache/models"@,
        ".keras"@,
        ".transformers"@,
    ]
}

/// What joining the path named by `rel` onto `base` yields.
pub open spec fn joined_view(base: PathView, rel: Seq<char>) -> PathView {
    if starts_absolute(rel) {
        PathView { absolute: true, comps: split_comps(rel) }
    } else {
        PathView { absolute: base.absolute, comps: base.comps + split_comps(rel) }
    }
}

/// Relies on home::home_dir: the platform's notion of the user's home
/// directory, read from the process environment; nothing can be promised of
/// the result.
#[verifier::external_body]
fn home_dir_string() -> (r: Option<String>) {
    home::home_dir().map(|p| p.to_string_lossy().into_owned())
}

/// The default relative cache names as executable values.
fn rel_cache_names() -> (r: Vec<String>)
    ensures
        r.deep_view() == default_cache_rel(),
{
    let mut v: Vec<String> = Vec::new();
    v.push(".cache/huggingface".to_owned());
    v.push(".cache/torch".to_owned());
    v.push(".cache/tensorflow".to_owned());
    v.push(".cache/keras".to_owned());
    v.push(".cache/transformers".to_owned());
    v.push(".cache/anthropic".to_owned());
    v.push(".cache/openai".to_owned());
    v.push(".cache/pytorch".to_owned());
    v.push(".cache/models".to_owned());
    v.push(".keras".to_owned());
    v.push(".transformers".to_owned());
    proof {
        assert(v.deep_view() =~= default_cache_rel());
    }
    v
}

impl Default for ClearModelConfig {
    fn default() -> (r: Self)
        ensures
            r.max_cache_age_days == 7,
            r.max_parallel_operations == 10,
            r.follow_symlinks == false,
            r.python_cache_extensions.deep_view() == default_extensions(),
            r.skip_directories.deep_view() == default_skip_dirs(),
            r.min_free_space_gb == 1,
            r.default_dry_run == false,
            r.log_level@ == "info"@,
            r.security.validate_cache_paths == true,
            r.security.check_path_traversal == true,
            r.security.max_path_depth == 20,
            r.security.require_confirmation_threshold_gb == Some(10u64),
            forall|i: int| 0 <= i < r.cache_paths.len() ==> (#[trigger] r.cache_paths[i]).wf(),
    {
        let home = home_dir_string();
        let home_path = match home {
            Some(s) => Some(FsPath::parse(s.as_str())),
            None => None,
        };
        let cache_paths = ClearModelConfig::default_cache_paths(home_path.as_ref());
        let mut python_cache_extensions: Vec<String> = Vec::new();
        python_cache_extensions.push(".pyc".to_owned());
        python_cache_extensions.push(".pyo".to_owned());
        python_cache_extensions.push(".pyd".to_owned());
        let mut skip_directories: Vec<String> = Vec::new();
        skip_directories.push(".git".to_owned());
        skip_directories.push(".svn".to_owned());
        skip_directories.push("node_modules".to_owned());
        skip_directories.push(".venv".to_owned());
        skip_directories.push("venv".to_owned());
        skip_directories.push("__pycache__".to_owned());
        proof {
            assert(python_cache_extensions.deep_view() =~= default_extensions());
            assert(skip_directories.deep_view() =~= default_skip_dirs());
        }
        ClearModelConfig {
            cache_paths,
            max_cache_age_days: 7,
            max_parallel_operations: 10,
            follow_symlinks: false,
            python_cache_extensions,
            skip_directories,
            min_free_space_gb: 1,
            default_dry_run: false,
            log_level: "info".to_owned(),
            security: SecurityConfig::default(),
        }
    }
}

impl ClearModelConfig {
    /// The configuration is usable for a sweep: at least one root, some
    /// parallelism, and a positive traversal depth.
    pub open spec fn valid_spec(&self) -> bool {
        self.cache_paths.len() > 0 && self.max_parallel_operations > 0
            && self.security.max_path_depth > 0
    }

    /// Every configured root is a well-formed path.
    pub open spec fn wf(&self) -> bool {
        forall|i: int| 0 <= i < self.cache_paths.len() ==> (#[trigger] self.cache_paths[i]).wf()
    }

    /// Validate the configuration; a failure here is fatal at startup.
    pub fn validate(&self) -> (r: Result<(), ClearModelError>)
        ensures
            r is Ok <==> self.valid_spec(),
            r matches Err(e) ==> e is Configuration,
    {
        if self.cache_paths.len() == 0 {
            let mut msg = String::new();
            msg.append("No cache paths configured");
            return Err(ClearModelError::configuration(msg));
        }
        if self.max_parallel_operations == 0 {
            let mut msg = String::new();
            msg.append("max_parallel_operations must be greater than 0");
            return Err(ClearModelError::configuration(msg));
        }
        if self.security.max_path_depth == 0 {
            let mut msg = String::new();
            msg.append("max_path_depth must be greater than 0");
            return Err(ClearModelError::configuration(msg));
        }
        Ok(())
    }

    /// The default cache locations under the given home directory; empty when
    /// no home directory is known.
    pub fn default_cache_paths(home: Option<&FsPath>) -> (r: Vec<FsPath>)
        ensures
            match home {
                None => r@.len() == 0,
                Some(h) => r@.len() == default_cache_rel().len() && (forall|i: int|
                    0 <= i < r@.len() ==> (#[trigger] r@[i])@ == joined_view(
                        h@,
                        default_cache_rel()[i],
                    )) && (h.wf() ==> forall|i: int|
                    0 <= i < r@.len() ==> (#[trigger] r@[i]).wf()),
            },
    {
        let mut out: Vec<FsPath> = Vec::new();
        match home {
            None => out,
            Some(h) => {
                let names = rel_cache_names();
                let mut i: usize = 0;
                while i < names.len()
                    invariant
                        names.deep_view() == default_cache_rel(),
                        0 <= i <= names.len(),
                        out@.len() == i,
                        forall|j: int|
                            0 <= j < i ==> (#[trigger] out@[j])@ == joined_view(
                                h@,
                                default_cache_rel()[j],
                            ),
                        h.wf() ==> forall|j: int| 0 <= j < i ==> (#[trigger] out@[j]).wf(),
                    decreases names.len() - i,
                {
                    let rel = FsPath::parse(names[i].as_str());
                    out.push(h.join(&rel));
                    i = i + 1;
                }
                out
            },
        }
    }

    /// The configured roots whose `exists` flag is set, in order.  The caller
    /// supplies one flag per root, from its own look at the filesystem.
    pub fn existing_cache_paths(&self, exists: &Vec<bool>) -> (r: Vec<FsPath>)
        requires
            exists.len() == self.cache_paths.len(),
        ensures
            views_of(r@) == filter_flags(views_of(self.cache_paths@), exists@),
            self.wf() ==> forall|i: int| 0 <= i < r@.len() ==> (#[trigger] r@[i]).wf(),
    {
        let mut out: Vec<FsPath> = Vec::new();
        let mut i: usize = 0;
        while i < self.cache_paths.len()
            invariant
                exists.len() == self.cache_paths.len(),
                0 <= i <= self.cache_paths.len(),
                views_of(out@) == filter_flags(
                    views_of(self.cache_paths@.take(i as int)),
                    exists@.take(i as int),
                ),
                self.wf() ==> forall|j: int| 0 <= j < out@.len() ==> (#[trigger] out@[j]).wf(),
            decreases self.cache_paths.len() - i,
        {
            proof {
                assert(self.cache_paths@.take(i + 1).drop_last() =~= self.cache_paths@.take(
                    i as int,
                ));
                assert(exists@.take(i + 1).drop_last() =~= exists@.take(i as int));
                assert(views_of(self.cache_paths@.take(i + 1)).drop_last() =~= views_of(
                    self.cache_paths@.take(i as int),
                ));
            }
            if exists[i] {
                let ghost old_views = views_of(out@);
                out.push(self.cache_paths[i].duplicate());
                proof {
                    assert(views_of(out@) =~= old_views.push(self.cache_paths@[i as int]@));
                    assert(views_of(self.cache_paths@.take(i + 1)).last() == self.cache_paths@[
                        i as int]@);
                }
            }
            i = i + 1;
        }
        proof {
            assert(self.cache_paths@.take(self.cache_paths.len() as int) =~= self.cache_paths@);
            assert(exists@.take(exists.len() as int) =~= exists@);
        }
        out
    }

    /// Detect the configuration file format from the file's extension.
    pub fn detect_config_format(path: &FsPath) -> (r: ConfigFormat)
        ensures
            r == format_spec(path@),
    {
        let ext = path.extension();
        match ext {
            Some(e) => {
                if str_eq(e.as_str(), "toml") {
                    ConfigFormat::Toml
                } else if str_eq(e.as_str(), "yaml") || str_eq(e.as_str(), "yml") {
                    ConfigFormat::Yaml
                } else if str_eq(e.as_str(), "json") {
                    ConfigFormat::Json
                } else {
                    ConfigFormat::Toml
                }
            },
            None => ConfigFormat::Toml,
        }
    }
}

/// The on-disk formats a configuration file may use.
#[derive(Debug, Clone, Copy, PartialEq, Eq, Structural)]
pub enum ConfigFormat {
    Toml,
    Yaml,
    Json,
}

/// The format that the file's extension calls for; TOML when in doubt.
pub open spec fn format_spec(p: PathView) -> ConfigFormat {
    if p.comps.len() == 0 {
        ConfigFormat::Toml
    } else {
        match extension_of(p.comps.last()) {
            Some(e) => if e == "toml"@ {
                ConfigFormat::Toml
            } else if e == "yaml"@ || e == "yml"@ {
                ConfigFormat::Yaml
            } else if e == "json"@ {
                ConfigFormat::Json
            } else {
                ConfigFormat::Toml
            },
            None => ConfigFormat::Toml,
        }
    }
}

/// Keep exactly the elements whose flag is set, preserving order.
pub open spec fn filter_flags<T>(v: Seq<T>, f: Seq<bool>) -> Seq<T>
    decreases v.len(),
{
    if v.len() == 0 {
        Seq::empty()
    } else {
        let pre = filter_flags(v.drop_last(), f.drop_last());
        if f.len() >= v.len() && f[v.len() - 1] {
            pre.push(v.last())
        } else {
            pre
        }
    }
}

} // verus!
