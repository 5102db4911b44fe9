//! The file store's configuration: where the store lives and which context
//! is active, from the config file over the defaults.
use vstd::prelude::*;

verus! {

/// The context a fresh configuration starts in.
pub open spec fn default_context() -> Seq<char> {
    "inbox"@
}

/// The store's settings. Paths are held as text.
pub struct Config {
    /// Root directory containing `<context>/todos/` and `<context>/notes/`.
    pub root_dir: String,
    /// Active context slug.
    pub context_slug: String,
    /// Path this config was loaded from (empty when it was not); where
    /// `save` writes.
    pub loaded_from: String,
}

impl Config {
    pub open spec fn loaded_from_spec(&self) -> Seq<char> {
        self.loaded_from@
    }

    /// The defaults: the given root directory and the `inbox` context.
    pub fn defaults(root_dir: String) -> (c: Config)
        ensures
            c.root_dir@ == root_dir@,
            c.context_slug@ == default_context(),
            c.loaded_from_spec().len() == 0,
    {
        Config { root_dir, context_slug: String::from_str("inbox"), loaded_from: String::new() }
    }

    /// The configuration read from the file at `path`: each setting the
    /// file has, else the default's.
    pub fn load(file_root_dir: Option<String>, file_context_slug: Option<String>, defaults: Config, path: String) -> (c: Config)
        ensures
            c.root_dir@ == match file_root_dir {
                Some(r) => r@,
                None => defaults.root_dir@,
            },
            c.context_slug@ == match file_context_slug {
                Some(s) => s@,
                None => defaults.context_slug@,
            },
            c.loaded_from_spec() == path@,
    {
        Config {
            root_dir: match file_root_dir {
                Some(r) => r,
                None => defaults.root_dir,
            },
            context_slug: match file_context_slug {
                Some(s) => s,
                None => defaults.context_slug,
            },
            loaded_from: path,
        }
    }

    /// The configuration when no file exists at `path`: the defaults,
    /// remembered as loaded from `path`.
    pub fn missing_file(defaults: Config, path: String) -> (c: Config)
        ensures
            c.root_dir@ == defaults.root_dir@,
            c.context_slug@ == defaults.context_slug@,
            c.loaded_from_spec() == path@,
    {
        Config { root_dir: defaults.root_dir, context_slug: defaults.context_slug, loaded_from: path }
    }

    /// Where `save` writes: the path loaded from, else `default_path`.
    pub fn save_path(&self, default_path: &str) -> (p: String)
        ensures
            p@ == if self.loaded_from_spec().len() == 0 {
                default_path@
            } else {
                self.loaded_from_spec()
            },
    {
        if self.loaded_from.as_str().unicode_len() == 0 {
            String::from_str(default_path)
        } else {
            self.loaded_from.clone()
        }
    }
}

} // verus!
