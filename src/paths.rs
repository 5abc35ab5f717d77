//! Where source files are read from and generated files are written to.
use vstd::prelude::*;

verus! {

/// The command-line settings of a run.
#[derive(Clone, Debug, Default)]
pub struct ProgramArgs {
    pub source_dir: String,
    pub generation_dir: String,
    pub max_log_level: String,
    pub watch: bool,
}

/// The settings of a run, with the path lookups of the generator.
#[derive(Clone, Debug, Default)]
pub struct RunArgs {
    pub source_dir: String,
    pub generation_dir: String,
    pub max_log_level: String,
    pub watch: bool,
}

/// The source and output directories of a generation run.
#[derive(Clone, Debug, Default)]
pub struct StandardGenerationDirs {
    pub source_dir: String,
    pub generation_dir: String,
}

/// `path` appended to `base` as `PathBuf::push` does on Unix: an absolute
/// `path` replaces `base`; otherwise a `/` separates the two unless `base`
/// is empty or already ends in one.
pub open spec fn join_path(base: Seq<char>, path: Seq<char>) -> Seq<char> {
    if path.len() > 0 && path[0] == '/' {
        path
    } else if base.len() == 0 || base.last() == '/' {
        base + path
    } else {
        base + "/"@ + path
    }
}

/// Appends `path` to the directory `base`.
pub fn join(base: &str, path: &str) -> (r: String)
    ensures
        r@ == join_path(base@, path@),
{
    let starts_with_root = path.unicode_len() > 0 && path.get_char(0) == '/';
    if starts_with_root {
        return path.to_owned();
    }
    let n = base.unicode_len();
    if n == 0 || base.get_char(n - 1) == '/' {
        base.to_owned().concat(path)
    } else {
        base.to_owned().concat("/").concat(path)
    }
}

impl RunArgs {
    /// `path` inside the source directory.
    pub fn in_source(&self, path: &str) -> (r: String)
        ensures
            r@ == join_path(self.source_dir@, path@),
    {
        join(self.source_dir.as_str(), path)
    }

    /// `path` inside the output directory.
    pub fn in_gen(&self, path: &str) -> (r: String)
        ensures
            r@ == join_path(self.generation_dir@, path@),
    {
        join(self.generation_dir.as_str(), path)
    }
}

impl StandardGenerationDirs {
    /// `path` inside the source directory.
    pub fn in_source(&self, path: &str) -> (r: String)
        ensures
            r@ == join_path(self.source_dir@, path@),
    {
        join(self.source_dir.as_str(), path)
    }

    /// `path` inside the output directory.
    pub fn in_gen(&self, path: &str) -> (r: String)
        ensures
            r@ == join_path(self.generation_dir@, path@),
    {
        join(self.generation_dir.as_str(), path)
    }
}

impl From<ProgramArgs> for StandardGenerationDirs {
    fn from(value: ProgramArgs) -> (r: StandardGenerationDirs) {
        StandardGenerationDirs { source_dir: value.source_dir, generation_dir: value.generation_dir }
    }
}

impl vstd::std_specs::convert::FromSpecImpl<ProgramArgs> for StandardGenerationDirs {
    open spec fn obeys_from_spec() -> bool {
        true
    }

    open spec fn from_spec(value: ProgramArgs) -> StandardGenerationDirs {
        StandardGenerationDirs { source_dir: value.source_dir, generation_dir: value.generation_dir }
    }
}

} // verus!
