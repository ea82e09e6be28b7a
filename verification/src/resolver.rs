//! The resolver's configuration and the files it would try for a request.

use crate::paths::{
    extension, extension_of, file_name, file_name_of, join_normalized, joined, parent, parent_of,
    replace_all, replaced, texts, with_file_name, with_name,
};
use vstd::prelude::*;
use vstd::string::StrSliceExecFns;

verus! {

/// What a resolver is configured with: search paths and file name
/// patterns, both in the order in which they were added.
pub struct Config {
    pub paths: Seq<Seq<char>>,
    pub patterns: Seq<Seq<char>>,
}

/// The platform families whose native libraries have a naming convention
/// of their own.
#[derive(Clone, Copy, Debug, PartialEq, Eq)]
pub enum Platform {
    Windows,
    Apple,
    Unix,
}

/// A request that no existing file satisfies, with the base location and
/// the name that were asked for.
#[derive(Debug)]
pub struct ResolveError {
    pub base: String,
    pub name: String,
}

/// Resolves module names to files below a list of search paths.
#[derive(Debug)]
pub struct FileResolver {
    paths: Vec<String>,
    patterns: Vec<String>,
}

/// The token of a pattern that stands for the module's name.
pub open spec fn placeholder() -> Seq<char> {
    seq!['{', '}']
}

/// The pattern every new resolver starts with: the name followed by `.js`.
pub open spec fn script_pattern() -> Seq<char> {
    seq!['{', '}', '.', 'j', 's']
}

/// The native library patterns of a platform, in the order in which they
/// are added.
pub open spec fn native_patterns(platform: Platform) -> Seq<Seq<char>> {
    match platform {
        Platform::Windows => seq![seq!['{', '}', '.', 'd', 'l', 'l']],
        Platform::Apple => seq![
            seq!['{', '}', '.', 'd', 'y', 'l', 'i', 'b'],
            seq!['l', 'i', 'b', '{', '}', '.', 'd', 'y', 'l', 'i', 'b'],
        ],
        Platform::Unix => seq![
            seq!['{', '}', '.', 's', 'o'],
            seq!['l', 'i', 'b', '{', '}', '.', 's', 'o'],
        ],
    }
}

/// A name is relative when it starts with a dot.
pub open spec fn is_relative(name: Seq<char>) -> bool {
    name.len() > 0 && name[0] == '.'
}

/// The joined paths a request stands for, in the order in which they are
/// tried. A relative name stands for one path, below the parent of `base`
/// or, where `base` has no parent, the name itself. Any other name stands
/// for one path below each search path.
pub open spec fn targets(paths: Seq<Seq<char>>, base: Seq<char>, name: Seq<char>) -> Seq<Seq<char>> {
    if is_relative(name) {
        seq![
            match parent_of(base) {
                Some(dir) => joined(dir, name),
                None => name,
            },
        ]
    } else {
        Seq::new(paths.len(), |i: int| joined(paths[i], name))
    }
}

/// Some pattern has the extension `ext`.
pub open spec fn knows_extension(patterns: Seq<Seq<char>>, ext: Seq<char>) -> bool {
    exists|i: int| 0 <= i < patterns.len() && #[trigger] extension_of(patterns[i]) == Some(ext)
}

/// The file that pattern `pattern` names beside `path`, for a module whose
/// name is `stem`.
pub open spec fn substituted(path: Seq<char>, pattern: Seq<char>, stem: Seq<char>) -> Seq<char> {
    with_name(path, replaced(pattern, placeholder(), stem))
}

/// The files that may satisfy a request for the joined path `path`, in the
/// order in which they are tried.
///
/// A path with an extension stands for itself, and only where some pattern
/// has the same extension. A path without one stands for one file per
/// pattern: the pattern with the path's file name in the placeholder's
/// place, beside the path.
pub open spec fn trials(patterns: Seq<Seq<char>>, path: Seq<char>) -> Seq<Seq<char>> {
    match extension_of(path) {
        Some(ext) => if knows_extension(patterns, ext) {
            seq![path]
        } else {
            Seq::empty()
        },
        None => match file_name_of(path) {
            Some(stem) => Seq::new(patterns.len(), |i: int| substituted(path, patterns[i], stem)),
            None => Seq::empty(),
        },
    }
}

/// The trials of each target in turn, as one sequence.
pub open spec fn probes_over(patterns: Seq<Seq<char>>, targets: Seq<Seq<char>>) -> Seq<Seq<char>>
    decreases targets.len(),
{
    if targets.len() == 0 {
        Seq::empty()
    } else {
        probes_over(patterns, targets.drop_last()) + trials(patterns, targets.last())
    }
}

/// Every file a request may resolve to, in the order of preference.
pub open spec fn probes(config: Config, base: Seq<char>, name: Seq<char>) -> Seq<Seq<char>> {
    probes_over(config.patterns, targets(config.paths, base, name))
}

/// The first of `trials` that is among `files`.
pub open spec fn first_file(trials: Seq<Seq<char>>, files: Set<Seq<char>>) -> Option<Seq<char>>
    decreases trials.len(),
{
    if trials.len() == 0 {
        None
    } else if files.contains(trials[0]) {
        Some(trials[0])
    } else {
        first_file(trials.drop_first(), files)
    }
}

/// The match of one joined path: the first of its trials that is among
/// `files`.
pub open spec fn matched(patterns: Seq<Seq<char>>, files: Set<Seq<char>>, path: Seq<char>) -> Option<Seq<char>> {
    first_file(trials(patterns, path), files)
}

/// What a request resolves to where `files` are the regular files: the
/// first of its probes that is one of them.
pub open spec fn resolution(config: Config, files: Set<Seq<char>>, base: Seq<char>, name: Seq<char>) -> Option<Seq<char>> {
    first_file(probes(config, base, name), files)
}

impl View for FileResolver {
    type V = Config;

    closed spec fn view(&self) -> Config {
        Config { paths: texts(self.paths@), patterns: texts(self.patterns@) }
    }
}

impl Default for FileResolver {
    /// A resolver without search paths, with the script pattern alone.
    fn default() -> (r: Self)
        ensures
            r@.paths == Seq::<Seq<char>>::empty(),
            r@.patterns == seq![script_pattern()],
    {
        let mut patterns: Vec<String> = Vec::new();
        let pattern = "{}.js".to_owned();
        proof {
            reveal_strlit("{}.js");
            assert(pattern@ =~= script_pattern());
        }
        patterns.push(pattern);
        let r = FileResolver { paths: Vec::new(), patterns };
        proof {
            assert(r@.paths =~= Seq::<Seq<char>>::empty());
            assert(r@.patterns =~= seq![script_pattern()]);
        }
        r
    }
}

fn copy_all(source: &Vec<String>) -> (r: Vec<String>)
    ensures
        texts(r@) == texts(source@),
{
    let mut out: Vec<String> = Vec::new();
    let mut i: usize = 0;
    while i < source.len()
        invariant
            i <= source.len(),
            out.len() == i,
            forall|j: int| 0 <= j < i ==> out[j]@ == source[j]@,
        decreases source.len() - i,
    {
        out.push(source[i].clone());
        i += 1;
    }
    proof {
        assert(texts(out@) =~= texts(source@));
    }
    out
}

impl FileResolver {
    /// Adds a search path behind those already there, and hands the
    /// resolver back for the next addition.
    pub fn add_path(&mut self, path: &str) -> (r: &mut Self)
        ensures
            r@.paths == old(self)@.paths.push(path@),
            r@.patterns == old(self)@.patterns,
            *final(self) == *final(r),
    {
        self.paths.push(path.to_owned());
        proof {
            assert(texts(self.paths@) =~= texts(old(self).paths@).push(path@));
        }
        self
    }

    /// Adds a file name pattern behind those already there, and hands the
    /// resolver back for the next addition.
    pub fn add_pattern(&mut self, pattern: &str) -> (r: &mut Self)
        ensures
            r@.patterns == old(self)@.patterns.push(pattern@),
            r@.paths == old(self)@.paths,
            *final(self) == *final(r),
    {
        self.patterns.push(pattern.to_owned());
        proof {
            assert(texts(self.patterns@) =~= texts(old(self).patterns@).push(pattern@));
        }
        self
    }

    /// Adds the native library patterns of `platform` behind the patterns
    /// already there, and hands the resolver back for the next addition.
    /// Nothing is removed, and a second call adds the patterns again.
    pub fn add_native(&mut self, platform: Platform) -> (r: &mut Self)
        ensures
            r@.patterns == old(self)@.patterns + native_patterns(platform),
            r@.paths == old(self)@.paths,
            *final(self) == *final(r),
    {
        proof {
            reveal_strlit("{}.dll");
            reveal_strlit("{}.dylib");
            reveal_strlit("lib{}.dylib");
            reveal_strlit("{}.so");
            reveal_strlit("lib{}.so");
        }
        match platform {
            Platform::Windows => {
                self.add_pattern("{}.dll");
                proof {
                    assert("{}.dll"@ =~= native_patterns(platform)[0]);
                }
            },
            Platform::Apple => {
                self.add_pattern("{}.dylib").add_pattern("lib{}.dylib");
                proof {
                    assert("{}.dylib"@ =~= native_patterns(platform)[0]);
                    assert("lib{}.dylib"@ =~= native_patterns(platform)[1]);
                }
            },
            Platform::Unix => {
                self.add_pattern("{}.so").add_pattern("lib{}.so");
                proof {
                    assert("{}.so"@ =~= native_patterns(platform)[0]);
                    assert("lib{}.so"@ =~= native_patterns(platform)[1]);
                }
            },
        }
        proof {
            assert(self@.patterns =~= old(self)@.patterns + native_patterns(platform));
        }
        self
    }

    /// A resolver of its own with the same search paths and patterns.
    pub fn build(&self) -> (r: Self)
        ensures
            r@ == self@,
    {
        FileResolver { paths: copy_all(&self.paths), patterns: copy_all(&self.patterns) }
    }
}

impl FileResolver {
    /// The joined paths that a request stands for, in the order in which
    /// they are tried.
    pub fn candidates(&self, base: &str, name: &str) -> (r: Vec<String>)
        ensures
            texts(r@) == targets(self@.paths, base@, name@),
    {
        let mut out: Vec<String> = Vec::new();
        if !name.is_empty() && name.get_char(0) == '.' {
            let target = match parent(base) {
                Some(dir) => join_normalized(dir.as_str(), name),
                None => name.to_owned(),
            };
            out.push(target);
            proof {
                assert(texts(out@) =~= targets(self@.paths, base@, name@));
            }
        } else {
            let mut i: usize = 0;
            while i < self.paths.len()
                invariant
                    i <= self.paths.len(),
                    out.len() == i,
                    forall|j: int| 0 <= j < i ==> out[j]@ == joined(self.paths[j]@, name@),
                decreases self.paths.len() - i,
            {
                out.push(join_normalized(self.paths[i].as_str(), name));
                i += 1;
            }
            proof {
                assert(texts(out@) =~= targets(self@.paths, base@, name@));
            }
        }
        out
    }

    /// Whether some pattern has the extension `ext`.
    fn has_extension(&self, ext: &String) -> (r: bool)
        ensures
            r == knows_extension(self@.patterns, ext@),
    {
        let mut i: usize = 0;
        while i < self.patterns.len()
            invariant
                i <= self.patterns.len(),
                forall|j: int| 0 <= j < i ==> #[trigger] extension_of(self@.patterns[j]) != Some(ext@),
            decreases self.patterns.len() - i,
        {
            let known = extension(self.patterns[i].as_str());
            if let Some(known) = known {
                if known == *ext {
                    proof {
                        assert(extension_of(self@.patterns[i as int]) == Some(ext@));
                    }
                    return true;
                }
            }
            i += 1;
        }
        false
    }

    /// The files that may satisfy a request for the joined path `path`, in
    /// the order in which they are tried: the first of them that is a
    /// regular file is the match.
    pub fn try_patterns(&self, path: &str) -> (r: Vec<String>)
        ensures
            texts(r@) == trials(self@.patterns, path@),
    {
        let mut out: Vec<String> = Vec::new();
        match extension(path) {
            Some(ext) => {
                if self.has_extension(&ext) {
                    out.push(path.to_owned());
                }
            },
            None => {
                if let Some(stem) = file_name(path) {
                    proof {
                        reveal_strlit("{}");
                        assert("{}"@ =~= placeholder());
                    }
                    let mut i: usize = 0;
                    while i < self.patterns.len()
                        invariant
                            i <= self.patterns.len(),
                            out.len() == i,
                            "{}"@ == placeholder(),
                            forall|j: int|
                                0 <= j < i ==> out[j]@ == substituted(
                                    path@,
                                    self.patterns[j]@,
                                    stem@,
                                ),
                        decreases self.patterns.len() - i,
                    {
                        let file = replace_all(self.patterns[i].as_str(), "{}", stem.as_str());
                        out.push(with_file_name(path, file.as_str()));
                        i += 1;
                    }
                }
            },
        }
        proof {
            assert(texts(out@) =~= trials(self@.patterns, path@));
        }
        out
    }
}

} // verus!
