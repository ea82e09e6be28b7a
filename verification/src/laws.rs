//! What holds of every resolution: which search path, which pattern and
//! which candidate decides.

use crate::paths::{extension_of, file_name_of, joined, parent_of};
use crate::resolver::{
    first_file, is_relative, knows_extension, matched, probes, probes_over, resolution, substituted,
    targets, trials, Config, FileResolver,
};
use crate::search::SearchView;
use vstd::prelude::*;

verus! {

/// Where `files` holds none of the trials before index `at` and holds the
/// trial at `at`, that trial is the first file.
pub proof fn lemma_first_file_at(trials: Seq<Seq<char>>, files: Set<Seq<char>>, at: int)
    requires
        0 <= at < trials.len(),
        files.contains(trials[at]),
        forall|j: int| 0 <= j < at ==> !files.contains(#[trigger] trials[j]),
    ensures
        first_file(trials, files) == Some(trials[at]),
    decreases trials.len(),
{
    if at > 0 {
        let rest = trials.drop_first();
        assert forall|j: int| 0 <= j < at - 1 implies !files.contains(#[trigger] rest[j]) by {
            assert(rest[j] == trials[j + 1]);
        }
        lemma_first_file_at(rest, files, at - 1);
    }
}

/// Where `files` holds none of the trials, there is no first file.
pub proof fn lemma_first_file_none(trials: Seq<Seq<char>>, files: Set<Seq<char>>)
    requires
        forall|j: int| 0 <= j < trials.len() ==> !files.contains(#[trigger] trials[j]),
    ensures
        first_file(trials, files) is None,
    decreases trials.len(),
{
    if trials.len() > 0 {
        let rest = trials.drop_first();
        assert forall|j: int| 0 <= j < rest.len() implies !files.contains(#[trigger] rest[j]) by {
            assert(rest[j] == trials[j + 1]);
        }
        lemma_first_file_none(rest, files);
    }
}

/// The first file of two sequences in a row is the first file of the
/// front one, or of the back one where the front one has none.
pub proof fn lemma_first_file_concat(
    front: Seq<Seq<char>>,
    back: Seq<Seq<char>>,
    files: Set<Seq<char>>,
)
    ensures
        first_file(front + back, files) == match first_file(front, files) {
            Some(path) => Some(path),
            None => first_file(back, files),
        },
    decreases front.len(),
{
    if front.len() == 0 {
        assert(front + back =~= back);
    } else {
        assert((front + back)[0] == front[0]);
        assert((front + back).drop_first() =~= front.drop_first() + back);
        lemma_first_file_concat(front.drop_first(), back, files);
    }
}

/// The probes over some targets start with the trials of the first target
/// and go on with the probes over the others.
pub proof fn lemma_probes_front(patterns: Seq<Seq<char>>, targets: Seq<Seq<char>>)
    requires
        targets.len() > 0,
    ensures
        probes_over(patterns, targets) == trials(patterns, targets[0]) + probes_over(
            patterns,
            targets.drop_first(),
        ),
    decreases targets.len(),
{
    let tail = targets.drop_first();
    if targets.len() == 1 {
        assert(probes_over(patterns, targets.drop_last()) =~= Seq::<Seq<char>>::empty());
        assert(probes_over(patterns, tail) =~= Seq::<Seq<char>>::empty());
        assert(targets.last() == targets[0]);
        assert(probes_over(patterns, targets) =~= trials(patterns, targets[0]) + probes_over(
            patterns,
            tail,
        ));
    } else {
        lemma_probes_front(patterns, targets.drop_last());
        assert(tail.drop_last() =~= targets.drop_last().drop_first());
        assert(tail.last() == targets.last());
        assert(targets.drop_last()[0] == targets[0]);
        assert(probes_over(patterns, targets) =~= trials(patterns, targets[0]) + probes_over(
            patterns,
            tail,
        ));
    }
}

/// Among the targets of a request the first one with a match decides:
/// where target `at` has a match and no target before it has one, the
/// first file of all the probes is that match.
pub proof fn lemma_first_target_decides(
    patterns: Seq<Seq<char>>,
    files: Set<Seq<char>>,
    targets: Seq<Seq<char>>,
    at: int,
)
    requires
        0 <= at < targets.len(),
        matched(patterns, files, targets[at]) is Some,
        forall|j: int| 0 <= j < at ==> matched(patterns, files, #[trigger] targets[j]) is None,
    ensures
        first_file(probes_over(patterns, targets), files) == matched(patterns, files, targets[at]),
    decreases targets.len(),
{
    let tail = targets.drop_first();
    lemma_probes_front(patterns, targets);
    lemma_first_file_concat(trials(patterns, targets[0]), probes_over(patterns, tail), files);
    if at > 0 {
        assert(matched(patterns, files, targets[0]) is None);
        assert forall|j: int| 0 <= j < at - 1 implies matched(
            patterns,
            files,
            #[trigger] tail[j],
        ) is None by {
            assert(tail[j] == targets[j + 1]);
        }
        assert(tail[at - 1] == targets[at]);
        lemma_first_target_decides(patterns, files, tail, at - 1);
    }
}

/// Where no target has a match, the probes hold no file.
pub proof fn lemma_no_target_matches(
    patterns: Seq<Seq<char>>,
    files: Set<Seq<char>>,
    targets: Seq<Seq<char>>,
)
    requires
        forall|j: int|
            0 <= j < targets.len() ==> matched(patterns, files, #[trigger] targets[j]) is None,
    ensures
        first_file(probes_over(patterns, targets), files) is None,
    decreases targets.len(),
{
    if targets.len() > 0 {
        let tail = targets.drop_first();
        lemma_probes_front(patterns, targets);
        lemma_first_file_concat(trials(patterns, targets[0]), probes_over(patterns, tail), files);
        assert(matched(patterns, files, targets[0]) is None);
        assert forall|j: int| 0 <= j < tail.len() implies matched(
            patterns,
            files,
            #[trigger] tail[j],
        ) is None by {
            assert(tail[j] == targets[j + 1]);
        }
        lemma_no_target_matches(patterns, files, tail);
    }
}

/// The first search path wins. A name that is not relative resolves to the
/// match below search path `at` where there is one and no search path
/// before it has a match, whatever the search paths behind it hold.
pub proof fn law_first_search_path_wins(
    config: Config,
    files: Set<Seq<char>>,
    base: Seq<char>,
    name: Seq<char>,
    at: int,
)
    requires
        !is_relative(name),
        0 <= at < config.paths.len(),
        matched(config.patterns, files, joined(config.paths[at], name)) is Some,
        forall|j: int|
            0 <= j < at ==> matched(config.patterns, files, joined(#[trigger] config.paths[j], name))
                is None,
    ensures
        resolution(config, files, base, name) == matched(
            config.patterns,
            files,
            joined(config.paths[at], name),
        ),
{
    let all = targets(config.paths, base, name);
    assert forall|j: int| 0 <= j < at implies matched(config.patterns, files, #[trigger] all[j])
        is None by {
        assert(all[j] == joined(config.paths[j], name));
    }
    lemma_first_target_decides(config.patterns, files, all, at);
}

/// A name that is not relative, whose joined path below the first search
/// path has a file name and no extension, resolves to the file of the
/// first pattern beside that path where that file exists, whatever exists
/// below the other search paths.
pub proof fn law_first_path_first_pattern(
    config: Config,
    files: Set<Seq<char>>,
    base: Seq<char>,
    name: Seq<char>,
    stem: Seq<char>,
)
    requires
        !is_relative(name),
        config.paths.len() > 0,
        config.patterns.len() > 0,
        extension_of(joined(config.paths[0], name)) is None,
        file_name_of(joined(config.paths[0], name)) == Some(stem),
        files.contains(substituted(joined(config.paths[0], name), config.patterns[0], stem)),
    ensures
        resolution(config, files, base, name) == Some(
            substituted(joined(config.paths[0], name), config.patterns[0], stem),
        ),
{
    law_first_pattern_wins(config.patterns, files, joined(config.paths[0], name), stem, 0);
    law_first_search_path_wins(config, files, base, name, 0);
}

/// A name that is not relative and has no match below any search path
/// does not resolve.
pub proof fn law_no_search_path_matches(
    config: Config,
    files: Set<Seq<char>>,
    base: Seq<char>,
    name: Seq<char>,
)
    requires
        !is_relative(name),
        forall|j: int|
            0 <= j < config.paths.len() ==> matched(
                config.patterns,
                files,
                joined(#[trigger] config.paths[j], name),
            ) is None,
    ensures
        resolution(config, files, base, name) is None,
{
    let all = targets(config.paths, base, name);
    assert forall|j: int| 0 <= j < all.len() implies matched(
        config.patterns,
        files,
        #[trigger] all[j],
    ) is None by {
        assert(all[j] == joined(config.paths[j], name));
    }
    lemma_no_target_matches(config.patterns, files, all);
}

/// The first pattern wins. For a joined path without an extension, whose
/// file name is `stem`, the match is the file of pattern `at` where that
/// file exists and the file of no pattern before it does, whatever the
/// patterns behind it name.
pub proof fn law_first_pattern_wins(
    patterns: Seq<Seq<char>>,
    files: Set<Seq<char>>,
    path: Seq<char>,
    stem: Seq<char>,
    at: int,
)
    requires
        extension_of(path) is None,
        file_name_of(path) == Some(stem),
        0 <= at < patterns.len(),
        files.contains(substituted(path, patterns[at], stem)),
        forall|j: int|
            0 <= j < at ==> !files.contains(substituted(path, #[trigger] patterns[j], stem)),
    ensures
        matched(patterns, files, path) == Some(substituted(path, patterns[at], stem)),
{
    let all = trials(patterns, path);
    assert forall|j: int| 0 <= j < at implies !files.contains(#[trigger] all[j]) by {
        assert(all[j] == substituted(path, patterns[j], stem));
    }
    lemma_first_file_at(all, files, at);
}

/// A joined path with an extension matches itself, and only where the
/// file exists and some pattern has that extension. No pattern is
/// substituted for it.
pub proof fn law_extension_matches_exactly(
    patterns: Seq<Seq<char>>,
    files: Set<Seq<char>>,
    path: Seq<char>,
    ext: Seq<char>,
)
    requires
        extension_of(path) == Some(ext),
    ensures
        matched(patterns, files, path) == if files.contains(path) && knows_extension(patterns, ext) {
            Some(path)
        } else {
            None
        },
{
    let all = trials(patterns, path);
    if knows_extension(patterns, ext) {
        assert(all.len() == 1 && all[0] == path);
        if files.contains(path) {
            lemma_first_file_at(all, files, 0);
        } else {
            lemma_first_file_none(all, files);
        }
    } else {
        lemma_first_file_none(all, files);
    }
}

/// A relative name resolves to the match of one joined path: the name
/// below the parent of `base`, or the name itself where `base` has no
/// parent. The search paths play no part.
pub proof fn law_relative_resolution(
    config: Config,
    files: Set<Seq<char>>,
    base: Seq<char>,
    name: Seq<char>,
)
    requires
        is_relative(name),
    ensures
        resolution(config, files, base, name) == matched(
            config.patterns,
            files,
            match parent_of(base) {
                Some(dir) => joined(dir, name),
                None => name,
            },
        ),
{
    let all = targets(config.paths, base, name);
    assert(all.len() == 1);
    if matched(config.patterns, files, all[0]) is Some {
        lemma_first_target_decides(config.patterns, files, all, 0);
    } else {
        lemma_no_target_matches(config.patterns, files, all);
    }
}

/// A relative name requested from a base without a parent stands for the
/// name itself, joined with nothing.
pub proof fn law_relative_without_parent(
    config: Config,
    files: Set<Seq<char>>,
    base: Seq<char>,
    name: Seq<char>,
)
    requires
        is_relative(name),
        parent_of(base) is None,
    ensures
        targets(config.paths, base, name) == seq![name],
        resolution(config, files, base, name) == matched(config.patterns, files, name),
{
    law_relative_resolution(config, files, base, name);
}

/// A relative name with an extension that no pattern has does not
/// resolve, whether or not the file exists.
pub proof fn law_unknown_extension_fails(
    config: Config,
    files: Set<Seq<char>>,
    base: Seq<char>,
    name: Seq<char>,
    ext: Seq<char>,
)
    requires
        is_relative(name),
        extension_of(targets(config.paths, base, name)[0]) == Some(ext),
        !knows_extension(config.patterns, ext),
    ensures
        resolution(config, files, base, name) is None,
{
    law_relative_resolution(config, files, base, name);
    law_extension_matches_exactly(
        config.patterns,
        files,
        targets(config.paths, base, name)[0],
        ext,
    );
}

/// A search that was answered truthfully so far and whose pending probe
/// is a regular file has found the request's resolution.
pub proof fn law_search_resolves(
    state: SearchView,
    config: Config,
    files: Set<Seq<char>>,
)
    requires
        state.probes == probes(config, state.base, state.name),
        state.agrees_with(files),
        !state.exhausted(),
        files.contains(state.pending()),
    ensures
        resolution(config, files, state.base, state.name) == Some(state.pending()),
{
    lemma_first_file_at(state.probes, files, state.next as int);
}

/// A search that was answered truthfully and is exhausted belongs to a
/// request that does not resolve.
pub proof fn law_search_fails(state: SearchView, config: Config, files: Set<Seq<char>>)
    requires
        state.probes == probes(config, state.base, state.name),
        state.agrees_with(files),
        state.exhausted(),
    ensures
        resolution(config, files, state.base, state.name) is None,
{
    lemma_first_file_none(state.probes, files);
}

/// A resolution depends on the resolver's own search paths and patterns
/// alone. A copy holds its own lists, equal to those of the resolver it
/// was built from at that moment, so it resolves as that resolver did
/// then, whatever the resolver is given afterwards.
pub proof fn law_copy_resolves_alike(
    source: FileResolver,
    copy: FileResolver,
    files: Set<Seq<char>>,
    base: Seq<char>,
    name: Seq<char>,
)
    requires
        copy@ == source@,
    ensures
        probes(copy@, base, name) == probes(
            source@,
            base,
            name,
        ),
        resolution(copy@, files, base, name) == resolution(source@, files, base, name),
{
}

} // verus!
