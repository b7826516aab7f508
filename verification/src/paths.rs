//! Where the plugin remembers which devices it has published.

use crate::text::text_seen;
use vstd::prelude::*;

verus! {

broadcast use vstd::string::group_string_axioms;

/// Whether `c` is ordinary in a path: neither a slash, a backslash nor a colon,
/// the characters that can separate components or mark a drive.
pub open spec fn plain_char(c: char) -> bool {
    c != '/' && c != '\\' && c != ':'
}

/// Whether `name` is made of ordinary characters.
pub open spec fn plain_name(name: Seq<char>) -> bool {
    &&& name.len() > 0
    &&& forall|i: int| 0 <= i < name.len() ==> plain_char(#[trigger] name[i])
}

/// Whether `path` is made of ordinary characters and slashes.
pub open spec fn plain_path(path: Seq<char>) -> bool {
    forall|i: int| 0 <= i < path.len() ==> plain_char(#[trigger] path[i]) || path[i] == '/'
}

/// Whether `path` does not begin with two slashes or backslashes, which can be a
/// prefix.
pub open spec fn unprefixed(path: Seq<char>) -> bool {
    !(path.len() >= 2 && (path[0] == '/' || path[0] == '\\') && (path[1] == '/' || path[1]
        == '\\'))
}

/// Whether `dir` ends in a component on all platforms: in an ordinary character,
/// and in a dot only behind another one.
pub open spec fn ends_in_component(dir: Seq<char>) -> bool {
    &&& dir.len() > 0
    &&& plain_char(dir.last())
    &&& dir.last() == '.' && dir.len() >= 2 ==> plain_char(dir[dir.len() - 2])
}

/// Whether the character at `i` can end a part that holds no component: it is a
/// slash, or a dot right behind a slash.
pub open spec fn needless_at(path: Seq<char>, i: int) -> bool {
    path[i] == '/' || (path[i] == '.' && i > 0 && path[i - 1] == '/')
}

/// Whether `part` holds no component: nothing but slashes and lone dots behind
/// them.
pub open spec fn needless(part: Seq<char>) -> bool {
    forall|i: int| 0 <= i < part.len() ==> #[trigger] needless_at(part, i)
}

/// Whether `name` is the final component of `path`, `dir` is what comes before it,
/// up to the end of the component there, and `gap` and `tail` are what stands
/// between the two and at the end. A lone dot is a component only at the beginning.
/// Backslashes and colons may stand in `dir` alone, and not at its end.
pub open spec fn splits(
    path: Seq<char>,
    dir: Seq<char>,
    gap: Seq<char>,
    name: Seq<char>,
    tail: Seq<char>,
) -> bool {
    &&& path == dir + gap + name + tail
    &&& dir.len() > 0 ==> ends_in_component(dir) && gap.len() > 0
    &&& needless(gap)
    &&& gap.len() > 0 ==> gap.last() == '/' && name != seq!['.']
    &&& plain_name(name)
    &&& needless(tail)
}

/// The directory of a final component that `dir` and `gap` come before: the root
/// where there is a slash, but no component.
pub open spec fn directory(dir: Seq<char>, gap: Seq<char>) -> Seq<char> {
    if dir.len() == 0 && gap.len() > 0 {
        seq!['/']
    } else {
        dir
    }
}

/// Whether `path` is a component in the directory `parent`, which is empty where
/// it is the only component.
pub open spec fn lies_in(path: Seq<char>, parent: Seq<char>) -> bool {
    &&& unprefixed(path)
    &&& exists|dir: Seq<char>, gap: Seq<char>, name: Seq<char>, tail: Seq<char>| #[trigger]
        splits(path, dir, gap, name, tail) && parent == directory(dir, gap)
}

/// Whether `part` is a beginning of `path`, and not all of it.
pub open spec fn begins(path: Seq<char>, part: Seq<char>) -> bool {
    part.is_prefix_of(path) && part.len() < path.len()
}

/// Whether `parent` is what is left of `path` without its final component: a
/// beginning of the path, and the directory in which the path lies. A path without
/// components, such as the empty path and the root, has no parent.
pub open spec fn drops_final_component(path: Seq<char>, parent: Option<Seq<char>>) -> bool {
    &&& parent matches Some(dir) ==> begins(path, dir)
    &&& unprefixed(path) && needless(path) ==> parent is None
    &&& forall|dir: Seq<char>| #[trigger] lies_in(path, dir) ==> parent == Some(dir)
}

/// Whether `dir` begins with two backslashes, as a verbatim prefix does.
pub open spec fn may_be_verbatim(dir: Seq<char>) -> bool {
    dir.len() >= 2 && dir[0] == '\\' && dir[1] == '\\'
}

/// Whether `path` is `name` behind `dir`: the name alone if there is no directory,
/// and otherwise the name behind the directory, with a separator between them
/// unless the directory ends in one or is a drive. The separator is the
/// platform's, a slash or a backslash.
pub open spec fn lies_behind(dir: Seq<char>, name: Seq<char>, path: Seq<char>) -> bool {
    if dir.len() == 0 {
        path == name
    } else if dir.last() == '/' {
        path == dir + name
    } else {
        ||| path == dir.push('/') + name
        ||| path == dir.push('\\') + name
        ||| (dir.last() == '\\' || dir.last() == ':') && path == dir + name
    }
}

/// Whether `path` is the one component `name` adjoined to `dir`: it ends in the
/// name, and the name lies behind the directory.
pub open spec fn adjoins(dir: Seq<char>, name: Seq<char>, path: Seq<char>) -> bool {
    plain_name(name) && name != seq!['.'] && name != seq!['.', '.'] ==> {
        &&& name.is_suffix_of(path)
        &&& !may_be_verbatim(dir) ==> lies_behind(dir, name, path)
    }
}

/// Calls `std::path::Path::parent`, which gives the path without its final
/// component: `None` where there is none, and the empty path where it is the only
/// one.
///
/// A slash separates components on Unix and on Windows. Repeated slashes count
/// once, a slash at the end does not count, and neither does a lone dot, unless
/// the path begins with it. The parent is written as the path is, up to the end of
/// its own final component.
///
/// Nothing more is said than that the parent is a beginning of the path where a
/// backslash or a colon stands in the final component or at the end of the parent,
/// or where the path begins with two separators: it depends on the platform
/// whether these are separators or prefixes.
#[verifier::external_body]
fn parent_of(path: &str) -> (parent: Option<String>)
    ensures
        drops_final_component(path@, text_seen(parent)),
{
    std::path::Path::new(path).parent().map(|dir| dir.to_string_lossy().into_owned())
}

/// Calls `std::path::Path::join`, which adjoins a path to a directory. A name that
/// is neither `.` nor `..` ends the path that it is adjoined to.
///
/// Nothing more is said of a directory with two backslashes at its beginning. On
/// some platforms these can be a verbatim prefix, and the directory is then
/// normalized. Nothing is said of a name with a slash, a backslash or a colon,
/// which can replace the directory.
#[verifier::external_body]
fn join(dir: &str, name: &str) -> (path: String)
    ensures
        adjoins(dir@, name@, path@),
{
    std::path::Path::new(dir).join(name).to_string_lossy().into_owned()
}

/// The name of the file that remembers which devices were published.
pub open spec fn cache_file() -> Seq<char> {
    ".published-device-ids.json"@
}

/// The directory of the cache when the parent of the configuration is `parent`:
/// where it has none, the working directory.
pub open spec fn cache_dir(parent: Option<Seq<char>>) -> Seq<char> {
    match parent {
        Some(dir) => dir,
        None => "."@,
    }
}

/// Whether `cache` is the path of the cache beside the configuration `config`.
pub open spec fn beside(config: Seq<char>, cache: Seq<char>) -> bool {
    exists|parent: Option<Seq<char>>|
        {
            &&& #[trigger] drops_final_component(config, parent)
            &&& adjoins(cache_dir(parent), cache_file(), cache)
        }
}

/// The path of the cache when the parent of the configuration is `parent`.
pub fn cache_path_in(parent: Option<String>) -> (path: String)
    ensures
        adjoins(cache_dir(text_seen(parent)), cache_file(), path@),
{
    match parent {
        Some(dir) => join(dir.as_str(), ".published-device-ids.json"),
        None => join(".", ".published-device-ids.json"),
    }
}

/// The path of the cache of published device IDs: beside the configuration.
///
/// The separator before its name is the platform's. Where a backslash or a colon
/// stands behind the last slash of the configuration's path or right before it, or
/// where the path begins with two separators, it depends on the platform how much
/// of the path is its parent.
pub fn published_ids_cache_path(config_path: &str) -> (path: String)
    ensures
        beside(config_path@, path@),
{
    let parent = parent_of(config_path);
    assert(drops_final_component(config_path@, text_seen(parent)));
    cache_path_in(parent)
}

/// The cache of a configuration lies in the directory of the configuration,
/// whatever that is called.
pub proof fn law_the_cache_shares_the_directory(
    config: Seq<char>,
    dir: Seq<char>,
    cache: Seq<char>,
)
    requires
        lies_in(config, dir),
        beside(config, cache),
    ensures
        if dir.len() == 0 {
            cache == cache_file()
        } else if dir == seq!['/'] {
            cache == dir + cache_file()
        } else {
            cache == dir.push('/') + cache_file() || cache == dir.push('\\') + cache_file()
        },
{
    lemma_cache_file_is_plain();
    lemma_directories(config, dir);
}

/// Configurations in one directory have one cache, written alike but for the
/// separator before its name.
pub proof fn law_one_directory_has_one_cache(
    one: Seq<char>,
    other: Seq<char>,
    dir: Seq<char>,
    cache_of_one: Seq<char>,
    cache_of_other: Seq<char>,
)
    requires
        lies_in(one, dir),
        lies_in(other, dir),
        beside(one, cache_of_one),
        beside(other, cache_of_other),
    ensures
        cache_of_one.len() == cache_of_other.len(),
        forall|i: int|
            0 <= i < cache_of_one.len() && i != dir.len() ==> #[trigger] cache_of_one[i]
                == cache_of_other[i],
        dir.len() == 0 || dir == seq!['/'] ==> cache_of_one == cache_of_other,
{
    law_the_cache_shares_the_directory(one, dir, cache_of_one);
    law_the_cache_shares_the_directory(other, dir, cache_of_other);
}

/// Whatever the parent of two configurations is, they have one cache, written
/// alike but for whether a separator stands before its name, and which. It is
/// written alike altogether where the parent ends in a slash or is empty.
pub proof fn law_one_parent_has_one_cache(
    parent: Option<Seq<char>>,
    one: Seq<char>,
    other: Seq<char>,
)
    requires
        adjoins(cache_dir(parent), cache_file(), one),
        adjoins(cache_dir(parent), cache_file(), other),
        !may_be_verbatim(cache_dir(parent)),
    ensures
        ({
            let dir = cache_dir(parent);
            &&& dir.is_prefix_of(one) && dir.is_prefix_of(other)
            &&& cache_file().is_suffix_of(one) && cache_file().is_suffix_of(other)
            &&& dir.len() + cache_file().len() <= one.len() <= dir.len() + 1 + cache_file().len()
            &&& dir.len() == 0 || dir.last() == '/' ==> one == other
            &&& one.len() == other.len() ==> forall|i: int|
                0 <= i < one.len() && i != dir.len() ==> #[trigger] one[i] == other[i]
            &&& dir.len() > 0 && plain_char(dir.last()) ==> one.len() == other.len()
        }),
{
    lemma_cache_file_is_plain();
    lemma_behind(cache_dir(parent), cache_file(), one);
    lemma_behind(cache_dir(parent), cache_file(), other);
}

/// The cache is `.published-device-ids.json` in the parent of the configuration,
/// and in the working directory where there is no parent.
pub proof fn law_the_cache_lies_in_the_parent(parent: Option<Seq<char>>, cache: Seq<char>)
    requires
        adjoins(cache_dir(parent), cache_file(), cache),
    ensures
        ".published-device-ids.json"@.is_suffix_of(cache),
        parent matches Some(dir) ==> !may_be_verbatim(dir) ==> lies_behind(
            dir,
            ".published-device-ids.json"@,
            cache,
        ),
        parent is None ==> lies_behind("."@, ".published-device-ids.json"@, cache),
{
    lemma_cache_file_is_plain();
    reveal_strlit(".");
}

/// The cache of a configuration lies in what is left of the configuration's path
/// without its final component.
pub proof fn law_the_cache_follows_the_parent_of_the_configuration(
    config: Seq<char>,
    cache: Seq<char>,
)
    requires
        beside(config, cache),
    ensures
        exists|parent: Option<Seq<char>>|
            {
                &&& #[trigger] drops_final_component(config, parent)
                &&& parent matches Some(dir) ==> !may_be_verbatim(dir) ==> lies_behind(
                    dir,
                    ".published-device-ids.json"@,
                    cache,
                )
                &&& parent is None ==> lies_behind("."@, ".published-device-ids.json"@, cache)
            },
{
    let parent = choose|parent: Option<Seq<char>>|
        {
            &&& #[trigger] drops_final_component(config, parent)
            &&& adjoins(cache_dir(parent), cache_file(), cache)
        };
    law_the_cache_lies_in_the_parent(parent, cache);
}

/// The cache always has its own name, whatever the path of the configuration.
pub proof fn law_the_cache_has_its_name(config: Seq<char>, cache: Seq<char>)
    requires
        beside(config, cache),
    ensures
        cache_file().is_suffix_of(cache),
{
    lemma_cache_file_is_plain();
}

/// The cache lies in the working directory or in a directory that the path of the
/// configuration begins with, with at most a separator before its name.
pub proof fn law_the_cache_lies_on_the_way_to_the_configuration(
    config: Seq<char>,
    cache: Seq<char>,
)
    requires
        beside(config, cache),
        !may_be_verbatim(config),
    ensures
        exists|dir: Seq<char>|
            (dir == "."@ || begins(config, dir)) && #[trigger] lies_behind(dir, cache_file(), cache),
{
    lemma_cache_file_is_plain();
    reveal_strlit(".");
    let parent = choose|parent: Option<Seq<char>>|
        {
            &&& #[trigger] drops_final_component(config, parent)
            &&& adjoins(cache_dir(parent), cache_file(), cache)
        };
    let dir = cache_dir(parent);
    if parent is Some && may_be_verbatim(dir) {
        assert(dir[0] == config[0] && dir[1] == config[1]);
    }
    assert(lies_behind(dir, cache_file(), cache));
}

/// Where the path of the configuration has no component, the cache lies in the
/// working directory.
pub proof fn law_the_cache_without_a_parent(config: Seq<char>, cache: Seq<char>)
    requires
        unprefixed(config),
        needless(config),
        beside(config, cache),
    ensures
        cache == "."@.push('/') + cache_file() || cache == "."@.push('\\') + cache_file(),
{
    lemma_cache_file_is_plain();
    reveal_strlit(".");
}

/// A path lies in at most one directory, which it begins with, and in none if it
/// has no component.
pub proof fn law_a_path_lies_in_one_directory(path: Seq<char>, one: Seq<char>, other: Seq<char>)
    requires
        lies_in(path, one),
        lies_in(path, other),
    ensures
        one == other,
        begins(path, one),
        !needless(path),
{
    let (dir1, gap1, name1, tail1) = choose|
        dir: Seq<char>,
        gap: Seq<char>,
        name: Seq<char>,
        tail: Seq<char>,
    |
        #[trigger] splits(path, dir, gap, name, tail) && one == directory(dir, gap);
    let (dir2, gap2, name2, tail2) = choose|
        dir: Seq<char>,
        gap: Seq<char>,
        name: Seq<char>,
        tail: Seq<char>,
    |
        #[trigger] splits(path, dir, gap, name, tail) && other == directory(dir, gap);
    lemma_split_ends(path, dir1, gap1, name1, tail1, dir2, gap2, name2, tail2);
    lemma_split_ends(path, dir2, gap2, name2, tail2, dir1, gap1, name1, tail1);
    lemma_split_directories(path, dir1, gap1, name1, tail1, dir2, gap2, name2, tail2);
    lemma_split_directories(path, dir2, gap2, name2, tail2, dir1, gap1, name1, tail1);
    assert(dir1 =~= path.take(dir1.len() as int));
    assert(dir2 =~= path.take(dir2.len() as int));
    lemma_name_is_needed(path, dir1, gap1, name1, tail1);
    lemma_directories(path, one);
}

/// Every path of ordinary characters and slashes that has a component lies in a
/// directory.
pub proof fn law_every_path_with_a_component_lies_in_a_directory(path: Seq<char>)
    requires
        plain_path(path),
        unprefixed(path),
        !needless(path),
    ensures
        exists|dir: Seq<char>| #[trigger] lies_in(path, dir),
{
    let end = lemma_needed_end(path, path.len() as int);
    let start = lemma_name_start(path, end);
    let stop = lemma_needed_end(path, start);
    let dir = path.subrange(0, stop);
    let gap = path.subrange(stop, start);
    let name = path.subrange(start, end);
    let tail = path.subrange(end, path.len() as int);
    assert(!needless_at(path, end - 1));
    assert(path =~= dir + gap + name + tail);
    lemma_part_is_needless(path, end, path.len() as int);
    lemma_part_is_needless(path, stop, start);
    assert(plain_name(name));
    if stop > 0 {
        assert(!needless_at(path, stop - 1));
        assert(dir[stop - 1] == path[stop - 1]);
        if stop > 1 {
            assert(dir[stop - 2] == path[stop - 2]);
        }
    }
    if start > 0 {
        assert(needless_at(path, start - 1));
        assert(gap.last() == '/');
        if name == seq!['.'] {
            assert(name[0] == path[start]);
            assert(needless_at(path, end - 1));
        }
    }
    assert(splits(path, dir, gap, name, tail));
    assert(lies_in(path, directory(dir, gap)));
}

// ---------------------------------------------------------------------------
// Lemmas
// ---------------------------------------------------------------------------

proof fn lemma_cache_file_is_plain()
    ensures
        plain_name(cache_file()),
        cache_file().len() > 2,
{
    reveal_strlit(".published-device-ids.json");
}

proof fn lemma_behind(dir: Seq<char>, name: Seq<char>, path: Seq<char>)
    requires
        lies_behind(dir, name, path),
    ensures
        dir.is_prefix_of(path),
        name.is_suffix_of(path),
        dir.len() + name.len() <= path.len() <= dir.len() + 1 + name.len(),
{
    if dir.len() == 0 {
        assert(path.subrange(0, 0) =~= dir);
        assert(path =~= dir + name);
    }
    assert(path.subrange(0, dir.len() as int) =~= dir);
    assert(path.subrange(path.len() - name.len(), path.len() as int) =~= name);
}

proof fn lemma_directories(path: Seq<char>, parent: Seq<char>)
    requires
        lies_in(path, parent),
    ensures
        begins(path, parent),
        !may_be_verbatim(parent),
        parent.len() > 0 && parent != seq!['/'] ==> plain_char(parent.last()),
{
    let (dir, gap, name, tail) = choose|
        dir: Seq<char>,
        gap: Seq<char>,
        name: Seq<char>,
        tail: Seq<char>,
    |
        #[trigger] splits(path, dir, gap, name, tail) && parent == directory(dir, gap);
    if gap.len() > 0 {
        assert(needless_at(gap, 0));
        assert(gap[0] == path[dir.len() as int]);
    }
    assert(parent =~= path.subrange(0, parent.len() as int));
    if may_be_verbatim(parent) {
        assert(parent[0] == path[0] && parent[1] == path[1]);
    }
}

/// The final component of one split does not end before that of another.
proof fn lemma_split_ends(
    path: Seq<char>,
    dir1: Seq<char>,
    gap1: Seq<char>,
    name1: Seq<char>,
    tail1: Seq<char>,
    dir2: Seq<char>,
    gap2: Seq<char>,
    name2: Seq<char>,
    tail2: Seq<char>,
)
    requires
        splits(path, dir1, gap1, name1, tail1),
        splits(path, dir2, gap2, name2, tail2),
    ensures
        tail1.len() <= tail2.len(),
{
    if tail1.len() > tail2.len() {
        let end1 = path.len() - tail1.len();
        let last = path.len() - tail2.len() - 1;
        assert(path[last] == name2[name2.len() - 1]);
        assert(path[last] == tail1[last - end1]);
        assert(needless_at(tail1, last - end1));
        assert(path[last - 1] == tail1[last - end1 - 1]);
        if name2.len() > 1 {
            assert(path[last - 1] == name2[name2.len() - 2]);
        }
        assert(name2 =~= seq!['.']);
    }
}

/// The directory of one split is not shorter than that of another.
proof fn lemma_split_directories(
    path: Seq<char>,
    dir1: Seq<char>,
    gap1: Seq<char>,
    name1: Seq<char>,
    tail1: Seq<char>,
    dir2: Seq<char>,
    gap2: Seq<char>,
    name2: Seq<char>,
    tail2: Seq<char>,
)
    requires
        splits(path, dir1, gap1, name1, tail1),
        splits(path, dir2, gap2, name2, tail2),
        tail1.len() == tail2.len(),
    ensures
        name1.len() <= name2.len(),
        name1.len() == name2.len() ==> dir1.len() >= dir2.len(),
{
    let start1 = dir1.len() + gap1.len();
    let start2 = dir2.len() + gap2.len();
    assert(path.len() == start1 + name1.len() + tail1.len());
    assert(path.len() == start2 + name2.len() + tail2.len());
    if start1 < start2 {
        assert(path[start2 - 1] == gap2[gap2.len() - 1]);
        assert(path[start2 - 1] == name1[start2 - 1 - start1]);
    }
    if start1 == start2 && dir1.len() < dir2.len() {
        let last = dir2.len() - 1;
        assert(path[last] == dir2[last]);
        assert(path[last] == gap1[last - dir1.len()]);
        assert(needless_at(gap1, last - dir1.len()));
        if last > dir1.len() {
            assert(path[last - 1] == dir2[last - 1]);
            assert(path[last - 1] == gap1[last - dir1.len() - 1]);
        }
    }
}

proof fn lemma_name_is_needed(
    path: Seq<char>,
    dir: Seq<char>,
    gap: Seq<char>,
    name: Seq<char>,
    tail: Seq<char>,
)
    requires
        splits(path, dir, gap, name, tail),
    ensures
        !needless(path),
{
    let last = path.len() - tail.len() - 1;
    assert(path[last] == name[name.len() - 1]);
    if needless(path) {
        assert(needless_at(path, last));
        if name.len() > 1 {
            assert(path[last - 1] == name[name.len() - 2]);
        }
        assert(name =~= seq!['.']);
    }
}

/// Where the needed part of the first `n` characters ends.
proof fn lemma_needed_end(path: Seq<char>, n: int) -> (end: int)
    requires
        0 <= n <= path.len(),
    ensures
        0 <= end <= n,
        end > 0 ==> !needless_at(path, end - 1),
        forall|i: int| end <= i < n ==> #[trigger] needless_at(path, i),
    decreases n,
{
    if n > 0 && needless_at(path, n - 1) {
        lemma_needed_end(path, n - 1)
    } else {
        n
    }
}

/// Where the component that ends at `end` begins.
proof fn lemma_name_start(path: Seq<char>, end: int) -> (start: int)
    requires
        0 <= end <= path.len(),
    ensures
        0 <= start <= end,
        start > 0 ==> path[start - 1] == '/',
        forall|i: int| start <= i < end ==> #[trigger] path[i] != '/',
    decreases end,
{
    if end > 0 && path[end - 1] != '/' {
        lemma_name_start(path, end - 1)
    } else {
        end
    }
}

proof fn lemma_part_is_needless(path: Seq<char>, from: int, to: int)
    requires
        0 <= from <= to <= path.len(),
        from > 0 ==> !needless_at(path, from - 1),
        forall|i: int| from <= i < to ==> #[trigger] needless_at(path, i),
    ensures
        needless(path.subrange(from, to)),
{
    let part = path.subrange(from, to);
    assert forall|i: int| 0 <= i < part.len() implies #[trigger] needless_at(part, i) by {
        assert(needless_at(path, from + i));
    }
}

} // verus!
