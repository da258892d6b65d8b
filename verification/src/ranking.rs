//! Ordering files by a quick importance score: entry points and manifests
//! first, then sources, with tests, docs and vendored code last.

use vstd::prelude::*;
use crate::text::{
    chars_of, contains, contains_str, copy_string, ends_with, ends_with_str, starts_with,
    starts_with_str, string_views,
};

verus! {

/// Paths ending like a program's entry point or a package's root module.
pub open spec fn is_entry_point(p: Seq<char>) -> bool {
    ends_with(p, "main.rs"@) || ends_with(p, "main.go"@) || ends_with(p, "main.py"@) || ends_with(
        p,
        "main.ts"@,
    ) || ends_with(p, "main.js"@) || ends_with(p, "main.c"@) || ends_with(p, "main.cpp"@) || ends_with(
        p,
        "index.ts"@,
    ) || ends_with(p, "index.js"@) || ends_with(p, "index.tsx"@) || ends_with(p, "index.jsx"@)
        || ends_with(p, "index.py"@) || ends_with(p, "app.py"@) || ends_with(p, "app.ts"@)
        || ends_with(p, "app.js"@) || ends_with(p, "app.tsx"@) || ends_with(p, "app.jsx"@)
        || ends_with(p, "app.go"@) || ends_with(p, "server.py"@) || ends_with(p, "server.ts"@)
        || ends_with(p, "server.js"@) || ends_with(p, "server.go"@) || ends_with(p, "mod.rs"@)
        || ends_with(p, "lib.rs"@) || ends_with(p, "lib.py"@) || ends_with(p, "__main__.py"@)
        || ends_with(p, "__init__.py"@)
}

/// Paths ending like a build or tool configuration file.
pub open spec fn is_config_file(p: Seq<char>) -> bool {
    ends_with(p, "Cargo.toml"@) || ends_with(p, "package.json"@) || ends_with(p, "pyproject.toml"@)
        || ends_with(p, "go.mod"@) || ends_with(p, "pom.xml"@) || ends_with(p, "build.gradle"@)
        || ends_with(p, "Gemfile"@) || ends_with(p, "requirements.txt"@) || ends_with(
        p,
        "setup.py"@,
    ) || ends_with(p, "setup.cfg"@) || ends_with(p, "tsconfig.json"@) || ends_with(
        p,
        "webpack.config.js"@,
    ) || ends_with(p, "vite.config.ts"@) || ends_with(p, ".eslintrc"@) || ends_with(p, "Makefile"@)
        || ends_with(p, "CMakeLists.txt"@) || ends_with(p, "docker-compose.yml"@) || ends_with(
        p,
        "Dockerfile"@,
    )
}

/// The rank of a path (lower comes first): 1000, less 5000 for an entry
/// point, 3000 for a configuration file, 1000 under `src/`, 800 under
/// `lib/` or `core/`, 600 under `api/`, `handlers/` or `routes/`; plus 2000
/// for tests, 1500 for examples and docs, 3000 for vendored code.
pub open spec fn rank_score(p: Seq<char>) -> int {
    1000 - (if is_entry_point(p) {
        5000int
    } else {
        0
    }) - (if is_config_file(p) {
        3000int
    } else {
        0
    }) - (if contains(p, "/src/"@) || starts_with(p, "src/"@) {
        1000int
    } else {
        0
    }) - (if contains(p, "/lib/"@) || contains(p, "/core/"@) {
        800int
    } else {
        0
    }) - (if contains(p, "/api/"@) || contains(p, "/handlers/"@) || contains(p, "/routes/"@) {
        600int
    } else {
        0
    }) + (if contains(p, "/test"@) || contains(p, "_test."@) || contains(p, ".test."@) {
        2000int
    } else {
        0
    }) + (if contains(p, "/examples/"@) || contains(p, "/docs/"@) || ends_with(p, ".md"@) {
        1500int
    } else {
        0
    }) + (if contains(p, "/vendor/"@) || contains(p, "/node_modules/"@) {
        3000int
    } else {
        0
    })
}

/// The rank of a path; see `rank_score`.
pub fn file_rank(path: &str) -> (r: i32)
    ensures
        r == rank_score(path@),
{
    let p = chars_of(path);
    let mut score: i32 = 1000;
    if ends_with_str(&p, "main.rs") || ends_with_str(&p, "main.go") || ends_with_str(&p, "main.py")
        || ends_with_str(&p, "main.ts") || ends_with_str(&p, "main.js") || ends_with_str(
        &p,
        "main.c",
    ) || ends_with_str(&p, "main.cpp") || ends_with_str(&p, "index.ts") || ends_with_str(
        &p,
        "index.js",
    ) || ends_with_str(&p, "index.tsx") || ends_with_str(&p, "index.jsx") || ends_with_str(
        &p,
        "index.py",
    ) || ends_with_str(&p, "app.py") || ends_with_str(&p, "app.ts") || ends_with_str(&p, "app.js")
        || ends_with_str(&p, "app.tsx") || ends_with_str(&p, "app.jsx") || ends_with_str(
        &p,
        "app.go",
    ) || ends_with_str(&p, "server.py") || ends_with_str(&p, "server.ts") || ends_with_str(
        &p,
        "server.js",
    ) || ends_with_str(&p, "server.go") || ends_with_str(&p, "mod.rs") || ends_with_str(
        &p,
        "lib.rs",
    ) || ends_with_str(&p, "lib.py") || ends_with_str(&p, "__main__.py") || ends_with_str(
        &p,
        "__init__.py",
    ) {
        score = score - 5000;
    }
    if ends_with_str(&p, "Cargo.toml") || ends_with_str(&p, "package.json") || ends_with_str(
        &p,
        "pyproject.toml",
    ) || ends_with_str(&p, "go.mod") || ends_with_str(&p, "pom.xml") || ends_with_str(
        &p,
        "build.gradle",
    ) || ends_with_str(&p, "Gemfile") || ends_with_str(&p, "requirements.txt") || ends_with_str(
        &p,
        "setup.py",
    ) || ends_with_str(&p, "setup.cfg") || ends_with_str(&p, "tsconfig.json") || ends_with_str(
        &p,
        "webpack.config.js",
    ) || ends_with_str(&p, "vite.config.ts") || ends_with_str(&p, ".eslintrc") || ends_with_str(
        &p,
        "Makefile",
    ) || ends_with_str(&p, "CMakeLists.txt") || ends_with_str(&p, "docker-compose.yml")
        || ends_with_str(&p, "Dockerfile") {
        score = score - 3000;
    }
    if contains_str(&p, "/src/") || starts_with_str(&p, "src/") {
        score = score - 1000;
    }
    if contains_str(&p, "/lib/") || contains_str(&p, "/core/") {
        score = score - 800;
    }
    if contains_str(&p, "/api/") || contains_str(&p, "/handlers/") || contains_str(&p, "/routes/") {
        score = score - 600;
    }
    if contains_str(&p, "/test") || contains_str(&p, "_test.") || contains_str(&p, ".test.") {
        score = score + 2000;
    }
    if contains_str(&p, "/examples/") || contains_str(&p, "/docs/") || ends_with_str(&p, ".md") {
        score = score + 1500;
    }
    if contains_str(&p, "/vendor/") || contains_str(&p, "/node_modules/") {
        score = score + 3000;
    }
    score
}

/// The rank a path gets from where it lies alone: 1000, less 1000 under
/// `src/`, 800 under `lib/` or `core/`, 600 under `api/`, `handlers/` or
/// `routes/`; plus 2000 for tests, 1500 for examples and docs, 3000 for
/// vendored code.
pub open spec fn directory_rank(p: Seq<char>) -> int {
    let in_src: int = if contains(p, "/src/"@) || starts_with(p, "src/"@) { 1000 } else { 0 };
    let lib: int = if contains(p, "/lib/"@) || contains(p, "/core/"@) { 800 } else { 0 };
    let api: int = if contains(p, "/api/"@) || contains(p, "/handlers/"@) || contains(p, "/routes/"@) {
        600
    } else {
        0
    };
    let test: int = if contains(p, "/test"@) || contains(p, "_test."@) || contains(p, ".test."@) {
        2000
    } else {
        0
    };
    let docs: int = if contains(p, "/examples/"@) || contains(p, "/docs/"@) || ends_with(p, ".md"@) {
        1500
    } else {
        0
    };
    let vendor: int = if contains(p, "/vendor/"@) || contains(p, "/node_modules/"@) {
        3000
    } else {
        0
    };
    1000 - in_src - lib - api + test + docs + vendor
}

/// Entry points and manifests come first: a path ending in one of the
/// entry-point names ranks 5000 below where its directories alone put it,
/// one ending in a build or tool configuration name 3000 below (both apply
/// when both match), and any other path exactly where its directories put it.
pub proof fn law_entry_points_and_manifests_first(p: Seq<char>)
    ensures
        rank_score(p) == directory_rank(p) - (if ends_with(p, "main.rs"@)
            || ends_with(p, "main.go"@)
            || ends_with(p, "main.py"@)
            || ends_with(p, "main.ts"@)
            || ends_with(p, "main.js"@)
            || ends_with(p, "main.c"@)
            || ends_with(p, "main.cpp"@)
            || ends_with(p, "index.ts"@)
            || ends_with(p, "index.js"@)
            || ends_with(p, "index.tsx"@)
            || ends_with(p, "index.jsx"@)
            || ends_with(p, "index.py"@)
            || ends_with(p, "app.py"@)
            || ends_with(p, "app.ts"@)
            || ends_with(p, "app.js"@)
            || ends_with(p, "app.tsx"@)
            || ends_with(p, "app.jsx"@)
            || ends_with(p, "app.go"@)
            || ends_with(p, "server.py"@)
            || ends_with(p, "server.ts"@)
            || ends_with(p, "server.js"@)
            || ends_with(p, "server.go"@)
            || ends_with(p, "mod.rs"@)
            || ends_with(p, "lib.rs"@)
            || ends_with(p, "lib.py"@)
            || ends_with(p, "__main__.py"@)
            || ends_with(p, "__init__.py"@) {
            5000int
        } else {
            0
        }) - (if ends_with(p, "Cargo.toml"@)
            || ends_with(p, "package.json"@)
            || ends_with(p, "pyproject.toml"@)
            || ends_with(p, "go.mod"@)
            || ends_with(p, "pom.xml"@)
            || ends_with(p, "build.gradle"@)
            || ends_with(p, "Gemfile"@)
            || ends_with(p, "requirements.txt"@)
            || ends_with(p, "setup.py"@)
            || ends_with(p, "setup.cfg"@)
            || ends_with(p, "tsconfig.json"@)
            || ends_with(p, "webpack.config.js"@)
            || ends_with(p, "vite.config.ts"@)
            || ends_with(p, ".eslintrc"@)
            || ends_with(p, "Makefile"@)
            || ends_with(p, "CMakeLists.txt"@)
            || ends_with(p, "docker-compose.yml"@)
            || ends_with(p, "Dockerfile"@) {
            3000int
        } else {
            0
        }),
{
}

/// The number of leading paths of `s` whose rank is at most `key`.
pub open spec fn rank_insertion_point(s: Seq<Seq<char>>, key: int) -> int
    decreases s.len(),
{
    if s.len() == 0 {
        0
    } else if rank_score(s[0]) <= key {
        1 + rank_insertion_point(s.drop_first(), key)
    } else {
        0
    }
}

/// The paths stably sorted by rank: each path, in input order, goes after
/// every placed path whose rank is not greater.
pub open spec fn sorted_by_rank(s: Seq<Seq<char>>) -> Seq<Seq<char>>
    decreases s.len(),
{
    if s.len() == 0 {
        Seq::empty()
    } else {
        let sorted = sorted_by_rank(s.drop_last());
        sorted.insert(rank_insertion_point(sorted, rank_score(s.last())), s.last())
    }
}

proof fn lemma_rank_insertion_point(s: Seq<Seq<char>>, key: int)
    ensures
        0 <= rank_insertion_point(s, key) <= s.len(),
        forall|i: int| 0 <= i < rank_insertion_point(s, key) ==> rank_score(s[i]) <= key,
        rank_insertion_point(s, key) < s.len() ==> rank_score(s[rank_insertion_point(s, key)]) > key,
    decreases s.len(),
{
    if s.len() > 0 && rank_score(s[0]) <= key {
        lemma_rank_insertion_point(s.drop_first(), key);
        assert forall|i: int| 0 <= i < rank_insertion_point(s, key) implies rank_score(s[i]) <= key by {
            if i > 0 {
                assert(s[i] == s.drop_first()[i - 1]);
            }
        }
    }
}

/// Whether the paths are in non-decreasing rank order.
pub open spec fn rank_ordered(s: Seq<Seq<char>>) -> bool {
    forall|i: int, j: int| 0 <= i < j < s.len() ==> rank_score(s[i]) <= rank_score(s[j])
}

/// Ranking orders the paths by rank and keeps every path, as often as it
/// occurs.
pub proof fn law_ranking_sorts_and_keeps_files(s: Seq<Seq<char>>)
    ensures
        rank_ordered(sorted_by_rank(s)),
        sorted_by_rank(s).to_multiset() == s.to_multiset(),
    decreases s.len(),
{
    broadcast use vstd::seq_lib::to_multiset_insert, vstd::seq_lib::to_multiset_build;

    if s.len() == 0 {
        assert(sorted_by_rank(s) =~= s);
    } else {
        let prev = sorted_by_rank(s.drop_last());
        law_ranking_sorts_and_keeps_files(s.drop_last());
        let x = s.last();
        let p = rank_insertion_point(prev, rank_score(x));
        lemma_rank_insertion_point(prev, rank_score(x));
        let t = prev.insert(p, x);
        assert forall|i: int, j: int| 0 <= i < j < t.len() implies rank_score(t[i]) <= rank_score(
            t[j],
        ) by {
            if j < p {
                assert(t[i] == prev[i] && t[j] == prev[j]);
            } else if j == p {
                assert(t[i] == prev[i]);
            } else if i < p {
                assert(t[i] == prev[i] && t[j] == prev[j - 1]);
            } else if i == p {
                assert(t[j] == prev[j - 1]);
                assert(rank_score(prev[p]) > rank_score(x));
                if j - 1 > p {
                    assert(rank_score(prev[p]) <= rank_score(prev[j - 1]));
                }
            } else {
                assert(t[i] == prev[i - 1] && t[j] == prev[j - 1]);
            }
        }
        assert(s.drop_last().push(x) =~= s);
    }
}

/// Sorts relative paths by rank, keeping paths of equal rank in their
/// order; see `sorted_by_rank`.
pub fn rank_files_fast(files: &mut Vec<String>)
    ensures
        string_views(final(files)@) == sorted_by_rank(string_views(old(files)@)),
{
    let ghost orig = string_views(files@);
    let mut sorted: Vec<String> = Vec::new();
    let mut scores: Vec<i32> = Vec::new();
    let mut i: usize = 0;
    while i < files.len()
        invariant
            i <= files.len(),
            orig == string_views(files@),
            scores.len() == sorted.len(),
            forall|j: int| 0 <= j < scores.len() ==> scores@[j] == rank_score(#[trigger] sorted@[j]@),
            string_views(sorted@) == sorted_by_rank(orig.take(i as int)),
        decreases files.len() - i,
    {
        let ghost prefix = orig.take(i + 1);
        proof {
            assert(prefix.drop_last() =~= orig.take(i as int));
            assert(prefix.last() == files@[i as int]@);
        }
        let key = file_rank(files[i].as_str());
        let ghost sv = string_views(sorted@);
        proof {
            lemma_rank_insertion_point(sv, key as int);
        }
        let mut pos: usize = 0;
        while pos < sorted.len() && scores[pos] <= key
            invariant
                pos <= sorted.len(),
                scores.len() == sorted.len(),
                sv == string_views(sorted@),
                forall|j: int| 0 <= j < scores.len() ==> scores@[j] == rank_score(#[trigger] sorted@[j]@),
                forall|j: int| 0 <= j < pos ==> rank_score(sv[j]) <= key,
            decreases sorted.len() - pos,
        {
            assert(sv[pos as int] == sorted@[pos as int]@);
            pos = pos + 1;
        }
        proof {
            let ip = rank_insertion_point(sv, key as int);
            if ip < pos {
                assert(rank_score(sv[ip]) <= key);
            }
            if pos < ip {
                assert(sv[pos as int] == sorted@[pos as int]@);
                assert(rank_score(sv[pos as int]) <= key);
            }
        }
        let item = copy_string(&files[i]);
        let ghost old_sorted = sorted@;
        let ghost old_scores = scores@;
        sorted.insert(pos, item);
        scores.insert(pos, key);
        assert(string_views(sorted@) =~= sv.insert(pos as int, files@[i as int]@));
        assert forall|j: int| 0 <= j < scores.len() implies scores@[j] == rank_score(
            #[trigger] sorted@[j]@,
        ) by {
            if j < pos {
                assert(scores@[j] == old_scores[j] && sorted@[j] == old_sorted[j]);
            } else if j > pos {
                assert(scores@[j] == old_scores[j - 1] && sorted@[j] == old_sorted[j - 1]);
            }
        }
        i = i + 1;
    }
    assert(orig.take(files.len() as int) =~= orig);
    *files = sorted;
}


// ---------------------------------------------------------------------------
// Ordering by change frequency
// ---------------------------------------------------------------------------

/// Whether the file at position `a` comes before the one at `b` when files
/// are ordered by how often they changed: more changes first, and among equal
/// counts the one that came first.
pub open spec fn changed_before(freqs: Seq<u32>, a: int, b: int) -> bool {
    freqs[a] > freqs[b] || (freqs[a] == freqs[b] && a < b)
}

/// The positions of the files, ordered by their change counts `freqs`: most
/// changed first, files with equal counts kept in their order (a stable sort
/// by descending count). Every position appears once.
pub fn order_by_change_frequency(freqs: &Vec<u32>) -> (order: Vec<usize>)
    ensures
        order.len() == freqs.len(),
        forall|i: int| 0 <= i < order.len() ==> (#[trigger] order[i]) < freqs.len(),
        forall|m: usize| m < freqs.len() ==> #[trigger] order@.contains(m),
        forall|i: int, j: int|
            0 <= i < j < order.len() ==> changed_before(
                freqs@,
                #[trigger] order[i] as int,
                #[trigger] order[j] as int,
            ),
{
    let mut order: Vec<usize> = Vec::new();
    let mut k: usize = 0;
    while k < freqs.len()
        invariant
            k <= freqs.len(),
            order.len() == k,
            forall|i: int| 0 <= i < order.len() ==> (#[trigger] order[i]) < k,
            forall|m: usize| m < k ==> #[trigger] order@.contains(m),
            forall|i: int, j: int|
                0 <= i < j < order.len() ==> changed_before(
                    freqs@,
                    #[trigger] order[i] as int,
                    #[trigger] order[j] as int,
                ),
        decreases freqs.len() - k,
    {
        let f = freqs[k];
        let mut p: usize = 0;
        while p < order.len() && freqs[order[p]] >= f
            invariant
                p <= order.len(),
                order.len() == k,
                k < freqs.len(),
                f == freqs@[k as int],
                forall|i: int| 0 <= i < order.len() ==> (#[trigger] order[i]) < k,
                forall|q: int| 0 <= q < p ==> freqs@[order[q] as int] >= f,
            decreases order.len() - p,
        {
            p = p + 1;
        }
        let ghost old_order = order@;
        order.insert(p, k);
        proof {
            assert(order@ == old_order.insert(p as int, k));
            assert forall|i: int| 0 <= i < order.len() implies (#[trigger] order[i]) < k + 1 by {
                if i < p {
                    assert(order[i] == old_order[i]);
                } else if i > p {
                    assert(order[i] == old_order[i - 1]);
                }
            }
            assert forall|m: usize| m < k + 1 implies #[trigger] order@.contains(m) by {
                if m == k {
                    assert(order@[p as int] == k);
                } else {
                    assert(old_order.contains(m));
                    let i = choose|i: int| 0 <= i < old_order.len() && old_order[i] == m;
                    if i < p {
                        assert(order@[i] == m);
                    } else {
                        assert(order@[i + 1] == m);
                    }
                }
            }
            assert forall|i: int, j: int| 0 <= i < j < order.len() implies changed_before(
                freqs@,
                #[trigger] order[i] as int,
                #[trigger] order[j] as int,
            ) by {
                if j < p {
                    assert(order[i] == old_order[i] && order[j] == old_order[j]);
                } else if j == p {
                    assert(order[i] == old_order[i]);
                    assert(freqs@[old_order[i] as int] >= f);
                } else if i > p {
                    assert(order[i] == old_order[i - 1] && order[j] == old_order[j - 1]);
                } else if i == p {
                    assert(order[j] == old_order[j - 1]);
                    assert(p < old_order.len());
                    assert(freqs@[old_order[p as int] as int] < f);
                    if j - 1 > p {
                        assert(changed_before(freqs@, old_order[p as int] as int, old_order[j - 1] as int));
                    }
                } else {
                    assert(order[i] == old_order[i] && order[j] == old_order[j - 1]);
                }
            }
        }
        k = k + 1;
    }
    order
}

} // verus!
