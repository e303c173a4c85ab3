//! Source selection and result merging.
//!
//! Sources are selected based on the idea: a Rust idea searches crates.io, a
//! Python idea searches PyPI, and so on. GitHub and Hacker News are always
//! included. When no registry is suggested by the idea, the three largest
//! registries (npm, PyPI, crates.io) are used as a broad fallback.

use vstd::prelude::*;

pub mod hacker_news;

use crate::model::{Match, Source as S};
use crate::Error;
use crate::text::{
    all_lower_known, ascii_lowered, chars_of, is_ascii_alnum, is_ascii_alphanumeric, lowercase,
    matches_at, occurs_at, to_lowercase,
};

verus! {

/// `p` is at a word start in `s`: the start of `s`, or after a character
/// that is not an ASCII letter or digit.
pub open spec fn boundary_before(s: Seq<char>, p: int) -> bool {
    p == 0 || !is_ascii_alnum(s[p - 1])
}

/// `q` is at a word end in `s`: the end of `s`, or before a character that is
/// not an ASCII letter or digit.
pub open spec fn boundary_after(s: Seq<char>, q: int) -> bool {
    q >= s.len() || !is_ascii_alnum(s[q])
}

/// `term` occurs at `p` in `lower` as a whole word.
pub open spec fn word_at(lower: Seq<char>, term: Seq<char>, p: int) -> bool {
    occurs_at(lower, term, p) && boundary_before(lower, p) && boundary_after(lower, p + term.len())
}

/// `term` occurs somewhere in `lower` as a whole word.
pub open spec fn term_hit(lower: Seq<char>, term: Seq<char>) -> bool {
    exists|p: int| #[trigger] word_at(lower, term, p)
}

/// One of `terms` is hit in `lower`.
#[verifier::opaque]
pub open spec fn mentions_any(lower: Seq<char>, terms: Seq<Seq<char>>) -> bool {
    exists|k: int| 0 <= k < terms.len() && #[trigger] term_hit(lower, terms[k])
}

/// The character views of string slices.
pub open spec fn term_views(terms: Seq<&str>) -> Seq<Seq<char>> {
    terms.map_values(|t: &str| t@)
}

/// The idea, lowercased, mentions one of `terms` as a whole word.
pub open spec fn idea_mentions(idea: Seq<char>, terms: Seq<Seq<char>>) -> bool {
    mentions_any(lowercase(idea), terms)
}

/// Whether `term` occurs somewhere in the already-lowercased text `lower` as
/// a whole word.
pub fn has_word(lower: &[char], term: &[char]) -> (r: bool)
    ensures
        r == term_hit(lower@, term@),
{
    let mut p: usize = 0;
    loop
        invariant
            p <= lower.len(),
            forall|q: int| 0 <= q < p ==> !#[trigger] word_at(lower@, term@, q),
        decreases lower.len() - p,
    {
        if matches_at(lower, term, p) {
            let before = p == 0 || !is_ascii_alphanumeric(lower[p - 1]);
            let after_pos = p + term.len();
            let after = after_pos >= lower.len() || !is_ascii_alphanumeric(lower[after_pos]);
            if before && after {
                assert(word_at(lower@, term@, p as int));
                return true;
            }
        }
        if p == lower.len() {
            assert forall|q: int| !#[trigger] word_at(lower@, term@, q) by {
                if q > p {
                    assert(!occurs_at(lower@, term@, q));
                }
            }
            return false;
        }
        p += 1;
    }
}

/// Whether one of `terms` occurs in the already-lowercased text `lower` as a
/// whole word.
pub fn lower_mentions_any(lower: &[char], terms: &[&str]) -> (r: bool)
    ensures
        r == mentions_any(lower@, term_views(terms@)),
{
    reveal(mentions_any);
    let mut k: usize = 0;
    while k < terms.len()
        invariant
            k <= terms.len(),
            forall|j: int| 0 <= j < k ==> !#[trigger] term_hit(lower@, term_views(terms@)[j]),
        decreases terms.len() - k,
    {
        let t = chars_of(terms[k]);
        assert(t@ == term_views(terms@)[k as int]);
        if has_word(lower, t.as_slice()) {
            reveal(mentions_any);
            assert(0 <= k < term_views(terms@).len() && term_hit(
                lower@,
                term_views(terms@)[k as int],
            ));
            return true;
        }
        k += 1;
    }
    false
}

/// Whether the idea, lowercased, mentions one of `terms` as a whole word.
pub fn idea_contains(idea: &str, terms: &[&str]) -> (r: bool)
    ensures
        r == idea_mentions(idea@, term_views(terms@)),
{
    let lower = to_lowercase(idea);
    let chars = chars_of(lower.as_str());
    lower_mentions_any(chars.as_slice(), terms)
}

/// Terms that name the Rust ecosystem.
pub open spec fn rust_terms() -> Seq<Seq<char>> {
    seq!["rust"@, "crate"@, "cargo"@]
}

/// Terms that name the JavaScript ecosystem.
pub open spec fn node_terms() -> Seq<Seq<char>> {
    seq!["npm"@, "node"@, "javascript"@, "typescript"@, "deno"@, "bun"@]
}

/// Terms that name the Python ecosystem.
pub open spec fn python_terms() -> Seq<Seq<char>> {
    seq!["python"@, "pip"@, "django"@, "flask"@, "pytorch"@, "pandas"@]
}

/// Terms that name Go.
pub open spec fn go_terms() -> Seq<Seq<char>> {
    seq!["go"@, "golang"@, "goroutine"@]
}

/// Terms that name the JVM ecosystem.
pub open spec fn jvm_terms() -> Seq<Seq<char>> {
    seq!["java"@, "kotlin"@, "spring"@, "maven"@, "gradle"@, "scala"@]
}

/// Terms that name the Ruby ecosystem.
pub open spec fn ruby_terms() -> Seq<Seq<char>> {
    seq!["ruby"@, "rails"@, "sinatra"@, "gem"@]
}

/// Terms that name the .NET ecosystem.
pub open spec fn dotnet_terms() -> Seq<Seq<char>> {
    seq!["c#"@, ".net"@, "csharp"@, "dotnet"@, "nuget"@, "blazor"@, "unity"@]
}

/// Terms of machine learning and data work.
pub open spec fn ai_terms() -> Seq<Seq<char>> {
    seq![
        "ai"@,
        "llm"@,
        "machine learning"@,
        "deep learning"@,
        "neural"@,
        "model training"@,
        "inference"@,
        "embedding"@,
        "nlp"@,
        "computer vision"@,
        "data science"@,
        "data pipeline"@,
    ]
}

/// Terms of command-line tools.
pub open spec fn cli_terms() -> Seq<Seq<char>> {
    seq!["cli"@, "command line"@, "terminal tool"@, "shell"@]
}

/// Terms of front-end work.
pub open spec fn frontend_terms() -> Seq<Seq<char>> {
    seq![
        "frontend"@,
        "react"@,
        "vue"@,
        "angular"@,
        "svelte"@,
        "browser"@,
        "css"@,
        "ui component"@,
        "web component"@,
        "spa"@,
    ]
}

/// Terms of back-end work.
pub open spec fn backend_terms() -> Seq<Seq<char>> {
    seq!["api"@, "backend"@, "rest"@, "graphql"@, "microservice"@, "web server"@]
}

/// Terms of mobile development.
pub open spec fn mobile_terms() -> Seq<Seq<char>> {
    seq!["mobile"@, "ios"@, "android"@, "react native"@, "flutter"@, "swift"@, "swiftui"@]
}

/// Terms of games and graphics.
pub open spec fn game_terms() -> Seq<Seq<char>> {
    seq!["game"@, "graphics"@, "rendering"@, "opengl"@, "vulkan"@, "bevy"@, "godot"@]
}

/// Terms of embedded development.
pub open spec fn embedded_terms() -> Seq<Seq<char>> {
    seq!["embedded"@, "firmware"@, "microcontroller"@, "rtos"@]
}

/// Terms of containers and infrastructure.
pub open spec fn infra_terms() -> Seq<Seq<char>> {
    seq!["docker"@, "container"@, "kubernetes"@, "k8s"@, "helm"@, "deploy"@, "infrastructure"@]
}

/// Terms of editors and their extensions.
pub open spec fn editor_terms() -> Seq<Seq<char>> {
    seq!["vscode"@, "extension"@, "plugin"@, "ide"@, "editor"@]
}

/// The idea suggests the registry `s` (a language named, or a domain that
/// implies one). GitHub and Hacker News are never suggested: they are always
/// searched.
pub open spec fn suggests(idea: Seq<char>, s: S) -> bool {
    match s {
        S::CratesIo => idea_mentions(idea, rust_terms()) || idea_mentions(idea, cli_terms())
            || idea_mentions(idea, game_terms()) || idea_mentions(idea, embedded_terms()),
        S::Npm => idea_mentions(idea, node_terms()) || idea_mentions(idea, ai_terms())
            || idea_mentions(idea, frontend_terms()) || idea_mentions(idea, backend_terms())
            || idea_mentions(idea, mobile_terms()) || idea_mentions(idea, editor_terms()),
        S::PyPI => idea_mentions(idea, python_terms()) || idea_mentions(idea, ai_terms())
            || idea_mentions(idea, backend_terms()),
        S::Go => idea_mentions(idea, go_terms()) || idea_mentions(idea, cli_terms())
            || idea_mentions(idea, backend_terms()) || idea_mentions(idea, infra_terms()),
        S::Maven => idea_mentions(idea, jvm_terms()) || idea_mentions(idea, mobile_terms()),
        S::RubyGems => idea_mentions(idea, ruby_terms()),
        S::NuGet => idea_mentions(idea, dotnet_terms()) || idea_mentions(idea, game_terms()),
        S::DockerHub => idea_mentions(idea, infra_terms()),
        S::VsCodeMarketplace => idea_mentions(idea, editor_terms()),
        S::GitHub => false,
        S::HackerNews => false,
    }
}

/// The idea suggests at least one registry.
pub open spec fn suggests_any(idea: Seq<char>) -> bool {
    exists|s: S| suggests(idea, s)
}

/// The source `s` is searched for `idea`: GitHub and Hacker News always, a
/// registry when the idea suggests it, and npm, PyPI and crates.io also when
/// the idea suggests no registry at all.
pub open spec fn selects(idea: Seq<char>, s: S) -> bool {
    match s {
        S::GitHub | S::HackerNews => true,
        S::Npm | S::PyPI | S::CratesIo => suggests(idea, s) || !suggests_any(idea),
        _ => suggests(idea, s),
    }
}

/// Whether `id` is a member of `set`.
fn has_source(set: &[S], id: S) -> (r: bool)
    ensures
        r == set@.contains(id),
{
    let mut i: usize = 0;
    while i < set.len()
        invariant
            i <= set.len(),
            forall|j: int| 0 <= j < i ==> set@[j] != id,
        decreases set.len() - i,
    {
        if set[i] == id {
            return true;
        }
        i += 1;
    }
    false
}

/// Adds `id` to the set `set` (a sequence without duplicates).
fn insert(set: &mut Vec<S>, id: S)
    requires
        old(set)@.no_duplicates(),
    ensures
        final(set)@.no_duplicates(),
        final(set)@.to_set() == old(set)@.to_set().insert(id),
{
    if !has_source(set.as_slice(), id) {
        set.push(id);
        assert forall|x: S| #[trigger] set@.contains(x) <==> old(set)@.contains(x) || x == id by {
            if old(set)@.contains(x) {
                let j = choose|j: int| 0 <= j < old(set)@.len() && old(set)@[j] == x;
                assert(set@[j] == x);
            }
            if x == id {
                assert(set@[set@.len() - 1] == x);
            }
        }
    }
    assert(set@.to_set() =~= old(set)@.to_set().insert(id));
}

/// Adds every source of `sources` to the set `set` (a sequence without
/// duplicates).
pub fn add(set: &mut Vec<S>, sources: &[S])
    requires
        old(set)@.no_duplicates(),
    ensures
        final(set)@.no_duplicates(),
        final(set)@.to_set() == old(set)@.to_set().union(sources@.to_set()),
{
    let mut k: usize = 0;
    while k < sources.len()
        invariant
            k <= sources.len(),
            set@.no_duplicates(),
            forall|x: S|
                #[trigger] set@.contains(x) <==> old(set)@.contains(x) || exists|j: int|
                    0 <= j < k && sources@[j] == x,
        decreases sources.len() - k,
    {
        let ghost before = set@;
        insert(set, sources[k]);
        assert forall|x: S|
            #[trigger] set@.contains(x) <==> old(set)@.contains(x) || exists|j: int|
                0 <= j < k + 1 && sources@[j] == x by {
            assert(set@.to_set().contains(x) == before.to_set().insert(sources@[k as int]).contains(
                x,
            ));
            if x == sources@[k as int] {
                assert(sources@[k as int] == x);
            }
        }
        k += 1;
    }
    assert(set@.to_set() =~= old(set)@.to_set().union(sources@.to_set()));
}

/// A set without duplicates that holds both GitHub and Hacker News has more
/// than two members exactly when it holds some other source.
proof fn lemma_len_beyond_agnostic(s: Seq<S>)
    requires
        s.no_duplicates(),
        s.contains(S::GitHub),
        s.contains(S::HackerNews),
    ensures
        s.len() <= 2 <==> s.to_set() == set![S::GitHub, S::HackerNews],
{
    s.unique_seq_to_set();
    let pair = set![S::GitHub, S::HackerNews];
    assert(pair.len() == 2) by {
        assert(set![S::GitHub].len() == 1);
    }
    if forall|x: S| #[trigger] s.contains(x) ==> (x == S::GitHub || x == S::HackerNews) {
        assert(s.to_set() =~= pair);
    } else {
        let y = choose|y: S| #[trigger] s.contains(y) && !(y == S::GitHub || y == S::HackerNews);
        assert(s.to_set() != pair) by {
            assert(s.to_set().contains(y));
        }
        let triple = pair.insert(y);
        assert(triple.len() == 3);
        assert(triple.subset_of(s.to_set()));
        vstd::set_lib::lemma_len_subset(triple, s.to_set());
    }
}

/// Registries that the idea names explicitly (a language or its ecosystem).
pub open spec fn language_suggests(idea: Seq<char>, x: S) -> bool {
    ||| x == S::CratesIo && idea_mentions(idea, rust_terms())
    ||| x == S::Npm && idea_mentions(idea, node_terms())
    ||| x == S::PyPI && idea_mentions(idea, python_terms())
    ||| x == S::Go && idea_mentions(idea, go_terms())
    ||| x == S::Maven && idea_mentions(idea, jvm_terms())
    ||| x == S::RubyGems && idea_mentions(idea, ruby_terms())
    ||| x == S::NuGet && idea_mentions(idea, dotnet_terms())
}

/// Registries that the problem domain of the idea implies.
pub open spec fn domain_suggests(idea: Seq<char>, x: S) -> bool {
    ||| idea_mentions(idea, ai_terms()) && (x == S::PyPI || x == S::Npm)
    ||| idea_mentions(idea, cli_terms()) && (x == S::CratesIo || x == S::Go)
    ||| idea_mentions(idea, frontend_terms()) && x == S::Npm
    ||| idea_mentions(idea, backend_terms()) && (x == S::Npm || x == S::PyPI || x == S::Go)
    ||| idea_mentions(idea, mobile_terms()) && (x == S::Npm || x == S::Maven)
    ||| idea_mentions(idea, game_terms()) && (x == S::CratesIo || x == S::NuGet)
    ||| idea_mentions(idea, embedded_terms()) && x == S::CratesIo
    ||| idea_mentions(idea, infra_terms()) && (x == S::DockerHub || x == S::Go)
    ||| idea_mentions(idea, editor_terms()) && (x == S::VsCodeMarketplace || x == S::Npm)
}

/// Adds the registries that the idea names explicitly.
fn add_language_sources(s: &mut Vec<S>, idea: &str)
    requires
        old(s)@.no_duplicates(),
    ensures
        final(s)@.no_duplicates(),
        final(s)@.to_set() == old(s)@.to_set().union(
            Set::new(|x: S| language_suggests(idea@, x)),
        ),
{
    let ghost mut g = s@.to_set();
    let rust = idea_contains(idea, &["rust", "crate", "cargo"]);
    assert(term_views(["rust", "crate", "cargo"]@) =~= rust_terms());
    if rust {
        insert(s, S::CratesIo);
        proof {
            g = g.insert(S::CratesIo);
        }
    }
    let node = idea_contains(idea, &["npm", "node", "javascript", "typescript", "deno", "bun"]);
    assert(term_views(["npm", "node", "javascript", "typescript", "deno", "bun"]@)
        =~= node_terms());
    if node {
        insert(s, S::Npm);
        proof {
            g = g.insert(S::Npm);
        }
    }
    let python = idea_contains(idea, &["python", "pip", "django", "flask", "pytorch", "pandas"]);
    assert(term_views(["python", "pip", "django", "flask", "pytorch", "pandas"]@)
        =~= python_terms());
    if python {
        insert(s, S::PyPI);
        proof {
            g = g.insert(S::PyPI);
        }
    }
    let go = idea_contains(idea, &["go", "golang", "goroutine"]);
    assert(term_views(["go", "golang", "goroutine"]@) =~= go_terms());
    if go {
        insert(s, S::Go);
        proof {
            g = g.insert(S::Go);
        }
    }
    let jvm = idea_contains(idea, &["java", "kotlin", "spring", "maven", "gradle", "scala"]);
    assert(term_views(["java", "kotlin", "spring", "maven", "gradle", "scala"]@)
        =~= jvm_terms());
    if jvm {
        insert(s, S::Maven);
        proof {
            g = g.insert(S::Maven);
        }
    }
    let ruby = idea_contains(idea, &["ruby", "rails", "sinatra", "gem"]);
    assert(term_views(["ruby", "rails", "sinatra", "gem"]@) =~= ruby_terms());
    if ruby {
        insert(s, S::RubyGems);
        proof {
            g = g.insert(S::RubyGems);
        }
    }
    let dotnet = idea_contains(
        idea,
        &["c#", ".net", "csharp", "dotnet", "nuget", "blazor", "unity"],
    );
    assert(term_views(["c#", ".net", "csharp", "dotnet", "nuget", "blazor", "unity"]@)
        =~= dotnet_terms());
    if dotnet {
        insert(s, S::NuGet);
        proof {
            g = g.insert(S::NuGet);
        }
    }
    assert(g =~= old(s)@.to_set().union(Set::new(|x: S| language_suggests(idea@, x))));
}

/// Adds the registries that the problem domain of the idea implies.
#[verifier::rlimit(60)]
fn add_domain_sources(s: &mut Vec<S>, idea: &str)
    requires
        old(s)@.no_duplicates(),
    ensures
        final(s)@.no_duplicates(),
        final(s)@.to_set() == old(s)@.to_set().union(Set::new(|x: S| domain_suggests(idea@, x))),
{
    let ghost mut g = s@.to_set();
    let ai = idea_contains(
        idea,
        &[
            "ai",
            "llm",
            "machine learning",
            "deep learning",
            "neural",
            "model training",
            "inference",
            "embedding",
            "nlp",
            "computer vision",
            "data science",
            "data pipeline",
        ],
    );
    assert(term_views(
        [
            "ai",
            "llm",
            "machine learning",
            "deep learning",
            "neural",
            "model training",
            "inference",
            "embedding",
            "nlp",
            "computer vision",
            "data science",
            "data pipeline",
        ]@,
    ) =~= ai_terms());
    if ai {
        self::add(s, &[S::PyPI, S::Npm]);
        proof {
            g = g.union(set![S::PyPI, S::Npm]);
        }
    }
    let cli = idea_contains(idea, &["cli", "command line", "terminal tool", "shell"]);
    assert(term_views(["cli", "command line", "terminal tool", "shell"]@) =~= cli_terms());
    if cli {
        self::add(s, &[S::CratesIo, S::Go]);
        proof {
            g = g.union(set![S::CratesIo, S::Go]);
        }
    }
    let frontend = idea_contains(
        idea,
        &[
            "frontend",
            "react",
            "vue",
            "angular",
            "svelte",
            "browser",
            "css",
            "ui component",
            "web component",
            "spa",
        ],
    );
    assert(term_views(
        [
            "frontend",
            "react",
            "vue",
            "angular",
            "svelte",
            "browser",
            "css",
            "ui component",
            "web component",
            "spa",
        ]@,
    ) =~= frontend_terms());
    if frontend {
        insert(s, S::Npm);
        proof {
            g = g.insert(S::Npm);
        }
    }
    let backend = idea_contains(
        idea,
        &["api", "backend", "rest", "graphql", "microservice", "web server"],
    );
    assert(term_views(["api", "backend", "rest", "graphql", "microservice", "web server"]@)
        =~= backend_terms());
    if backend {
        self::add(s, &[S::Npm, S::PyPI, S::Go]);
        proof {
            g = g.union(set![S::Npm, S::PyPI, S::Go]);
        }
    }
    let mobile = idea_contains(
        idea,
        &["mobile", "ios", "android", "react native", "flutter", "swift", "swiftui"],
    );
    assert(term_views(
        ["mobile", "ios", "android", "react native", "flutter", "swift", "swiftui"]@,
    ) =~= mobile_terms());
    if mobile {
        self::add(s, &[S::Npm, S::Maven]);
        proof {
            g = g.union(set![S::Npm, S::Maven]);
        }
    }
    let game = idea_contains(
        idea,
        &["game", "graphics", "rendering", "opengl", "vulkan", "bevy", "godot"],
    );
    assert(term_views(["game", "graphics", "rendering", "opengl", "vulkan", "bevy", "godot"]@)
        =~= game_terms());
    if game {
        self::add(s, &[S::CratesIo, S::NuGet]);
        proof {
            g = g.union(set![S::CratesIo, S::NuGet]);
        }
    }
    let embedded = idea_contains(idea, &["embedded", "firmware", "microcontroller", "rtos"]);
    assert(term_views(["embedded", "firmware", "microcontroller", "rtos"]@)
        =~= embedded_terms());
    if embedded {
        insert(s, S::CratesIo);
        proof {
            g = g.insert(S::CratesIo);
        }
    }
    let infra = idea_contains(
        idea,
        &["docker", "container", "kubernetes", "k8s", "helm", "deploy", "infrastructure"],
    );
    assert(term_views(
        ["docker", "container", "kubernetes", "k8s", "helm", "deploy", "infrastructure"]@,
    ) =~= infra_terms());
    if infra {
        self::add(s, &[S::DockerHub, S::Go]);
        proof {
            g = g.union(set![S::DockerHub, S::Go]);
        }
    }
    let editor = idea_contains(idea, &["vscode", "extension", "plugin", "ide", "editor"]);
    assert(term_views(["vscode", "extension", "plugin", "ide", "editor"]@) =~= editor_terms());
    if editor {
        self::add(s, &[S::VsCodeMarketplace, S::Npm]);
        proof {
            g = g.union(set![S::VsCodeMarketplace, S::Npm]);
        }
    }
    assert(g =~= old(s)@.to_set().union(Set::new(|x: S| domain_suggests(idea@, x))));
}

/// The sources to search for `idea`, without duplicates: exactly those that
/// `selects` picks.
pub fn detect_sources(idea: &str) -> (r: Vec<S>)
    ensures
        r@.no_duplicates(),
        forall|s: S| #[trigger] r@.contains(s) <==> selects(idea@, s),
{
    let mut s: Vec<S> = Vec::new();

    // GitHub and Hacker News are always included.
    insert(&mut s, S::GitHub);
    insert(&mut s, S::HackerNews);
    let ghost base = s@.to_set();
    assert(base =~= set![S::GitHub, S::HackerNews]);

    // Explicit language / ecosystem mentions, then domain inference (no
    // language named, but the problem implies one).
    add_language_sources(&mut s, idea);
    add_domain_sources(&mut s, idea);

    let ghost i = idea@;
    let ghost suggested = Set::new(|x: S| suggests(i, x));
    proof {
        assert(s@.to_set() =~= base.union(suggested)) by {
            assert forall|x: S| suggests(i, x) == (language_suggests(i, x) || domain_suggests(i, x))
                by {}
        }
        assert(s@.to_set().contains(S::GitHub));
        assert(s@.to_set().contains(S::HackerNews));
        lemma_len_beyond_agnostic(s@);
        assert(s@.to_set() == base <==> !suggests_any(i)) by {
            if !suggests_any(i) {
                assert(suggested =~= Set::empty());
                assert(s@.to_set() =~= base);
            }
            if s@.to_set() == base && suggests_any(i) {
                let w = choose|w: S| suggests(i, w);
                assert(s@.to_set().contains(w));
            }
        }
    }

    // Fallback: no registry suggested, so add the three biggest registries.
    if s.len() <= 2 {
        self::add(&mut s, &[S::Npm, S::PyPI, S::CratesIo]);
    }
    assert forall|x: S| #[trigger] s@.contains(x) <==> selects(idea@, x) by {
        assert(s@.to_set().contains(x) == s@.contains(x));
    }
    s
}
/// Some match in `s` has the URL `url`.
pub open spec fn has_url(s: Seq<Match>, url: Seq<char>) -> bool {
    exists|j: int| 0 <= j < s.len() && #[trigger] s[j].url@ == url
}

/// `s` without the matches whose URL occurred earlier: the first match of each
/// URL stays, in its place. A URL is a match's identity across sources.
pub open spec fn dedup_by_url(s: Seq<Match>) -> Seq<Match>
    decreases s.len(),
{
    if s.len() == 0 {
        seq![]
    } else if has_url(s.drop_last(), s.last().url@) {
        dedup_by_url(s.drop_last())
    } else {
        dedup_by_url(s.drop_last()).push(s.last())
    }
}

/// Removing duplicates keeps every URL: a URL occurs in `dedup_by_url(s)`
/// exactly when it occurs in `s`.
pub proof fn lemma_dedup_keeps_urls(s: Seq<Match>, url: Seq<char>)
    ensures
        has_url(dedup_by_url(s), url) == has_url(s, url),
    decreases s.len(),
{
    if s.len() > 0 {
        let p = s.drop_last();
        lemma_dedup_keeps_urls(p, url);
        lemma_dedup_keeps_urls(p, s.last().url@);
        let d = dedup_by_url(p);
        if has_url(p, url) {
            let j = choose|j: int| 0 <= j < p.len() && #[trigger] p[j].url@ == url;
            assert(s[j].url@ == url);
        }
        if has_url(s, url) && !has_url(p, url) {
            let j = choose|j: int| 0 <= j < s.len() && #[trigger] s[j].url@ == url;
            if j < p.len() {
                assert(p[j].url@ == url);
            }
        }
        if !has_url(p, s.last().url@) {
            let e = d.push(s.last());
            if has_url(d, url) {
                let j = choose|j: int| 0 <= j < d.len() && #[trigger] d[j].url@ == url;
                assert(e[j].url@ == url);
            }
            if has_url(e, url) && !has_url(d, url) {
                let j = choose|j: int| 0 <= j < e.len() && #[trigger] e[j].url@ == url;
                if j < d.len() {
                    assert(d[j].url@ == url);
                }
            }
            assert(e[d.len() as int].url@ == s.last().url@);
        }
    }
}

/// After removing duplicates no two matches share a URL.
pub proof fn lemma_dedup_distinct_urls(s: Seq<Match>)
    ensures
        forall|i: int, j: int|
            0 <= i < j < dedup_by_url(s).len() ==> #[trigger] dedup_by_url(s)[i].url@
                != #[trigger] dedup_by_url(s)[j].url@,
    decreases s.len(),
{
    if s.len() > 0 {
        let p = s.drop_last();
        lemma_dedup_distinct_urls(p);
        lemma_dedup_keeps_urls(p, s.last().url@);
        let d = dedup_by_url(p);
        if !has_url(p, s.last().url@) {
            let e = d.push(s.last());
            assert forall|i: int, j: int| 0 <= i < j < e.len() implies #[trigger] e[i].url@
                != #[trigger] e[j].url@ by {
                if j == d.len() {
                    if e[i].url@ == e[j].url@ {
                        assert(d[i].url@ == s.last().url@);
                    }
                } else {
                    assert(e[i] == d[i] && e[j] == d[j]);
                }
            }
        }
    }
}

/// A sequence whose URLs are pairwise distinct is its own deduplication.
pub proof fn lemma_dedup_of_distinct(s: Seq<Match>)
    requires
        forall|i: int, j: int| 0 <= i < j < s.len() ==> #[trigger] s[i].url@ != #[trigger] s[j].url@,
    ensures
        dedup_by_url(s) == s,
    decreases s.len(),
{
    if s.len() > 0 {
        let p = s.drop_last();
        assert forall|i: int, j: int| 0 <= i < j < p.len() implies #[trigger] p[i].url@
            != #[trigger] p[j].url@ by {
            assert(p[i] == s[i] && p[j] == s[j]);
        }
        lemma_dedup_of_distinct(p);
        if has_url(p, s.last().url@) {
            let j = choose|j: int| 0 <= j < p.len() && #[trigger] p[j].url@ == s.last().url@;
            assert(s[j].url@ == s[s.len() - 1].url@);
        }
        assert(p.push(s.last()) =~= s);
    }
}

/// Removing duplicates twice is removing them once.
pub proof fn law_dedup_idempotent(s: Seq<Match>)
    ensures
        dedup_by_url(dedup_by_url(s)) == dedup_by_url(s),
{
    lemma_dedup_distinct_urls(s);
    lemma_dedup_of_distinct(dedup_by_url(s));
}

/// Whether some match of `s` has the URL `url`.
fn has_match_url(s: &[Match], url: &String) -> (r: bool)
    ensures
        r == has_url(s@, url@),
{
    let mut i: usize = 0;
    while i < s.len()
        invariant
            i <= s.len(),
            forall|j: int| 0 <= j < i ==> #[trigger] s@[j].url@ != url@,
        decreases s.len() - i,
    {
        if s[i].url == *url {
            assert(s@[i as int].url@ == url@);
            return true;
        }
        i += 1;
    }
    false
}

/// Removes duplicate matches by URL, keeping the first occurrence and
/// preserving order. URL is a match's canonical identity across sources.
pub fn dedup(matches: Vec<Match>) -> (r: Vec<Match>)
    ensures
        r@ == dedup_by_url(matches@),
{
    let ghost input = matches@;
    let mut out: Vec<Match> = Vec::new();
    for m in it: matches.into_iter()
        invariant
            it.seq() == input,
            out@ == dedup_by_url(input.take(it.index())),
    {
        let ghost before = input.take(it.index());
        proof {
            lemma_dedup_keeps_urls(before, m.url@);
            assert(input.take(it.index() + 1).drop_last() =~= before);
        }
        if !has_match_url(out.as_slice(), &m.url) {
            out.push(m);
        }
    }
    assert(input.take(input.len() as int) =~= input);
    out
}

/// The sources, in order, whose search succeeded.
pub open spec fn reached_of(results: Seq<(S, Result<Vec<Match>, Error>)>) -> Seq<S>
    decreases results.len(),
{
    if results.len() == 0 {
        seq![]
    } else {
        let rest = reached_of(results.drop_last());
        match results.last().1 {
            Ok(_) => rest.push(results.last().0),
            Err(_) => rest,
        }
    }
}

/// The sources, in order, whose search failed.
pub open spec fn failed_of(results: Seq<(S, Result<Vec<Match>, Error>)>) -> Seq<S>
    decreases results.len(),
{
    if results.len() == 0 {
        seq![]
    } else {
        let rest = failed_of(results.drop_last());
        match results.last().1 {
            Ok(_) => rest,
            Err(_) => rest.push(results.last().0),
        }
    }
}

/// Every source searched is either reached or failed, never both.
pub proof fn law_reached_and_failed_split(results: Seq<(S, Result<Vec<Match>, Error>)>)
    ensures
        reached_of(results).len() + failed_of(results).len() == results.len(),
        forall|i: int|
            0 <= i < results.len() ==> (#[trigger] results[i].1 is Ok ==> reached_of(
                results,
            ).contains(results[i].0)) && (results[i].1 is Err ==> failed_of(results).contains(
                results[i].0,
            )),
    decreases results.len(),
{
    if results.len() > 0 {
        let p = results.drop_last();
        law_reached_and_failed_split(p);
        assert forall|i: int| 0 <= i < results.len() implies (#[trigger] results[i].1 is Ok
            ==> reached_of(results).contains(results[i].0)) && (results[i].1 is Err
            ==> failed_of(results).contains(results[i].0)) by {
            if i < p.len() {
                assert(results[i] == p[i]);
                if results[i].1 is Ok {
                    let k = choose|k: int| 0 <= k < reached_of(p).len() && reached_of(p)[k] == p[i].0;
                    assert(reached_of(results)[k] == p[i].0);
                } else {
                    let k = choose|k: int| 0 <= k < failed_of(p).len() && failed_of(p)[k] == p[i].0;
                    assert(failed_of(results)[k] == p[i].0);
                }
            } else {
                if results[i].1 is Ok {
                    assert(reached_of(results)[reached_of(p).len() as int] == results[i].0);
                } else {
                    assert(failed_of(results)[failed_of(p).len() as int] == results[i].0);
                }
            }
        }
    }
}

/// All matches of the searches that succeeded, in order.
pub open spec fn found_of(results: Seq<(S, Result<Vec<Match>, Error>)>) -> Seq<Match>
    decreases results.len(),
{
    if results.len() == 0 {
        seq![]
    } else {
        let rest = found_of(results.drop_last());
        match results.last().1 {
            Ok(ms) => rest + ms@,
            Err(_) => rest,
        }
    }
}

/// Combines the outcome of each source's search: the matches of the sources
/// that responded are concatenated in order and deduplicated, and the sources
/// are listed, in order, as reached or as failed (shown as not reached).
pub fn combine_results(results: Vec<(S, Result<Vec<Match>, Error>)>) -> (r: (
    Vec<Match>,
    Vec<S>,
    Vec<S>,
))
    ensures
        r.0@ == dedup_by_url(found_of(results@)),
        r.1@ == reached_of(results@),
        r.2@ == failed_of(results@),
{
    let ghost input = results@;
    let mut failed: Vec<S> = Vec::new();
    let mut reached: Vec<S> = Vec::new();
    let mut all: Vec<Match> = Vec::new();
    for item in it: results.into_iter()
        invariant
            it.seq() == input,
            reached@ == reached_of(input.take(it.index())),
            failed@ == failed_of(input.take(it.index())),
            all@ == found_of(input.take(it.index())),
    {
        proof {
            assert(input.take(it.index() + 1).drop_last() =~= input.take(it.index()));
        }
        let (id, result) = item;
        match result {
            Ok(matches) => {
                reached.push(id);
                let mut ms = matches;
                all.append(&mut ms);
            },
            Err(_) => {
                failed.push(id);
            },
        }
    }
    assert(input.take(input.len() as int) =~= input);
    (dedup(all), reached, failed)
}

/// GitHub and Hacker News are searched for every idea, and so is at least one
/// registry: when the idea suggests none, npm, PyPI and crates.io are.
pub proof fn law_sources_always_cover(idea: Seq<char>)
    ensures
        selects(idea, S::GitHub),
        selects(idea, S::HackerNews),
        exists|s: S| s != S::GitHub && s != S::HackerNews && #[trigger] selects(idea, s),
        !suggests_any(idea) ==> selects(idea, S::Npm) && selects(idea, S::PyPI) && selects(
            idea,
            S::CratesIo,
        ),
{
    if suggests_any(idea) {
        let w = choose|w: S| suggests(idea, w);
        assert(w != S::GitHub && w != S::HackerNews && selects(idea, w));
    } else {
        assert(selects(idea, S::Npm));
    }
}

/// Source selection ignores case: two ideas with the same lowercase form
/// select the same sources.
pub proof fn law_selection_ignores_case(a: Seq<char>, b: Seq<char>, s: S)
    requires
        lowercase(a) == lowercase(b),
    ensures
        selects(a, s) == selects(b, s),
{
    assert forall|x: S| suggests(a, x) == suggests(b, x) by {}
    assert(suggests_any(a) == suggests_any(b)) by {
        if suggests_any(a) {
            let w = choose|w: S| suggests(a, w);
            assert(suggests(b, w));
        }
        if suggests_any(b) {
            let w = choose|w: S| suggests(b, w);
            assert(suggests(a, w));
        }
    }
}

/// A term is hit exactly when it occurs at some position that starts a word
/// (the start of the text, or after a character that is not an ASCII letter
/// or digit) and ends one (the end of the text, or before such a character).
pub proof fn law_term_hit_whole_word(lower: Seq<char>, term: Seq<char>)
    ensures
        term_hit(lower, term) <==> exists|p: int|
            #![trigger occurs_at(lower, term, p)]
            occurs_at(lower, term, p) && (p == 0 || !(('0' <= lower[p - 1] && lower[p - 1] <= '9')
                || ('a' <= lower[p - 1] && lower[p - 1] <= 'z') || ('A' <= lower[p - 1]
                && lower[p - 1] <= 'Z'))) && (p + term.len() >= lower.len() || !(('0'
                <= lower[p + term.len()] && lower[p + term.len()] <= '9') || ('a' <= lower[p
                + term.len()] && lower[p + term.len()] <= 'z') || ('A' <= lower[p + term.len()]
                && lower[p + term.len()] <= 'Z'))),
{
    if term_hit(lower, term) {
        let p = choose|p: int| word_at(lower, term, p);
        assert(occurs_at(lower, term, p));
    }
    if exists|p: int|
        #![trigger occurs_at(lower, term, p)]
        occurs_at(lower, term, p) && (p == 0 || !(('0' <= lower[p - 1] && lower[p - 1] <= '9')
            || ('a' <= lower[p - 1] && lower[p - 1] <= 'z') || ('A' <= lower[p - 1] && lower[p
            - 1] <= 'Z'))) && (p + term.len() >= lower.len() || !(('0' <= lower[p + term.len()]
            && lower[p + term.len()] <= '9') || ('a' <= lower[p + term.len()] && lower[p
            + term.len()] <= 'z') || ('A' <= lower[p + term.len()] && lower[p + term.len()]
            <= 'Z'))) {
        let p = choose|p: int|
            #![trigger occurs_at(lower, term, p)]
            occurs_at(lower, term, p) && (p == 0 || !(('0' <= lower[p - 1] && lower[p - 1]
                <= '9') || ('a' <= lower[p - 1] && lower[p - 1] <= 'z') || ('A' <= lower[p - 1]
                && lower[p - 1] <= 'Z'))) && (p + term.len() >= lower.len() || !(('0' <= lower[p
                + term.len()] && lower[p + term.len()] <= '9') || ('a' <= lower[p + term.len()]
                && lower[p + term.len()] <= 'z') || ('A' <= lower[p + term.len()] && lower[p
                + term.len()] <= 'Z')));
        assert(word_at(lower, term, p));
    }
}

/// An idea mentions a list of terms exactly when its lowercase form hits one
/// of them as a whole word.
pub proof fn law_mentions_some_term(idea: Seq<char>, terms: Seq<Seq<char>>)
    ensures
        idea_mentions(idea, terms) <==> exists|k: int|
            0 <= k < terms.len() && #[trigger] term_hit(lowercase(idea), terms[k]),
{
    reveal(mentions_any);
}

/// A word of lowercase ASCII letters that is one of `terms` is mentioned by
/// an idea that is that word alone.
proof fn lemma_lone_term_mentioned(w: Seq<char>, terms: Seq<Seq<char>>, k: int)
    requires
        0 <= k < terms.len(),
        terms[k] == w,
        forall|i: int| 0 <= i < w.len() ==> 'a' <= #[trigger] w[i] && w[i] <= 'z',
    ensures
        idea_mentions(w, terms),
{
    assert(all_lower_known(w));
    assert(ascii_lowered(w) =~= w);
    assert(lowercase(w) == w);
    assert(w.subrange(0, w.len() as int) =~= w);
    assert(word_at(lowercase(w), terms[k], 0));
    assert(term_hit(lowercase(w), terms[k]));
    reveal(mentions_any);
}

/// Every source can be selected: for each one there is an idea that selects
/// it (GitHub and Hacker News are selected by every idea).
pub proof fn law_every_source_selectable(s: S)
    ensures
        exists|idea: Seq<char>| #[trigger] selects(idea, s),
{
    match s {
        S::GitHub | S::HackerNews => {
            assert(selects(Seq::<char>::empty(), s));
        },
        S::CratesIo => {
            reveal_strlit("rust");
            lemma_lone_term_mentioned("rust"@, rust_terms(), 0);
            assert(selects("rust"@, s));
        },
        S::Npm => {
            reveal_strlit("npm");
            lemma_lone_term_mentioned("npm"@, node_terms(), 0);
            assert(selects("npm"@, s));
        },
        S::PyPI => {
            reveal_strlit("python");
            lemma_lone_term_mentioned("python"@, python_terms(), 0);
            assert(selects("python"@, s));
        },
        S::Go => {
            reveal_strlit("golang");
            lemma_lone_term_mentioned("golang"@, go_terms(), 1);
            assert(selects("golang"@, s));
        },
        S::Maven => {
            reveal_strlit("java");
            lemma_lone_term_mentioned("java"@, jvm_terms(), 0);
            assert(selects("java"@, s));
        },
        S::RubyGems => {
            reveal_strlit("ruby");
            lemma_lone_term_mentioned("ruby"@, ruby_terms(), 0);
            assert(selects("ruby"@, s));
        },
        S::NuGet => {
            reveal_strlit("nuget");
            lemma_lone_term_mentioned("nuget"@, dotnet_terms(), 4);
            assert(selects("nuget"@, s));
        },
        S::DockerHub => {
            reveal_strlit("docker");
            lemma_lone_term_mentioned("docker"@, infra_terms(), 0);
            assert(selects("docker"@, s));
        },
        S::VsCodeMarketplace => {
            reveal_strlit("vscode");
            lemma_lone_term_mentioned("vscode"@, editor_terms(), 0);
            assert(selects("vscode"@, s));
        },
    }
}

/// How long to wait before searching a failed source again, in milliseconds.
pub const RETRY_DELAY_MS: u64 = 800;

/// What to do after an attempt to search a source.
#[derive(Debug, Clone, Copy, PartialEq, Eq, Structural)]
pub enum NextStep {
    /// Keep this attempt's outcome.
    Finish,
    /// Wait this many milliseconds, then search again.
    RetryAfter(u64),
}

/// The step after attempt number `attempt` (counting from 1): a failed first
/// attempt is retried once after a pause; anything else is final.
pub open spec fn next_step_spec(attempt: u32, succeeded: bool) -> NextStep {
    if !succeeded && attempt == 1 {
        NextStep::RetryAfter(RETRY_DELAY_MS)
    } else {
        NextStep::Finish
    }
}

/// Decides what follows attempt number `attempt` (counting from 1) of a
/// source search: a failed first attempt is retried once, after
/// `RETRY_DELAY_MS`; a success, or a second failure, is final.
pub fn next_step(attempt: u32, succeeded: bool) -> (r: NextStep)
    ensures
        r == next_step_spec(attempt, succeeded),
{
    if !succeeded && attempt == 1 {
        NextStep::RetryAfter(RETRY_DELAY_MS)
    } else {
        NextStep::Finish
    }
}

/// A source is searched at most twice: the second attempt is always final.
pub proof fn law_at_most_two_attempts(succeeded: bool)
    ensures
        next_step_spec(2, succeeded) == NextStep::Finish,
        next_step_spec(1, true) == NextStep::Finish,
{
}

} // verus!
