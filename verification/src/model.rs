//! Core domain types shared across the pipeline.

use vstd::prelude::*;
use vstd::string::*;

use crate::text::string_views;

verus! {

/// Similarities are stored as integers in ten-thousandths: `SIMILARITY_SCALE`
/// stands for a cosine similarity of exactly 1.0.
pub const SIMILARITY_SCALE: i32 = 10000;

/// A user's idea, plus keywords derived from it for keyword-based source APIs.
///
/// The full `idea` string is what the embedder ranks against; `keywords` is the
/// cleaned-up query handed to registry search endpoints.
#[derive(Debug, Clone, PartialEq, Eq)]
pub struct Query {
    pub idea: String,
    pub keywords: Vec<String>,
}

/// Where a [`Match`] came from. Always surfaced to the user for transparency.
#[derive(Debug, Clone, Copy, PartialEq, Eq, Structural, Hash)]
pub enum Source {
    CratesIo,
    GitHub,
    Npm,
    PyPI,
    HackerNews,
    Go,
    Maven,
    NuGet,
    RubyGems,
    DockerHub,
    VsCodeMarketplace,
}

impl Source {
    /// The name under which the source is shown to the user.
    pub open spec fn display_name(self) -> Seq<char> {
        match self {
            Source::CratesIo => "crates.io"@,
            Source::GitHub => "GitHub"@,
            Source::Npm => "npm"@,
            Source::PyPI => "PyPI"@,
            Source::HackerNews => "Hacker News"@,
            Source::Go => "Go"@,
            Source::Maven => "Maven"@,
            Source::NuGet => "NuGet"@,
            Source::RubyGems => "RubyGems"@,
            Source::DockerHub => "Docker Hub"@,
            Source::VsCodeMarketplace => "VS Code Marketplace"@,
        }
    }

    /// The name under which the source is shown to the user.
    pub fn to_string(&self) -> (r: String)
        ensures
            r@ == self.display_name(),
    {
        match self {
            Source::CratesIo => String::from_str("crates.io"),
            Source::GitHub => String::from_str("GitHub"),
            Source::Npm => String::from_str("npm"),
            Source::PyPI => String::from_str("PyPI"),
            Source::HackerNews => String::from_str("Hacker News"),
            Source::Go => String::from_str("Go"),
            Source::Maven => String::from_str("Maven"),
            Source::NuGet => String::from_str("NuGet"),
            Source::RubyGems => String::from_str("RubyGems"),
            Source::DockerHub => String::from_str("Docker Hub"),
            Source::VsCodeMarketplace => String::from_str("VS Code Marketplace"),
        }
    }
}

/// A single piece of prior art found in a [`Source`].
#[derive(Debug, Clone, PartialEq)]
pub struct Match {
    pub name: String,
    pub source: Source,
    pub url: String,
    pub description: String,
    /// Source-specific popularity signal (downloads, stars, points…). Optional
    /// because not every source exposes one.
    pub popularity: Option<u64>,
    /// Cosine similarity to the idea in ten-thousandths (`SIMILARITY_SCALE`
    /// is 1.0). Filled in by ranking.
    pub similarity: i32,
}

/// How crowded the space looks, based on what was found in the sources checked.
#[derive(Debug, Clone, Copy, PartialEq, Eq, Structural)]
pub enum Saturation {
    /// Nothing close found in the sources checked.
    Open,
    /// A few adjacent things exist.
    Crowded,
    /// The space is densely populated.
    Saturated,
}

impl Saturation {
    /// Position in the order `Open < Crowded < Saturated`.
    pub open spec fn rank(self) -> int {
        match self {
            Saturation::Open => 0,
            Saturation::Crowded => 1,
            Saturation::Saturated => 2,
        }
    }

    /// The more crowded of two levels.
    pub open spec fn spec_max_level(self, other: Saturation) -> Saturation {
        if self.rank() >= other.rank() {
            self
        } else {
            other
        }
    }

    /// Position in the order `Open < Crowded < Saturated`.
    pub fn severity(self) -> (r: u8)
        ensures
            r == self.rank(),
    {
        match self {
            Saturation::Open => 0,
            Saturation::Crowded => 1,
            Saturation::Saturated => 2,
        }
    }

    /// The more crowded of two levels (`Ord::max` in the order above).
    pub fn max_level(self, other: Saturation) -> (r: Saturation)
        ensures
            r == self.spec_max_level(other),
    {
        if self.severity() >= other.severity() {
            self
        } else {
            other
        }
    }
}

/// The integrity-scoped verdict.
///
/// Invariant: copy is always phrased as "found in the sources checked" and never
/// asserts that something does not exist anywhere.
#[derive(Debug, Clone, PartialEq)]
pub struct Verdict {
    pub level: Saturation,
    pub headline: String,
    pub gaps: Vec<String>,
    pub sources_checked: Vec<Source>,
    pub caveat: String,
}

/// A verdict seen as plain values.
pub struct VerdictView {
    pub level: Saturation,
    pub headline: Seq<char>,
    pub gaps: Seq<Seq<char>>,
    pub sources_checked: Seq<Source>,
    pub caveat: Seq<char>,
}

impl View for Verdict {
    type V = VerdictView;

    open spec fn view(&self) -> VerdictView {
        VerdictView {
            level: self.level,
            headline: self.headline@,
            gaps: string_views(self.gaps@),
            sources_checked: self.sources_checked@,
            caveat: self.caveat@,
        }
    }
}

} // verus!
