//! Verdict generation.
//!
//! Builds the prompt from the ranked matches and turns the model's reply into a
//! scoped verdict. The prompt forbids claiming non-existence: results are
//! always phrased as "found in the sources checked", and a clean result means
//! "keep looking before committing", never a green light.

use vstd::prelude::*;
use vstd::string::*;

use crate::model::{Match, Query, Saturation, Source, Verdict, VerdictView};
use crate::text::{
    chars_of, contains, contains_seq, decimal, decimal_string, find, is_first_occurrence, join,
    lemma_absent_before_first, lemma_absent_from_piece, lemma_first_occurrence_exists,
    lemma_first_occurrence_unique,
    lemma_trim_piece, lowercase, matches_at, occurs_at, round_div, round_div_exec,
    slice_to_vec, to_lowercase, trim, trim_end, trim_end_index, trim_start, trim_start_index,
    two_decimals, two_decimals_string,
};
use crate::headline::law_data_headline_scoped;
use crate::Error;

verus! {

broadcast use vstd::string::group_string_axioms;

/// The fixed humble caveat shown on every verdict. Never weaken this.
pub const CAVEAT: &'static str = "Not proof it doesn't exist — only that nothing close turned up in the sources checked. Keep looking (web, app stores, niche communities) before committing.";

/// The names of the sources, in order.
pub open spec fn source_names(sources: Seq<Source>) -> Seq<Seq<char>> {
    sources.map_values(|s: Source| s.display_name())
}

/// How the prompt names the sources that were searched.
pub open spec fn source_list_text(sources: Seq<Source>) -> Seq<char> {
    if sources.len() == 0 {
        "the selected open-source registries"@
    } else {
        join(source_names(sources), ", "@)
    }
}

/// Renders the list of sources actually searched, for the prompt.
pub fn source_list(sources_checked: &[Source]) -> (r: String)
    ensures
        r@ == source_list_text(sources_checked@),
{
    if sources_checked.len() == 0 {
        return String::from_str("the selected open-source registries");
    }
    let mut r = String::new();
    let mut i: usize = 0;
    while i < sources_checked.len()
        invariant
            i <= sources_checked.len(),
            r@ == join(source_names(sources_checked@.take(i as int)), ", "@),
        decreases sources_checked.len() - i,
    {
        assert(source_names(sources_checked@.take(i + 1)).drop_last() =~= source_names(
            sources_checked@.take(i as int),
        ));
        if i != 0 {
            r.append(", ");
        }
        let name = sources_checked[i].to_string();
        r.append(name.as_str());
        assert(r@ =~= join(source_names(sources_checked@.take(i + 1)), ", "@));
        i += 1;
    }
    assert(sources_checked@.take(sources_checked.len() as int) =~= sources_checked@);
    r
}

/// The first `n` elements of `s`, or all of them when there are fewer.
pub open spec fn first_n(s: Seq<Match>, n: int) -> Seq<Match> {
    if s.len() <= n {
        s
    } else {
        s.take(n)
    }
}

/// The sum of the similarities of `s`.
pub open spec fn sim_sum(s: Seq<Match>) -> int
    decreases s.len(),
{
    if s.len() == 0 {
        0
    } else {
        sim_sum(s.drop_last()) + s.last().similarity
    }
}

/// A similarity (in ten-thousandths) with two decimals.
pub open spec fn sim_text(similarity: int) -> Seq<char> {
    two_decimals(round_div(similarity, 100))
}

/// The average similarity of `top` with two decimals.
pub open spec fn average_text(top: Seq<Match>) -> Seq<char> {
    two_decimals(round_div(sim_sum(top), 100 * (top.len() as int)))
}

/// The prompt's line for one match.
pub open spec fn match_line(m: Match) -> Seq<char> {
    "- **"@ + m.name@ + "** ("@ + m.source.display_name() + ", sim "@ + sim_text(
        m.similarity as int,
    ) + "): "@ + m.description@ + "\n"@
}

/// The prompt's lines for the matches of `s`, in order.
pub open spec fn match_lines(s: Seq<Match>) -> Seq<char>
    decreases s.len(),
{
    if s.len() == 0 {
        seq![]
    } else {
        match_lines(s.drop_last()) + match_line(s.last())
    }
}

/// The part of the prompt that lists the matches.
pub open spec fn matches_section(matches: Seq<Match>) -> Seq<char> {
    if matches.len() == 0 {
        "## Matches\nNo matches were found in the sources checked.\n\n"@
    } else {
        "## Matches found (ranked by cosine similarity to the idea)\n"@
            + "Top-10 average similarity: "@ + average_text(first_n(matches, 10))
            + " (scale: 0.0 = unrelated, 0.5 = tangential, 0.7+ = strong match)\n\n"@
            + match_lines(first_n(matches, 15)) + (if matches.len() > 15 {
            "- … and "@ + decimal((matches.len() - 15) as nat)
                + " more with lower similarity\n"@
        } else {
            Seq::<char>::empty()
        }) + "\n"@
    }
}

/// The fixed rules that the prompt sets for the model.
pub open spec fn rules_text() -> Seq<char> {
    "## Rules — you MUST follow these\n- You can prove something EXISTS; you must NEVER claim something does not exist.\n- All conclusions must be scoped to \"found in the sources checked\".\n- Do not say \"this doesn't exist\" or \"there is no prior art\" — only that nothing close turned up in the sources checked.\n- If the idea is NOT about software, developer tools, or programming, respond with level \"Open\" and headline \"This does not appear to be a software tool idea — patent searches developer tool registries only.\"\n- Focus ONLY on matches that directly address the SPECIFIC feature described in the idea. Generic or tangential tools (e.g. a generic linter when the idea is a specific kind of linter) do NOT count as prior art.\n\n"@
}

/// How the prompt tells the model to choose the level.
pub open spec fn levels_text() -> Seq<char> {
    "## How to choose the level\nUse the similarity scores — they measure how closely each match relates to the idea:\n- **Open**: no match has similarity >= 0.55, OR matches are only tangentially related (they share a category but not the specific feature).\n- **Crowded**: at least 2-3 matches with similarity >= 0.55 that directly address the same problem.\n- **Saturated**: 5+ strong matches (>= 0.60) covering the idea with little room for differentiation.\n\n"@
}

/// The output format that the prompt asks for.
pub open spec fn output_text() -> Seq<char> {
    "## Output\nRespond with ONLY a JSON object (no markdown fences, no commentary):\n```\n{\n  \"level\": \"Open\" | \"Crowded\" | \"Saturated\",\n  \"headline\": \"one-sentence summary scoped to sources checked\",\n  \"gaps\": [\"gap the user could fill\", ...]\n}\n```\nThe headline MUST describe the user's idea and its closest matches above — never an unrelated tool from the list — and must be scoped to the sources checked. Never claim the idea does not exist or has no prior art.\n"@
}

/// The whole prompt for `idea`, its ranked `matches`, and the sources that
/// were actually searched.
pub open spec fn prompt_text(idea: Seq<char>, matches: Seq<Match>, sources: Seq<Source>) -> Seq<
    char,
> {
    "You are a prior-art analyst for SOFTWARE DEVELOPER TOOLS ONLY. The user has an idea for a dev tool and we searched these open-source sources for existing implementations: "@
        + source_list_text(sources) + ".\n\n"@ + "## Idea\n"@ + idea + "\n\n"@
        + matches_section(matches) + rules_text() + levels_text() + output_text()
}

/// The prompt's line for one match.
fn match_line_string(m: &Match) -> (r: String)
    ensures
        r@ == match_line(*m),
{
    let mut r = String::from_str("- **");
    r.append(m.name.as_str());
    r.append("** (");
    let source = m.source.to_string();
    r.append(source.as_str());
    r.append(", sim ");
    let h = round_div_exec(m.similarity as i64, 100);
    let sim = two_decimals_string(h);
    r.append(sim.as_str());
    r.append("): ");
    r.append(m.description.as_str());
    r.append("\n");
    r
}

/// Appends the part of the prompt that lists the matches.
#[verifier::rlimit(40)]
fn push_matches_section(prompt: &mut String, matches: &[Match])
    ensures
        final(prompt)@ == old(prompt)@ + matches_section(matches@),
{
    let ghost start = prompt@;
    if matches.len() == 0 {
        prompt.append("## Matches\nNo matches were found in the sources checked.\n\n");
        return;
    }
    let top10 = if matches.len() <= 10 {
        matches.len()
    } else {
        10
    };
    let mut sum: i64 = 0;
    let mut i: usize = 0;
    while i < top10
        invariant
            i <= top10 <= 10,
            top10 <= matches.len(),
            sum == sim_sum(matches@.take(i as int)),
            -(i as int) * 2147483648 <= sum <= (i as int) * 2147483648,
        decreases top10 - i,
    {
        assert(matches@.take(i + 1).drop_last() =~= matches@.take(i as int));
        sum = sum + matches[i].similarity as i64;
        i += 1;
    }
    assert(first_n(matches@, 10) =~= matches@.take(top10 as int));
    let avg = round_div_exec(sum, 100 * (top10 as i64));
    prompt.append("## Matches found (ranked by cosine similarity to the idea)\n");
    prompt.append("Top-10 average similarity: ");
    let avg_text = two_decimals_string(avg);
    prompt.append(avg_text.as_str());
    prompt.append(" (scale: 0.0 = unrelated, 0.5 = tangential, 0.7+ = strong match)\n\n");
    let ghost head = prompt@;
    let top15 = if matches.len() <= 15 {
        matches.len()
    } else {
        15
    };
    let mut k: usize = 0;
    while k < top15
        invariant
            k <= top15 <= matches.len(),
            prompt@ == head + match_lines(matches@.take(k as int)),
        decreases top15 - k,
    {
        assert(matches@.take(k + 1).drop_last() =~= matches@.take(k as int));
        let line = match_line_string(&matches[k]);
        prompt.append(line.as_str());
        k += 1;
    }
    assert(first_n(matches@, 15) =~= matches@.take(top15 as int));
    let ghost lines_end = prompt@;
    if matches.len() > 15 {
        prompt.append("- … and ");
        let more = decimal_string((matches.len() - 15) as u64);
        prompt.append(more.as_str());
        prompt.append(" more with lower similarity\n");
    }
    prompt.append("\n");
    assert(prompt@ =~= start + matches_section(matches@));
}

/// Builds the prompt, enforcing the integrity rules, for the `sources_checked`
/// that actually responded: the prompt only ever tells the model about
/// coverage that really happened.
pub fn build_scoped_prompt(query: &Query, matches: &[Match], sources_checked: &[Source]) -> (r:
    String)
    ensures
        r@ == prompt_text(query.idea@, matches@, sources_checked@),
{
    let mut prompt = String::from_str(
        "You are a prior-art analyst for SOFTWARE DEVELOPER TOOLS ONLY. The user has an idea for a dev tool and we searched these open-source sources for existing implementations: ",
    );
    let list = source_list(sources_checked);
    prompt.append(list.as_str());
    prompt.append(".\n\n");
    prompt.append("## Idea\n");
    prompt.append(query.idea.as_str());
    prompt.append("\n\n");
    push_matches_section(&mut prompt, matches);
    prompt.append(
        "## Rules — you MUST follow these\n- You can prove something EXISTS; you must NEVER claim something does not exist.\n- All conclusions must be scoped to \"found in the sources checked\".\n- Do not say \"this doesn't exist\" or \"there is no prior art\" — only that nothing close turned up in the sources checked.\n- If the idea is NOT about software, developer tools, or programming, respond with level \"Open\" and headline \"This does not appear to be a software tool idea — patent searches developer tool registries only.\"\n- Focus ONLY on matches that directly address the SPECIFIC feature described in the idea. Generic or tangential tools (e.g. a generic linter when the idea is a specific kind of linter) do NOT count as prior art.\n\n",
    );
    prompt.append(
        "## How to choose the level\nUse the similarity scores — they measure how closely each match relates to the idea:\n- **Open**: no match has similarity >= 0.55, OR matches are only tangentially related (they share a category but not the specific feature).\n- **Crowded**: at least 2-3 matches with similarity >= 0.55 that directly address the same problem.\n- **Saturated**: 5+ strong matches (>= 0.60) covering the idea with little room for differentiation.\n\n",
    );
    prompt.append(
        "## Output\nRespond with ONLY a JSON object (no markdown fences, no commentary):\n```\n{\n  \"level\": \"Open\" | \"Crowded\" | \"Saturated\",\n  \"headline\": \"one-sentence summary scoped to sources checked\",\n  \"gaps\": [\"gap the user could fill\", ...]\n}\n```\nThe headline MUST describe the user's idea and its closest matches above — never an unrelated tool from the list — and must be scoped to the sources checked. Never claim the idea does not exist or has no prior art.\n",
    );
    assert(prompt@ =~= prompt_text(query.idea@, matches@, sources_checked@));
    prompt
}

/// Builds the prompt without naming particular sources.
pub fn build_prompt(query: &Query, matches: &[Match]) -> (r: String)
    ensures
        r@ == prompt_text(query.idea@, matches@, Seq::empty()),
{
    let none: Vec<Source> = Vec::new();
    build_scoped_prompt(query, matches, none.as_slice())
}

/// Phrases that assert non-existence. The integrity rule forbids ever telling a
/// user their idea doesn't exist (only some sources were searched), so text
/// from the model that holds one of these is replaced or dropped. The list errs
/// toward catching more: a false positive only downgrades the copy to a safe
/// scoped headline.
pub open spec fn absence_phrases() -> Seq<Seq<char>> {
    seq![
        "does not exist"@,
        "doesn't exist"@,
        "do not exist"@,
        "don't exist"@,
        "no prior art"@,
        "nothing exists"@,
        "nothing like this"@,
        "never been built"@,
        "never been made"@,
        "never been implemented"@,
        "has not been built"@,
        "hasn't been built"@,
        "has not been implemented"@,
        "hasn't been implemented"@,
        "not been implemented"@,
        "no one has built"@,
        "no one has made"@,
        "no one else"@,
        "nobody else"@,
        "no one is doing"@,
        "no such tool"@,
        "no existing tool"@,
        "no existing solution"@,
        "no existing \
         implementation"@,
        "no similar tool"@,
        "no similar project"@,
        "no comparable"@,
        "no competitors"@,
        "no alternatives"@,
        "no equivalent"@,
        "there is no tool"@,
        "there are no tools"@,
        "there is no existing"@,
        "there is no software"@,
        "there is no prior"@,
        "completely novel"@,
        "entirely new"@,
        "brand new concept"@,
        "first of its kind"@,
        "unprecedented"@,
    ]
}

/// The already-lowercased text `lower` holds an absence phrase.
pub open spec fn has_absence_phrase(lower: Seq<char>) -> bool {
    exists|k: int|
        0 <= k < absence_phrases().len() && #[trigger] contains_seq(lower, absence_phrases()[k])
}

/// `text` asserts that something does not exist: lowercased, it holds an
/// absence phrase.
pub open spec fn asserts_absence(text: Seq<char>) -> bool {
    has_absence_phrase(lowercase(text))
}

/// Whether the already-lowercased text `lower` holds an absence phrase.
pub fn mentions_absence(lower: &[char]) -> (r: bool)
    ensures
        r == has_absence_phrase(lower@),
{
    let phrases = [
        "does not exist",
        "doesn't exist",
        "do not exist",
        "don't exist",
        "no prior art",
        "nothing exists",
        "nothing like this",
        "never been built",
        "never been made",
        "never been implemented",
        "has not been built",
        "hasn't been built",
        "has not been implemented",
        "hasn't been implemented",
        "not been implemented",
        "no one has built",
        "no one has made",
        "no one else",
        "nobody else",
        "no one is doing",
        "no such tool",
        "no existing tool",
        "no existing solution",
        "no existing \
         implementation",
        "no similar tool",
        "no similar project",
        "no comparable",
        "no competitors",
        "no alternatives",
        "no equivalent",
        "there is no tool",
        "there are no tools",
        "there is no existing",
        "there is no software",
        "there is no prior",
        "completely novel",
        "entirely new",
        "brand new concept",
        "first of its kind",
        "unprecedented",
    ];
    let ghost views = phrases@.map_values(|t: &str| t@);
    assert(views =~= absence_phrases());
    let mut k: usize = 0;
    while k < phrases.len()
        invariant
            k <= phrases.len() == 40,
            views == absence_phrases(),
            views == phrases@.map_values(|t: &str| t@),
            forall|j: int| 0 <= j < k ==> !#[trigger] contains_seq(lower@, views[j]),
        decreases phrases.len() - k,
    {
        let p = chars_of(phrases[k]);
        if contains(lower, p.as_slice()) {
            assert(contains_seq(lower@, absence_phrases()[k as int]));
            return true;
        }
        k += 1;
    }
    false
}

/// Whether `text` asserts that something does not exist.
pub fn contains_absence_phrase(text: &str) -> (r: bool)
    ensures
        r == asserts_absence(text@),
{
    let lower = to_lowercase(text);
    let chars = chars_of(lower.as_str());
    mentions_absence(chars.as_slice())
}

/// Similarity (in ten-thousandths) from which a match counts as close.
pub const CLOSE_SIMILARITY: i32 = 5500;

/// Similarity (in ten-thousandths) from which a match counts as strong.
pub const STRONG_SIMILARITY: i32 = 6000;

/// How many matches of `s` have a similarity of at least `t`.
pub open spec fn count_at_least(s: Seq<Match>, t: int) -> nat
    decreases s.len(),
{
    if s.len() == 0 {
        0
    } else {
        count_at_least(s.drop_last(), t) + if s.last().similarity >= t {
            1nat
        } else {
            0nat
        }
    }
}

/// How many matches have a similarity of at least `t`.
fn count_similar(matches: &[Match], t: i32) -> (r: usize)
    ensures
        r == count_at_least(matches@, t as int),
{
    let mut n: usize = 0;
    let mut i: usize = 0;
    while i < matches.len()
        invariant
            i <= matches.len(),
            n == count_at_least(matches@.take(i as int), t as int),
            n <= i,
        decreases matches.len() - i,
    {
        assert(matches@.take(i + 1).drop_last() =~= matches@.take(i as int));
        if matches[i].similarity >= t {
            n += 1;
        }
        i += 1;
    }
    assert(matches@.take(matches.len() as int) =~= matches@);
    n
}

/// The level that the similarity data alone supports: Saturated with 5 or
/// more strong matches, else Crowded with 2 or more close ones, else Open.
pub open spec fn data_level(matches: Seq<Match>) -> Saturation {
    if count_at_least(matches, STRONG_SIMILARITY as int) >= 5 {
        Saturation::Saturated
    } else if count_at_least(matches, CLOSE_SIMILARITY as int) >= 2 {
        Saturation::Crowded
    } else {
        Saturation::Open
    }
}

/// The model's level floored against the similarity data.
pub open spec fn floored(model_level: Saturation, matches: Seq<Match>) -> Saturation {
    model_level.spec_max_level(data_level(matches))
}

/// Floors the model's level against the similarity data so that it can never
/// hand out a green-light Open when the data clearly shows close prior art.
pub fn floor_level(model_level: Saturation, matches: &[Match]) -> (r: Saturation)
    ensures
        r == floored(model_level, matches@),
{
    let strong = count_similar(matches, STRONG_SIMILARITY);
    let close = count_similar(matches, CLOSE_SIMILARITY);
    let data = if strong >= 5 {
        Saturation::Saturated
    } else if close >= 2 {
        Saturation::Crowded
    } else {
        Saturation::Open
    };
    model_level.max_level(data)
}

/// A safe, scoped headline derived purely from the data.
pub open spec fn data_headline_text(level: Saturation, matches: Seq<Match>) -> Seq<char> {
    let close = count_at_least(matches, CLOSE_SIMILARITY as int);
    match level {
        Saturation::Saturated => "Saturated — "@ + decimal(close)
            + " closely-related tools turned up in the sources checked."@,
        Saturation::Crowded => "Crowded — "@ + decimal(close) + " closely-related tool"@ + (if close
            == 1 {
            Seq::<char>::empty()
        } else {
            "s"@
        }) + " turned up in the sources checked."@,
        Saturation::Open => "Nothing close turned up in the sources checked — keep looking before committing."@,
    }
}

/// A safe, scoped headline derived purely from the data; it never asserts
/// absence.
pub fn data_headline(level: Saturation, matches: &[Match]) -> (r: String)
    ensures
        r@ == data_headline_text(level, matches@),
        !asserts_absence(r@),
{
    proof {
        law_data_headline_scoped(level, matches@);
    }
    let close = count_similar(matches, CLOSE_SIMILARITY);
    match level {
        Saturation::Saturated => {
            let mut r = String::from_str("Saturated — ");
            let n = decimal_string(close as u64);
            r.append(n.as_str());
            r.append(" closely-related tools turned up in the sources checked.");
            r
        },
        Saturation::Crowded => {
            let mut r = String::from_str("Crowded — ");
            let n = decimal_string(close as u64);
            r.append(n.as_str());
            r.append(" closely-related tool");
            if close != 1 {
                r.append("s");
            }
            r.append(" turned up in the sources checked.");
            r
        },
        Saturation::Open => String::from_str(
            "Nothing close turned up in the sources checked — keep looking before committing.",
        ),
    }
}

/// The headline kept after the guard: one that asserts absence is replaced
/// by the data headline.
pub open spec fn guarded(headline: Seq<char>, level: Saturation, matches: Seq<Match>) -> Seq<
    char,
> {
    if asserts_absence(headline) {
        data_headline_text(level, matches)
    } else {
        headline
    }
}

/// Replaces any headline that asserts non-existence with a safe scoped one.
/// This is the code-level guarantee behind the integrity rule: the prompt asks
/// the model to comply, but nothing relies on it.
pub fn guard_headline(headline: String, level: Saturation, matches: &[Match]) -> (r: String)
    ensures
        r@ == guarded(headline@, level, matches@),
        !asserts_absence(r@),
{
    proof {
        law_data_headline_scoped(level, matches@);
    }
    if contains_absence_phrase(headline.as_str()) {
        data_headline(level, matches)
    } else {
        headline
    }
}

/// The markdown code fence.
pub open spec fn fence() -> Seq<char> {
    "```"@
}

/// `s` without a leading `json` language tag.
pub open spec fn strip_json_tag(s: Seq<char>) -> Seq<char> {
    if s.len() >= 4 && s.take(4) == "json"@ {
        s.skip(4)
    } else {
        s
    }
}

/// The JSON text in a model reply: the trimmed reply, or, when it holds a
/// fenced block (an opening fence, an optional `json` tag, and a closing
/// fence), the trimmed content of the first such block.
pub open spec fn extract_json_text(raw: Seq<char>) -> Seq<char> {
    let t = trim(raw);
    if contains_seq(t, fence()) {
        let p = choose|p: int| is_first_occurrence(t, fence(), p);
        let content = trim_start(strip_json_tag(t.skip(p + 3)));
        if contains_seq(content, fence()) {
            let e = choose|e: int| is_first_occurrence(content, fence(), e);
            trim(content.take(e))
        } else {
            t
        }
    } else {
        t
    }
}

/// Extracts the JSON from a model response that may be wrapped in markdown
/// fences.
pub fn extract_json(raw: &str) -> (r: &str)
    ensures
        r@ == extract_json_text(raw@),
{
    let chars = chars_of(raw);
    let n = chars.len();
    let a = trim_start_index(chars.as_slice(), 0, n);
    let b = trim_end_index(chars.as_slice(), a, n);
    let ghost t = trim(raw@);
    proof {
        assert(raw@.subrange(0, n as int) =~= raw@);
        assert(t == chars@.subrange(a as int, b as int));
    }
    let tv = slice_to_vec(chars.as_slice(), a, b);
    let fence_chars = chars_of("```");
    proof {
        reveal_strlit("```");
        reveal_strlit("json");
    }
    assert(fence_chars@ == fence());
    assert(fence().len() == 3);
    match find(tv.as_slice(), fence_chars.as_slice()) {
        Some(p) => {
            proof {
                let c = choose|x: int| is_first_occurrence(t, fence(), x);
                lemma_first_occurrence_unique(t, fence(), c, p as int);
            }
            let q = a + p + 3;
            let ghost after = t.skip(p + 3);
            assert(after =~= chars@.subrange(q as int, b as int));
            let json_tag = chars_of("json");
            let tagged = b - q >= 4 && matches_at(chars.as_slice(), json_tag.as_slice(), q);
            let c0 = if tagged {
                q + 4
            } else {
                q
            };
            proof {
                if b - q >= 4 {
                    assert(after.take(4) =~= chars@.subrange(q as int, q + 4));
                }
                assert(strip_json_tag(after) =~= chars@.subrange(c0 as int, b as int));
            }
            let cs = trim_start_index(chars.as_slice(), c0, b);
            let ghost content = trim_start(strip_json_tag(after));
            assert(content == chars@.subrange(cs as int, b as int));
            let cv = slice_to_vec(chars.as_slice(), cs, b);
            match find(cv.as_slice(), fence_chars.as_slice()) {
                Some(e) => {
                    proof {
                        let c = choose|x: int| is_first_occurrence(content, fence(), x);
                        lemma_first_occurrence_unique(content, fence(), c, e as int);
                        assert(content.take(e as int) =~= chars@.subrange(
                            cs as int,
                            cs + e,
                        ));
                    }
                    let lo = trim_start_index(chars.as_slice(), cs, cs + e);
                    let hi = trim_end_index(chars.as_slice(), lo, cs + e);
                    raw.substring_char(lo, hi)
                },
                None => raw.substring_char(a, b),
            }
        },
        None => raw.substring_char(a, b),
    }
}

/// The fields of the model's JSON reply that a verdict is made from, each
/// as read from the parsed JSON value: `level` and `headline` when they are
/// strings, and `gaps` when it is an array (each element kept when it is a
/// string).
pub struct ModelReply {
    pub level: Option<String>,
    pub headline: Option<String>,
    pub gaps: Option<Vec<Option<String>>>,
}

/// A model reply seen as plain values.
pub struct ModelReplyView {
    pub level: Option<Seq<char>>,
    pub headline: Option<Seq<char>>,
    pub gaps: Option<Seq<Option<Seq<char>>>>,
}

/// The character view of an optional string.
pub open spec fn opt_view(o: Option<String>) -> Option<Seq<char>> {
    match o {
        Some(s) => Some(s@),
        None => None,
    }
}

impl View for ModelReply {
    type V = ModelReplyView;

    open spec fn view(&self) -> ModelReplyView {
        ModelReplyView {
            level: opt_view(self.level),
            headline: opt_view(self.headline),
            gaps: match self.gaps {
                Some(v) => Some(v@.map_values(|g: Option<String>| opt_view(g))),
                None => None,
            },
        }
    }
}

/// What a JSON object holds at one key, as far as a reply is read: a string,
/// an array (each element a string or not), or anything else (also when the
/// key is missing, the value is not an object, or the text is not JSON).
pub enum JsonField {
    Text(String),
    List(Vec<Option<String>>),
    Other,
}

/// A JSON field seen as plain values.
pub enum JsonFieldView {
    Text(Seq<char>),
    List(Seq<Option<Seq<char>>>),
    Other,
}

impl View for JsonField {
    type V = JsonFieldView;

    open spec fn view(&self) -> JsonFieldView {
        match self {
            JsonField::Text(t) => JsonFieldView::Text(t@),
            JsonField::List(l) => JsonFieldView::List(
                l@.map_values(|g: Option<String>| opt_view(g)),
            ),
            JsonField::Other => JsonFieldView::Other,
        }
    }
}

/// The message of the error that `serde_json::from_str::<serde_json::Value>`
/// gives for `text`, or `None` when the text parses.
pub uninterp spec fn json_parse_error(text: Seq<char>) -> Option<Seq<char>>;

/// `serde_json::from_str::<serde_json::Value>`, keeping only the error's
/// message. Trusted: the outcome is `json_parse_error` of the text.
#[verifier::external_body]
pub(crate) fn json_error(text: &str) -> (r: Option<String>)
    ensures
        opt_view(r) == json_parse_error(text@),
{
    serde_json::from_str::<serde_json::Value>(text).err().map(|e| e.to_string())
}

/// What the JSON value parsed from `text` holds at `key`
/// (`serde_json::Value` indexed by `key`, then told apart as a string, an
/// array, or anything else).
pub uninterp spec fn json_field(text: Seq<char>, key: Seq<char>) -> JsonFieldView;

/// `serde_json::from_str::<serde_json::Value>`, then `Value::index` by `key`
/// (which gives `Null` for a missing key or a non-object) and the variant of
/// the value found. Trusted: the result is `json_field` of the text and key.
#[verifier::external_body]
pub(crate) fn json_field_at(text: &str, key: &str) -> (r: JsonField)
    ensures
        r@ == json_field(text@, key@),
{
    let v = serde_json::from_str::<serde_json::Value>(text).unwrap_or(serde_json::Value::Null);
    match &v[key] {
        serde_json::Value::String(s) => JsonField::Text(s.clone()),
        serde_json::Value::Array(a) => JsonField::List(a.iter().map(|g| g.as_str().map(String::from)).collect()),
        _ => JsonField::Other,
    }
}

/// The string that a field holds, if it is one.
pub open spec fn field_text(f: JsonFieldView) -> Option<Seq<char>> {
    match f {
        JsonFieldView::Text(t) => Some(t),
        _ => None,
    }
}

/// The elements of a field that is an array, if it is one.
pub open spec fn field_list(f: JsonFieldView) -> Option<Seq<Option<Seq<char>>>> {
    match f {
        JsonFieldView::List(l) => Some(l),
        _ => None,
    }
}

/// The reply that a JSON text gives: the parse error, or the string at key
/// `level`, the string at key `headline` and the elements of the array at key
/// `gaps`.
pub open spec fn json_reply(text: Seq<char>) -> Result<ModelReplyView, Seq<char>> {
    match json_parse_error(text) {
        Some(m) => Err(m),
        None => Ok(
            ModelReplyView {
                level: field_text(json_field(text, "level"@)),
                headline: field_text(json_field(text, "headline"@)),
                gaps: field_list(json_field(text, "gaps"@)),
            },
        ),
    }
}

/// The reply view of a parse outcome.
pub open spec fn reply_result_view(r: Result<ModelReply, String>) -> Result<
    ModelReplyView,
    Seq<char>,
> {
    match r {
        Ok(reply) => Ok(reply@),
        Err(m) => Err(m@),
    }
}

/// The string that a field holds, if it is one.
fn text_of(f: JsonField) -> (r: Option<String>)
    ensures
        opt_view(r) == field_text(f@),
{
    match f {
        JsonField::Text(t) => Some(t),
        _ => None,
    }
}

/// Reads the reply fields from a JSON text.
pub fn read_reply(text: &str) -> (r: Result<ModelReply, String>)
    ensures
        reply_result_view(r) == json_reply(text@),
{
    match json_error(text) {
        Some(m) => Err(m),
        None => {
            let level = text_of(json_field_at(text, "level"));
            let headline = text_of(json_field_at(text, "headline"));
            let gaps = match json_field_at(text, "gaps") {
                JsonField::List(l) => Some(l),
                _ => None,
            };
            let reply = ModelReply { level, headline, gaps };
            Ok(reply)
        },
    }
}

/// What the `Debug` formatting of an `Option<&str>` with these characters
/// writes (`None`, or `Some` and the quoted, escaped string).
pub uninterp spec fn debug_text(o: Option<Seq<char>>) -> Seq<char>;

/// `format!("{:?}", ..)` of an `Option<&str>`. Trusted: the text is
/// `debug_text` of the value, and `None` for `None`.
#[verifier::external_body]
fn debug_option(o: &Option<String>) -> (r: String)
    ensures
        r@ == debug_text(opt_view(*o)),
        o is None ==> r@ == "None"@,
{
    format!("{:?}", o.as_deref())
}

/// The level that a reply names, if it names one of the three.
pub open spec fn level_named(text: Seq<char>) -> Option<Saturation> {
    if text == "Open"@ {
        Some(Saturation::Open)
    } else if text == "Crowded"@ {
        Some(Saturation::Crowded)
    } else if text == "Saturated"@ {
        Some(Saturation::Saturated)
    } else {
        None
    }
}

/// The gaps that are shown: those that are strings and do not assert absence.
pub open spec fn kept_gaps(gaps: Seq<Option<Seq<char>>>) -> Seq<Seq<char>>
    decreases gaps.len(),
{
    if gaps.len() == 0 {
        seq![]
    } else {
        let rest = kept_gaps(gaps.drop_last());
        match gaps.last() {
            Some(g) => if asserts_absence(g) {
                rest
            } else {
                rest.push(g)
            },
            None => rest,
        }
    }
}

/// The parse error that a reply gives, if any: the JSON error, an invalid
/// level, or a missing headline, in that order.
pub open spec fn reply_error(reply: Result<ModelReplyView, Seq<char>>) -> Option<Seq<char>> {
    match reply {
        Err(m) => Some(m),
        Ok(r) => if !(r.level matches Some(t) && level_named(t) is Some) {
            Some("invalid level: "@ + debug_text(r.level))
        } else if r.headline is None {
            Some("missing 'headline'"@)
        } else {
            None
        },
    }
}

/// The verdict made from a valid reply: the level floored against the data;
/// the headline kept only when the floor left the level as the model said,
/// then guarded; the gaps that do not assert absence; the fixed caveat.
pub open spec fn verdict_of_reply(
    r: ModelReplyView,
    matches: Seq<Match>,
    sources_checked: Seq<Source>,
) -> VerdictView {
    let model_level = level_named(r.level.unwrap()).unwrap();
    let level = floored(model_level, matches);
    let candidate = if level != model_level {
        data_headline_text(level, matches)
    } else {
        r.headline.unwrap()
    };
    VerdictView {
        level,
        headline: guarded(candidate, level, matches),
        gaps: match r.gaps {
            Some(gs) => kept_gaps(gs),
            None => seq![],
        },
        sources_checked,
        caveat: CAVEAT@,
    }
}

/// What a reply gives: a parse error, or the verdict.
pub open spec fn reply_outcome_ok(
    reply: Result<ModelReplyView, Seq<char>>,
    matches: Seq<Match>,
    sources_checked: Seq<Source>,
    r: Result<Verdict, Error>,
) -> bool {
    match reply_error(reply) {
        Some(m) => r matches Err(Error::Parse(x)) && x@ == m,
        None => r matches Ok(v) && v@ == verdict_of_reply(reply->Ok_0, matches, sources_checked),
    }
}

/// Whether `s` holds exactly the characters of `lit`.
fn equals_str(s: &String, lit: &str) -> (r: bool)
    ensures
        r == (s@ == lit@),
{
    let other = String::from_str(lit);
    *s == other
}

/// The gaps of a reply that are shown.
fn keep_gaps(gaps: Vec<Option<String>>) -> (r: Vec<String>)
    ensures
        crate::text::string_views(r@) == kept_gaps(gaps@.map_values(|g: Option<String>| opt_view(g))),
{
    let ghost input = gaps@;
    let ghost views = input.map_values(|g: Option<String>| opt_view(g));
    let mut out: Vec<String> = Vec::new();
    for g in it: gaps.into_iter()
        invariant
            it.seq() == input,
            views == input.map_values(|g: Option<String>| opt_view(g)),
            crate::text::string_views(out@) == kept_gaps(views.take(it.index())),
    {
        proof {
            assert(views.take(it.index() + 1).drop_last() =~= views.take(it.index()));
        }
        match g {
            Some(text) => {
                if !contains_absence_phrase(text.as_str()) {
                    let ghost before = out@;
                    out.push(text);
                    assert(crate::text::string_views(out@) =~= crate::text::string_views(
                        before,
                    ).push(out@.last()@));
                }
            },
            None => {},
        }
    }
    assert(views.take(views.len() as int) =~= views);
    out
}

/// Turns the outcome of parsing the model's reply into a verdict, applying
/// the two integrity guards: the level is floored against the similarity
/// data, and a headline that asserts non-existence is replaced.
pub fn verdict_from_reply(
    reply: Result<ModelReply, String>,
    matches: &[Match],
    sources_checked: Vec<Source>,
) -> (r: Result<Verdict, Error>)
    ensures
        reply_outcome_ok(reply_result_view(reply), matches@, sources_checked@, r),
        r matches Ok(v) ==> {
            &&& !asserts_absence(v@.headline)
            &&& forall|i: int| 0 <= i < v@.gaps.len() ==> !asserts_absence(#[trigger] v@.gaps[i])
            &&& v@.caveat == CAVEAT@
        },
{
    let reply = match reply {
        Ok(reply) => reply,
        Err(m) => return Err(Error::Parse(m)),
    };
    let model_level = match &reply.level {
        Some(t) => {
            if equals_str(t, "Open") {
                Saturation::Open
            } else if equals_str(t, "Crowded") {
                Saturation::Crowded
            } else if equals_str(t, "Saturated") {
                Saturation::Saturated
            } else {
                let mut msg = String::from_str("invalid level: ");
                let d = debug_option(&reply.level);
                msg.append(d.as_str());
                return Err(Error::Parse(msg));
            }
        },
        None => {
            let mut msg = String::from_str("invalid level: ");
            let d = debug_option(&reply.level);
            msg.append(d.as_str());
            return Err(Error::Parse(msg));
        },
    };
    let ghost rv = reply@;
    let ModelReply { level: _, headline, gaps } = reply;
    let raw_headline = match headline {
        Some(h) => h,
        None => return Err(Error::Parse(String::from_str("missing 'headline'"))),
    };
    let kept = match gaps {
        Some(arr) => keep_gaps(arr),
        None => Vec::new(),
    };
    let level = floor_level(model_level, matches);
    let candidate = if level != model_level {
        data_headline(level, matches)
    } else {
        raw_headline
    };
    let headline = guard_headline(candidate, level, matches);
    let v = Verdict {
        level,
        headline,
        gaps: kept,
        sources_checked,
        caveat: String::from_str(CAVEAT),
    };
    assert(level_named(rv.level.unwrap()) == Some(model_level));
    assert(rv.headline == Some(raw_headline@));
    assert(v@.headline == verdict_of_reply(rv, matches@, v.sources_checked@).headline);
    assert(v@.gaps == verdict_of_reply(rv, matches@, v.sources_checked@).gaps);
    assert(v@ == verdict_of_reply(rv, matches@, v.sources_checked@));
    proof {
        law_reply_verdict_integrity(rv, matches@, v.sources_checked@);
    }
    Ok(v)
}

/// Parses the model's reply (possibly fenced JSON) into a verdict, applying
/// the integrity guards.
pub fn parse_verdict(raw: &str, matches: &[Match], sources_checked: Vec<Source>) -> (r: Result<
    Verdict,
    Error,
>)
    ensures
        reply_outcome_ok(json_reply(extract_json_text(raw@)), matches@, sources_checked@, r),
        r matches Ok(v) ==> {
            &&& !asserts_absence(v@.headline)
            &&& forall|i: int| 0 <= i < v@.gaps.len() ==> !asserts_absence(#[trigger] v@.gaps[i])
            &&& v@.caveat == CAVEAT@
        },
{
    let json = extract_json(raw);
    let reply = read_reply(json);
    verdict_from_reply(reply, matches, sources_checked)
}

/// The verdict made from the similarity data alone, without a model.
pub open spec fn data_verdict(matches: Seq<Match>, sources_checked: Seq<Source>) -> VerdictView {
    let level = data_level(matches);
    VerdictView {
        level,
        headline: data_headline_text(level, matches),
        gaps: seq![],
        sources_checked,
        caveat: CAVEAT@,
    }
}

/// Builds a verdict from the similarity data alone, without calling a model:
/// the level is the data's own, the headline the safe data headline, there
/// are no gaps, and the caveat is the fixed one.
pub fn from_data(matches: &[Match], sources_checked: Vec<Source>) -> (r: Verdict)
    ensures
        r@ == data_verdict(matches@, sources_checked@),
{
    let level = floor_level(Saturation::Open, matches);
    let headline = data_headline(level, matches);
    let v = Verdict {
        level,
        headline,
        gaps: Vec::new(),
        sources_checked,
        caveat: String::from_str(CAVEAT),
    };
    assert(crate::text::string_views(v.gaps@) =~= Seq::<Seq<char>>::empty());
    v
}

/// Flooring never lowers a level: the result is the model's level or the
/// data's, whichever is more crowded.
pub proof fn law_floor_never_lowers(model_level: Saturation, matches: Seq<Match>)
    ensures
        floored(model_level, matches).rank() >= model_level.rank(),
        floored(model_level, matches).rank() >= data_level(matches).rank(),
        floored(model_level, matches) == model_level || floored(model_level, matches)
            == data_level(matches),
{
}

/// The data never calls a space Open when at least two matches are close,
/// nor less than Saturated when five are strong.
pub proof fn law_data_level_thresholds(matches: Seq<Match>)
    ensures
        count_at_least(matches, CLOSE_SIMILARITY as int) >= 2 ==> data_level(matches)
            != Saturation::Open,
        count_at_least(matches, STRONG_SIMILARITY as int) >= 5 ==> data_level(matches)
            == Saturation::Saturated,
{
}

/// `count_at_least` counts exactly the matches whose similarity reaches the
/// threshold.
pub proof fn lemma_count_is_filter_len(s: Seq<Match>, t: int)
    ensures
        count_at_least(s, t) == s.filter(|m: Match| m.similarity >= t).len(),
    decreases s.len(),
{
    reveal(Seq::filter);
    if s.len() > 0 {
        lemma_count_is_filter_len(s.drop_last(), t);
    }
}

/// The level that the data alone gives, from the number of matches at or
/// above 0.60 (strong) and at or above 0.55 (close): Saturated exactly when
/// at least five are strong; Crowded exactly when fewer than five are strong
/// and at least two are close; Open exactly when fewer than five are strong
/// and fewer than two are close.
pub proof fn law_data_level_exact(matches: Seq<Match>)
    ensures
        ({
            let strong = matches.filter(|m: Match| m.similarity >= 6000).len();
            let close = matches.filter(|m: Match| m.similarity >= 5500).len();
            &&& data_level(matches) == Saturation::Saturated <==> strong >= 5
            &&& data_level(matches) == Saturation::Crowded <==> strong < 5 && close >= 2
            &&& data_level(matches) == Saturation::Open <==> strong < 5 && close < 2
        }),
{
    lemma_count_is_filter_len(matches, 6000);
    lemma_count_is_filter_len(matches, 5500);
}

/// The verdict from the data alone over matches with fewer than two close
/// and fewer than five strong ones is Open, with the "nothing close" headline.
pub proof fn law_data_verdict_open_below_thresholds(matches: Seq<Match>, sources: Seq<Source>)
    requires
        matches.filter(|m: Match| m.similarity >= 5500).len() < 2,
        matches.filter(|m: Match| m.similarity >= 6000).len() < 5,
    ensures
        data_verdict(matches, sources).level == Saturation::Open,
        data_verdict(matches, sources).headline
            == "Nothing close turned up in the sources checked — keep looking before committing."@,
        floored(Saturation::Open, matches) == Saturation::Open,
{
    law_data_level_exact(matches);
}

/// A headline from the data names the level and, for Crowded and Saturated,
/// the number of matches at or above 0.55.
pub proof fn law_data_headline_counts(level: Saturation, matches: Seq<Match>)
    ensures
        ({
            let close = matches.filter(|m: Match| m.similarity >= 5500).len();
            let h = data_headline_text(level, matches);
            &&& level == Saturation::Saturated ==> h == "Saturated — "@ + decimal(close)
                + " closely-related tools turned up in the sources checked."@
            &&& level == Saturation::Crowded && close == 1 ==> h == "Crowded — "@ + decimal(
                close,
            ) + " closely-related tool"@ + Seq::<char>::empty()
                + " turned up in the sources checked."@
            &&& level == Saturation::Crowded && close != 1 ==> h == "Crowded — "@ + decimal(
                close,
            ) + " closely-related tool"@ + "s"@ + " turned up in the sources checked."@
            &&& level == Saturation::Open ==> h
                == "Nothing close turned up in the sources checked — keep looking before committing."@
        }),
{
    lemma_count_is_filter_len(matches, 5500);
}

/// Flooring keeps a Saturated level, lifts an Open one to what the data
/// gives, and lifts a Crowded one only when the data gives Saturated.
pub proof fn law_floor_by_level(matches: Seq<Match>)
    ensures
        floored(Saturation::Saturated, matches) == Saturation::Saturated,
        floored(Saturation::Open, matches) == data_level(matches),
        floored(Saturation::Crowded, matches) == (if data_level(matches)
            == Saturation::Saturated {
            Saturation::Saturated
        } else {
            Saturation::Crowded
        }),
{
}

/// The sum of similarities adds up over concatenation, and a single match
/// contributes its own similarity.
pub proof fn law_sim_sum_additive(a: Seq<Match>, b: Seq<Match>)
    ensures
        sim_sum(a + b) == sim_sum(a) + sim_sum(b),
        b.len() == 1 ==> sim_sum(b) == b[0].similarity,
    decreases b.len(),
{
    if b.len() > 0 {
        law_sim_sum_additive(a, b.drop_last());
        assert((a + b).drop_last() =~= a + b.drop_last());
    }
    if b.len() == 1 {
        assert(b.drop_last() =~= Seq::<Match>::empty());
    }
}

/// The part of the prompt that lists non-empty matches: the average is that
/// of the first `min(10, n)` matches, and the lines are those of the first
/// `min(15, n)`, followed by how many more there are.
pub proof fn law_matches_section_layout(matches: Seq<Match>)
    requires
        matches.len() > 0,
    ensures
        ({
            let n = matches.len() as int;
            let k10 = if n < 10 { n } else { 10 };
            let k15 = if n < 15 { n } else { 15 };
            matches_section(matches) == "## Matches found (ranked by cosine similarity to the idea)\n"@
                + "Top-10 average similarity: "@ + two_decimals(round_div(sim_sum(matches.take(k10)), 100 * k10))
                + " (scale: 0.0 = unrelated, 0.5 = tangential, 0.7+ = strong match)\n\n"@
                + match_lines(matches.take(k15)) + (if n > 15 {
                "- … and "@ + decimal((n - 15) as nat) + " more with lower similarity\n"@
            } else {
                Seq::<char>::empty()
            }) + "\n"@
        }),
{
    let n = matches.len() as int;
    let k10 = if n < 10 { n } else { 10 };
    let k15 = if n < 15 { n } else { 15 };
    assert(first_n(matches, 10) =~= matches.take(k10));
    assert(first_n(matches, 15) =~= matches.take(k15));
}

/// No gap that is kept asserts absence.
pub proof fn lemma_kept_gaps_scoped(gaps: Seq<Option<Seq<char>>>)
    ensures
        forall|i: int|
            0 <= i < kept_gaps(gaps).len() ==> !asserts_absence(#[trigger] kept_gaps(gaps)[i]),
    decreases gaps.len(),
{
    if gaps.len() > 0 {
        lemma_kept_gaps_scoped(gaps.drop_last());
        let rest = kept_gaps(gaps.drop_last());
        let all = kept_gaps(gaps);
        assert forall|i: int| 0 <= i < all.len() implies !asserts_absence(#[trigger] all[i]) by {
            if i < rest.len() {
                assert(all[i] == rest[i]);
            }
        }
    }
}

/// The integrity rule on every verdict made from a model reply: the caveat is
/// the fixed one, the sources are those checked, the level is never below
/// what the data supports, and neither the headline nor any gap asserts
/// absence.
pub proof fn law_reply_verdict_integrity(
    r: ModelReplyView,
    matches: Seq<Match>,
    sources_checked: Seq<Source>,
)
    requires
        reply_error(Ok(r)) is None,
    ensures
        verdict_of_reply(r, matches, sources_checked).caveat == CAVEAT@,
        verdict_of_reply(r, matches, sources_checked).sources_checked == sources_checked,
        verdict_of_reply(r, matches, sources_checked).level.rank() >= data_level(matches).rank(),
        forall|i: int|
            0 <= i < verdict_of_reply(r, matches, sources_checked).gaps.len()
                ==> !asserts_absence(
                #[trigger] verdict_of_reply(r, matches, sources_checked).gaps[i],
            ),
        !asserts_absence(verdict_of_reply(r, matches, sources_checked).headline),
{
    law_data_headline_scoped(floored(level_named(r.level.unwrap()).unwrap(), matches), matches);
    match r.gaps {
        Some(gs) => lemma_kept_gaps_scoped(gs),
        None => {},
    }
}

/// A verdict from the data alone carries the data's level, a headline that
/// asserts no absence, no gaps and the fixed caveat; it is never Open when at
/// least two matches are close.
pub proof fn law_data_verdict(matches: Seq<Match>, sources_checked: Seq<Source>)
    ensures
        data_verdict(matches, sources_checked).level == data_level(matches),
        data_verdict(matches, sources_checked).caveat == CAVEAT@,
        !asserts_absence(data_verdict(matches, sources_checked).headline),
        data_verdict(matches, sources_checked).gaps.len() == 0,
        count_at_least(matches, CLOSE_SIMILARITY as int) >= 2 ==> data_verdict(
            matches,
            sources_checked,
        ).level != Saturation::Open,
{
    law_data_headline_scoped(data_level(matches), matches);
}

/// The prompt always holds the idea, verbatim.
pub proof fn law_prompt_holds_idea(idea: Seq<char>, matches: Seq<Match>, sources: Seq<Source>)
    ensures
        contains_seq(prompt_text(idea, matches, sources), idea),
{
    let head = "You are a prior-art analyst for SOFTWARE DEVELOPER TOOLS ONLY. The user has an idea for a dev tool and we searched these open-source sources for existing implementations: "@
        + source_list_text(sources) + ".\n\n"@ + "## Idea\n"@;
    let tail = "\n\n"@ + matches_section(matches) + rules_text() + levels_text() + output_text();
    let p = prompt_text(idea, matches, sources);
    assert(p =~= head + idea + tail);
    assert(p.subrange(head.len() as int, (head.len() + idea.len()) as int) =~= idea);
    assert(occurs_at(p, idea, head.len() as int));
}

/// A reply without a code fence is taken whole, trimmed.
pub proof fn law_unfenced_reply_is_trimmed(raw: Seq<char>)
    requires
        !contains_seq(trim(raw), fence()),
    ensures
        extract_json_text(raw) == trim(raw),
{
}

/// Extracting the JSON text twice gives what extracting it once gave: the
/// extracted text holds no fence and no surrounding whitespace, or it is
/// already the whole trimmed reply.
pub proof fn law_extract_json_idempotent(raw: Seq<char>)
    ensures
        extract_json_text(extract_json_text(raw)) == extract_json_text(raw),
{
    let t = trim(raw);
    lemma_trim_piece(raw);
    reveal_strlit("```");
    if contains_seq(t, fence()) {
        let p = choose|p: int| is_first_occurrence(t, fence(), p);
        let content = trim_start(strip_json_tag(t.skip(p + 3)));
        if contains_seq(content, fence()) {
            let i = choose|i: int| occurs_at(content, fence(), i);
            lemma_first_occurrence_exists(content, fence(), i);
            let e = choose|e: int| is_first_occurrence(content, fence(), e);
            let head = content.take(e);
            lemma_absent_before_first(content, fence(), e);
            let ab = lemma_trim_piece(head);
            lemma_absent_from_piece(head, fence(), ab.0, ab.1);
        }
    }
}

} // verus!
