//! The thoughts a new workspace is seeded with, and what seeding writes.
use vstd::prelude::*;

use crate::ids::{is_uuid_text, new_seed_thought_id, seed_thought_id_text, standalone_rel_path, without_hyphens};

verus! {

/// The file whose presence says the workspace was already seeded.
pub const SEED_MARKER: &'static str = ".knowforge/onboarding_seeded";

/// What the marker file holds.
pub const SEED_MARKER_TEXT: &'static str = "seeded";

/// The status of a seeded thought.
pub const SEED_STATUS: &'static str = "seedling";

pub const SEED_BODY_FEYNMAN: &'static str = "费曼学习法的核心不是「简化」——是「发现你无法简化的地方」。当你无法用简单语言解释一个概念时，说明你的理解有漏洞。\n\nThe core of the Feynman technique isn't 'simplifying' — it's 'discovering what you can't simplify.' When you can't explain a concept in plain language, it reveals gaps in your understanding.";

pub const SEED_SUMMARY_FEYNMAN: &'static str = "Feynman technique: expose understanding gaps";

pub const SEED_BODY_SPACING: &'static str = "间隔效应说明大脑在「快要忘记」的时刻复习效果最好。这解释了为什么考前突击虽然能通过考试，但两周后什么都不记得。\n\nThe spacing effect shows that the brain learns best when reviewing at the moment of near-forgetting. This explains why cramming might pass the test, but leaves nothing two weeks later.";

pub const SEED_SUMMARY_SPACING: &'static str = "Spaced repetition and the forgetting curve";

pub const SEED_BODY_HICK: &'static str = "少即是多不是美学口号——它是认知负载理论的应用。每增加一个选项，用户做决定的时间指数增长（Hick's Law）。\n\nLess is more isn't an aesthetic slogan — it's applied cognitive load theory. Each additional option increases decision time exponentially (Hick's Law).";

pub const SEED_SUMMARY_HICK: &'static str = "Hick's Law and cognitive load";

/// One thought to seed: where it is stored, its text and its summary.
pub struct SeedThought {
    pub thought_id: String,
    pub rel_path: String,
    pub body: &'static str,
    pub summary: &'static str,
}

/// The seed texts in order: (body, summary).
pub open spec fn seed_texts() -> Seq<(Seq<char>, Seq<char>)> {
    seq![
        (SEED_BODY_FEYNMAN@, SEED_SUMMARY_FEYNMAN@),
        (SEED_BODY_SPACING@, SEED_SUMMARY_SPACING@),
        (SEED_BODY_HICK@, SEED_SUMMARY_HICK@),
    ]
}

/// A seeded thought with the `i`-th seed text, a fresh id of the
/// `thought-<uuid>` form and its standalone path.
pub open spec fn is_seed_thought(t: SeedThought, i: int) -> bool {
    &&& t.body@ == seed_texts()[i].0
    &&& t.summary@ == seed_texts()[i].1
    &&& (exists|u: Seq<char>| is_uuid_text(u, '4') && t.thought_id@ == seed_thought_id_text(without_hyphens(u)))
    &&& t.rel_path@ == ".knowforge/standalone/"@ + t.thought_id@
}

fn seed_thought(body: &'static str, summary: &'static str) -> (r: SeedThought)
    ensures
        r.body == body,
        r.summary == summary,
        exists|u: Seq<char>| is_uuid_text(u, '4') && r.thought_id@ == seed_thought_id_text(without_hyphens(u)),
        r.rel_path@ == ".knowforge/standalone/"@ + r.thought_id@,
{
    let thought_id = new_seed_thought_id();
    let rel_path = standalone_rel_path(thought_id.as_str());
    SeedThought { thought_id, rel_path, body, summary }
}

/// The thoughts to seed a new workspace with, each with a fresh id.
pub fn seed_plan() -> (r: Vec<SeedThought>)
    ensures
        r@.len() == 3,
        forall|i: int| 0 <= i < 3 ==> is_seed_thought(#[trigger] r@[i], i),
{
    let mut r: Vec<SeedThought> = Vec::new();
    r.push(seed_thought(SEED_BODY_FEYNMAN, SEED_SUMMARY_FEYNMAN));
    r.push(seed_thought(SEED_BODY_SPACING, SEED_SUMMARY_SPACING));
    r.push(seed_thought(SEED_BODY_HICK, SEED_SUMMARY_HICK));
    proof {
        assert(is_seed_thought(r@[0], 0));
        assert(is_seed_thought(r@[1], 1));
        assert(is_seed_thought(r@[2], 2));
    }
    r
}

} // verus!
