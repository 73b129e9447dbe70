//! What the plugin commands report at the end of a run.
use vstd::prelude::*;

verus! {

/// How a part of a summary is shown.
#[derive(Debug, Clone, Copy, PartialEq, Eq, Structural)]
pub enum Tone {
    Good,
    Plain,
    Warning,
    Bad,
}

/// One count of a summary, with its label.
#[derive(Debug, Clone)]
pub struct SummaryPart {
    pub count: usize,
    pub label: &'static str,
    pub tone: Tone,
}

/// The parts of a summary: each count that is not zero, with its label and
/// tone, in the order given.
pub open spec fn nonzero_parts(counts: Seq<(usize, Seq<char>, Tone)>) -> Seq<(usize, Seq<char>, Tone)>
    decreases counts.len(),
{
    if counts.len() == 0 {
        seq![]
    } else if counts.last().0 > 0 {
        nonzero_parts(counts.drop_last()).push(counts.last())
    } else {
        nonzero_parts(counts.drop_last())
    }
}

pub open spec fn parts_view(parts: Seq<SummaryPart>) -> Seq<(usize, Seq<char>, Tone)> {
    parts.map_values(|p: SummaryPart| (p.count, p.label@, p.tone))
}

fn push_part(parts: &mut Vec<SummaryPart>, count: usize, label: &'static str, tone: Tone)
    ensures
        parts_view(final(parts)@) == if count > 0 {
            parts_view(old(parts)@).push((count, label@, tone))
        } else {
            parts_view(old(parts)@)
        },
{
    if count > 0 {
        let ghost before = parts@;
        parts.push(SummaryPart { count, label, tone });
        assert(parts_view(parts@) =~= parts_view(before).push((count, label@, tone)));
    }
}

/// The parts of the summary of an upgrade run.
pub fn summary_parts(upgraded: usize, up_to_date: usize, skipped: usize, failed: usize) -> (r: Vec<
    SummaryPart,
>)
    ensures
        parts_view(r@) == nonzero_parts(
            seq![
                (upgraded, "upgraded"@, Tone::Good),
                (up_to_date, "up to date"@, Tone::Plain),
                (skipped, "skipped"@, Tone::Warning),
                (failed, "failed"@, Tone::Bad),
            ],
        ),
{
    let mut parts: Vec<SummaryPart> = Vec::new();
    push_part(&mut parts, upgraded, "upgraded", Tone::Good);
    push_part(&mut parts, up_to_date, "up to date", Tone::Plain);
    push_part(&mut parts, skipped, "skipped", Tone::Warning);
    push_part(&mut parts, failed, "failed", Tone::Bad);
    proof {
        reveal_with_fuel(nonzero_parts, 5);
        let c = seq![
            (upgraded, "upgraded"@, Tone::Good),
            (up_to_date, "up to date"@, Tone::Plain),
            (skipped, "skipped"@, Tone::Warning),
            (failed, "failed"@, Tone::Bad),
        ];
        assert(c.drop_last().drop_last().drop_last().drop_last() =~= Seq::<(usize, Seq<char>, Tone)>::empty());
        assert(c.drop_last().drop_last().drop_last() =~= seq![(upgraded, "upgraded"@, Tone::Good)]);
        assert(c.drop_last().drop_last() =~= seq![(upgraded, "upgraded"@, Tone::Good), (up_to_date, "up to date"@, Tone::Plain)]);
        assert(c.drop_last() =~= seq![
            (upgraded, "upgraded"@, Tone::Good),
            (up_to_date, "up to date"@, Tone::Plain),
            (skipped, "skipped"@, Tone::Warning),
        ]);
    }
    parts
}

/// The parts of the summary of an install run.
pub fn install_summary_parts(installed: usize, existing: usize, failed: usize) -> (r: Vec<SummaryPart>)
    ensures
        parts_view(r@) == nonzero_parts(
            seq![
                (installed, "installed"@, Tone::Good),
                (existing, "already installed"@, Tone::Plain),
                (failed, "failed"@, Tone::Bad),
            ],
        ),
{
    let mut parts: Vec<SummaryPart> = Vec::new();
    push_part(&mut parts, installed, "installed", Tone::Good);
    push_part(&mut parts, existing, "already installed", Tone::Plain);
    push_part(&mut parts, failed, "failed", Tone::Bad);
    proof {
        reveal_with_fuel(nonzero_parts, 4);
        let c = seq![
            (installed, "installed"@, Tone::Good),
            (existing, "already installed"@, Tone::Plain),
            (failed, "failed"@, Tone::Bad),
        ];
        assert(c.drop_last().drop_last().drop_last() =~= Seq::<(usize, Seq<char>, Tone)>::empty());
        assert(c.drop_last().drop_last() =~= seq![(installed, "installed"@, Tone::Good)]);
        assert(c.drop_last() =~= seq![(installed, "installed"@, Tone::Good), (existing, "already installed"@, Tone::Plain)]);
    }
    parts
}

} // verus!
