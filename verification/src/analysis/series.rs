//! What all three charts share: the axis of team labels, and bars as plain
//! values.

use vstd::prelude::*;
use crate::analysis::label::{decimal, team_label};
use crate::ratio::Ratio;

verus! {

/// A bar of a grouped chart as plain values: team label, height, category.
pub type BarView = (Seq<char>, Ratio, Seq<char>);

/// The text of each label.
pub open spec fn texts(labels: Seq<String>) -> Seq<Seq<char>> {
    labels.map_values(|label: String| label@)
}

/// The plain values of each bar.
pub open spec fn bars_view(bars: Seq<(String, Ratio, String)>) -> Seq<BarView> {
    bars.map_values(|bar: (String, Ratio, String)| (bar.0@, bar.1, bar.2@))
}

/// The labels of the teams of a ranking, in its order.
pub open spec fn labels_of<A>(ranked: Seq<(i32, A)>) -> Seq<Seq<char>> {
    ranked.map_values(|entry: (i32, A)| decimal(entry.0 as int))
}

/// Appending a bar appends its plain values.
pub proof fn lemma_bars_view_push(bars: Seq<(String, Ratio, String)>, bar: (String, Ratio, String))
    ensures
        bars_view(bars.push(bar)) == bars_view(bars).push((bar.0@, bar.1, bar.2@)),
{
    assert(bars_view(bars.push(bar)) =~= bars_view(bars).push((bar.0@, bar.1, bar.2@)));
}

/// The horizontal axis: the label of each ranked team, in ranked order.
pub fn team_labels<A>(ranked: &Vec<(i32, A)>) -> (labels: Vec<String>)
    ensures
        texts(labels@) == labels_of(ranked@),
{
    let mut labels: Vec<String> = Vec::new();
    let mut i: usize = 0;
    while i < ranked.len()
        invariant
            i <= ranked.len(),
            texts(labels@) == labels_of(ranked@.take(i as int)),
        decreases ranked.len() - i,
    {
        let label = team_label(ranked[i].0);
        proof {
            assert(texts(labels@.push(label)) =~= texts(labels@).push(label@));
            assert(ranked@.take(i + 1) == ranked@.take(i as int).push(ranked@[i as int]));
            assert(labels_of(ranked@.take(i + 1)) =~= labels_of(ranked@.take(i as int)).push(
                decimal(ranked@[i as int].0 as int),
            ));
        }
        labels.push(label);
        i += 1;
    }
    assert(ranked@.take(i as int) == ranked@);
    labels
}

} // verus!
