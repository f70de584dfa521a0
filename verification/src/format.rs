//! Rendering splits and record boards as text. Pure functions: each one's
//! output is pinned, character for character, by a spec function over the
//! split's fields.

use vstd::prelude::*;
use vstd::slice::slice_index_get;
use vstd::string::StringExecFns;

use crate::decimal::{dec_digits, fmt_u64};
use crate::models::Split;
use crate::validation::{duration_text, DurationValidator};

verus! {

/// The direction a split went, as prose.
pub open spec fn direction_text(is_down: bool) -> Seq<char> {
    if is_down {
        "down"@
    } else {
        "up"@
    }
}

/// The transport a split used, as prose.
pub open spec fn method_text(is_elevator: bool) -> Seq<char> {
    if is_elevator {
        "elevator"@
    } else {
        "stairs"@
    }
}

/// The encumbrance clause of a split: always empty for elevator splits.
pub open spec fn encumbrance_text(sp: Split) -> Seq<char> {
    if sp.is_elevator {
        Seq::<char>::empty()
    } else {
        match sp.is_encumbered {
            Some(true) => " while encumbered"@,
            Some(false) => " with nothing"@,
            None => Seq::<char>::empty(),
        }
    }
}

/// The sentence a split is announced with.
pub open spec fn split_phrase(sp: Split) -> Seq<char> {
    sp.user@ + " went "@ + direction_text(sp.is_down) + " the "@ + method_text(sp.is_elevator)
        + encumbrance_text(sp) + " in "@ + duration_text(sp.duration_ms as int)
}

/// The line a split takes in the full listing.
pub open spec fn split_entry_line(sp: Split) -> Seq<char> {
    "Entry "@ + dec_digits(sp.id as nat) + ": "@ + split_phrase(sp) + " on "@ + dec_digits(
        sp.created_at as nat,
    )
}

/// The full listing: one line per split, joined with newlines.
pub open spec fn splits_text(s: Seq<Split>) -> Seq<char>
    decreases s.len(),
{
    if s.len() == 0 {
        Seq::<char>::empty()
    } else if s.len() == 1 {
        split_entry_line(s[0])
    } else {
        splits_text(s.drop_last()) + "\n"@ + split_entry_line(s.last())
    }
}

/// The category label a board shows for a split.
pub open spec fn category_label(sp: Split) -> Seq<char> {
    let direction: Seq<char> = if sp.is_down {
        "Down"@
    } else {
        "Up"@
    };
    if sp.is_elevator {
        direction + " Elevator"@
    } else {
        let encumbered: Seq<char> = match sp.is_encumbered {
            Some(true) => " (Encumbered)"@,
            Some(false) => " (No Items)"@,
            None => Seq::<char>::empty(),
        };
        direction + " Stairs"@ + encumbered
    }
}

/// The line a split takes on a records board, newline included.
pub open spec fn board_line(sp: Split) -> Seq<char> {
    "**"@ + category_label(sp) + "**: "@ + sp.user@ + " - "@ + duration_text(sp.duration_ms as int)
        + " ("@ + dec_digits(sp.created_at as nat) + ")\n"@
}

/// The board's split lines, concatenated in the order given.
pub open spec fn board_lines(s: Seq<Split>) -> Seq<char>
    decreases s.len(),
{
    if s.len() == 0 {
        Seq::<char>::empty()
    } else {
        board_lines(s.drop_last()) + board_line(s.last())
    }
}

/// A whole records board: a note when there is nothing to show, else a
/// header line followed by one line per split.
pub open spec fn board_text(title: Seq<char>, s: Seq<Split>) -> Seq<char> {
    if s.len() == 0 {
        "No "@ + title + " found."@
    } else {
        "**"@ + title + " Board:**\n"@ + board_lines(s)
    }
}

/// Renders one split as a sentence, with a broadcast banner and a
/// celebration when it holds a record.
pub fn format_single_split(split: &Split, is_wr: bool) -> (r: String)
    requires
        split.duration_ms >= 0,
    ensures
        r@ == if is_wr {
            "@here NEW WR! "@ + split_phrase(*split) + " 🎉"@
        } else {
            split_phrase(*split)
        },
{
    let content = split_sentence(split);
    if is_wr {
        let mut s = "@here NEW WR! ".to_owned();
        s.append(content.as_str());
        s.append(" 🎉");
        s
    } else {
        content
    }
}

/// Renders the announcement sentence of a split.
fn split_sentence(split: &Split) -> (r: String)
    requires
        split.duration_ms >= 0,
    ensures
        r@ == split_phrase(*split),
{
    let mut s = split.user.clone();
    s.append(" went ");
    s.append(if split.is_down { "down" } else { "up" });
    s.append(" the ");
    s.append(if split.is_elevator { "elevator" } else { "stairs" });
    if !split.is_elevator {
        match split.is_encumbered {
            Some(true) => s.append(" while encumbered"),
            Some(false) => s.append(" with nothing"),
            None => (),
        }
    }
    s.append(" in ");
    let duration = DurationValidator::format_duration(split.duration_ms);
    s.append(duration.as_str());
    s
}

/// Renders the full listing of splits, one line each, newest first when
/// the caller passes them that way.
pub fn format_splits(splits: &[Split]) -> (r: String)
    requires
        forall|i: int| 0 <= i < splits@.len() ==> (#[trigger] splits@[i]).duration_ms >= 0,
    ensures
        r@ == splits_text(splits@),
{
    let n = splits.len();
    let mut s = String::new();
    let mut i: usize = 0;
    proof {
        assert(splits@.subrange(0, 0) =~= Seq::<Split>::empty());
    }
    while i < n
        invariant
            n == splits@.len(),
            i <= n,
            forall|j: int| 0 <= j < splits@.len() ==> (#[trigger] splits@[j]).duration_ms >= 0,
            s@ == splits_text(splits@.subrange(0, i as int)),
        decreases n - i,
    {
        if i > 0 {
            s.append("\n");
        }
        let entry = split_entry(slice_index_get(splits, i));
        s.append(entry.as_str());
        proof {
            let prefix = splits@.subrange(0, i as int);
            let extended = splits@.subrange(0, i as int + 1);
            assert(extended.drop_last() =~= prefix);
            assert(extended.last() == splits@[i as int]);
        }
        i = i + 1;
    }
    proof {
        assert(splits@.subrange(0, n as int) =~= splits@);
    }
    s
}

/// Renders the line a split takes in the full listing.
fn split_entry(split: &Split) -> (r: String)
    requires
        split.duration_ms >= 0,
    ensures
        r@ == split_entry_line(*split),
{
    let mut s = "Entry ".to_owned();
    let id = fmt_u64(split.id);
    s.append(id.as_str());
    s.append(": ");
    let phrase = split_sentence(split);
    s.append(phrase.as_str());
    s.append(" on ");
    let stamp = fmt_u64(split.created_at);
    s.append(stamp.as_str());
    s
}

/// Renders a records board with the given title: a note when there is
/// nothing to show, else a header and one line per split, in the order
/// given.
pub fn format_world_records(title: &str, records: &[Split]) -> (r: String)
    requires
        forall|i: int| 0 <= i < records@.len() ==> (#[trigger] records@[i]).duration_ms >= 0,
    ensures
        r@ == board_text(title@, records@),
{
    let n = records.len();
    if n == 0 {
        let mut s = "No ".to_owned();
        s.append(title);
        s.append(" found.");
        return s;
    }
    let mut s = "**".to_owned();
    s.append(title);
    s.append(" Board:**\n");
    let mut i: usize = 0;
    proof {
        assert(records@.subrange(0, 0) =~= Seq::<Split>::empty());
    }
    while i < n
        invariant
            n == records@.len(),
            i <= n,
            forall|j: int| 0 <= j < records@.len() ==> (#[trigger] records@[j]).duration_ms >= 0,
            s@ == "**"@ + title@ + " Board:**\n"@ + board_lines(records@.subrange(0, i as int)),
        decreases n - i,
    {
        let line = board_entry(slice_index_get(records, i));
        s.append(line.as_str());
        proof {
            let prefix = records@.subrange(0, i as int);
            let extended = records@.subrange(0, i as int + 1);
            assert(extended.drop_last() =~= prefix);
            assert(extended.last() == records@[i as int]);
        }
        i = i + 1;
    }
    proof {
        assert(records@.subrange(0, n as int) =~= records@);
    }
    s
}

/// Renders the line a split takes on a records board.
fn board_entry(split: &Split) -> (r: String)
    requires
        split.duration_ms >= 0,
    ensures
        r@ == board_line(*split),
{
    let mut s = "**".to_owned();
    s.append(if split.is_down { "Down" } else { "Up" });
    if split.is_elevator {
        s.append(" Elevator");
    } else {
        s.append(" Stairs");
        match split.is_encumbered {
            Some(true) => s.append(" (Encumbered)"),
            Some(false) => s.append(" (No Items)"),
            None => (),
        }
    }
    s.append("**: ");
    s.append(split.user.as_str());
    s.append(" - ");
    let duration = DurationValidator::format_duration(split.duration_ms);
    s.append(duration.as_str());
    s.append(" (");
    let stamp = fmt_u64(split.created_at);
    s.append(stamp.as_str());
    s.append(")\n");
    s
}

} // verus!
