//! The shortcut record: header check and the scan of its fields that
//! decides whether an icon is to be recovered, and for which identifier.

use vstd::prelude::*;
use crate::extractors::{extract_game_id, game_id_of};
use crate::text::{field_of, split_field, trim, trimmed};

verus! {

/// The header that the first line of a shortcut record must hold.
pub open spec fn header() -> Seq<char> {
    seq!['[', 'D', 'e', 's', 'k', 't', 'o', 'p', ' ', 'E', 'n', 't', 'r', 'y', ']']
}

/// The key of the launcher-invocation field.
pub open spec fn exec_key() -> Seq<char> {
    seq!['E', 'x', 'e', 'c']
}

/// The key of the icon-reference field.
pub open spec fn icon_key() -> Seq<char> {
    seq!['I', 'c', 'o', 'n']
}

/// The icon reference that stands for "no icon of its own".
pub open spec fn default_icon() -> Seq<char> {
    seq!['s', 't', 'e', 'a', 'm']
}

/// The decision on a record, over its characters.
pub enum Verdict {
    Rejected,
    NoIdentifier,
    IconPresent,
    Found(Seq<char>),
}

/// The decision on a shortcut record.
#[derive(Debug, PartialEq, Eq)]
pub enum RecordOutcome {
    /// The record is empty or its first line is not the header.
    Rejected,
    /// No launcher identifier was found.
    NoIdentifier,
    /// The record already names an icon of its own.
    IconPresent,
    /// An icon is to be recovered for this launcher identifier.
    Found(String),
}

impl View for RecordOutcome {
    type V = Verdict;

    open spec fn view(&self) -> Verdict {
        match self {
            RecordOutcome::Rejected => Verdict::Rejected,
            RecordOutcome::NoIdentifier => Verdict::NoIdentifier,
            RecordOutcome::IconPresent => Verdict::IconPresent,
            RecordOutcome::Found(id) => Verdict::Found(id@),
        }
    }
}

/// The lines of a record as character sequences.
pub open spec fn lines_view(lines: Seq<String>) -> Seq<Seq<char>> {
    lines.map_values(|l: String| l@)
}

/// The decision from line `i` on, where `id` is the identifier found so far
/// and `icon_seen` tells whether an icon field came already. The first field
/// of each key decides; later ones are passed over.
pub open spec fn scan_fields(
    lines: Seq<Seq<char>>,
    i: int,
    id: Option<Seq<char>>,
    icon_seen: bool,
) -> Verdict
    decreases lines.len() - i,
{
    if i < 0 || i >= lines.len() {
        match id {
            Some(g) => Verdict::Found(g),
            None => Verdict::NoIdentifier,
        }
    } else {
        match field_of(lines[i]) {
            None => scan_fields(lines, i + 1, id, icon_seen),
            Some((k, v)) => {
                if k == exec_key() && id is None {
                    match game_id_of(v) {
                        Some(g) => scan_fields(lines, i + 1, Some(g), icon_seen),
                        None => Verdict::NoIdentifier,
                    }
                } else if k == icon_key() && !icon_seen {
                    if v != default_icon() {
                        Verdict::IconPresent
                    } else {
                        scan_fields(lines, i + 1, id, true)
                    }
                } else {
                    scan_fields(lines, i + 1, id, icon_seen)
                }
            },
        }
    }
}

/// Whether a line is the record header, surrounding whitespace aside.
pub open spec fn is_header(line: Seq<char>) -> bool {
    trimmed(line) == header()
}

/// The decision on a record given as its lines.
pub open spec fn verdict_of(lines: Seq<Seq<char>>) -> Verdict {
    if lines.len() == 0 || !is_header(lines[0]) {
        Verdict::Rejected
    } else {
        scan_fields(lines, 1, None, false)
    }
}

/// The identifier as characters.
pub open spec fn id_view(id: Option<String>) -> Option<Seq<char>> {
    match id {
        Some(s) => Some(s@),
        None => None,
    }
}

fn equals_literal(s: &String, lit: &str) -> (r: bool)
    ensures
        r == (s@ == lit@),
{
    let l = lit.to_string();
    *s == l
}

/// Decides on a shortcut record given as its lines: whether it is to be
/// rejected, has no identifier, already names an icon, or has an icon to be
/// recovered for the identifier found.
pub fn scan_record(lines: &Vec<String>) -> (r: RecordOutcome)
    ensures
        r@ == verdict_of(lines_view(lines@)),
{
    let ghost ls = lines_view(lines@);
    if lines.len() == 0 {
        return RecordOutcome::Rejected;
    }
    let first = trim(lines[0].as_str());
    proof {
        reveal_strlit("[Desktop Entry]");
        reveal_strlit("Exec");
        reveal_strlit("Icon");
        reveal_strlit("steam");
        assert("[Desktop Entry]"@ =~= header());
        assert("Exec"@ =~= exec_key());
        assert("Icon"@ =~= icon_key());
        assert("steam"@ =~= default_icon());
        assert(ls[0] == lines@[0]@);
    }
    if !equals_literal(&first, "[Desktop Entry]") {
        return RecordOutcome::Rejected;
    }
    let mut id: Option<String> = None;
    let mut icon_seen = false;
    let mut i: usize = 1;
    while i < lines.len()
        invariant
            ls == lines_view(lines@),
            1 <= i <= lines.len(),
            verdict_of(ls) == scan_fields(ls, i as int, id_view(id), icon_seen),
            "Exec"@ == exec_key(),
            "Icon"@ == icon_key(),
            "steam"@ == default_icon(),
        decreases lines.len() - i,
    {
        assert(ls[i as int] == lines@[i as int]@);
        match split_field(lines[i].as_str()) {
            None => {},
            Some((key, value)) => {
                if id.is_none() && equals_literal(&key, "Exec") {
                    match extract_game_id(value.as_str()) {
                        Some(g) => {
                            id = Some(g);
                        },
                        None => {
                            return RecordOutcome::NoIdentifier;
                        },
                    }
                } else if !icon_seen && equals_literal(&key, "Icon") {
                    if !equals_literal(&value, "steam") {
                        return RecordOutcome::IconPresent;
                    }
                    icon_seen = true;
                }
            },
        }
        i = i + 1;
    }
    match id {
        Some(g) => RecordOutcome::Found(g),
        None => RecordOutcome::NoIdentifier,
    }
}

/// Whether a line is an icon field.
pub open spec fn is_icon_field(line: Seq<char>) -> bool {
    match field_of(line) {
        Some((k, _)) => k == icon_key(),
        None => false,
    }
}

/// Whether a line is an icon field that names another icon than the default.
pub open spec fn names_own_icon(line: Seq<char>) -> bool {
    match field_of(line) {
        Some((k, v)) => k == icon_key() && v != default_icon(),
        None => false,
    }
}

/// A record that is empty, or whose first line is not the header once
/// trimmed, is rejected whole, whatever its other lines hold.
pub proof fn lemma_headerless_rejected(lines: Seq<Seq<char>>)
    requires
        lines.len() == 0 || trimmed(lines[0]) != header(),
    ensures
        verdict_of(lines) == Verdict::Rejected,
{
}

/// The first icon field of a record names another icon than the default one:
/// the record never reaches the stage that fetches an icon, wherever the
/// launcher field stands.
pub proof fn lemma_own_icon_never_fetched(lines: Seq<Seq<char>>, j: int)
    requires
        1 <= j < lines.len(),
        names_own_icon(lines[j]),
        forall|i: int| 1 <= i < j ==> !#[trigger] is_icon_field(lines[i]),
    ensures
        !(verdict_of(lines) is Found),
{
    if lines.len() > 0 && is_header(lines[0]) {
        lemma_scan_stops_at_icon(lines, 1, j, None);
    }
}

proof fn lemma_scan_stops_at_icon(lines: Seq<Seq<char>>, i: int, j: int, id: Option<Seq<char>>)
    requires
        1 <= i <= j < lines.len(),
        names_own_icon(lines[j]),
        forall|m: int| 1 <= m < j ==> !#[trigger] is_icon_field(lines[m]),
    ensures
        !(scan_fields(lines, i, id, false) is Found),
    decreases j - i,
{
    assert(exec_key()[0] != icon_key()[0]);
    if i < j {
        assert(!is_icon_field(lines[i]));
        let next = match field_of(lines[i]) {
            Some((k, v)) => if k == exec_key() && id is None {
                game_id_of(v)
            } else {
                id
            },
            None => id,
        };
        lemma_scan_stops_at_icon(lines, i + 1, j, next);
    }
}

} // verus!
