//! Scanning telegram text for tagged numeric fields.
//!
//! A tagged field has the shape `1-0:code(value*unit)`: after the fixed tag
//! `1-0:`, the code, value and unit are the shortest non-empty stretches
//! bounded by `(`, `*` and `)`, none of which may itself contain one of
//! those three delimiter characters. Matches are found left to right and do
//! not overlap; text that matches nowhere yields an empty sequence.

use vstd::prelude::*;

use crate::record::EnergyRecord;
use crate::record::RecordView;

verus! {

/// The three characters that bound the pieces of a tagged field.
pub open spec fn is_delim(c: char) -> bool {
    c == '(' || c == ')' || c == '*'
}

/// Whether the fixed tag `1-0:` stands at position `i`.
pub open spec fn tag_at(s: Seq<char>, i: int) -> bool {
    &&& 0 <= i
    &&& i + 4 <= s.len()
    &&& s[i] == '1'
    &&& s[i + 1] == '-'
    &&& s[i + 2] == '0'
    &&& s[i + 3] == ':'
}

/// Index of the first `stop` character at or after `from`, provided no
/// other delimiter stands in between; nothing otherwise.
pub open spec fn seek(s: Seq<char>, from: int, stop: char) -> Option<int>
    decreases s.len() - from,
{
    if from >= s.len() {
        None
    } else if s[from] == stop {
        Some(from)
    } else if is_delim(s[from]) {
        None
    } else {
        seek(s, from + 1, stop)
    }
}

proof fn lemma_seek_bounds(s: Seq<char>, from: int, stop: char)
    ensures
        seek(s, from, stop) matches Some(j) ==> from <= j < s.len(),
    decreases s.len() - from,
{
    if from < s.len() && s[from] != stop && !is_delim(s[from]) {
        lemma_seek_bounds(s, from + 1, stop);
    }
}

/// The tagged field starting exactly at position `i`, with the position
/// just past its closing parenthesis; nothing when no field starts there.
pub open spec fn match_at(s: Seq<char>, i: int) -> Option<(RecordView, int)> {
    if !tag_at(s, i) {
        None
    } else {
        let c0 = i + 4;
        match seek(s, c0, '(') {
            None => None,
            Some(j) => if j == c0 {
                None
            } else {
                match seek(s, j + 1, '*') {
                    None => None,
                    Some(k) => if k == j + 1 {
                        None
                    } else {
                        match seek(s, k + 1, ')') {
                            None => None,
                            Some(l) => if l == k + 1 {
                                None
                            } else {
                                Some(
                                    (
                                        RecordView {
                                            code: s.subrange(c0, j),
                                            value: s.subrange(j + 1, k),
                                            unit: s.subrange(k + 1, l),
                                        },
                                        l + 1,
                                    ),
                                )
                            },
                        }
                    },
                }
            },
        }
    }
}

proof fn lemma_match_at_bounds(s: Seq<char>, i: int)
    ensures
        match_at(s, i) matches Some(p) ==> i < p.1 <= s.len(),
{
    if tag_at(s, i) {
        lemma_seek_bounds(s, i + 4, '(');
        if let Some(j) = seek(s, i + 4, '(') {
            lemma_seek_bounds(s, j + 1, '*');
            if let Some(k) = seek(s, j + 1, '*') {
                lemma_seek_bounds(s, k + 1, ')');
            }
        }
    }
}

/// All tagged fields of `s` at or after position `i`, leftmost first,
/// non-overlapping: a field consumes the text up to its closing
/// parenthesis, and scanning resumes there.
pub open spec fn extract_from(s: Seq<char>, i: int) -> Seq<RecordView>
    decreases s.len() - i,
    via extract_from_decreases
{
    if i >= s.len() {
        Seq::empty()
    } else {
        match match_at(s, i) {
            Some(p) => seq![p.0] + extract_from(s, p.1),
            None => extract_from(s, i + 1),
        }
    }
}

#[via_fn]
proof fn extract_from_decreases(s: Seq<char>, i: int) {
    lemma_match_at_bounds(s, i);
}

/// Whether the fixed tag `1-0:` stands at position `i` of the text.
fn tag_at_exec(s: &str, i: usize) -> (r: bool)
    requires
        i <= s@.len(),
    ensures
        r == tag_at(s@, i as int),
{
    let len = s.unicode_len();
    if len - i < 4 {
        return false;
    }
    s.get_char(i) == '1' && s.get_char(i + 1) == '-' && s.get_char(i + 2) == '0' && s.get_char(
        i + 3,
    ) == ':'
}

/// Index of the first `stop` at or after `from` with no other delimiter in
/// between, scanning the text.
fn seek_exec(s: &str, from: usize, stop: char) -> (r: Option<usize>)
    requires
        from <= s@.len(),
    ensures
        match r {
            None => seek(s@, from as int, stop) is None,
            Some(j) => from <= j < s@.len() && seek(s@, from as int, stop) == Some(j as int),
        },
{
    let len = s.unicode_len();
    let mut j: usize = from;
    while j < len
        invariant
            from <= j <= len,
            len == s@.len(),
            seek(s@, from as int, stop) == seek(s@, j as int, stop),
        decreases len - j,
    {
        let c = s.get_char(j);
        if c == stop {
            return Some(j);
        }
        if c == '(' || c == ')' || c == '*' {
            return None;
        }
        j = j + 1;
    }
    None
}

/// The tagged field starting exactly at position `i` of the text, with the
/// position just past it.
fn match_at_exec(s: &str, i: usize) -> (r: Option<(EnergyRecord, usize)>)
    requires
        i <= s@.len(),
    ensures
        match r {
            None => match_at(s@, i as int) is None,
            Some(p) => i < p.1 <= s@.len() && match_at(s@, i as int) == Some((p.0@, p.1 as int)),
        },
{
    let _len = s.unicode_len();
    if !tag_at_exec(s, i) {
        return None;
    }
    let c0 = i + 4;
    let j = match seek_exec(s, c0, '(') {
        Some(j) => j,
        None => {
            return None;
        },
    };
    if j == c0 {
        return None;
    }
    let k = match seek_exec(s, j + 1, '*') {
        Some(k) => k,
        None => {
            return None;
        },
    };
    if k == j + 1 {
        return None;
    }
    let l = match seek_exec(s, k + 1, ')') {
        Some(l) => l,
        None => {
            return None;
        },
    };
    if l == k + 1 {
        return None;
    }
    let rec = EnergyRecord {
        obis_code: String::from_str(s.substring_char(c0, j)),
        value: String::from_str(s.substring_char(j + 1, k)),
        unit: String::from_str(s.substring_char(k + 1, l)),
    };
    Some((rec, l + 1))
}

/// The views of a sequence of extracted records.
pub open spec fn views_of(rs: Seq<EnergyRecord>) -> Seq<RecordView> {
    rs.map_values(|r: EnergyRecord| r@)
}

/// All tagged fields of the text, leftmost first, non-overlapping.
pub fn extract_fields(s: &str) -> (r: Vec<EnergyRecord>)
    ensures
        views_of(r@) == extract_from(s@, 0),
{
    let len = s.unicode_len();
    let mut out: Vec<EnergyRecord> = Vec::new();
    let mut i: usize = 0;
    while i < len
        invariant
            i <= len,
            len == s@.len(),
            extract_from(s@, 0) == views_of(out@) + extract_from(s@, i as int),
        decreases len - i,
    {
        match match_at_exec(s, i) {
            Some((rec, next)) => {
                proof {
                    assert(views_of(out@.push(rec)) =~= views_of(out@).push(rec@));
                    assert(views_of(out@).push(rec@) + extract_from(s@, next as int) =~= views_of(
                        out@,
                    ) + (seq![rec@] + extract_from(s@, next as int)));
                }
                out.push(rec);
                i = next;
            },
            None => {
                i = i + 1;
            },
        }
    }
    proof {
        assert(extract_from(s@, len as int) =~= Seq::<RecordView>::empty());
        assert(views_of(out@) + Seq::<RecordView>::empty() =~= views_of(out@));
    }
    out
}

} // verus!
