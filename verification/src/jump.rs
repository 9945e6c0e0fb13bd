//! Single-character jump navigation: find the next or previous entry whose
//! name starts, case-folded, with a target character, wrapping around the
//! listing exactly once.

use vstd::prelude::*;

use crate::browser::FileEntry;
use crate::text::{lower_char_of, lower_of, lowercase, lowercase_char};

verus! {

/// The entry's case-folded name starts with the case-folded target character.
pub open spec fn jump_matches(e: FileEntry, c: char) -> bool {
    lower_of(e.name@).len() > 0 && lower_of(e.name@)[0] == lower_char_of(c)
}

/// The index reached from `from` after stepping `o` places forward or
/// backward with wraparound (`0 <= from < len`, `1 <= o <= len`).
pub open spec fn wrap_index(from: int, o: int, len: int, forward: bool) -> int {
    if forward {
        if from + o < len {
            from + o
        } else {
            from + o - len
        }
    } else {
        if from >= o {
            from - o
        } else {
            from + len - o
        }
    }
}

/// The first index at offset `o` or beyond (up to one full wrap) whose entry
/// matches the jump character.
pub open spec fn jump_from_offset(
    entries: Seq<FileEntry>,
    from: int,
    c: char,
    forward: bool,
    o: int,
) -> Option<int>
    decreases entries.len() + 1 - o,
{
    if o < 1 || o > entries.len() {
        None
    } else if jump_matches(entries[wrap_index(from, o, entries.len() as int, forward)], c) {
        Some(wrap_index(from, o, entries.len() as int, forward))
    } else {
        jump_from_offset(entries, from, c, forward, o + 1)
    }
}

/// Where a jump from `from` lands: the first matching entry strictly after
/// (`forward`) or before (`!forward`) `from`, wrapping around once; `None`
/// when nothing matches or the listing is empty.
pub open spec fn jump_spec(entries: Seq<FileEntry>, from: int, c: char, forward: bool) -> Option<
    int,
> {
    if entries.len() == 0 {
        None
    } else {
        jump_from_offset(entries, from, c, forward, 1)
    }
}

proof fn lemma_jump_offset_props(entries: Seq<FileEntry>, from: int, c: char, forward: bool, o: int)
    requires
        0 <= from < entries.len(),
        1 <= o,
    ensures
        match jump_from_offset(entries, from, c, forward, o) {
            Some(i) => 0 <= i < entries.len() && jump_matches(entries[i], c),
            None => true,
        },
    decreases entries.len() + 1 - o,
{
    if o <= entries.len() {
        if !jump_matches(entries[wrap_index(from, o, entries.len() as int, forward)], c) {
            lemma_jump_offset_props(entries, from, c, forward, o + 1);
        }
    }
}

proof fn lemma_jump_offset_finds(
    entries: Seq<FileEntry>,
    from: int,
    c: char,
    forward: bool,
    o: int,
    om: int,
)
    requires
        0 <= from < entries.len(),
        1 <= o <= om <= entries.len(),
        jump_matches(entries[wrap_index(from, om, entries.len() as int, forward)], c),
    ensures
        jump_from_offset(entries, from, c, forward, o) is Some,
    decreases om - o,
{
    if o < om && !jump_matches(entries[wrap_index(from, o, entries.len() as int, forward)], c) {
        lemma_jump_offset_finds(entries, from, c, forward, o + 1, om);
    }
}

/// Whenever some entry matches, a jump from any valid position succeeds and
/// lands on a matching entry.
pub proof fn lemma_jump_finds_match(
    entries: Seq<FileEntry>,
    from: int,
    c: char,
    forward: bool,
    m: int,
)
    requires
        0 <= from < entries.len(),
        0 <= m < entries.len(),
        jump_matches(entries[m], c),
    ensures
        jump_spec(entries, from, c, forward) matches Some(j) && (0 <= j < entries.len()
            && jump_matches(entries[j], c)),
{
    let len = entries.len() as int;
    let om = if forward {
        if m > from {
            m - from
        } else {
            m - from + len
        }
    } else {
        if from > m {
            from - m
        } else {
            from - m + len
        }
    };
    assert(wrap_index(from, om, len, forward) == m);
    lemma_jump_offset_finds(entries, from, c, forward, 1, om);
    lemma_jump_offset_props(entries, from, c, forward, 1);
}

/// Round-trip reachability: with at least two matching entries, a jump
/// succeeds and lands on a matching entry, and jumping back with the
/// direction reversed succeeds and again lands on a matching entry.
pub proof fn lemma_jump_round_trip(
    entries: Seq<FileEntry>,
    from: int,
    c: char,
    forward: bool,
    m1: int,
    m2: int,
)
    requires
        0 <= from < entries.len(),
        0 <= m1 < entries.len(),
        0 <= m2 < entries.len(),
        m1 != m2,
        jump_matches(entries[m1], c),
        jump_matches(entries[m2], c),
    ensures
        jump_spec(entries, from, c, forward) matches Some(j) && (jump_matches(entries[j], c) && (
        jump_spec(entries, j, c, !forward) matches Some(k) && jump_matches(entries[k], c))),
{
    lemma_jump_finds_match(entries, from, c, forward, m1);
    let j = jump_spec(entries, from, c, forward)->Some_0;
    lemma_jump_finds_match(entries, j, c, !forward, m1);
}

/// Decides whether an entry's case-folded name starts with `c_low`.
fn entry_jump_matches(e: &FileEntry, c_low: char) -> (r: bool)
    ensures
        r == (lower_of(e.name@).len() > 0 && lower_of(e.name@)[0] == c_low),
{
    let low = lowercase(e.name.as_str());
    let low_len: usize = low.as_str().unicode_len();
    if low_len == 0 {
        false
    } else {
        low.as_str().get_char(0) == c_low
    }
}

/// Scans for the first entry, strictly after (`forward`) or before
/// (`!forward`) `from` with wraparound, whose case-folded name starts with
/// the case-folded `c`; `None` when nothing matches or the listing is empty.
pub fn jump(entries: &Vec<FileEntry>, from: usize, c: char, forward: bool) -> (r: Option<usize>)
    requires
        entries@.len() == 0 || (from as int) < entries@.len(),
    ensures
        match r {
            Some(i) => {
                &&& jump_spec(entries@, from as int, c, forward) == Some(i as int)
                &&& (i as int) < entries@.len()
                &&& jump_matches(entries@[i as int], c)
            },
            None => jump_spec(entries@, from as int, c, forward) is None,
        },
{
    let len = entries.len();
    if len == 0 {
        return None;
    }
    let c_low = lowercase_char(c);
    let mut o: usize = 1;
    loop
        invariant
            1 <= o <= len,
            len == entries@.len(),
            len >= 1,
            (from as int) < len as int,
            c_low == lower_char_of(c),
            jump_from_offset(entries@, from as int, c, forward, 1) == jump_from_offset(
                entries@,
                from as int,
                c,
                forward,
                o as int,
            ),
        ensures
            jump_from_offset(entries@, from as int, c, forward, 1) is None,
            len == entries@.len(),
        decreases len - o,
    {
        let idx: usize = if forward {
            if o < len - from {
                from + o
            } else {
                from - (len - o)
            }
        } else {
            if from >= o {
                from - o
            } else {
                from + (len - o)
            }
        };
        assert(idx as int == wrap_index(from as int, o as int, len as int, forward));
        if entry_jump_matches(&entries[idx], c_low) {
            assert(jump_from_offset(entries@, from as int, c, forward, o as int) == Some(
                idx as int,
            ));
            return Some(idx);
        }
        assert(jump_from_offset(entries@, from as int, c, forward, o as int) == jump_from_offset(
            entries@,
            from as int,
            c,
            forward,
            o as int + 1,
        ));
        if o == len {
            assert(jump_from_offset(entries@, from as int, c, forward, o as int + 1) is None);
            break ;
        }
        o = o + 1;
    }
    None
}

} // verus!
