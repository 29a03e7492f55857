//! User-defined key remapping: each `from` chord is translated to its `to`
//! chord before the application dispatches it.

use vstd::prelude::*;

use crate::key::{parse_chord, parse_chord_spec, KeyChord};

verus! {

/// One remap rule as written in the keymap file.
#[derive(Debug, Clone)]
pub struct RemapEntry {
    pub from: String,
    pub to: String,
}

/// The remap rules of a keymap file, in file order.
#[derive(Debug, Clone)]
pub struct KeymapFile {
    pub remap: Vec<RemapEntry>,
}

/// The compiled remap table.
#[derive(Debug, Clone)]
pub struct Keymap {
    table: Vec<(KeyChord, KeyChord)>,
}

/// The map a list of pairs describes: a later pair for a chord replaces an
/// earlier one.
pub open spec fn pairs_map(s: Seq<(KeyChord, KeyChord)>) -> Map<KeyChord, KeyChord>
    decreases s.len(),
{
    if s.len() == 0 {
        Map::empty()
    } else {
        pairs_map(s.drop_last()).insert(s.last().0, s.last().1)
    }
}

/// The rules of a keymap file as text pairs.
pub open spec fn remap_view(file: KeymapFile) -> Seq<(Seq<char>, Seq<char>)> {
    file.remap@.map_values(|r: RemapEntry| (r.from@, r.to@))
}

/// The table the rules compile to: each rule whose two chords both parse
/// maps `from` to `to`, a later rule for the same chord winning; the other
/// rules are skipped.
pub open spec fn remap_table(rules: Seq<(Seq<char>, Seq<char>)>) -> Map<KeyChord, KeyChord>
    decreases rules.len(),
{
    if rules.len() == 0 {
        Map::empty()
    } else {
        let m = remap_table(rules.drop_last());
        match (parse_chord_spec(rules.last().0), parse_chord_spec(rules.last().1)) {
            (Ok(f), Ok(t)) => m.insert(f, t),
            _ => m,
        }
    }
}

impl View for Keymap {
    type V = Map<KeyChord, KeyChord>;

    closed spec fn view(&self) -> Map<KeyChord, KeyChord> {
        pairs_map(self.table@)
    }
}

impl Default for Keymap {
    fn default() -> (r: Self)
        ensures
            r@ == Map::<KeyChord, KeyChord>::empty(),
    {
        Keymap { table: Vec::new() }
    }
}

/// Looks `c` up from the last pair backwards.
fn lookup_back(s: &Vec<(KeyChord, KeyChord)>, c: KeyChord) -> (r: Option<KeyChord>)
    ensures
        match r {
            Some(t) => pairs_map(s@).contains_key(c) && pairs_map(s@)[c] == t,
            None => !pairs_map(s@).contains_key(c),
        },
{
    let mut i: usize = s.len();
    assert(s@.take(s@.len() as int) =~= s@);
    while i > 0
        invariant
            i <= s@.len(),
            forall|q: int| i <= q < s@.len() ==> (#[trigger] s@[q]).0 != c,
            pairs_map(s@).contains_key(c) == pairs_map(s@.take(i as int)).contains_key(c),
            pairs_map(s@).contains_key(c) ==> pairs_map(s@)[c] == pairs_map(s@.take(i as int))[c],
        decreases i,
    {
        let ghost t = s@.take(i as int);
        assert(t.drop_last() =~= s@.take(i - 1));
        assert(t.last() == s@[i - 1]);
        if s[i - 1].0 == c {
            return Some(s[i - 1].1);
        }
        i = i - 1;
    }
    None
}

impl Keymap {
    /// Compiles the rules of a keymap file; a rule whose `from` or `to` is
    /// not a chord is skipped.
    pub fn from_file(file: &KeymapFile) -> (r: Self)
        ensures
            r@ == remap_table(remap_view(*file)),
    {
        let ghost rules = remap_view(*file);
        let mut table: Vec<(KeyChord, KeyChord)> = Vec::new();
        let mut i: usize = 0;
        while i < file.remap.len()
            invariant
                i <= file.remap@.len(),
                rules == remap_view(*file),
                pairs_map(table@) == remap_table(rules.take(i as int)),
            decreases file.remap@.len() - i,
        {
            let ghost t = rules.take(i + 1);
            assert(t.drop_last() =~= rules.take(i as int));
            assert(t.last() == (file.remap@[i as int].from@, file.remap@[i as int].to@));
            let r = &file.remap[i];
            match parse_chord(r.from.as_str()) {
                Ok(from) => match parse_chord(r.to.as_str()) {
                    Ok(to) => {
                        let ghost before = table@;
                        table.push((from, to));
                        assert(table@.drop_last() =~= before);
                    },
                    Err(_) => {},
                },
                Err(_) => {},
            }
            i = i + 1;
        }
        assert(rules.take(file.remap@.len() as int) =~= rules);
        Keymap { table }
    }

    /// Apply the remap. Returns `chord` unchanged if no rule matches.
    pub fn translate(&self, chord: KeyChord) -> (r: KeyChord)
        ensures
            r == (if self@.contains_key(chord) { self@[chord] } else { chord }),
    {
        match lookup_back(&self.table, chord) {
            Some(t) => t,
            None => chord,
        }
    }
}

} // verus!

verus! {

/// Rule `i` remaps the chord `k`: its `from` reads as `k` and its `to` as
/// a chord.
pub open spec fn rule_remaps(rules: Seq<(Seq<char>, Seq<char>)>, i: int, k: KeyChord) -> bool {
    parse_chord_spec(rules[i].0) == Ok::<KeyChord, Seq<char>>(k) && parse_chord_spec(rules[i].1) is Ok
}

/// The last rule wins: a chord that no usable rule names is left alone, and
/// one that some do is remapped to the `to` chord of the last of them.
pub proof fn lemma_remap_last_rule_wins(rules: Seq<(Seq<char>, Seq<char>)>, k: KeyChord)
    ensures
        (forall|i: int| 0 <= i < rules.len() ==> !#[trigger] rule_remaps(rules, i, k)) ==> !remap_table(rules).contains_key(k),
        forall|i: int|
            0 <= i < rules.len() && #[trigger] rule_remaps(rules, i, k) && (forall|j: int| i < j < rules.len() ==> !rule_remaps(rules, j, k))
                ==> remap_table(rules).contains_key(k) && Ok::<KeyChord, Seq<char>>(remap_table(rules)[k]) == parse_chord_spec(rules[i].1),
    decreases rules.len(),
{
    if rules.len() > 0 {
        let d = rules.drop_last();
        lemma_remap_last_rule_wins(d, k);
        let n = rules.len() - 1;
        assert forall|i: int| 0 <= i < d.len() implies #[trigger] rule_remaps(d, i, k) == rule_remaps(rules, i, k) by {
            assert(d[i] == rules[i]);
        }
        if forall|i: int| 0 <= i < rules.len() ==> !#[trigger] rule_remaps(rules, i, k) {
            assert(!rule_remaps(rules, n, k));
            assert forall|i: int| 0 <= i < d.len() implies !#[trigger] rule_remaps(d, i, k) by {
                assert(!rule_remaps(rules, i, k));
            }
        }
        assert forall|i: int|
            0 <= i < rules.len() && #[trigger] rule_remaps(rules, i, k) && (forall|j: int| i < j < rules.len() ==> !rule_remaps(rules, j, k))
                implies remap_table(rules).contains_key(k) && Ok::<KeyChord, Seq<char>>(remap_table(rules)[k]) == parse_chord_spec(rules[i].1) by {
            if i < n {
                assert(!rule_remaps(rules, n, k));
                assert(rule_remaps(d, i, k));
                assert forall|j: int| i < j < d.len() implies !rule_remaps(d, j, k) by {
                    assert(!rule_remaps(rules, j, k));
                }
            }
        }
    }
}

} // verus!
