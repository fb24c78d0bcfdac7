use vstd::prelude::*;

verus! {

/// A keyboard modifier as written in a keymap entry.
#[allow(non_camel_case_types, clippy::upper_case_acronyms)]
#[derive(Clone, Copy, PartialEq, Eq, Structural, Debug, Hash)]
pub enum Modifiers {
    SHIFT,
    CTRL,
    ALT,
    HYPER,
}

impl Modifiers {
    /// The flag of this modifier inside a modifier set.
    pub open spec fn bit(self) -> u8 {
        match self {
            Modifiers::SHIFT => 1,
            Modifiers::CTRL => 2,
            Modifiers::ALT => 4,
            Modifiers::HYPER => 8,
        }
    }

    /// The modifier set that holds this modifier alone.
    pub fn value(&self) -> (r: ModifierSet)
        ensures
            r.bits == self.bit(),
    {
        match *self {
            Modifiers::CTRL => ModifierSet { bits: 2 },
            Modifiers::SHIFT => ModifierSet { bits: 1 },
            Modifiers::ALT => ModifierSet { bits: 4 },
            Modifiers::HYPER => ModifierSet { bits: 8 },
        }
    }
}

/// An unordered set of modifiers, one flag per modifier.
#[derive(Clone, Copy, PartialEq, Eq, Structural, Debug, Hash)]
pub struct ModifierSet {
    pub bits: u8,
}

/// The modifier set that a list of modifiers folds into.
pub open spec fn mods_of(s: Seq<Modifiers>) -> u8
    decreases s.len(),
{
    if s.len() == 0 {
        0
    } else {
        mods_of(s.drop_last()) | s.last().bit()
    }
}

/// Distinct modifiers have disjoint flags.
proof fn lemma_flags_disjoint(a: Modifiers, b: Modifiers)
    ensures
        (a.bit() & b.bit() != 0) == (a == b),
{
    assert(1u8 & 1u8 != 0 && 1u8 & 2u8 == 0 && 1u8 & 4u8 == 0 && 1u8 & 8u8 == 0) by (bit_vector);
    assert(2u8 & 1u8 == 0 && 2u8 & 2u8 != 0 && 2u8 & 4u8 == 0 && 2u8 & 8u8 == 0) by (bit_vector);
    assert(4u8 & 1u8 == 0 && 4u8 & 2u8 == 0 && 4u8 & 4u8 != 0 && 4u8 & 8u8 == 0) by (bit_vector);
    assert(8u8 & 1u8 == 0 && 8u8 & 2u8 == 0 && 8u8 & 4u8 == 0 && 8u8 & 8u8 != 0) by (bit_vector);
}

/// The folded set holds the flag of a modifier exactly when the list names it,
/// and no other flag.
pub proof fn lemma_mods_flags(s: Seq<Modifiers>, m: Modifiers)
    ensures
        mods_of(s) < 16,
        (mods_of(s) & m.bit() != 0) == s.contains(m),
    decreases s.len(),
{
    let c = m.bit();
    if s.len() == 0 {
        assert(0u8 & c == 0) by (bit_vector);
    } else {
        let p = s.drop_last();
        lemma_mods_flags(p, m);
        lemma_flags_disjoint(s.last(), m);
        let x = mods_of(p);
        let b = s.last().bit();
        assert(((x | b) & c != 0) == ((x & c != 0) || (b & c != 0))) by (bit_vector);
        assert((x | b) < 16) by (bit_vector)
            requires
                x < 16,
                b < 16,
        ;
        if p.contains(m) {
            let i = choose|i: int| 0 <= i < p.len() && p[i] == m;
            assert(s[i] == m);
        }
        if s.contains(m) {
            let i = choose|i: int| 0 <= i < s.len() && s[i] == m;
            if i < s.len() - 1 {
                assert(p[i] == m);
            }
        }
    }
}

/// Merging modifiers forgets their order and repetitions: two lists that name
/// the same modifiers fold into the same set.
pub proof fn lemma_mods_order_independent(s: Seq<Modifiers>, t: Seq<Modifiers>)
    requires
        s.to_set() == t.to_set(),
    ensures
        mods_of(s) == mods_of(t),
{
    lemma_mods_flags(s, Modifiers::SHIFT);
    lemma_mods_flags(s, Modifiers::CTRL);
    lemma_mods_flags(s, Modifiers::ALT);
    lemma_mods_flags(s, Modifiers::HYPER);
    lemma_mods_flags(t, Modifiers::SHIFT);
    lemma_mods_flags(t, Modifiers::CTRL);
    lemma_mods_flags(t, Modifiers::ALT);
    lemma_mods_flags(t, Modifiers::HYPER);
    assert(s.to_set().contains(Modifiers::SHIFT) == s.contains(Modifiers::SHIFT));
    assert(s.to_set().contains(Modifiers::CTRL) == s.contains(Modifiers::CTRL));
    assert(s.to_set().contains(Modifiers::ALT) == s.contains(Modifiers::ALT));
    assert(s.to_set().contains(Modifiers::HYPER) == s.contains(Modifiers::HYPER));
    assert(t.to_set().contains(Modifiers::SHIFT) == t.contains(Modifiers::SHIFT));
    assert(t.to_set().contains(Modifiers::CTRL) == t.contains(Modifiers::CTRL));
    assert(t.to_set().contains(Modifiers::ALT) == t.contains(Modifiers::ALT));
    assert(t.to_set().contains(Modifiers::HYPER) == t.contains(Modifiers::HYPER));
    assert(s.contains(Modifiers::SHIFT) == t.contains(Modifiers::SHIFT));
    assert(s.contains(Modifiers::CTRL) == t.contains(Modifiers::CTRL));
    assert(s.contains(Modifiers::ALT) == t.contains(Modifiers::ALT));
    assert(s.contains(Modifiers::HYPER) == t.contains(Modifiers::HYPER));
    let x = mods_of(s);
    let y = mods_of(t);
    assert(x == y) by (bit_vector)
        requires
            x < 16,
            y < 16,
            (x & 1 != 0) == (y & 1 != 0),
            (x & 2 != 0) == (y & 2 != 0),
            (x & 4 != 0) == (y & 4 != 0),
            (x & 8 != 0) == (y & 8 != 0),
    ;
}

impl ModifierSet {
    pub fn empty() -> (r: ModifierSet)
        ensures
            r.bits == 0,
    {
        ModifierSet { bits: 0 }
    }

    pub fn union(self, other: ModifierSet) -> (r: ModifierSet)
        ensures
            r.bits == self.bits | other.bits,
    {
        ModifierSet { bits: self.bits | other.bits }
    }

    pub fn contains(&self, m: Modifiers) -> (r: bool)
        ensures
            r == (self.bits & m.bit() != 0),
    {
        let v = m.value();
        self.bits & v.bits != 0
    }

    /// Folds a list of modifiers into one set.
    pub fn of(mods: &Vec<Modifiers>) -> (r: ModifierSet)
        ensures
            r.bits == mods_of(mods@),
    {
        let mut acc = ModifierSet::empty();
        let mut i: usize = 0;
        while i < mods.len()
            invariant
                i <= mods@.len(),
                acc.bits == mods_of(mods@.subrange(0, i as int)),
            decreases mods@.len() - i,
        {
            let m = mods[i].value();
            acc = acc.union(m);
            proof {
                assert(mods@.subrange(0, i + 1).drop_last() =~= mods@.subrange(0, i as int));
            }
            i = i + 1;
        }
        proof {
            assert(mods@.subrange(0, mods@.len() as int) =~= mods@);
        }
        acc
    }
}

/// A key pressed together with a set of modifiers.
pub struct Input {
    pub key: String,
    pub mods: ModifierSet,
}

impl View for Input {
    type V = (Seq<char>, u8);

    open spec fn view(&self) -> (Seq<char>, u8) {
        (self.key@, self.mods.bits)
    }
}

/// A raw keymap entry of the configuration: a key, its modifiers and a command name.
pub struct Command {
    pub key: String,
    pub mods: Vec<Modifiers>,
    pub command: String,
}

impl Command {
    /// The binding that this entry declares.
    pub open spec fn binding(&self) -> ((Seq<char>, u8), Seq<char>) {
        ((self.key@, mods_of(self.mods@)), self.command@)
    }
}

/// The table that a sequence of (key, value) declarations describes:
/// a later declaration of a key replaces an earlier one.
pub open spec fn last_wins<K, V>(s: Seq<(K, V)>) -> Map<K, V>
    decreases s.len(),
{
    if s.len() == 0 {
        Map::empty()
    } else {
        last_wins(s.drop_last()).insert(s.last().0, s.last().1)
    }
}

/// The bindings that a list of keymap entries declares, in order.
pub open spec fn bindings_of(cmds: Seq<Command>) -> Seq<((Seq<char>, u8), Seq<char>)> {
    cmds.map_values(|c: Command| c.binding())
}

/// Declarations after index `i` that do not name `k` leave its entry as the first `i` set it.
pub proof fn lemma_last_wins_tail<K, V>(s: Seq<(K, V)>, i: int, k: K)
    requires
        0 <= i <= s.len(),
        forall|j: int| i <= j < s.len() ==> s[j].0 != k,
    ensures
        last_wins(s).contains_key(k) == last_wins(s.subrange(0, i)).contains_key(k),
        last_wins(s).contains_key(k) ==> last_wins(s)[k] == last_wins(s.subrange(0, i))[k],
    decreases s.len(),
{
    if i == s.len() {
        assert(s.subrange(0, i) =~= s);
    } else {
        let t = s.drop_last();
        assert(t.subrange(0, i) =~= s.subrange(0, i));
        lemma_last_wins_tail(t, i, k);
    }
}

/// The declaration at index `i` decides the entry of its key among the first `i + 1`.
pub proof fn lemma_last_wins_at<K, V>(s: Seq<(K, V)>, i: int)
    requires
        0 <= i < s.len(),
    ensures
        last_wins(s.subrange(0, i + 1)).contains_key(s[i].0),
        last_wins(s.subrange(0, i + 1))[s[i].0] == s[i].1,
{
    assert(s.subrange(0, i + 1).drop_last() =~= s.subrange(0, i));
}

/// Appending a declaration sets the entry of its key.
pub proof fn lemma_last_wins_push<K, V>(s: Seq<(K, V)>, e: (K, V))
    ensures
        last_wins(s.push(e)) == last_wins(s).insert(e.0, e.1),
{
    assert(s.push(e).drop_last() =~= s);
}

/// The keybinding table: which command name each (key, modifier set) pair is bound to.
pub struct Keymap {
    entries: Vec<(Input, String)>,
}

impl Keymap {
    pub open spec fn entry_view(e: (Input, String)) -> ((Seq<char>, u8), Seq<char>) {
        (e.0.view(), e.1.view())
    }

    /// The declarations held, in the order they were made.
    pub closed spec fn declarations(&self) -> Seq<((Seq<char>, u8), Seq<char>)> {
        self.entries@.map_values(|e: (Input, String)| Keymap::entry_view(e))
    }

    pub open spec fn view(&self) -> Map<(Seq<char>, u8), Seq<char>> {
        last_wins(self.declarations())
    }

    pub fn new() -> (r: Keymap)
        ensures
            r@ == Map::<(Seq<char>, u8), Seq<char>>::empty(),
    {
        let r = Keymap { entries: Vec::new() };
        assert(r.declarations() =~= Seq::empty());
        r
    }

    /// Binds `input` to `command`, replacing an earlier binding of the same pair.
    pub fn insert(&mut self, input: Input, command: String)
        ensures
            final(self)@ == old(self)@.insert(input@, command@),
    {
        let ghost before = self.declarations();
        let ghost e = (input@, command@);
        self.entries.push((input, command));
        proof {
            assert(self.declarations() =~= before.push(e));
            lemma_last_wins_push(before, e);
        }
    }

    /// The command bound to `key` pressed with `mods`, or `None` where nothing is bound.
    pub fn lookup(&self, key: &String, mods: ModifierSet) -> (r: Option<String>)
        ensures
            r.is_none() <==> !self@.contains_key((key@, mods.bits)),
            r.is_some() ==> r.unwrap()@ == self@[(key@, mods.bits)],
    {
        let ghost k = (key@, mods.bits);
        let ghost d = self.declarations();
        let mut i: usize = self.entries.len();
        while i > 0
            invariant
                i <= self.entries@.len(),
                d == self.declarations(),
                k == (key@, mods.bits),
                d.len() == self.entries@.len(),
                forall|j: int| i <= j < d.len() ==> d[j].0 != k,
            decreases i,
        {
            i = i - 1;
            let e = &self.entries[i];
            assert(d[i as int] == Keymap::entry_view(self.entries@[i as int]));
            if e.0.mods.bits == mods.bits && e.0.key == *key {
                proof {
                    lemma_last_wins_at(d, i as int);
                    lemma_last_wins_tail(d, i + 1, k);
                }
                return Some(e.1.clone());
            }
        }
        proof {
            lemma_last_wins_tail(d, 0, k);
        }
        None
    }

    /// Builds the table from raw entries: each entry's modifiers fold into one set, and
    /// a later entry for the same pair replaces an earlier one.
    pub fn from_commands(cmds: &Vec<Command>) -> (r: Keymap)
        ensures
            r@ == last_wins(bindings_of(cmds@)),
    {
        let mut map = Keymap::new();
        let mut i: usize = 0;
        while i < cmds.len()
            invariant
                i <= cmds@.len(),
                map@ == last_wins(bindings_of(cmds@.subrange(0, i as int))),
            decreases cmds@.len() - i,
        {
            let c = &cmds[i];
            let input = Input { key: c.key.clone(), mods: ModifierSet::of(&c.mods) };
            map.insert(input, c.command.clone());
            proof {
                let prev = bindings_of(cmds@.subrange(0, i as int));
                assert(bindings_of(cmds@.subrange(0, i + 1)) =~= prev.push(cmds@[i as int].binding()));
                lemma_last_wins_push(prev, cmds@[i as int].binding());
            }
            i = i + 1;
        }
        proof {
            assert(cmds@.subrange(0, cmds@.len() as int) =~= cmds@);
        }
        map
    }
}

} // verus!
