//! Keymaps and the guard that substitutes a neutral keymap around a
//! hardware-destructive test run.
//!
//! A keymap assigns every logical key an ordered sequence of per-layer
//! scancodes. Before a test the current keymap is captured and a derived
//! keymap — every scancode replaced by the no-op sentinel — is applied;
//! afterwards the captured one is handed back for restoration on every exit
//! path.

use vstd::prelude::*;

verus! {

/// The scancode that makes a key report nothing.
pub open spec fn noop_code() -> Seq<char> {
    "NONE"@
}

/// One key's assignment: its logical name and one scancode per layer.
pub struct KeyMapEntry {
    pub logical_name: String,
    pub scancodes: Vec<String>,
}

/// The character sequences of a list of strings.
pub open spec fn strings_view(v: Seq<String>) -> Seq<Seq<char>> {
    Seq::new(v.len(), |i: int| v[i]@)
}

impl View for KeyMapEntry {
    type V = (Seq<char>, Seq<Seq<char>>);

    open spec fn view(&self) -> (Seq<char>, Seq<Seq<char>>) {
        (self.logical_name@, strings_view(self.scancodes@))
    }
}

/// A full keymap: one entry per logical key.
pub struct KeyMap {
    pub entries: Vec<KeyMapEntry>,
}

impl View for KeyMap {
    type V = Seq<(Seq<char>, Seq<Seq<char>>)>;

    open spec fn view(&self) -> Seq<(Seq<char>, Seq<Seq<char>>)> {
        Seq::new(self.entries@.len(), |i: int| self.entries@[i]@)
    }
}

/// The same keys and layer counts as `m`, every scancode the no-op sentinel.
pub open spec fn neutral_view(m: Seq<(Seq<char>, Seq<Seq<char>>)>) -> Seq<
    (Seq<char>, Seq<Seq<char>>),
> {
    Seq::new(m.len(), |i: int| (m[i].0, Seq::new(m[i].1.len(), |j: int| noop_code())))
}

/// The scancodes of the first entry named `name`, if any.
pub open spec fn lookup(m: Seq<(Seq<char>, Seq<Seq<char>>)>, name: Seq<char>) -> Option<
    Seq<Seq<char>>,
>
    decreases m.len(),
{
    if m.len() == 0 {
        None
    } else if m[0].0 == name {
        Some(m[0].1)
    } else {
        lookup(m.drop_first(), name)
    }
}

/// When entry `i` is the first one named `name`, the lookup finds it.
pub proof fn lemma_lookup_at(m: Seq<(Seq<char>, Seq<Seq<char>>)>, name: Seq<char>, i: int)
    requires
        0 <= i < m.len(),
        m[i].0 == name,
        forall|j: int| 0 <= j < i ==> m[j].0 != name,
    ensures
        lookup(m, name) == Some(m[i].1),
    decreases i,
{
    if i > 0 {
        lemma_lookup_at(m.drop_first(), name, i - 1);
    }
}

/// When no entry is named `name`, the lookup comes back empty.
pub proof fn lemma_lookup_none(m: Seq<(Seq<char>, Seq<Seq<char>>)>, name: Seq<char>)
    requires
        forall|j: int| 0 <= j < m.len() ==> m[j].0 != name,
    ensures
        lookup(m, name) is None,
    decreases m.len(),
{
    if m.len() > 0 {
        lemma_lookup_none(m.drop_first(), name);
    }
}

impl KeyMap {
    /// A keymap with no keys.
    pub fn new() -> (m: Self)
        ensures
            m@ =~= Seq::<(Seq<char>, Seq<Seq<char>>)>::empty(),
    {
        KeyMap { entries: Vec::new() }
    }

    /// Appends one key's assignment.
    pub fn add_key(&mut self, logical_name: String, scancodes: Vec<String>)
        ensures
            final(self)@ =~= old(self)@.push((logical_name@, strings_view(scancodes@))),
    {
        self.entries.push(KeyMapEntry { logical_name, scancodes });
        proof {
            assert(final(self)@ =~= old(self)@.push((logical_name@, strings_view(scancodes@))));
        }
    }

    /// How many keys the keymap assigns.
    pub fn len(&self) -> (n: usize)
        ensures
            n == self@.len(),
    {
        self.entries.len()
    }

    /// The derived keymap where every per-layer scancode is replaced with
    /// the no-op sentinel, leaving key names and layer counts unchanged.
    pub fn neutralized(&self) -> (r: KeyMap)
        ensures
            r@ =~= neutral_view(self@),
    {
        let mut entries: Vec<KeyMapEntry> = Vec::new();
        let mut i: usize = 0;
        while i < self.entries.len()
            invariant
                i <= self.entries@.len(),
                entries@.len() == i,
                forall|t: int| 0 <= t < i ==> #[trigger] entries@[t]@ == neutral_view(self@)[t],
            decreases self.entries@.len() - i,
        {
            let src = &self.entries[i];
            let mut codes: Vec<String> = Vec::new();
            let mut j: usize = 0;
            while j < src.scancodes.len()
                invariant
                    j <= src.scancodes@.len(),
                    codes@.len() == j,
                    forall|t: int| 0 <= t < j ==> #[trigger] codes@[t]@ == noop_code(),
                decreases src.scancodes@.len() - j,
            {
                codes.push(String::from_str("NONE"));
                j = j + 1;
            }
            let entry = KeyMapEntry { logical_name: src.logical_name.clone(), scancodes: codes };
            proof {
                assert(entry@.1 =~= neutral_view(self@)[i as int].1);
            }
            entries.push(entry);
            i = i + 1;
        }
        let r = KeyMap { entries };
        proof {
            assert(r@ =~= neutral_view(self@));
        }
        r
    }

    /// The scancodes assigned to the key named `name`, if it has any.
    pub fn scancodes_for(&self, name: &String) -> (r: Option<&Vec<String>>)
        ensures
            match r {
                Some(codes) => lookup(self@, name@) == Some(strings_view(codes@)),
                None => lookup(self@, name@) is None,
            },
    {
        let mut i: usize = 0;
        while i < self.entries.len()
            invariant
                i <= self.entries@.len(),
                forall|j: int| 0 <= j < i ==> self@[j].0 != name@,
            decreases self.entries@.len() - i,
        {
            if self.entries[i].logical_name == *name {
                proof {
                    lemma_lookup_at(self@, name@, i as int);
                }
                return Some(&self.entries[i].scancodes);
            }
            i = i + 1;
        }
        proof {
            lemma_lookup_none(self@, name@);
        }
        None
    }
}

/// One pending hardware write: assign `code` to `logical_name` on `layer`.
pub struct ScancodeWrite {
    pub logical_name: String,
    pub layer: usize,
    pub code: String,
}

impl View for ScancodeWrite {
    type V = (Seq<char>, int, Seq<char>);

    open spec fn view(&self) -> (Seq<char>, int, Seq<char>) {
        (self.logical_name@, self.layer as int, self.code@)
    }
}

/// The mathematical values of a list of pending writes.
pub open spec fn writes_view(v: Seq<ScancodeWrite>) -> Seq<(Seq<char>, int, Seq<char>)> {
    Seq::new(v.len(), |i: int| v[i]@)
}

/// One write per layer of one key.
pub open spec fn entry_writes(name: Seq<char>, codes: Seq<Seq<char>>) -> Seq<
    (Seq<char>, int, Seq<char>),
> {
    Seq::new(codes.len(), |j: int| (name, j, codes[j]))
}

/// The full batch of writes that applies keymap `m` to the keys named in
/// `names`: for each named key that `m` assigns, one write per layer, in
/// name order and layer order. Names `m` does not assign contribute nothing.
pub open spec fn write_batch(
    m: Seq<(Seq<char>, Seq<Seq<char>>)>,
    names: Seq<Seq<char>>,
) -> Seq<(Seq<char>, int, Seq<char>)>
    decreases names.len(),
{
    if names.len() == 0 {
        Seq::empty()
    } else {
        write_batch(m, names.drop_last()) + match lookup(m, names.last()) {
            None => Seq::empty(),
            Some(codes) => entry_writes(names.last(), codes),
        }
    }
}

impl KeyMap {
    /// The writes that apply this keymap to the board's keys, one write
    /// operation per key per layer; the caller issues them as one batch.
    pub fn write_ops(&self, names: &Vec<String>) -> (ops: Vec<ScancodeWrite>)
        ensures
            writes_view(ops@) =~= write_batch(self@, strings_view(names@)),
    {
        let mut ops: Vec<ScancodeWrite> = Vec::new();
        let mut i: usize = 0;
        while i < names.len()
            invariant
                i <= names@.len(),
                writes_view(ops@) =~= write_batch(self@, strings_view(names@).take(i as int)),
            decreases names@.len() - i,
        {
            let name = &names[i];
            let ghost prefix = writes_view(ops@);
            match self.scancodes_for(name) {
                Some(codes) => {
                    let mut j: usize = 0;
                    while j < codes.len()
                        invariant
                            j <= codes@.len(),
                            lookup(self@, name@) == Some(strings_view(codes@)),
                            writes_view(ops@) =~= prefix + entry_writes(
                                name@,
                                strings_view(codes@),
                            ).take(j as int),
                        decreases codes@.len() - j,
                    {
                        let op = ScancodeWrite {
                            logical_name: name.clone(),
                            layer: j,
                            code: codes[j].clone(),
                        };
                        let ghost prev_ops = ops@;
                        let ghost ew = entry_writes(name@, strings_view(codes@));
                        proof {
                            assert(op@ == ew[j as int]);
                        }
                        ops.push(op);
                        proof {
                            assert(writes_view(ops@) =~= writes_view(prev_ops).push(op@));
                            assert(ew.take(j + 1) =~= ew.take(j as int).push(ew[j as int]));
                            assert((prefix + ew.take(j as int)).push(ew[j as int]) =~= prefix
                                + ew.take(j + 1));
                            assert(writes_view(ops@) =~= prefix + ew.take(j + 1));
                        }
                        j = j + 1;
                    }
                    proof {
                        assert(entry_writes(name@, strings_view(codes@)).take(
                            codes@.len() as int,
                        ) =~= entry_writes(name@, strings_view(codes@)));
                    }
                },
                None => {},
            }
            proof {
                let all_names = strings_view(names@);
                assert(all_names.take(i + 1).drop_last() =~= all_names.take(i as int));
                assert(all_names.take(i + 1).last() == name@);
                assert(writes_view(ops@) =~= write_batch(self@, all_names.take(i + 1)));
            }
            i = i + 1;
        }
        proof {
            assert(strings_view(names@).take(names@.len() as int) =~= strings_view(names@));
        }
        ops
    }
}

/// Captures a keymap for the duration of a test and hands it back for
/// restoration on every exit path — normal completion, per-run failure, and
/// cancellation alike.
pub struct KeymapGuard {
    saved: KeyMap,
}

impl View for KeymapGuard {
    type V = Seq<(Seq<char>, Seq<Seq<char>>)>;

    closed spec fn view(&self) -> Seq<(Seq<char>, Seq<Seq<char>>)> {
        self.saved@
    }
}

impl KeymapGuard {
    /// Captures `keymap` and yields the neutral keymap to apply in its
    /// place; the guard remembers the captured one unchanged.
    pub fn engage(keymap: KeyMap) -> (r: (KeymapGuard, KeyMap))
        ensures
            r.0@ == keymap@,
            r.1@ =~= neutral_view(keymap@),
    {
        let neutral = keymap.neutralized();
        (KeymapGuard { saved: keymap }, neutral)
    }

    /// Hands back exactly the keymap that was captured, byte for byte.
    pub fn release(self) -> (r: KeyMap)
        ensures
            r@ == self@,
    {
        self.saved
    }
}

} // verus!
