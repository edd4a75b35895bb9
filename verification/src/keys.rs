//! The key presses that mapped buttons and HATs ask for, gathered between two
//! sends to the keyboard.

use vstd::prelude::*;
use std::collections::HashSet;
use vstd::std_specs::hash::spec_hash_keys_iter;
use vstd::std_specs::iter::IteratorSpec;

verus! {

broadcast use vstd::std_specs::hash::group_hash_axioms;

/// The elements of a set of key codes, each once.
fn set_elements(s: &HashSet<u16>) -> (v: Vec<u16>)
    ensures
        v@.to_set() == s@,
        v@.no_duplicates(),
        v@.len() == s@.len(),
{
    let ghost keys = spec_hash_keys_iter(s).remaining();
    let mut v: Vec<u16> = Vec::new();
    for x in it: s.iter()
        invariant
            it.seq() == keys,
            v@.len() == it.index(),
            forall|i: int| 0 <= i < v@.len() ==> v@[i] == *it.seq()[i],
    {
        v.push(*x);
    }
    proof {
        assert(v@ =~= keys.map_values(|r: &u16| *r));
        assert(keys.unref() =~= keys.map_values(|r: &u16| *r));
    }
    v
}


/// Pushing a key onto a sequence adds it to the set of its elements.
proof fn lemma_push_to_set(s: Seq<u16>, k: u16)
    ensures
        s.push(k).to_set() == s.to_set().insert(k),
{
    assert forall|x: u16| s.push(k).to_set().contains(x) == s.to_set().insert(k).contains(x) by {
        if s.push(k).contains(x) {
            let i = choose|i: int| 0 <= i < s.len() + 1 && s.push(k)[i] == x;
            if i < s.len() {
                assert(s[i] == x);
            }
        }
        if s.contains(x) {
            let i = choose|i: int| 0 <= i < s.len() && s[i] == x;
            assert(s.push(k)[i] == x);
        }
        if x == k {
            assert(s.push(k)[s.len() as int] == k);
        }
    }
    assert(s.push(k).to_set() =~= s.to_set().insert(k));
}

/// The pressed and the released keys after one update: pressed keys join the
/// pressed set, released keys join the released set, and a key that is
/// pressed is never also released.
pub open spec fn after_update(
    on: Set<u16>,
    off: Set<u16>,
    keys: Set<u16>,
    pressed: bool,
) -> (Set<u16>, Set<u16>) {
    let new_on = if pressed { on.union(keys) } else { on };
    let new_off = if pressed { off } else { off.union(keys) };
    (new_on, new_off.difference(new_on))
}

/// An update never drops a released key unless it is pressed now, a release
/// adds its keys to the released keys gathered so far (unless pressed since
/// the last send), a press adds its keys to the pressed ones, and nothing
/// else becomes released.
pub proof fn lemma_update_keeps_releases(on: Set<u16>, off: Set<u16>, keys: Set<u16>, pressed: bool)
    ensures
        ({
            let r = after_update(on, off, keys, pressed);
            &&& pressed ==> r.0 == on.union(keys)
            &&& !pressed ==> r.0 == on
            &&& forall|k: u16| off.contains(k) && !r.0.contains(k) ==> #[trigger] r.1.contains(k)
            &&& forall|k: u16| !pressed && keys.contains(k) && !on.contains(k) ==> #[trigger] r.1.contains(k)
            &&& forall|k: u16| #[trigger] r.1.contains(k) ==> !r.0.contains(k) && (off.contains(k) || (!pressed
                && keys.contains(k)))
        }),
{
}

/// Two releases between sends add up: both sets of keys are released, but
/// those pressed since the last send.
pub proof fn lemma_releases_accumulate(on: Set<u16>, off: Set<u16>, first: Set<u16>, second: Set<u16>)
    ensures
        ({
            let a = after_update(on, off, first, false);
            after_update(a.0, a.1, second, false) == (on, off.union(first).union(second).difference(on))
        }),
{
    let a = after_update(on, off, first, false);
    let b = after_update(a.0, a.1, second, false);
    assert(b.1 =~= off.union(first).union(second).difference(on));
}

/// The keys to send to the keyboard: first the releases, then the presses.
#[derive(Debug)]
pub struct KeyPresses {
    pub releases: Vec<u16>,
    pub presses: Vec<u16>,
}

/// The keys pressed and released since the last send to the keyboard, and
/// the keys that the keyboard holds down: sent as pressed and not sent as
/// released since.
#[derive(Debug)]
pub struct KeyPressHandler {
    pub current_key_state: HashSet<u16>,
    pub current_off_key_state: HashSet<u16>,
    pub held: HashSet<u16>,
}

/// Adds every key of `keys` to `target`.
fn insert_all(target: &mut HashSet<u16>, keys: &Vec<u16>)
    ensures
        final(target)@ == old(target)@.union(keys@.to_set()),
{
    let ghost start = target@;
    let mut i: usize = 0;
    assert(keys@.take(0).to_set() =~= Set::<u16>::empty());
    while i < keys.len()
        invariant
            i <= keys@.len(),
            target@ == start.union(keys@.take(i as int).to_set()),
        decreases keys@.len() - i,
    {
        let k = keys[i];
        target.insert(k);
        proof {
            assert(keys@.take(i + 1) =~= keys@.take(i as int).push(k));
            lemma_push_to_set(keys@.take(i as int), k);
            assert(target@ =~= start.union(keys@.take(i + 1).to_set()));
        }
        i = i + 1;
    }
    assert(keys@.take(i as int) =~= keys@);
}

/// Takes every key of `keys` out of `target`.
fn remove_all(target: &mut HashSet<u16>, keys: &Vec<u16>)
    ensures
        final(target)@ == old(target)@.difference(keys@.to_set()),
{
    let ghost start = target@;
    let mut i: usize = 0;
    assert(keys@.take(0).to_set() =~= Set::<u16>::empty());
    while i < keys.len()
        invariant
            i <= keys@.len(),
            target@ == start.difference(keys@.take(i as int).to_set()),
        decreases keys@.len() - i,
    {
        let k = keys[i];
        target.remove(&k);
        proof {
            assert(keys@.take(i + 1) =~= keys@.take(i as int).push(k));
            lemma_push_to_set(keys@.take(i as int), k);
            assert(target@ =~= start.difference(keys@.take(i + 1).to_set()));
        }
        i = i + 1;
    }
    assert(keys@.take(i as int) =~= keys@);
}

impl KeyPressHandler {
    /// A handler with no key pressed, released or held.
    pub fn new() -> (h: KeyPressHandler)
        ensures
            h.current_key_state@ == Set::<u16>::empty(),
            h.current_off_key_state@ == Set::<u16>::empty(),
            h.held@ == Set::<u16>::empty(),
    {
        KeyPressHandler {
            current_key_state: HashSet::new(),
            current_off_key_state: HashSet::new(),
            held: HashSet::new(),
        }
    }

    /// Records that the keys `event.0` were pressed (`event.1`) or released.
    ///
    /// A key pressed since the last send stays pressed: it is taken out of
    /// the released keys, whichever came first.
    pub fn update_key_presses(&mut self, event: (Vec<u16>, bool))
        ensures
            (final(self).current_key_state@, final(self).current_off_key_state@) == after_update(
                old(self).current_key_state@,
                old(self).current_off_key_state@,
                event.0@.to_set(),
                event.1,
            ),
            event.1 ==> final(self).current_key_state@ == old(self).current_key_state@.union(event.0@.to_set()),
            !event.1 ==> final(self).current_key_state@ == old(self).current_key_state@,
            forall|k: u16|
                old(self).current_off_key_state@.contains(k) && !final(self).current_key_state@.contains(k)
                    ==> #[trigger] final(self).current_off_key_state@.contains(k),
            forall|k: u16|
                !event.1 && event.0@.contains(k) && !old(self).current_key_state@.contains(k)
                    ==> #[trigger] final(self).current_off_key_state@.contains(k),
            forall|k: u16|
                #[trigger] final(self).current_off_key_state@.contains(k) ==> !final(self).current_key_state@.contains(k)
                    && (old(self).current_off_key_state@.contains(k) || (!event.1 && event.0@.contains(k))),
            final(self).held@ == old(self).held@,
    {
        let (keys, pressed) = event;
        let ghost on0 = self.current_key_state@;
        let ghost off0 = self.current_off_key_state@;
        let ghost held0 = self.held@;
        let mut i: usize = 0;
        while i < keys.len()
            invariant
                i <= keys@.len(),
                self.held@ == held0,
                pressed ==> self.current_key_state@ == on0.union(keys@.take(i as int).to_set()),
                pressed ==> self.current_off_key_state@ == off0,
                !pressed ==> self.current_key_state@ == on0,
                !pressed ==> self.current_off_key_state@ == off0.union(keys@.take(i as int).to_set()),
            decreases keys@.len() - i,
        {
            let k = keys[i];
            if pressed {
                self.current_key_state.insert(k);
            } else {
                self.current_off_key_state.insert(k);
            }
            proof {
                assert(keys@.take(i + 1) =~= keys@.take(i as int).push(k));
                lemma_push_to_set(keys@.take(i as int), k);
            }
            i = i + 1;
        }
        assert(keys@.take(i as int) =~= keys@);
        let ghost off1 = self.current_off_key_state@;
        let offs = set_elements(&self.current_off_key_state);
        let mut j: usize = 0;
        while j < offs.len()
            invariant
                j <= offs@.len(),
                self.held@ == held0,
                offs@.to_set() == off1,
                self.current_key_state@ == if pressed { on0.union(keys@.to_set()) } else { on0 },
                self.current_off_key_state@ == off1.difference(
                    offs@.take(j as int).to_set().intersect(self.current_key_state@),
                ),
            decreases offs@.len() - j,
        {
            let k = offs[j];
            if self.current_key_state.contains(&k) {
                self.current_off_key_state.remove(&k);
            }
            proof {
                assert(offs@.take(j + 1) =~= offs@.take(j as int).push(k));
                lemma_push_to_set(offs@.take(j as int), k);
                assert(self.current_off_key_state@ =~= off1.difference(
                    offs@.take(j + 1).to_set().intersect(self.current_key_state@)));
            }
            j = j + 1;
        }
        proof {
            assert(offs@.take(j as int) =~= offs@);
            assert(self.current_off_key_state@ =~= off1.difference(self.current_key_state@));
            lemma_update_keeps_releases(on0, off0, keys@.to_set(), pressed);
            assert forall|k: u16| keys@.contains(k) implies keys@.to_set().contains(k) by {}
        }
    }

    /// Hands out the keys to release and to press, each once, and forgets
    /// them. The keys released leave the held keys, then the keys pressed
    /// join them: the keyboard is sent the releases first.
    pub fn drain_key_presses(&mut self) -> (p: KeyPresses)
        ensures
            p.releases@.to_set() == old(self).current_off_key_state@,
            p.releases@.no_duplicates(),
            p.presses@.to_set() == old(self).current_key_state@,
            p.presses@.no_duplicates(),
            final(self).current_key_state@ == Set::<u16>::empty(),
            final(self).current_off_key_state@ == Set::<u16>::empty(),
            final(self).held@ == old(self).held@.difference(old(self).current_off_key_state@).union(
                old(self).current_key_state@,
            ),
    {
        let releases = set_elements(&self.current_off_key_state);
        let presses = set_elements(&self.current_key_state);
        remove_all(&mut self.held, &releases);
        insert_all(&mut self.held, &presses);
        self.current_key_state.clear();
        self.current_off_key_state.clear();
        KeyPresses { releases, presses }
    }

    /// The keys to release before input stops: every key that the keyboard
    /// holds down, and every key pressed since the last send.
    pub fn keys_to_return_to_0(&self) -> (keys: Vec<u16>)
        ensures
            keys@.to_set() == self.held@.union(self.current_key_state@),
            keys@.no_duplicates(),
    {
        let mut all: HashSet<u16> = HashSet::new();
        let held = set_elements(&self.held);
        let pressed = set_elements(&self.current_key_state);
        insert_all(&mut all, &held);
        insert_all(&mut all, &pressed);
        assert(all@ =~= self.held@.union(self.current_key_state@));
        set_elements(&all)
    }
}

/// After an update no key is both pressed and released.
pub proof fn lemma_update_never_both(on: Set<u16>, off: Set<u16>, keys: Set<u16>, pressed: bool)
    ensures
        after_update(on, off, keys, pressed).0.disjoint(after_update(on, off, keys, pressed).1),
{
    let r = after_update(on, off, keys, pressed);
    assert(r.0.disjoint(r.1));
}

/// Between two sends, a press and a release give the same keys whichever
/// comes first, and the pressed keys are sent as pressed.
pub proof fn lemma_press_and_release_commute(
    on: Set<u16>,
    off: Set<u16>,
    pressed: Set<u16>,
    released: Set<u16>,
)
    ensures
        ({
            let a = after_update(on, off, pressed, true);
            let b = after_update(on, off, released, false);
            after_update(a.0, a.1, released, false) == after_update(b.0, b.1, pressed, true)
        }),
        ({
            let a = after_update(on, off, pressed, true);
            let c = after_update(a.0, a.1, released, false);
            pressed.subset_of(c.0) && c.1.disjoint(pressed)
        }),
{
    let a = after_update(on, off, pressed, true);
    let b = after_update(on, off, released, false);
    let c = after_update(a.0, a.1, released, false);
    let d = after_update(b.0, b.1, pressed, true);
    assert(c.0 =~= d.0);
    assert(c.1 =~= d.1);
}

/// The held keys after a send: the keys released leave them, then the keys
/// pressed join them.
pub open spec fn held_after_send(held: Set<u16>, on: Set<u16>, off: Set<u16>) -> Set<u16> {
    held.difference(off).union(on)
}

/// A key sent as pressed is held afterwards, and a held key stays held until
/// a send releases it; the keys returned to released before input stops are
/// all held keys.
pub proof fn lemma_sent_keys_stay_held(held: Set<u16>, on: Set<u16>, off: Set<u16>, k: u16)
    ensures
        on.contains(k) ==> held_after_send(held, on, off).contains(k),
        held.contains(k) && !off.contains(k) ==> held_after_send(held, on, off).contains(k),
        !held.contains(k) && !on.contains(k) ==> !held_after_send(held, on, off).contains(k),
{
}

/// What happens to the key presses: keys pressed or released (an update),
/// or a send to the keyboard.
pub enum KeyOp {
    Update(Set<u16>, bool),
    Send,
}

/// The pressed, released and held keys after one operation.
pub open spec fn key_op(state: (Set<u16>, Set<u16>, Set<u16>), op: KeyOp) -> (Set<u16>, Set<u16>, Set<u16>) {
    match op {
        KeyOp::Update(keys, pressed) => {
            let r = after_update(state.0, state.1, keys, pressed);
            (r.0, r.1, state.2)
        },
        KeyOp::Send => (Set::empty(), Set::empty(), held_after_send(state.2, state.0, state.1)),
    }
}

/// The pressed, released and held keys after a run of operations.
pub open spec fn key_run(state: (Set<u16>, Set<u16>, Set<u16>), ops: Seq<KeyOp>) -> (Set<u16>, Set<u16>, Set<u16>)
    decreases ops.len(),
{
    if ops.len() == 0 {
        state
    } else {
        key_op(key_run(state, ops.drop_last()), ops.last())
    }
}

/// Whether an operation releases key `k`.
pub open spec fn releases_key(op: KeyOp, k: u16) -> bool {
    op matches KeyOp::Update(keys, pressed) && !pressed && keys.contains(k)
}

/// A run of operations followed by another is the second run from where the
/// first ends.
pub proof fn lemma_key_run_append(state: (Set<u16>, Set<u16>, Set<u16>), a: Seq<KeyOp>, b: Seq<KeyOp>)
    ensures
        key_run(state, a + b) == key_run(key_run(state, a), b),
    decreases b.len(),
{
    if b.len() == 0 {
        assert(a + b =~= a);
    } else {
        lemma_key_run_append(state, a, b.drop_last());
        assert((a + b).drop_last() =~= a + b.drop_last());
        assert((a + b).last() == b.last());
    }
}

/// A key sent as pressed is among the keys returned to released before input
/// stops, however many polls later, unless some update releases it in
/// between: the keyboard is never left holding a key.
pub proof fn lemma_sent_keys_are_returned(
    state: (Set<u16>, Set<u16>, Set<u16>),
    ops: Seq<KeyOp>,
    m: int,
    k: u16,
)
    requires
        0 <= m < ops.len(),
        ops[m] is Send,
        key_run(state, ops.take(m)).0.contains(k),
        forall|j: int| m < j < ops.len() ==> !releases_key(#[trigger] ops[j], k),
    ensures
        key_run(state, ops).2.union(key_run(state, ops).0).contains(k),
{
    lemma_key_kept_until_released(state, ops, m, k, ops.len() as int);
    assert(ops.take(ops.len() as int) =~= ops);
}

proof fn lemma_key_kept_until_released(
    state: (Set<u16>, Set<u16>, Set<u16>),
    ops: Seq<KeyOp>,
    m: int,
    k: u16,
    n: int,
)
    requires
        0 <= m < n <= ops.len(),
        ops[m] is Send,
        key_run(state, ops.take(m)).0.contains(k),
        forall|j: int| m < j < ops.len() ==> !releases_key(#[trigger] ops[j], k),
    ensures
        key_run(state, ops.take(n)).2.union(key_run(state, ops.take(n)).0).contains(k),
        !key_run(state, ops.take(n)).1.contains(k),
    decreases n - m,
{
    assert(ops.take(n).drop_last() =~= ops.take(n - 1));
    assert(ops.take(n).last() == ops[n - 1]);
    if n - 1 > m {
        lemma_key_kept_until_released(state, ops, m, k, n - 1);
        assert(!releases_key(ops[n - 1], k));
    }
}

/// The operations that applying codes in order amounts to: an update for
/// each mapped code, with the keys it is mapped to.
pub open spec fn code_ops(device: Map<u8, crate::mapping::KeyList>, codes: Seq<(u8, bool)>) -> Seq<KeyOp>
    decreases codes.len(),
{
    if codes.len() == 0 {
        Seq::empty()
    } else {
        let c = codes.last();
        if device.contains_key(c.0) {
            code_ops(device, codes.drop_last()).push(
                KeyOp::Update(device[c.0].key_list@.to_set(), c.1),
            )
        } else {
            code_ops(device, codes.drop_last())
        }
    }
}

} // verus!
