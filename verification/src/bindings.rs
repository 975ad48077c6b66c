use vstd::prelude::*;
use crate::modifiers::ModifierSet;

verus! {

/// Symbolic identifier of a physical or logical key, independent of the
/// modifier state held with it.
#[derive(Clone, Copy, PartialEq, Eq, Structural, Debug)]
pub struct KeyCode(pub u32);

/// Identifier of the action a binding invokes. To the registry an action is
/// opaque: a zero-argument, side-effecting operation the caller owns. The
/// registry only decides which one fires.
#[derive(Clone, Copy, PartialEq, Eq, Structural, Debug)]
pub struct ActionId(pub u64);

/// How a binding's modifiers are matched against the modifiers held at
/// press time.
#[derive(Clone, Copy, PartialEq, Eq, Structural, Debug)]
pub enum MatchMode {
    /// Fires only when the held modifiers equal this set exactly.
    Exact(ModifierSet),
    /// Fires when this required subset is held, ignoring any extra modifiers
    /// also held.
    Masked(ModifierSet),
}

/// One registered binding: a key, a modifier-matching rule, and the action
/// to invoke when the rule matches a key press.
#[derive(Clone, Copy, PartialEq, Eq, Structural, Debug)]
pub struct Binding {
    pub key: KeyCode,
    pub mode: MatchMode,
    pub action: ActionId,
}

/// The required modifier set of a masked mode, or the exact set of an exact
/// mode.
pub open spec fn required_of(m: MatchMode) -> ModifierSet {
    match m {
        MatchMode::Exact(s) => s,
        MatchMode::Masked(s) => s,
    }
}

/// Two bindings conflict when a caller may not register both: same key and
/// the same matching rule. Registering the second replaces the first.
pub open spec fn conflicts(a: Binding, b: Binding) -> bool {
    a.key == b.key && a.mode == b.mode
}

/// Well-formed table: no two registered bindings conflict. For a given key
/// this leaves at most one exact binding per modifier set and at most one
/// masked binding per required subset.
pub open spec fn table_wf(s: Seq<Binding>) -> bool {
    forall|i: int, j: int| 0 <= i < j < s.len() ==> !#[trigger] conflicts(s[i], s[j])
}

/// Binding `i` is an exact binding for key `key` whose modifier set equals
/// `pressed`.
pub open spec fn exact_at(s: Seq<Binding>, i: int, key: KeyCode, pressed: ModifierSet) -> bool {
    0 <= i < s.len() && s[i].key == key && s[i].mode == MatchMode::Exact(pressed)
}

pub open spec fn has_exact(s: Seq<Binding>, key: KeyCode, pressed: ModifierSet) -> bool {
    exists|i: int| exact_at(s, i, key, pressed)
}

/// Binding `i` is a masked binding for `key` whose required subset is held
/// within `pressed`: a candidate to fire.
pub open spec fn masked_at(s: Seq<Binding>, i: int, key: KeyCode, pressed: ModifierSet) -> bool {
    0 <= i < s.len() && s[i].key == key && s[i].mode is Masked && required_of(
        s[i].mode,
    ).spec_subset_of(pressed)
}

pub open spec fn has_masked(s: Seq<Binding>, key: KeyCode, pressed: ModifierSet) -> bool {
    exists|i: int| masked_at(s, i, key, pressed)
}

/// Binding `i` is the masked candidate that wins: among the candidates its
/// required subset is largest, and on a tie it is the earliest registered.
pub open spec fn best_masked_at(
    s: Seq<Binding>,
    i: int,
    key: KeyCode,
    pressed: ModifierSet,
) -> bool {
    masked_at(s, i, key, pressed) && forall|j: int|
        #[trigger] masked_at(s, j, key, pressed) ==> required_of(s[j].mode).spec_size()
            < required_of(s[i].mode).spec_size() || (required_of(s[j].mode).spec_size()
            == required_of(s[i].mode).spec_size() && i <= j)
}

/// The binding that fires for a key press, resolved over the whole table:
/// an exact match wins outright; otherwise the best masked candidate; an
/// unmatched press is dropped.
pub open spec fn spec_dispatch(s: Seq<Binding>, key: KeyCode, pressed: ModifierSet) -> Option<
    ActionId,
> {
    if has_exact(s, key, pressed) {
        Some(s[choose|i: int| exact_at(s, i, key, pressed)].action)
    } else if has_masked(s, key, pressed) {
        Some(s[choose|i: int| best_masked_at(s, i, key, pressed)].action)
    } else {
        None
    }
}

/// In a well-formed table the exact binding for a (key, modifier-set) pair
/// is unique.
pub proof fn lemma_exact_unique(s: Seq<Binding>, key: KeyCode, pressed: ModifierSet, i: int, j: int)
    requires
        table_wf(s),
        exact_at(s, i, key, pressed),
        exact_at(s, j, key, pressed),
    ensures
        i == j,
{
    if i < j {
        assert(conflicts(s[i], s[j]));
    }
    if j < i {
        assert(conflicts(s[j], s[i]));
    }
}

/// The winning masked candidate is unique: two winners bound each other's
/// size and position.
pub proof fn lemma_best_masked_unique(
    s: Seq<Binding>,
    key: KeyCode,
    pressed: ModifierSet,
    i: int,
    j: int,
)
    requires
        best_masked_at(s, i, key, pressed),
        best_masked_at(s, j, key, pressed),
    ensures
        i == j,
{
    assert(masked_at(s, i, key, pressed));
    assert(masked_at(s, j, key, pressed));
}

/// Dispatching a press that an exact binding matches invokes exactly that
/// binding's action, and no other binding registered for the key.
pub proof fn lemma_dispatch_exact(s: Seq<Binding>, key: KeyCode, pressed: ModifierSet, i: int)
    requires
        table_wf(s),
        exact_at(s, i, key, pressed),
    ensures
        spec_dispatch(s, key, pressed) == Some(s[i].action),
{
    let w = choose|k: int| exact_at(s, k, key, pressed);
    lemma_exact_unique(s, key, pressed, w, i);
}

/// Without an exact match, the winning masked candidate's action is the one
/// dispatched.
pub proof fn lemma_dispatch_best_masked(s: Seq<Binding>, key: KeyCode, pressed: ModifierSet, i: int)
    requires
        !has_exact(s, key, pressed),
        best_masked_at(s, i, key, pressed),
    ensures
        spec_dispatch(s, key, pressed) == Some(s[i].action),
{
    assert(masked_at(s, i, key, pressed));
    let w = choose|k: int| best_masked_at(s, k, key, pressed);
    lemma_best_masked_unique(s, key, pressed, w, i);
}

/// A masked binding whose required subset is empty is a candidate for every
/// press of its key, the empty modifier set included: such a press is never
/// dropped.
pub proof fn lemma_empty_masked_always_fires(
    s: Seq<Binding>,
    i: int,
    key: KeyCode,
    pressed: ModifierSet,
)
    requires
        0 <= i < s.len(),
        s[i].key == key,
        s[i].mode == MatchMode::Masked(
            ModifierSet { shift: false, ctrl: false, alt: false, logo: false },
        ),
    ensures
        masked_at(s, i, key, pressed),
        spec_dispatch(s, key, pressed) is Some,
{
    assert(masked_at(s, i, key, pressed));
    if !has_exact(s, key, pressed) {
        assert(has_masked(s, key, pressed));
    }
}

/// A key whose only registered binding is masked with an empty required
/// subset dispatches to that binding's action for every press of the key,
/// whatever modifiers happen to be held — hardware keys bound this way are
/// never blocked by a chord held alongside them.
pub proof fn lemma_sole_empty_masked_fires(
    s: Seq<Binding>,
    i: int,
    key: KeyCode,
    pressed: ModifierSet,
)
    requires
        0 <= i < s.len(),
        s[i].key == key,
        s[i].mode == MatchMode::Masked(
            ModifierSet { shift: false, ctrl: false, alt: false, logo: false },
        ),
        forall|j: int| 0 <= j < s.len() && #[trigger] s[j].key == key ==> j == i,
    ensures
        spec_dispatch(s, key, pressed) == Some(s[i].action),
{
    assert forall|j: int| !exact_at(s, j, key, pressed) by {
        if exact_at(s, j, key, pressed) {
            assert(s[j].key == key);
        }
    }
    assert(masked_at(s, i, key, pressed));
    assert forall|j: int| #[trigger] masked_at(s, j, key, pressed) implies required_of(
        s[j].mode,
    ).spec_size() < required_of(s[i].mode).spec_size() || (required_of(s[j].mode).spec_size()
        == required_of(s[i].mode).spec_size() && i <= j) by {
        assert(s[j].key == key);
    }
    lemma_dispatch_best_masked(s, key, pressed, i);
}

/// Resolution order: when both an exact binding for the press and a masked
/// candidate exist, the exact binding fires, not the masked one.
pub proof fn lemma_exact_beats_masked(
    s: Seq<Binding>,
    key: KeyCode,
    pressed: ModifierSet,
    i: int,
    j: int,
)
    requires
        table_wf(s),
        exact_at(s, i, key, pressed),
        masked_at(s, j, key, pressed),
    ensures
        spec_dispatch(s, key, pressed) == Some(s[i].action),
{
    lemma_dispatch_exact(s, key, pressed, i);
}

/// A press no binding matches is dropped silently.
pub proof fn lemma_dispatch_unmatched(s: Seq<Binding>, key: KeyCode, pressed: ModifierSet)
    requires
        !has_exact(s, key, pressed),
        !has_masked(s, key, pressed),
    ensures
        spec_dispatch(s, key, pressed) is None,
{
}

/// Maps each key, with the modifier state required alongside it, to the
/// action to invoke; registration order is kept and breaks specificity ties
/// among masked bindings.
pub struct BindingTable {
    entries: Vec<Binding>,
}

impl View for BindingTable {
    type V = Seq<Binding>;

    closed spec fn view(&self) -> Seq<Binding> {
        self.entries@
    }
}

impl BindingTable {
    pub open spec fn wf(self) -> bool {
        table_wf(self@)
    }

    /// Empty table: nothing registered, every press dropped.
    pub fn new() -> (r: BindingTable)
        ensures
            r@ == Seq::<Binding>::empty(),
            r.wf(),
    {
        BindingTable { entries: Vec::new() }
    }

    /// Register a binding. A conflicting earlier registration (same key,
    /// same matching rule) is replaced: the last registration wins, and the
    /// replacement counts as newest in the registration order. The returned
    /// flag reports such a conflict so the caller can surface a warning;
    /// registration itself never fails.
    pub fn register(&mut self, b: Binding) -> (replaced: bool)
        requires
            old(self).wf(),
        ensures
            final(self).wf(),
            replaced == exists|i: int|
                0 <= i < old(self)@.len() && #[trigger] conflicts(old(self)@[i], b),
            replaced ==> exists|i: int|
                0 <= i < old(self)@.len() && #[trigger] conflicts(old(self)@[i], b)
                    && final(self)@ == old(self)@.remove(i).push(b),
            !replaced ==> final(self)@ == old(self)@.push(b),
    {
        let ghost s0 = self@;
        let n = self.entries.len();
        let mut idx: usize = 0;
        while idx < n
            invariant
                self@ == s0,
                s0 == old(self)@,
                table_wf(s0),
                n == s0.len(),
                idx <= n,
                forall|k: int| 0 <= k < idx ==> !#[trigger] conflicts(s0[k], b),
            decreases n - idx,
        {
            let e = self.entries[idx];
            if e.key == b.key && e.mode == b.mode {
                assert(conflicts(s0[idx as int], b));
                self.entries.remove(idx);
                self.entries.push(b);
                proof {
                    let i = idx as int;
                    let t = s0.remove(i);
                    assert(self@ == t.push(b));
                    s0.remove_ensures(i);
                    assert forall|p: int, q: int| 0 <= p < q < self@.len() implies !#[trigger] conflicts(
                        self@[p],
                        self@[q],
                    ) by {
                        if q < self@.len() - 1 {
                            // two survivors of the old table
                            let p0 = if p < i {
                                p
                            } else {
                                p + 1
                            };
                            let q0 = if q < i {
                                q
                            } else {
                                q + 1
                            };
                            assert(self@[p] == t[p] && t[p] == s0[p0]);
                            assert(self@[q] == t[q] && t[q] == s0[q0]);
                            assert(!conflicts(s0[p0], s0[q0]));
                        } else {
                            // the new binding against a survivor: a conflict
                            // would make the survivor conflict with the
                            // replaced entry too, against well-formedness
                            let p0 = if p < i {
                                p
                            } else {
                                p + 1
                            };
                            assert(self@[p] == t[p] && t[p] == s0[p0]);
                            assert(self@[q] == b);
                            if conflicts(s0[p0], b) {
                                if p0 < i {
                                    assert(conflicts(s0[p0], s0[i]));
                                } else {
                                    assert(conflicts(s0[i], s0[p0]));
                                }
                            }
                        }
                    }
                    assert(s0 == old(self)@);
                    assert(exists|k: int|
                        0 <= k < old(self)@.len() && #[trigger] conflicts(old(self)@[k], b)
                            && self@ == old(self)@.remove(k).push(b)) by {
                        assert(conflicts(old(self)@[i], b));
                        assert(self@ == old(self)@.remove(i).push(b));
                    }
                }
                return true;
            }
            idx += 1;
        }
        self.entries.push(b);
        proof {
            assert forall|p: int, q: int| 0 <= p < q < self@.len() implies !#[trigger] conflicts(
                self@[p],
                self@[q],
            ) by {
                if q < self@.len() - 1 {
                    assert(self@[p] == s0[p]);
                    assert(self@[q] == s0[q]);
                } else {
                    assert(self@[p] == s0[p]);
                    assert(self@[q] == b);
                }
            }
        }
        false
    }

    /// Resolve one observed key press and hand back the action to invoke,
    /// if any. An exact binding for the held modifiers wins outright;
    /// otherwise, among the masked bindings whose required subset is held,
    /// the largest required subset wins and a tie goes to the earliest
    /// registered; a press nothing matches is dropped (`None`), which is
    /// expected and not an error.
    pub fn dispatch(&self, key: KeyCode, pressed: ModifierSet) -> (r: Option<ActionId>)
        requires
            self.wf(),
        ensures
            r == spec_dispatch(self@, key, pressed),
            (r is Some) == (has_exact(self@, key, pressed) || has_masked(self@, key, pressed)),
    {
        let s = Ghost(self@);
        let n = self.entries.len();

        let mut idx: usize = 0;
        while idx < n
            invariant
                s@ == self@,
                self.wf(),
                n == self@.len(),
                idx <= n,
                forall|k: int| 0 <= k < idx ==> !exact_at(s@, k, key, pressed),
            decreases n - idx,
        {
            let e = self.entries[idx];
            if e.key == key {
                if let MatchMode::Exact(m) = e.mode {
                    if m == pressed {
                        proof {
                            assert(exact_at(s@, idx as int, key, pressed));
                            lemma_dispatch_exact(s@, key, pressed, idx as int);
                        }
                        return Some(e.action);
                    }
                }
            }
            idx += 1;
        }
        assert(!has_exact(self@, key, pressed));

        let mut best: Option<usize> = None;
        let mut best_size: u32 = 0;
        let mut idx2: usize = 0;
        while idx2 < n
            invariant
                s@ == self@,
                n == self@.len(),
                idx2 <= n,
                best is None ==> forall|k: int| 0 <= k < idx2 ==> !masked_at(s@, k, key, pressed),
                best matches Some(bi) ==> (bi as int) < idx2 as int && masked_at(
                    s@,
                    bi as int,
                    key,
                    pressed,
                ) && best_size == required_of(s@[bi as int].mode).spec_size() && forall|k: int|
                    0 <= k < idx2 && #[trigger] masked_at(s@, k, key, pressed) ==> required_of(
                        s@[k].mode,
                    ).spec_size() < best_size || (required_of(s@[k].mode).spec_size() == best_size
                        && bi as int <= k),
            decreases n - idx2,
        {
            let e = self.entries[idx2];
            if e.key == key {
                if let MatchMode::Masked(req) = e.mode {
                    if req.subset_of(pressed) {
                        assert(masked_at(s@, idx2 as int, key, pressed));
                        let sz = req.size();
                        match best {
                            Option::None => {
                                best = Some(idx2);
                                best_size = sz;
                            },
                            Option::Some(_) => {
                                if sz > best_size {
                                    best = Some(idx2);
                                    best_size = sz;
                                }
                            },
                        }
                    }
                }
            }
            idx2 += 1;
        }
        match best {
            Option::None => {
                assert(!has_masked(self@, key, pressed));
                None
            },
            Option::Some(bi) => {
                proof {
                    assert(best_masked_at(s@, bi as int, key, pressed));
                    lemma_dispatch_best_masked(s@, key, pressed, bi as int);
                }
                Some(self.entries[bi].action)
            },
        }
    }

    /// Number of registered bindings.
    pub fn len(&self) -> (r: usize)
        ensures
            r == self@.len(),
    {
        self.entries.len()
    }
}

} // verus!
