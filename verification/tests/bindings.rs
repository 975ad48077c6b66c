use compositor_config::bindings::{ActionId, Binding, BindingTable, KeyCode, MatchMode};
use compositor_config::modifiers::ModifierSet;

fn mods(shift: bool, ctrl: bool, alt: bool, logo: bool) -> ModifierSet {
    ModifierSet { shift, ctrl, alt, logo }
}

fn binding(key: u32, mode: MatchMode, action: u64) -> Binding {
    Binding { key: KeyCode(key), mode, action: ActionId(action) }
}

#[test]
fn exact_binding_fires_its_own_action() {
    let mut t = BindingTable::new();
    let m = mods(false, false, false, true);
    t.register(binding(10, MatchMode::Exact(m), 1));
    t.register(binding(10, MatchMode::Exact(mods(true, false, false, true)), 2));
    t.register(binding(11, MatchMode::Exact(m), 3));
    assert_eq!(t.dispatch(KeyCode(10), m), Some(ActionId(1)));
    assert_eq!(
        t.dispatch(KeyCode(10), mods(true, false, false, true)),
        Some(ActionId(2))
    );
    assert_eq!(t.dispatch(KeyCode(11), m), Some(ActionId(3)));
}

#[test]
fn exact_binding_requires_exact_equality() {
    let mut t = BindingTable::new();
    t.register(binding(10, MatchMode::Exact(mods(false, false, false, true)), 1));
    // extra modifier held: the exact binding does not match, nothing else does
    assert_eq!(t.dispatch(KeyCode(10), mods(true, false, false, true)), None);
    assert_eq!(t.dispatch(KeyCode(10), ModifierSet::empty()), None);
}

#[test]
fn empty_masked_fires_for_every_modifier_state() {
    let mut t = BindingTable::new();
    t.register(binding(20, MatchMode::Masked(ModifierSet::empty()), 7));
    assert_eq!(t.dispatch(KeyCode(20), ModifierSet::empty()), Some(ActionId(7)));
    assert_eq!(
        t.dispatch(KeyCode(20), mods(true, true, true, true)),
        Some(ActionId(7))
    );
    assert_eq!(
        t.dispatch(KeyCode(20), mods(false, true, false, false)),
        Some(ActionId(7))
    );
}

#[test]
fn exact_beats_masked() {
    let mut t = BindingTable::new();
    t.register(binding(30, MatchMode::Masked(ModifierSet::empty()), 2));
    t.register(binding(30, MatchMode::Exact(mods(false, false, false, true)), 1));
    // with Super held exactly, the exact binding wins over the masked one
    assert_eq!(
        t.dispatch(KeyCode(30), mods(false, false, false, true)),
        Some(ActionId(1))
    );
    // any other modifier state falls back to the masked binding
    assert_eq!(t.dispatch(KeyCode(30), ModifierSet::empty()), Some(ActionId(2)));
    assert_eq!(
        t.dispatch(KeyCode(30), mods(true, false, false, true)),
        Some(ActionId(2))
    );
}

#[test]
fn largest_required_subset_wins() {
    let mut t = BindingTable::new();
    t.register(binding(40, MatchMode::Masked(mods(false, false, false, true)), 1));
    t.register(binding(40, MatchMode::Masked(mods(true, false, false, true)), 2));
    // both required subsets are held; the larger one is more specific
    assert_eq!(
        t.dispatch(KeyCode(40), mods(true, false, true, true)),
        Some(ActionId(2))
    );
    // only the smaller subset is held
    assert_eq!(
        t.dispatch(KeyCode(40), mods(false, false, false, true)),
        Some(ActionId(1))
    );
}

#[test]
fn specificity_tie_goes_to_earliest_registered() {
    let mut t = BindingTable::new();
    t.register(binding(50, MatchMode::Masked(mods(false, false, false, true)), 1));
    t.register(binding(50, MatchMode::Masked(mods(true, false, false, false)), 2));
    // both required subsets have size one and both are held
    assert_eq!(
        t.dispatch(KeyCode(50), mods(true, false, false, true)),
        Some(ActionId(1))
    );
}

#[test]
fn duplicate_exact_registration_last_wins() {
    let mut t = BindingTable::new();
    let m = mods(false, false, false, true);
    let replaced_first = t.register(binding(60, MatchMode::Exact(m), 1));
    assert!(!replaced_first);
    let replaced_second = t.register(binding(60, MatchMode::Exact(m), 2));
    assert!(replaced_second);
    assert_eq!(t.len(), 1);
    assert_eq!(t.dispatch(KeyCode(60), m), Some(ActionId(2)));
}

#[test]
fn duplicate_masked_registration_last_wins() {
    let mut t = BindingTable::new();
    let req = mods(false, true, false, false);
    t.register(binding(70, MatchMode::Masked(req), 1));
    let replaced = t.register(binding(70, MatchMode::Masked(req), 2));
    assert!(replaced);
    assert_eq!(t.len(), 1);
    assert_eq!(t.dispatch(KeyCode(70), req), Some(ActionId(2)));
}

#[test]
fn same_key_exact_and_masked_same_set_coexist() {
    let mut t = BindingTable::new();
    let m = mods(false, false, false, true);
    assert!(!t.register(binding(80, MatchMode::Exact(m), 1)));
    assert!(!t.register(binding(80, MatchMode::Masked(m), 2)));
    assert_eq!(t.len(), 2);
    assert_eq!(t.dispatch(KeyCode(80), m), Some(ActionId(1)));
    assert_eq!(t.dispatch(KeyCode(80), mods(true, false, false, true)), Some(ActionId(2)));
}

#[test]
fn unmapped_press_is_dropped() {
    let mut t = BindingTable::new();
    assert_eq!(t.dispatch(KeyCode(1), ModifierSet::empty()), None);
    t.register(binding(2, MatchMode::Exact(ModifierSet::empty()), 1));
    assert_eq!(t.dispatch(KeyCode(1), ModifierSet::empty()), None);
}

#[test]
fn subset_and_size() {
    let empty = ModifierSet::empty();
    let all = mods(true, true, true, true);
    assert!(empty.subset_of(empty));
    assert!(empty.subset_of(all));
    assert!(!all.subset_of(empty));
    assert!(mods(true, false, false, true).subset_of(all));
    assert_eq!(empty.size(), 0);
    assert_eq!(all.size(), 4);
    assert_eq!(mods(true, false, false, true).size(), 2);
}
