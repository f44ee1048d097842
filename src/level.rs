use vstd::prelude::*;

use crate::geometry::Vector2i;
use crate::tile::{LEVER_OFF, LEVER_ON};
use crate::tilemap::{Tilemap, TilemapView};

verus! {

/// A secondary effect of flipping a lever.
#[derive(PartialEq, Eq, Structural, Clone, Copy, Debug)]
pub enum LeverEffect {
    /// Records `id` at `pos`.
    SetTile { pos: Vector2i, id: usize },
    /// Flips a pair of cells: when `first` holds `on`, `first` becomes `off`
    /// and `second` becomes `on`; otherwise `first` becomes `on` and `second`
    /// becomes `off`.
    Swap { first: Vector2i, second: Vector2i, on: usize, off: usize },
}

/// An effect, fired by every lever (`lever` is none) or by the lever at one
/// cell.
#[derive(PartialEq, Eq, Structural, Clone, Copy, Debug)]
pub struct LeverRule {
    pub lever: Option<Vector2i>,
    pub effect: LeverEffect,
}

pub open spec fn rule_applies(rule: LeverRule, at: Vector2i) -> bool {
    match rule.lever {
        None => true,
        Some(p) => p == at,
    }
}

pub open spec fn apply_effect(v: TilemapView, e: LeverEffect) -> TilemapView {
    match e {
        LeverEffect::SetTile { pos, id } => v.set(pos, id),
        LeverEffect::Swap { first, second, on, off } => if v.id_at(first) == Some(on) {
            v.set(first, off).set(second, on)
        } else {
            v.set(first, on).set(second, off)
        },
    }
}

/// The first `n` rules of a hook, fired in order for the lever at `at`.
pub open spec fn apply_hook(v: TilemapView, rules: Seq<LeverRule>, at: Vector2i, n: nat) -> TilemapView
    decreases n,
{
    if n == 0 || n > rules.len() {
        v
    } else {
        let prev = apply_hook(v, rules, at, (n - 1) as nat);
        if rule_applies(rules[n - 1], at) {
            apply_effect(prev, rules[n - 1].effect)
        } else {
            prev
        }
    }
}

/// Some rule of the hook may write the cell `p`.
pub open spec fn hook_writes(rules: Seq<LeverRule>, p: Vector2i) -> bool {
    exists|i: int|
        0 <= i < rules.len() && match #[trigger] rules[i].effect {
            LeverEffect::SetTile { pos, id } => pos == p,
            LeverEffect::Swap { first, second, on, off } => first == p || second == p,
        }
}

/// The lever id that `id` flips to, for a lever id.
pub open spec fn flipped(id: usize) -> usize {
    if id == LEVER_OFF {
        LEVER_ON
    } else {
        LEVER_OFF
    }
}

/// Toggling the tile at `at`: a lever flips and the hook fires for it; any
/// other cell is left alone. Gives the map and whether a lever flipped.
pub open spec fn toggled(v: TilemapView, rules: Seq<LeverRule>, at: Vector2i) -> (TilemapView, bool) {
    match v.id_at(at) {
        Some(id) => if id == LEVER_OFF || id == LEVER_ON {
            (apply_hook(v.set(at, flipped(id)), rules, at, rules.len()), true)
        } else {
            (v, false)
        },
        None => (v, false),
    }
}

/// A level: its tilemap and its lever hook, the rules fired, in order,
/// whenever one of its levers flips (no rules: no secondary effects).
pub struct Level {
    pub tilemap: Tilemap,
    pub lever_hook: Vec<LeverRule>,
}

impl Level {
    pub fn new(tilemap: Tilemap, lever_hook: Vec<LeverRule>) -> (r: Level)
        ensures
            r.tilemap@ == tilemap@,
            r.lever_hook@ == lever_hook@,
    {
        Level { tilemap, lever_hook }
    }

    fn apply(&mut self, effect: LeverEffect)
        ensures
            final(self).tilemap@ == apply_effect(old(self).tilemap@, effect),
            final(self).lever_hook@ == old(self).lever_hook@,
    {
        match effect {
            LeverEffect::SetTile { pos, id } => {
                self.tilemap.set_tile(pos, id);
            },
            LeverEffect::Swap { first, second, on, off } => {
                let holds_on = match self.tilemap.get_tile(&first) {
                    Some(t) => t.id() == on,
                    None => false,
                };
                if holds_on {
                    self.tilemap.set_tile(first, off);
                    self.tilemap.set_tile(second, on);
                } else {
                    self.tilemap.set_tile(first, on);
                    self.tilemap.set_tile(second, off);
                }
            },
        }
    }

    /// Fires the lever hook for the lever at `(x, y)`.
    pub fn on_lever_flip(&mut self, x: i32, y: i32)
        ensures
            final(self).tilemap@ == apply_hook(
                old(self).tilemap@,
                old(self).lever_hook@,
                Vector2i { x, y },
                old(self).lever_hook@.len(),
            ),
            final(self).lever_hook@ == old(self).lever_hook@,
    {
        let at = Vector2i::new(x, y);
        let mut i: usize = 0;
        while i < self.lever_hook.len()
            invariant
                0 <= i <= self.lever_hook.len(),
                self.lever_hook@ == old(self).lever_hook@,
                self.tilemap@ == apply_hook(old(self).tilemap@, self.lever_hook@, at, i as nat),
            decreases self.lever_hook.len() - i,
        {
            let rule = self.lever_hook[i];
            let applies = match rule.lever {
                None => true,
                Some(p) => p == at,
            };
            if applies {
                self.apply(rule.effect);
            }
            i += 1;
        }
    }

    /// Toggles the lever at `at`, if the cell holds one, and fires the hook.
    /// Returns whether a lever flipped.
    pub fn toggle_lever(&mut self, at: Vector2i) -> (r: bool)
        ensures
            (final(self).tilemap@, r) == toggled(old(self).tilemap@, old(self).lever_hook@, at),
            final(self).lever_hook@ == old(self).lever_hook@,
    {
        let id = match self.tilemap.get_tile(&at) {
            Some(t) => t.id(),
            None => {
                return false;
            },
        };
        if id == LEVER_OFF || id == LEVER_ON {
            let next = if id == LEVER_OFF { LEVER_ON } else { LEVER_OFF };
            self.tilemap.set_tile(at, next);
            self.on_lever_flip(at.x, at.y);
            true
        } else {
            false
        }
    }
}

/// Firing rules that never write `p` leaves `p` and the catalog as they were.
proof fn lemma_hook_keeps(v: TilemapView, rules: Seq<LeverRule>, at: Vector2i, p: Vector2i, n: nat)
    requires
        !hook_writes(rules, p),
    ensures
        apply_hook(v, rules, at, n).tileset == v.tileset,
        apply_hook(v, rules, at, n).cells.contains_key(p) == v.cells.contains_key(p),
        v.cells.contains_key(p) ==> apply_hook(v, rules, at, n).cells[p] == v.cells[p],
    decreases n,
{
    if n == 0 || n > rules.len() {
    } else {
        lemma_hook_keeps(v, rules, at, p, (n - 1) as nat);
        let k = n - 1;
        assert(!match rules[k].effect {
            LeverEffect::SetTile { pos, id } => pos == p,
            LeverEffect::Swap { first, second, on, off } => first == p || second == p,
        });
    }
}

/// Toggling a lever twice gives its cell its first id back, and the hook
/// fires on both toggles: where no rule of the hook writes the lever's own
/// cell, and the catalog resolves both lever ids to themselves.
pub proof fn lemma_double_toggle(v: TilemapView, rules: Seq<LeverRule>, at: Vector2i)
    requires
        v.id_at(at) == Some(LEVER_OFF) || v.id_at(at) == Some(LEVER_ON),
        !hook_writes(rules, at),
        LEVER_ON < v.tileset.len(),
        v.tileset[LEVER_OFF as int].id == LEVER_OFF,
        v.tileset[LEVER_ON as int].id == LEVER_ON,
    ensures
        toggled(v, rules, at).1,
        toggled(toggled(v, rules, at).0, rules, at).1,
        toggled(toggled(v, rules, at).0, rules, at).0.id_at(at) == v.id_at(at),
{
    let id = v.id_at(at).unwrap();
    let v1 = v.set(at, flipped(id));
    let w1 = toggled(v, rules, at).0;
    lemma_hook_keeps(v1, rules, at, at, rules.len());
    assert(w1.id_at(at) == Some(flipped(id)));
    let id2 = flipped(id);
    let v2 = w1.set(at, flipped(id2));
    lemma_hook_keeps(v2, rules, at, at, rules.len());
}

} // verus!
