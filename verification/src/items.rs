//! Items: weapons, armor, potions, scrolls, inventories, and equipment.

use vstd::prelude::*;

use crate::dice::RollPlan;
use crate::skills::Proficiency;
use crate::spells::SpellId;

verus! {

/// Identifies an item within one simulation state.
#[derive(Clone, Copy, PartialEq, Eq, Structural, Debug, Hash)]
pub struct ItemId(pub u32);

/// Every weapon kind the rules know.
#[derive(Clone, Copy, PartialEq, Eq, Structural, Debug, Hash)]
pub enum WeaponType {
    Club,
    Dagger,
    Greatclub,
    Handaxe,
    Javelin,
    LightHammer,
    Mace,
    Quarterstaff,
    Sickle,
    Spear,
    CrossbowLight,
    Dart,
    Shortbow,
    Sling,
    Battleaxe,
    Flail,
    Glaive,
    Greataxe,
    Greatsword,
    Halberd,
    Lance,
    Longsword,
    Maul,
    Morningstar,
    Pike,
    Rapier,
    Scimitar,
    Shortsword,
    Trident,
    WarPick,
    Warhammer,
    Whip,
    Blowgun,
    CrossbowHeavy,
    Longbow,
    Net,
}

impl WeaponType {
    /// Every weapon kind, in a fixed canonical order.
    pub fn all() -> (r: Vec<WeaponType>)
        ensures
            r@.len() == 36,
    {
        let mut v: Vec<WeaponType> = Vec::new();
        v.push(WeaponType::Club);
        v.push(WeaponType::Dagger);
        v.push(WeaponType::Greatclub);
        v.push(WeaponType::Handaxe);
        v.push(WeaponType::Javelin);
        v.push(WeaponType::LightHammer);
        v.push(WeaponType::Mace);
        v.push(WeaponType::Quarterstaff);
        v.push(WeaponType::Sickle);
        v.push(WeaponType::Spear);
        v.push(WeaponType::CrossbowLight);
        v.push(WeaponType::Dart);
        v.push(WeaponType::Shortbow);
        v.push(WeaponType::Sling);
        v.push(WeaponType::Battleaxe);
        v.push(WeaponType::Flail);
        v.push(WeaponType::Glaive);
        v.push(WeaponType::Greataxe);
        v.push(WeaponType::Greatsword);
        v.push(WeaponType::Halberd);
        v.push(WeaponType::Lance);
        v.push(WeaponType::Longsword);
        v.push(WeaponType::Maul);
        v.push(WeaponType::Morningstar);
        v.push(WeaponType::Pike);
        v.push(WeaponType::Rapier);
        v.push(WeaponType::Scimitar);
        v.push(WeaponType::Shortsword);
        v.push(WeaponType::Trident);
        v.push(WeaponType::WarPick);
        v.push(WeaponType::Warhammer);
        v.push(WeaponType::Whip);
        v.push(WeaponType::Blowgun);
        v.push(WeaponType::CrossbowHeavy);
        v.push(WeaponType::Longbow);
        v.push(WeaponType::Net);
        v
    }
}

/// How proficient an actor is with a weapon kind.
#[derive(Clone, Copy, PartialEq, Eq, Structural, Debug, Hash)]
pub enum WeaponProficiency {
    NotProficient,
    HalfProficient,
    Proficient,
}

impl WeaponProficiency {
    /// The skill-style proficiency level this weapon proficiency grants.
    pub fn to_proficiency(self) -> (r: Proficiency)
        ensures
            r == spec_weapon_to_proficiency(self),
    {
        match self {
            WeaponProficiency::NotProficient => Proficiency::Untrained,
            WeaponProficiency::HalfProficient => Proficiency::HalfProficient,
            WeaponProficiency::Proficient => Proficiency::Proficient,
        }
    }
}

/// The skill-style proficiency level granted by a weapon proficiency.
pub open spec fn spec_weapon_to_proficiency(p: WeaponProficiency) -> Proficiency {
    match p {
        WeaponProficiency::NotProficient => Proficiency::Untrained,
        WeaponProficiency::HalfProficient => Proficiency::HalfProficient,
        WeaponProficiency::Proficient => Proficiency::Proficient,
    }
}

/// The first proficiency recorded for `weapon_type`, or none.
pub open spec fn spec_weapon_prof_lookup(
    entries: Seq<(WeaponType, WeaponProficiency)>,
    weapon_type: WeaponType,
) -> WeaponProficiency
    decreases entries.len(),
{
    if entries.len() == 0 {
        WeaponProficiency::NotProficient
    } else if entries.first().0 == weapon_type {
        entries.first().1
    } else {
        spec_weapon_prof_lookup(entries.drop_first(), weapon_type)
    }
}

/// An actor's proficiency with each weapon kind; a kind without an
/// entry counts as not proficient.
#[derive(PartialEq, Eq, Debug, Hash)]
pub struct WeaponProficiencies {
    pub entries: Vec<(WeaponType, WeaponProficiency)>,
}

impl Clone for WeaponProficiencies {
    fn clone(&self) -> (r: Self)
        ensures
            r@ == self@,
    {
        WeaponProficiencies { entries: crate::utils::copy_vec(&self.entries) }
    }
}

impl View for WeaponProficiencies {
    type V = Seq<(WeaponType, WeaponProficiency)>;

    open spec fn view(&self) -> Seq<(WeaponType, WeaponProficiency)> {
        self.entries@
    }
}

impl WeaponProficiencies {
    /// The proficiency recorded for `weapon_type`.
    pub fn get(&self, weapon_type: WeaponType) -> (r: WeaponProficiency)
        ensures
            r == spec_weapon_prof_lookup(self@, weapon_type),
    {
        let n: usize = self.entries.len();
        let mut i: usize = 0;
        proof {
            assert(self@.skip(0) =~= self@);
        }
        while i < n
            invariant
                n == self.entries.len(),
                i <= n,
                spec_weapon_prof_lookup(self@, weapon_type) == spec_weapon_prof_lookup(
                    self@.skip(i as int),
                    weapon_type,
                ),
            decreases n - i,
        {
            proof {
                assert(self@.skip(i as int).first() == self@[i as int]);
                assert(self@.skip(i as int).drop_first() =~= self@.skip(i + 1));
            }
            if self.entries[i].0 == weapon_type {
                return self.entries[i].1;
            }
            i = i + 1;
        }
        proof {
            assert(self@.skip(n as int).len() == 0);
        }
        WeaponProficiency::NotProficient
    }

    /// Record `proficiency` for `weapon_type`, replacing any earlier entry.
    pub fn set(&mut self, weapon_type: WeaponType, proficiency: WeaponProficiency)
        ensures
            spec_weapon_prof_lookup(final(self)@, weapon_type) == proficiency,
            forall|other: WeaponType|
                other != weapon_type ==> spec_weapon_prof_lookup(final(self)@, other)
                    == spec_weapon_prof_lookup(old(self)@, other),
    {
        let n: usize = self.entries.len();
        let mut i: usize = 0;
        while i < n
            invariant
                n == self.entries.len(),
                i <= n,
                forall|j: int| 0 <= j < i ==> (#[trigger] self.entries@[j]).0 != weapon_type,
                self@ == old(self)@,
            decreases n - i,
        {
            if self.entries[i].0 == weapon_type {
                let ghost before = self@;
                self.entries.set(i, (weapon_type, proficiency));
                proof {
                    lemma_weapon_prof_lookup_update(before, i as int, weapon_type, proficiency);
                }
                return ;
            }
            i = i + 1;
        }
        let ghost before = self@;
        self.entries.push((weapon_type, proficiency));
        proof {
            lemma_weapon_prof_lookup_append(before, weapon_type, proficiency);
        }
    }

    /// Builder form of [`WeaponProficiencies::set`].
    pub fn with_proficiency(self, weapon_type: WeaponType, proficiency: WeaponProficiency) -> (r:
        Self)
        ensures
            spec_weapon_prof_lookup(r@, weapon_type) == proficiency,
            forall|other: WeaponType|
                other != weapon_type ==> spec_weapon_prof_lookup(r@, other)
                    == spec_weapon_prof_lookup(self@, other),
    {
        let mut s = self;
        s.set(weapon_type, proficiency);
        s
    }
}

impl Default for WeaponProficiencies {
    /// No weapon proficiencies recorded: every kind reads as not proficient.
    fn default() -> (r: Self)
        ensures
            r@.len() == 0,
            forall|w: WeaponType|
                spec_weapon_prof_lookup(r@, w) == WeaponProficiency::NotProficient,
    {
        WeaponProficiencies { entries: Vec::new() }
    }
}

/// Updating position `i` (which holds the only entries for its key up to
/// `i`) changes the lookup for that key and no other.
proof fn lemma_weapon_prof_lookup_update(
    entries: Seq<(WeaponType, WeaponProficiency)>,
    i: int,
    weapon_type: WeaponType,
    proficiency: WeaponProficiency,
)
    requires
        0 <= i < entries.len(),
        entries[i].0 == weapon_type,
        forall|j: int| 0 <= j < i ==> (#[trigger] entries[j]).0 != weapon_type,
    ensures
        spec_weapon_prof_lookup(entries.update(i, (weapon_type, proficiency)), weapon_type)
            == proficiency,
        forall|other: WeaponType|
            other != weapon_type ==> spec_weapon_prof_lookup(
                entries.update(i, (weapon_type, proficiency)),
                other,
            ) == spec_weapon_prof_lookup(entries, other),
    decreases entries.len(),
{
    let updated = entries.update(i, (weapon_type, proficiency));
    if i == 0 {
        assert(updated.first() == (weapon_type, proficiency));
        assert(updated.drop_first() =~= entries.drop_first());
        assert forall|other: WeaponType| other != weapon_type implies spec_weapon_prof_lookup(
            updated,
            other,
        ) == spec_weapon_prof_lookup(entries, other) by {
            assert(spec_weapon_prof_lookup(updated, other) == spec_weapon_prof_lookup(
                updated.drop_first(),
                other,
            ));
            assert(spec_weapon_prof_lookup(entries, other) == spec_weapon_prof_lookup(
                entries.drop_first(),
                other,
            ));
        }
    } else {
        assert(updated.first() == entries.first());
        assert(entries.first().0 != weapon_type);
        assert(updated.drop_first() =~= entries.drop_first().update(
            i - 1,
            (weapon_type, proficiency),
        ));
        assert(forall|j: int|
            0 <= j < i - 1 ==> (#[trigger] entries.drop_first()[j]) == entries[j + 1]);
        lemma_weapon_prof_lookup_update(entries.drop_first(), i - 1, weapon_type, proficiency);
        assert forall|other: WeaponType| other != weapon_type implies spec_weapon_prof_lookup(
            updated,
            other,
        ) == spec_weapon_prof_lookup(entries, other) by {
            if updated.first().0 != other {
                assert(spec_weapon_prof_lookup(updated, other) == spec_weapon_prof_lookup(
                    updated.drop_first(),
                    other,
                ));
                assert(spec_weapon_prof_lookup(entries, other) == spec_weapon_prof_lookup(
                    entries.drop_first(),
                    other,
                ));
            }
        }
    }
}

/// Appending an entry for a key that has no earlier entry changes the
/// lookup for that key and no other.
proof fn lemma_weapon_prof_lookup_append(
    entries: Seq<(WeaponType, WeaponProficiency)>,
    weapon_type: WeaponType,
    proficiency: WeaponProficiency,
)
    requires
        forall|j: int| 0 <= j < entries.len() ==> (#[trigger] entries[j]).0 != weapon_type,
    ensures
        spec_weapon_prof_lookup(entries.push((weapon_type, proficiency)), weapon_type)
            == proficiency,
        forall|other: WeaponType|
            other != weapon_type ==> spec_weapon_prof_lookup(
                entries.push((weapon_type, proficiency)),
                other,
            ) == spec_weapon_prof_lookup(entries, other),
    decreases entries.len(),
{
    let pushed = entries.push((weapon_type, proficiency));
    if entries.len() == 0 {
        assert(pushed.first() == (weapon_type, proficiency));
        assert(pushed.drop_first() =~= Seq::<(WeaponType, WeaponProficiency)>::empty());
        assert forall|other: WeaponType| other != weapon_type implies spec_weapon_prof_lookup(
            pushed,
            other,
        ) == spec_weapon_prof_lookup(entries, other) by {
            assert(spec_weapon_prof_lookup(pushed, other) == spec_weapon_prof_lookup(
                pushed.drop_first(),
                other,
            ));
            assert(spec_weapon_prof_lookup(pushed.drop_first(), other)
                == WeaponProficiency::NotProficient);
            assert(spec_weapon_prof_lookup(entries, other) == WeaponProficiency::NotProficient);
        }
    } else {
        assert(pushed.first() == entries.first());
        assert(entries.first().0 != weapon_type);
        assert(pushed.drop_first() =~= entries.drop_first().push((weapon_type, proficiency)));
        assert(forall|j: int|
            0 <= j < entries.len() - 1 ==> (#[trigger] entries.drop_first()[j]) == entries[j + 1]);
        lemma_weapon_prof_lookup_append(entries.drop_first(), weapon_type, proficiency);
        assert forall|other: WeaponType| other != weapon_type implies spec_weapon_prof_lookup(
            pushed,
            other,
        ) == spec_weapon_prof_lookup(entries, other) by {
            if pushed.first().0 != other {
                assert(spec_weapon_prof_lookup(pushed, other) == spec_weapon_prof_lookup(
                    pushed.drop_first(),
                    other,
                ));
                assert(spec_weapon_prof_lookup(entries, other) == spec_weapon_prof_lookup(
                    entries.drop_first(),
                    other,
                ));
            }
        }
    }
}

/// A weapon: its kind, flat attack bonus, damage roll, optional
/// critical-hit damage roll, and optional range (melee when absent).
#[derive(Clone, Copy, PartialEq, Eq, Structural, Debug, Hash)]
pub struct Weapon {
    pub weapon_type: WeaponType,
    pub attack_bonus: i32,
    pub damage: RollPlan,
    pub critical_damage: Option<RollPlan>,
    pub range: Option<u32>,
}

impl Weapon {
    pub fn is_melee(&self) -> (r: bool)
        ensures
            r == self.range is None,
    {
        self.range.is_none()
    }

    pub fn is_ranged(&self) -> (r: bool)
        ensures
            r == self.range is Some,
    {
        self.range.is_some()
    }
}

/// Builds a [`Weapon`] field by field.
pub struct WeaponBuilder {
    weapon: Weapon,
}

impl WeaponBuilder {
    /// A weapon of the given kind with no bonus, no damage, no critical
    /// damage, and no range.
    pub fn new(weapon_type: WeaponType) -> (r: Self)
        ensures
            r.spec_weapon() == (Weapon {
                weapon_type,
                attack_bonus: 0,
                damage: RollPlan {
                    num_dice: 0,
                    die_size: 1,
                    modifier: 0,
                    settings: crate::dice::RollSettings {
                        advantage: crate::dice::Advantage::Normal,
                        minimum_die_value: None,
                        maximum_die_value: None,
                        reroll_dice_below: None,
                    },
                },
                critical_damage: None,
                range: None,
            }),
    {
        WeaponBuilder {
            weapon: Weapon {
                weapon_type,
                attack_bonus: 0,
                damage: RollPlan {
                    num_dice: 0,
                    die_size: 1,
                    modifier: 0,
                    settings: crate::dice::RollSettings {
                        advantage: crate::dice::Advantage::Normal,
                        minimum_die_value: None,
                        maximum_die_value: None,
                        reroll_dice_below: None,
                    },
                },
                critical_damage: None,
                range: None,
            },
        }
    }

    /// The weapon under construction.
    pub closed spec fn spec_weapon(self) -> Weapon {
        self.weapon
    }

    pub fn attack_bonus(self, bonus: i32) -> (r: Self)
        ensures
            r.spec_weapon() == (Weapon { attack_bonus: bonus, ..self.spec_weapon() }),
    {
        let mut b = self;
        b.weapon.attack_bonus = bonus;
        b
    }

    pub fn damage(self, damage: RollPlan) -> (r: Self)
        ensures
            r.spec_weapon() == (Weapon { damage, ..self.spec_weapon() }),
    {
        let mut b = self;
        b.weapon.damage = damage;
        b
    }

    pub fn critical_damage(self, critical_damage: RollPlan) -> (r: Self)
        ensures
            r.spec_weapon() == (Weapon {
                critical_damage: Some(critical_damage),
                ..self.spec_weapon()
            }),
    {
        let mut b = self;
        b.weapon.critical_damage = Some(critical_damage);
        b
    }

    pub fn range(self, range: u32) -> (r: Self)
        ensures
            r.spec_weapon() == (Weapon { range: Some(range), ..self.spec_weapon() }),
    {
        let mut b = self;
        b.weapon.range = Some(range);
        b
    }

    pub fn build(self) -> (r: Weapon)
        ensures
            r == self.spec_weapon(),
    {
        self.weapon
    }
}

/// Armor grants a flat armor-class bonus and may impose stealth
/// disadvantage.
#[derive(Clone, Copy, PartialEq, Eq, Structural, Debug, Hash)]
pub struct Armor {
    pub ac_bonus: u32,
    pub stealth_disadvantage: bool,
}

/// A potion heals for a roll when drunk.
#[derive(Clone, Copy, PartialEq, Eq, Structural, Debug, Hash)]
pub struct Potion {
    pub healing_amount: RollPlan,
}

/// A scroll casts a spell when read.
#[derive(Clone, Copy, PartialEq, Eq, Structural, Debug, Hash)]
pub struct Scroll {
    pub spell_id: SpellId,
}

/// What kind of thing an item is.
#[derive(Clone, Copy, PartialEq, Eq, Structural, Debug, Hash)]
pub enum ItemType {
    Potion(Potion),
    Scroll(Scroll),
    Weapon(Weapon),
    Armor(Armor),
}

/// The mathematical value of an [`Item`].
pub ghost struct ItemView {
    pub id: ItemId,
    pub name: Seq<char>,
    pub item_type: ItemType,
}

/// An item: its identifier, display name, and kind.
#[derive(PartialEq, Eq, Debug, Hash)]
pub struct Item {
    pub id: ItemId,
    pub name: String,
    pub item_type: ItemType,
}

impl View for Item {
    type V = ItemView;

    open spec fn view(&self) -> ItemView {
        ItemView { id: self.id, name: self.name@, item_type: self.item_type }
    }
}

impl Clone for Item {
    fn clone(&self) -> (r: Self)
        ensures
            r@ == self@,
    {
        Item { id: self.id, name: self.name.clone(), item_type: self.item_type }
    }
}

/// The mathematical value of an [`InventoryEntry`].
pub ghost struct InventoryEntryView {
    pub item: ItemView,
    pub quantity: u32,
}

/// An item held in an inventory, with how many of it are held.
#[derive(PartialEq, Eq, Debug, Hash)]
pub struct InventoryEntry {
    pub item: Item,
    pub quantity: u32,
}

impl Clone for InventoryEntry {
    fn clone(&self) -> (r: Self)
        ensures
            r@ == self@,
    {
        InventoryEntry { item: self.item.clone(), quantity: self.quantity }
    }
}

impl View for InventoryEntry {
    type V = InventoryEntryView;

    open spec fn view(&self) -> InventoryEntryView {
        InventoryEntryView { item: self.item@, quantity: self.quantity }
    }
}

/// The slots equipment can occupy.
#[derive(Clone, Copy, PartialEq, Eq, Structural, Debug, Hash)]
pub enum EquipSlot {
    Head,
    Chest,
    Legs,
    Feet,
    Hands,
    Shield,
    Accessory,
}

/// The first item recorded for `slot`, if any.
pub open spec fn spec_equipped_lookup(entries: Seq<(EquipSlot, ItemId)>, slot: EquipSlot) -> Option<
    ItemId,
>
    decreases entries.len(),
{
    if entries.len() == 0 {
        None
    } else if entries.first().0 == slot {
        Some(entries.first().1)
    } else {
        spec_equipped_lookup(entries.drop_first(), slot)
    }
}

/// What an actor has equipped, by slot.
#[derive(PartialEq, Eq, Debug, Hash)]
pub struct EquippedItems {
    pub slots: Vec<(EquipSlot, ItemId)>,
}

impl Clone for EquippedItems {
    fn clone(&self) -> (r: Self)
        ensures
            r@ == self@,
    {
        EquippedItems { slots: crate::utils::copy_vec(&self.slots) }
    }
}

impl View for EquippedItems {
    type V = Seq<(EquipSlot, ItemId)>;

    open spec fn view(&self) -> Seq<(EquipSlot, ItemId)> {
        self.slots@
    }
}

impl Default for EquippedItems {
    fn default() -> (r: Self)
        ensures
            r@.len() == 0,
    {
        EquippedItems { slots: Vec::new() }
    }
}

impl EquippedItems {
    /// The item equipped in `slot`, if any.
    pub fn get_equipped(&self, slot: EquipSlot) -> (r: Option<ItemId>)
        ensures
            r == spec_equipped_lookup(self@, slot),
    {
        let n: usize = self.slots.len();
        let mut i: usize = 0;
        proof {
            assert(self@.skip(0) =~= self@);
        }
        while i < n
            invariant
                n == self.slots.len(),
                i <= n,
                spec_equipped_lookup(self@, slot) == spec_equipped_lookup(
                    self@.skip(i as int),
                    slot,
                ),
            decreases n - i,
        {
            proof {
                assert(self@.skip(i as int).first() == self@[i as int]);
                assert(self@.skip(i as int).drop_first() =~= self@.skip(i + 1));
            }
            if self.slots[i].0 == slot {
                return Some(self.slots[i].1);
            }
            i = i + 1;
        }
        proof {
            assert(self@.skip(n as int).len() == 0);
        }
        None
    }
}

/// The bounds a weapon must stay within for every roll built from it to
/// fit 32-bit arithmetic: its damage plans are well-formed and its
/// attack bonus is moderate.
pub open spec fn weapon_wf(w: Weapon) -> bool {
    &&& w.damage.wf()
    &&& match w.critical_damage {
        Some(d) => d.wf(),
        None => true,
    }
    &&& crate::dice::abs_i32(w.attack_bonus) <= 1_000_000
}

/// The bounds an item must stay within: its rolls are well-formed.
pub open spec fn item_wf(i: ItemView) -> bool {
    match i.item_type {
        ItemType::Weapon(w) => weapon_wf(w),
        ItemType::Potion(p) => p.healing_amount.wf(),
        ItemType::Scroll(_) => true,
        ItemType::Armor(_) => true,
    }
}

/// The index of the first inventory entry holding item `id`, if any.
pub open spec fn spec_inventory_find(entries: Seq<InventoryEntryView>, id: ItemId) -> Option<int>
    decreases entries.len(),
{
    if entries.len() == 0 {
        None
    } else if entries.first().item.id == id {
        Some(0int)
    } else {
        match spec_inventory_find(entries.drop_first(), id) {
            Some(i) => Some(i + 1),
            None => None,
        }
    }
}

/// The items an actor carries.
#[derive(PartialEq, Eq, Debug, Hash)]
pub struct Inventory {
    pub items: Vec<InventoryEntry>,
}

impl Clone for Inventory {
    fn clone(&self) -> (r: Self)
        ensures
            r@ == self@,
    {
        let mut out: Vec<InventoryEntry> = Vec::new();
        let n: usize = self.items.len();
        let mut i: usize = 0;
        while i < n
            invariant
                n == self.items.len(),
                i <= n,
                out@.map_values(|e: InventoryEntry| e@) =~= self@.take(i as int),
            decreases n - i,
        {
            let ghost prev = out@;
            out.push(self.items[i].clone());
            proof {
                assert(out@.map_values(|e: InventoryEntry| e@) =~= prev.map_values(
                    |e: InventoryEntry| e@,
                ).push(out@.last()@));
                assert(out@.last()@ == self@[i as int]);
                assert(self@.take(i + 1) =~= self@.take(i as int).push(self@[i as int]));
            }
            i = i + 1;
        }
        let r = Inventory { items: out };
        proof {
            assert(self@.take(n as int) =~= self@);
            assert(r@ =~= self@);
        }
        r
    }
}

impl View for Inventory {
    type V = Seq<InventoryEntryView>;

    open spec fn view(&self) -> Seq<InventoryEntryView> {
        self.items@.map_values(|e: InventoryEntry| e@)
    }
}

impl Default for Inventory {
    fn default() -> (r: Self)
        ensures
            r@.len() == 0,
    {
        Inventory { items: Vec::new() }
    }
}

impl Inventory {
    /// The position of the first entry holding item `id`, if any.
    fn find_index(&self, id: ItemId) -> (r: Option<usize>)
        ensures
            match r {
                Some(i) => spec_inventory_find(self@, id) == Some(i as int) && i < self@.len()
                    && self@[i as int].item.id == id,
                None => spec_inventory_find(self@, id) is None,
            },
    {
        let n: usize = self.items.len();
        let mut i: usize = 0;
        while i < n
            invariant
                n == self.items.len(),
                i <= n,
                self@.len() == n,
                forall|j: int| 0 <= j < i ==> (#[trigger] self@[j]).item.id != id,
            decreases n - i,
        {
            proof {
                assert(self@[i as int] == self.items@[i as int]@);
            }
            if self.items[i].item.id == id {
                proof {
                    lemma_inventory_find_at(self@, id, i as int);
                }
                return Some(i);
            }
            i = i + 1;
        }
        proof {
            lemma_inventory_find_absent(self@, id);
        }
        None
    }

    /// The entry holding item `id`, if any.
    pub fn get(&self, id: ItemId) -> (r: Option<&InventoryEntry>)
        ensures
            match r {
                Some(entry) => {
                    &&& spec_inventory_find(self@, id) is Some
                    &&& 0 <= spec_inventory_find(self@, id).unwrap() < self@.len()
                    &&& entry@ == self@[spec_inventory_find(self@, id).unwrap()]
                    &&& entry@.item.id == id
                },
                None => spec_inventory_find(self@, id) is None,
            },
    {
        match self.find_index(id) {
            Some(i) => Some(&self.items[i]),
            None => None,
        }
    }

    /// Whether at least `quantity` of item `id` is held.
    pub fn has_item(&self, id: ItemId, quantity: u32) -> (r: bool)
        ensures
            r == match spec_inventory_find(self@, id) {
                Some(i) => self@[i].quantity >= quantity,
                None => false,
            },
    {
        match self.find_index(id) {
            Some(i) => self.items[i].quantity >= quantity,
            None => false,
        }
    }

    /// Add `quantity` of `item`: a held item's count grows, a new item
    /// gains an entry at the end.
    pub fn add_item(&mut self, item: Item, quantity: u32)
        requires
            match spec_inventory_find(old(self)@, item@.id) {
                Some(i) => old(self)@[i].quantity + quantity <= u32::MAX,
                None => true,
            },
        ensures
            match spec_inventory_find(old(self)@, item@.id) {
                Some(i) => final(self)@ =~= old(self)@.update(
                    i,
                    InventoryEntryView {
                        item: old(self)@[i].item,
                        quantity: (old(self)@[i].quantity + quantity) as u32,
                    },
                ),
                None => final(self)@ =~= old(self)@.push(
                    InventoryEntryView { item: item@, quantity },
                ),
            },
    {
        match self.find_index(item.id) {
            Some(i) => {
                let q: u32 = self.items[i].quantity;
                let entry: &Item = &self.items[i].item;
                let kept = entry.clone();
                self.items.set(i, InventoryEntry { item: kept, quantity: q + quantity });
            },
            None => {
                self.items.push(InventoryEntry { item, quantity });
            },
        }
    }

    /// Remove `quantity` of item `id`.  When the entry holds at least
    /// that many, its count shrinks and the entry disappears when it
    /// reaches zero; the held item is returned whenever it exists.
    pub fn remove_item(&mut self, id: ItemId, quantity: u32) -> (r: Option<Item>)
        ensures
            match spec_inventory_find(old(self)@, id) {
                Some(i) => {
                    &&& r is Some
                    &&& r.unwrap()@ == old(self)@[i].item
                    &&& if old(self)@[i].quantity >= quantity {
                        if old(self)@[i].quantity == quantity {
                            final(self)@ =~= old(self)@.remove(i)
                        } else {
                            final(self)@ =~= old(self)@.update(
                                i,
                                InventoryEntryView {
                                    item: old(self)@[i].item,
                                    quantity: (old(self)@[i].quantity - quantity) as u32,
                                },
                            )
                        }
                    } else {
                        final(self)@ =~= old(self)@
                    }
                },
                None => r is None && final(self)@ =~= old(self)@,
            },
    {
        match self.find_index(id) {
            Some(i) => {
                let q: u32 = self.items[i].quantity;
                if q >= quantity {
                    if q == quantity {
                        let entry = self.items.remove(i);
                        Some(entry.item)
                    } else {
                        let kept = self.items[i].item.clone();
                        let out = self.items[i].item.clone();
                        self.items.set(i, InventoryEntry { item: kept, quantity: q - quantity });
                        Some(out)
                    }
                } else {
                    Some(self.items[i].item.clone())
                }
            },
            None => None,
        }
    }
}

/// If positions before `i` miss `id` and position `i` holds it, the find
/// lands on `i`.
proof fn lemma_inventory_find_at(entries: Seq<InventoryEntryView>, id: ItemId, i: int)
    requires
        0 <= i < entries.len(),
        entries[i].item.id == id,
        forall|j: int| 0 <= j < i ==> (#[trigger] entries[j]).item.id != id,
    ensures
        spec_inventory_find(entries, id) == Some(i),
    decreases entries.len(),
{
    if i > 0 {
        assert(entries.drop_first()[i - 1] == entries[i]);
        assert(forall|j: int|
            0 <= j < i - 1 ==> (#[trigger] entries.drop_first()[j]) == entries[j + 1]);
        lemma_inventory_find_at(entries.drop_first(), id, i - 1);
    }
}

/// If no position holds `id`, the find comes back empty.
proof fn lemma_inventory_find_absent(entries: Seq<InventoryEntryView>, id: ItemId)
    requires
        forall|j: int| 0 <= j < entries.len() ==> (#[trigger] entries[j]).item.id != id,
    ensures
        spec_inventory_find(entries, id) is None,
    decreases entries.len(),
{
    if entries.len() > 0 {
        assert(forall|j: int|
            0 <= j < entries.len() - 1 ==> (#[trigger] entries.drop_first()[j]) == entries[j + 1]);
        lemma_inventory_find_absent(entries.drop_first(), id);
    }
}

} // verus!
