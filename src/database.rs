use vstd::prelude::*;

use crate::character::{
    starter_items, starter_kit, Character, MovementInfo, DEFAULT_RUNNING_SPEED, MAX_LEVEL,
};
use crate::inventory::{holds_guid_elsewhere, Inventory, Item, AMOUNT_OF_SLOTS};
use crate::race::{class_id, get_starting_position, race_id, starting_position_spec, Class, Gender, Race};

verus! {

/// Every identifier that `c` carries, its own and its items', is below `n`.
pub open spec fn ids_below(c: Character, n: u64) -> bool {
    &&& c.guid < n
    &&& forall|k: int| 0 <= k < c.inventory@.len() && #[trigger] c.inventory@[k] is Some
        ==> c.inventory@[k]->0.guid < n
}

/// A bound on identifiers stays a bound when it grows.
pub proof fn lemma_ids_below_grows(c: Character, n: u64, m: u64)
    requires
        ids_below(c, n),
        n <= m,
    ensures
        ids_below(c, m),
{
}

/// The store of characters, and the source of fresh identifiers.
#[derive(Clone, Debug)]
pub struct WorldDatabase {
    characters_for_all_accounts: Vec<Character>,
    next_guid: u64,
}

impl WorldDatabase {
    pub closed spec fn characters(&self) -> Seq<Character> {
        self.characters_for_all_accounts@
    }

    /// The next identifier to be handed out; every one below it has been.
    pub closed spec fn next_id(&self) -> u64 {
        self.next_guid
    }

    /// The next identifier the store will hand out.
    pub fn peek_next_guid(&self) -> (r: u64)
        ensures
            r == self.next_id(),
    {
        self.next_guid
    }

    /// The identifiers handed out so far.
    pub open spec fn issued(&self) -> Set<u64> {
        Set::new(|g: u64| g < self.next_id())
    }

    pub open spec fn wf(&self) -> bool {
        forall|i: int| 0 <= i < self.characters().len() ==> {
            &&& (#[trigger] self.characters()[i]).wf()
            &&& ids_below(self.characters()[i], self.next_id())
        }
    }

    /// A store with no characters that has issued no identifier.
    pub fn empty() -> (r: WorldDatabase)
        ensures
            r.wf(),
            r.characters().len() == 0,
            r.next_id() == 0,
    {
        WorldDatabase { characters_for_all_accounts: Vec::new(), next_guid: 0 }
    }

    /// The names of the development characters.
    pub open spec fn development_name(i: int) -> Seq<char> {
        if i == 0 {
            "Dev"@
        } else if i == 1 {
            "HumOne"@
        } else {
            "HumTwo"@
        }
    }

    /// A store holding the three development characters, all human warriors
    /// at the highest level: "Dev" and "HumOne", female, and "HumTwo", male,
    /// with increasing identifiers.
    pub fn new() -> (r: WorldDatabase)
        ensures
            r.wf(),
            r.characters().len() == 3,
            forall|i: int| 0 <= i < 3 ==> {
                &&& (#[trigger] r.characters()[i]).name@ == WorldDatabase::development_name(i)
                &&& r.characters()[i].race == Race::Human
                &&& r.characters()[i].class == Class::Warrior
                &&& r.characters()[i].level == MAX_LEVEL
            },
            r.characters()[0].gender == Gender::Female,
            r.characters()[1].gender == Gender::Female,
            r.characters()[2].gender == Gender::Male,
            r.characters()[0].guid < r.characters()[1].guid,
            r.characters()[1].guid < r.characters()[2].guid,
            r.characters()[2].guid < r.next_id(),
    {
        let mut db = WorldDatabase::empty();
        let dev = match Character::test_character(&mut db, String::from_str("Dev"), Race::Human, Class::Warrior, Gender::Female) {
            Some(c) => c,
            None => {
                assert(false);
                return db;
            },
        };
        db.create_character_in_account("", dev);
        let one = match Character::test_character(&mut db, String::from_str("HumOne"), Race::Human, Class::Warrior, Gender::Female) {
            Some(c) => c,
            None => {
                assert(false);
                return db;
            },
        };
        db.create_character_in_account("", one);
        let two = match Character::test_character(&mut db, String::from_str("HumTwo"), Race::Human, Class::Warrior, Gender::Male) {
            Some(c) => c,
            None => {
                assert(false);
                return db;
            },
        };
        db.create_character_in_account("", two);
        assert(db.characters()[0] == dev);
        assert(db.characters()[1] == one);
        db
    }

    /// A fresh identifier, never handed out before; `None` once the
    /// identifier space is used up.
    pub fn new_guid(&mut self) -> (r: Option<u64>)
        requires
            old(self).wf(),
        ensures
            final(self).wf(),
            final(self).characters() == old(self).characters(),
            match r {
                Some(g) => !old(self).issued().contains(g) && g == old(self).next_id()
                    && final(self).next_id() == old(self).next_id() + 1
                    && final(self).issued() == old(self).issued().insert(g),
                None => old(self).next_id() == u64::MAX && final(self).next_id() == old(self).next_id(),
            },
    {
        if self.next_guid == u64::MAX {
            return None;
        }
        let g = self.next_guid;
        self.next_guid = self.next_guid + 1;
        proof {
            assert(self.issued() =~= old(self).issued().insert(g));
            assert forall|i: int| 0 <= i < self.characters().len() implies {
                &&& (#[trigger] self.characters()[i]).wf()
                &&& ids_below(self.characters()[i], self.next_id())
            } by {
                assert(ids_below(old(self).characters()[i], old(self).next_id()));
            }
        }
        Some(g)
    }

    /// Every stored character. The store keeps no per-account lists, so
    /// every account sees them all.
    pub fn get_characters_for_account(&self, account_name: &str) -> (r: Vec<Character>)
        ensures
            r@.len() == self.characters().len(),
            forall|i: int| 0 <= i < r@.len() ==> (#[trigger] r@[i]).same_as(self.characters()[i]),
    {
        let mut r: Vec<Character> = Vec::new();
        let mut i: usize = 0;
        while i < self.characters_for_all_accounts.len()
            invariant
                i <= self.characters().len(),
                r@.len() == i,
                forall|k: int| 0 <= k < i ==> (#[trigger] r@[k]).same_as(self.characters()[k]),
            decreases self.characters().len() - i,
        {
            r.push(self.characters_for_all_accounts[i].duplicate());
            i = i + 1;
        }
        r
    }

    /// Adds `character` to the store.
    pub fn create_character_in_account(&mut self, account_name: &str, character: Character)
        requires
            old(self).wf(),
            character.wf(),
            ids_below(character, old(self).next_id()),
        ensures
            final(self).wf(),
            final(self).characters() == old(self).characters().push(character),
            final(self).next_id() == old(self).next_id(),
    {
        self.characters_for_all_accounts.push(character);
        proof {
            assert forall|i: int| 0 <= i < self.characters().len() implies {
                &&& (#[trigger] self.characters()[i]).wf()
                &&& ids_below(self.characters()[i], self.next_id())
            } by {
                if i < old(self).characters().len() {
                    assert(self.characters()[i] == old(self).characters()[i]);
                }
            }
        }
    }

    /// A snapshot of the character with identifier `guid`, or `None` when
    /// the store holds none.
    pub fn get_character_by_guid(&self, guid: u64) -> (r: Option<Character>)
        requires
            self.wf(),
        ensures
            match r {
                Some(c) => exists|i: int| 0 <= i < self.characters().len()
                    && (#[trigger] self.characters()[i]).guid == guid
                    && c.same_as(self.characters()[i]) && (forall|k: int| 0 <= k < i ==> (#[trigger] self.characters()[k]).guid != guid),
                None => forall|i: int| 0 <= i < self.characters().len() ==> (#[trigger] self.characters()[i]).guid != guid,
            },
            r matches Some(c) ==> c.wf() && ids_below(c, self.next_id()) && c.guid == guid,
    {
        match self.find(guid) {
            Some(i) => {
                let c = self.characters_for_all_accounts[i].duplicate();
                assert(self.characters()[i as int].wf());
                assert(ids_below(self.characters()[i as int], self.next_id()));
                assert(ids_below(c, self.next_id())) by {
                    assert(c.inventory@ == self.characters()[i as int].inventory@);
                }
                Some(c)
            },
            None => None,
        }
    }

    /// Index of the first character with identifier `guid`.
    fn find(&self, guid: u64) -> (r: Option<usize>)
        ensures
            match r {
                Some(i) => i < self.characters().len() && self.characters()[i as int].guid == guid
                    && (forall|k: int| 0 <= k < i ==> (#[trigger] self.characters()[k]).guid != guid),
                None => forall|i: int| 0 <= i < self.characters().len() ==> (#[trigger] self.characters()[i]).guid != guid,
            },
    {
        let mut i: usize = 0;
        while i < self.characters_for_all_accounts.len()
            invariant
                i <= self.characters().len(),
                forall|k: int| 0 <= k < i ==> (#[trigger] self.characters()[k]).guid != guid,
            decreases self.characters().len() - i,
        {
            if self.characters_for_all_accounts[i].guid == guid {
                return Some(i);
            }
            i = i + 1;
        }
        None
    }

    /// Stores `c` in place of the first character with the same identifier.
    /// Returns whether there was one; when there was none nothing changes.
    pub fn replace_character_data(&mut self, c: Character) -> (r: bool)
        requires
            old(self).wf(),
            c.wf(),
            ids_below(c, old(self).next_id()),
        ensures
            final(self).wf(),
            final(self).next_id() == old(self).next_id(),
            r == exists|i: int| 0 <= i < old(self).characters().len() && (#[trigger] old(self).characters()[i]).guid == c.guid,
            r ==> exists|i: int| 0 <= i < old(self).characters().len()
                && (#[trigger] old(self).characters()[i]).guid == c.guid
                && (forall|k: int| 0 <= k < i ==> (#[trigger] old(self).characters()[k]).guid != c.guid)
                && final(self).characters() == old(self).characters().update(i, c),
            !r ==> final(self).characters() == old(self).characters(),
    {
        match self.find(c.guid) {
            Some(i) => {
                let ghost g = c.guid;
                self.characters_for_all_accounts.set(i, c);
                assert(old(self).characters()[i as int].guid == g);
                true
            },
            None => false,
        }
    }

    /// Removes the character with identifier `guid`. Returns whether there
    /// was one; when there was none nothing changes.
    pub fn delete_character_by_guid(&mut self, username: &str, guid: u64) -> (r: bool)
        requires
            old(self).wf(),
        ensures
            final(self).wf(),
            final(self).next_id() == old(self).next_id(),
            r == exists|i: int| 0 <= i < old(self).characters().len() && (#[trigger] old(self).characters()[i]).guid == guid,
            r ==> exists|i: int| 0 <= i < old(self).characters().len()
                && (#[trigger] old(self).characters()[i]).guid == guid
                && (forall|k: int| 0 <= k < i ==> (#[trigger] old(self).characters()[k]).guid != guid)
                && final(self).characters() == old(self).characters().remove(i),
            !r ==> final(self).characters() == old(self).characters(),
    {
        match self.find(guid) {
            Some(i) => {
                self.characters_for_all_accounts.remove(i);
                assert(old(self).characters()[i as int].guid == guid);
                proof {
                    assert forall|k: int| 0 <= k < self.characters().len() implies {
                        &&& (#[trigger] self.characters()[k]).wf()
                        &&& ids_below(self.characters()[k], self.next_id())
                    } by {
                        if k < i {
                            assert(self.characters()[k] == old(self).characters()[k]);
                        } else {
                            assert(self.characters()[k] == old(self).characters()[k + 1]);
                        }
                    }
                }
                true
            },
            None => false,
        }
    }
}

/// The slots of a new inventory after the kit's items were put in them in
/// order, the item of entry `j` having identifier `first + j`.
pub open spec fn kit_slots(kit: Seq<(u32, u8, u8)>, first: int) -> Seq<Option<Item>>
    decreases kit.len(),
{
    if kit.len() == 0 {
        Seq::new(AMOUNT_OF_SLOTS as nat, |i: int| None::<Item>)
    } else {
        let j = kit.len() - 1;
        let e = kit.last();
        kit_slots(kit.drop_last(), first).update(
            e.1 as int,
            Some(Item { entry: e.0, guid: (first + j) as u64, amount: e.2, creator: 0 }),
        )
    }
}

impl Character {
    /// A new level-one character at its race's starting point, holding its
    /// race and class's starter kit: its identifier is the store's next one,
    /// the kit's items take the identifiers after it, in kit order. `None`,
    /// with nothing issued, when the store has too few identifiers left.
    pub fn new(
        db: &mut WorldDatabase,
        name: String,
        race: Race,
        class: Class,
        gender: Gender,
        skin: u8,
        face: u8,
        hair_style: u8,
        hair_color: u8,
        facial_hair: u8,
    ) -> (r: Option<Character>)
        requires
            old(db).wf(),
        ensures
            final(db).wf(),
            final(db).characters() == old(db).characters(),
            starter_kit(race_id(race), class_id(class)).len() <= 10,
            ({
                let kit = starter_kit(race_id(race), class_id(class));
                if old(db).next_id() + kit.len() < u64::MAX {
                    &&& final(db).next_id() == old(db).next_id() + 1 + kit.len()
                    &&& r matches Some(c) && {
                        &&& c.wf()
                        &&& ids_below(c, final(db).next_id())
                        &&& c.guid == old(db).next_id()
                        &&& c.inventory@ == kit_slots(kit, old(db).next_id() + 1)
                        &&& c.name@ == name@
                        &&& c.race == race && c.class == class && c.gender == gender
                        &&& c.skin == skin && c.face == face && c.hairstyle == hair_style
                        &&& c.haircolor == hair_color && c.facialhair == facial_hair
                        &&& c.level == 1 && c.area == 0
                        &&& c.position_spec() == starting_position_spec(race)
                        &&& c.info.flags == 0 && c.info.timestamp == 0 && c.info.fall_time == 0
                        &&& c.movement_speed == DEFAULT_RUNNING_SPEED
                        &&& c.target == 0 && !c.attacking && c.auto_attack_timer == 0
                    }
                } else {
                    r is None && final(db).next_id() == old(db).next_id()
                }
            }),
    {
        let kit = starter_items(race.id(), class.id());
        assert(kit@.len() <= 10);
        let next = db.peek_next_guid();
        if kit.len() as u64 >= u64::MAX - next {
            return None;
        }
        let guid = match db.new_guid() {
            Some(g) => g,
            None => return None,
        };
        let ghost first = guid + 1;
        let mut inventory = Inventory::new();
        assert(inventory@ =~= kit_slots(kit@.take(0), first));
        let mut i: usize = 0;
        while i < kit.len()
            invariant
                db.wf(),
                db.characters() == old(db).characters(),
                guid == old(db).next_id(),
                first == guid + 1,
                db.next_id() == first + i,
                kit@ == starter_kit(race_id(race), class_id(class)),
                kit@.len() <= 10,
                forall|j: int| 0 <= j < kit@.len() ==> (#[trigger] kit@[j]).1 < 113,
                old(db).next_id() + kit@.len() < u64::MAX,
                i <= kit@.len(),
                inventory.wf(),
                inventory@ == kit_slots(kit@.take(i as int), first),
                forall|k: int| 0 <= k < inventory@.len() && #[trigger] inventory@[k] is Some
                    ==> guid < inventory@[k]->0.guid < db.next_id(),
            decreases kit@.len() - i,
        {
            let (entry, slot, amount) = kit[i];
            assert(kit@[i as int].1 < 113);
            let item_guid = match db.new_guid() {
                Some(g) => g,
                None => {
                    assert(false);
                    0
                },
            };
            proof {
                if holds_guid_elsewhere(inventory@, item_guid, slot as int) {
                    let j = choose|j: int| 0 <= j < inventory@.len() && j != slot as int
                        && (#[trigger] inventory@[j] is Some && inventory@[j]->0.guid == item_guid);
                    assert(inventory@[j]->0.guid < item_guid);
                }
            }
            inventory.set(slot as usize, Item::new(entry, item_guid, amount, 0));
            assert(kit@.take(i + 1).drop_last() =~= kit@.take(i as int));
            i = i + 1;
        }
        assert(kit@.take(kit@.len() as int) =~= kit@);
        let start = get_starting_position(race);
        Some(Character {
            guid,
            name,
            race,
            class,
            gender,
            skin,
            face,
            hairstyle: hair_style,
            haircolor: hair_color,
            facialhair: facial_hair,
            level: 1,
            area: 0,
            map: start.map,
            info: MovementInfo::at(start),
            movement_speed: DEFAULT_RUNNING_SPEED,
            target: 0,
            attacking: false,
            auto_attack_timer: 0,
            inventory,
        })
    }

    /// A new character at the highest level, with default looks.
    pub fn test_character(
        db: &mut WorldDatabase,
        name: String,
        race: Race,
        class: Class,
        gender: Gender,
    ) -> (r: Option<Character>)
        requires
            old(db).wf(),
        ensures
            final(db).wf(),
            final(db).characters() == old(db).characters(),
            final(db).next_id() >= old(db).next_id(),
            final(db).next_id() <= old(db).next_id() + 11,
            old(db).next_id() + 10 < u64::MAX ==> r is Some,
            r matches Some(c) ==> c.wf() && ids_below(c, final(db).next_id()) && c.guid
                == old(db).next_id() && c.name@ == name@ && c.race == race && c.class == class
                && c.gender == gender && c.level == MAX_LEVEL,
    {
        match Character::new(db, name, race, class, gender, 0, 0, 0, 0, 0) {
            Some(mut c) => {
                c.level = MAX_LEVEL;
                Some(c)
            },
            None => None,
        }
    }
}

/// Identifiers are never handed out twice: one issued by an earlier call
/// differs from one issued by any later call.
pub proof fn lemma_issued_identifiers_distinct(
    first_before: WorldDatabase,
    first_after: WorldDatabase,
    first: u64,
    second_before: WorldDatabase,
    second: u64,
)
    requires
        !first_before.issued().contains(first),
        first_after.issued() == first_before.issued().insert(first),
        first_after.issued().subset_of(second_before.issued()),
        !second_before.issued().contains(second),
    ensures
        first != second,
{
    assert(first_after.issued().contains(first));
}

} // verus!
