//! Combat styles, and the walk from a tree of choices to ability ids.
//!
//! A discipline record lists, level by level, the three mods a player may
//! choose from, and maps each mod to the id of an ability. Given the
//! decoded records and eight choices, this module finds the eight ids. A
//! mod is looked up as the value it is, of whatever kind.

use vstd::prelude::*;
use vstd::string::StringExecFns;
use crate::field::{lookup, FieldModel, FieldValue, LookupList};
use crate::record::{NodeObjPair, RecordModel};

verus! {

/// A base class.
#[derive(Clone, Copy, Debug, PartialEq, Eq, Structural)]
pub enum Class {
    Assassin,
    Juggernaut,
    Marauder,
    Mercenary,
    Operative,
    Powertech,
    Sniper,
    Sorcerer,
}

/// A combat style; each belongs to one class.
#[derive(Clone, Copy, Debug, PartialEq, Eq, Structural)]
pub enum CombatStyle {
    Darkness,
    Hatred,
    Deception,
    Immortal,
    Rage,
    Vengeance,
    Annihilation,
    Carnage,
    Fury,
    Arsenal,
    Bodyguard,
    InnovativeOrdinance,
    Concealment,
    Lethality,
    Medic,
    AdvancedPrototype,
    Pyrotech,
    ShieldTech,
    Engineering,
    Marksmanship,
    Virulence,
    Corruption,
    Lightning,
    Madness,
}

/// One of the three mods offered at a level.
#[derive(Debug, Clone, Copy, PartialEq, Eq, Structural)]
pub enum TreeChoice {
    Left,
    Middle,
    Right,
}

/// A combat style and the choice made at each of its eight levels.
#[derive(Debug, Clone, Copy)]
pub struct TreeChoices {
    pub combat_style: CombatStyle,
    pub choices: [TreeChoice; 8],
}

impl Class {
    /// The name of the class as record names spell it: in lower case.
    pub open spec fn name(self) -> Seq<char> {
        match self {
            Class::Assassin => "assassin"@,
            Class::Juggernaut => "juggernaut"@,
            Class::Marauder => "marauder"@,
            Class::Mercenary => "mercenary"@,
            Class::Operative => "operative"@,
            Class::Powertech => "powertech"@,
            Class::Sniper => "sniper"@,
            Class::Sorcerer => "sorcerer"@,
        }
    }

    /// The name of the class in lower case.
    pub fn lowercase_name(&self) -> (r: &'static str)
        ensures
            r@ == self.name(),
    {
        match self {
            Class::Assassin => "assassin",
            Class::Juggernaut => "juggernaut",
            Class::Marauder => "marauder",
            Class::Mercenary => "mercenary",
            Class::Operative => "operative",
            Class::Powertech => "powertech",
            Class::Sniper => "sniper",
            Class::Sorcerer => "sorcerer",
        }
    }
}

impl CombatStyle {
    /// The class that the style belongs to.
    pub open spec fn class(self) -> Class {
        match self {
            CombatStyle::Darkness | CombatStyle::Hatred | CombatStyle::Deception => Class::Assassin,
            CombatStyle::Immortal | CombatStyle::Rage | CombatStyle::Vengeance => Class::Juggernaut,
            CombatStyle::Annihilation | CombatStyle::Carnage | CombatStyle::Fury => Class::Marauder,
            CombatStyle::Arsenal | CombatStyle::Bodyguard | CombatStyle::InnovativeOrdinance => {
                Class::Mercenary
            },
            CombatStyle::Concealment | CombatStyle::Lethality | CombatStyle::Medic => {
                Class::Operative
            },
            CombatStyle::AdvancedPrototype | CombatStyle::Pyrotech | CombatStyle::ShieldTech => {
                Class::Powertech
            },
            CombatStyle::Engineering | CombatStyle::Marksmanship | CombatStyle::Virulence => {
                Class::Sniper
            },
            CombatStyle::Corruption | CombatStyle::Lightning | CombatStyle::Madness => {
                Class::Sorcerer
            },
        }
    }

    /// The name of the style as record names spell it: in lower case.
    pub open spec fn name(self) -> Seq<char> {
        match self {
            CombatStyle::Darkness => "darkness"@,
            CombatStyle::Hatred => "hatred"@,
            CombatStyle::Deception => "deception"@,
            CombatStyle::Immortal => "immortal"@,
            CombatStyle::Rage => "rage"@,
            CombatStyle::Vengeance => "vengeance"@,
            CombatStyle::Annihilation => "annihilation"@,
            CombatStyle::Carnage => "carnage"@,
            CombatStyle::Fury => "fury"@,
            CombatStyle::Arsenal => "arsenal"@,
            CombatStyle::Bodyguard => "bodyguard"@,
            CombatStyle::InnovativeOrdinance => "innovativeordinance"@,
            CombatStyle::Concealment => "concealment"@,
            CombatStyle::Lethality => "lethality"@,
            CombatStyle::Medic => "medic"@,
            CombatStyle::AdvancedPrototype => "advancedprototype"@,
            CombatStyle::Pyrotech => "pyrotech"@,
            CombatStyle::ShieldTech => "shieldtech"@,
            CombatStyle::Engineering => "engineering"@,
            CombatStyle::Marksmanship => "marksmanship"@,
            CombatStyle::Virulence => "virulence"@,
            CombatStyle::Corruption => "corruption"@,
            CombatStyle::Lightning => "lightning"@,
            CombatStyle::Madness => "madness"@,
        }
    }

    /// The fully qualified name of the style's discipline record: `dis`,
    /// the class and the style, joined by dots.
    pub open spec fn dis_fqn(self) -> Seq<char> {
        "dis."@ + self.class().name() + "."@ + self.name()
    }

    /// The class that the style belongs to.
    pub fn get_class(&self) -> (r: Class)
        ensures
            r == self.class(),
    {
        match self {
            CombatStyle::Darkness | CombatStyle::Hatred | CombatStyle::Deception => Class::Assassin,
            CombatStyle::Immortal | CombatStyle::Rage | CombatStyle::Vengeance => Class::Juggernaut,
            CombatStyle::Annihilation | CombatStyle::Carnage | CombatStyle::Fury => Class::Marauder,
            CombatStyle::Arsenal | CombatStyle::Bodyguard | CombatStyle::InnovativeOrdinance => {
                Class::Mercenary
            },
            CombatStyle::Concealment | CombatStyle::Lethality | CombatStyle::Medic => {
                Class::Operative
            },
            CombatStyle::AdvancedPrototype | CombatStyle::Pyrotech | CombatStyle::ShieldTech => {
                Class::Powertech
            },
            CombatStyle::Engineering | CombatStyle::Marksmanship | CombatStyle::Virulence => {
                Class::Sniper
            },
            CombatStyle::Corruption | CombatStyle::Lightning | CombatStyle::Madness => {
                Class::Sorcerer
            },
        }
    }

    /// The name of the style in lower case.
    pub fn lowercase_name(&self) -> (r: &'static str)
        ensures
            r@ == self.name(),
    {
        match self {
            CombatStyle::Darkness => "darkness",
            CombatStyle::Hatred => "hatred",
            CombatStyle::Deception => "deception",
            CombatStyle::Immortal => "immortal",
            CombatStyle::Rage => "rage",
            CombatStyle::Vengeance => "vengeance",
            CombatStyle::Annihilation => "annihilation",
            CombatStyle::Carnage => "carnage",
            CombatStyle::Fury => "fury",
            CombatStyle::Arsenal => "arsenal",
            CombatStyle::Bodyguard => "bodyguard",
            CombatStyle::InnovativeOrdinance => "innovativeordinance",
            CombatStyle::Concealment => "concealment",
            CombatStyle::Lethality => "lethality",
            CombatStyle::Medic => "medic",
            CombatStyle::AdvancedPrototype => "advancedprototype",
            CombatStyle::Pyrotech => "pyrotech",
            CombatStyle::ShieldTech => "shieldtech",
            CombatStyle::Engineering => "engineering",
            CombatStyle::Marksmanship => "marksmanship",
            CombatStyle::Virulence => "virulence",
            CombatStyle::Corruption => "corruption",
            CombatStyle::Lightning => "lightning",
            CombatStyle::Madness => "madness",
        }
    }

    /// The fully qualified name of the style's discipline record.
    pub fn get_dis_fqn(&self) -> (r: String)
        ensures
            r@ == self.dis_fqn(),
    {
        let class = self.get_class();
        String::from_str("dis.").concat(class.lowercase_name()).concat(".").concat(
            self.lowercase_name(),
        )
    }
}

impl TreeChoice {
    /// The position of the choice among the three mods of a level.
    pub open spec fn position(self) -> int {
        match self {
            TreeChoice::Left => 0,
            TreeChoice::Middle => 1,
            TreeChoice::Right => 2,
        }
    }

    /// The position of the choice among the three mods of a level.
    pub fn index(&self) -> (r: usize)
        ensures
            r == self.position(),
    {
        match self {
            TreeChoice::Left => 0,
            TreeChoice::Middle => 1,
            TreeChoice::Right => 2,
        }
    }
}

/// The position of the first of the first `n` records whose node carries
/// the name `fqn`.
pub open spec fn first_named(records: Seq<RecordModel>, fqn: Seq<char>, n: int) -> Option<int>
    decreases n,
{
    if n <= 0 || n > records.len() {
        None
    } else {
        match first_named(records, fqn, n - 1) {
            Some(i) => Some(i),
            None => if records[n - 1].node.fqn == fqn {
                Some(n - 1)
            } else {
                None
            },
        }
    }
}

/// The position of the first of the first `n` records whose node carries
/// the id `id`.
pub open spec fn first_with_id(records: Seq<RecordModel>, id: Seq<char>, n: int) -> Option<int>
    decreases n,
{
    if n <= 0 || n > records.len() {
        None
    } else {
        match first_with_id(records, id, n - 1) {
            Some(i) => Some(i),
            None => if records[n - 1].node.id == id {
                Some(n - 1)
            } else {
                None
            },
        }
    }
}

/// The ability id behind the choice at `level`: the level's entry must
/// pair an integer with a list, and the first entry of `table` whose key
/// equals the chosen element of that list must hold an identifier. The
/// chosen element may be of any kind that can be compared.
pub open spec fn chosen_id(
    levels: Seq<(FieldModel, FieldModel)>,
    table: Seq<(FieldModel, FieldModel)>,
    level: int,
    choice: int,
) -> Option<u64> {
    if 0 <= level < levels.len() {
        match levels[level] {
            (FieldModel::Int(_), FieldModel::List(mods)) => if 0 <= choice < mods.len() {
                match lookup(table, mods[choice]) {
                    Some(FieldModel::Id(id)) => Some(id),
                    _ => None,
                }
            } else {
                None
            },
            _ => None,
        }
    } else {
        None
    }
}

/// The ability ids behind the first `n` choices, in order; nothing where one
/// of them cannot be found.
pub open spec fn chosen_ids(
    levels: Seq<(FieldModel, FieldModel)>,
    table: Seq<(FieldModel, FieldModel)>,
    choices: Seq<TreeChoice>,
    n: int,
) -> Option<Seq<u64>>
    decreases n,
{
    if n <= 0 || n > choices.len() {
        Some(Seq::empty())
    } else {
        match chosen_ids(levels, table, choices, n - 1) {
            Some(front) => match chosen_id(levels, table, n - 1, choices[n - 1].position()) {
                Some(id) => Some(front.push(id)),
                None => None,
            },
            None => None,
        }
    }
}

/// The ability ids that `choices` select in the discipline record named
/// `fqn`: the first record of that name must exist, its ninth field must be
/// the lookup list of levels and its tenth the lookup list from mods
/// to ability ids.
pub open spec fn mods_list(records: Seq<RecordModel>, fqn: Seq<char>, choices: Seq<TreeChoice>)
    -> Option<Seq<u64>> {
    match first_named(records, fqn, records.len() as int) {
        Some(i) => if records[i].obj.len() >= 10 {
            match (records[i].obj[8].value, records[i].obj[9].value) {
                (FieldModel::LookupList(levels), FieldModel::LookupList(table)) => chosen_ids(
                    levels,
                    table,
                    choices,
                    choices.len() as int,
                ),
                _ => None,
            }
        } else {
            None
        },
        None => None,
    }
}

/// The character of a decimal digit.
pub open spec fn digit(d: nat) -> char {
    if d == 0 {
        '0'
    } else if d == 1 {
        '1'
    } else if d == 2 {
        '2'
    } else if d == 3 {
        '3'
    } else if d == 4 {
        '4'
    } else if d == 5 {
        '5'
    } else if d == 6 {
        '6'
    } else if d == 7 {
        '7'
    } else if d == 8 {
        '8'
    } else {
        '9'
    }
}

/// A number written in decimal, without leading zeros.
pub open spec fn decimal(n: nat) -> Seq<char>
    decreases n,
{
    if n < 10 {
        seq![digit(n)]
    } else {
        decimal(n / 10).push(digit(n % 10))
    }
}

/// The name of the first record whose node carries the id `id`.
pub open spec fn fqn_of(records: Seq<RecordModel>, id: Seq<char>) -> Option<Seq<char>> {
    match first_with_id(records, id, records.len() as int) {
        Some(i) => Some(records[i].node.fqn),
        None => None,
    }
}

/// The name behind an ability id: that of the ability record with this id
/// or, where there is none, that of the talent record with this id.
pub open spec fn ability_name(
    id: u64,
    abilities: Seq<RecordModel>,
    talents: Seq<RecordModel>,
) -> Option<Seq<char>> {
    match fqn_of(abilities, decimal(id as nat)) {
        Some(name) => Some(name),
        None => fqn_of(talents, decimal(id as nat)),
    }
}

/// The names behind the first `n` ids, in order; nothing where one of them
/// has no record.
pub open spec fn ability_names(
    ids: Seq<u64>,
    abilities: Seq<RecordModel>,
    talents: Seq<RecordModel>,
    n: int,
) -> Option<Seq<Seq<char>>>
    decreases n,
{
    if n <= 0 || n > ids.len() {
        Some(Seq::empty())
    } else {
        match ability_names(ids, abilities, talents, n - 1) {
            Some(front) => match ability_name(ids[n - 1], abilities, talents) {
                Some(name) => Some(front.push(name)),
                None => None,
            },
            None => None,
        }
    }
}

/// A record found among the first `k` is the one found among the first `n`.
pub proof fn lemma_first_named_stays(records: Seq<RecordModel>, fqn: Seq<char>, k: int, n: int)
    requires
        0 <= k <= n <= records.len(),
        first_named(records, fqn, k) is Some,
    ensures
        first_named(records, fqn, n) == first_named(records, fqn, k),
    decreases n - k,
{
    if k < n {
        lemma_first_named_stays(records, fqn, k, n - 1);
    }
}

/// A record found among the first `k` is the one found among the first `n`.
pub proof fn lemma_first_with_id_stays(records: Seq<RecordModel>, id: Seq<char>, k: int, n: int)
    requires
        0 <= k <= n <= records.len(),
        first_with_id(records, id, k) is Some,
    ensures
        first_with_id(records, id, n) == first_with_id(records, id, k),
    decreases n - k,
{
    if k < n {
        lemma_first_with_id_stays(records, id, k, n - 1);
    }
}

/// Once a choice has failed, no longer run of choices succeeds.
pub proof fn lemma_chosen_ids_failure_stays(
    levels: Seq<(FieldModel, FieldModel)>,
    table: Seq<(FieldModel, FieldModel)>,
    choices: Seq<TreeChoice>,
    k: int,
    n: int,
)
    requires
        0 <= k <= n <= choices.len(),
        chosen_ids(levels, table, choices, k) is None,
    ensures
        chosen_ids(levels, table, choices, n) is None,
    decreases n - k,
{
    if k < n {
        lemma_chosen_ids_failure_stays(levels, table, choices, k, n - 1);
    }
}

/// Once an id has no record, no longer run of ids has all its names.
pub proof fn lemma_ability_names_failure_stays(
    ids: Seq<u64>,
    abilities: Seq<RecordModel>,
    talents: Seq<RecordModel>,
    k: int,
    n: int,
)
    requires
        0 <= k <= n <= ids.len(),
        ability_names(ids, abilities, talents, k) is None,
    ensures
        ability_names(ids, abilities, talents, n) is None,
    decreases n - k,
{
    if k < n {
        lemma_ability_names_failure_stays(ids, abilities, talents, k, n - 1);
    }
}

/// `u64::to_string`: the number in decimal, without sign or leading zeros.
#[verifier::external_body]
fn decimal_string(n: u64) -> (r: String)
    ensures
        r@ == decimal(n as nat),
{
    n.to_string()
}

/// The models of a run of records.
pub open spec fn records_of(records: Seq<NodeObjPair>) -> Seq<RecordModel> {
    records.map_values(|r: NodeObjPair| r@)
}

/// Finds the first record whose node carries the name `fqn`.
pub fn find_by_fqn(records: &Vec<NodeObjPair>, fqn: &String) -> (r: Option<usize>)
    ensures
        match r {
            Some(i) => first_named(records_of(records@), fqn@, records.len() as int) == Some(
                i as int,
            ) && i < records.len(),
            None => first_named(records_of(records@), fqn@, records.len() as int) is None,
        },
{
    let mut i: usize = 0;
    while i < records.len()
        invariant
            i <= records.len(),
            first_named(records_of(records@), fqn@, i as int) is None,
        decreases records.len() - i,
    {
        if records[i].node.fqn == *fqn {
            proof {
                lemma_first_named_stays(records_of(records@), fqn@, i + 1, records.len() as int);
            }
            return Some(i);
        }
        i += 1;
    }
    None
}

/// Finds the name of the first record whose node carries the id `id`.
pub fn find_fqn<'a>(records: &'a Vec<NodeObjPair>, id: &String) -> (r: Option<&'a String>)
    ensures
        match r {
            Some(fqn) => first_with_id(records_of(records@), id@, records.len() as int)
                matches Some(i) && fqn@ == records_of(records@)[i].node.fqn,
            None => first_with_id(records_of(records@), id@, records.len() as int) is None,
        },
{
    let mut i: usize = 0;
    while i < records.len()
        invariant
            i <= records.len(),
            first_with_id(records_of(records@), id@, i as int) is None,
        decreases records.len() - i,
    {
        if records[i].node.id == *id {
            proof {
                lemma_first_with_id_stays(records_of(records@), id@, i + 1, records.len() as int);
            }
            return Some(&records[i].node.fqn);
        }
        i += 1;
    }
    None
}

/// The texts of a run of strings.
pub open spec fn texts_of(names: Seq<String>) -> Seq<Seq<char>> {
    names.map_values(|s: String| s@)
}

/// Finds the name behind each ability id, among the ability records first
/// and the talent records second. Nothing where an id has no record.
pub fn get_ability_names(
    mods_ids: &Vec<u64>,
    abilities: &Vec<NodeObjPair>,
    talents: &Vec<NodeObjPair>,
) -> (r: Option<Vec<String>>)
    ensures
        match r {
            Some(names) => ability_names(
                mods_ids@,
                records_of(abilities@),
                records_of(talents@),
                mods_ids@.len() as int,
            ) == Some(texts_of(names@)),
            None => ability_names(
                mods_ids@,
                records_of(abilities@),
                records_of(talents@),
                mods_ids@.len() as int,
            ) is None,
        },
{
    let mut names: Vec<String> = Vec::new();
    let mut i: usize = 0;
    assert(texts_of(names@) =~= Seq::empty());
    while i < mods_ids.len()
        invariant
            i <= mods_ids.len(),
            ability_names(mods_ids@, records_of(abilities@), records_of(talents@), i as int)
                == Some(texts_of(names@)),
        decreases mods_ids.len() - i,
    {
        let ghost before = texts_of(names@);
        let id = decimal_string(mods_ids[i]);
        let found = match find_fqn(abilities, &id) {
            Some(name) => Some(name),
            None => find_fqn(talents, &id),
        };
        match found {
            Some(name) => {
                let name = name.clone();
                names.push(name);
                assert(texts_of(names@) =~= before.push(name@));
            },
            None => {
                proof {
                    assert(ability_names(
                        mods_ids@,
                        records_of(abilities@),
                        records_of(talents@),
                        i + 1,
                    ) is None);
                    lemma_ability_names_failure_stays(
                        mods_ids@,
                        records_of(abilities@),
                        records_of(talents@),
                        i + 1,
                        mods_ids@.len() as int,
                    );
                }
                return None;
            },
        }
        i += 1;
    }
    Some(names)
}

/// Finds the ability id behind the choice at `level`.
pub fn get_chosen_id(levels: &LookupList, table: &LookupList, level: usize, choice: usize) -> (r:
    Option<u64>)
    ensures
        r == chosen_id(levels@, table@, level as int, choice as int),
{
    assert(levels@.len() == levels.0@.len());
    if level >= levels.0.len() {
        return None;
    }
    assert(levels@[level as int] == (levels.0@[level as int].0@, levels.0@[level as int].1@));
    let mods = match &levels.0[level] {
        (FieldValue::Int(_), FieldValue::List(mods)) => mods,
        _ => {
            return None;
        },
    };
    assert(mods@.len() == mods.0@.len());
    if choice >= mods.0.len() {
        return None;
    }
    assert(mods@[choice as int] == mods.0@[choice as int]@);
    match table.get(&mods.0[choice]) {
        Some(FieldValue::Id(id)) => Some(id.0),
        _ => None,
    }
}

impl TreeChoices {
    /// The ability ids that the eight choices select among `records`, if
    /// the records hold a discipline record for the combat style that
    /// is laid out as one.
    pub open spec fn mods(self, records: Seq<RecordModel>) -> Option<Seq<u64>> {
        mods_list(records, self.combat_style.dis_fqn(), self.choices@)
    }

    /// The ability ids that the eight choices select, read from the
    /// discipline record of the combat style. The record must be there and
    /// be laid out as a discipline record with an ability id behind every
    /// choice, which [`TreeChoices::has_mods_list`] tells.
    pub fn get_mods_list(&self, dis_classes: &Vec<NodeObjPair>) -> (r: Vec<u64>)
        requires
            self.mods(records_of(dis_classes@)) is Some,
        ensures
            self.mods(records_of(dis_classes@)) == Some(r@),
    {
        match self.find_mods_list(dis_classes) {
            Some(ids) => ids,
            None => unreached(),
        }
    }

    /// Whether the records hold a discipline record for the combat style
    /// with an ability id behind every choice.
    pub fn has_mods_list(&self, dis_classes: &Vec<NodeObjPair>) -> (r: bool)
        ensures
            r == self.mods(records_of(dis_classes@)) is Some,
    {
        self.find_mods_list(dis_classes).is_some()
    }

    /// The ability ids that the eight choices select, or nothing where the
    /// discipline record is absent, has fewer than ten fields, does not hold
    /// lookup lists as its ninth and tenth field, or leaves a choice without
    /// an ability id.
    pub fn find_mods_list(&self, dis_classes: &Vec<NodeObjPair>) -> (r: Option<Vec<u64>>)
        ensures
            match r {
                Some(ids) => self.mods(records_of(dis_classes@)) == Some(ids@),
                None => self.mods(records_of(dis_classes@)) is None,
            },
    {
        let dis_fqn = self.combat_style.get_dis_fqn();
        let found = match find_by_fqn(dis_classes, &dis_fqn) {
            Some(found) => found,
            None => {
                return None;
            },
        };
        let dis_obj = &dis_classes[found].obj;
        if dis_obj.0.len() < 10 {
            return None;
        }
        let levels = match &dis_obj.0[8].value {
            FieldValue::LookupList(levels) => levels,
            _ => {
                return None;
            },
        };
        let table = match &dis_obj.0[9].value {
            FieldValue::LookupList(table) => table,
            _ => {
                return None;
            },
        };
        let ghost wanted = mods_list(
            records_of(dis_classes@),
            self.combat_style.dis_fqn(),
            self.choices@,
        );
        assert(wanted == chosen_ids(levels@, table@, self.choices@, 8)) by {
            let record = records_of(dis_classes@)[found as int];
            assert(record == dis_classes@[found as int]@);
            assert(record.obj[8] == dis_obj.0@[8]@);
            assert(record.obj[9] == dis_obj.0@[9]@);
        }
        let mut ids: Vec<u64> = Vec::new();
        let mut i: usize = 0;
        while i < 8
            invariant
                i <= 8,
                self.choices@.len() == 8,
                wanted == mods_list(
                    records_of(dis_classes@),
                    self.combat_style.dis_fqn(),
                    self.choices@,
                ),
                wanted == chosen_ids(levels@, table@, self.choices@, 8),
                chosen_ids(levels@, table@, self.choices@, i as int) == Some(ids@),
            decreases 8 - i,
        {
            let choice = self.choices[i];
            assert(choice == self.choices@[i as int]);
            match get_chosen_id(levels, table, i, choice.index()) {
                Some(id) => {
                    ids.push(id);
                },
                None => {
                    proof {
                        assert(chosen_ids(levels@, table@, self.choices@, i + 1) is None);
                        lemma_chosen_ids_failure_stays(levels@, table@, self.choices@, i + 1, 8);
                    }
                    return None;
                },
            }
            i += 1;
        }
        Some(ids)
    }
}

} // verus!
