//! The player's choices: which two fruits a round is dealt from.

use vstd::prelude::*;

use crate::game_mod::{AnswerButton, FruitType};

verus! {

/// The two fruits of a round. The first answers to [`AnswerButton::X`], the
/// second to [`AnswerButton::O`].
#[derive(Debug, Clone, Copy, PartialEq, Eq)]
pub struct GameSettings {
    pub fruit_a: FruitType,
    pub fruit_b: FruitType,
}

impl GameSettings {
    /// The two fruits differ, so a player can tell them apart.
    pub open spec fn distinct(self) -> bool {
        self.fruit_a != self.fruit_b
    }

    /// The fruit that stands for an answer.
    pub open spec fn spec_fruit_for(self, kind: AnswerButton) -> FruitType {
        match kind {
            AnswerButton::X => self.fruit_a,
            AnswerButton::O => self.fruit_b,
        }
    }

    /// The fruit that stands for an answer.
    #[verifier::when_used_as_spec(spec_fruit_for)]
    pub fn fruit_for(self, kind: AnswerButton) -> (fruit: FruitType)
        ensures
            fruit == self.spec_fruit_for(kind),
    {
        match kind {
            AnswerButton::X => self.fruit_a,
            AnswerButton::O => self.fruit_b,
        }
    }
}

impl Default for GameSettings {
    /// Apples against pears.
    fn default() -> (settings: GameSettings)
        ensures
            settings.fruit_a == FruitType::Apple,
            settings.fruit_b == FruitType::Pear,
            settings.distinct(),
    {
        GameSettings { fruit_a: FruitType::Apple, fruit_b: FruitType::Pear }
    }
}

/// The mouse button that chooses a fruit: the left one chooses the first
/// fruit, the right one the second.
#[derive(Debug, Clone, Copy, PartialEq, Eq, Hash, Structural)]
pub enum MouseButton {
    Left,
    Right,
}

/// The settings after `button` was released over `fruit`: the button's fruit
/// becomes `fruit`, unless that is the fruit of the other button.
pub open spec fn with_fruit(
    settings: GameSettings,
    button: MouseButton,
    fruit: FruitType,
) -> GameSettings {
    match button {
        MouseButton::Left => if fruit != settings.fruit_b {
            GameSettings { fruit_a: fruit, ..settings }
        } else {
            settings
        },
        MouseButton::Right => if fruit != settings.fruit_a {
            GameSettings { fruit_b: fruit, ..settings }
        } else {
            settings
        },
    }
}

/// Chooses `fruit` for the button that was released over it. The two fruits
/// of the settings never become the same.
pub fn set_fruits(button: MouseButton, fruit: FruitType, game_settings: &mut GameSettings)
    ensures
        *final(game_settings) == with_fruit(*old(game_settings), button, fruit),
        old(game_settings).distinct() ==> final(game_settings).distinct(),
{
    match button {
        MouseButton::Left => {
            if fruit != game_settings.fruit_b {
                game_settings.fruit_a = fruit;
            }
        },
        MouseButton::Right => {
            if fruit != game_settings.fruit_a {
                game_settings.fruit_b = fruit;
            }
        },
    }
}

/// What the pointer does to a button.
#[derive(Debug, Clone, Copy, PartialEq, Eq, Hash, Structural)]
pub enum Interaction {
    Pressed,
    Hovered,
    Idle,
}

/// The colours a button's border can take.
#[derive(Debug, Clone, Copy, PartialEq, Eq, Hash, Structural)]
pub enum BorderShade {
    White,
    Salmon,
    BasilGreen,
    SkyBlue,
    OliveGreen,
}

/// The marks that a fruit button carries while the pointer is on it.
#[derive(Debug, Clone, Copy, PartialEq, Eq, Hash, Structural)]
pub enum Marker {
    Hovered,
    Pressed,
}

/// What to do to a fruit button: the colour to give its border, the mark to
/// put on it, and the marks to take off.
#[derive(Debug, Clone, Copy, PartialEq, Eq, Hash, Structural)]
pub struct HoverEffect {
    pub border: Option<BorderShade>,
    pub insert: Option<Marker>,
    pub remove_hovered: bool,
    pub remove_pressed: bool,
}

/// The border of a fruit button that the pointer is not on: green for the
/// first fruit of the settings, blue for the second, olive for the others.
pub open spec fn resting_border(fruit: FruitType, settings: GameSettings) -> BorderShade {
    if fruit == settings.fruit_a {
        BorderShade::BasilGreen
    } else if fruit == settings.fruit_b {
        BorderShade::SkyBlue
    } else {
        BorderShade::OliveGreen
    }
}

/// What the pointer does to the button of `fruit`.
///
/// A button that was just pressed turns white and is marked as pressed; one
/// that the pointer just came over turns salmon and is marked as hovered. A
/// button at rest shows [`resting_border`] and loses the hovered mark, and,
/// if the pointer just left it, the pressed mark too. Nothing happens to a
/// button that stays pressed or hovered.
pub open spec fn hover_effect(
    changed: bool,
    interaction: Interaction,
    fruit: FruitType,
    settings: GameSettings,
) -> HoverEffect {
    match interaction {
        Interaction::Pressed if changed => HoverEffect {
            border: Some(BorderShade::White),
            insert: Some(Marker::Pressed),
            remove_hovered: false,
            remove_pressed: false,
        },
        Interaction::Hovered if changed => HoverEffect {
            border: Some(BorderShade::Salmon),
            insert: Some(Marker::Hovered),
            remove_hovered: false,
            remove_pressed: false,
        },
        Interaction::Idle => HoverEffect {
            border: Some(resting_border(fruit, settings)),
            insert: None,
            remove_hovered: true,
            remove_pressed: changed,
        },
        _ => HoverEffect {
            border: None,
            insert: None,
            remove_hovered: false,
            remove_pressed: false,
        },
    }
}

/// Decides what the pointer does to the button of `fruit`; see
/// [`hover_effect`]. `changed` says whether `interaction` is new.
pub fn hover_fruit(
    changed: bool,
    interaction: Interaction,
    fruit: FruitType,
    game_settings: &GameSettings,
) -> (effect: HoverEffect)
    ensures
        effect == hover_effect(changed, interaction, fruit, *game_settings),
{
    let resting = if fruit == game_settings.fruit_a {
        BorderShade::BasilGreen
    } else if fruit == game_settings.fruit_b {
        BorderShade::SkyBlue
    } else {
        BorderShade::OliveGreen
    };
    if changed {
        match interaction {
            Interaction::Pressed => HoverEffect {
                border: Some(BorderShade::White),
                insert: Some(Marker::Pressed),
                remove_hovered: false,
                remove_pressed: false,
            },
            Interaction::Hovered => HoverEffect {
                border: Some(BorderShade::Salmon),
                insert: Some(Marker::Hovered),
                remove_hovered: false,
                remove_pressed: false,
            },
            Interaction::Idle => HoverEffect {
                border: Some(resting),
                insert: None,
                remove_hovered: true,
                remove_pressed: true,
            },
        }
    } else if interaction == Interaction::Idle {
        HoverEffect {
            border: Some(resting),
            insert: None,
            remove_hovered: true,
            remove_pressed: false,
        }
    } else {
        HoverEffect { border: None, insert: None, remove_hovered: false, remove_pressed: false }
    }
}

/// One villager of the village: the picture in the village, the picture on
/// its own, whether the villager has joined, and the level at which that
/// happens.
pub struct VillagerCard {
    pub portrait: Seq<char>,
    pub file: Seq<char>,
    pub unlocked: bool,
    pub threshold: int,
}

/// The village of a new player: ten villagers, none of whom has joined.
pub open spec fn starting_village() -> Seq<VillagerCard> {
    seq![
        VillagerCard {
            portrait: "characters/baker.png"@,
            file: "characters/baker_solo.png"@,
            unlocked: false,
            threshold: 6,
        },
        VillagerCard {
            portrait: "characters/bug_collector.png"@,
            file: "characters/bug_collector_solo.png"@,
            unlocked: false,
            threshold: 11,
        },
        VillagerCard {
            portrait: "characters/traveler.png"@,
            file: "characters/traveler_solo.png"@,
            unlocked: false,
            threshold: 21,
        },
        VillagerCard {
            portrait: "characters/farmer.png"@,
            file: "characters/farmer_solo.png"@,
            unlocked: false,
            threshold: 31,
        },
        VillagerCard {
            portrait: "characters/gardener.png"@,
            file: "characters/gardener_solo.png"@,
            unlocked: false,
            threshold: 41,
        },
        VillagerCard {
            portrait: "characters/librarian.png"@,
            file: "characters/librarian_solo.png"@,
            unlocked: false,
            threshold: 51,
        },
        VillagerCard {
            portrait: "characters/merchant.png"@,
            file: "characters/merchant_solo.png"@,
            unlocked: false,
            threshold: 61,
        },
        VillagerCard {
            portrait: "characters/penguin.png"@,
            file: "characters/penguin_solo.png"@,
            unlocked: false,
            threshold: 81,
        },
        VillagerCard {
            portrait: "characters/student.png"@,
            file: "characters/student_solo.png"@,
            unlocked: false,
            threshold: 91,
        },
        VillagerCard {
            portrait: "characters/cat.png"@,
            file: "characters/cat_solo.png"@,
            unlocked: false,
            threshold: 101,
        },
    ]
}

/// A village in which every villager has joined whom a best score of `score`
/// earns: those whose threshold is at most one above the score. Nobody
/// leaves.
pub open spec fn unlock_by_score(village: Seq<VillagerCard>, score: int) -> Seq<VillagerCard> {
    village.map_values(
        |card: VillagerCard|
            VillagerCard { unlocked: card.unlocked || score >= card.threshold - 1, ..card },
    )
}

/// The villagers shown in the village: two pictures, joined or not, threshold.
#[derive(Debug, Clone, PartialEq, Eq)]
pub struct Villagers {
    pub villagers: Vec<(String, String, bool, i32)>,
}

impl View for Villagers {
    type V = Seq<VillagerCard>;

    open spec fn view(&self) -> Seq<VillagerCard> {
        self.villagers@.map_values(
            |row: (String, String, bool, i32)|
                VillagerCard {
                    portrait: row.0@,
                    file: row.1@,
                    unlocked: row.2,
                    threshold: row.3 as int,
                },
        )
    }
}

impl Default for Villagers {
    fn default() -> (village: Villagers)
        ensures
            village@ == starting_village(),
    {
        let village = Villagers {
            villagers: vec![
                (
                    "characters/baker.png".to_owned(),
                    "characters/baker_solo.png".to_owned(),
                    false,
                    6,
                ),
                (
                    "characters/bug_collector.png".to_owned(),
                    "characters/bug_collector_solo.png".to_owned(),
                    false,
                    11,
                ),
                (
                    "characters/traveler.png".to_owned(),
                    "characters/traveler_solo.png".to_owned(),
                    false,
                    21,
                ),
                (
                    "characters/farmer.png".to_owned(),
                    "characters/farmer_solo.png".to_owned(),
                    false,
                    31,
                ),
                (
                    "characters/gardener.png".to_owned(),
                    "characters/gardener_solo.png".to_owned(),
                    false,
                    41,
                ),
                (
                    "characters/librarian.png".to_owned(),
                    "characters/librarian_solo.png".to_owned(),
                    false,
                    51,
                ),
                (
                    "characters/merchant.png".to_owned(),
                    "characters/merchant_solo.png".to_owned(),
                    false,
                    61,
                ),
                (
                    "characters/penguin.png".to_owned(),
                    "characters/penguin_solo.png".to_owned(),
                    false,
                    81,
                ),
                (
                    "characters/student.png".to_owned(),
                    "characters/student_solo.png".to_owned(),
                    false,
                    91,
                ),
                ("characters/cat.png".to_owned(), "characters/cat_solo.png".to_owned(), false, 101),
            ],
        };
        assert(village@ =~= starting_village());
        village
    }
}

impl Villagers {
    /// Lets every villager join whom a best score of `score` earns; see
    /// [`unlock_by_score`].
    pub fn unlock_by_score(&mut self, score: i64)
        ensures
            final(self)@ == unlock_by_score(old(self)@, score as int),
    {
        let mut i: usize = 0;
        while i < self.villagers.len()
            invariant
                i <= self.villagers.len(),
                self.villagers.len() == old(self).villagers.len(),
                forall|j: int|
                    0 <= j < i ==> #[trigger] self@[j] == unlock_by_score(
                        old(self)@,
                        score as int,
                    )[j],
                forall|j: int|
                    i <= j < self.villagers.len() ==> #[trigger] self@[j] == old(self)@[j],
            decreases self.villagers.len() - i,
        {
            let ghost rows = self.villagers@;
            let ghost seen = self@;
            let threshold: i64 = self.villagers[i].3 as i64;
            if score >= threshold - 1 {
                self.villagers[i].2 = true;
                assert(self.villagers@ =~= rows.update(
                    i as int,
                    (rows[i as int].0, rows[i as int].1, true, rows[i as int].3),
                ));
            }
            assert forall|j: int| 0 <= j < rows.len() && j != i implies #[trigger] self@[j]
                == seen[j] by {
                assert(self.villagers@[j] == rows[j]);
            }
            assert(seen[i as int] == old(self)@[i as int]);
            i = i + 1;
        }
        assert(self@ =~= unlock_by_score(old(self)@, score as int));
    }
}

} // verus!
