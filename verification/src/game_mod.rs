//! Rounds: dealing the fruit, judging a guess, and moving between the phases
//! of a game.

use vstd::prelude::*;

use crate::leaderboard::UpdateRoundEvent;
use crate::random::draw_between;
use crate::settings::GameSettings;
use crate::timer::{Countdown, CountdownView};
use crate::AppState;

verus! {

/// The fruits a round can be dealt from.
#[derive(Debug, Clone, Copy, PartialEq, Eq, Hash, Structural)]
pub enum FruitType {
    Apple,
    Pear,
    Orange,
    Strawberry,
}

/// One of the two answers a player can give: the first fruit of the settings
/// (`X`) or the second (`O`). Every item of a round is of one of these kinds.
#[derive(Debug, Clone, Copy, PartialEq, Eq, Hash, Structural)]
pub enum AnswerButton {
    X,
    O,
}

/// How a round ended.
#[derive(Debug, Clone, Copy, PartialEq, Eq, Hash, Structural)]
pub enum RoundResult {
    Correct,
    Incorrect,
}

impl Default for RoundResult {
    fn default() -> (result: RoundResult)
        ensures
            result == RoundResult::Correct,
    {
        RoundResult::Correct
    }
}

/// The kind that a drawn number stands for: even numbers give `X`, odd ones `O`.
pub open spec fn coin_kind(coin: int) -> AnswerButton {
    if coin % 2 == 0 {
        AnswerButton::X
    } else {
        AnswerButton::O
    }
}

/// The kinds that a run of drawn numbers stands for, one for one.
pub open spec fn coin_kinds(coins: Seq<i32>) -> Seq<AnswerButton> {
    coins.map_values(|coin: i32| coin_kind(coin as int))
}

/// How many items of one kind a round holds.
pub open spec fn tally(kinds: Seq<AnswerButton>, kind: AnswerButton) -> nat {
    kinds.to_multiset().count(kind)
}

/// Whether a guess is right: the guessed kind has strictly the higher tally.
pub open spec fn guess_is_correct(guess: AnswerButton, exes: int, os: int) -> bool {
    (guess == AnswerButton::X && exes > os) || (guess == AnswerButton::O && os > exes)
}

/// The picture that shows a fruit.
pub open spec fn icon_file(fruit: FruitType) -> Seq<char> {
    match fruit {
        FruitType::Apple => "icons/apple.png"@,
        FruitType::Pear => "icons/pear.png"@,
        FruitType::Orange => "icons/orange.png"@,
        FruitType::Strawberry => "icons/strawberry.png"@,
    }
}

/// Turns a drawn number into a kind.
pub fn choose_fruits(random: i32) -> (kind: AnswerButton)
    ensures
        kind == coin_kind(random as int),
{
    if random % 2 == 0 {
        AnswerButton::X
    } else {
        AnswerButton::O
    }
}

/// The path of the picture that shows a fruit.
pub fn fruit_file(fruit: FruitType) -> (file: String)
    ensures
        file@ == icon_file(fruit),
{
    match fruit {
        FruitType::Apple => "icons/apple.png".to_owned(),
        FruitType::Pear => "icons/pear.png".to_owned(),
        FruitType::Orange => "icons/orange.png".to_owned(),
        FruitType::Strawberry => "icons/strawberry.png".to_owned(),
    }
}

/// What a [`GameData`] stands for.
pub struct GameDataView {
    /// The answer given in the running round, if any.
    pub player_guess: Option<AnswerButton>,
    /// The tally of kind `X`.
    pub exes: int,
    /// The tally of kind `O`.
    pub os: int,
    /// How the last judged round ended.
    pub result: RoundResult,
    /// The level that the next round will be played at.
    pub level: int,
    /// Nanoseconds played in the running round.
    pub time_elapsed: nat,
    /// The fruit on screen, in the order dealt.
    pub fruit_array: Seq<FruitType>,
    /// The picture of each fruit on screen.
    pub file_array: Seq<Seq<char>>,
}

impl GameDataView {
    /// The tallies count the fruit on screen, every fruit has its picture, and
    /// levels start at one.
    pub open spec fn wf(self) -> bool {
        &&& self.exes >= 0
        &&& self.os >= 0
        &&& self.exes + self.os == self.fruit_array.len()
        &&& self.file_array == self.fruit_array.map_values(|fruit: FruitType| icon_file(fruit))
        &&& self.level >= 1
    }

    /// The state of a session before its first round.
    pub open spec fn fresh() -> GameDataView {
        GameDataView {
            player_guess: None,
            exes: 0,
            os: 0,
            result: RoundResult::Correct,
            level: 1,
            time_elapsed: 0,
            fruit_array: Seq::empty(),
            file_array: Seq::empty(),
        }
    }
}

/// The state of one session: the running round and the level reached.
#[derive(Debug, Clone, PartialEq, Eq)]
pub struct GameData {
    player_guess: Option<AnswerButton>,
    exes: i32,
    os: i32,
    result: RoundResult,
    level: i32,
    time_elapsed: u64,
    fruit_array: Vec<FruitType>,
    file_array: Vec<String>,
}

impl View for GameData {
    type V = GameDataView;

    closed spec fn view(&self) -> GameDataView {
        GameDataView {
            player_guess: self.player_guess,
            exes: self.exes as int,
            os: self.os as int,
            result: self.result,
            level: self.level as int,
            time_elapsed: self.time_elapsed as nat,
            fruit_array: self.fruit_array@,
            file_array: self.file_array@.map_values(|file: String| file@),
        }
    }
}

impl Default for GameData {
    /// A session before its first round: level one, nothing dealt.
    fn default() -> (game_data: GameData)
        ensures
            game_data@ == GameDataView::fresh(),
            game_data@.wf(),
    {
        let game_data = GameData {
            player_guess: None,
            exes: 0,
            os: 0,
            result: RoundResult::Correct,
            level: 1,
            time_elapsed: 0,
            fruit_array: Vec::new(),
            file_array: Vec::new(),
        };
        assert(game_data@.file_array =~= Seq::empty());
        assert(game_data@.file_array =~= game_data@.fruit_array.map_values(
            |fruit: FruitType| icon_file(fruit),
        ));
        game_data
    }
}

impl GameData {
    /// The answer given in the running round, if any.
    pub fn player_guess(&self) -> (guess: Option<AnswerButton>)
        ensures
            guess == self@.player_guess,
    {
        self.player_guess
    }

    /// The tally of kind `X`.
    pub fn exes(&self) -> (exes: i32)
        ensures
            exes == self@.exes,
    {
        self.exes
    }

    /// The tally of kind `O`.
    pub fn os(&self) -> (os: i32)
        ensures
            os == self@.os,
    {
        self.os
    }

    /// How the last judged round ended.
    pub fn result(&self) -> (result: RoundResult)
        ensures
            result == self@.result,
    {
        self.result
    }

    /// The level that the next round will be played at.
    pub fn level(&self) -> (level: i32)
        ensures
            level == self@.level,
    {
        self.level
    }

    /// Nanoseconds played in the running round.
    pub fn time_elapsed(&self) -> (nanos: u64)
        ensures
            nanos == self@.time_elapsed,
    {
        self.time_elapsed
    }

    /// The fruit on screen, in the order dealt.
    pub fn fruit_array(&self) -> (fruits: &Vec<FruitType>)
        ensures
            fruits@ == self@.fruit_array,
    {
        &self.fruit_array
    }

    /// The picture of each fruit on screen.
    pub fn file_array(&self) -> (files: &Vec<String>)
        ensures
            files@.map_values(|file: String| file@) == self@.file_array,
    {
        &self.file_array
    }
}

/// One villager of a roster: the picture, whether the villager has joined,
/// and the level at which that happens.
pub struct Villager {
    pub file: Seq<char>,
    pub unlocked: bool,
    pub threshold: int,
}

/// A roster in which every villager whose threshold is `level` has joined;
/// the others are as they were.
pub open spec fn unlock_at(roster: Seq<Villager>, level: int) -> Seq<Villager> {
    roster.map_values(
        |villager: Villager|
            Villager { unlocked: villager.unlocked || villager.threshold == level, ..villager },
    )
}

/// The roster of a new game: ten villagers, none of whom has joined.
pub open spec fn starting_roster() -> Seq<Villager> {
    seq![
        Villager { file: "characters/baker_solo.png"@, unlocked: false, threshold: 6 },
        Villager { file: "characters/bug_collector_solo.png"@, unlocked: false, threshold: 11 },
        Villager { file: "characters/traveler_solo.png"@, unlocked: false, threshold: 21 },
        Villager { file: "characters/farmer_solo.png"@, unlocked: false, threshold: 31 },
        Villager { file: "characters/gardener_solo.png"@, unlocked: false, threshold: 41 },
        Villager { file: "characters/librarian_solo.png"@, unlocked: false, threshold: 51 },
        Villager { file: "characters/merchant_solo.png"@, unlocked: false, threshold: 61 },
        Villager { file: "characters/penguin_solo.png"@, unlocked: false, threshold: 81 },
        Villager { file: "characters/student_solo.png"@, unlocked: false, threshold: 91 },
        Villager { file: "characters/cat_solo.png"@, unlocked: false, threshold: 101 },
    ]
}

/// The villagers shown during a game: picture, joined or not, threshold.
#[derive(Debug, Clone, PartialEq, Eq)]
pub struct VillagersGame {
    pub villagers: Vec<(String, bool, i32)>,
}

impl View for VillagersGame {
    type V = Seq<Villager>;

    open spec fn view(&self) -> Seq<Villager> {
        self.villagers@.map_values(
            |row: (String, bool, i32)|
                Villager { file: row.0@, unlocked: row.1, threshold: row.2 as int },
        )
    }
}

impl Default for VillagersGame {
    fn default() -> (roster: VillagersGame)
        ensures
            roster@ == starting_roster(),
    {
        let roster = VillagersGame {
            villagers: vec![
                ("characters/baker_solo.png".to_owned(), false, 6),
                ("characters/bug_collector_solo.png".to_owned(), false, 11),
                ("characters/traveler_solo.png".to_owned(), false, 21),
                ("characters/farmer_solo.png".to_owned(), false, 31),
                ("characters/gardener_solo.png".to_owned(), false, 41),
                ("characters/librarian_solo.png".to_owned(), false, 51),
                ("characters/merchant_solo.png".to_owned(), false, 61),
                ("characters/penguin_solo.png".to_owned(), false, 81),
                ("characters/student_solo.png".to_owned(), false, 91),
                ("characters/cat_solo.png".to_owned(), false, 101),
            ],
        };
        assert(roster@ =~= starting_roster());
        roster
    }
}

/// Judges a guess against the tallies and records how the round ended.
///
/// The guess is right exactly when the guessed kind has strictly the higher
/// tally; nothing else of the session changes.
pub fn process_guess(guess: AnswerButton, exes: i32, os: i32, game_data: &mut GameData) -> (correct:
    bool)
    ensures
        correct == guess_is_correct(guess, exes as int, os as int),
        final(game_data)@ == (GameDataView {
            result: if correct {
                RoundResult::Correct
            } else {
                RoundResult::Incorrect
            },
            ..old(game_data)@
        }),
{
    let correct = match guess {
        AnswerButton::X => exes > os,
        AnswerButton::O => os > exes,
    };
    if correct {
        game_data.result = RoundResult::Correct;
    } else {
        game_data.result = RoundResult::Incorrect;
    }
    correct
}

/// On a round without a tie exactly one of the two answers is right: the
/// verdict depends on the two tallies and the guess alone, and a player who
/// answers is right or wrong, never both and never neither.
pub proof fn lemma_one_answer_is_right(exes: int, os: int)
    requires
        exes != os,
    ensures
        guess_is_correct(AnswerButton::X, exes, os) != guess_is_correct(AnswerButton::O, exes, os),
        guess_is_correct(AnswerButton::X, exes, os) <==> exes > os,
        guess_is_correct(AnswerButton::O, exes, os) <==> os > exes,
{
}

/// The fewest items a round is dealt before a tie is broken.
pub const MIN_ITEMS: i32 = 1;

/// The most items a round is dealt before a tie is broken.
pub const MAX_ITEMS: i32 = 16;

/// The round grows from this number up to the bound that is drawn.
pub const FIRST_ITEM: i32 = 3;

/// The bound of a round is drawn from `UPPER_LOW..UPPER_HIGH`.
pub const UPPER_LOW: i32 = 4;

/// The bound of a round stays below this number.
pub const UPPER_HIGH: i32 = 20;

/// The number that decides an item's kind is drawn from `COIN_LOW..COIN_HIGH`,
/// a range with as many even numbers as odd ones.
pub const COIN_LOW: i32 = 1;

/// The number that decides an item's kind stays below this number.
pub const COIN_HIGH: i32 = 11;

/// The items of a round once a tie is broken: a round whose two tallies are
/// equal gets one more item, of kind `extra`; any other round stays as it is.
pub open spec fn with_tie_break(kinds: Seq<AnswerButton>, extra: AnswerButton) -> Seq<
    AnswerButton,
> {
    if tally(kinds, AnswerButton::X) == tally(kinds, AnswerButton::O) {
        kinds.push(extra)
    } else {
        kinds
    }
}

/// The session with the items `kinds` on the table: the tallies count them,
/// each item shows the fruit that the settings give its kind, no guess has
/// been made and no time has passed. Level and last result are as before.
pub open spec fn laid_out(
    before: GameDataView,
    settings: GameSettings,
    kinds: Seq<AnswerButton>,
) -> GameDataView {
    GameDataView {
        player_guess: None,
        exes: tally(kinds, AnswerButton::X) as int,
        os: tally(kinds, AnswerButton::O) as int,
        result: before.result,
        level: before.level,
        time_elapsed: 0,
        fruit_array: kinds.map_values(|kind: AnswerButton| settings.spec_fruit_for(kind)),
        file_array: kinds.map_values(
            |kind: AnswerButton| icon_file(settings.spec_fruit_for(kind)),
        ),
    }
}

/// The session after a round of the items `kinds` has been dealt: the items
/// are on the table and the level has gone up by one.
pub open spec fn dealt(
    before: GameDataView,
    settings: GameSettings,
    kinds: Seq<AnswerButton>,
) -> GameDataView {
    GameDataView { level: before.level + 1, ..laid_out(before, settings, kinds) }
}

/// One more item adds one to the tally of its kind and leaves the other
/// tally alone.
pub proof fn lemma_tally_push(kinds: Seq<AnswerButton>, kind: AnswerButton)
    ensures
        tally(kinds.push(kind), kind) == tally(kinds, kind) + 1,
        forall|other: AnswerButton|
            other != kind ==> tally(kinds.push(kind), other) == tally(kinds, other),
{
    broadcast use vstd::seq_lib::to_multiset_build;
    broadcast use vstd::multiset::lemma_insert_increases_count_by_1;
    broadcast use vstd::multiset::lemma_insert_other_elements_unchanged;

}

/// Every item is of one of the two kinds: the two tallies add up to the
/// number of items.
pub proof fn lemma_tallies_cover(kinds: Seq<AnswerButton>)
    ensures
        tally(kinds, AnswerButton::X) + tally(kinds, AnswerButton::O) == kinds.len(),
    decreases kinds.len(),
{
    if kinds.len() == 0 {
        assert(kinds.to_multiset().len() == 0) by {
            vstd::seq_lib::to_multiset_len(kinds);
        }
        assert(kinds.to_multiset().count(AnswerButton::X) == 0
            && kinds.to_multiset().count(AnswerButton::O) == 0) by {
            vstd::multiset::lemma_multiset_empty_len(kinds.to_multiset());
        }
    } else {
        let front = kinds.drop_last();
        let last = kinds.last();
        assert(kinds =~= front.push(last));
        lemma_tallies_cover(front);
        lemma_tally_push(front, last);
        match last {
            AnswerButton::X => {},
            AnswerButton::O => {},
        }
    }
}

/// No round is shown with a tie: once the tie is broken, the two tallies
/// differ, whatever the kind of the extra item.
pub proof fn lemma_no_tie(kinds: Seq<AnswerButton>, extra: AnswerButton)
    ensures
        tally(with_tie_break(kinds, extra), AnswerButton::X) != tally(
            with_tie_break(kinds, extra),
            AnswerButton::O,
        ),
{
    if tally(kinds, AnswerButton::X) == tally(kinds, AnswerButton::O) {
        lemma_tally_push(kinds, extra);
        match extra {
            AnswerButton::X => {},
            AnswerButton::O => {},
        }
    }
}

/// A tie is broken by exactly one item, and by none where there is no tie:
/// the round keeps its size or grows by one, and where it grew the tallies
/// differ by exactly one.
pub proof fn lemma_tie_break_size(kinds: Seq<AnswerButton>, extra: AnswerButton)
    ensures
        kinds.len() <= with_tie_break(kinds, extra).len() <= kinds.len() + 1,
        with_tie_break(kinds, extra).len() == kinds.len() + 1 <==> tally(kinds, AnswerButton::X)
            == tally(kinds, AnswerButton::O),
        with_tie_break(kinds, extra).len() == kinds.len() + 1 ==> {
            let full = with_tie_break(kinds, extra);
            tally(full, AnswerButton::X) == tally(full, AnswerButton::O) + 1 || tally(
                full,
                AnswerButton::O,
            ) == tally(full, AnswerButton::X) + 1
        },
{
    if tally(kinds, AnswerButton::X) == tally(kinds, AnswerButton::O) {
        lemma_tally_push(kinds, extra);
        match extra {
            AnswerButton::X => {},
            AnswerButton::O => {},
        }
    }
}

/// A session that was in order is in order after any round dealt to it.
pub proof fn lemma_dealt_wf(before: GameDataView, settings: GameSettings, kinds: Seq<AnswerButton>)
    requires
        before.level >= 1,
    ensures
        dealt(before, settings, kinds).wf(),
        laid_out(before, settings, kinds).wf(),
{
    lemma_tallies_cover(kinds);
    let after = laid_out(before, settings, kinds);
    assert(after.file_array =~= after.fruit_array.map_values(|fruit: FruitType| icon_file(fruit)));
}

/// The session after the rounds `rounds` have been dealt one after the other.
pub open spec fn after_rounds(
    start: GameDataView,
    settings: GameSettings,
    rounds: Seq<Seq<AnswerButton>>,
) -> GameDataView
    decreases rounds.len(),
{
    if rounds.len() == 0 {
        start
    } else {
        dealt(after_rounds(start, settings, rounds.drop_last()), settings, rounds.last())
    }
}

/// The level counts the rounds: every round dealt raises it by one, whatever
/// is on the table and however the rounds before it ended.
pub proof fn lemma_level_counts_rounds(
    start: GameDataView,
    settings: GameSettings,
    rounds: Seq<Seq<AnswerButton>>,
)
    ensures
        after_rounds(start, settings, rounds).level == start.level + rounds.len(),
    decreases rounds.len(),
{
    if rounds.len() > 0 {
        lemma_level_counts_rounds(start, settings, rounds.drop_last());
    }
}

impl GameData {
    /// Clears the table for a new round: no items, no guess, no time passed.
    fn clear_round(&mut self, Ghost(settings): Ghost<GameSettings>)
        ensures
            final(self)@ == laid_out(old(self)@, settings, Seq::empty()),
    {
        self.fruit_array.clear();
        self.file_array.clear();
        self.player_guess = None;
        self.time_elapsed = 0;
        self.exes = 0;
        self.os = 0;
        proof {
            let empty = Seq::<AnswerButton>::empty();
            lemma_tallies_cover(empty);
            assert(self@.fruit_array =~= laid_out(old(self)@, settings, empty).fruit_array);
            assert(self@.file_array =~= laid_out(old(self)@, settings, empty).file_array);
        }
    }

    /// Puts one more item on the table, of the kind that `coin` stands for.
    fn add_fruit(
        &mut self,
        game_settings: &GameSettings,
        coin: i32,
        Ghost(before): Ghost<GameDataView>,
        Ghost(kinds): Ghost<Seq<AnswerButton>>,
    )
        requires
            old(self)@ == laid_out(before, *game_settings, kinds),
            kinds.len() < i32::MAX,
        ensures
            final(self)@ == laid_out(before, *game_settings, kinds.push(coin_kind(coin as int))),
    {
        let kind = choose_fruits(coin);
        let fruit = game_settings.fruit_for(kind);
        proof {
            lemma_tallies_cover(kinds);
            lemma_tally_push(kinds, kind);
        }
        match kind {
            AnswerButton::X => {
                self.exes = self.exes + 1;
            },
            AnswerButton::O => {
                self.os = self.os + 1;
            },
        }
        let ghost files = self@.file_array;
        let file = fruit_file(fruit);
        self.fruit_array.push(fruit);
        self.file_array.push(file);
        proof {
            let after = laid_out(before, *game_settings, kinds.push(kind));
            assert(self@.fruit_array =~= after.fruit_array);
            assert(self@.file_array =~= files.push(file@));
            assert(self@.file_array =~= after.file_array);
        }
    }
}

/// Deals a round from numbers that were drawn beforehand and moves on to the
/// phase in which the player answers.
///
/// Each number of `coins` gives one item, in order. If the two tallies are
/// then equal, `tie_coin` gives one more item; otherwise it is not used. The
/// level goes up by one. The session ends up exactly as [`dealt`] on these
/// items says, so in particular the two tallies differ.
pub fn play_round(
    game_data: &mut GameData,
    game_settings: &GameSettings,
    coins: &Vec<i32>,
    tie_coin: i32,
) -> (next: AppState)
    requires
        coins.len() < i32::MAX,
        old(game_data)@.level < i32::MAX,
    ensures
        next == AppState::Pause,
        final(game_data)@ == dealt(
            old(game_data)@,
            *game_settings,
            with_tie_break(coin_kinds(coins@), coin_kind(tie_coin as int)),
        ),
        final(game_data)@.exes != final(game_data)@.os,
        old(game_data)@.level >= 1 ==> final(game_data)@.wf(),
{
    let ghost before = game_data@;
    let ghost mut kinds = Seq::<AnswerButton>::empty();
    game_data.clear_round(Ghost(*game_settings));
    let mut i: usize = 0;
    while i < coins.len()
        invariant
            i <= coins.len() < i32::MAX,
            kinds =~= coin_kinds(coins@.take(i as int)),
            game_data@ == laid_out(before, *game_settings, kinds),
        decreases coins.len() - i,
    {
        game_data.add_fruit(game_settings, coins[i], Ghost(before), Ghost(kinds));
        proof {
            kinds = kinds.push(coin_kind(coins[i as int] as int));
            assert(coins@.take(i + 1) =~= coins@.take(i as int).push(coins[i as int]));
        }
        i = i + 1;
    }
    proof {
        assert(coins@.take(i as int) =~= coins@);
    }
    if game_data.exes == game_data.os {
        game_data.add_fruit(game_settings, tie_coin, Ghost(before), Ghost(kinds));
    }
    game_data.level = game_data.level + 1;
    proof {
        let full = with_tie_break(coin_kinds(coins@), coin_kind(tie_coin as int));
        lemma_no_tie(coin_kinds(coins@), coin_kind(tie_coin as int));
        if before.level >= 1 {
            lemma_dealt_wf(before, *game_settings, full);
        }
    }
    AppState::Pause
}

/// Deals a round by chance and moves on to the phase in which the player
/// answers.
///
/// Between [`MIN_ITEMS`] and [`MAX_ITEMS`] items are dealt, each of a kind
/// decided by a drawn number; a tie is broken by one more item. Whatever is
/// drawn, the session ends up as [`dealt`] says on some such round: the two
/// tallies differ, and the level has gone up by one.
pub fn play_game(game_data: &mut GameData, game_settings: &GameSettings) -> (next: AppState)
    requires
        old(game_data)@.level < i32::MAX,
    ensures
        next == AppState::Pause,
        exists|base: Seq<AnswerButton>, extra: AnswerButton|
            MIN_ITEMS <= base.len() <= MAX_ITEMS && final(game_data)@ == dealt(
                old(game_data)@,
                *game_settings,
                #[trigger] with_tie_break(base, extra),
            ),
        final(game_data)@.exes != final(game_data)@.os,
        MIN_ITEMS <= final(game_data)@.fruit_array.len() <= MAX_ITEMS + 1,
        old(game_data)@.level >= 1 ==> final(game_data)@.wf(),
{
    let ghost before = game_data@;
    let ghost mut kinds = Seq::<AnswerButton>::empty();
    let ghost mut extra = AnswerButton::X;
    game_data.clear_round(Ghost(*game_settings));
    let mut rng = rand::thread_rng();
    let upper: i32 = draw_between(&mut rng, UPPER_LOW, UPPER_HIGH);
    let mut iter: i32 = FIRST_ITEM;
    while iter < upper
        invariant
            FIRST_ITEM <= iter <= upper < UPPER_HIGH,
            kinds.len() == iter - FIRST_ITEM,
            game_data@ == laid_out(before, *game_settings, kinds),
        decreases upper - iter,
    {
        let coin: i32 = draw_between(&mut rng, COIN_LOW, COIN_HIGH);
        game_data.add_fruit(game_settings, coin, Ghost(before), Ghost(kinds));
        proof {
            kinds = kinds.push(coin_kind(coin as int));
        }
        iter = iter + 1;
    }
    if game_data.exes == game_data.os {
        let coin: i32 = draw_between(&mut rng, COIN_LOW, COIN_HIGH);
        game_data.add_fruit(game_settings, coin, Ghost(before), Ghost(kinds));
        proof {
            extra = coin_kind(coin as int);
        }
    }
    game_data.level = game_data.level + 1;
    proof {
        let full = with_tie_break(kinds, extra);
        lemma_no_tie(kinds, extra);
        lemma_tie_break_size(kinds, extra);
        assert(game_data@ == dealt(before, *game_settings, full));
        if before.level >= 1 {
            lemma_dealt_wf(before, *game_settings, full);
        }
    }
    AppState::Pause
}

/// Whether the villager at place `i` joins at `level` and should be
/// announced: the threshold is this level and the villager has not joined yet.
pub open spec fn joins_at(roster: Seq<Villager>, level: int, i: int) -> bool {
    &&& 0 <= i < roster.len()
    &&& roster[i].threshold == level
    &&& !roster[i].unlocked
}

impl VillagersGame {
    /// Lets every villager join whose threshold is `level`. Nobody leaves, and
    /// pictures and thresholds stay as they are.
    pub fn unlock(&mut self, level: i32)
        ensures
            final(self)@ == unlock_at(old(self)@, level as int),
    {
        let mut i: usize = 0;
        while i < self.villagers.len()
            invariant
                i <= self.villagers.len(),
                self.villagers.len() == old(self).villagers.len(),
                forall|j: int|
                    0 <= j < i ==> #[trigger] self@[j] == unlock_at(old(self)@, level as int)[j],
                forall|j: int|
                    i <= j < self.villagers.len() ==> #[trigger] self@[j] == old(self)@[j],
            decreases self.villagers.len() - i,
        {
            let ghost rows = self.villagers@;
            let ghost seen = self@;
            if self.villagers[i].2 == level {
                self.villagers[i].1 = true;
                assert(self.villagers@ =~= rows.update(
                    i as int,
                    (rows[i as int].0, true, rows[i as int].2),
                ));
            }
            assert forall|j: int| 0 <= j < rows.len() && j != i implies #[trigger] self@[j]
                == seen[j] by {
                assert(self.villagers@[j] == rows[j]);
            }
            assert(seen[i as int] == old(self)@[i as int]);
            i = i + 1;
        }
        assert(self@ =~= unlock_at(old(self)@, level as int));
    }

    /// The places of the villagers to announce at `level`, in rising order:
    /// those whose threshold is this level and who have not joined yet.
    pub fn joining(&self, level: i32) -> (found: Vec<usize>)
        ensures
            forall|k: int|
                0 <= k < found.len() ==> joins_at(self@, level as int, #[trigger] found[k] as int),
            forall|i: int| joins_at(self@, level as int, i) ==> found@.contains(i as usize),
            forall|a: int, b: int| 0 <= a < b < found.len() ==> found[a] < found[b],
    {
        let mut found: Vec<usize> = Vec::new();
        let mut i: usize = 0;
        while i < self.villagers.len()
            invariant
                i <= self.villagers.len(),
                forall|k: int|
                    0 <= k < found.len() ==> found[k] < i && joins_at(
                        self@,
                        level as int,
                        #[trigger] found[k] as int,
                    ),
                forall|j: int|
                    0 <= j < i && joins_at(self@, level as int, j) ==> found@.contains(j as usize),
                forall|a: int, b: int| 0 <= a < b < found.len() ==> found[a] < found[b],
            decreases self.villagers.len() - i,
        {
            if self.villagers[i].2 == level && !self.villagers[i].1 {
                let ghost before = found@;
                found.push(i);
                assert forall|j: int|
                    0 <= j <= i && joins_at(self@, level as int, j) implies found@.contains(
                    j as usize,
                ) by {
                    if j < i {
                        let k = choose|k: int| 0 <= k < before.len() && before[k] == j as usize;
                        assert(found@[k] == j as usize);
                    } else {
                        assert(found@[found.len() - 1] == i);
                    }
                }
            }
            i = i + 1;
        }
        found
    }
}

/// Every level of `levels` applied to a roster in turn, first to last.
pub open spec fn unlock_through(roster: Seq<Villager>, levels: Seq<int>) -> Seq<Villager>
    decreases levels.len(),
{
    if levels.len() == 0 {
        roster
    } else {
        unlock_at(unlock_through(roster, levels.drop_last()), levels.last())
    }
}

/// Villagers join for good, and only at their threshold.
///
/// Take any roster and any run of levels reached one after the other. A
/// villager who has joined after the first `sooner` of them has joined after
/// the first `later` of them too, for `sooner <= later`. A villager who joined
/// on the way has a threshold among the levels reached so far. Pictures and
/// thresholds never change.
pub proof fn lemma_unlock_monotone(
    roster: Seq<Villager>,
    levels: Seq<int>,
    sooner: int,
    later: int,
    i: int,
)
    requires
        0 <= sooner <= later <= levels.len(),
        0 <= i < roster.len(),
    ensures
        unlock_through(roster, levels.take(later)).len() == roster.len(),
        unlock_through(roster, levels.take(later))[i].file == roster[i].file,
        unlock_through(roster, levels.take(later))[i].threshold == roster[i].threshold,
        unlock_through(roster, levels.take(sooner))[i].unlocked ==> unlock_through(
            roster,
            levels.take(later),
        )[i].unlocked,
        unlock_through(roster, levels.take(later))[i].unlocked && !roster[i].unlocked
            ==> levels.take(later).contains(roster[i].threshold),
    decreases later,
{
    let upto = levels.take(later);
    if later == 0 {
        assert(levels.take(sooner) =~= upto);
    } else {
        let front = levels.take(later - 1);
        assert(upto.drop_last() =~= front);
        assert(upto.last() == levels[later - 1]);
        if sooner == later {
            lemma_unlock_monotone(roster, levels, later - 1, later - 1, i);
        } else {
            lemma_unlock_monotone(roster, levels, sooner, later - 1, i);
        }
        let reached = unlock_through(roster, front);
        assert(unlock_through(roster, upto) == unlock_at(reached, levels[later - 1]));
        if unlock_through(roster, upto)[i].unlocked && !roster[i].unlocked {
            if reached[i].unlocked {
                let k = choose|k: int| 0 <= k < front.len() && front[k] == roster[i].threshold;
                assert(upto[k] == roster[i].threshold);
            } else {
                assert(upto[later - 1] == roster[i].threshold);
            }
        }
    }
}

/// The time a player has to answer, in nanoseconds: five seconds.
pub const ANSWER_NANOS: u64 = 5_000_000_000;

/// The time a verdict stays on screen, in nanoseconds: half a second.
pub const VERDICT_NANOS: u64 = 500_000_000;

/// The countdown that shows a verdict before the game moves on.
#[derive(Debug, Clone, Copy, PartialEq, Eq)]
pub struct ResultTimer {
    pub result_timer: Countdown,
}

impl Default for ResultTimer {
    fn default() -> (timer: ResultTimer)
        ensures
            timer.result_timer@ == (CountdownView {
                duration: VERDICT_NANOS as nat,
                elapsed: 0,
                finished: false,
                paused: false,
            }),
    {
        ResultTimer { result_timer: Countdown::from_nanos(VERDICT_NANOS) }
    }
}

/// The countdown within which the player has to answer.
#[derive(Debug, Clone, Copy, PartialEq, Eq)]
pub struct PauseTimer {
    pub pause_timer: Countdown,
}

impl Default for PauseTimer {
    fn default() -> (timer: PauseTimer)
        ensures
            timer.pause_timer@ == (CountdownView {
                duration: ANSWER_NANOS as nat,
                elapsed: 0,
                finished: false,
                paused: false,
            }),
    {
        PauseTimer { pause_timer: Countdown::from_nanos(ANSWER_NANOS) }
    }
}

/// What a player can do while a round is shown.
#[derive(Debug, Clone, Copy, PartialEq, Eq, Hash, Structural)]
pub enum GameInput {
    /// Leave the game.
    Escape,
    /// Answer with one of the two kinds.
    Answer(AnswerButton),
}

/// Takes one input of the player during a round and says which phase follows.
///
/// Leaving ends the game and changes nothing else. An answer is recorded and
/// judged at once against the tallies on the table, the countdown is held so
/// that it cannot run out on a round that was answered, and the verdict is
/// shown next.
pub fn interact_button(input: GameInput, game_data: &mut GameData, timer: &mut PauseTimer) -> (next:
    AppState)
    ensures
        match input {
            GameInput::Escape => {
                &&& next == AppState::GameOver
                &&& final(game_data)@ == old(game_data)@
                &&& final(timer).pause_timer@ == old(timer).pause_timer@
            },
            GameInput::Answer(guess) => {
                &&& next == AppState::ShowResults
                &&& final(timer).pause_timer@ == (CountdownView {
                    paused: true,
                    ..old(timer).pause_timer@
                })
                &&& final(game_data)@ == (GameDataView {
                    player_guess: Some(guess),
                    result: if guess_is_correct(guess, old(game_data)@.exes, old(game_data)@.os) {
                        RoundResult::Correct
                    } else {
                        RoundResult::Incorrect
                    },
                    ..old(game_data)@
                })
            },
        },
{
    match input {
        GameInput::Escape => AppState::GameOver,
        GameInput::Answer(guess) => {
            game_data.player_guess = Some(guess);
            timer.pause_timer.pause();
            let exes = game_data.exes;
            let os = game_data.os;
            process_guess(guess, exes, os, game_data);
            AppState::ShowResults
        },
    }
}

/// Shows the verdict for `delta` more nanoseconds and, once it has been up
/// for its full time, says which phase follows.
///
/// While the time is not up nothing happens. When it is up the countdown
/// starts over; after a correct round the villagers whose threshold is the
/// level now reached join and the next round starts, after an incorrect one
/// the game is over.
pub fn show_results(
    delta: u64,
    timer: &mut ResultTimer,
    game_data: &GameData,
    villagers: &mut VillagersGame,
) -> (next: Option<AppState>)
    ensures
        ({
            let ticked = old(timer).result_timer@.tick(delta as nat);
            if !ticked.finished {
                &&& next.is_none()
                &&& final(timer).result_timer@ == ticked
                &&& final(villagers)@ == old(villagers)@
            } else if game_data@.result == RoundResult::Correct {
                &&& next == Some(AppState::StartRound)
                &&& final(timer).result_timer@ == ticked.reset()
                &&& final(villagers)@ == unlock_at(old(villagers)@, game_data@.level)
            } else {
                &&& next == Some(AppState::GameOver)
                &&& final(timer).result_timer@ == ticked.reset()
                &&& final(villagers)@ == old(villagers)@
            }
        }),
{
    timer.result_timer.tick(delta);
    if timer.result_timer.finished() {
        match game_data.result {
            RoundResult::Correct => {
                villagers.unlock(game_data.level);
                timer.result_timer.reset();
                Some(AppState::StartRound)
            },
            RoundResult::Incorrect => {
                timer.result_timer.reset();
                Some(AppState::GameOver)
            },
        }
    } else {
        None
    }
}

/// Adds `delta` nanoseconds to the time played in the running round.
pub fn tick_elapsed(game_data: &mut GameData, delta: u64)
    requires
        old(game_data)@.time_elapsed + delta <= u64::MAX,
    ensures
        final(game_data)@ == (GameDataView {
            time_elapsed: old(game_data)@.time_elapsed + delta as nat,
            ..old(game_data)@
        }),
{
    game_data.time_elapsed = game_data.time_elapsed + delta;
}

/// What one step of the answering phase does to the countdown and the guess,
/// and the phase it leads to, if any.
pub struct PauseStep {
    pub timer: CountdownView,
    pub player_guess: Option<AnswerButton>,
    pub next: Option<AppState>,
}

/// One step of the answering phase, `delta` nanoseconds long.
///
/// The countdown moves on. If it has run out and there is no guess, the round
/// counts as lost: the game is over and the countdown starts over. If the
/// countdown is held, which it is once an answer was given, it is released
/// and starts over for the next round, and the guess is forgotten.
pub open spec fn pause_step(
    timer: CountdownView,
    player_guess: Option<AnswerButton>,
    delta: nat,
) -> PauseStep {
    let ticked = timer.tick(delta);
    let timed_out = ticked.finished && player_guess.is_none();
    let after_timeout = if timed_out {
        ticked.reset()
    } else {
        ticked
    };
    PauseStep {
        timer: if after_timeout.paused {
            (CountdownView { paused: false, ..after_timeout }).reset()
        } else {
            after_timeout
        },
        player_guess: if after_timeout.paused {
            None
        } else {
            player_guess
        },
        next: if timed_out {
            Some(AppState::GameOver)
        } else {
            None
        },
    }
}

/// A round that is not answered in time is lost, whatever is on the table.
///
/// While the countdown runs, a step ends the game exactly when no answer was
/// given and the time still to go has passed. Once an answer has stopped the
/// countdown no step ends the game, however long it is: the countdown is
/// released and starts over, and the guess is forgotten.
pub proof fn lemma_unanswered_round_is_lost(
    timer: CountdownView,
    player_guess: Option<AnswerButton>,
    delta: nat,
)
    requires
        timer.wf(),
        !timer.finished,
    ensures
        !timer.paused ==> pause_step(timer, player_guess, delta).next == if player_guess.is_none()
            && delta >= timer.remaining() {
            Some(AppState::GameOver)
        } else {
            None
        },
        timer.paused ==> pause_step(timer, player_guess, delta) == (PauseStep {
            timer: CountdownView { paused: false, elapsed: 0, ..timer },
            player_guess: None,
            next: None,
        }),
{
}

/// Runs the answering phase for `delta` more nanoseconds; see [`pause_step`].
pub fn pause(delta: u64, timer: &mut PauseTimer, game_data: &mut GameData) -> (next: Option<
    AppState,
>)
    ensures
        ({
            let step = pause_step(
                old(timer).pause_timer@,
                old(game_data)@.player_guess,
                delta as nat,
            );
            &&& next == step.next
            &&& final(timer).pause_timer@ == step.timer
            &&& final(game_data)@ == (GameDataView {
                player_guess: step.player_guess,
                ..old(game_data)@
            })
        }),
{
    let mut next: Option<AppState> = None;
    timer.pause_timer.tick(delta);
    if timer.pause_timer.finished() {
        if game_data.player_guess.is_none() {
            next = Some(AppState::GameOver);
            timer.pause_timer.reset();
        }
    }
    if timer.pause_timer.paused() {
        timer.pause_timer.unpause();
        timer.pause_timer.reset();
        game_data.player_guess = None;
    }
    next
}

/// Ends the session: the level goes back to one, the time played to zero, and
/// the main menu follows. The table is left as it is until the next round
/// clears it.
pub fn game_over(game_data: &mut GameData) -> (next: AppState)
    ensures
        next == AppState::MainMenu,
        final(game_data)@ == (GameDataView { level: 1, time_elapsed: 0, ..old(game_data)@ }),
{
    game_data.level = 1;
    game_data.time_elapsed = 0;
    AppState::MainMenu
}

/// What a [`PlayerData`] stands for.
pub struct PlayerDataView {
    pub username: Seq<char>,
    pub pin: int,
    pub level_reached: int,
    /// Nanoseconds played in the last round.
    pub speed: nat,
}

/// What is written down of a player when a session ends.
#[derive(Debug, Clone, PartialEq, Eq)]
pub struct PlayerData {
    username: String,
    pin: i32,
    level_reached: i32,
    speed: u64,
}

impl View for PlayerData {
    type V = PlayerDataView;

    closed spec fn view(&self) -> PlayerDataView {
        PlayerDataView {
            username: self.username@,
            pin: self.pin as int,
            level_reached: self.level_reached as int,
            speed: self.speed as nat,
        }
    }
}

impl Default for PlayerData {
    fn default() -> (player_data: PlayerData)
        ensures
            player_data@ == (PlayerDataView {
                username: Seq::empty(),
                pin: 0,
                level_reached: 0,
                speed: 0,
            }),
    {
        PlayerData { username: String::new(), pin: 0, level_reached: 0, speed: 0 }
    }
}

impl PlayerData {
    /// The player's name.
    pub fn username(&self) -> (name: &str)
        ensures
            name@ == self@.username,
    {
        self.username.as_str()
    }

    /// The player's pin.
    pub fn pin(&self) -> (pin: i32)
        ensures
            pin == self@.pin,
    {
        self.pin
    }

    /// The level that the session had reached.
    pub fn level_reached(&self) -> (level: i32)
        ensures
            level == self@.level_reached,
    {
        self.level_reached
    }

    /// Nanoseconds played in the last round of the session.
    pub fn speed(&self) -> (nanos: u64)
        ensures
            nanos == self@.speed,
    {
        self.speed
    }
}

/// Writes down the session that is ending: the level reached and the time
/// played, under the name and pin that every player is given for now. The
/// level reached is what is reported to the leaderboard.
pub fn upload_score(game_data: &GameData, player_data: &mut PlayerData) -> (event:
    UpdateRoundEvent)
    ensures
        final(player_data)@ == (PlayerDataView {
            username: "sampleName"@,
            pin: 1234,
            level_reached: game_data@.level,
            speed: game_data@.time_elapsed,
        }),
        event.round == game_data@.level,
{
    player_data.username = "sampleName".to_owned();
    player_data.pin = 1234;
    player_data.level_reached = game_data.level;
    player_data.speed = game_data.time_elapsed;
    UpdateRoundEvent { round: game_data.level as i64 }
}

} // verus!
