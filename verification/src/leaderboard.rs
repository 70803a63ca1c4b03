//! The leaderboard client: what the game keeps of its player, when a score
//! is sent, which sign-ups are let through, and how a fetched list is shown.
//!
//! Nothing here talks to the network. Each function decides; the program
//! around the library sends what was decided and hands back what arrived.

use vstd::prelude::*;
use vstd::string::*;

use crate::settings::{unlock_by_score, Villagers};

verus! {

/// The shortest user name that is let through, in bytes.
pub const MIN_USERNAME_LEN: usize = 3;

/// The fewest digits of a pin that is let through.
pub const MIN_PIN_LEN: usize = 4;

/// The three requests that the client makes of the server.
#[derive(Debug, Clone, Copy, PartialEq, Eq, Hash, Structural)]
pub enum Endpoint {
    /// Fetch the list of players and scores.
    List,
    /// Send a player's record with a new best score.
    Update,
    /// Sign a player up, or in.
    SignUp,
}

/// How a request is made.
#[derive(Debug, Clone, Copy, PartialEq, Eq, Hash, Structural)]
pub enum Method {
    Get,
    Post,
}

impl Endpoint {
    /// The address of a request.
    pub open spec fn spec_url(self) -> Seq<char> {
        match self {
            Endpoint::List => "https://ode.halyte.net/"@,
            Endpoint::Update => "https://ode.halyte.net/update"@,
            Endpoint::SignUp => "https://ode.halyte.net/user"@,
        }
    }

    /// The list is fetched; records and sign-ups are posted.
    pub open spec fn spec_method(self) -> Method {
        match self {
            Endpoint::List => Method::Get,
            Endpoint::Update => Method::Post,
            Endpoint::SignUp => Method::Post,
        }
    }

    /// The address of a request.
    pub fn url(self) -> (url: &'static str)
        ensures
            url@ == self.spec_url(),
    {
        match self {
            Endpoint::List => "https://ode.halyte.net/",
            Endpoint::Update => "https://ode.halyte.net/update",
            Endpoint::SignUp => "https://ode.halyte.net/user",
        }
    }

    /// How a request is made.
    pub fn method(self) -> (method: Method)
        ensures
            method == self.spec_method(),
    {
        match self {
            Endpoint::List => Method::Get,
            Endpoint::Update => Method::Post,
            Endpoint::SignUp => Method::Post,
        }
    }

    /// What a request says of the body it carries: a posted body is JSON, a
    /// fetch carries none.
    pub fn content_type(self) -> (kind: Option<&'static str>)
        ensures
            self.spec_method() == Method::Get ==> kind.is_none(),
            self.spec_method() == Method::Post ==> kind.is_some() && kind.unwrap()@
                == "application/json"@,
    {
        match self {
            Endpoint::List => None,
            Endpoint::Update => Some("application/json"),
            Endpoint::SignUp => Some("application/json"),
        }
    }
}

/// A level reached in a game, reported to the leaderboard client.
#[derive(Debug, Clone, Copy, PartialEq, Eq, Hash, Structural)]
pub struct UpdateRoundEvent {
    pub round: i64,
}

/// What a [`User`] stands for.
pub struct UserView {
    pub user: Seq<char>,
    pub pin: int,
    pub score: int,
}

/// The player as the leaderboard knows them: name, pin and best score.
/// A player who has not signed up has the empty name.
#[derive(Debug, Clone, PartialEq, Eq)]
pub struct User {
    pub user: String,
    pub pin: i64,
    pub score: i64,
}

impl View for User {
    type V = UserView;

    open spec fn view(&self) -> UserView {
        UserView { user: self.user@, pin: self.pin as int, score: self.score as int }
    }
}

impl Default for User {
    /// Nobody: no name, pin and score zero.
    fn default() -> (user: User)
        ensures
            user@ == (UserView { user: Seq::empty(), pin: 0, score: 0 }),
    {
        User { user: String::new(), pin: 0, score: 0 }
    }
}

impl User {
    /// A copy of this record.
    pub fn duplicate(&self) -> (copy: User)
        ensures
            copy == *self,
    {
        User { user: self.user.clone(), pin: self.pin, score: self.score }
    }

    /// Whether somebody is signed in.
    pub fn is_logged_in(&self) -> (yes: bool)
        ensures
            yes == (self@.user.len() > 0),
    {
        !self.user.as_str().is_empty()
    }
}

/// Whether a score beats the best so far: only a strictly higher one does.
pub open spec fn improves(best: int, round: int) -> bool {
    round > best
}

/// The best score after the scores `rounds` have been reported in turn to a
/// player whose best was `best`.
pub open spec fn best_after(best: int, rounds: Seq<int>) -> int
    decreases rounds.len(),
{
    if rounds.len() == 0 {
        best
    } else {
        let so_far = best_after(best, rounds.drop_last());
        if improves(so_far, rounds.last()) {
            rounds.last()
        } else {
            so_far
        }
    }
}

/// The scores for which a record is due when the scores `rounds` are reported
/// one by one to a player whose best was `best`: each one that beats the best
/// at its time.
pub open spec fn submitted(best: int, rounds: Seq<int>) -> Seq<int>
    decreases rounds.len(),
{
    if rounds.len() == 0 {
        Seq::empty()
    } else {
        let earlier = submitted(best, rounds.drop_last());
        if improves(best_after(best, rounds.drop_last()), rounds.last()) {
            earlier.push(rounds.last())
        } else {
            earlier
        }
    }
}

/// The best score never falls: after any reports it is the largest of the old
/// best and the scores reported.
pub proof fn lemma_best_is_largest(best: int, rounds: Seq<int>)
    ensures
        best_after(best, rounds) >= best,
        forall|i: int| 0 <= i < rounds.len() ==> best_after(best, rounds) >= rounds[i],
        best_after(best, rounds) == best || rounds.contains(best_after(best, rounds)),
    decreases rounds.len(),
{
    if rounds.len() > 0 {
        let front = rounds.drop_last();
        lemma_best_is_largest(best, front);
        assert forall|i: int| 0 <= i < rounds.len() implies best_after(best, rounds)
            >= rounds[i] by {
            if i < front.len() {
                assert(front[i] == rounds[i]);
            }
        }
        if best_after(best, rounds) != best {
            if best_after(best, rounds) == rounds.last() {
                assert(rounds[rounds.len() - 1] == best_after(best, rounds));
            } else {
                let k = choose|k: int| 0 <= k < front.len() && front[k] == best_after(best, front);
                assert(rounds[k] == best_after(best, rounds));
            }
        }
    }
}

/// The scores that a run of events reports.
pub open spec fn rounds_of(events: Seq<UpdateRoundEvent>) -> Seq<int> {
    events.map_values(|event: UpdateRoundEvent| event.round as int)
}

/// What a [`Request`] stands for.
pub enum RequestView {
    List,
    Update(UserView),
    SignUp(UserLoginView),
}

/// A request for the program to send, with what it carries.
#[derive(Debug, Clone, PartialEq, Eq)]
pub enum Request {
    /// Fetch the list of players and scores.
    List,
    /// Send this record, which holds a new best score.
    Update(User),
    /// Sign up with this name and pin.
    SignUp(UserLogin),
}

impl View for Request {
    type V = RequestView;

    open spec fn view(&self) -> RequestView {
        match self {
            Request::List => RequestView::List,
            Request::Update(user) => RequestView::Update(user@),
            Request::SignUp(login) => RequestView::SignUp(login@),
        }
    }
}

impl Request {
    /// Where a request goes.
    pub open spec fn spec_endpoint(self) -> Endpoint {
        match self {
            Request::List => Endpoint::List,
            Request::Update(_) => Endpoint::Update,
            Request::SignUp(_) => Endpoint::SignUp,
        }
    }

    /// Where a request goes.
    pub fn endpoint(&self) -> (endpoint: Endpoint)
        ensures
            endpoint == self.spec_endpoint(),
    {
        match self {
            Request::List => Endpoint::List,
            Request::Update(_) => Endpoint::Update,
            Request::SignUp(_) => Endpoint::SignUp,
        }
    }
}

/// Reports a score. If it beats the player's best, it becomes the best and
/// the player's record is to be sent to the leaderboard; otherwise nothing
/// changes and nothing is to be sent.
pub fn submit_if_improved(user: &mut User, round: i64) -> (request: Option<Request>)
    ensures
        request.is_some() <==> improves(old(user)@.score, round as int),
        improves(old(user)@.score, round as int) ==> final(user)@ == (UserView {
            score: round as int,
            ..old(user)@
        }) && request == Some(Request::Update(*final(user))),
        !improves(old(user)@.score, round as int) ==> *final(user) == *old(user),
{
    if round > user.score {
        user.score = round;
        Some(Request::Update(user.duplicate()))
    } else {
        None
    }
}

/// One step of the client that sends scores: the scores of `events` are
/// reported in turn, and if the best has risen the player's record, with the
/// new best, is to be sent.
///
/// Only one such request is under way at a time: while the one before is
/// still `in_flight` the best is kept but nothing is sent.
pub fn update_round(user: &mut User, events: &Vec<UpdateRoundEvent>, in_flight: bool) -> (request:
    Option<Request>)
    ensures
        final(user)@ == (UserView {
            score: best_after(old(user)@.score, rounds_of(events@)),
            ..old(user)@
        }),
        request.is_some() <==> !in_flight && final(user)@.score > old(user)@.score,
        request.is_some() ==> request == Some(Request::Update(*final(user))),
{
    let ghost before = user@;
    let mut risen = false;
    let mut i: usize = 0;
    while i < events.len()
        invariant
            i <= events.len(),
            user@ == (UserView {
                score: best_after(before.score, rounds_of(events@).take(i as int)),
                ..before
            }),
            risen == (user@.score > before.score),
            user@.score >= before.score,
        decreases events.len() - i,
    {
        proof {
            let upto = rounds_of(events@).take(i + 1);
            assert(upto.drop_last() =~= rounds_of(events@).take(i as int));
            assert(upto.last() == events[i as int].round as int);
        }
        if submit_if_improved(user, events[i].round).is_some() {
            risen = true;
        }
        i = i + 1;
    }
    assert(rounds_of(events@).take(i as int) =~= rounds_of(events@));
    if risen && !in_flight {
        Some(Request::Update(user.duplicate()))
    } else {
        None
    }
}

/// A score is sent exactly when it beats the best, and a score that does not
/// rise is sent at most once.
///
/// Report any scores in turn, none higher than the one before. Then nothing
/// is sent after the first report: what is sent is the first score if it
/// beats the player's best, and nothing otherwise.
pub proof fn lemma_no_resubmission(best: int, rounds: Seq<int>)
    requires
        forall|i: int, j: int| 0 <= i <= j < rounds.len() ==> rounds[j] <= rounds[i],
    ensures
        submitted(best, rounds) == if rounds.len() > 0 && rounds[0] > best {
            seq![rounds[0]]
        } else {
            Seq::<int>::empty()
        },
        best_after(best, rounds) == if rounds.len() > 0 && rounds[0] > best {
            rounds[0]
        } else {
            best
        },
    decreases rounds.len(),
{
    if rounds.len() == 0 {
    } else if rounds.len() == 1 {
        assert(rounds.drop_last().len() == 0);
        assert(submitted(best, rounds.drop_last()) =~= Seq::<int>::empty());
        assert(best_after(best, rounds.drop_last()) == best);
        assert(rounds.last() == rounds[0]);
        assert(Seq::<int>::empty().push(rounds[0]) =~= seq![rounds[0]]);
    } else {
        let front = rounds.drop_last();
        assert(front[0] == rounds[0]);
        lemma_no_resubmission(best, front);
        assert(rounds.last() <= rounds[0]);
    }
}

/// What a [`UserLogin`] stands for.
pub struct UserLoginView {
    pub user: Seq<char>,
    pub pin: int,
}

/// A request to sign up: the name and the pin that the player typed.
#[derive(Debug, Clone, PartialEq, Eq)]
pub struct UserLogin {
    pub user: String,
    pub pin: i64,
}

impl View for UserLogin {
    type V = UserLoginView;

    open spec fn view(&self) -> UserLoginView {
        UserLoginView { user: self.user@, pin: self.pin as int }
    }
}

/// One of the ten digits `0` to `9`.
pub open spec fn is_digit(c: char) -> bool {
    '0' <= c <= '9'
}

/// Every character is a digit.
pub open spec fn all_digits(text: Seq<char>) -> bool {
    forall|i: int| 0 <= i < text.len() ==> is_digit(#[trigger] text[i])
}

/// The number that a run of digits writes in base ten; zero for the empty run.
pub open spec fn digits_value(digits: Seq<char>) -> nat
    decreases digits.len(),
{
    if digits.len() == 0 {
        0
    } else {
        digits_value(digits.drop_last()) * 10 + (digits.last() as nat - '0' as nat) as nat
    }
}

/// A user name is let through if it is at least [`MIN_USERNAME_LEN`] bytes
/// long in UTF-8.
pub open spec fn valid_username(name: Seq<char>) -> bool {
    vstd::utf8::encode_utf8(name).len() >= MIN_USERNAME_LEN
}

/// A pin is let through if it is made of digits only, at least
/// [`MIN_PIN_LEN`] of them, and the number they write fits a pin.
pub open spec fn valid_pin(pin: Seq<char>) -> bool {
    &&& pin.len() >= MIN_PIN_LEN
    &&& all_digits(pin)
    &&& digits_value(pin) <= i64::MAX
}

/// A run of digits writes a number at least as large as any of its
/// beginnings does.
pub proof fn lemma_digits_value_grows(digits: Seq<char>, n: int)
    requires
        0 <= n <= digits.len(),
    ensures
        digits_value(digits.take(n)) <= digits_value(digits),
    decreases digits.len() - n,
{
    if n == digits.len() {
        assert(digits.take(n) =~= digits);
    } else {
        lemma_digits_value_grows(digits.drop_last(), n);
        assert(digits.drop_last().take(n) =~= digits.take(n));
    }
}

/// Reads a run of digits as a number. The result is the number written, if
/// every character is a digit and the number fits; otherwise there is none.
/// The empty text reads as zero.
pub fn parse_digits(text: &str) -> (number: Option<i64>)
    ensures
        number.is_some() <==> all_digits(text@) && digits_value(text@) <= i64::MAX,
        number.is_some() ==> number.unwrap() == digits_value(text@),
{
    if !text.is_ascii() {
        proof {
            if all_digits(text@) {
                assert forall|i: int| 0 <= i < text@.len() implies '\0' <= #[trigger] text@[i]
                    <= '\u{7f}' by {
                    assert(is_digit(text@[i]));
                }
            }
        }
        return None;
    }
    proof {
        is_ascii_spec_bytes(text);
    }
    let bytes = text.as_bytes();
    let mut number: i64 = 0;
    let mut i: usize = 0;
    while i < bytes.len()
        invariant
            i <= bytes.len() == text@.len(),
            is_ascii(text),
            bytes@ == text.spec_bytes(),
            forall|j: int| 0 <= j < text@.len() ==> #[trigger] bytes@[j] == text@[j] as u8,
            all_digits(text@.take(i as int)),
            number == digits_value(text@.take(i as int)),
        decreases bytes.len() - i,
    {
        let byte: u8 = bytes[i];
        let ghost c = text@[i as int];
        proof {
            assert('\0' <= c <= '\u{7f}');
            assert(byte == c as u8);
            assert(text@.take(i + 1).drop_last() =~= text@.take(i as int));
            assert(text@.take(i + 1).last() == c);
        }
        if byte < 48 || byte > 57 {
            assert(!is_digit(c));
            return None;
        }
        assert(is_digit(c));
        let digit: i64 = (byte - 48) as i64;
        if number > (i64::MAX - digit) / 10 {
            proof {
                lemma_digits_value_grows(text@, i + 1);
            }
            return None;
        }
        number = number * 10 + digit;
        assert(all_digits(text@.take(i + 1))) by {
            assert forall|j: int| 0 <= j < i + 1 implies is_digit(
                #[trigger] text@.take(i + 1)[j],
            ) by {
                if j < i {
                    assert(text@.take(i as int)[j] == text@[j]);
                }
            }
        }
        i = i + 1;
    }
    assert(text@.take(i as int) =~= text@);
    Some(number)
}

/// Checks what a player typed to sign up. If the name and the pin are both
/// let through, the request to send is returned; otherwise nothing is to be
/// sent.
pub fn register_user(username: &str, password: &str) -> (request: Option<Request>)
    ensures
        request.is_some() <==> valid_username(username@) && valid_pin(password@),
        request.is_some() ==> request.unwrap()@ == RequestView::SignUp(
            UserLoginView { user: username@, pin: digits_value(password@) as int },
        ),
{
    if username.as_bytes().len() < MIN_USERNAME_LEN {
        return None;
    }
    match parse_digits(password) {
        Some(pin) => {
            proof {
                assert forall|i: int| 0 <= i < password@.len() implies '\0'
                    <= #[trigger] password@[i] <= '\u{7f}' by {
                    assert(is_digit(password@[i]));
                }
                is_ascii_spec_bytes(password);
            }
            if password.as_bytes().len() < MIN_PIN_LEN {
                return None;
            }
            Some(Request::SignUp(UserLogin { user: username.to_owned(), pin }))
        },
        None => None,
    }
}

/// Takes over the record that the leaderboard sent back after a sign-up: it
/// replaces the player's record, and every villager that its score earns
/// joins the village.
pub fn accept_user(login_data: &mut User, villagers: &mut Villagers, user: User)
    ensures
        *final(login_data) == user,
        final(villagers)@ == unlock_by_score(old(villagers)@, user@.score),
{
    villagers.unlock_by_score(user.score);
    *login_data = user;
}

/// What a [`UserScore`] stands for.
pub struct Entry {
    pub user: Seq<char>,
    pub score: int,
}

/// One line of the leaderboard: a player and their best score.
#[derive(Debug, Clone, PartialEq, Eq)]
pub struct UserScore {
    pub user: String,
    pub score: i64,
}

impl View for UserScore {
    type V = Entry;

    open spec fn view(&self) -> Entry {
        Entry { user: self.user@, score: self.score as int }
    }
}

/// What a list of lines stands for.
pub open spec fn entries_of(list: Seq<UserScore>) -> Seq<Entry> {
    list.map_values(|line: UserScore| line@)
}

/// The lines of a list that carry one score, in the order of the list.
pub open spec fn with_score(list: Seq<Entry>, score: int) -> Seq<Entry> {
    list.filter(|entry: Entry| entry.score == score)
}

/// No line stands above a line with a higher score.
pub open spec fn by_falling_score(list: Seq<Entry>) -> bool {
    forall|i: int, j: int| 0 <= i < j < list.len() ==> list[i].score >= list[j].score
}

/// `ranked` is `fetched` put in order: the same lines, highest score first,
/// and lines with the same score in the order in which they were fetched.
pub open spec fn is_ranking_of(ranked: Seq<Entry>, fetched: Seq<Entry>) -> bool {
    &&& ranked.len() == fetched.len()
    &&& by_falling_score(ranked)
    &&& forall|score: int| #[trigger] with_score(ranked, score) == with_score(fetched, score)
}

/// A list none of whose lines carries `score` has no lines with that score.
proof fn lemma_with_score_absent(list: Seq<Entry>, score: int)
    requires
        forall|k: int| 0 <= k < list.len() ==> list[k].score != score,
    ensures
        with_score(list, score) == Seq::<Entry>::empty(),
{
    let pred = |entry: Entry| entry.score == score;
    let found = list.filter(pred);
    if found.len() > 0 {
        list.lemma_filter_pred(pred, 0);
        assert(found.contains(found[0]));
        list.lemma_filter_contains_rev(pred, found[0]);
        let k = choose|k: int| 0 <= k < list.len() && list[k] == found[0];
        assert(list[k].score == score);
    }
    assert(found =~= Seq::<Entry>::empty());
}

/// Putting a line into a list, above lower scores only, adds it to the end of
/// the lines with its score and leaves the lines of every other score alone.
proof fn lemma_insert_with_score(list: Seq<Entry>, pos: int, entry: Entry, score: int)
    requires
        0 <= pos <= list.len(),
        forall|k: int| pos <= k < list.len() ==> list[k].score < entry.score,
    ensures
        with_score(list.insert(pos, entry), score) == with_score(list.push(entry), score),
{
    let pred = |line: Entry| line.score == score;
    let front = list.subrange(0, pos);
    let back = list.subrange(pos, list.len() as int);
    assert(list =~= front + back);
    Seq::filter_distributes_over_add(front, back, pred);
    Seq::filter_distributes_over_add(front.push(entry), back, pred);
    front.lemma_filter_push(entry, pred);
    list.lemma_filter_push(entry, pred);
    if entry.score == score {
        lemma_with_score_absent(back, score);
        assert(front.filter(pred).push(entry) + back.filter(pred) =~= (front.filter(pred)
            + back.filter(pred)).push(entry));
    }
}

/// A list that holds a line with some score has a line with that score at a
/// place of its own.
proof fn lemma_with_score_present(list: Seq<Entry>, score: int) -> (k: int)
    requires
        with_score(list, score).len() > 0,
    ensures
        0 <= k < list.len(),
        list[k] == with_score(list, score)[0],
        list[k].score == score,
{
    let pred = |entry: Entry| entry.score == score;
    let found = list.filter(pred);
    list.lemma_filter_pred(pred, 0);
    assert(found.contains(found[0]));
    list.lemma_filter_contains_rev(pred, found[0]);
    choose|k: int| 0 <= k < list.len() && list[k] == found[0]
}

/// Two lists in falling order that agree, score by score, on their lines and
/// the order of those lines are the same list.
proof fn lemma_same_order(a: Seq<Entry>, b: Seq<Entry>)
    requires
        a.len() == b.len(),
        by_falling_score(a),
        by_falling_score(b),
        forall|score: int| #[trigger] with_score(a, score) == with_score(b, score),
    ensures
        a == b,
    decreases a.len(),
{
    if a.len() == 0 {
        assert(a =~= b);
    } else {
        let top = a[0].score;
        let a_rest = a.drop_first();
        let b_rest = b.drop_first();
        assert(a =~= seq![a[0]] + a_rest);
        assert(b =~= seq![b[0]] + b_rest);
        assert(b[0].score == top) by {
            a.lemma_filter_contains(|entry: Entry| entry.score == top, 0);
            assert(with_score(a, top).len() > 0);
            assert(with_score(b, top) == with_score(a, top));
            let k = lemma_with_score_present(b, top);
            assert(k > 0 ==> b[0].score >= b[k].score);
            let other = b[0].score;
            b.lemma_filter_contains(|entry: Entry| entry.score == other, 0);
            assert(with_score(b, other).len() > 0);
            assert(with_score(a, other) == with_score(b, other));
            let j = lemma_with_score_present(a, other);
            assert(j > 0 ==> a[0].score >= a[j].score);
        }
        assert forall|score: int| #[trigger]
            with_score(a_rest, score) == with_score(b_rest, score) && (score == top ==> a[0]
                == b[0]) by {
            let pred = |entry: Entry| entry.score == score;
            a_rest.lemma_filter_prepend(a[0], pred);
            b_rest.lemma_filter_prepend(b[0], pred);
            assert(with_score(a, score) == with_score(b, score));
            let a_found = a_rest.filter(pred);
            let b_found = b_rest.filter(pred);
            if score == top {
                assert((seq![a[0]] + a_found)[0] == (seq![b[0]] + b_found)[0]);
                assert(a_found.len() == b_found.len());
                assert forall|i: int| 0 <= i < a_found.len() implies a_found[i] == b_found[i] by {
                    assert((seq![a[0]] + a_found)[i + 1] == (seq![b[0]] + b_found)[i + 1]);
                }
            } else {
                assert(Seq::<Entry>::empty() + a_found =~= a_found);
                assert(Seq::<Entry>::empty() + b_found =~= b_found);
            }
            assert(a_found =~= b_found);
        }
        assert(with_score(a_rest, top) == with_score(b_rest, top));
        assert(a[0] == b[0]);
        assert(by_falling_score(a_rest)) by {
            assert forall|i: int, j: int| 0 <= i < j < a_rest.len() implies a_rest[i].score
                >= a_rest[j].score by {
                assert(a_rest[i] == a[i + 1] && a_rest[j] == a[j + 1]);
            }
        }
        assert(by_falling_score(b_rest)) by {
            assert forall|i: int, j: int| 0 <= i < j < b_rest.len() implies b_rest[i].score
                >= b_rest[j].score by {
                assert(b_rest[i] == b[i + 1] && b_rest[j] == b[j + 1]);
            }
        }
        lemma_same_order(a_rest, b_rest);
    }
}

/// A fetched list has one ranking only: the order of the lines on screen is
/// decided by the list alone.
pub proof fn lemma_ranking_unique(first: Seq<Entry>, second: Seq<Entry>, fetched: Seq<Entry>)
    requires
        is_ranking_of(first, fetched),
        is_ranking_of(second, fetched),
    ensures
        first == second,
{
    assert forall|score: int| #[trigger]
        with_score(first, score) == with_score(second, score) by {
        assert(with_score(first, score) == with_score(fetched, score));
        assert(with_score(second, score) == with_score(fetched, score));
    }
    lemma_same_order(first, second);
}

/// Puts a fetched list in order for display: highest score first, and lines
/// with the same score in the order in which they were fetched. A list that
/// is in order already is returned as it is.
pub fn rank_by_score(entries: &Vec<UserScore>) -> (ranked: Vec<UserScore>)
    ensures
        is_ranking_of(entries_of(ranked@), entries_of(entries@)),
        by_falling_score(entries_of(entries@)) ==> entries_of(ranked@) == entries_of(entries@),
{
    let ghost fetched = entries_of(entries@);
    let mut ranked: Vec<UserScore> = Vec::new();
    let mut i: usize = 0;
    assert(entries_of(ranked@) =~= fetched.take(0));
    while i < entries.len()
        invariant
            i <= entries.len(),
            fetched == entries_of(entries@),
            ranked.len() == i,
            by_falling_score(entries_of(ranked@)),
            forall|score: int| #[trigger]
                with_score(entries_of(ranked@), score) == with_score(fetched.take(i as int), score),
            by_falling_score(fetched) ==> entries_of(ranked@) =~= fetched.take(i as int),
        decreases entries.len() - i,
    {
        let score: i64 = entries[i].score;
        let mut pos: usize = ranked.len();
        while pos > 0 && ranked[pos - 1].score < score
            invariant
                pos <= ranked.len(),
                forall|k: int| pos <= k < ranked.len() ==> ranked[k].score < score,
            decreases pos,
        {
            pos = pos - 1;
        }
        let line = UserScore { user: entries[i].user.clone(), score };
        let ghost before = entries_of(ranked@);
        let ghost entry = line@;
        ranked.insert(pos, line);
        proof {
            let after = entries_of(ranked@);
            before.insert_ensures(pos as int, entry);
            assert(after =~= before.insert(pos as int, entry));
            assert(fetched.take(i + 1) =~= fetched.take(i as int).push(entry));
            assert forall|score: int| #[trigger]
                with_score(after, score) == with_score(fetched.take(i + 1), score) by {
                lemma_insert_with_score(before, pos as int, entry, score);
                let pred = |line: Entry| line.score == score;
                before.lemma_filter_push(entry, pred);
                fetched.take(i as int).lemma_filter_push(entry, pred);
                assert(with_score(before, score) == with_score(fetched.take(i as int), score));
            }
            assert(by_falling_score(after)) by {
                assert forall|a: int, b: int| 0 <= a < b < after.len() implies after[a].score
                    >= after[b].score by {
                    if b < pos {
                        assert(after[a] == before[a] && after[b] == before[b]);
                    } else if b == pos {
                        assert(after[a] == before[a]);
                        if a < pos - 1 {
                            assert(before[a].score >= before[pos - 1].score);
                        }
                    } else if a < pos {
                        assert(after[a] == before[a] && after[b] == before[b - 1]);
                    } else if a == pos {
                        assert(after[b] == before[b - 1]);
                    } else {
                        assert(after[a] == before[a - 1] && after[b] == before[b - 1]);
                    }
                }
            }
            if by_falling_score(fetched) {
                if pos < i {
                    assert(before[pos as int] == fetched[pos as int]);
                    assert(fetched[pos as int].score >= fetched[i as int].score);
                }
                assert(after =~= fetched.take(i + 1));
            }
        }
        i = i + 1;
    }
    assert(fetched.take(i as int) =~= fetched);
    ranked
}

/// What is known of a task that runs beside the game, when asked: it was not
/// started, it is still running, or it has just finished with a result.
#[derive(Debug, Clone, PartialEq, Eq)]
pub enum AsyncTaskStatus<T> {
    Idle,
    Pending,
    Finished(T),
}

/// What the leaderboard screen holds during one visit.
#[derive(Debug, Clone, PartialEq, Eq)]
pub enum Leaderboard {
    /// No list has been fetched yet.
    Missing,
    /// The list could not be fetched or read; the visit goes on without it.
    Failed,
    /// The list on screen, in order.
    Shown(Vec<UserScore>),
}

/// What the leaderboard screen asks of the program after a step.
#[derive(Debug, Clone, Copy, PartialEq, Eq, Hash, Structural)]
pub enum FetchAction {
    /// Do nothing.
    Wait,
    /// Start fetching the list.
    Start,
    /// Draw the list that the screen now holds.
    Show,
}

impl FetchAction {
    /// The request that an action asks for: starting to fetch asks for the
    /// list, the other actions ask for nothing.
    pub fn request(self) -> (request: Option<Request>)
        ensures
            request == if self == FetchAction::Start {
                Some(Request::List)
            } else {
                None
            },
    {
        match self {
            FetchAction::Start => Some(Request::List),
            FetchAction::Wait => None,
            FetchAction::Show => None,
        }
    }
}

impl Default for Leaderboard {
    /// The screen at the start of a visit.
    fn default() -> (board: Leaderboard)
        ensures
            board == Leaderboard::Missing,
    {
        Leaderboard::Missing
    }
}

impl Leaderboard {
    /// Whether a list is still wanted: only then is the fetching task asked
    /// how far it is.
    pub fn wants_list(&self) -> (wanted: bool)
        ensures
            wanted == (*self == Leaderboard::Missing),
    {
        match self {
            Leaderboard::Missing => true,
            _ => false,
        }
    }

    /// Forgets the list when the player leaves the screen.
    pub fn cleanup(&mut self)
        ensures
            *final(self) == Leaderboard::Missing,
    {
        *self = Leaderboard::Missing;
    }
}

/// One step of the leaderboard screen, given what the fetching task says.
/// A finished task brings the list it fetched, or nothing if the fetch or
/// the reading of the answer failed.
///
/// A screen that wants no list does nothing. Otherwise: a task that was not
/// started is to be started; a running task is waited for; a list that
/// arrived is put in order, kept and shown; after a failure the screen gives
/// up for this visit, and no second fetch is started.
pub fn spawn_leaderboard(
    board: &mut Leaderboard,
    status: AsyncTaskStatus<Option<Vec<UserScore>>>,
) -> (action: FetchAction)
    ensures
        *old(board) != Leaderboard::Missing ==> action == FetchAction::Wait && *final(board)
            == *old(board),
        *old(board) == Leaderboard::Missing ==> match status {
            AsyncTaskStatus::Idle => action == FetchAction::Start && *final(board)
                == Leaderboard::Missing,
            AsyncTaskStatus::Pending => action == FetchAction::Wait && *final(board)
                == Leaderboard::Missing,
            AsyncTaskStatus::Finished(None) => action == FetchAction::Wait && *final(board)
                == Leaderboard::Failed,
            AsyncTaskStatus::Finished(Some(fetched)) => {
                &&& action == FetchAction::Show
                &&& *final(board) matches Leaderboard::Shown(ranked)
                &&& is_ranking_of(entries_of(ranked@), entries_of(fetched@))
            },
        },
{
    if !board.wants_list() {
        return FetchAction::Wait;
    }
    match status {
        AsyncTaskStatus::Idle => FetchAction::Start,
        AsyncTaskStatus::Pending => FetchAction::Wait,
        AsyncTaskStatus::Finished(None) => {
            *board = Leaderboard::Failed;
            FetchAction::Wait
        },
        AsyncTaskStatus::Finished(Some(fetched)) => {
            let ranked = rank_by_score(&fetched);
            *board = Leaderboard::Shown(ranked);
            FetchAction::Show
        },
    }
}

} // verus!
