use odemay::leaderboard::{
    parse_digits, rank_by_score, register_user, spawn_leaderboard, submit_if_improved,
    update_round, AsyncTaskStatus, Endpoint, FetchAction, Leaderboard, Method, Request,
    UpdateRoundEvent, User, UserLogin, UserScore,
};
use odemay::game_mod::{game_over, play_round, upload_score, GameData, PlayerData};
use odemay::login::{Field, FocusEvent, LoginForm, Password};
use odemay::settings::GameSettings;
use odemay::AppState;

fn player(score: i64) -> User {
    User { user: "abcd".to_string(), pin: 1234, score }
}

fn update(score: i64) -> Request {
    Request::Update(player(score))
}

fn sign_up(user: &str, pin: i64) -> Option<Request> {
    Some(Request::SignUp(UserLogin { user: user.to_string(), pin }))
}

fn line(user: &str, score: i64) -> UserScore {
    UserScore { user: user.to_string(), score }
}

fn type_text(form: &mut LoginForm, text: &str) {
    for c in text.chars() {
        form.type_character(c);
    }
}

#[test]
fn the_list_is_fetched_from_the_root() {
    assert_eq!(Endpoint::List.url(), "https://ode.halyte.net/");
    assert_eq!(Endpoint::List.method(), Method::Get);
    assert_eq!(Endpoint::List.content_type(), None);
}

#[test]
fn records_and_sign_ups_are_posted_as_json() {
    assert_eq!(Endpoint::Update.url(), "https://ode.halyte.net/update");
    assert_eq!(Endpoint::Update.method(), Method::Post);
    assert_eq!(Endpoint::Update.content_type(), Some("application/json"));
    assert_eq!(Endpoint::SignUp.url(), "https://ode.halyte.net/user");
    assert_eq!(Endpoint::SignUp.method(), Method::Post);
    assert_eq!(Endpoint::SignUp.content_type(), Some("application/json"));
}

#[test]
fn every_request_goes_to_its_own_address() {
    assert_eq!(Request::List.endpoint(), Endpoint::List);
    assert_eq!(update(3).endpoint(), Endpoint::Update);
    assert_eq!(sign_up("abcd", 1234).unwrap().endpoint(), Endpoint::SignUp);
    assert_eq!(FetchAction::Start.request(), Some(Request::List));
    assert_eq!(FetchAction::Wait.request(), None);
    assert_eq!(FetchAction::Show.request(), None);
}

#[test]
fn nobody_is_signed_in_at_first() {
    let user = User::default();
    assert_eq!(user.user, "");
    assert_eq!(user.pin, 0);
    assert_eq!(user.score, 0);
    assert!(!user.is_logged_in());
    assert!(player(0).is_logged_in());
}

#[test]
fn a_copy_of_a_record_is_the_same_record() {
    let user = player(7);
    assert_eq!(user.duplicate(), user);
}

#[test]
fn a_better_score_is_sent() {
    let mut user = player(3);
    let request = submit_if_improved(&mut user, 4);
    assert_eq!(request, Some(update(4)));
    assert_eq!(user, player(4));
}

#[test]
fn an_equal_or_lower_score_is_not_sent() {
    let mut user = player(3);
    assert_eq!(submit_if_improved(&mut user, 3), None);
    assert_eq!(user, player(3));
    assert_eq!(submit_if_improved(&mut user, 2), None);
    assert_eq!(user, player(3));
    assert_eq!(submit_if_improved(&mut user, i64::MIN), None);
    assert_eq!(user, player(3));
}

#[test]
fn a_score_that_does_not_rise_is_sent_once() {
    let mut user = player(0);
    let mut calls: usize = 0;
    for score in [9, 9, 8, 8, 3, 0, -1] {
        if submit_if_improved(&mut user, score).is_some() {
            calls += 1;
        }
    }
    assert_eq!(calls, 1);
    assert_eq!(user, player(9));
}

fn events(rounds: &[i64]) -> Vec<UpdateRoundEvent> {
    rounds.iter().map(|round| UpdateRoundEvent { round: *round }).collect()
}

#[test]
fn the_best_of_a_run_of_events_is_sent() {
    let mut user = player(2);
    let request = update_round(&mut user, &events(&[1, 3, 3, 2, 8, 5, 7]), false);
    assert_eq!(request, Some(update(8)));
    assert_eq!(user, player(8));
}

#[test]
fn events_that_do_not_beat_the_best_send_nothing() {
    let mut user = player(2);
    assert_eq!(update_round(&mut user, &events(&[]), false), None);
    assert_eq!(user, player(2));
    assert_eq!(update_round(&mut user, &events(&[2, 1, -5, 2]), false), None);
    assert_eq!(user, player(2));
}

#[test]
fn nothing_is_sent_while_a_record_is_under_way() {
    let mut user = player(2);
    assert_eq!(update_round(&mut user, &events(&[5]), true), None);
    assert_eq!(user, player(5));
    assert_eq!(update_round(&mut user, &events(&[5]), false), None);
    assert_eq!(update_round(&mut user, &events(&[6]), false), Some(update(6)));
    assert_eq!(user, player(6));
}

#[test]
fn a_session_that_ends_reports_the_level_it_reached() {
    let settings = GameSettings::default();
    let mut game_data = GameData::default();
    let mut player_data = PlayerData::default();
    let mut user = player(2);
    for _ in 0..4 {
        play_round(&mut game_data, &settings, &vec![2, 2, 1], 2);
    }
    let event = upload_score(&game_data, &mut player_data);
    assert_eq!(game_over(&mut game_data), AppState::MainMenu);
    assert_eq!(event, UpdateRoundEvent { round: 5 });
    assert_eq!(update_round(&mut user, &vec![event], false), Some(update(5)));
    assert_eq!(user, player(5));

    play_round(&mut game_data, &settings, &vec![2, 2, 1], 2);
    let event = upload_score(&game_data, &mut player_data);
    game_over(&mut game_data);
    assert_eq!(event, UpdateRoundEvent { round: 2 });
    assert_eq!(update_round(&mut user, &vec![event], false), None);
    assert_eq!(user, player(5));
}

#[test]
fn digits_are_read_as_a_number() {
    assert_eq!(parse_digits("1234"), Some(1234));
    assert_eq!(parse_digits("0001"), Some(1));
    assert_eq!(parse_digits("0"), Some(0));
    assert_eq!(parse_digits(""), Some(0));
    assert_eq!(parse_digits("9223372036854775807"), Some(i64::MAX));
    assert_eq!(parse_digits("0000000000000000000009223372036854775807"), Some(i64::MAX));
}

#[test]
fn anything_but_digits_is_not_a_number() {
    assert_eq!(parse_digits("12a4"), None);
    assert_eq!(parse_digits("+1234"), None);
    assert_eq!(parse_digits("-1234"), None);
    assert_eq!(parse_digits(" 1234"), None);
    assert_eq!(parse_digits("12.4"), None);
    assert_eq!(parse_digits("１２３４"), None);
    assert_eq!(parse_digits("12/4"), None);
    assert_eq!(parse_digits("12:4"), None);
}

#[test]
fn a_number_too_large_for_a_pin_is_refused() {
    assert_eq!(parse_digits("9223372036854775808"), None);
    assert_eq!(parse_digits("9223372036854775810"), None);
    assert_eq!(parse_digits("92233720368547758070"), None);
    assert_eq!(parse_digits("99999999999999999999999999"), None);
}

#[test]
fn a_name_of_two_letters_is_refused() {
    assert_eq!(register_user("ab", "1234"), None);
    assert_eq!(register_user("ab", "123456"), None);
    assert_eq!(register_user("ab", "12"), None);
    assert_eq!(register_user("", "1234"), None);
}

#[test]
fn a_pin_of_three_digits_is_refused() {
    assert_eq!(register_user("abc", "123"), None);
    assert_eq!(register_user("abcd", "123"), None);
    assert_eq!(register_user("abcd", ""), None);
}

#[test]
fn a_name_of_four_letters_with_a_pin_of_four_digits_is_accepted() {
    let request = register_user("abcd", "1234");
    assert_eq!(request, sign_up("abcd", 1234));
    let endpoint = request.unwrap().endpoint();
    assert_eq!(endpoint.method(), Method::Post);
    assert_eq!(endpoint.url(), "https://ode.halyte.net/user");
}

#[test]
fn the_shortest_name_and_pin_are_accepted() {
    assert_eq!(
        register_user("abc", "0000"),
        sign_up("abc", 0)
    );
}

#[test]
fn a_name_is_measured_in_bytes() {
    assert_eq!(register_user("é", "1234"), None);
    assert_eq!(register_user("éa", "1234"), sign_up("éa", 1234));
}

#[test]
fn a_pin_that_is_not_a_number_is_refused() {
    assert_eq!(register_user("abcd", "12a4"), None);
    assert_eq!(register_user("abcd", "+1234"), None);
    assert_eq!(register_user("abcd", "99999999999999999999"), None);
}

#[test]
fn an_empty_list_stays_empty() {
    assert_eq!(rank_by_score(&Vec::new()), Vec::<UserScore>::new());
}

#[test]
fn a_list_is_shown_highest_score_first() {
    let fetched = vec![line("ann", 3), line("bob", 9), line("cyd", 1), line("dee", 5)];
    let ranked = rank_by_score(&fetched);
    assert_eq!(ranked, vec![line("bob", 9), line("dee", 5), line("ann", 3), line("cyd", 1)]);
}

#[test]
fn equal_scores_keep_the_order_fetched() {
    let fetched = vec![
        line("ann", 3),
        line("bob", 9),
        line("cyd", 3),
        line("dee", 9),
        line("eve", 3),
        line("fay", 10),
    ];
    let ranked = rank_by_score(&fetched);
    assert_eq!(
        ranked,
        vec![
            line("fay", 10),
            line("bob", 9),
            line("dee", 9),
            line("ann", 3),
            line("cyd", 3),
            line("eve", 3),
        ]
    );
}

#[test]
fn a_list_in_order_is_shown_as_fetched() {
    let fetched = vec![line("bob", 9), line("dee", 9), line("ann", 3), line("cyd", -2)];
    assert_eq!(rank_by_score(&fetched), fetched);
}

#[test]
fn the_list_is_fetched_on_the_first_step_of_a_visit() {
    let mut board = Leaderboard::default();
    assert!(board.wants_list());
    assert_eq!(spawn_leaderboard(&mut board, AsyncTaskStatus::Idle), FetchAction::Start);
    assert_eq!(board, Leaderboard::Missing);
    assert_eq!(spawn_leaderboard(&mut board, AsyncTaskStatus::Pending), FetchAction::Wait);
    assert_eq!(board, Leaderboard::Missing);
}

#[test]
fn a_list_that_arrives_is_shown_in_order_and_kept() {
    let mut board = Leaderboard::default();
    let fetched = vec![line("ann", 3), line("bob", 9)];
    let action = spawn_leaderboard(&mut board, AsyncTaskStatus::Finished(Some(fetched)));
    assert_eq!(action, FetchAction::Show);
    assert_eq!(board, Leaderboard::Shown(vec![line("bob", 9), line("ann", 3)]));
    assert!(!board.wants_list());
}

#[test]
fn a_screen_with_a_list_fetches_no_more() {
    let mut board = Leaderboard::Shown(vec![line("bob", 9)]);
    assert_eq!(spawn_leaderboard(&mut board, AsyncTaskStatus::Idle), FetchAction::Wait);
    assert_eq!(spawn_leaderboard(&mut board, AsyncTaskStatus::Pending), FetchAction::Wait);
    let late = AsyncTaskStatus::Finished(Some(vec![line("ann", 3)]));
    assert_eq!(spawn_leaderboard(&mut board, late), FetchAction::Wait);
    assert_eq!(board, Leaderboard::Shown(vec![line("bob", 9)]));
}

#[test]
fn a_failed_fetch_is_not_tried_again() {
    let mut board = Leaderboard::default();
    assert_eq!(spawn_leaderboard(&mut board, AsyncTaskStatus::Finished(None)), FetchAction::Wait);
    assert_eq!(board, Leaderboard::Failed);
    assert!(!board.wants_list());
    assert_eq!(spawn_leaderboard(&mut board, AsyncTaskStatus::Idle), FetchAction::Wait);
    assert_eq!(board, Leaderboard::Failed);
}

#[test]
fn leaving_the_screen_forgets_the_list() {
    let mut board = Leaderboard::Shown(vec![line("bob", 9)]);
    board.cleanup();
    assert_eq!(board, Leaderboard::Missing);
    assert_eq!(spawn_leaderboard(&mut board, AsyncTaskStatus::Idle), FetchAction::Start);
    let mut failed = Leaderboard::Failed;
    failed.cleanup();
    assert!(failed.wants_list());
}

#[test]
fn a_pin_takes_digits_only() {
    let mut password = Password::default();
    assert!(password.receive('1'));
    assert!(!password.receive('a'));
    assert!(!password.receive('/'));
    assert!(!password.receive(':'));
    assert!(!password.receive('٣'));
    assert!(password.receive('0'));
    assert!(password.receive('9'));
    assert_eq!(password.value(), "109");
    assert_eq!(password.masked(), "***");
}

#[test]
fn the_last_digit_of_a_pin_can_be_taken_back() {
    let mut password = Password::default();
    password.backspace();
    assert_eq!(password.value(), "");
    assert_eq!(password.masked(), "");
    password.receive('4');
    password.receive('2');
    password.backspace();
    assert_eq!(password.value(), "4");
    assert_eq!(password.clone(), password);
}

#[test]
fn typing_goes_to_the_chosen_field() {
    let mut form = LoginForm::default();
    type_text(&mut form, "lost");
    assert_eq!(form, LoginForm::default());
    form.focus(FocusEvent::Pressed(Field::Username));
    assert_eq!(form.editing, Some(Field::Username));
    type_text(&mut form, "ab1!");
    form.focus(FocusEvent::Pressed(Field::Password));
    type_text(&mut form, "1x2y3z4");
    assert_eq!(form.username, "ab1!");
    assert_eq!(form.password.value(), "1234");
    form.focus(FocusEvent::Escape);
    assert_eq!(form.editing, None);
    type_text(&mut form, "56");
    assert_eq!(form.username, "ab1!");
    assert_eq!(form.password.value(), "1234");
}

#[test]
fn backspace_takes_from_the_chosen_field() {
    let mut form = LoginForm::default();
    form.focus(FocusEvent::Pressed(Field::Username));
    form.backspace();
    assert_eq!(form.username, "");
    type_text(&mut form, "abcd");
    form.backspace();
    assert_eq!(form.username, "abc");
    form.focus(FocusEvent::Pressed(Field::Password));
    type_text(&mut form, "12345");
    form.backspace();
    assert_eq!(form.username, "abc");
    assert_eq!(form.password.value(), "1234");
    form.focus(FocusEvent::Escape);
    form.backspace();
    assert_eq!(form.username, "abc");
    assert_eq!(form.password.value(), "1234");
}

#[test]
fn a_filled_form_is_sent_once_submitted() {
    let mut form = LoginForm::default();
    form.focus(FocusEvent::Pressed(Field::Username));
    type_text(&mut form, "abcd");
    form.focus(FocusEvent::Pressed(Field::Password));
    type_text(&mut form, "1234");
    let request = form.submit(false);
    assert_eq!(request, sign_up("abcd", 1234));
    assert_eq!(form.editing, None);
    assert_eq!(form.username, "abcd");
    assert_eq!(form.password.value(), "1234");
}

#[test]
fn a_form_is_not_sent_while_a_sign_up_is_under_way() {
    let mut form = LoginForm::default();
    form.focus(FocusEvent::Pressed(Field::Username));
    type_text(&mut form, "abcd");
    form.focus(FocusEvent::Pressed(Field::Password));
    type_text(&mut form, "1234");
    assert_eq!(form.submit(true), None);
    assert_eq!(form.editing, None);
    assert_eq!(form.username, "abcd");
    assert_eq!(form.password.value(), "1234");
    assert_eq!(form.submit(false), sign_up("abcd", 1234));
}

#[test]
fn a_form_that_is_too_short_is_not_sent() {
    let mut form = LoginForm::default();
    form.focus(FocusEvent::Pressed(Field::Username));
    type_text(&mut form, "ab");
    form.focus(FocusEvent::Pressed(Field::Password));
    type_text(&mut form, "1234");
    assert_eq!(form.submit(false), None);
    form.focus(FocusEvent::Pressed(Field::Username));
    type_text(&mut form, "c");
    form.focus(FocusEvent::Pressed(Field::Password));
    form.backspace();
    assert_eq!(form.submit(false), None);
    form.focus(FocusEvent::Pressed(Field::Password));
    type_text(&mut form, "4");
    assert_eq!(form.submit(false), sign_up("abc", 1234));
}
