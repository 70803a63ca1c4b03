//! The sign-up form: two fields that are typed into, one of them a pin that
//! takes digits only.

use vstd::prelude::*;

use crate::leaderboard::{all_digits, digits_value, is_digit, valid_pin, valid_username};
use crate::leaderboard::{register_user, Request, RequestView, UserLoginView};

verus! {

/// `String::push` appends one character to the end of the text. Stated as
/// the standard library documents it; not proved here.
pub assume_specification[ String::push ](text: &mut String, c: char)
    ensures
        final(text)@ == old(text)@.push(c),
;

/// `String::pop` takes the last character off the text and returns it; an
/// empty text stays empty and gives nothing. Stated as the standard library
/// documents it; not proved here.
pub assume_specification[ String::pop ](text: &mut String) -> (last: Option<char>)
    ensures
        old(text)@.len() == 0 ==> last.is_none() && final(text)@ == old(text)@,
        old(text)@.len() > 0 ==> last == Some(old(text)@.last()) && final(text)@ == old(
            text,
        )@.drop_last(),
;

/// The text that hides a pin of `len` digits: as many stars.
pub open spec fn stars(len: nat) -> Seq<char> {
    Seq::new(len, |i: int| '*')
}

/// The pin as typed so far. It holds digits only, whatever is typed.
#[derive(Debug, PartialEq, Eq)]
pub struct Password {
    value: String,
}

impl View for Password {
    type V = Seq<char>;

    closed spec fn view(&self) -> Seq<char> {
        self.value@
    }
}

impl Clone for Password {
    fn clone(&self) -> (copy: Password)
        ensures
            copy@ == self@,
    {
        proof {
            use_type_invariant(self);
        }
        Password { value: self.value.clone() }
    }
}

impl Default for Password {
    fn default() -> (password: Password)
        ensures
            password@ == Seq::<char>::empty(),
    {
        Password { value: String::new() }
    }
}

impl Password {
    #[verifier::type_invariant]
    spec fn digits_only(self) -> bool {
        all_digits(self.value@)
    }

    /// The digits typed so far.
    pub fn value(&self) -> (text: &str)
        ensures
            text@ == self@,
            all_digits(self@),
    {
        proof {
            use_type_invariant(self);
        }
        self.value.as_str()
    }

    /// Types one character. A digit is appended; anything else is dropped.
    /// Says whether the character was taken.
    pub fn receive(&mut self, c: char) -> (taken: bool)
        ensures
            taken == is_digit(c),
            final(self)@ == if is_digit(c) {
                old(self)@.push(c)
            } else {
                old(self)@
            },
    {
        proof {
            use_type_invariant(&*self);
        }
        if '0' <= c && c <= '9' {
            let mut value = self.value.clone();
            value.push(c);
            assert(all_digits(value@)) by {
                assert forall|i: int| 0 <= i < value@.len() implies is_digit(#[trigger] value@[i]) by {
                    if i < self.value@.len() {
                        assert(value@[i] == self.value@[i]);
                    }
                }
            }
            *self = Password { value };
            true
        } else {
            false
        }
    }

    /// Takes back the last digit, if there is one.
    pub fn backspace(&mut self)
        ensures
            final(self)@ == if old(self)@.len() > 0 {
                old(self)@.drop_last()
            } else {
                old(self)@
            },
    {
        proof {
            use_type_invariant(&*self);
        }
        let mut value = self.value.clone();
        value.pop();
        assert(all_digits(value@)) by {
            assert forall|i: int| 0 <= i < value@.len() implies is_digit(#[trigger] value@[i]) by {
                assert(value@[i] == self.value@[i]);
            }
        }
        *self = Password { value };
    }

    /// What the screen shows in place of the pin: one star for each digit.
    pub fn masked(&self) -> (shown: String)
        ensures
            shown@ == stars(self@.len()),
    {
        let len: usize = self.value.as_str().unicode_len();
        let mut shown = String::new();
        let mut i: usize = 0;
        while i < len
            invariant
                i <= len,
                shown@ =~= stars(i as nat),
            decreases len - i,
        {
            shown.push('*');
            i = i + 1;
        }
        shown
    }
}

/// The two fields of the form.
#[derive(Debug, Clone, Copy, PartialEq, Eq, Hash, Structural)]
pub enum Field {
    Username,
    Password,
}

/// What a [`LoginForm`] stands for.
pub struct LoginFormView {
    pub username: Seq<char>,
    pub password: Seq<char>,
    pub editing: Option<Field>,
}

/// The sign-up form: the name, the pin, and the field that is typed into, if
/// any.
#[derive(Debug, Clone, PartialEq, Eq)]
pub struct LoginForm {
    pub username: String,
    pub password: Password,
    pub editing: Option<Field>,
}

impl View for LoginForm {
    type V = LoginFormView;

    open spec fn view(&self) -> LoginFormView {
        LoginFormView {
            username: self.username@,
            password: self.password@,
            editing: self.editing,
        }
    }
}

impl Default for LoginForm {
    /// An empty form with no field chosen.
    fn default() -> (form: LoginForm)
        ensures
            form@ == (LoginFormView {
                username: Seq::empty(),
                password: Seq::empty(),
                editing: None,
            }),
    {
        LoginForm { username: String::new(), password: Password::default(), editing: None }
    }
}

/// What the player does to choose where to type.
#[derive(Debug, Clone, Copy, PartialEq, Eq, Hash, Structural)]
pub enum FocusEvent {
    /// A field was pressed.
    Pressed(Field),
    /// The escape key was pressed.
    Escape,
}

impl LoginForm {
    /// Chooses the field to type into: a pressed field takes over, escape
    /// leaves every field. The texts stay as they are.
    pub fn focus(&mut self, event: FocusEvent)
        ensures
            final(self)@ == (LoginFormView {
                editing: match event {
                    FocusEvent::Pressed(field) => Some(field),
                    FocusEvent::Escape => None,
                },
                ..old(self)@
            }),
    {
        match event {
            FocusEvent::Pressed(field) => {
                self.editing = Some(field);
            },
            FocusEvent::Escape => {
                self.editing = None;
            },
        }
    }

    /// Types one character into the chosen field. The name takes any
    /// character, the pin digits only; with no field chosen nothing happens.
    pub fn type_character(&mut self, c: char)
        ensures
            final(self)@ == (match old(self)@.editing {
                Some(Field::Username) => LoginFormView {
                    username: old(self)@.username.push(c),
                    ..old(self)@
                },
                Some(Field::Password) if is_digit(c) => LoginFormView {
                    password: old(self)@.password.push(c),
                    ..old(self)@
                },
                _ => old(self)@,
            }),
    {
        match self.editing {
            Some(Field::Username) => {
                self.username.push(c);
            },
            Some(Field::Password) => {
                self.password.receive(c);
            },
            None => {},
        }
    }

    /// Takes back the last character of the chosen field, if it has one.
    pub fn backspace(&mut self)
        ensures
            final(self)@ == (match old(self)@.editing {
                Some(Field::Username) if old(self)@.username.len() > 0 => LoginFormView {
                    username: old(self)@.username.drop_last(),
                    ..old(self)@
                },
                Some(Field::Password) if old(self)@.password.len() > 0 => LoginFormView {
                    password: old(self)@.password.drop_last(),
                    ..old(self)@
                },
                _ => old(self)@,
            }),
    {
        match self.editing {
            Some(Field::Username) => {
                self.username.pop();
            },
            Some(Field::Password) => {
                self.password.backspace();
            },
            None => {},
        }
    }

    /// Presses the submit button: typing stops, and if the name and the pin
    /// are both let through, the request to send is returned.
    ///
    /// Only one sign-up is under way at a time: while the one before is still
    /// `in_flight` nothing is sent, whatever the form holds.
    pub fn submit(&mut self, in_flight: bool) -> (request: Option<Request>)
        ensures
            final(self)@ == (LoginFormView { editing: None, ..old(self)@ }),
            request.is_some() <==> !in_flight && valid_username(old(self)@.username) && valid_pin(
                old(self)@.password,
            ),
            request.is_some() ==> request.unwrap()@ == RequestView::SignUp(
                UserLoginView {
                    user: old(self)@.username,
                    pin: digits_value(old(self)@.password) as int,
                },
            ),
    {
        self.editing = None;
        if in_flight {
            None
        } else {
            register_user(self.username.as_str(), self.password.value())
        }
    }
}

} // verus!
