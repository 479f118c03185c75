//! Logging in to the management interface: the form, its checks, and the
//! count of failed attempts that locks logins after more than ten.
use crate::text::{chars_of, is_ascii_alnum, str_eq, string_of};
use crate::util::time_util::current_millis_u128;
use crate::web::controller::validate::{
    check_length, error_pairs, form_error_message, form_error_text, length_ok, FieldError,
};
use rand::distr::{Alphanumeric, SampleString};
use vstd::prelude::*;

verus! {

/// The login form.
pub struct LoginForm {
    pub name: String,
    pub pwd: String,
}

/// The current login.
pub struct LoggedInfo {
    /// The token of the current login.
    pub token: String,
    /// When the login happened, in milliseconds since the epoch.
    pub last_time: u128,
}

/// The failed-login counter.
pub struct LoginState {
    /// Failed attempts since the last successful login.
    pub error_count: u8,
}

/// The answer to a login attempt.
pub enum LoginOutcome {
    /// More than ten failures: logins are refused.
    TooManyErrors(String),
    /// A field is empty; the text names the fields.
    InvalidForm(String),
    /// The name or the password is wrong.
    WrongCredentials(String),
    /// Logged in: the new token.
    Success(String),
}

/// The checks of the login form: name and password must not be empty.
pub open spec fn login_form_errors(name: Seq<char>, pwd: Seq<char>) -> Seq<(Seq<char>, Seq<char>)> {
    let a: Seq<(Seq<char>, Seq<char>)> = if length_ok(name, 1, usize::MAX as nat) {
        seq![]
    } else {
        seq![("name"@, "用户名不能为空"@)]
    };
    if length_ok(pwd, 1, usize::MAX as nat) {
        a
    } else {
        a.push(("pwd"@, "密码不能为空"@))
    }
}

/// A login token: 32 ASCII letters and digits.
pub open spec fn is_token(t: Seq<char>) -> bool {
    t.len() == 32 && forall|i: int| 0 <= i < 32 ==> is_ascii_alnum(#[trigger] t[i])
}

/// `Alphanumeric.sample_string(&mut rand::rng(), len)`: `len` random ASCII
/// letters and digits. Which ones is left to chance.
#[verifier::external_body]
fn random_token(len: usize) -> (r: String)
    ensures
        r@.len() == len,
        forall|i: int| 0 <= i < len ==> is_ascii_alnum(#[trigger] r@[i]),
{
    Alphanumeric.sample_string(&mut rand::rng(), len)
}

impl LoginForm {
    /// A form with the given name and password.
    pub fn new(name: String, pwd: String) -> (r: Self)
        ensures
            r.name@ == name@,
            r.pwd@ == pwd@,
    {
        LoginForm { name, pwd }
    }

    /// The field errors of the form, name first.
    pub fn validate(&self) -> (r: Vec<FieldError>)
        ensures
            error_pairs(r@) == login_form_errors(self.name@, self.pwd@),
    {
        let mut errs: Vec<FieldError> = Vec::new();
        proof {
            reveal_strlit("name");
            reveal_strlit("pwd");
        }
        check_length(&mut errs, "name", self.name.as_str(), 1, usize::MAX, "用户名不能为空");
        check_length(&mut errs, "pwd", self.pwd.as_str(), 1, usize::MAX, "密码不能为空");
        assert(error_pairs(errs@) =~= login_form_errors(self.name@, self.pwd@));
        errs
    }
}

impl LoginState {
    /// No failed attempts.
    pub fn new() -> (r: Self)
        ensures
            r.error_count == 0,
    {
        LoginState { error_count: 0 }
    }
}

/// A login attempt against the configured name and password. After more
/// than ten failures every attempt is refused and nothing changes; a form
/// with an empty field is refused and changes nothing; wrong credentials
/// count one more failure; a successful login clears the count and records
/// a new token and the time.
pub fn do_login(
    state: &mut LoginState,
    logged: &mut LoggedInfo,
    form: &LoginForm,
    login_name: &str,
    login_pwd: &str,
) -> (r: LoginOutcome)
    ensures
        old(state).error_count > 10 ==> {
            &&& r matches LoginOutcome::TooManyErrors(m) && m@
                == "用户名或密码错误次数超过限制，请联系管理员。"@
            &&& final(state).error_count == old(state).error_count
            &&& *final(logged) == *old(logged)
        },
        old(state).error_count <= 10 && login_form_errors(form.name@, form.pwd@).len() > 0 ==> {
            &&& r matches LoginOutcome::InvalidForm(m) && m@ == form_error_text(
                login_form_errors(form.name@, form.pwd@),
            )
            &&& final(state).error_count == old(state).error_count
            &&& *final(logged) == *old(logged)
        },
        old(state).error_count <= 10 && login_form_errors(form.name@, form.pwd@).len() == 0 && (
        form.name@ != login_name@ || form.pwd@ != login_pwd@) ==> {
            &&& r matches LoginOutcome::WrongCredentials(m) && m@ == "用户名或密码错误"@
            &&& final(state).error_count == old(state).error_count + 1
            &&& *final(logged) == *old(logged)
        },
        old(state).error_count <= 10 && login_form_errors(form.name@, form.pwd@).len() == 0
            && form.name@ == login_name@ && form.pwd@ == login_pwd@ ==> {
            &&& r matches LoginOutcome::Success(t) && is_token(t@) && final(logged).token@ == t@
            &&& final(state).error_count == 0
        },
{
    if state.error_count > 10 {
        return LoginOutcome::TooManyErrors(
            string_of(&chars_of("用户名或密码错误次数超过限制，请联系管理员。")),
        );
    }
    let errs = form.validate();
    if errs.len() > 0 {
        return LoginOutcome::InvalidForm(form_error_message(&errs));
    }
    if !str_eq(form.name.as_str(), login_name) || !str_eq(form.pwd.as_str(), login_pwd) {
        state.error_count = state.error_count + 1;
        return LoginOutcome::WrongCredentials(string_of(&chars_of("用户名或密码错误")));
    }
    state.error_count = 0;
    let token = random_token(32);
    logged.last_time = current_millis_u128();
    logged.token = string_of(&chars_of(token.as_str()));
    LoginOutcome::Success(token)
}

} // verus!
