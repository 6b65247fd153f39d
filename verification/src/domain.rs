use vstd::prelude::*;
use vstd::string::StrSliceExecFns;
use vstd::string::StringExecFns;
use crate::forms::FormData;

verus! {

/// A character with the Unicode `White_Space` property, the set that
/// `char::is_whitespace` documents.
pub open spec fn is_space_char(c: char) -> bool {
    ||| c == ' '
    ||| c == '\t'
    ||| c == '\n'
    ||| c == '\u{0b}'
    ||| c == '\u{0c}'
    ||| c == '\r'
    ||| c == '\u{85}'
    ||| c == '\u{a0}'
    ||| c == '\u{1680}'
    ||| 0x2000 <= c as u32 && c as u32 <= 0x200a
    ||| c == '\u{2028}'
    ||| c == '\u{2029}'
    ||| c == '\u{202f}'
    ||| c == '\u{205f}'
    ||| c == '\u{3000}'
}

fn is_space(c: char) -> (r: bool)
    ensures
        r == is_space_char(c),
{
    let u = c as u32;
    u == 0x20 || u == 0x09 || u == 0x0a || u == 0x0b || u == 0x0c || u == 0x0d || u == 0x85
        || u == 0xa0 || u == 0x1680 || (0x2000 <= u && u <= 0x200a) || u == 0x2028 || u == 0x2029
        || u == 0x202f || u == 0x205f || u == 0x3000
}

/// A character that a subscriber name may never contain.
pub open spec fn is_forbidden_char(c: char) -> bool {
    ||| c == '/'
    ||| c == '('
    ||| c == ')'
    ||| c == '"'
    ||| c == '<'
    ||| c == '>'
    ||| c == '\\'
    ||| c == '{'
    ||| c == '}'
}

fn is_forbidden(c: char) -> (r: bool)
    ensures
        r == is_forbidden_char(c),
{
    c == '/' || c == '(' || c == ')' || c == '"' || c == '<' || c == '>' || c == '\\' || c == '{'
        || c == '}'
}

/// When a string is a valid subscriber name: it has at least one
/// non-whitespace character, at most 256 characters, and none of the
/// forbidden characters.
pub open spec fn name_ok(s: Seq<char>) -> bool {
    &&& exists|i: int| 0 <= i < s.len() && !is_space_char(s[i])
    &&& s.len() <= 256
    &&& forall|i: int| 0 <= i < s.len() ==> !is_forbidden_char(s[i])
}

/// A subscriber's display name; it can only be built through `parse`, so a
/// value of this type always satisfies `name_ok`.
#[derive(Clone, Debug)]
pub struct SubscriberName {
    inner: String,
}

impl View for SubscriberName {
    type V = Seq<char>;

    closed spec fn view(&self) -> Seq<char> {
        self.inner@
    }
}

impl SubscriberName {
    /// Accepts exactly the strings that satisfy `name_ok` and keeps the
    /// input unchanged: the parser validates, it does not normalise.
    pub fn parse(s: String) -> (r: Result<SubscriberName, String>)
        ensures
            r is Ok <==> name_ok(s@),
            r matches Ok(name) ==> name@ == s@,
            r matches Err(m) ==> m@ == s@ + " is not a valid subscriber name."@,
    {
        let n = s.as_str().unicode_len();
        let mut has_visible = false;
        let mut has_forbidden = false;
        let mut i: usize = 0;
        while i < n
            invariant
                n == s@.len(),
                i <= n,
                has_visible == exists|j: int| 0 <= j < i && !is_space_char(s@[j]),
                has_forbidden == exists|j: int| 0 <= j < i && is_forbidden_char(s@[j]),
            decreases n - i,
        {
            let c = s.as_str().get_char(i);
            if !is_space(c) {
                has_visible = true;
            }
            if is_forbidden(c) {
                has_forbidden = true;
            }
            i += 1;
        }
        if has_visible && !has_forbidden && n <= 256 {
            Ok(SubscriberName { inner: s })
        } else {
            Err(s.concat(" is not a valid subscriber name."))
        }
    }

    /// The underlying textual value.
    pub fn as_ref(&self) -> (r: &str)
        ensures
            r@ == self@,
    {
        self.inner.as_str()
    }
}

/// Number of occurrences of `c` in `s`.
pub open spec fn count_char(s: Seq<char>, c: char) -> nat
    decreases s.len(),
{
    if s.len() == 0 {
        0
    } else {
        count_char(s.drop_last(), c) + if s.last() == c {
            1nat
        } else {
            0nat
        }
    }
}

/// When a string passes the email grammar of the `validator` crate: the
/// "looks like a valid e-mail address" check of the HTML5 specification.
pub uninterp spec fn email_ok(s: Seq<char>) -> bool;

/// Relies on `validator::ValidateEmail::validate_email` for `String`: it
/// rejects the empty string and any string without '@'; it splits at the last
/// '@' and demands a non-empty local part drawn from a character set that
/// excludes '@', and a non-empty domain part, so every accepted string holds
/// exactly one '@' with at least one character on either side.
#[verifier::external_body]
fn email_is_valid(s: &String) -> (r: bool)
    ensures
        r == email_ok(s@),
        r ==> count_char(s@, '@') == 1,
        r ==> s@.len() >= 3 && s@[0] != '@' && s@[s@.len() - 1] != '@',
        s@.len() == 0 ==> !r,
        count_char(s@, '@') == 0 ==> !r,
{
    validator::ValidateEmail::validate_email(s)
}

/// A subscriber's email address; it can only be built through `parse`, so a
/// value of this type always satisfies `email_ok`.
#[derive(Clone, Debug)]
pub struct SubscriberEmail {
    inner: String,
}

impl View for SubscriberEmail {
    type V = Seq<char>;

    closed spec fn view(&self) -> Seq<char> {
        self.inner@
    }
}

impl SubscriberEmail {
    /// Accepts exactly the strings that satisfy `email_ok`, and keeps the
    /// input unchanged, so the value round-trips: what `as_ref` later shows
    /// is exactly the string that was parsed. Every accepted string holds
    /// exactly one '@', and at least one character stands on either side of
    /// it.
    pub fn parse(s: String) -> (r: Result<SubscriberEmail, String>)
        ensures
            r is Ok <==> email_ok(s@),
            r matches Ok(email) ==> email@ == s@,
            r is Ok ==> count_char(s@, '@') == 1,
            r is Ok ==> s@.len() >= 3 && s@[0] != '@' && s@[s@.len() - 1] != '@',
            r matches Err(m) ==> m@ == s@ + " is not a valid subscriber email."@,
    {
        if email_is_valid(&s) {
            Ok(SubscriberEmail { inner: s })
        } else {
            Err(s.concat(" is not a valid subscriber email."))
        }
    }

    /// The underlying textual value: exactly the string `parse` accepted.
    pub fn as_ref(&self) -> (r: &str)
        ensures
            r@ == self@,
    {
        self.inner.as_str()
    }
}

/// Every name the parser accepts is non-empty, at most 256 characters long,
/// and free of the forbidden characters.
pub proof fn lemma_accepted_name_shape(s: Seq<char>)
    requires
        name_ok(s),
    ensures
        s.len() > 0,
        s.len() <= 256,
        forall|i: int| 0 <= i < s.len() ==> !is_forbidden_char(s[i]),
{
    let i = choose|i: int| 0 <= i < s.len() && !is_space_char(s[i]);
    assert(s.len() > i);
}

/// The validated aggregate: by construction it cannot hold an invalid email
/// or name.
#[derive(Clone, Debug)]
pub struct NewSubscriber {
    pub email: SubscriberEmail,
    pub name: SubscriberName,
}

impl NewSubscriber {
    /// Converts a raw form record, name first: succeeds exactly when both
    /// fields validate, and surfaces the first failure reason.
    pub fn try_from(form: FormData) -> (r: Result<NewSubscriber, String>)
        ensures
            r is Ok <==> name_ok(form.name@) && email_ok(form.email@),
            r matches Ok(ns) ==> ns.name@ == form.name@ && ns.email@ == form.email@,
            r matches Err(m) ==> !name_ok(form.name@) ==> m@ == form.name@
                + " is not a valid subscriber name."@,
            r matches Err(m) ==> name_ok(form.name@) && !email_ok(form.email@) ==> m@
                == form.email@ + " is not a valid subscriber email."@,
    {
        let name = match SubscriberName::parse(form.name) {
            Ok(name) => name,
            Err(m) => {
                return Err(m);
            },
        };
        let email = match SubscriberEmail::parse(form.email) {
            Ok(email) => email,
            Err(m) => {
                return Err(m);
            },
        };
        Ok(NewSubscriber { email, name })
    }
}

} // verus!
