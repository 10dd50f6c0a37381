//! Authentication choices for fetching documents over HTTP. The engine only
//! models the choice; the fetch itself lives with the caller.

use vstd::prelude::*;
use crate::strings::{push_char, str_concat};
use vstd::string::StrSliceExecFns;

verus! {

/// Type of authentication to use.
#[derive(Debug, Clone)]
pub enum HttpAuth {
    /// Username and Password
    User(String, Option<String>),
    /// Bearer token
    Token(String),
    /// No authentication
    NoAuth,
}

/// Spec-level mirror of `HttpAuth`.
pub enum AuthData {
    /// Username and Password
    User(Seq<char>, Option<Seq<char>>),
    /// Bearer token
    Token(Seq<char>),
    /// No authentication
    NoAuth,
}

impl View for HttpAuth {
    type V = AuthData;

    open spec fn view(&self) -> AuthData {
        match self {
            HttpAuth::User(u, p) => AuthData::User(
                u@,
                match p {
                    Some(s) => Some(s@),
                    None => None,
                },
            ),
            HttpAuth::Token(t) => AuthData::Token(t@),
            HttpAuth::NoAuth => AuthData::NoAuth,
        }
    }
}

impl HttpAuth {
    /// If no authentication is set.
    pub fn is_none(&self) -> (r: bool)
        ensures
            r == (self@ is NoAuth),
    {
        match self {
            HttpAuth::NoAuth => true,
            _ => false,
        }
    }
}

impl Default for HttpAuth {
    /// The default is a user with an empty name and no password.
    fn default() -> (r: Self)
        ensures
            r@ == AuthData::User(Seq::<char>::empty(), None),
    {
        let r = HttpAuth::User("".to_owned(), None);
        proof {
            reveal_strlit("");
            assert(r@->User_0 =~= Seq::<char>::empty());
        }
        r
    }
}

/// A run of `n` mask characters.
pub open spec fn star_run(n: nat) -> Seq<char>
    decreases n,
{
    if n == 0 {
        Seq::empty()
    } else {
        star_run((n - 1) as nat).push('*')
    }
}

/// A secret masked for display: its first four characters, the rest starred;
/// too-short secrets are fully starred.
pub open spec fn masked(s: Seq<char>) -> Seq<char> {
    if s.len() >= 4 {
        s.take(4) + star_run((s.len() - 4) as nat)
    } else {
        star_run(s.len())
    }
}

/// Masks a secret for display.
fn mask_secret(s: &str) -> (r: String)
    ensures
        r@ == masked(s@),
{
    let n = s.unicode_len();
    let mut out = String::new();
    let mut i: usize = 0;
    if n >= 4 {
        while i < 4
            invariant
                n == s@.len(),
                n >= 4,
                i <= 4,
                out@ == s@.take(i as int),
            decreases 4 - i,
        {
            push_char(&mut out, s.get_char(i));
            proof {
                assert(out@ =~= s@.take(i + 1));
            }
            i = i + 1;
        }
    }
    let ghost head = out@;
    let mut stars: usize = 0;
    let total_stars: usize = if n >= 4 {
        n - 4
    } else {
        n
    };
    while stars < total_stars
        invariant
            stars <= total_stars,
            out@ == head + star_run(stars as nat),
        decreases total_stars - stars,
    {
        push_char(&mut out, '*');
        proof {
            assert(out@ =~= head + star_run(stars as nat + 1));
        }
        stars = stars + 1;
    }
    proof {
        if s@.len() >= 4 {
            assert(out@ =~= masked(s@));
        } else {
            assert(head =~= Seq::<char>::empty());
            assert(out@ =~= masked(s@));
        }
    }
    out
}

impl HttpAuth {
    /// The display form of this choice, secrets masked.
    pub fn display_str(&self) -> (r: String)
        ensures
            match self@ {
                AuthData::Token(t) => r@ == "Token("@ + masked(t) + ")"@,
                AuthData::User(u, p) => {
                    let shown_user = if u.len() == 0 {
                        "none"@
                    } else {
                        u
                    };
                    match p {
                        Some(pw) => r@ == "User("@ + shown_user + ", "@ + masked(pw) + ")"@,
                        None => r@ == "User("@ + shown_user + ", [no password])"@,
                    }
                },
                AuthData::NoAuth => r@ == "None"@,
            },
    {
        match self {
            HttpAuth::Token(t) => {
                let m = mask_secret(t.as_str());
                let head = str_concat("Token(", m.as_str());
                str_concat(head.as_str(), ")")
            },
            HttpAuth::User(u, p) => {
                let shown = if u.as_str().unicode_len() == 0 {
                    "none"
                } else {
                    u.as_str()
                };
                let head = str_concat("User(", shown);
                match p {
                    Some(pw) => {
                        let with_sep = str_concat(head.as_str(), ", ");
                        let m = mask_secret(pw.as_str());
                        let with_mask = str_concat(with_sep.as_str(), m.as_str());
                        str_concat(with_mask.as_str(), ")")
                    },
                    None => str_concat(head.as_str(), ", [no password])"),
                }
            },
            HttpAuth::NoAuth => "None".to_owned(),
        }
    }
}

} // verus!
