//! Path expressions: normalized addresses into a structured body, comparable
//! and iterable segment by segment. The root is the empty sequence of
//! segments; a wildcard segment matches any single concrete segment.

use vstd::prelude::*;
use crate::strings::{dec_digits, str_concat, str_eq, u64_to_dec};
use vstd::string::StrSliceExecFns;

verus! {

/// One segment of a path expression.
#[derive(Debug)]
pub enum PathToken {
    /// A field name.
    Field(String),
    /// A numeric index.
    Index(usize),
    /// The wildcard over fields and values (`*`).
    Star,
    /// The wildcard over indices (`[*]`).
    StarIndex,
}

/// Spec-level mirror of `PathToken`.
pub enum TokenData {
    /// A field name.
    Field(Seq<char>),
    /// A numeric index.
    Index(usize),
    /// The wildcard over fields and values (`*`).
    Star,
    /// The wildcard over indices (`[*]`).
    StarIndex,
}

impl View for PathToken {
    type V = TokenData;

    open spec fn view(&self) -> TokenData {
        match self {
            PathToken::Field(s) => TokenData::Field(s@),
            PathToken::Index(i) => TokenData::Index(*i),
            PathToken::Star => TokenData::Star,
            PathToken::StarIndex => TokenData::StarIndex,
        }
    }
}

impl Clone for PathToken {
    /// A copy with the same model value.
    fn clone(&self) -> (r: Self)
        ensures
            r@ == self@,
    {
        match self {
            PathToken::Field(s) => PathToken::Field(s.clone()),
            PathToken::Index(i) => PathToken::Index(*i),
            PathToken::Star => PathToken::Star,
            PathToken::StarIndex => PathToken::StarIndex,
        }
    }
}

/// A normalized address into a structured body. The root (`$`) is the empty
/// sequence of segments.
#[derive(Debug)]
pub struct PathExpression {
    /// The segments below the root, outermost first.
    pub tokens: Vec<PathToken>,
}

impl View for PathExpression {
    type V = Seq<TokenData>;

    open spec fn view(&self) -> Seq<TokenData> {
        Seq::new(
            self.tokens@.len(),
            |i: int|
                if 0 <= i < self.tokens@.len() {
                    self.tokens@[i]@
                } else {
                    TokenData::Star
                },
        )
    }
}

impl Clone for PathExpression {
    /// A copy with the same model value.
    fn clone(&self) -> (r: Self)
        ensures
            r@ == self@,
    {
        let mut tokens: Vec<PathToken> = Vec::new();
        let mut i: usize = 0;
        while i < self.tokens.len()
            invariant
                i <= self.tokens@.len(),
                tokens@.len() == i,
                forall|j: int| 0 <= j < i ==> tokens@[j]@ == self.tokens@[j]@,
            decreases self.tokens@.len() - i,
        {
            tokens.push(self.tokens[i].clone());
            i = i + 1;
        }
        let r = PathExpression { tokens };
        proof {
            assert(r@ =~= self@);
        }
        r
    }
}

impl PathExpression {
    /// The root path (`$`).
    pub fn root() -> (r: PathExpression)
        ensures
            r@ =~= Seq::<TokenData>::empty(),
    {
        PathExpression { tokens: Vec::new() }
    }

    /// This path extended by a field segment.
    pub fn pushed_field(&self, name: &str) -> (r: PathExpression)
        ensures
            r@ =~= self@.push(TokenData::Field(name@)),
    {
        let mut r = self.clone();
        r.tokens.push(PathToken::Field(name.to_owned()));
        proof {
            assert(r@ =~= self@.push(TokenData::Field(name@)));
        }
        r
    }

    /// This path extended by an index segment.
    pub fn pushed_index(&self, index: usize) -> (r: PathExpression)
        ensures
            r@ =~= self@.push(TokenData::Index(index)),
    {
        let mut r = self.clone();
        r.tokens.push(PathToken::Index(index));
        proof {
            assert(r@ =~= self@.push(TokenData::Index(index)));
        }
        r
    }

    /// This path extended by the wildcard segment.
    pub fn pushed_star(&self) -> (r: PathExpression)
        ensures
            r@ =~= self@.push(TokenData::Star),
    {
        let mut r = self.clone();
        r.tokens.push(PathToken::Star);
        proof {
            assert(r@ =~= self@.push(TokenData::Star));
        }
        r
    }
}

/// Does the pattern segment cover the concrete segment?
pub open spec fn token_covers(pat: TokenData, c: TokenData) -> bool {
    match pat {
        TokenData::Star => true,
        TokenData::StarIndex => c is Index,
        _ => pat == c,
    }
}

/// Does the pattern path cover the concrete path, segment by segment, a
/// wildcard covering any single concrete segment?
pub open spec fn path_covers(pat: Seq<TokenData>, c: Seq<TokenData>) -> bool {
    pat.len() == c.len() && (forall|i: int| 0 <= i < pat.len() ==> token_covers(pat[i], c[i]))
}

/// Does the pattern segment cover the concrete segment?
fn token_covers_exec(pat: &PathToken, c: &PathToken) -> (r: bool)
    ensures
        r == token_covers(pat@, c@),
{
    match (pat, c) {
        (PathToken::Star, _) => true,
        (PathToken::StarIndex, PathToken::Index(_)) => true,
        (PathToken::StarIndex, _) => false,
        (PathToken::Field(a), PathToken::Field(b)) => str_eq(a.as_str(), b.as_str()),
        (PathToken::Index(a), PathToken::Index(b)) => *a == *b,
        _ => false,
    }
}

impl PathExpression {
    /// Are the two paths equal segment by segment?
    pub fn path_eq(&self, other: &PathExpression) -> (r: bool)
        ensures
            r == (self@ == other@),
    {
        if self.tokens.len() != other.tokens.len() {
            return false;
        }
        let mut i: usize = 0;
        while i < self.tokens.len()
            invariant
                self.tokens@.len() == other.tokens@.len(),
                i <= self.tokens@.len(),
                forall|j: int| 0 <= j < i ==> self@[j] == other@[j],
            decreases self.tokens@.len() - i,
        {
            let same = match (&self.tokens[i], &other.tokens[i]) {
                (PathToken::Field(a), PathToken::Field(b)) => str_eq(a.as_str(), b.as_str()),
                (PathToken::Index(a), PathToken::Index(b)) => *a == *b,
                (PathToken::Star, PathToken::Star) => true,
                (PathToken::StarIndex, PathToken::StarIndex) => true,
                _ => false,
            };
            if !same {
                proof {
                    assert(self@[i as int] != other@[i as int]);
                }
                return false;
            }
            i = i + 1;
        }
        proof {
            assert(self@ =~= other@);
        }
        true
    }

    /// Does this path, read as a pattern, cover the concrete path?
    pub fn covers(&self, concrete: &PathExpression) -> (r: bool)
        ensures
            r == path_covers(self@, concrete@),
    {
        if self.tokens.len() != concrete.tokens.len() {
            return false;
        }
        let mut i: usize = 0;
        while i < self.tokens.len()
            invariant
                self.tokens@.len() == concrete.tokens@.len(),
                i <= self.tokens@.len(),
                forall|j: int| 0 <= j < i ==> token_covers(self@[j], concrete@[j]),
            decreases self.tokens@.len() - i,
        {
            if !token_covers_exec(&self.tokens[i], &concrete.tokens[i]) {
                proof {
                    assert(!token_covers(self@[i as int], concrete@[i as int]));
                }
                return false;
            }
            i = i + 1;
        }
        true
    }
}

/// Is the character plain enough to stand unquoted in a rendered path?
pub open spec fn plain_path_char(c: char) -> bool {
    (97 <= c as u32 <= 122) || (65 <= c as u32 <= 90) || (48 <= c as u32 <= 57) || c == '_' || c
        == '-'
}

/// Is every character of the name plain?
pub open spec fn plain_name(s: Seq<char>) -> bool {
    forall|i: int| 0 <= i < s.len() ==> plain_path_char(s[i])
}

/// One segment of the rendered path.
pub open spec fn token_text(t: TokenData) -> Seq<char> {
    match t {
        TokenData::Field(name) => if plain_name(name) && name.len() > 0 {
            "."@ + name
        } else {
            "['"@ + name + "']"@
        },
        TokenData::Index(i) => "["@ + dec_digits(i as nat) + "]"@,
        TokenData::Star => ".*"@,
        TokenData::StarIndex => "[*]"@,
    }
}

/// The rendered path from segment `i` on.
pub open spec fn path_text_from(ts: Seq<TokenData>, i: int) -> Seq<char>
    decreases ts.len() - i,
{
    if i < 0 || i >= ts.len() {
        Seq::empty()
    } else {
        token_text(ts[i]) + path_text_from(ts, i + 1)
    }
}

/// The rendered form of a path: `$` followed by its segments.
pub open spec fn path_text(ts: Seq<TokenData>) -> Seq<char> {
    "$"@ + path_text_from(ts, 0)
}

fn is_plain_name(s: &str) -> (r: bool)
    ensures
        r == plain_name(s@),
{
    let n = s.unicode_len();
    let mut i: usize = 0;
    while i < n
        invariant
            n == s@.len(),
            i <= n,
            forall|j: int| 0 <= j < i ==> plain_path_char(s@[j]),
        decreases n - i,
    {
        let c = s.get_char(i);
        let cu = c as u32;
        if !((97 <= cu && cu <= 122) || (65 <= cu && cu <= 90) || (48 <= cu && cu <= 57) || c
            == '_' || c == '-') {
            return false;
        }
        i = i + 1;
    }
    true
}

impl PathExpression {
    /// Renders this path in its textual form (`$.a['@b'][0]`).
    pub fn to_text(&self) -> (r: String)
        ensures
            r@ == path_text(self@),
    {
        let mut out = "$".to_owned();
        let ghost ts = self@;
        let mut i: usize = 0;
        proof {
            assert(out@ + path_text_from(ts, 0) =~= path_text(ts));
        }
        while i < self.tokens.len()
            invariant
                ts == self@,
                ts.len() == self.tokens@.len(),
                i <= self.tokens@.len(),
                out@ + path_text_from(ts, i as int) =~= path_text(ts),
            decreases self.tokens@.len() - i,
        {
            let piece: String = match &self.tokens[i] {
                PathToken::Field(name) => {
                    if is_plain_name(name.as_str()) && name.as_str().unicode_len() > 0 {
                        str_concat(".", name.as_str())
                    } else {
                        let head = str_concat("['", name.as_str());
                        str_concat(head.as_str(), "']")
                    }
                },
                PathToken::Index(idx) => {
                    let num = u64_to_dec(*idx as u64);
                    let head = str_concat("[", num.as_str());
                    str_concat(head.as_str(), "]")
                },
                PathToken::Star => ".*".to_owned(),
                PathToken::StarIndex => "[*]".to_owned(),
            };
            proof {
                assert(piece@ == token_text(ts[i as int]));
            }
            let joined = str_concat(out.as_str(), piece.as_str());
            out = joined;
            proof {
                assert(out@ + path_text_from(ts, i as int + 1) =~= path_text(ts));
            }
            i = i + 1;
        }
        proof {
            assert(out@ =~= path_text(ts));
        }
        out
    }
}

} // verus!
