//! What the client presents to the identity provider when it has a
//! credential checked, and how it reads the answer.

use crate::text::Line;
use vstd::prelude::*;
use vstd::string::*;

verus! {

/// The scheme that a stored credential may carry in front.
pub open spec fn scheme_prefix() -> Seq<char> {
    "oauth:"@
}

/// The credential without the scheme in front of it, however often the
/// scheme is repeated there.
pub open spec fn bare_token(token: Seq<char>) -> Seq<char>
    decreases token.len(),
{
    let n = scheme_prefix().len() as int;
    if n > 0 && token.len() >= n && token.take(n) == scheme_prefix() {
        bare_token(token.skip(n))
    } else {
        token
    }
}

/// The value of the authorization header for a credential.
pub open spec fn authorization_of(token: Seq<char>) -> Seq<char> {
    "OAuth "@ + bare_token(token)
}

/// The status with which the identity provider rejects a credential.
pub open spec fn unauthorized() -> u16 {
    401
}

/// The bare credential does not begin with the scheme.
pub proof fn lemma_bare_token_has_no_scheme(token: Seq<char>)
    ensures
        ({
            let bare = bare_token(token);
            let n = scheme_prefix().len() as int;
            n > 0 ==> !(bare.len() >= n && bare.take(n) == scheme_prefix())
        }),
    decreases token.len(),
{
    let n = scheme_prefix().len() as int;
    if n > 0 && token.len() >= n && token.take(n) == scheme_prefix() {
        lemma_bare_token_has_no_scheme(token.skip(n));
    }
}

/// The credential without the scheme in front of it.
pub fn strip_scheme(token: &str) -> (bare: String)
    ensures
        bare@ == bare_token(token@),
{
    let line = Line::new(token);
    let scheme = Line::new("oauth:");
    let n = line.len();
    let m = scheme.len();
    let mut pos: usize = 0;
    proof {
        reveal_strlit("oauth:");
        assert(line@.skip(0) =~= line@);
    }
    while line.matches_at(pos, &scheme)
        invariant
            pos <= n == line@.len(),
            0 < m == scheme@.len(),
            scheme@ == scheme_prefix(),
            line@ == token@,
            bare_token(token@) == bare_token(line@.skip(pos as int)),
        decreases n - pos,
    {
        proof {
            let rest = line@.skip(pos as int);
            assert(rest.take(m as int) =~= line@.subrange(pos as int, pos + m));
            assert(rest.skip(m as int) =~= line@.skip(pos + m));
        }
        pos = pos + m;
    }
    proof {
        let rest = line@.skip(pos as int);
        if rest.len() >= m {
            assert(rest.take(m as int) =~= line@.subrange(pos as int, pos + m));
        }
        assert(rest =~= line@.subrange(pos as int, n as int));
    }
    line.cut(pos, n)
}

/// The value of the authorization header for a credential.
pub fn authorization_value(token: &str) -> (value: String)
    ensures
        value@ == authorization_of(token@),
{
    let bare = strip_scheme(token);
    "OAuth ".to_owned().concat(bare.as_str())
}

/// Tells whether an answer with this status rejects the credential.
/// Every other answer accepts it.
pub fn token_rejected(status: u16) -> (b: bool)
    ensures
        b == (status == unauthorized()),
{
    status == 401
}

} // verus!
