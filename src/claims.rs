//! Token claims and their canonical JSON text.

use vstd::prelude::*;
use crate::format::{holds_at, int_at, int_text, quoted, read_int, read_quoted, write_int, write_quoted};
use crate::role::UserRoleDto;
use crate::text::{chars_of, has_at, text_of};

verus! {

/// Which use a token is for: access tokens open protected routes, refresh
/// tokens are only exchanged for a new pair.
#[derive(Debug, Clone, Copy, PartialEq, Eq, Structural)]
pub enum TokenKind {
    Access,
    Refresh,
}

/// The payload of a token.
#[derive(Debug)]
pub struct Claims {
    /// Identifier of the account.
    pub sub: String,
    pub email: String,
    pub role: UserRoleDto,
    /// Issue time, epoch seconds.
    pub iat: i64,
    /// Expiry time, epoch seconds.
    pub exp: i64,
    /// Identifier of this token.
    pub jti: String,
    pub kind: TokenKind,
}

/// The value of a `Claims`.
pub struct ClaimsModel {
    pub sub: Seq<char>,
    pub email: Seq<char>,
    pub role: UserRoleDto,
    pub iat: i64,
    pub exp: i64,
    pub jti: Seq<char>,
    pub kind: TokenKind,
}

impl View for Claims {
    type V = ClaimsModel;

    open spec fn view(&self) -> ClaimsModel {
        ClaimsModel {
            sub: self.sub@,
            email: self.email@,
            role: self.role,
            iat: self.iat,
            exp: self.exp,
            jti: self.jti@,
            kind: self.kind,
        }
    }
}

/// The JSON value of a role.
pub open spec fn role_text(r: UserRoleDto) -> Seq<char> {
    match r {
        UserRoleDto::Admin => "\"admin\""@,
        UserRoleDto::Viewer => "\"viewer\""@,
    }
}

/// The JSON value of a token kind.
pub open spec fn kind_text(k: TokenKind) -> Seq<char> {
    match k {
        TokenKind::Access => "\"access\""@,
        TokenKind::Refresh => "\"refresh\""@,
    }
}

/// The claims text from the `token_type` key on.
pub open spec fn tail_kind(c: ClaimsModel) -> Seq<char> {
    ",\"token_type\":"@ + kind_text(c.kind) + "}"@
}

/// The claims text from the `jti` key on.
pub open spec fn tail_jti(c: ClaimsModel) -> Seq<char> {
    ",\"jti\":"@ + quoted(c.jti) + tail_kind(c)
}

/// The claims text from the `exp` key on.
pub open spec fn tail_exp(c: ClaimsModel) -> Seq<char> {
    ",\"exp\":"@ + int_text(c.exp as int) + tail_jti(c)
}

/// The claims text from the `iat` key on.
pub open spec fn tail_iat(c: ClaimsModel) -> Seq<char> {
    ",\"iat\":"@ + int_text(c.iat as int) + tail_exp(c)
}

/// The claims text from the `role` key on.
pub open spec fn tail_role(c: ClaimsModel) -> Seq<char> {
    ",\"role\":"@ + role_text(c.role) + tail_iat(c)
}

/// The claims text from the `email` key on.
pub open spec fn tail_email(c: ClaimsModel) -> Seq<char> {
    ",\"email\":"@ + quoted(c.email) + tail_role(c)
}

/// The canonical JSON text of the claims: one object, the keys in a fixed
/// order, no white space.
pub open spec fn claims_text(c: ClaimsModel) -> Seq<char> {
    "{\"sub\":"@ + quoted(c.sub) + tail_email(c)
}

/// The rest of `t` from `at` on.
pub open spec fn rest_of(t: Seq<char>, at: int) -> Seq<char> {
    t.subrange(at, t.len() as int)
}

proof fn lemma_split(t: Seq<char>, at: int, a: Seq<char>, b: Seq<char>, c: Seq<char>)
    requires
        0 <= at <= t.len(),
        rest_of(t, at) == a + b + c,
    ensures
        holds_at(t, at, a),
        holds_at(t, at + a.len(), b),
        rest_of(t, at + a.len() + b.len()) == c,
        t.len() == at + a.len() + b.len() + c.len(),
{
    assert(rest_of(t, at).len() == t.len() - at);
    assert(t.subrange(at, at + a.len()) =~= rest_of(t, at).subrange(0, a.len() as int));
    assert((a + b + c).subrange(0, a.len() as int) =~= a);
    assert(t.subrange(at + a.len(), at + a.len() + b.len()) =~= (a + b + c).subrange(a.len() as int, (a.len() + b.len()) as int));
    assert((a + b + c).subrange(a.len() as int, (a.len() + b.len()) as int) =~= b);
    assert(rest_of(t, at + a.len() + b.len()) =~= (a + b + c).subrange((a.len() + b.len()) as int, (a + b + c).len() as int));
}

proof fn lemma_join(t: Seq<char>, at: int, e1: int, e2: int, a: Seq<char>, b: Seq<char>, c: Seq<char>)
    requires
        0 <= at <= e1 <= e2 <= t.len(),
        t.subrange(at, e1) == a,
        t.subrange(e1, e2) == b,
        rest_of(t, e2) == c,
    ensures
        rest_of(t, at) == a + b + c,
{
    assert(rest_of(t, at) =~= t.subrange(at, e1) + t.subrange(e1, e2) + rest_of(t, e2));
}

/// Appends the characters of a literal to `out`.
fn push_text(out: &mut Vec<char>, lit: &str)
    ensures
        final(out)@ == old(out)@ + lit@,
{
    let mut v = chars_of(lit);
    out.append(&mut v);
}

impl Claims {
    /// The canonical JSON text of the claims.
    #[verifier::rlimit(60)]
    pub fn to_text(&self) -> (r: String)
        ensures
            r@ == claims_text(self@),
    {
        let mut out: Vec<char> = Vec::new();
        push_text(&mut out, "{\"sub\":");
        write_quoted(chars_of(self.sub.as_str()).as_slice(), &mut out);
        let ghost g1 = out@;
        push_text(&mut out, ",\"email\":");
        write_quoted(chars_of(self.email.as_str()).as_slice(), &mut out);
        let ghost g2 = out@;
        push_text(&mut out, ",\"role\":");
        match self.role {
            UserRoleDto::Admin => push_text(&mut out, "\"admin\""),
            UserRoleDto::Viewer => push_text(&mut out, "\"viewer\""),
        }
        let ghost g3 = out@;
        push_text(&mut out, ",\"iat\":");
        write_int(self.iat, &mut out);
        let ghost g4 = out@;
        push_text(&mut out, ",\"exp\":");
        write_int(self.exp, &mut out);
        let ghost g5 = out@;
        push_text(&mut out, ",\"jti\":");
        write_quoted(chars_of(self.jti.as_str()).as_slice(), &mut out);
        let ghost g6 = out@;
        push_text(&mut out, ",\"token_type\":");
        match self.kind {
            TokenKind::Access => push_text(&mut out, "\"access\""),
            TokenKind::Refresh => push_text(&mut out, "\"refresh\""),
        }
        let ghost g7 = out@;
        push_text(&mut out, "}");
        proof {
            let c = self@;
            assert(out@ =~= g6 + tail_kind(c));
            assert(out@ =~= g5 + tail_jti(c));
            assert(out@ =~= g4 + tail_exp(c));
            assert(out@ =~= g3 + tail_iat(c));
            assert(out@ =~= g2 + tail_role(c));
            assert(out@ =~= g1 + tail_email(c));
            assert(out@ =~= claims_text(c));
        }
        text_of(out.as_slice())
    }
}


/// The position after `lit` when `t` holds it at `at`.
fn expect(t: &[char], at: usize, lit: &str) -> (r: Option<usize>)
    ensures
        r matches Some(e) ==> holds_at(t@, at as int, lit@) && e == at + lit@.len(),
        holds_at(t@, at as int, lit@) ==> r == Some((at + lit@.len()) as usize),
{
    let l = chars_of(lit);
    assert(t@.len() == t.len());
    if has_at(t, at, l.as_slice()) {
        assert(at + l@.len() <= t@.len());
        Some(at + l.len())
    } else {
        None
    }
}

/// Reads the JSON value of a role at `at`.
fn read_role(t: &[char], at: usize) -> (r: Option<(UserRoleDto, usize)>)
    ensures
        r matches Some((x, e)) ==> holds_at(t@, at as int, role_text(x)) && e == at + role_text(x).len(),
        forall|x: UserRoleDto| #[trigger] holds_at(t@, at as int, role_text(x)) ==>
            r == Some((x, (at + role_text(x).len()) as usize)),
{
    proof {
        reveal_strlit("\"admin\"");
        reveal_strlit("\"viewer\"");
        if holds_at(t@, at as int, "\"viewer\""@) {
            assert(t@[at + 1] == "\"viewer\""@[1]);
        }
    }
    if let Some(e) = expect(t, at, "\"admin\"") {
        Some((UserRoleDto::Admin, e))
    } else if let Some(e) = expect(t, at, "\"viewer\"") {
        Some((UserRoleDto::Viewer, e))
    } else {
        None
    }
}

/// Reads the JSON value of a token kind at `at`.
fn read_kind(t: &[char], at: usize) -> (r: Option<(TokenKind, usize)>)
    ensures
        r matches Some((x, e)) ==> holds_at(t@, at as int, kind_text(x)) && e == at + kind_text(x).len(),
        forall|x: TokenKind| #[trigger] holds_at(t@, at as int, kind_text(x)) ==>
            r == Some((x, (at + kind_text(x).len()) as usize)),
{
    proof {
        reveal_strlit("\"access\"");
        reveal_strlit("\"refresh\"");
        if holds_at(t@, at as int, "\"refresh\""@) {
            assert(t@[at + 1] == "\"refresh\""@[1]);
        }
    }
    if let Some(e) = expect(t, at, "\"access\"") {
        Some((TokenKind::Access, e))
    } else if let Some(e) = expect(t, at, "\"refresh\"") {
        Some((TokenKind::Refresh, e))
    } else {
        None
    }
}

/// Reads the closing brace that ends the claims text at `at`.
fn read_close(t: &[char], at: usize, sub: Vec<char>, email: Vec<char>, role: UserRoleDto, iat: i64, exp: i64, jti: Vec<char>, kind: TokenKind) -> (r: Option<Claims>)
    requires
        at <= t@.len(),
    ensures
        r matches Some(c) ==> rest_of(t@, at as int) == "}"@ && c@.sub == sub@ && c@.email == email@ && c@.role == role && c@.iat == iat && c@.exp == exp && c@.jti == jti@ && c@.kind == kind,
        rest_of(t@, at as int) == "}"@ ==> (r matches Some(c)
            && c@ == (ClaimsModel { sub: sub@, email: email@, role, iat, exp, jti: jti@, kind })),
{
    match expect(t, at, "}") {
        Some(e) if e == t.len() => {
            assert(rest_of(t@, at as int) =~= t@.subrange(at as int, e as int));
            Some(Claims {
                sub: text_of(sub.as_slice()),
                email: text_of(email.as_slice()),
                role,
                iat,
                exp,
                jti: text_of(jti.as_slice()),
                kind,
            })
        },
        _ => {
            proof {
                if rest_of(t@, at as int) == "}"@ {
                    assert(t@.subrange(at as int, at + "}"@.len()) =~= rest_of(t@, at as int));
                }
            }
            None
        },
    }
}

/// Reads the `kind` key and value at `at`, then the rest of the claims text.
fn read_kind_field(t: &[char], at: usize, sub: Vec<char>, email: Vec<char>, role: UserRoleDto, iat: i64, exp: i64, jti: Vec<char>) -> (r: Option<Claims>)
    requires
        at <= t@.len(),
    ensures
        r matches Some(c) ==> rest_of(t@, at as int) == tail_kind(c@) && c@.sub == sub@ && c@.email == email@ && c@.role == role && c@.iat == iat && c@.exp == exp && c@.jti == jti@,
        forall|m: ClaimsModel| #[trigger] rest_of(t@, at as int) == tail_kind(m) && m.sub == sub@ && m.email == email@ && m.role == role && m.iat == iat && m.exp == exp && m.jti == jti@
            ==> (r matches Some(c) && c@ == m),
{
    proof {
        assert forall|m: ClaimsModel| #[trigger] rest_of(t@, at as int) == tail_kind(m) && m.sub == sub@ && m.email == email@ && m.role == role && m.iat == iat && m.exp == exp && m.jti == jti@ implies
            holds_at(t@, at as int, ",\"token_type\":"@) && holds_at(t@, at + ",\"token_type\":"@.len(), kind_text(m.kind))
            && rest_of(t@, at + ",\"token_type\":"@.len() + kind_text(m.kind).len()) == "}"@ by {
            lemma_split(t@, at as int, ",\"token_type\":"@, kind_text(m.kind), "}"@);
        }
    }
    let vstart = match expect(t, at, ",\"token_type\":") {
        Some(e) => e,
        None => return None,
    };
    let (v, vend) = match read_kind(t, vstart) {
        Some(x) => x,
        None => {
            proof {
                assert forall|m: ClaimsModel| #[trigger] rest_of(t@, at as int) == tail_kind(m) && m.sub == sub@ && m.email == email@ && m.role == role && m.iat == iat && m.exp == exp && m.jti == jti@ implies false by {
                    let vend = at + ",\"token_type\":"@.len() + kind_text(m.kind).len();
                    lemma_split(t@, at as int, ",\"token_type\":"@, kind_text(m.kind), "}"@);
                }
            }
            return None;
        },
    };
    proof {
        assert forall|m: ClaimsModel| #[trigger] rest_of(t@, at as int) == tail_kind(m) && m.sub == sub@ && m.email == email@ && m.role == role && m.iat == iat && m.exp == exp && m.jti == jti@ implies
            v == m.kind && vend == at + ",\"token_type\":"@.len() + kind_text(m.kind).len() by {
            let vend = at + ",\"token_type\":"@.len() + kind_text(m.kind).len();
            lemma_split(t@, at as int, ",\"token_type\":"@, kind_text(m.kind), "}"@);
        }
    }
    let r = read_close(t, vend, sub, email, role, iat, exp, jti, v);
    proof {
        if r is Some {
            lemma_join(t@, at as int, vstart as int, vend as int, ",\"token_type\":"@, t@.subrange(vstart as int, vend as int), rest_of(t@, vend as int));
        }
    }
    r
}

/// Reads the `jti` key and value at `at`, then the rest of the claims text.
fn read_jti_field(t: &[char], at: usize, sub: Vec<char>, email: Vec<char>, role: UserRoleDto, iat: i64, exp: i64) -> (r: Option<Claims>)
    requires
        at <= t@.len(),
    ensures
        r matches Some(c) ==> rest_of(t@, at as int) == tail_jti(c@) && c@.sub == sub@ && c@.email == email@ && c@.role == role && c@.iat == iat && c@.exp == exp,
        forall|m: ClaimsModel| #[trigger] rest_of(t@, at as int) == tail_jti(m) && m.sub == sub@ && m.email == email@ && m.role == role && m.iat == iat && m.exp == exp
            ==> (r matches Some(c) && c@ == m),
{
    proof {
        assert forall|m: ClaimsModel| #[trigger] rest_of(t@, at as int) == tail_jti(m) && m.sub == sub@ && m.email == email@ && m.role == role && m.iat == iat && m.exp == exp implies
            holds_at(t@, at as int, ",\"jti\":"@) && holds_at(t@, at + ",\"jti\":"@.len(), quoted(m.jti))
            && rest_of(t@, at + ",\"jti\":"@.len() + quoted(m.jti).len()) == tail_kind(m) by {
            lemma_split(t@, at as int, ",\"jti\":"@, quoted(m.jti), tail_kind(m));
        }
    }
    let vstart = match expect(t, at, ",\"jti\":") {
        Some(e) => e,
        None => return None,
    };
    let (v, vend) = match read_quoted(t, vstart) {
        Some(x) => x,
        None => {
            proof {
                assert forall|m: ClaimsModel| #[trigger] rest_of(t@, at as int) == tail_jti(m) && m.sub == sub@ && m.email == email@ && m.role == role && m.iat == iat && m.exp == exp implies false by {
                    let vend = at + ",\"jti\":"@.len() + quoted(m.jti).len();
                    lemma_split(t@, at as int, ",\"jti\":"@, quoted(m.jti), tail_kind(m));
                }
            }
            return None;
        },
    };
    proof {
        assert forall|m: ClaimsModel| #[trigger] rest_of(t@, at as int) == tail_jti(m) && m.sub == sub@ && m.email == email@ && m.role == role && m.iat == iat && m.exp == exp implies
            v@ == m.jti && vend == at + ",\"jti\":"@.len() + quoted(m.jti).len() by {
            let vend = at + ",\"jti\":"@.len() + quoted(m.jti).len();
            lemma_split(t@, at as int, ",\"jti\":"@, quoted(m.jti), tail_kind(m));
        }
    }
    let r = read_kind_field(t, vend, sub, email, role, iat, exp, v);
    proof {
        if r is Some {
            lemma_join(t@, at as int, vstart as int, vend as int, ",\"jti\":"@, t@.subrange(vstart as int, vend as int), rest_of(t@, vend as int));
        }
    }
    r
}

/// Reads the `exp` key and value at `at`, then the rest of the claims text.
fn read_exp_field(t: &[char], at: usize, sub: Vec<char>, email: Vec<char>, role: UserRoleDto, iat: i64) -> (r: Option<Claims>)
    requires
        at <= t@.len(),
    ensures
        r matches Some(c) ==> rest_of(t@, at as int) == tail_exp(c@) && c@.sub == sub@ && c@.email == email@ && c@.role == role && c@.iat == iat,
        forall|m: ClaimsModel| #[trigger] rest_of(t@, at as int) == tail_exp(m) && m.sub == sub@ && m.email == email@ && m.role == role && m.iat == iat
            ==> (r matches Some(c) && c@ == m),
{
    proof {
        assert forall|m: ClaimsModel| #[trigger] rest_of(t@, at as int) == tail_exp(m) && m.sub == sub@ && m.email == email@ && m.role == role && m.iat == iat implies
            holds_at(t@, at as int, ",\"exp\":"@) && holds_at(t@, at + ",\"exp\":"@.len(), int_text(m.exp as int))
            && rest_of(t@, at + ",\"exp\":"@.len() + int_text(m.exp as int).len()) == tail_jti(m) by {
            lemma_split(t@, at as int, ",\"exp\":"@, int_text(m.exp as int), tail_jti(m));
        }
    }
    let vstart = match expect(t, at, ",\"exp\":") {
        Some(e) => e,
        None => return None,
    };
    let (v, vend) = match read_int(t, vstart) {
        Some(x) => x,
        None => {
            proof {
                assert forall|m: ClaimsModel| #[trigger] rest_of(t@, at as int) == tail_exp(m) && m.sub == sub@ && m.email == email@ && m.role == role && m.iat == iat implies false by {
                    let vend = at + ",\"exp\":"@.len() + int_text(m.exp as int).len();
                    lemma_split(t@, at as int, ",\"exp\":"@, int_text(m.exp as int), tail_jti(m));
            reveal_strlit(",\"jti\":");
            assert(t@[vend as int] == rest_of(t@, vend as int)[0]);
            assert(int_at(t@, at + ",\"exp\":"@.len(), m.exp));
                }
            }
            return None;
        },
    };
    proof {
        assert forall|m: ClaimsModel| #[trigger] rest_of(t@, at as int) == tail_exp(m) && m.sub == sub@ && m.email == email@ && m.role == role && m.iat == iat implies
            v == m.exp && vend == at + ",\"exp\":"@.len() + int_text(m.exp as int).len() by {
            let vend = at + ",\"exp\":"@.len() + int_text(m.exp as int).len();
            lemma_split(t@, at as int, ",\"exp\":"@, int_text(m.exp as int), tail_jti(m));
            reveal_strlit(",\"jti\":");
            assert(t@[vend as int] == rest_of(t@, vend as int)[0]);
            assert(int_at(t@, at + ",\"exp\":"@.len(), m.exp));
        }
    }
    let r = read_jti_field(t, vend, sub, email, role, iat, v);
    proof {
        if r is Some {
            lemma_join(t@, at as int, vstart as int, vend as int, ",\"exp\":"@, t@.subrange(vstart as int, vend as int), rest_of(t@, vend as int));
        }
    }
    r
}

/// Reads the `iat` key and value at `at`, then the rest of the claims text.
fn read_iat_field(t: &[char], at: usize, sub: Vec<char>, email: Vec<char>, role: UserRoleDto) -> (r: Option<Claims>)
    requires
        at <= t@.len(),
    ensures
        r matches Some(c) ==> rest_of(t@, at as int) == tail_iat(c@) && c@.sub == sub@ && c@.email == email@ && c@.role == role,
        forall|m: ClaimsModel| #[trigger] rest_of(t@, at as int) == tail_iat(m) && m.sub == sub@ && m.email == email@ && m.role == role
            ==> (r matches Some(c) && c@ == m),
{
    proof {
        assert forall|m: ClaimsModel| #[trigger] rest_of(t@, at as int) == tail_iat(m) && m.sub == sub@ && m.email == email@ && m.role == role implies
            holds_at(t@, at as int, ",\"iat\":"@) && holds_at(t@, at + ",\"iat\":"@.len(), int_text(m.iat as int))
            && rest_of(t@, at + ",\"iat\":"@.len() + int_text(m.iat as int).len()) == tail_exp(m) by {
            lemma_split(t@, at as int, ",\"iat\":"@, int_text(m.iat as int), tail_exp(m));
        }
    }
    let vstart = match expect(t, at, ",\"iat\":") {
        Some(e) => e,
        None => return None,
    };
    let (v, vend) = match read_int(t, vstart) {
        Some(x) => x,
        None => {
            proof {
                assert forall|m: ClaimsModel| #[trigger] rest_of(t@, at as int) == tail_iat(m) && m.sub == sub@ && m.email == email@ && m.role == role implies false by {
                    let vend = at + ",\"iat\":"@.len() + int_text(m.iat as int).len();
                    lemma_split(t@, at as int, ",\"iat\":"@, int_text(m.iat as int), tail_exp(m));
            reveal_strlit(",\"exp\":");
            assert(t@[vend as int] == rest_of(t@, vend as int)[0]);
            assert(int_at(t@, at + ",\"iat\":"@.len(), m.iat));
                }
            }
            return None;
        },
    };
    proof {
        assert forall|m: ClaimsModel| #[trigger] rest_of(t@, at as int) == tail_iat(m) && m.sub == sub@ && m.email == email@ && m.role == role implies
            v == m.iat && vend == at + ",\"iat\":"@.len() + int_text(m.iat as int).len() by {
            let vend = at + ",\"iat\":"@.len() + int_text(m.iat as int).len();
            lemma_split(t@, at as int, ",\"iat\":"@, int_text(m.iat as int), tail_exp(m));
            reveal_strlit(",\"exp\":");
            assert(t@[vend as int] == rest_of(t@, vend as int)[0]);
            assert(int_at(t@, at + ",\"iat\":"@.len(), m.iat));
        }
    }
    let r = read_exp_field(t, vend, sub, email, role, v);
    proof {
        if r is Some {
            lemma_join(t@, at as int, vstart as int, vend as int, ",\"iat\":"@, t@.subrange(vstart as int, vend as int), rest_of(t@, vend as int));
        }
    }
    r
}

/// Reads the `role` key and value at `at`, then the rest of the claims text.
fn read_role_field(t: &[char], at: usize, sub: Vec<char>, email: Vec<char>) -> (r: Option<Claims>)
    requires
        at <= t@.len(),
    ensures
        r matches Some(c) ==> rest_of(t@, at as int) == tail_role(c@) && c@.sub == sub@ && c@.email == email@,
        forall|m: ClaimsModel| #[trigger] rest_of(t@, at as int) == tail_role(m) && m.sub == sub@ && m.email == email@
            ==> (r matches Some(c) && c@ == m),
{
    proof {
        assert forall|m: ClaimsModel| #[trigger] rest_of(t@, at as int) == tail_role(m) && m.sub == sub@ && m.email == email@ implies
            holds_at(t@, at as int, ",\"role\":"@) && holds_at(t@, at + ",\"role\":"@.len(), role_text(m.role))
            && rest_of(t@, at + ",\"role\":"@.len() + role_text(m.role).len()) == tail_iat(m) by {
            lemma_split(t@, at as int, ",\"role\":"@, role_text(m.role), tail_iat(m));
        }
    }
    let vstart = match expect(t, at, ",\"role\":") {
        Some(e) => e,
        None => return None,
    };
    let (v, vend) = match read_role(t, vstart) {
        Some(x) => x,
        None => {
            proof {
                assert forall|m: ClaimsModel| #[trigger] rest_of(t@, at as int) == tail_role(m) && m.sub == sub@ && m.email == email@ implies false by {
                    let vend = at + ",\"role\":"@.len() + role_text(m.role).len();
                    lemma_split(t@, at as int, ",\"role\":"@, role_text(m.role), tail_iat(m));
                }
            }
            return None;
        },
    };
    proof {
        assert forall|m: ClaimsModel| #[trigger] rest_of(t@, at as int) == tail_role(m) && m.sub == sub@ && m.email == email@ implies
            v == m.role && vend == at + ",\"role\":"@.len() + role_text(m.role).len() by {
            let vend = at + ",\"role\":"@.len() + role_text(m.role).len();
            lemma_split(t@, at as int, ",\"role\":"@, role_text(m.role), tail_iat(m));
        }
    }
    let r = read_iat_field(t, vend, sub, email, v);
    proof {
        if r is Some {
            lemma_join(t@, at as int, vstart as int, vend as int, ",\"role\":"@, t@.subrange(vstart as int, vend as int), rest_of(t@, vend as int));
        }
    }
    r
}

/// Reads the `email` key and value at `at`, then the rest of the claims text.
fn read_email_field(t: &[char], at: usize, sub: Vec<char>) -> (r: Option<Claims>)
    requires
        at <= t@.len(),
    ensures
        r matches Some(c) ==> rest_of(t@, at as int) == tail_email(c@) && c@.sub == sub@,
        forall|m: ClaimsModel| #[trigger] rest_of(t@, at as int) == tail_email(m) && m.sub == sub@
            ==> (r matches Some(c) && c@ == m),
{
    proof {
        assert forall|m: ClaimsModel| #[trigger] rest_of(t@, at as int) == tail_email(m) && m.sub == sub@ implies
            holds_at(t@, at as int, ",\"email\":"@) && holds_at(t@, at + ",\"email\":"@.len(), quoted(m.email))
            && rest_of(t@, at + ",\"email\":"@.len() + quoted(m.email).len()) == tail_role(m) by {
            lemma_split(t@, at as int, ",\"email\":"@, quoted(m.email), tail_role(m));
        }
    }
    let vstart = match expect(t, at, ",\"email\":") {
        Some(e) => e,
        None => return None,
    };
    let (v, vend) = match read_quoted(t, vstart) {
        Some(x) => x,
        None => {
            proof {
                assert forall|m: ClaimsModel| #[trigger] rest_of(t@, at as int) == tail_email(m) && m.sub == sub@ implies false by {
                    let vend = at + ",\"email\":"@.len() + quoted(m.email).len();
                    lemma_split(t@, at as int, ",\"email\":"@, quoted(m.email), tail_role(m));
                }
            }
            return None;
        },
    };
    proof {
        assert forall|m: ClaimsModel| #[trigger] rest_of(t@, at as int) == tail_email(m) && m.sub == sub@ implies
            v@ == m.email && vend == at + ",\"email\":"@.len() + quoted(m.email).len() by {
            let vend = at + ",\"email\":"@.len() + quoted(m.email).len();
            lemma_split(t@, at as int, ",\"email\":"@, quoted(m.email), tail_role(m));
        }
    }
    let r = read_role_field(t, vend, sub, v);
    proof {
        if r is Some {
            lemma_join(t@, at as int, vstart as int, vend as int, ",\"email\":"@, t@.subrange(vstart as int, vend as int), rest_of(t@, vend as int));
        }
    }
    r
}

/// Reads the `sub` key and value at `at`, then the rest of the claims text.
fn read_sub_field(t: &[char], at: usize) -> (r: Option<Claims>)
    requires
        at <= t@.len(),
    ensures
        r matches Some(c) ==> rest_of(t@, at as int) == claims_text(c@),
        forall|m: ClaimsModel| #[trigger] rest_of(t@, at as int) == claims_text(m) && true
            ==> (r matches Some(c) && c@ == m),
{
    proof {
        assert forall|m: ClaimsModel| #[trigger] rest_of(t@, at as int) == claims_text(m) && true implies
            holds_at(t@, at as int, "{\"sub\":"@) && holds_at(t@, at + "{\"sub\":"@.len(), quoted(m.sub))
            && rest_of(t@, at + "{\"sub\":"@.len() + quoted(m.sub).len()) == tail_email(m) by {
            lemma_split(t@, at as int, "{\"sub\":"@, quoted(m.sub), tail_email(m));
        }
    }
    let vstart = match expect(t, at, "{\"sub\":") {
        Some(e) => e,
        None => return None,
    };
    let (v, vend) = match read_quoted(t, vstart) {
        Some(x) => x,
        None => {
            proof {
                assert forall|m: ClaimsModel| #[trigger] rest_of(t@, at as int) == claims_text(m) && true implies false by {
                    let vend = at + "{\"sub\":"@.len() + quoted(m.sub).len();
                    lemma_split(t@, at as int, "{\"sub\":"@, quoted(m.sub), tail_email(m));
                }
            }
            return None;
        },
    };
    proof {
        assert forall|m: ClaimsModel| #[trigger] rest_of(t@, at as int) == claims_text(m) && true implies
            v@ == m.sub && vend == at + "{\"sub\":"@.len() + quoted(m.sub).len() by {
            let vend = at + "{\"sub\":"@.len() + quoted(m.sub).len();
            lemma_split(t@, at as int, "{\"sub\":"@, quoted(m.sub), tail_email(m));
        }
    }
    let r = read_email_field(t, vend, v);
    proof {
        if r is Some {
            lemma_join(t@, at as int, vstart as int, vend as int, "{\"sub\":"@, t@.subrange(vstart as int, vend as int), rest_of(t@, vend as int));
        }
    }
    r
}

impl Claims {
    /// Reads claims from their canonical JSON text; any other text is
    /// refused.
    pub fn from_text(text: &str) -> (r: Option<Claims>)
        ensures
            r matches Some(c) ==> claims_text(c@) == text@,
            forall|m: ClaimsModel| #[trigger] claims_text(m) == text@ ==> (r matches Some(c) && c@ == m),
    {
        let tv = chars_of(text);
        let r = read_sub_field(tv.as_slice(), 0);
        proof {
            assert(rest_of(tv@, 0) =~= tv@);
            assert forall|m: ClaimsModel| #[trigger] claims_text(m) == text@ implies (r matches Some(c) && c@ == m) by {
                assert(rest_of(tv@, 0) == claims_text(m));
            }
        }
        r
    }
}

} // verus!
