//! Access claims: the data embedded in the signed stateless access token,
//! the actor-type context payload, and their compact wire encoding. The
//! parser is proved to invert the serializer, which carries the token
//! round-trip property.

use vstd::prelude::*;

verus! {

use crate::codec::{
    ser_num, ser_str, parse_num, parse_str, lemma_parse_ser_num, lemma_parse_ser_str,
    push_num, push_str, parse_num_at, parse_str_at,
};

/// Actor-type-specific context payload carried in the token: at most one,
/// determined by the actor's profile in a fixed priority order.
pub enum ActorContext {
    Teacher { personnel_no: String, department_id: Option<u128>, class_ids: Vec<String> },
    Student { student_code: String, class_id: Option<u128> },
    Guardian { children: Vec<u128> },
}

/// Specification-level shape of `ActorContext`.
pub ghost enum ContextV {
    Teacher { personnel_no: Seq<char>, department_id: Option<u128>, class_ids: Seq<Seq<char>> },
    Student { student_code: Seq<char>, class_id: Option<u128> },
    Guardian { children: Seq<u128> },
}

impl View for ActorContext {
    type V = ContextV;

    open spec fn view(&self) -> ContextV {
        match self {
            ActorContext::Teacher { personnel_no, department_id, class_ids } => ContextV::Teacher {
                personnel_no: personnel_no@,
                department_id: *department_id,
                class_ids: class_ids.deep_view(),
            },
            ActorContext::Student { student_code, class_id } => ContextV::Student {
                student_code: student_code@,
                class_id: *class_id,
            },
            ActorContext::Guardian { children } => ContextV::Guardian { children: children@ },
        }
    }
}

/// Claims embedded in the signed access token, never persisted: subject
/// actor, tenant, role codes, permission codes, optional context, and the
/// issued-at / expiry pair. Expiry is always issued-at plus fifteen minutes.
pub struct Claims {
    pub sub: u128,
    pub tenant: u128,
    pub roles: Vec<String>,
    pub perms: Vec<String>,
    pub ctx: Option<ActorContext>,
    pub exp: i64,
    pub iat: i64,
}

/// Specification-level shape of `Claims`.
pub ghost struct ClaimsV {
    pub sub: u128,
    pub tenant: u128,
    pub roles: Seq<Seq<char>>,
    pub perms: Seq<Seq<char>>,
    pub ctx: Option<ContextV>,
    pub exp: i64,
    pub iat: i64,
}

impl View for Claims {
    type V = ClaimsV;

    open spec fn view(&self) -> ClaimsV {
        ClaimsV {
            sub: self.sub,
            tenant: self.tenant,
            roles: self.roles.deep_view(),
            perms: self.perms.deep_view(),
            ctx: match self.ctx {
                Some(c) => Some(c@),
                None => None,
            },
            exp: self.exp,
            iat: self.iat,
        }
    }
}

/// Access tokens live for fifteen minutes; callers may not override this.
pub open spec fn access_token_lifetime() -> int {
    900
}

impl Claims {
    /// Builds the claims for a fresh token: expiry is the issue time plus
    /// the fixed fifteen-minute lifetime.
    pub fn new(
        user_id: u128,
        tenant_id: u128,
        roles: Vec<String>,
        permissions: Vec<String>,
        context: Option<ActorContext>,
        now: i64,
    ) -> (r: Claims)
        requires
            0 <= now <= i64::MAX - access_token_lifetime(),
        ensures
            r.sub == user_id,
            r.tenant == tenant_id,
            r@.roles == roles.deep_view(),
            r@.perms == permissions.deep_view(),
            r@.ctx == (match context {
                Some(c) => Some(c@),
                None => None::<ContextV>,
            }),
            r.iat == now,
            r.exp == now + access_token_lifetime(),
    {
        Claims {
            sub: user_id,
            tenant: tenant_id,
            roles,
            perms: permissions,
            ctx: context,
            exp: now + 900,
            iat: now,
        }
    }
}

// ---------------------------------------------------------------------------
// Serialization specification.
// ---------------------------------------------------------------------------

pub open spec fn ser_opt_num(o: Option<u128>) -> Seq<char> {
    match o {
        None => seq!['0'],
        Some(n) => seq!['1'] + ser_num(n as nat),
    }
}

pub open spec fn ser_str_items(v: Seq<Seq<char>>) -> Seq<char>
    decreases v.len(),
{
    if v.len() == 0 {
        Seq::<char>::empty()
    } else {
        ser_str(v[0]) + ser_str_items(v.drop_first())
    }
}

pub open spec fn ser_str_list(v: Seq<Seq<char>>) -> Seq<char> {
    ser_num(v.len()) + ser_str_items(v)
}

pub open spec fn ser_num_items(v: Seq<u128>) -> Seq<char>
    decreases v.len(),
{
    if v.len() == 0 {
        Seq::<char>::empty()
    } else {
        ser_num(v[0] as nat) + ser_num_items(v.drop_first())
    }
}

pub open spec fn ser_num_list(v: Seq<u128>) -> Seq<char> {
    ser_num(v.len()) + ser_num_items(v)
}

pub open spec fn ser_ctx(o: Option<ContextV>) -> Seq<char> {
    match o {
        None => seq!['n'],
        Some(ContextV::Teacher { personnel_no, department_id, class_ids }) => seq!['t'] + ser_str(
            personnel_no,
        ) + ser_opt_num(department_id) + ser_str_list(class_ids),
        Some(ContextV::Student { student_code, class_id }) => seq!['s'] + ser_str(student_code)
            + ser_opt_num(class_id),
        Some(ContextV::Guardian { children }) => seq!['g'] + ser_num_list(children),
    }
}

/// The claims payload on the wire.
pub open spec fn ser_claims(c: ClaimsV) -> Seq<char> {
    ser_num(c.sub as nat) + ser_num(c.tenant as nat) + ser_num(c.iat as nat) + ser_num(
        c.exp as nat,
    ) + ser_str_list(c.roles) + ser_str_list(c.perms) + ser_ctx(c.ctx)
}

/// Validity of specification-level claims: timestamps are non-negative and
/// the containers are of representable size.
pub open spec fn wf_claims(c: ClaimsV) -> bool {
    &&& 0 <= c.iat
    &&& 0 <= c.exp
    &&& wf_str_list(c.roles)
    &&& wf_str_list(c.perms)
    &&& match c.ctx {
        None => true,
        Some(ContextV::Teacher { personnel_no, department_id, class_ids }) => personnel_no.len()
            <= u128::MAX && wf_str_list(class_ids),
        Some(ContextV::Student { student_code, class_id }) => student_code.len() <= u128::MAX,
        Some(ContextV::Guardian { children }) => children.len() <= u128::MAX,
    }
}

pub open spec fn wf_str_list(v: Seq<Seq<char>>) -> bool {
    &&& v.len() <= u128::MAX
    &&& forall|i: int| 0 <= i < v.len() ==> (#[trigger] v[i]).len() <= u128::MAX
}

// ---------------------------------------------------------------------------
// Parsing specification: each parser consumes from the front and yields the
// value and the remainder.
// ---------------------------------------------------------------------------

pub open spec fn parse_opt_num(s: Seq<char>) -> Option<(Option<u128>, Seq<char>)> {
    if s.len() == 0 {
        None
    } else if s[0] == '0' {
        Some((None, s.drop_first()))
    } else if s[0] == '1' {
        match parse_num(s.drop_first()) {
            Some((n, r)) => Some((Some(n as u128), r)),
            None => None,
        }
    } else {
        None
    }
}

pub open spec fn parse_str_items(s: Seq<char>, count: nat) -> Option<(Seq<Seq<char>>, Seq<char>)>
    decreases count,
{
    if count == 0 {
        Some((Seq::<Seq<char>>::empty(), s))
    } else {
        match parse_str(s) {
            None => None,
            Some((x, r)) => match parse_str_items(r, (count - 1) as nat) {
                None => None,
                Some((v, rr)) => Some((seq![x] + v, rr)),
            },
        }
    }
}

pub open spec fn parse_str_list(s: Seq<char>) -> Option<(Seq<Seq<char>>, Seq<char>)> {
    match parse_num(s) {
        None => None,
        Some((n, r)) => parse_str_items(r, n),
    }
}

pub open spec fn parse_num_items(s: Seq<char>, count: nat) -> Option<(Seq<u128>, Seq<char>)>
    decreases count,
{
    if count == 0 {
        Some((Seq::<u128>::empty(), s))
    } else {
        match parse_num(s) {
            None => None,
            Some((x, r)) => match parse_num_items(r, (count - 1) as nat) {
                None => None,
                Some((v, rr)) => Some((seq![x as u128] + v, rr)),
            },
        }
    }
}

pub open spec fn parse_num_list(s: Seq<char>) -> Option<(Seq<u128>, Seq<char>)> {
    match parse_num(s) {
        None => None,
        Some((n, r)) => parse_num_items(r, n),
    }
}

pub open spec fn parse_ctx(s: Seq<char>) -> Option<(Option<ContextV>, Seq<char>)> {
    if s.len() == 0 {
        None
    } else if s[0] == 'n' {
        Some((None, s.drop_first()))
    } else if s[0] == 't' {
        match parse_str(s.drop_first()) {
            None => None,
            Some((personnel_no, r1)) => match parse_opt_num(r1) {
                None => None,
                Some((department_id, r2)) => match parse_str_list(r2) {
                    None => None,
                    Some((class_ids, r3)) => Some(
                        (Some(ContextV::Teacher { personnel_no, department_id, class_ids }), r3),
                    ),
                },
            },
        }
    } else if s[0] == 's' {
        match parse_str(s.drop_first()) {
            None => None,
            Some((student_code, r1)) => match parse_opt_num(r1) {
                None => None,
                Some((class_id, r2)) => Some(
                    (Some(ContextV::Student { student_code, class_id }), r2),
                ),
            },
        }
    } else if s[0] == 'g' {
        match parse_num_list(s.drop_first()) {
            None => None,
            Some((children, r1)) => Some((Some(ContextV::Guardian { children }), r1)),
        }
    } else {
        None
    }
}

/// Parses a whole claims payload; the input must be consumed exactly.
pub open spec fn parse_claims_seq(s: Seq<char>) -> Option<ClaimsV> {
    match parse_num(s) {
        None => None,
        Some((sub, r1)) => match parse_num(r1) {
            None => None,
            Some((tenant, r2)) => match parse_num(r2) {
                None => None,
                Some((iat, r3)) => if iat > i64::MAX {
                    None
                } else {
                    match parse_num(r3) {
                        None => None,
                        Some((exp, r4)) => if exp > i64::MAX {
                            None
                        } else {
                            match parse_str_list(r4) {
                                None => None,
                                Some((roles, r5)) => match parse_str_list(r5) {
                                    None => None,
                                    Some((perms, r6)) => match parse_ctx(r6) {
                                        None => None,
                                        Some((ctx, r7)) => if r7.len() == 0 {
                                            Some(
                                                ClaimsV {
                                                    sub: sub as u128,
                                                    tenant: tenant as u128,
                                                    roles,
                                                    perms,
                                                    ctx,
                                                    exp: exp as i64,
                                                    iat: iat as i64,
                                                },
                                            )
                                        } else {
                                            None
                                        },
                                    },
                                },
                            }
                        },
                    }
                },
            },
        },
    }
}

// ---------------------------------------------------------------------------
// Round-trip lemmas.
// ---------------------------------------------------------------------------

pub proof fn lemma_parse_ser_opt_num(o: Option<u128>, rest: Seq<char>)
    ensures
        parse_opt_num(ser_opt_num(o) + rest) == Some((o, rest)),
{
    match o {
        None => {
            assert((ser_opt_num(o) + rest)[0] == '0');
            assert((ser_opt_num(o) + rest).drop_first() =~= rest);
        },
        Some(n) => {
            assert((ser_opt_num(o) + rest)[0] == '1');
            assert((ser_opt_num(o) + rest).drop_first() =~= ser_num(n as nat) + rest);
            lemma_parse_ser_num(n as nat, rest);
        },
    }
}

pub proof fn lemma_parse_ser_str_items(v: Seq<Seq<char>>, rest: Seq<char>)
    requires
        wf_str_list(v),
    ensures
        parse_str_items(ser_str_items(v) + rest, v.len()) == Some((v, rest)),
    decreases v.len(),
{
    if v.len() == 0 {
        assert(ser_str_items(v) + rest =~= rest);
    } else {
        lemma_parse_ser_str_items(v.drop_first(), rest);
        assert(ser_str_items(v) + rest =~= ser_str(v[0]) + (ser_str_items(v.drop_first()) + rest));
        lemma_parse_ser_str(v[0], ser_str_items(v.drop_first()) + rest);
        assert(seq![v[0]] + v.drop_first() =~= v);
    }
}

pub proof fn lemma_parse_ser_str_list(v: Seq<Seq<char>>, rest: Seq<char>)
    requires
        wf_str_list(v),
    ensures
        parse_str_list(ser_str_list(v) + rest) == Some((v, rest)),
{
    assert(ser_str_list(v) + rest =~= ser_num(v.len()) + (ser_str_items(v) + rest));
    lemma_parse_ser_num(v.len(), ser_str_items(v) + rest);
    lemma_parse_ser_str_items(v, rest);
}

pub proof fn lemma_parse_ser_num_items(v: Seq<u128>, rest: Seq<char>)
    ensures
        parse_num_items(ser_num_items(v) + rest, v.len()) == Some((v, rest)),
    decreases v.len(),
{
    if v.len() == 0 {
        assert(ser_num_items(v) + rest =~= rest);
    } else {
        lemma_parse_ser_num_items(v.drop_first(), rest);
        assert(ser_num_items(v) + rest =~= ser_num(v[0] as nat) + (ser_num_items(v.drop_first())
            + rest));
        lemma_parse_ser_num(v[0] as nat, ser_num_items(v.drop_first()) + rest);
        assert(seq![v[0]] + v.drop_first() =~= v);
    }
}

pub proof fn lemma_parse_ser_num_list(v: Seq<u128>, rest: Seq<char>)
    requires
        v.len() <= u128::MAX,
    ensures
        parse_num_list(ser_num_list(v) + rest) == Some((v, rest)),
{
    assert(ser_num_list(v) + rest =~= ser_num(v.len()) + (ser_num_items(v) + rest));
    lemma_parse_ser_num(v.len(), ser_num_items(v) + rest);
    lemma_parse_ser_num_items(v, rest);
}

pub proof fn lemma_parse_ser_ctx(o: Option<ContextV>, rest: Seq<char>)
    requires
        match o {
            None => true,
            Some(ContextV::Teacher { personnel_no, department_id, class_ids }) => personnel_no.len()
                <= u128::MAX && wf_str_list(class_ids),
            Some(ContextV::Student { student_code, class_id }) => student_code.len() <= u128::MAX,
            Some(ContextV::Guardian { children }) => children.len() <= u128::MAX,
        },
    ensures
        parse_ctx(ser_ctx(o) + rest) == Some((o, rest)),
{
    let s = ser_ctx(o) + rest;
    match o {
        None => {
            assert(s[0] == 'n');
            assert(s.drop_first() =~= rest);
        },
        Some(ContextV::Teacher { personnel_no, department_id, class_ids }) => {
            assert(s[0] == 't');
            let after_str = ser_opt_num(department_id) + (ser_str_list(class_ids) + rest);
            assert(s.drop_first() =~= ser_str(personnel_no) + after_str);
            lemma_parse_ser_str(personnel_no, after_str);
            lemma_parse_ser_opt_num(department_id, ser_str_list(class_ids) + rest);
            lemma_parse_ser_str_list(class_ids, rest);
        },
        Some(ContextV::Student { student_code, class_id }) => {
            assert(s[0] == 's');
            let after_str = ser_opt_num(class_id) + rest;
            assert(s.drop_first() =~= ser_str(student_code) + after_str);
            lemma_parse_ser_str(student_code, after_str);
            lemma_parse_ser_opt_num(class_id, rest);
        },
        Some(ContextV::Guardian { children }) => {
            assert(s[0] == 'g');
            assert(s.drop_first() =~= ser_num_list(children) + rest);
            lemma_parse_ser_num_list(children, rest);
        },
    }
}

// ---------------------------------------------------------------------------
// Executable serialization.
// ---------------------------------------------------------------------------

fn push_opt_num(out: &mut String, o: &Option<u128>)
    ensures
        final(out)@ == old(out)@ + ser_opt_num(*o),
{
    match o {
        None => {
            out.push('0');
            assert(final(out)@ =~= old(out)@ + ser_opt_num(None::<u128>));
        },
        Some(n) => {
            out.push('1');
            push_num(out, *n);
            assert(final(out)@ =~= old(out)@ + ser_opt_num(Some(*n)));
        },
    }
}

fn push_str_items(out: &mut String, v: &Vec<String>, i: usize)
    requires
        i <= v.len(),
    ensures
        final(out)@ == old(out)@ + ser_str_items(v.deep_view().skip(i as int)),
    decreases v.len() - i,
{
    if i < v.len() {
        let ghost pre = out@;
        push_str(out, v[i].as_str());
        push_str_items(out, v, i + 1);
        proof {
            let dv = v.deep_view();
            assert(dv[i as int] == v@[i as int]@);
            assert(dv.skip(i as int).drop_first() =~= dv.skip(i as int + 1));
            assert(dv.skip(i as int)[0] == dv[i as int]);
            assert(final(out)@ =~= pre + ser_str_items(dv.skip(i as int)));
        }
    } else {
        assert(v.deep_view().skip(i as int) =~= Seq::<Seq<char>>::empty());
    }
}

fn push_str_list(out: &mut String, v: &Vec<String>)
    ensures
        final(out)@ == old(out)@ + ser_str_list(v.deep_view()),
{
    push_num(out, v.len() as u128);
    push_str_items(out, v, 0);
    proof {
        assert(v.deep_view().skip(0) =~= v.deep_view());
        assert(v.deep_view().len() == v@.len());
        assert(final(out)@ =~= old(out)@ + ser_str_list(v.deep_view()));
    }
}

fn push_num_items(out: &mut String, v: &Vec<u128>, i: usize)
    requires
        i <= v.len(),
    ensures
        final(out)@ == old(out)@ + ser_num_items(v@.skip(i as int)),
    decreases v.len() - i,
{
    if i < v.len() {
        let ghost pre = out@;
        push_num(out, v[i]);
        push_num_items(out, v, i + 1);
        proof {
            assert(v@.skip(i as int).drop_first() =~= v@.skip(i as int + 1));
            assert(v@.skip(i as int)[0] == v@[i as int]);
            assert(final(out)@ =~= pre + ser_num_items(v@.skip(i as int)));
        }
    } else {
        assert(v@.skip(i as int) =~= Seq::<u128>::empty());
    }
}

fn push_num_list(out: &mut String, v: &Vec<u128>)
    ensures
        final(out)@ == old(out)@ + ser_num_list(v@),
{
    push_num(out, v.len() as u128);
    push_num_items(out, v, 0);
    proof {
        assert(v@.skip(0) =~= v@);
        assert(final(out)@ =~= old(out)@ + ser_num_list(v@));
    }
}

fn push_ctx(out: &mut String, o: &Option<ActorContext>)
    ensures
        final(out)@ == old(out)@ + ser_ctx(match *o {
            Some(ref c) => Some(c@),
            None => None::<ContextV>,
        }),
{
    match o {
        None => {
            out.push('n');
            assert(final(out)@ =~= old(out)@ + ser_ctx(None::<ContextV>));
        },
        Some(ActorContext::Teacher { personnel_no, department_id, class_ids }) => {
            out.push('t');
            push_str(out, personnel_no.as_str());
            push_opt_num(out, department_id);
            push_str_list(out, class_ids);
            assert(final(out)@ =~= old(out)@ + ser_ctx(
                Some(
                    ContextV::Teacher {
                        personnel_no: personnel_no@,
                        department_id: *department_id,
                        class_ids: class_ids.deep_view(),
                    },
                ),
            ));
        },
        Some(ActorContext::Student { student_code, class_id }) => {
            out.push('s');
            push_str(out, student_code.as_str());
            push_opt_num(out, class_id);
            assert(final(out)@ =~= old(out)@ + ser_ctx(
                Some(ContextV::Student { student_code: student_code@, class_id: *class_id }),
            ));
        },
        Some(ActorContext::Guardian { children }) => {
            out.push('g');
            push_num_list(out, children);
            assert(final(out)@ =~= old(out)@ + ser_ctx(
                Some(ContextV::Guardian { children: children@ }),
            ));
        },
    }
}

/// Serializes claims to the compact payload that the token signs.
pub fn serialize_claims(c: &Claims) -> (r: String)
    requires
        0 <= c.iat,
        0 <= c.exp,
    ensures
        r@ == ser_claims(c@),
{
    let mut out = String::new();
    push_num(&mut out, c.sub);
    push_num(&mut out, c.tenant);
    push_num(&mut out, c.iat as u128);
    push_num(&mut out, c.exp as u128);
    push_str_list(&mut out, &c.roles);
    push_str_list(&mut out, &c.perms);
    push_ctx(&mut out, &c.ctx);
    proof {
        assert(out@ =~= ser_claims(c@));
    }
    out
}

// ---------------------------------------------------------------------------
// Executable parsing.
// ---------------------------------------------------------------------------

fn parse_opt_num_at(s: &str, i: usize) -> (r: Option<(Option<u128>, usize)>)
    requires
        i <= s@.len(),
    ensures
        match r {
            Some((v, j)) => {
                &&& i <= j <= s@.len()
                &&& parse_opt_num(s@.skip(i as int)) == Some((v, s@.skip(j as int)))
            },
            None => parse_opt_num(s@.skip(i as int)) is None,
        },
{
    let len = s.unicode_len();
    if i == len {
        return None;
    }
    let c = s.get_char(i);
    proof {
        assert(s@.skip(i as int)[0] == s@[i as int]);
        assert(s@.skip(i as int).drop_first() =~= s@.skip(i as int + 1));
    }
    if c == '0' {
        Some((None, i + 1))
    } else if c == '1' {
        match parse_num_at(s, i + 1) {
            Some((n, j)) => Some((Some(n), j)),
            None => None,
        }
    } else {
        None
    }
}

fn parse_str_items_at(s: &str, i: usize, count: u128) -> (r: Option<(Vec<String>, usize)>)
    requires
        i <= s@.len(),
    ensures
        match r {
            Some((v, j)) => {
                &&& i <= j <= s@.len()
                &&& parse_str_items(s@.skip(i as int), count as nat) == Some(
                    (v.deep_view(), s@.skip(j as int)),
                )
            },
            None => parse_str_items(s@.skip(i as int), count as nat) is None,
        },
    decreases count,
{
    if count == 0 {
        let v: Vec<String> = Vec::new();
        assert(v.deep_view() =~= Seq::<Seq<char>>::empty());
        return Some((v, i));
    }
    match parse_str_at(s, i) {
        None => None,
        Some((x, j)) => match parse_str_items_at(s, j, count - 1) {
            None => None,
            Some((v, k)) => {
                let ghost tail = v.deep_view();
                let ghost xv = x@;
                let mut v = v;
                v.insert(0, x);
                proof {
                    assert(v.deep_view() =~= seq![xv] + tail);
                }
                Some((v, k))
            },
        },
    }
}

fn parse_str_list_at(s: &str, i: usize) -> (r: Option<(Vec<String>, usize)>)
    requires
        i <= s@.len(),
    ensures
        match r {
            Some((v, j)) => {
                &&& i <= j <= s@.len()
                &&& parse_str_list(s@.skip(i as int)) == Some((v.deep_view(), s@.skip(j as int)))
            },
            None => parse_str_list(s@.skip(i as int)) is None,
        },
{
    match parse_num_at(s, i) {
        None => None,
        Some((n, j)) => parse_str_items_at(s, j, n),
    }
}

fn parse_num_items_at(s: &str, i: usize, count: u128) -> (r: Option<(Vec<u128>, usize)>)
    requires
        i <= s@.len(),
    ensures
        match r {
            Some((v, j)) => {
                &&& i <= j <= s@.len()
                &&& parse_num_items(s@.skip(i as int), count as nat) == Some(
                    (v@, s@.skip(j as int)),
                )
            },
            None => parse_num_items(s@.skip(i as int), count as nat) is None,
        },
    decreases count,
{
    if count == 0 {
        let v: Vec<u128> = Vec::new();
        assert(v@ =~= Seq::<u128>::empty());
        return Some((v, i));
    }
    match parse_num_at(s, i) {
        None => None,
        Some((x, j)) => match parse_num_items_at(s, j, count - 1) {
            None => None,
            Some((v, k)) => {
                let ghost tail = v@;
                let mut v = v;
                v.insert(0, x);
                proof {
                    assert(v@ =~= seq![x] + tail);
                }
                Some((v, k))
            },
        },
    }
}

fn parse_num_list_at(s: &str, i: usize) -> (r: Option<(Vec<u128>, usize)>)
    requires
        i <= s@.len(),
    ensures
        match r {
            Some((v, j)) => {
                &&& i <= j <= s@.len()
                &&& parse_num_list(s@.skip(i as int)) == Some((v@, s@.skip(j as int)))
            },
            None => parse_num_list(s@.skip(i as int)) is None,
        },
{
    match parse_num_at(s, i) {
        None => None,
        Some((n, j)) => parse_num_items_at(s, j, n),
    }
}

fn parse_ctx_at(s: &str, i: usize) -> (r: Option<(Option<ActorContext>, usize)>)
    requires
        i <= s@.len(),
    ensures
        match r {
            Some((v, j)) => {
                &&& i <= j <= s@.len()
                &&& parse_ctx(s@.skip(i as int)) == Some(
                    (
                        match v {
                            Some(c) => Some(c@),
                            None => None::<ContextV>,
                        },
                        s@.skip(j as int),
                    ),
                )
            },
            None => parse_ctx(s@.skip(i as int)) is None,
        },
{
    let len = s.unicode_len();
    if i == len {
        return None;
    }
    let c = s.get_char(i);
    proof {
        assert(s@.skip(i as int)[0] == s@[i as int]);
        assert(s@.skip(i as int).drop_first() =~= s@.skip(i as int + 1));
    }
    if c == 'n' {
        Some((None, i + 1))
    } else if c == 't' {
        match parse_str_at(s, i + 1) {
            None => None,
            Some((personnel_no, j1)) => match parse_opt_num_at(s, j1) {
                None => None,
                Some((department_id, j2)) => match parse_str_list_at(s, j2) {
                    None => None,
                    Some((class_ids, j3)) => Some(
                        (
                            Some(
                                ActorContext::Teacher { personnel_no, department_id, class_ids },
                            ),
                            j3,
                        ),
                    ),
                },
            },
        }
    } else if c == 's' {
        match parse_str_at(s, i + 1) {
            None => None,
            Some((student_code, j1)) => match parse_opt_num_at(s, j1) {
                None => None,
                Some((class_id, j2)) => Some(
                    (Some(ActorContext::Student { student_code, class_id }), j2),
                ),
            },
        }
    } else if c == 'g' {
        match parse_num_list_at(s, i + 1) {
            None => None,
            Some((children, j1)) => Some((Some(ActorContext::Guardian { children }), j1)),
        }
    } else {
        None
    }
}

/// Parses a whole claims payload; the input must be consumed exactly.
pub fn parse_claims_str(s: &str) -> (r: Option<Claims>)
    ensures
        match r {
            Some(c) => parse_claims_seq(s@) == Some(c@),
            None => parse_claims_seq(s@) is None,
        },
{
    proof {
        assert(s@.skip(0) =~= s@);
    }
    let len = s.unicode_len();
    let sub = match parse_num_at(s, 0) {
        None => {
            return None;
        },
        Some(x) => x,
    };
    let tenant = match parse_num_at(s, sub.1) {
        None => {
            return None;
        },
        Some(x) => x,
    };
    let iat = match parse_num_at(s, tenant.1) {
        None => {
            return None;
        },
        Some(x) => x,
    };
    if iat.0 > i64::MAX as u128 {
        return None;
    }
    let exp = match parse_num_at(s, iat.1) {
        None => {
            return None;
        },
        Some(x) => x,
    };
    if exp.0 > i64::MAX as u128 {
        return None;
    }
    let roles = match parse_str_list_at(s, exp.1) {
        None => {
            return None;
        },
        Some(x) => x,
    };
    let perms = match parse_str_list_at(s, roles.1) {
        None => {
            return None;
        },
        Some(x) => x,
    };
    let ctx = match parse_ctx_at(s, perms.1) {
        None => {
            return None;
        },
        Some(x) => x,
    };
    if ctx.1 != len {
        return None;
    }
    Some(
        Claims {
            sub: sub.0,
            tenant: tenant.0,
            roles: roles.0,
            perms: perms.0,
            ctx: ctx.0,
            exp: exp.0 as i64,
            iat: iat.0 as i64,
        },
    )
}

/// Parsing inverts serialization for whole claims payloads.
#[verifier::rlimit(60)]
pub proof fn lemma_parse_ser_claims(c: ClaimsV)
    requires
        wf_claims(c),
    ensures
        parse_claims_seq(ser_claims(c)) == Some(c),
{
    let s = ser_claims(c);
    let t1 = ser_num(c.tenant as nat) + (ser_num(c.iat as nat) + (ser_num(c.exp as nat) + (
    ser_str_list(c.roles) + (ser_str_list(c.perms) + ser_ctx(c.ctx)))));
    assert(s =~= ser_num(c.sub as nat) + t1);
    lemma_parse_ser_num(c.sub as nat, t1);
    let t2 = ser_num(c.iat as nat) + (ser_num(c.exp as nat) + (ser_str_list(c.roles) + (
    ser_str_list(c.perms) + ser_ctx(c.ctx))));
    lemma_parse_ser_num(c.tenant as nat, t2);
    let t3 = ser_num(c.exp as nat) + (ser_str_list(c.roles) + (ser_str_list(c.perms) + ser_ctx(
        c.ctx,
    )));
    lemma_parse_ser_num(c.iat as nat, t3);
    let t4 = ser_str_list(c.roles) + (ser_str_list(c.perms) + ser_ctx(c.ctx));
    lemma_parse_ser_num(c.exp as nat, t4);
    let t5 = ser_str_list(c.perms) + ser_ctx(c.ctx);
    lemma_parse_ser_str_list(c.roles, t5);
    lemma_parse_ser_str_list(c.perms, ser_ctx(c.ctx));
    lemma_parse_ser_ctx(c.ctx, Seq::<char>::empty());
    assert(ser_ctx(c.ctx) + Seq::<char>::empty() =~= ser_ctx(c.ctx));
}

} // verus!
