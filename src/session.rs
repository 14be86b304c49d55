//! Connected clients: how a connection's role is derived from its handshake,
//! and the registry of sessions that broadcasts are sent to.
use crate::text::{chars_of, push_char};
use vstd::prelude::*;

verus! {

/// What a connection may be; derived once, at connect time.
#[derive(Clone, Copy, Debug, PartialEq, Eq, Structural)]
pub enum Role {
    Admin,
    Player,
}

/// The parts of `s` between the separators, in order; an empty text has one
/// empty part.
pub open spec fn split_parts(s: Seq<char>, sep: char) -> Seq<Seq<char>>
    decreases s.len(),
{
    if s.len() == 0 {
        seq![Seq::empty()]
    } else {
        let prev = split_parts(s.drop_last(), sep);
        if s.last() == sep {
            prev.push(Seq::empty())
        } else {
            prev.update(prev.len() - 1, prev.last().push(s.last()))
        }
    }
}

/// The value of a `key=value` part for the given key: what follows the first
/// `=` of a part whose text before it is the key.
pub open spec fn param_value(part: Seq<char>, key: Seq<char>) -> Option<Seq<char>> {
    if !key.contains('=') && part.len() > key.len() && part.take(key.len() as int) == key
        && part[key.len() as int] == '=' {
        Some(part.skip(key.len() as int + 1))
    } else {
        None
    }
}

/// The value, still encoded, of the last part of a query that sets the key.
pub open spec fn last_param(parts: Seq<Seq<char>>, key: Seq<char>) -> Option<Seq<char>>
    decreases parts.len(),
{
    if parts.len() == 0 {
        None
    } else {
        match param_value(parts.last(), key) {
            Some(v) => Some(v),
            None => last_param(parts.drop_last(), key),
        }
    }
}

/// What percent-decoding the text gives, `None` where the decoded bytes are
/// not UTF-8.
pub uninterp spec fn percent_decoded(s: Seq<char>) -> Option<Seq<char>>;

/// Relies on `urlencoding::decode`: it depends on the text alone, and a text
/// without `%` decodes to itself.
#[verifier::external_body]
fn url_decode(s: &str) -> (r: Option<String>)
    ensures
        r is Some <==> percent_decoded(s@) is Some,
        r matches Some(v) ==> percent_decoded(s@) == Some(v@),
        r is Some && r->0@ == s@ <== !s@.contains('%'),
{
    urlencoding::decode(s).ok().map(|v| v.into_owned())
}

/// The decoded value, or the empty text where decoding fails.
pub open spec fn decoded_or_empty(raw: Seq<char>) -> Seq<char> {
    match percent_decoded(raw) {
        Some(v) => v,
        None => Seq::empty(),
    }
}

fn string_of(cs: &[char]) -> (r: String)
    ensures
        r@ == cs@,
{
    let mut s = String::new();
    let mut i: usize = 0;
    while i < cs.len()
        invariant
            i <= cs@.len(),
            s@ == cs@.take(i as int),
        decreases cs@.len() - i,
    {
        push_char(&mut s, cs[i]);
        i = i + 1;
        assert(s@ =~= cs@.take(i as int));
    }
    assert(cs@.take(cs@.len() as int) =~= cs@);
    s
}

fn split_chars(cs: &Vec<char>, sep: char) -> (r: Vec<Vec<char>>)
    ensures
        r@.map_values(|p: Vec<char>| p@) == split_parts(cs@, sep),
{
    let mut done: Vec<Vec<char>> = Vec::new();
    let mut cur: Vec<char> = Vec::new();
    let mut i: usize = 0;
    assert(cs@.take(0) =~= Seq::<char>::empty());
    while i < cs.len()
        invariant
            i <= cs@.len(),
            split_parts(cs@.take(i as int), sep) == done@.map_values(|p: Vec<char>| p@).push(cur@),
        decreases cs@.len() - i,
    {
        let c = cs[i];
        assert(cs@.take(i + 1).drop_last() =~= cs@.take(i as int));
        let ghost before = done@.map_values(|p: Vec<char>| p@);
        if c == sep {
            done.push(cur);
            cur = Vec::new();
            assert(done@.map_values(|p: Vec<char>| p@) =~= before.push(
                done@[done@.len() - 1]@,
            ));
        } else {
            cur.push(c);
            assert(split_parts(cs@.take(i + 1), sep) =~= done@.map_values(|p: Vec<char>| p@).push(
                cur@,
            ));
        }
        i = i + 1;
    }
    assert(cs@.take(cs@.len() as int) =~= cs@);
    done.push(cur);
    assert(done@.map_values(|p: Vec<char>| p@) =~= split_parts(cs@, sep));
    done
}

fn part_value(part: &Vec<char>, key: &Vec<char>, key_has_eq: bool) -> (r: Option<Vec<char>>)
    requires
        key_has_eq == key@.contains('='),
    ensures
        r matches Some(v) ==> param_value(part@, key@) == Some(v@),
        r is None ==> param_value(part@, key@) is None,
{
    if key_has_eq || part.len() <= key.len() {
        return None;
    }
    let mut i: usize = 0;
    while i < key.len()
        invariant
            key@.len() < part@.len(),
            i <= key@.len(),
            forall|j: int| 0 <= j < i ==> part@[j] == key@[j],
        decreases key@.len() - i,
    {
        if part[i] != key[i] {
            assert(part@.take(key@.len() as int)[i as int] != key@[i as int]);
            return None;
        }
        i = i + 1;
    }
    assert(part@.take(key@.len() as int) =~= key@);
    if part[key.len()] != '=' {
        return None;
    }
    let mut v: Vec<char> = Vec::new();
    let mut j: usize = key.len() + 1;
    while j < part.len()
        invariant
            key@.len() + 1 <= j <= part@.len(),
            v@ == part@.subrange(key@.len() as int + 1, j as int),
        decreases part@.len() - j,
    {
        v.push(part[j]);
        j = j + 1;
        assert(v@ =~= part@.subrange(key@.len() as int + 1, j as int));
    }
    assert(v@ =~= part@.skip(key@.len() as int + 1));
    Some(v)
}

/// The still-encoded value of the last `key=value` part of a query string,
/// parts being separated by `&`.
pub fn raw_query_param(query: &str, key: &str) -> (r: Option<String>)
    ensures
        match last_param(split_parts(query@, '&'), key@) {
            Some(v) => r matches Some(s) && s@ == v,
            None => r is None,
        },
{
    let qs = chars_of(query);
    let ks = chars_of(key);
    let mut key_has_eq = false;
    let mut i: usize = 0;
    while i < ks.len()
        invariant
            i <= ks@.len(),
            ks@ == key@,
            key_has_eq == exists|j: int| 0 <= j < i && ks@[j] == '=',
        decreases ks@.len() - i,
    {
        if ks[i] == '=' {
            key_has_eq = true;
        }
        i = i + 1;
    }
    let parts = split_chars(&qs, '&');
    let ghost pv = parts@.map_values(|p: Vec<char>| p@);
    let mut found: Option<Vec<char>> = None;
    let mut k: usize = 0;
    assert(pv.take(0) =~= Seq::<Seq<char>>::empty());
    while k < parts.len()
        invariant
            k <= parts@.len(),
            pv == parts@.map_values(|p: Vec<char>| p@),
            pv == split_parts(query@, '&'),
            ks@ == key@,
            key_has_eq == key@.contains('='),
            match last_param(pv.take(k as int), key@) {
                Some(v) => found matches Some(f) && f@ == v,
                None => found is None,
            },
        decreases parts@.len() - k,
    {
        assert(pv.take(k + 1).drop_last() =~= pv.take(k as int));
        assert(pv.take(k + 1).last() == parts@[k as int]@);
        match part_value(&parts[k], &ks, key_has_eq) {
            Some(v) => {
                found = Some(v);
            },
            None => {},
        }
        k = k + 1;
    }
    assert(pv.take(parts@.len() as int) =~= pv);
    match found {
        Some(f) => Some(string_of(f.as_slice())),
        None => None,
    }
}

/// The decoded value of the last `key=value` part of a query string; a value
/// that does not decode to UTF-8 reads as empty.
pub fn query_param(query: &str, key: &str) -> (r: Option<String>)
    ensures
        match last_param(split_parts(query@, '&'), key@) {
            Some(v) => r matches Some(s) && s@ == decoded_or_empty(v),
            None => r is None,
        },
{
    match raw_query_param(query, key) {
        Some(raw) => match url_decode(raw.as_str()) {
            Some(v) => Some(v),
            None => Some(String::new()),
        },
        None => None,
    }
}

/// The role of a connection that presented `token`: admin exactly when it
/// equals the server's secret.
pub fn role_for_token(token: Option<&str>, admin_token: &str) -> (r: Role)
    ensures
        r == (if token matches Some(t) && t@ == admin_token@ {
            Role::Admin
        } else {
            Role::Player
        }),
{
    match token {
        Some(t) => {
            let a = t.to_owned();
            let b = admin_token.to_owned();
            if a == b {
                Role::Admin
            } else {
                Role::Player
            }
        },
        None => Role::Player,
    }
}

/// The role of a connection from its handshake query string: its decoded
/// `auth` parameter is compared with the server's secret.
pub fn role_for_query(query: Option<&str>, admin_token: &str) -> (r: Role)
    ensures
        r == (if query matches Some(q) && last_param(split_parts(q@, '&'), "auth"@) matches Some(v)
            && decoded_or_empty(v) == admin_token@ {
            Role::Admin
        } else {
            Role::Player
        }),
{
    match query {
        Some(q) => {
            let token = query_param(q, "auth");
            match token {
                Some(t) => role_for_token(Some(t.as_str()), admin_token),
                None => role_for_token(None, admin_token),
            }
        },
        None => role_for_token(None, admin_token),
    }
}

/// One connected client: its identity, its role and the channel that its
/// outbound messages are queued on.
#[derive(Debug)]
pub struct Session<C> {
    pub id: u64,
    pub role: Role,
    pub outbound: C,
}

/// Whether any session has the identity.
pub open spec fn has_session<C>(s: Seq<Session<C>>, id: u64) -> bool {
    exists|i: int| 0 <= i < s.len() && #[trigger] s[i].id == id
}

/// No two sessions share an identity.
pub open spec fn ids_unique<C>(s: Seq<Session<C>>) -> bool {
    forall|i: int, j: int| 0 <= i < j < s.len() ==> #[trigger] s[i].id != #[trigger] s[j].id
}

/// The positions, in order, of the sessions that a broadcast reaches: all of
/// them, or all but the excluded identity.
pub open spec fn broadcast_positions<C>(s: Seq<Session<C>>, except: Option<u64>) -> Seq<usize>
    decreases s.len(),
{
    if s.len() == 0 {
        Seq::empty()
    } else {
        let prev = broadcast_positions(s.drop_last(), except);
        if except == Some(s.last().id) {
            prev
        } else {
            prev.push((s.len() - 1) as usize)
        }
    }
}

/// The connected clients, each under its own identity.
#[derive(Debug)]
pub struct SessionRegistry<C> {
    sessions: Vec<Session<C>>,
}

impl<C> View for SessionRegistry<C> {
    type V = Seq<Session<C>>;

    closed spec fn view(&self) -> Seq<Session<C>> {
        self.sessions@
    }
}

impl<C> SessionRegistry<C> {
    pub open spec fn wf(&self) -> bool {
        ids_unique(self@)
    }

    pub fn new() -> (r: SessionRegistry<C>)
        ensures
            r@ == Seq::<Session<C>>::empty(),
            r.wf(),
    {
        SessionRegistry { sessions: Vec::new() }
    }

    /// Registers a session; one already under the same identity is replaced.
    pub fn register(&mut self, id: u64, role: Role, outbound: C)
        requires
            old(self).wf(),
        ensures
            final(self).wf(),
            has_session(final(self)@, id),
            has_session(old(self)@, id) ==> final(self)@.len() == old(self)@.len() && forall|i: int|
                0 <= i < old(self)@.len() ==> #[trigger] final(self)@[i] == if old(self)@[i].id == id {
                    Session { id, role, outbound }
                } else {
                    old(self)@[i]
                },
            !has_session(old(self)@, id) ==> final(self)@ == old(self)@.push(
                Session { id, role, outbound },
            ),
    {
        let mut i: usize = 0;
        while i < self.sessions.len()
            invariant
                i <= self@.len(),
                self@ == old(self)@,
                ids_unique(self@),
                forall|j: int| 0 <= j < i ==> #[trigger] self@[j].id != id,
            decreases self@.len() - i,
        {
            if self.sessions[i].id == id {
                let ghost before = self@;
                self.sessions.set(i, Session { id, role, outbound });
                assert forall|j: int| 0 <= j < before.len() implies #[trigger] self@[j].id
                    == before[j].id by {}
                assert forall|j: int| 0 <= j < before.len() implies #[trigger] self@[j] == if before[j].id
                    == id {
                    Session { id, role, outbound }
                } else {
                    before[j]
                } by {
                    if j != i && before[j].id == id {
                        if j < i {
                            assert(before[j].id != before[i as int].id);
                        } else {
                            assert(before[i as int].id != before[j].id);
                        }
                    }
                }
                assert(self@[i as int].id == id);
                return;
            }
            i = i + 1;
        }
        let ghost before = self@;
        self.sessions.push(Session { id, role, outbound });
        assert(self@[before.len() as int].id == id);
        assert forall|a: int, b: int| 0 <= a < b < self@.len() implies #[trigger] self@[a].id
            != #[trigger] self@[b].id by {
            if b == before.len() {
                assert(before[a].id != id);
            } else {
                assert(before[a].id != before[b].id);
            }
        }
    }

    /// Removes the session with the identity and hands it back; `None`, and no
    /// change, where there is none. Afterwards no session has the identity.
    pub fn remove(&mut self, id: u64) -> (r: Option<Session<C>>)
        requires
            old(self).wf(),
        ensures
            final(self).wf(),
            !has_session(final(self)@, id),
            has_session(old(self)@, id) ==> exists|i: int|
                0 <= i < old(self)@.len() && old(self)@[i].id == id && r == Some(#[trigger] old(self)@[i])
                    && final(self)@ == old(self)@.remove(i),
            !has_session(old(self)@, id) ==> r is None && final(self)@ == old(self)@,
    {
        let mut i: usize = 0;
        while i < self.sessions.len()
            invariant
                i <= self@.len(),
                self@ == old(self)@,
                ids_unique(self@),
                forall|j: int| 0 <= j < i ==> #[trigger] self@[j].id != id,
            decreases self@.len() - i,
        {
            if self.sessions[i].id == id {
                let ghost before = self@;
                let s = self.sessions.remove(i);
                assert(before[i as int].id == id);
                assert forall|a: int, b: int| 0 <= a < b < self@.len() implies #[trigger] self@[a].id
                    != #[trigger] self@[b].id by {
                    let a2 = if a < i { a } else { a + 1 };
                    let b2 = if b < i { b } else { b + 1 };
                    assert(before[a2].id != before[b2].id);
                }
                assert forall|j: int| 0 <= j < self@.len() implies #[trigger] self@[j].id != id by {
                    let j2 = if j < i { j } else { j + 1 };
                    assert(before[j2].id != before[i as int].id);
                }
                return Some(s);
            }
            i = i + 1;
        }
        None
    }

    /// The number of sessions.
    pub fn len(&self) -> (r: usize)
        ensures
            r == self@.len(),
    {
        self.sessions.len()
    }

    /// The session at a position.
    pub fn session_at(&self, i: usize) -> (r: &Session<C>)
        requires
            i < self@.len(),
        ensures
            *r == self@[i as int],
    {
        &self.sessions[i]
    }

    /// The session with the identity, if any.
    pub fn get(&self, id: u64) -> (r: Option<&Session<C>>)
        ensures
            match r {
                Some(s) => s.id == id && exists|i: int| 0 <= i < self@.len() && #[trigger] self@[i] == *s,
                None => !has_session(self@, id),
            },
    {
        let mut i: usize = 0;
        while i < self.sessions.len()
            invariant
                i <= self@.len(),
                forall|j: int| 0 <= j < i ==> #[trigger] self@[j].id != id,
            decreases self@.len() - i,
        {
            if self.sessions[i].id == id {
                return Some(&self.sessions[i]);
            }
            i = i + 1;
        }
        None
    }

    /// The positions of the sessions that a broadcast reaches, in registry
    /// order: every session, or every one but the excluded identity.
    pub fn broadcast_targets(&self, except: Option<u64>) -> (r: Vec<usize>)
        ensures
            r@ == broadcast_positions(self@, except),
    {
        let mut r: Vec<usize> = Vec::new();
        let mut i: usize = 0;
        assert(self@.take(0) =~= Seq::<Session<C>>::empty());
        while i < self.sessions.len()
            invariant
                i <= self@.len(),
                r@ == broadcast_positions(self@.take(i as int), except),
            decreases self@.len() - i,
        {
            assert(self@.take(i + 1).drop_last() =~= self@.take(i as int));
            if except != Some(self.sessions[i].id) {
                r.push(i);
            }
            i = i + 1;
        }
        assert(self@.take(self@.len() as int) =~= self@);
        r
    }
}

} // verus!
