//! Identity tokens, the sessions that issue them, and the registry that
//! holds a reading session to one target for each token.

use vstd::prelude::*;

use crate::error::Error;

verus! {

/// The identity token of a reference. A token is unique among the tokens
/// that one session has issued. It is not a stable name of the value it
/// refers to: another session may give the same value another token.
#[derive(Debug, Clone, Copy, PartialEq, Eq, Structural, Hash)]
pub struct Identity(pub u128);

/// Draws 128 random bits.
///
/// Calls `uuid::Uuid::new_v4`, which builds a version-4 UUID from the
/// operating system's random number generator, and reads the UUID out with
/// `uuid::Uuid::as_u128`. Nothing is claimed of the bits that come back: two
/// calls may give the same bits. (The UUID crate gives up, with a panic,
/// where the operating system cannot supply random bytes.)
#[verifier::external_body]
fn random_bits() -> u128 {
    uuid::Uuid::new_v4().as_u128()
}

/// Whether `token` is one of the tokens of the list.
fn among(tokens: &Vec<u128>, token: u128) -> (b: bool)
    ensures
        b == tokens@.contains(token),
{
    let mut i: usize = 0;
    while i < tokens.len()
        invariant
            i <= tokens.len(),
            forall|k: int| 0 <= k < i ==> tokens@[k] != token,
        decreases tokens.len() - i,
    {
        if tokens[i] == token {
            return true;
        }
        i += 1;
    }
    false
}

/// One traversal or reconstruction session: the identity tokens it has
/// issued, in the order of issue. No token is issued twice.
#[derive(Debug)]
pub struct Session {
    issued: Vec<u128>,
}

impl View for Session {
    type V = Seq<u128>;

    closed spec fn view(&self) -> Seq<u128> {
        self.issued@
    }
}

impl Session {
    #[verifier::type_invariant]
    spec fn well_formed(&self) -> bool {
        self.issued@.no_duplicates()
    }

    /// A session that has issued no token.
    pub fn new() -> (session: Session)
        ensures
            session@ == Seq::<u128>::empty(),
    {
        Session { issued: Vec::new() }
    }

    /// The number of tokens issued. The tokens of a session are distinct.
    pub fn issued(&self) -> (n: usize)
        ensures
            n == self@.len(),
            self@.no_duplicates(),
    {
        proof {
            use_type_invariant(self);
        }
        self.issued.len()
    }

    /// Whether this session has issued the token.
    pub fn holds(&self, token: Identity) -> (b: bool)
        ensures
            b == self@.contains(token.0),
    {
        among(&self.issued, token.0)
    }

    /// Issues the token with the bits `candidate`, unless this session has
    /// issued it before.
    pub fn issue(&mut self, candidate: u128) -> (r: Option<Identity>)
        ensures
            r is Some <==> !old(self)@.contains(candidate),
            r matches Some(id) ==> id == Identity(candidate) && final(self)@ == old(self)@.push(
                candidate,
            ),
            r is None ==> final(self)@ == old(self)@,
            final(self)@.contains(candidate),
    {
        proof {
            use_type_invariant(&*self);
        }
        if among(&self.issued, candidate) {
            None
        } else {
            self.push_token(candidate);
            assert(self@[self@.len() - 1] == candidate);
            Some(Identity(candidate))
        }
    }

    /// Puts a token that the session has not issued at the end of its list.
    fn push_token(&mut self, token: u128)
        requires
            !old(self)@.contains(token),
            old(self)@.no_duplicates(),
        ensures
            final(self)@ == old(self)@.push(token),
    {
        let ghost before = self.issued@;
        let mut taken = Session { issued: Vec::new() };
        core::mem::swap(self, &mut taken);
        let mut issued = taken.issued;
        issued.push(token);
        assert(issued@.no_duplicates()) by {
            assert forall|a: int, b: int| 0 <= a < issued@.len() && 0 <= b < issued@.len() && a
                != b implies issued@[a] != issued@[b] by {
                if a < before.len() && b < before.len() {
                } else if a < before.len() {
                    assert(before.contains(before[a]));
                } else if b < before.len() {
                    assert(before.contains(before[b]));
                }
            }
        }
        *self = Session { issued };
    }

    /// Issues a token that this session has not issued before, from random
    /// bits. It issues none, and the session stays as it was, in the case
    /// that the bits drawn are those of a token it has issued. A session
    /// that has issued no token has none to run into, so it always issues
    /// one.
    pub fn fresh(&mut self) -> (r: Option<Identity>)
        ensures
            old(self)@.len() == 0 ==> r is Some,
            r matches Some(id) ==> !old(self)@.contains(id.0) && final(self)@ == old(self)@.push(
                id.0,
            ),
            r is None ==> final(self)@ == old(self)@,
            r matches Some(id) ==> final(self)@.contains(id.0),
    {
        let candidate = random_bits();
        self.issue(candidate)
    }
}

/// One reference token of a stream, with the place of the value it refers to.
#[derive(Debug, Clone, Copy, PartialEq, Eq, Structural)]
pub struct Binding {
    pub token: u128,
    pub target: usize,
}

/// The target of the first binding of `token` in the list, if there is one.
pub open spec fn first_binding(bindings: Seq<Binding>, token: u128) -> Option<usize>
    decreases bindings.len(),
{
    if bindings.len() == 0 {
        None
    } else if bindings[0].token == token {
        Some(bindings[0].target)
    } else {
        first_binding(bindings.drop_first(), token)
    }
}

/// The reference tokens that one reconstruction session has met, each with
/// the place of its target. It holds the session to one target for each
/// token.
#[derive(Debug)]
pub struct Registry {
    bindings: Vec<Binding>,
}

impl View for Registry {
    type V = Seq<Binding>;

    closed spec fn view(&self) -> Seq<Binding> {
        self.bindings@
    }
}

impl Registry {
    /// A registry that has met no token.
    pub fn new() -> (registry: Registry)
        ensures
            registry@ == Seq::<Binding>::empty(),
    {
        Registry { bindings: Vec::new() }
    }

    /// The number of tokens met.
    pub fn len(&self) -> (n: usize)
        ensures
            n == self@.len(),
    {
        self.bindings.len()
    }

    /// The target that `token` is bound to, if the registry has met it.
    pub fn target_of(&self, token: u128) -> (r: Option<usize>)
        ensures
            r == first_binding(self@, token),
    {
        let mut i: usize = 0;
        assert(self.bindings@.skip(0) =~= self.bindings@);
        while i < self.bindings.len()
            invariant
                i <= self.bindings.len(),
                first_binding(self.bindings@, token) == first_binding(
                    self.bindings@.skip(i as int),
                    token,
                ),
            decreases self.bindings.len() - i,
        {
            let ghost rest = self.bindings@.skip(i as int);
            assert(rest[0] == self.bindings@[i as int]);
            assert(rest.drop_first() =~= self.bindings@.skip(i + 1));
            if self.bindings[i].token == token {
                return Some(self.bindings[i].target);
            }
            i += 1;
        }
        assert(self.bindings@.skip(i as int).len() == 0);
        None
    }

    /// Meets `token` with the target `target`.
    ///
    /// A token that the registry has not met is bound to the target, and the
    /// answer is `true`. A token that it has met with this target changes
    /// nothing, and the answer is `false`. A token that it has met with
    /// another target is an identity reuse violation, and nothing changes.
    pub fn resolve(&mut self, token: u128, target: usize) -> (r: Result<bool, Error>)
        ensures
            match first_binding(old(self)@, token) {
                None => r == Ok::<bool, Error>(true) && final(self)@ == old(self)@.push(
                    Binding { token, target },
                ),
                Some(t) => final(self)@ == old(self)@ && r == if t == target {
                    Ok::<bool, Error>(false)
                } else {
                    Err(Error::IdentityReuseViolation { token })
                },
            },
    {
        match self.target_of(token) {
            None => {
                self.bindings.push(Binding { token, target });
                Ok(true)
            },
            Some(t) => {
                if t == target {
                    Ok(false)
                } else {
                    Err(Error::IdentityReuseViolation { token })
                }
            },
        }
    }
}

} // verus!
