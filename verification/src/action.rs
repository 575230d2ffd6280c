//! Actions returned by the agent in ACK frames: set or unset a variable in
//! one of HAProxy's scopes.

use vstd::prelude::*;
use crate::data::{self, Typed, TypedV};
use crate::wire;

verus! {

/// Wire tags of the action variants.
#[derive(Clone, Copy, Debug, PartialEq, Eq, Structural)]
pub enum Type {
    /// Set the value of a variable; three arguments follow.
    SetVar,
    /// Unset a variable; two arguments follow.
    UnsetVar,
}

pub open spec fn action_type_code(t: Type) -> u8 {
    match t {
        Type::SetVar => 1,
        Type::UnsetVar => 2,
    }
}

impl Type {
    pub fn code(self) -> (r: u8)
        ensures
            r == action_type_code(self),
    {
        match self {
            Type::SetVar => 1,
            Type::UnsetVar => 2,
        }
    }
}

/// The scope a variable lives in.
#[derive(Clone, Copy, Debug, PartialEq, Eq, Structural)]
pub enum Scope {
    Process,
    Session,
    Transaction,
    Request,
    Response,
}

pub open spec fn scope_code(s: Scope) -> u8 {
    match s {
        Scope::Process => 0,
        Scope::Session => 1,
        Scope::Transaction => 2,
        Scope::Request => 3,
        Scope::Response => 4,
    }
}

impl Scope {
    /// The byte this scope is sent as.
    pub fn code(self) -> (r: u8)
        ensures
            r == scope_code(self),
    {
        match self {
            Scope::Process => 0,
            Scope::Session => 1,
            Scope::Transaction => 2,
            Scope::Request => 3,
            Scope::Response => 4,
        }
    }

    /// The scope a byte denotes, if any.
    pub fn from_code(b: u8) -> (r: Option<Scope>)
        ensures
            match r {
                Some(s) => scope_code(s) == b,
                None => b > 4,
            },
    {
        match b {
            0 => Some(Scope::Process),
            1 => Some(Scope::Session),
            2 => Some(Scope::Transaction),
            3 => Some(Scope::Request),
            4 => Some(Scope::Response),
            _ => None,
        }
    }
}

/// A variable mutation applied to the stream being processed.
#[derive(Clone, Debug, PartialEq, Eq)]
pub enum Action {
    /// Set the value of a variable.
    SetVar { scope: Scope, name: String, value: Typed },
    /// Unset a variable.
    UnsetVar { scope: Scope, name: String },
}

/// The mathematical model of an action.
pub enum ActionV {
    SetVar { scope: Scope, name: Seq<char>, value: TypedV },
    UnsetVar { scope: Scope, name: Seq<char> },
}

impl View for Action {
    type V = ActionV;

    open spec fn view(&self) -> ActionV {
        match self {
            Action::SetVar { scope, name, value } => ActionV::SetVar {
                scope: *scope,
                name: name@,
                value: value@,
            },
            Action::UnsetVar { scope, name } => ActionV::UnsetVar { scope: *scope, name: name@ },
        }
    }
}

impl Action {
    /// Builds a set-variable action.
    pub fn set_var(scope: Scope, name: String, value: Typed) -> (r: Action)
        ensures
            r@ == (ActionV::SetVar { scope, name: name@, value: value@ }),
    {
        Action::SetVar { scope, name, value }
    }

    /// Builds an unset-variable action.
    pub fn unset_var(scope: Scope, name: String) -> (r: Action)
        ensures
            r@ == (ActionV::UnsetVar { scope, name: name@ }),
    {
        Action::UnsetVar { scope, name }
    }

    /// Number of bytes of the action's wire form.
    pub fn size(&self) -> (r: usize)
        requires
            action_enc(self@).len() <= usize::MAX,
        ensures
            r == action_enc(self@).len(),
    {
        match self {
            Action::SetVar { scope: _, name, value } => {
                let bytes = vstd::string::StrSliceExecFns::as_bytes_vec(name.as_str());
                3 + crate::varint::size_of(bytes.len() as u64) + bytes.len() + value.size()
            },
            Action::UnsetVar { scope: _, name } => {
                let bytes = vstd::string::StrSliceExecFns::as_bytes_vec(name.as_str());
                3 + crate::varint::size_of(bytes.len() as u64) + bytes.len()
            },
        }
    }
}

/// Wire form of an action: its type tag, its argument count, then the
/// arguments.
pub open spec fn action_enc(a: ActionV) -> Seq<u8> {
    match a {
        ActionV::SetVar { scope, name, value } => seq![1u8, 3u8, scope_code(scope)]
            + wire::str_enc(name) + data::typed_enc(value),
        ActionV::UnsetVar { scope, name } => seq![2u8, 2u8, scope_code(scope)] + wire::str_enc(
            name,
        ),
    }
}

/// The action at the front of `b` and the bytes it occupies.
pub open spec fn action_dec(b: Seq<u8>) -> Option<(ActionV, int)> {
    if b.len() < 3 {
        None
    } else if b[0] == 1 && b[1] == 3 && b[2] <= 4 {
        let scope = spec_scope_of(b[2]);
        match wire::str_dec(b.skip(3)) {
            Some(sk) => match data::typed_dec(b.skip(3 + sk.1)) {
                Some(tk) => Some(
                    (ActionV::SetVar { scope, name: sk.0, value: tk.0 }, 3 + sk.1 + tk.1),
                ),
                None => None,
            },
            None => None,
        }
    } else if b[0] == 2 && b[1] == 2 && b[2] <= 4 {
        let scope = spec_scope_of(b[2]);
        match wire::str_dec(b.skip(3)) {
            Some(sk) => Some((ActionV::UnsetVar { scope, name: sk.0 }, 3 + sk.1)),
            None => None,
        }
    } else {
        None
    }
}

pub open spec fn spec_scope_of(b: u8) -> Scope
    recommends
        b <= 4,
{
    if b == 0 {
        Scope::Process
    } else if b == 1 {
        Scope::Session
    } else if b == 2 {
        Scope::Transaction
    } else if b == 3 {
        Scope::Request
    } else {
        Scope::Response
    }
}

pub open spec fn action_valid(a: ActionV) -> bool {
    match a {
        ActionV::SetVar { scope, name, value } => vstd::utf8::encode_utf8(name).len() <= u64::MAX
            && data::typed_valid(value),
        ActionV::UnsetVar { scope, name } => vstd::utf8::encode_utf8(name).len() <= u64::MAX,
    }
}

pub proof fn lemma_action_round_trip(a: ActionV, rest: Seq<u8>)
    requires
        action_valid(a),
    ensures
        action_dec(action_enc(a) + rest) == Some((a, action_enc(a).len() as int)),
        action_enc(a).len() >= 3,
{
    let b = action_enc(a) + rest;
    match a {
        ActionV::SetVar { scope, name, value } => {
            assert(b[0] == 1 && b[1] == 3 && b[2] == scope_code(scope));
            assert(spec_scope_of(scope_code(scope)) == scope);
            wire::lemma_str_round_trip(name, data::typed_enc(value) + rest);
            assert(b.skip(3) =~= wire::str_enc(name) + (data::typed_enc(value) + rest));
            data::lemma_typed_round_trip(value, rest);
            assert(b.skip(3 + wire::str_enc(name).len() as int) =~= data::typed_enc(value) + rest);
        },
        ActionV::UnsetVar { scope, name } => {
            assert(b[0] == 2 && b[1] == 2 && b[2] == scope_code(scope));
            assert(spec_scope_of(scope_code(scope)) == scope);
            wire::lemma_str_round_trip(name, rest);
            assert(b.skip(3) =~= wire::str_enc(name) + rest);
        },
    }
}

/// Wire form of a whole action list, one action after another.
pub open spec fn actions_enc(actions: Seq<ActionV>) -> Seq<u8>
    decreases actions.len(),
{
    if actions.len() == 0 {
        Seq::empty()
    } else {
        action_enc(actions[0]) + actions_enc(actions.skip(1))
    }
}

/// The actions that fill `b` exactly.
pub open spec fn actions_dec(b: Seq<u8>) -> Option<Seq<ActionV>>
    decreases b.len(),
{
    if b.len() == 0 {
        Some(Seq::empty())
    } else {
        match action_dec(b) {
            Some(ak) => {
                if 0 < ak.1 <= b.len() {
                    match actions_dec(b.skip(ak.1)) {
                        Some(rest) => Some(seq![ak.0] + rest),
                        None => None,
                    }
                } else {
                    None
                }
            },
            None => None,
        }
    }
}

pub open spec fn actions_valid(actions: Seq<ActionV>) -> bool {
    forall|i: int| 0 <= i < actions.len() ==> action_valid(#[trigger] actions[i])
}

pub proof fn lemma_actions_round_trip(actions: Seq<ActionV>)
    requires
        actions_valid(actions),
    ensures
        actions_dec(actions_enc(actions)) == Some(actions),
    decreases actions.len(),
{
    if actions.len() == 0 {
        assert(actions =~= Seq::<ActionV>::empty());
    } else {
        assert(actions_valid(actions.skip(1))) by {
            assert(forall|i: int|
                0 <= i < actions.skip(1).len() ==> actions.skip(1)[i] == #[trigger] actions[i
                    + 1]);
        }
        lemma_actions_round_trip(actions.skip(1));
        let rest = actions_enc(actions.skip(1));
        lemma_action_round_trip(actions[0], rest);
        let b = actions_enc(actions);
        let k = action_enc(actions[0]).len() as int;
        assert(b.skip(k) =~= rest);
        assert(seq![actions[0]] + actions.skip(1) =~= actions);
    }
}

/// View of an executable action list.
pub open spec fn actions_view(actions: Seq<Action>) -> Seq<ActionV> {
    actions.map(|i: int, a: Action| a@)
}

/// Appends one action's wire form to `out`.
pub fn put_action(out: &mut Vec<u8>, a: &Action)
    ensures
        final(out)@ == old(out)@ + action_enc(a@),
{
    match a {
        Action::SetVar { scope, name, value } => {
            out.push(1);
            out.push(3);
            out.push(scope.code());
            wire::put_str(out, name.as_str());
            data::put_typed(out, value);
        },
        Action::UnsetVar { scope, name } => {
            out.push(2);
            out.push(2);
            out.push(scope.code());
            wire::put_str(out, name.as_str());
        },
    }
    assert(final(out)@ =~= old(out)@ + action_enc(a@));
}

/// Reads the action at `pos`; returns it and the position just after it.
pub fn get_action(buf: &Vec<u8>, pos: usize) -> (r: Option<(Action, usize)>)
    requires
        pos <= buf.len(),
    ensures
        match r {
            Some(ak) => {
                &&& action_dec(buf@.skip(pos as int)) matches Some(s) && s.0 == ak.0@ && s.1 + pos
                    == ak.1
                &&& pos < ak.1 <= buf.len()
            },
            None => action_dec(buf@.skip(pos as int)) is None,
        },
{
    if buf.len() - pos < 3 {
        return None;
    }
    let t = buf[pos];
    let nb = buf[pos + 1];
    let sc = buf[pos + 2];
    let ghost b = buf@.skip(pos as int);
    assert(b[0] == t && b[1] == nb && b[2] == sc);
    assert(b.skip(3) =~= buf@.skip(pos + 3));
    if t == 1 && nb == 3 && sc <= 4 {
        let scope = match Scope::from_code(sc) {
            Some(s) => s,
            None => {
                return None;
            },
        };
        assert(scope == spec_scope_of(sc));
        match wire::get_str(buf, pos + 3) {
            None => None,
            Some((name, mid)) => {
                assert(b.skip(3 + (mid - pos - 3)) =~= buf@.skip(mid as int));
                match data::get_typed(buf, mid) {
                    None => None,
                    Some((value, end)) => Some((Action::SetVar { scope, name, value }, end)),
                }
            },
        }
    } else if t == 2 && nb == 2 && sc <= 4 {
        let scope = match Scope::from_code(sc) {
            Some(s) => s,
            None => {
                return None;
            },
        };
        assert(scope == spec_scope_of(sc));
        match wire::get_str(buf, pos + 3) {
            None => None,
            Some((name, end)) => Some((Action::UnsetVar { scope, name }, end)),
        }
    } else {
        None
    }
}

/// Appends a whole action list.
pub fn put_actions(out: &mut Vec<u8>, actions: &Vec<Action>)
    ensures
        final(out)@ == old(out)@ + actions_enc(actions_view(actions@)),
{
    let mut i: usize = 0;
    while i < actions.len()
        invariant
            i <= actions.len(),
            out@ == old(out)@ + actions_enc(actions_view(actions@.take(i as int))),
        decreases actions.len() - i,
    {
        put_action(out, &actions[i]);
        proof {
            lemma_actions_enc_snoc(actions_view(actions@.take(i as int)), actions@[i as int]@);
            assert(actions_view(actions@.take(i + 1)) =~= actions_view(actions@.take(i as int)).push(
                actions@[i as int]@,
            ));
        }
        i = i + 1;
    }
    assert(actions@.take(actions@.len() as int) =~= actions@);
}

proof fn lemma_actions_enc_snoc(actions: Seq<ActionV>, a: ActionV)
    ensures
        actions_enc(actions.push(a)) == actions_enc(actions) + action_enc(a),
    decreases actions.len(),
{
    if actions.len() == 0 {
        assert(actions.push(a)[0] == a);
        assert(actions.push(a).skip(1) =~= Seq::<ActionV>::empty());
        assert(actions_enc(Seq::<ActionV>::empty()) =~= Seq::<u8>::empty());
        assert(actions_enc(actions.push(a)) =~= action_enc(a));
        assert(actions_enc(actions) + action_enc(a) =~= action_enc(a));
    } else {
        lemma_actions_enc_snoc(actions.skip(1), a);
        assert(actions.push(a).skip(1) =~= actions.skip(1).push(a));
        assert(actions.push(a)[0] == actions[0]);
        assert(action_enc(actions[0]) + (actions_enc(actions.skip(1)) + action_enc(a))
            =~= (action_enc(actions[0]) + actions_enc(actions.skip(1))) + action_enc(a));
    }
}

/// Reads actions from `pos` to the end of the buffer.
pub fn get_actions(buf: &Vec<u8>, pos: usize) -> (r: Option<Vec<Action>>)
    requires
        pos <= buf.len(),
    ensures
        match r {
            Some(actions) => actions_dec(buf@.skip(pos as int)) == Some(actions_view(actions@)),
            None => actions_dec(buf@.skip(pos as int)) is None,
        },
{
    let mut out: Vec<Action> = Vec::new();
    let mut at = pos;
    proof {
        if actions_dec(buf@.skip(pos as int)) is Some {
            assert(actions_view(out@) + actions_dec(buf@.skip(pos as int)).unwrap()
                =~= actions_dec(buf@.skip(pos as int)).unwrap());
        }
    }
    while at < buf.len()
        invariant
            pos <= at <= buf.len(),
            actions_dec(buf@.skip(pos as int)) == match actions_dec(buf@.skip(at as int)) {
                Some(rest) => Some(actions_view(out@) + rest),
                None => None::<Seq<ActionV>>,
            },
        decreases buf.len() - at,
    {
        let ghost remain = buf@.skip(at as int);
        match get_action(buf, at) {
            None => {
                return None;
            },
            Some((a, end)) => {
                proof {
                    assert(remain.skip(end - at) =~= buf@.skip(end as int));
                    let ghost av = a@;
                    if actions_dec(buf@.skip(end as int)) is Some {
                        let rest = actions_dec(buf@.skip(end as int)).unwrap();
                        assert(actions_dec(remain) == Some(seq![av] + rest));
                        assert(actions_view(out@) + (seq![av] + rest) =~= actions_view(
                            out@.push(a),
                        ) + rest);
                    } else {
                        assert(actions_dec(remain) is None);
                    }
                }
                out.push(a);
                at = end;
            },
        }
    }
    proof {
        assert(buf@.skip(buf@.len() as int) =~= Seq::<u8>::empty());
        assert(actions_view(out@) + Seq::<ActionV>::empty() =~= actions_view(out@));
    }
    Some(out)
}

} // verus!
