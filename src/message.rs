use vstd::prelude::*;

verus! {

/// Network address of a connection's remote endpoint.
#[derive(Clone, Copy, Debug, PartialEq, Eq, Structural, Hash)]
pub enum IpAddress {
    V4(u8, u8, u8, u8),
    V6(u16, u16, u16, u16, u16, u16, u16, u16),
}

/// Identity of a connection: its remote address and port. Used both as a
/// routing target and as the sender tag of the messages it posts.
#[derive(Clone, Copy, Debug, PartialEq, Eq, Structural, Hash)]
pub struct ConnId {
    pub ip: IpAddress,
    pub port: u16,
}

/// Which connections a message is meant for.
#[derive(Clone, Copy, Debug, PartialEq, Eq, Structural)]
pub enum ScopeKind {
    /// Every connection.
    All,
    /// Every connection not listed in the message's except set.
    Except,
    /// Only the connections listed in the message's only set.
    Only,
}

/// One broadcast message. Once posted it is never changed.
#[derive(Clone, Debug)]
pub struct Message {
    pub text: String,
    pub sender: ConnId,
    pub scope: ScopeKind,
    pub except_ids: Option<Vec<ConnId>>,
    pub include_ids: Option<Vec<ConnId>>,
}

/// The text that asks a connection to shut its own actors down.
pub open spec fn sentinel() -> Seq<char> {
    seq!['c', 'l', 'o', 's', 'e']
}

/// Whether the scope of `m` selects connection `id`. A scope whose set is
/// missing selects nobody.
pub open spec fn delivers(m: Message, id: ConnId) -> bool {
    match m.scope {
        ScopeKind::All => true,
        ScopeKind::Except => match m.except_ids {
            Some(s) => !s@.contains(id),
            None => false,
        },
        ScopeKind::Only => match m.include_ids {
            Some(s) => s@.contains(id),
            None => false,
        },
    }
}

/// Whether `m` is the sentinel posted by connection `id` itself.
pub open spec fn is_own_sentinel(m: Message, id: ConnId) -> bool {
    m.text@ == sentinel() && m.sender == id
}

/// Whether `ids` lists `id`.
pub fn lists(ids: &Vec<ConnId>, id: ConnId) -> (r: bool)
    ensures
        r == ids@.contains(id),
{
    let mut i: usize = 0;
    while i < ids.len()
        invariant
            i <= ids@.len(),
            forall|k: int| 0 <= k < i ==> ids@[k] != id,
        decreases ids@.len() - i,
    {
        if ids[i] == id {
            return true;
        }
        i = i + 1;
    }
    false
}

/// Whether `text` is exactly the sentinel.
pub fn is_sentinel(text: &String) -> (r: bool)
    ensures
        r == (text@ == sentinel()),
{
    let close = String::from_str("close");
    proof {
        reveal_strlit("close");
    }
    assert(close@ =~= sentinel());
    *text == close
}

impl Message {
    /// A message with scope `All`, as an inbound actor posts it.
    pub fn to_all(text: String, sender: ConnId) -> (r: Message)
        ensures
            r.text@ == text@,
            r.sender == sender,
            r.scope == ScopeKind::All,
            r.except_ids is None,
            r.include_ids is None,
    {
        Message { text, sender, scope: ScopeKind::All, except_ids: None, include_ids: None }
    }

    /// Whether this message's scope selects connection `id`.
    pub fn is_for(&self, id: ConnId) -> (r: bool)
        ensures
            r == delivers(*self, id),
    {
        match self.scope {
            ScopeKind::All => true,
            ScopeKind::Except => match &self.except_ids {
                Some(s) => !lists(s, id),
                None => false,
            },
            ScopeKind::Only => match &self.include_ids {
                Some(s) => lists(s, id),
                None => false,
            },
        }
    }

    /// Whether this message is the sentinel posted by connection `id`.
    pub fn is_own_sentinel(&self, id: ConnId) -> (r: bool)
        ensures
            r == is_own_sentinel(*self, id),
    {
        self.sender == id && is_sentinel(&self.text)
    }
}

} // verus!
