//! The client implementations that a node can run.

use vstd::prelude::*;
use vstd::string::*;
use crate::text::eq_ignoring_case;
use crate::text::lowercase;
use crate::text::same_ignoring_case;

verus! {

/// A running client. Nothing is asked of it yet.
pub trait Client {

}

/// The supported client implementations.
#[derive(Clone, Copy, Debug, PartialEq, Eq, Structural)]
pub enum ClientKind {
    Ream,
    Zeam,
    Qlean,
    Lantern,
    Lighthouse,
    Grandine,
    Ethrex,
}

impl ClientKind {
    /// The canonical text of a kind: its name in small letters.
    pub open spec fn name(self) -> Seq<char> {
        match self {
            ClientKind::Ream => "ream"@,
            ClientKind::Zeam => "zeam"@,
            ClientKind::Qlean => "qlean"@,
            ClientKind::Lantern => "lantern"@,
            ClientKind::Lighthouse => "lighthouse"@,
            ClientKind::Grandine => "grandine"@,
            ClientKind::Ethrex => "ethrex"@,
        }
    }

    /// The kind that a text names, the case of its letters left aside.
    pub open spec fn named_by(text: Seq<char>) -> Option<ClientKind> {
        if same_ignoring_case(text, ClientKind::Ream.name()) {
            Some(ClientKind::Ream)
        } else if same_ignoring_case(text, ClientKind::Zeam.name()) {
            Some(ClientKind::Zeam)
        } else if same_ignoring_case(text, ClientKind::Qlean.name()) {
            Some(ClientKind::Qlean)
        } else if same_ignoring_case(text, ClientKind::Lantern.name()) {
            Some(ClientKind::Lantern)
        } else if same_ignoring_case(text, ClientKind::Lighthouse.name()) {
            Some(ClientKind::Lighthouse)
        } else if same_ignoring_case(text, ClientKind::Grandine.name()) {
            Some(ClientKind::Grandine)
        } else if same_ignoring_case(text, ClientKind::Ethrex.name()) {
            Some(ClientKind::Ethrex)
        } else {
            None
        }
    }

    /// The canonical text of the kind.
    pub fn as_str(&self) -> (r: &'static str)
        ensures
            r@ == self.name(),
    {
        match self {
            ClientKind::Ream => "ream",
            ClientKind::Zeam => "zeam",
            ClientKind::Qlean => "qlean",
            ClientKind::Lantern => "lantern",
            ClientKind::Lighthouse => "lighthouse",
            ClientKind::Grandine => "grandine",
            ClientKind::Ethrex => "ethrex",
        }
    }

    /// The canonical text of the kind, owned.
    pub fn to_string(&self) -> (r: String)
        ensures
            r@ == self.name(),
    {
        self.as_str().to_owned()
    }

    /// Reads a kind from its text, in any case of letters. Text that names no
    /// kind gives `None`.
    pub fn parse(text: &str) -> (r: Option<ClientKind>)
        ensures
            r == ClientKind::named_by(text@),
    {
        if eq_ignoring_case(text, ClientKind::Ream.as_str()) {
            Some(ClientKind::Ream)
        } else if eq_ignoring_case(text, ClientKind::Zeam.as_str()) {
            Some(ClientKind::Zeam)
        } else if eq_ignoring_case(text, ClientKind::Qlean.as_str()) {
            Some(ClientKind::Qlean)
        } else if eq_ignoring_case(text, ClientKind::Lantern.as_str()) {
            Some(ClientKind::Lantern)
        } else if eq_ignoring_case(text, ClientKind::Lighthouse.as_str()) {
            Some(ClientKind::Lighthouse)
        } else if eq_ignoring_case(text, ClientKind::Grandine.as_str()) {
            Some(ClientKind::Grandine)
        } else if eq_ignoring_case(text, ClientKind::Ethrex.as_str()) {
            Some(ClientKind::Ethrex)
        } else {
            None
        }
    }
}

/// Every kind is read back from its own canonical text.
pub proof fn lemma_name_is_parsed_back(kind: ClientKind)
    ensures
        ClientKind::named_by(kind.name()) == Some(kind),
{
    reveal_strlit("ream");
    reveal_strlit("zeam");
    reveal_strlit("qlean");
    reveal_strlit("lantern");
    reveal_strlit("lighthouse");
    reveal_strlit("grandine");
    reveal_strlit("ethrex");
    let text = kind.name();
    if kind != ClientKind::Ream {
        assert(lowercase(text) != lowercase(ClientKind::Ream.name())) by {
            if text.len() == 4 {
                assert(text[0] == 'z');
                assert(ClientKind::Ream.name()[0] == 'r');
                assert(lowercase(text)[0] == 'z');
                assert(lowercase(ClientKind::Ream.name())[0] == 'r');
            } else {
                assert(lowercase(text).len() != lowercase(ClientKind::Ream.name()).len());
            }
        }
    }
    if kind != ClientKind::Zeam && kind != ClientKind::Ream {
        assert(lowercase(text).len() != lowercase(ClientKind::Zeam.name()).len());
    }
    if kind == ClientKind::Lantern || kind == ClientKind::Lighthouse || kind == ClientKind::Grandine
        || kind == ClientKind::Ethrex {
        assert(lowercase(text).len() != lowercase(ClientKind::Qlean.name()).len());
    }
    if kind == ClientKind::Lighthouse || kind == ClientKind::Grandine || kind == ClientKind::Ethrex {
        assert(lowercase(text).len() != lowercase(ClientKind::Lantern.name()).len());
    }
    if kind == ClientKind::Grandine || kind == ClientKind::Ethrex {
        assert(lowercase(text).len() != lowercase(ClientKind::Lighthouse.name()).len());
    }
    if kind == ClientKind::Ethrex {
        assert(lowercase(text).len() != lowercase(ClientKind::Grandine.name()).len());
    }
}

} // verus!
