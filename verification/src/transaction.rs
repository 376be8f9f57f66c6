//! The generic payload container stored in blocks, and the capability every
//! payload type implements: a canonical text form (the input of the content
//! hash) and a constructor for the reward transaction that opens a block.

use vstd::prelude::*;
use vstd::string::StringExecFns;

use crate::canon::{append_field, dec_str, str_field, u64_to_dec};

verus! {

/// The transaction stored in a block of the blockchain. The payload is
/// immutable after construction, so it is held by value.
#[derive(Debug, Clone)]
pub struct Transaction<T> {
    /// The sender of the transaction.
    pub sender: String,
    /// The payload of the transaction.
    pub payload: T,
}

/// The capability required of every payload type: a canonical text form and
/// the reward ("genesis") transaction minted at the head of every block.
pub trait Transactional: Sized {
    /// The canonical text form of a payload value.
    spec fn canon_spec(&self) -> Seq<char>;

    /// Whether a transaction is the reward transaction that `genesis` mints
    /// for this miner address and reward.
    spec fn is_genesis(t: Transaction<Self>, miner_address: Seq<char>, reward: u32) -> bool;

    /// Renders the canonical text form of a payload.
    fn canon(&self) -> (r: String)
        ensures
            r@ == self.canon_spec(),
    ;

    /// Creates a new transaction with a sender and the specified payload.
    fn new(sender: String, payload: Self) -> (r: Transaction<Self>)
        ensures
            r.sender == sender,
            r.payload == payload,
    {
        Transaction { sender, payload }
    }

    /// Mints the reward transaction that opens a block.
    fn genesis(miner_address: String, reward: u32) -> (r: Transaction<Self>)
        ensures
            Self::is_genesis(r, miner_address@, reward),
    ;
}

/// The canonical text form of a transaction: the sender as a length-prefixed
/// field, then the payload's own canonical form.
pub open spec fn tx_canon<T: Transactional>(t: Transaction<T>) -> Seq<char> {
    "tx{"@ + str_field(t.sender@) + ";"@ + t.payload.canon_spec() + "}"@
}

impl<T: Transactional> Transaction<T> {
    /// Renders the canonical text form of a transaction.
    pub fn canon(&self) -> (r: String)
        ensures
            r@ == tx_canon(*self),
    {
        let mut s = String::from_str("tx{");
        append_field(&mut s, self.sender.as_str());
        s.append(";");
        let p = self.payload.canon();
        s.append(p.as_str());
        s.append("}");
        proof {
            assert(s@ =~= tx_canon(*self));
        }
        s
    }
}

/// The display rendering of a transaction: the sender and the payload's
/// canonical form, indented for display inside a block listing.
pub open spec fn tx_fmt<T: Transactional>(t: Transaction<T>) -> Seq<char> {
    "            Transaction: [\n                Sender:   "@ + t.sender@
        + "\n                Payload: [\n                    "@ + t.payload.canon_spec()
        + "\n                ]\n            ]\n"@
}

impl<T: Transactional> Transaction<T> {
    /// Formats a transaction with all information.
    pub fn fmt(&self) -> (r: String)
        ensures
            r@ == tx_fmt(*self),
    {
        let mut s = String::from_str("            Transaction: [\n                Sender:   ");
        s.append(self.sender.as_str());
        s.append("\n                Payload: [\n                    ");
        let p = self.payload.canon();
        s.append(p.as_str());
        s.append("\n                ]\n            ]\n");
        proof {
            assert(s@ =~= tx_fmt(*self));
        }
        s
    }
}

/// A payload for a cryptographic currency.
#[derive(Debug, Clone, PartialEq, Eq)]
pub struct CryptoPayload {
    /// The receiver of the transaction.
    pub receiver: String,
    /// The amount of coins.
    pub amount: u32,
}

/// A payload for a voting system.
#[derive(Debug, Clone, PartialEq, Eq)]
pub struct VotePayload {
    /// The voted party from the sender.
    pub vote: String,
}

/// A payload for a version control system.
#[derive(Debug, Clone, PartialEq, Eq)]
pub struct CodePayload {
    /// The name of the file.
    pub file_name: String,
    /// The content of the file.
    pub contents: String,
    /// The commit message.
    pub commit_message: String,
}

impl Transactional for CryptoPayload {
    open spec fn canon_spec(&self) -> Seq<char> {
        "crypto{"@ + str_field(self.receiver@) + ";"@ + dec_str(self.amount as nat) + "}"@
    }

    open spec fn is_genesis(t: Transaction<Self>, miner_address: Seq<char>, reward: u32) -> bool {
        &&& t.sender@ == "Root"@
        &&& t.payload.receiver@ == miner_address
        &&& t.payload.amount == reward
    }

    fn canon(&self) -> (r: String) {
        let mut s = String::from_str("crypto{");
        append_field(&mut s, self.receiver.as_str());
        s.append(";");
        let d = u64_to_dec(self.amount as u64);
        s.append(d.as_str());
        s.append("}");
        proof {
            assert(s@ =~= self.canon_spec());
        }
        s
    }

    fn genesis(miner_address: String, reward: u32) -> (r: Transaction<CryptoPayload>) {
        Transaction {
            sender: String::from_str("Root"),
            payload: CryptoPayload { receiver: miner_address, amount: reward },
        }
    }
}

impl Transactional for VotePayload {
    open spec fn canon_spec(&self) -> Seq<char> {
        "vote{"@ + str_field(self.vote@) + "}"@
    }

    open spec fn is_genesis(t: Transaction<Self>, miner_address: Seq<char>, reward: u32) -> bool {
        &&& t.sender@ == "Root"@
        &&& t.payload.vote@ == "Root"@
    }

    fn canon(&self) -> (r: String) {
        let mut s = String::from_str("vote{");
        append_field(&mut s, self.vote.as_str());
        s.append("}");
        proof {
            assert(s@ =~= self.canon_spec());
        }
        s
    }

    fn genesis(miner_address: String, reward: u32) -> (r: Transaction<VotePayload>) {
        Transaction {
            sender: String::from_str("Root"),
            payload: VotePayload { vote: String::from_str("Root") },
        }
    }
}

impl Transactional for CodePayload {
    open spec fn canon_spec(&self) -> Seq<char> {
        "code{"@ + str_field(self.file_name@) + ";"@ + str_field(self.contents@) + ";"@
            + str_field(self.commit_message@) + "}"@
    }

    open spec fn is_genesis(t: Transaction<Self>, miner_address: Seq<char>, reward: u32) -> bool {
        &&& t.sender@ == "Root"@
        &&& t.payload.file_name@ == "Readme.md"@
        &&& t.payload.contents@ == ""@
        &&& t.payload.commit_message@ == "Initialize Repository"@
    }

    fn canon(&self) -> (r: String) {
        let mut s = String::from_str("code{");
        append_field(&mut s, self.file_name.as_str());
        s.append(";");
        append_field(&mut s, self.contents.as_str());
        s.append(";");
        append_field(&mut s, self.commit_message.as_str());
        s.append("}");
        proof {
            assert(s@ =~= self.canon_spec());
        }
        s
    }

    fn genesis(miner_address: String, reward: u32) -> (r: Transaction<CodePayload>) {
        Transaction {
            sender: String::from_str("Root"),
            payload: CodePayload {
                file_name: String::from_str("Readme.md"),
                contents: String::from_str(""),
                commit_message: String::from_str("Initialize Repository"),
            },
        }
    }
}

} // verus!
