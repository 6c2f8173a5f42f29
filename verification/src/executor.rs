//! The governance effect: a passed proposal renames the token's symbol or
//! its name. Any other kind of proposal changes nothing.
use vstd::prelude::*;
use crate::errors::CustomError;
use crate::identity::Pubkey;

verus! {

/// The token record that a proposal may change.
#[derive(Clone, Debug)]
pub struct ChangableTokenAccount {
    pub name: String,
    pub symbol: String,
    pub balance: u64,
}

/// A token whose name and symbol a vote can change.
pub trait ChangableToken {
    /// The token's name.
    spec fn token_name(&self) -> Seq<char>;

    /// The token's symbol.
    spec fn token_symbol(&self) -> Seq<char>;

    /// The balance that the record reports.
    spec fn token_balance(&self) -> u64;

    /// Replaces the symbol and nothing else.
    fn change_symbol(&mut self, symbol: String) -> (r: Result<(), CustomError>)
        ensures
            r.is_ok(),
            final(self).token_symbol() == symbol@,
            final(self).token_name() == old(self).token_name(),
            final(self).token_balance() == old(self).token_balance(),
    ;

    /// Replaces the name and nothing else.
    fn change_name(&mut self, name: String) -> (r: Result<(), CustomError>)
        ensures
            r.is_ok(),
            final(self).token_name() == name@,
            final(self).token_symbol() == old(self).token_symbol(),
            final(self).token_balance() == old(self).token_balance(),
    ;

    /// The balance of `user`.
    fn balance_of(&self, user: Pubkey) -> (r: Result<u64, CustomError>)
        ensures
            r == Ok::<u64, CustomError>(self.token_balance()),
    ;
}

impl ChangableToken for ChangableTokenAccount {
    open spec fn token_name(&self) -> Seq<char> {
        self.name@
    }

    open spec fn token_symbol(&self) -> Seq<char> {
        self.symbol@
    }

    open spec fn token_balance(&self) -> u64 {
        self.balance
    }

    fn change_symbol(&mut self, symbol: String) -> (r: Result<(), CustomError>) {
        self.symbol = symbol;
        Ok(())
    }

    fn change_name(&mut self, name: String) -> (r: Result<(), CustomError>) {
        self.name = name;
        Ok(())
    }

    fn balance_of(&self, _user: Pubkey) -> (r: Result<u64, CustomError>) {
        Ok(self.balance)
    }
}

/// What a passed proposal does.
#[derive(Clone, Copy, Debug, PartialEq, Eq, Structural)]
pub enum ProposalKind {
    /// The proposed value becomes the token's symbol.
    RenameSymbol,
    /// The proposed value becomes the token's name.
    RenameName,
    /// Nothing is changed.
    NoOp,
}

/// The kind that a proposal's tag names: `newSymbol`, `newName`, or
/// anything else, which names no effect.
pub open spec fn kind_of(tag: Seq<char>) -> ProposalKind {
    if tag == "newSymbol"@ {
        ProposalKind::RenameSymbol
    } else if tag == "newName"@ {
        ProposalKind::RenameName
    } else {
        ProposalKind::NoOp
    }
}

/// Reads the kind of a proposal from its tag.
pub fn proposal_kind(tag: &String) -> (k: ProposalKind)
    ensures
        k == kind_of(tag@),
{
    let symbol_tag = "newSymbol".to_owned();
    let name_tag = "newName".to_owned();
    if *tag == symbol_tag {
        ProposalKind::RenameSymbol
    } else if *tag == name_tag {
        ProposalKind::RenameName
    } else {
        ProposalKind::NoOp
    }
}

/// Applies a passed proposal: exactly one field of the token record is
/// replaced by `new_value`, or none for `NoOp`.
pub fn apply(account: &mut ChangableTokenAccount, kind: ProposalKind, new_value: String) -> (r:
    Result<(), CustomError>)
    ensures
        r.is_ok(),
        final(account).balance == old(account).balance,
        final(account).symbol@ == (if kind == ProposalKind::RenameSymbol {
            new_value@
        } else {
            old(account).symbol@
        }),
        final(account).name@ == (if kind == ProposalKind::RenameName {
            new_value@
        } else {
            old(account).name@
        }),
{
    match kind {
        ProposalKind::RenameSymbol => account.change_symbol(new_value),
        ProposalKind::RenameName => account.change_name(new_value),
        ProposalKind::NoOp => Ok(()),
    }
}

} // verus!
