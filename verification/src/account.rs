//! Accounts, and writes of accounts.
use crate::ids::{Id, Pubkey};
use vstd::prelude::*;
use vstd::slice::*;

verus! {

/// An account: its balance, its data, and the program that owns it.
#[derive(Debug)]
pub struct Account {
    pub lamports: u64,
    pub data: Vec<u8>,
    pub owner: Pubkey,
    pub executable: bool,
    pub rent_epoch: u64,
}

/// What an account holds.
#[verifier::ext_equal]
pub struct AccountView {
    pub lamports: u64,
    pub data: Seq<u8>,
    pub owner: Seq<u8>,
    pub executable: bool,
    pub rent_epoch: u64,
}

impl View for Account {
    type V = AccountView;

    open spec fn view(&self) -> AccountView {
        AccountView {
            lamports: self.lamports,
            data: self.data@,
            owner: self.owner@,
            executable: self.executable,
            rent_epoch: self.rent_epoch,
        }
    }
}

/// The account of which nothing has been set.
pub open spec fn blank_account() -> AccountView {
    AccountView {
        lamports: 0,
        data: Seq::empty(),
        owner: crate::ids::zeros32(),
        executable: false,
        rent_epoch: 0,
    }
}

impl Clone for Account {
    fn clone(&self) -> (r: Self)
        ensures
            r@ == self@,
            r.lamports == self.lamports,
            r.data@ == self.data@,
            r.owner.0@ == self.owner.0@,
            r.executable == self.executable,
            r.rent_epoch == self.rent_epoch,
    {
        Account {
            lamports: self.lamports,
            data: slice_to_vec(self.data.as_slice()),
            owner: self.owner,
            executable: self.executable,
            rent_epoch: self.rent_epoch,
        }
    }
}

impl Default for Account {
    fn default() -> (r: Self)
        ensures
            r@ == blank_account(),
            r.lamports == 0,
            r.data@.len() == 0,
            forall|i: int| 0 <= i < 32 ==> r.owner.0@[i] == 0,
            !r.executable,
            r.rent_epoch == 0,
    {
        Account {
            lamports: 0,
            data: Vec::new(),
            owner: Pubkey(Id::empty().0),
            executable: false,
            rent_epoch: 0,
        }
    }
}

/// An account that is to be stored at an address.
#[derive(Debug)]
pub struct AccountWrite {
    pub key: Pubkey,
    pub account: Account,
}

/// What a write stores, and where.
#[verifier::ext_equal]
pub struct WriteView {
    pub key: Seq<u8>,
    pub account: AccountView,
}

impl View for AccountWrite {
    type V = WriteView;

    open spec fn view(&self) -> WriteView {
        WriteView { key: self.key@, account: self.account@ }
    }
}

/// The writes, in order.
pub open spec fn writes_of(writes: Seq<AccountWrite>) -> Seq<WriteView> {
    writes.map_values(|w: AccountWrite| w@)
}

/// The accounts after the writes, made in order over those before.
pub open spec fn written(
    accounts: Map<Seq<u8>, AccountView>,
    writes: Seq<WriteView>,
) -> Map<Seq<u8>, AccountView>
    decreases writes.len(),
{
    if writes.len() == 0 {
        accounts
    } else {
        written(accounts, writes.drop_last()).insert(writes.last().key, writes.last().account)
    }
}

/// What an optional account holds.
pub open spec fn account_of(account: Option<Account>) -> Option<AccountView> {
    match account {
        Some(a) => Some(a@),
        None => None,
    }
}

/// Writes in two parts come to the same as all of them in order.
pub proof fn written_in_parts(
    accounts: Map<Seq<u8>, AccountView>,
    first: Seq<WriteView>,
    second: Seq<WriteView>,
)
    ensures
        written(accounts, first + second) == written(written(accounts, first), second),
    decreases second.len(),
{
    if second.len() == 0 {
        assert(first + second =~= first);
    } else {
        assert((first + second).drop_last() =~= first + second.drop_last());
        assert((first + second).last() == second.last());
        written_in_parts(accounts, first, second.drop_last());
    }
}

/// The last write to an address decides what is read there.
pub proof fn last_write_wins(
    accounts: Map<Seq<u8>, AccountView>,
    writes: Seq<WriteView>,
    at: int,
)
    requires
        0 <= at < writes.len(),
        forall|i: int| at < i < writes.len() ==> (#[trigger] writes[i]).key != writes[at].key,
    ensures
        written(accounts, writes).contains_key(writes[at].key),
        written(accounts, writes)[writes[at].key] == writes[at].account,
    decreases writes.len(),
{
    if at < writes.len() - 1 {
        let init = writes.drop_last();
        assert(writes[writes.len() - 1].key != writes[at].key);
        assert forall|i: int| at < i < init.len() implies (#[trigger] init[i]).key
            != init[at].key by {
            assert(init[i] == writes[i]);
        }
        last_write_wins(accounts, init, at);
    }
}

/// An address that no write names reads as before.
pub proof fn unwritten_is_unchanged(
    accounts: Map<Seq<u8>, AccountView>,
    writes: Seq<WriteView>,
    key: Seq<u8>,
)
    requires
        forall|i: int| 0 <= i < writes.len() ==> (#[trigger] writes[i]).key != key,
    ensures
        written(accounts, writes).contains_key(key) == accounts.contains_key(key),
        accounts.contains_key(key) ==> written(accounts, writes)[key] == accounts[key],
    decreases writes.len(),
{
    if writes.len() > 0 {
        assert(writes[writes.len() - 1].key != key);
        assert forall|i: int| 0 <= i < writes.drop_last().len() implies (
        #[trigger] writes.drop_last()[i]).key != key by {
            assert(writes.drop_last()[i] == writes[i]);
        }
        unwritten_is_unchanged(accounts, writes.drop_last(), key);
    }
}

/// An account and a write are all that they hold: nothing of them is left out of, or
/// changed in, what is said of them.
pub proof fn accounts_are_what_they_hold(account: Account, write: AccountWrite)
    ensures
        account@.lamports == account.lamports,
        account@.data == account.data@,
        account@.owner == account.owner.0@,
        account@.executable == account.executable,
        account@.rent_epoch == account.rent_epoch,
        write@.key == write.key.0@,
        write@.account == write.account@,
        account_of(Some(account)) == Some(account@),
        account_of(None) is None,
{
}

/// A list of writes is each of its writes, in order.
pub proof fn writes_are_taken_one_by_one(writes: Seq<AccountWrite>, at: int)
    requires
        0 <= at < writes.len(),
    ensures
        writes_of(writes).len() == writes.len(),
        writes_of(writes)[at] == writes[at]@,
{
}

/// Writes change the accounts that they name, and no others: what was there, and is
/// not named, stays; what is there afterwards was there or is named.
pub proof fn writes_change_what_they_name(
    accounts: Map<Seq<u8>, AccountView>,
    writes: Seq<WriteView>,
    key: Seq<u8>,
)
    ensures
        written(accounts, Seq::empty()) == accounts,
        written(accounts, writes).contains_key(key) <==> (accounts.contains_key(key) || exists|
            i: int,
        |
            0 <= i < writes.len() && (#[trigger] writes[i]).key == key),
{
    if exists|i: int| 0 <= i < writes.len() && (#[trigger] writes[i]).key == key {
        named_is_written(accounts, writes, key);
    } else {
        unwritten_is_unchanged(accounts, writes, key);
    }
}

proof fn named_is_written(
    accounts: Map<Seq<u8>, AccountView>,
    writes: Seq<WriteView>,
    key: Seq<u8>,
)
    requires
        exists|i: int| 0 <= i < writes.len() && (#[trigger] writes[i]).key == key,
    ensures
        written(accounts, writes).contains_key(key),
    decreases writes.len(),
{
    if writes.last().key != key {
        let i = choose|i: int| 0 <= i < writes.len() && (#[trigger] writes[i]).key == key;
        assert(writes.drop_last()[i].key == key);
        named_is_written(accounts, writes.drop_last(), key);
    }
}

} // verus!
