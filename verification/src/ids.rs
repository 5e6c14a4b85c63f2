//! Identifiers: block ids and account addresses, each of 32 bytes.
use vstd::prelude::*;
use vstd::slice::*;

verus! {

/// The length of an id or an address.
pub const LEN: usize = 32;

/// The id of a block.
#[derive(Clone, Copy, Debug)]
pub struct Id(pub [u8; 32]);

/// The address of an account.
#[derive(Clone, Copy, Debug)]
pub struct Pubkey(pub [u8; 32]);

impl View for Id {
    type V = Seq<u8>;

    open spec fn view(&self) -> Seq<u8> {
        self.0@
    }
}

impl View for Pubkey {
    type V = Seq<u8>;

    open spec fn view(&self) -> Seq<u8> {
        self.0@
    }
}

/// Thirty-two zero bytes.
pub open spec fn zeros32() -> Seq<u8> {
    Seq::new(32, |i: int| 0u8)
}

/// Bytes brought to the length of an id: what is missing at the end is zero.
pub open spec fn padded(d: Seq<u8>) -> Seq<u8> {
    Seq::new(32, |i: int| if i < d.len() { d[i] } else { 0u8 })
}

/// A character of the base-58 alphabet: a letter or a digit, but none of `0`, `O`, `I` and `l`.
pub open spec fn is_base58_char(c: char) -> bool {
    ||| '1' <= c <= '9'
    ||| 'A' <= c <= 'Z' && c != 'I' && c != 'O'
    ||| 'a' <= c <= 'z' && c != 'l'
}

/// The text of a block id: base-58 of its bytes and of their checksum.
pub uninterp spec fn id_text(id: Seq<u8>) -> Seq<char>;

/// The text of an address: base-58 of its bytes.
pub uninterp spec fn pubkey_text(key: Seq<u8>) -> Seq<char>;

/// `avalanche_types::ids::Id` shown as text. The text depends on the 32 bytes
/// alone and is written in the base-58 alphabet. It is that of the bytes and of their
/// checksum, so no other id has it.
#[verifier::external_body]
fn show_id(bytes: &[u8; 32]) -> (r: String)
    ensures
        r@ == id_text(bytes@),
        forall|i: int| 0 <= i < r@.len() ==> is_base58_char(#[trigger] r@[i]),
        forall|other: Seq<u8>|
            other.len() == 32 && #[trigger] id_text(other) == r@ ==> other == bytes@,
{
    avalanche_types::ids::Id::from_slice(bytes).to_string()
}

/// `solana_pubkey::Pubkey` shown as text. The text depends on the 32 bytes
/// alone, is written in the base-58 alphabet, and no other address has it.
#[verifier::external_body]
fn show_pubkey(bytes: &[u8; 32]) -> (r: String)
    ensures
        r@ == pubkey_text(bytes@),
        forall|i: int| 0 <= i < r@.len() ==> is_base58_char(#[trigger] r@[i]),
        forall|other: Seq<u8>|
            other.len() == 32 && #[trigger] pubkey_text(other) == r@ ==> other == bytes@,
{
    solana_pubkey::Pubkey::from(*bytes).to_string()
}

fn same_bytes(a: &[u8; 32], b: &[u8; 32]) -> (r: bool)
    ensures
        r == (a@ == b@),
{
    let mut i: usize = 0;
    while i < 32
        invariant
            i <= 32,
            forall|j: int| 0 <= j < i ==> a@[j] == b@[j],
        decreases 32 - i,
    {
        if a[i] != b[i] {
            return false;
        }
        i = i + 1;
    }
    assert(a@ =~= b@);
    true
}

impl Id {
    /// The id of which every byte is zero.
    pub fn empty() -> (r: Self)
        ensures
            r@ == zeros32(),
            forall|i: int| 0 <= i < 32 ==> r.0@[i] == 0,
    {
        let r = Id([0u8; 32]);
        assert(r@ =~= zeros32());
        r
    }

    /// The id with these bytes; what is missing at the end is zero.
    pub fn from_slice(d: &[u8]) -> (r: Self)
        requires
            d@.len() <= 32,
        ensures
            r@ == padded(d@),
            forall|i: int| 0 <= i < d@.len() ==> r.0@[i] == d@[i],
            forall|i: int| d@.len() <= i < 32 ==> r.0@[i] == 0,
    {
        let mut bytes: [u8; 32] = [0u8; 32];
        let mut i: usize = 0;
        while i < d.len()
            invariant
                i <= d@.len() <= 32,
                forall|j: int| 0 <= j < i ==> bytes@[j] == d@[j],
                forall|j: int| i <= j < 32 ==> bytes@[j] == 0,
            decreases d@.len() - i,
        {
            bytes[i] = d[i];
            i = i + 1;
        }
        let r = Id(bytes);
        assert(r@ =~= padded(d@));
        r
    }

    /// The bytes of the id.
    pub fn to_vec(&self) -> (r: Vec<u8>)
        ensures
            r@ == self@,
            r@ == self.0@,
            r@.len() == 32,
    {
        slice_to_vec(self.0.as_slice())
    }

    /// The text of the id.
    pub fn show(&self) -> (r: String)
        ensures
            r@ == id_text(self@),
            r@ == id_text(self.0@),
            forall|i: int| 0 <= i < r@.len() ==> is_base58_char(#[trigger] r@[i]),
            forall|other: Seq<u8>|
                other.len() == 32 && #[trigger] id_text(other) == r@ ==> other == self@,
    {
        show_id(&self.0)
    }
}

impl Pubkey {
    /// The address with these bytes, if they are as many as an address has.
    pub fn from_vec(d: &Vec<u8>) -> (r: Option<Self>)
        ensures
            (r is Some) == (d@.len() == 32),
            r matches Some(key) ==> key@ == d@ && key.0@ == d@,
    {
        if d.len() != 32 {
            return None;
        }
        let id = Id::from_slice(d.as_slice());
        assert(padded(d@) =~= d@);
        Some(Pubkey(id.0))
    }

    /// The text of the address.
    pub fn show(&self) -> (r: String)
        ensures
            r@ == pubkey_text(self@),
            r@ == pubkey_text(self.0@),
            forall|i: int| 0 <= i < r@.len() ==> is_base58_char(#[trigger] r@[i]),
            forall|other: Seq<u8>|
                other.len() == 32 && #[trigger] pubkey_text(other) == r@ ==> other == self@,
    {
        show_pubkey(&self.0)
    }

    /// The two addresses have the same bytes.
    pub fn same(&self, other: &Pubkey) -> (r: bool)
        ensures
            r == (self@ == other@),
            r == (self.0@ == other.0@),
    {
        same_bytes(&self.0, &other.0)
    }
}

/// An id read back from its own bytes is the same id.
pub proof fn id_bytes_round_trip(id: Id)
    ensures
        padded(id@) == id@,
{
    assert(padded(id@) =~= id@);
}

/// An id and an address are their bytes, all of them and in order.
pub proof fn ids_are_their_bytes(id: Id, key: Pubkey)
    ensures
        id@ == id.0@,
        key@ == key.0@,
        id@.len() == 32,
        key@.len() == 32,
{
}

/// The bytes of which an id is made stand at its beginning, and nothing but zeros
/// follows: bytes of one length that make the same id are the same bytes.
pub proof fn padding_adds_only_zeros(d: Seq<u8>, other: Seq<u8>)
    requires
        d.len() <= 32,
        other.len() == d.len(),
    ensures
        padded(d).len() == 32,
        padded(d).take(d.len() as int) == d,
        padded(d).skip(d.len() as int) == zeros32().skip(d.len() as int),
        padded(d) == padded(other) ==> d == other,
        padded(Seq::empty()) == zeros32(),
        zeros32().len() == 32,
        forall|i: int| 0 <= i < 32 ==> #[trigger] zeros32()[i] == 0,
{
    assert(padded(d).take(d.len() as int) =~= d);
    assert(padded(other).take(d.len() as int) =~= other);
    assert(padded(d).skip(d.len() as int) =~= zeros32().skip(d.len() as int));
    assert(padded(Seq::empty()) =~= zeros32());
}

} // verus!
